//! The decisions of an endpoint: which connection a datagram belongs to, when to
//! answer without one, and when to give up waiting.
//!
//! Sockets, tasks and timers are the caller's. It performs the actions decided here
//! and hands back what came of them.
pub mod connect;
pub mod demux;
pub mod driver;
pub mod retry;
pub mod routes;
