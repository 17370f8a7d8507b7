# oxiquic-transport

The transport core of a QUIC implementation (RFC 9000, 9001, 9002 and 9221), with its
behaviour stated in contracts and proved by Verus.

* `src/` is the library. `connection` holds the state machine of a connection: arriving
  packets and frames, acknowledgements and loss, key updates, path migration. `endpoint`
  holds the decisions of clients and servers: which connection a datagram belongs to,
  when a Retry or a Version Negotiation packet is sent, what a driver does next. The
  other modules are the parts they are made of: frames and packets on the wire, transport
  parameters, flow control, streams, reassembly, sent packets, connection identifiers.
* `tests/` runs the library, against a TLS peer where a handshake is needed.
* `app/` is the asynchronous shell around the library: sockets, tasks and timers.

A contract says what an operation makes of the state as a mathematical value: that of a
connection is `connection::model::Conn`. Functions named `law_*` state what holds over
several operations. What TLS and keys compute is left to rustls: `session` says what is
believed of it.
