//! What a client needs to know before it connects.
use crate::error::{ErrorView, OxiQuicError};
use vstd::prelude::*;
use vstd::string::StringExecFns;

verus! {

/// The name of a server, as certificates are checked against.
#[verifier::external_type_specification]
#[verifier::external_body]
pub struct ExServerName<'a>(rustls::pki_types::ServerName<'a>);

/// The server that a text names.
pub uninterp spec fn server_name_of(text: Seq<char>) -> Option<
    rustls::pki_types::ServerName<'static>,
>;

/// `rustls::pki_types::ServerName::try_from`: the server that a text names, if it is an
/// address or a valid name. That depends on the text alone.
#[verifier::external_body]
fn parse_server_name(text: &str) -> (name: Option<rustls::pki_types::ServerName<'static>>)
    ensures
        name == server_name_of(text@),
{
    match rustls::pki_types::ServerName::try_from(text.to_string()) {
        Ok(name) => Some(name),
        Err(_) => None,
    }
}

/// The name of the server that a client is to connect to, given what came of reading it
/// from `text`.
///
/// # Errors
/// [`OxiQuicError::Tls`] if `text` names no server.
pub fn checked_server_name(
    text: &str,
    name: Option<rustls::pki_types::ServerName<'static>>,
) -> (r: Result<rustls::pki_types::ServerName<'static>, OxiQuicError>)
    ensures
        match name {
            Some(name) => r matches Ok(n) && n == name,
            None => r matches Err(e) && e@ == ErrorView::Tls("invalid server name "@ + text@),
        },
{
    match name {
        Some(name) => Ok(name),
        None => {
            let mut reason = String::from_str("invalid server name ");
            reason.append(text);
            Err(OxiQuicError::Tls(reason))
        },
    }
}

/// The name of the server that a client is to connect to.
///
/// # Errors
/// [`OxiQuicError::Tls`] if `text` names no server.
pub fn server_name(text: &str) -> (r: Result<
    rustls::pki_types::ServerName<'static>,
    OxiQuicError,
>)
    ensures
        match server_name_of(text@) {
            Some(name) => r matches Ok(n) && n == name,
            None => r matches Err(e) && e@ == ErrorView::Tls("invalid server name "@ + text@),
        },
{
    checked_server_name(text, parse_server_name(text))
}

} // verus!
