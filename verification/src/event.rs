//! How a closed connection is reported.

use vstd::prelude::*;

use crate::errors::{BanType, Banned, ConnectionErrorCode};

verus! {

#[derive(Debug)]
pub enum NetworkEventConnectingClosed {
    /// kicked for the reason
    Kicked(String),
    /// banned for the reason
    Banned(Banned),
    /// shutdown was requested
    Shutdown(String),
    /// application restarted
    Reset,
    Other(String),
}

/// The ban reported when the peer's reason could not be read as a ban.
pub open spec fn is_unknown_ban(b: Banned) -> bool {
    b.msg matches BanType::Custom(m) && m@ == "unknown reason"@ && b.until is None
}

/// How a connection that the peer closed with an application error code is
/// reported: by the code (kicked, banned, shutdown) with the peer's reason,
/// or as another reason for an unknown code. For a ban, `parsed_ban` is
/// the reason read as a ban, if it could be read.
pub fn application_closed(error_code: u64, reason: String, parsed_ban: Option<Banned>) -> (r:
    NetworkEventConnectingClosed)
    ensures
        error_code == 0x400 ==> (r matches NetworkEventConnectingClosed::Kicked(t) && t@ == reason@),
        error_code == 0x401 ==> (r matches NetworkEventConnectingClosed::Banned(b) && match parsed_ban {
            Some(p) => b == p,
            None => is_unknown_ban(b),
        }),
        error_code == 0x402 ==> (r matches NetworkEventConnectingClosed::Shutdown(t) && t@ == reason@),
        (error_code < 0x400 || error_code > 0x402) ==> (r matches NetworkEventConnectingClosed::Other(t)
            && t@ == reason@),
{
    match ConnectionErrorCode::from_code(error_code) {
        Some(code) => match code {
            ConnectionErrorCode::Kicked => NetworkEventConnectingClosed::Kicked(reason),
            ConnectionErrorCode::Banned => NetworkEventConnectingClosed::Banned(
                match parsed_ban {
                    Some(b) => b,
                    None => Banned {
                        msg: BanType::Custom(String::from_str("unknown reason")),
                        until: None,
                    },
                },
            ),
            ConnectionErrorCode::Shutdown => NetworkEventConnectingClosed::Shutdown(reason),
        },
        None => NetworkEventConnectingClosed::Other(reason),
    }
}

} // verus!
