//! Why a connection was closed by the peer.

use vstd::prelude::*;


verus! {

/// The application error codes a connection is closed with.
#[derive(Debug, Clone, Copy, PartialEq, Eq, Structural, PartialOrd, Ord)]
pub enum ConnectionErrorCode {
    Kicked,
    Banned,
    Shutdown,
}

impl ConnectionErrorCode {
    /// The numeric code: kicked is `0x400`, the others follow.
    pub open spec fn spec_code(self) -> u64 {
        match self {
            ConnectionErrorCode::Kicked => 0x400,
            ConnectionErrorCode::Banned => 0x401,
            ConnectionErrorCode::Shutdown => 0x402,
        }
    }

    pub fn code(&self) -> (r: u64)
        ensures
            r == self.spec_code(),
    {
        match self {
            ConnectionErrorCode::Kicked => 0x400,
            ConnectionErrorCode::Banned => 0x401,
            ConnectionErrorCode::Shutdown => 0x402,
        }
    }

    /// The error code with this numeric value, if any.
    pub fn from_code(code: u64) -> (r: Option<Self>)
        ensures
            match r {
                Some(c) => c.spec_code() == code,
                None => code < 0x400 || code > 0x402,
            },
    {
        if code == 0x400 {
            Some(ConnectionErrorCode::Kicked)
        } else if code == 0x401 {
            Some(ConnectionErrorCode::Banned)
        } else if code == 0x402 {
            Some(ConnectionErrorCode::Shutdown)
        } else {
            None
        }
    }
}

/// Reading back the numeric code of an error code gives the error code.
pub proof fn lemma_code_roundtrip(c: ConnectionErrorCode)
    ensures
        0x400 <= c.spec_code() <= 0x402,
        forall|d: ConnectionErrorCode| d.spec_code() == c.spec_code() ==> d == c,
{
}

#[derive(Debug)]
pub enum BanType {
    Custom(String),
    Vpn,
    /// Banned by the admin
    Admin,
}

impl BanType {
    /// The reason as shown to users.
    pub open spec fn spec_text(&self) -> Seq<char> {
        match self {
            BanType::Vpn => "using a vpn"@,
            BanType::Admin => "by an admin"@,
            BanType::Custom(msg) => msg@,
        }
    }

    /// The reason as shown to users.
    pub fn to_display_string(&self) -> (r: String)
        ensures
            r@ == self.spec_text(),
    {
        match self {
            BanType::Vpn => String::from_str("using a vpn"),
            BanType::Admin => String::from_str("by an admin"),
            BanType::Custom(msg) => msg.clone(),
        }
    }
}

#[derive(Debug)]
pub struct Banned {
    pub msg: BanType,
    /// The end of the ban as UTC unix time: seconds and nanoseconds.
    pub until: Option<(i64, u32)>,
}

#[derive(Debug)]
pub enum KickType {
    Kick(String),
    Ban(Banned),
}

} // verus!
