//! What connection plugins decide about a connection.

use vstd::prelude::*;

use crate::errors::Banned;

verus! {

pub enum ConnectionEvent {
    /// The connection is allowed to connect
    Allow,
    Banned(Banned),
    /// E.g. if there is a connection limit
    Kicked(String),
}

} // verus!
