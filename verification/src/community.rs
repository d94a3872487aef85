//! The community server's view of its connections: which account each
//! connection logged in with, who is kicked, and how a friend request is
//! stored (the smaller account id first, so each pair is stored once).

use vstd::prelude::*;

use std::collections::HashMap;

verus! {

broadcast use vstd::std_specs::hash::group_hash_axioms;

/// The id of an account.
pub type AccountId = i64;

/// The id of a network connection.
#[derive(Debug, Clone, Copy, PartialEq, Eq, Structural)]
pub struct NetworkConnectionId(pub u64);

/// What the server asks of the network.
#[derive(Debug, Clone, Copy, PartialEq, Eq, Structural)]
pub enum Event {
    Kick(NetworkConnectionId),
}

/// The pair stored when `own` befriends `other`: smaller id first; none
/// when both are the same account.
pub open spec fn friend_pair(own: AccountId, other: AccountId) -> Option<(AccountId, AccountId)> {
    if own == other {
        None
    } else if own < other {
        Some((own, other))
    } else {
        Some((other, own))
    }
}

/// The logged in users, by connection.
pub struct CommunityConnections {
    users: HashMap<u64, AccountId>,
}

impl CommunityConnections {
    /// The account of each connection that logged in.
    pub closed spec fn spec_users(&self) -> Map<u64, AccountId> {
        self.users@
    }

    pub fn new() -> (r: Self)
        ensures
            r.spec_users() == Map::<u64, AccountId>::empty(),
    {
        CommunityConnections { users: HashMap::new() }
    }

    /// A connection came in; `account_id` is the account that its
    /// certificate shows, if any. A connection without an account is kicked.
    pub fn on_connected(&mut self, con_id: NetworkConnectionId, account_id: Option<AccountId>) -> (r:
        Option<Event>)
        ensures
            match account_id {
                Some(a) => r is None && final(self).spec_users() == old(self).spec_users().insert(
                    con_id.0,
                    a,
                ),
                None => r == Some(Event::Kick(con_id)) && final(self).spec_users() == old(
                    self,
                ).spec_users(),
            },
    {
        match account_id {
            Some(account_id) => {
                self.users.insert(con_id.0, account_id);
                None
            },
            None => Some(Event::Kick(con_id)),
        }
    }

    /// A connection went away.
    pub fn on_disconnected(&mut self, con_id: NetworkConnectionId)
        ensures
            final(self).spec_users() == old(self).spec_users().remove(con_id.0),
    {
        self.users.remove(&con_id.0);
    }

    /// The account of a connection, if it logged in.
    pub fn account_of(&self, con_id: NetworkConnectionId) -> (r: Option<AccountId>)
        ensures
            r == self.spec_users().get(con_id.0),
    {
        match self.users.get(&con_id.0) {
            Some(a) => Some(*a),
            None => None,
        }
    }

    /// A friend request of connection `con_id` for account `add_account_id`:
    /// the pair to store, smaller id first. Nothing for a connection that
    /// did not log in, or for a request to befriend oneself.
    pub fn friend_request(&self, con_id: NetworkConnectionId, add_account_id: AccountId) -> (r:
        Option<(AccountId, AccountId)>)
        ensures
            r == match self.spec_users().get(con_id.0) {
                Some(own) => friend_pair(own, add_account_id),
                None => None,
            },
    {
        match self.account_of(con_id) {
            Some(own) => {
                if own == add_account_id {
                    None
                } else if own < add_account_id {
                    Some((own, add_account_id))
                } else {
                    Some((add_account_id, own))
                }
            },
            None => None,
        }
    }
}

/// Two accounts that befriend each other are stored as the same pair,
/// whichever of them asked.
pub proof fn lemma_friend_pair_symmetric(a: AccountId, b: AccountId)
    ensures
        friend_pair(a, b) == friend_pair(b, a),
{
}

} // verus!
