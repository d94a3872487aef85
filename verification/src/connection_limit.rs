//! Plugins that limit how many connections a server accepts: in total, and
//! per remote ip. They keep the count of active connections; whoever calls
//! them keeps them behind a lock.

use vstd::prelude::*;

use std::collections::HashMap;

use crate::plugins::ConnectionEvent;
use crate::text::{nat_text, push_u64_text};

verus! {

broadcast use vstd::std_specs::hash::group_hash_axioms;

/// The count after a connection asked to come in: one more, unless the
/// maximum is reached.
pub open spec fn count_after_connect(count: u64, max: u64) -> u64 {
    if count < max {
        (count + 1) as u64
    } else {
        count
    }
}

/// The count after a connection went away; it wraps below zero as the
/// atomic counter does.
pub open spec fn count_after_disconnect(count: u64) -> u64 {
    if count == 0 {
        u64::MAX
    } else {
        (count - 1) as u64
    }
}

/// plugin to limit the max amount of connections totally
/// allowed concurrently.
#[derive(Debug)]
pub struct MaxConnections {
    count: u64,
    max: u64,
}

impl MaxConnections {
    /// The number of connections counted as active.
    pub closed spec fn spec_count(&self) -> u64 {
        self.count
    }

    /// The most connections allowed at once.
    pub closed spec fn spec_max(&self) -> u64 {
        self.max
    }

    pub fn new(max: u64) -> (r: Self)
        requires
            max > 0,
        ensures
            r.spec_count() == 0,
            r.spec_max() == max,
    {
        Self { count: 0, max }
    }

    /// This plugin prefers proper error messages instead
    /// of ignoring connections
    pub fn on_incoming(&self) -> (r: bool)
        ensures
            r,
    {
        true
    }

    /// A connection is allowed while fewer than the maximum are active;
    /// otherwise it is kicked with "server is full".
    pub fn on_connect(&mut self) -> (r: ConnectionEvent)
        ensures
            final(self).spec_max() == old(self).spec_max(),
            final(self).spec_count() == count_after_connect(old(self).spec_count(), old(self).spec_max()),
            old(self).spec_count() < old(self).spec_max() ==> r is Allow,
            old(self).spec_count() >= old(self).spec_max() ==> (r matches ConnectionEvent::Kicked(
                msg,
            ) && msg@ == "server is full"@),
    {
        if self.count >= self.max {
            ConnectionEvent::Kicked(String::from_str("server is full"))
        } else {
            self.count = self.count + 1;
            ConnectionEvent::Allow
        }
    }

    /// A connection went away; the count wraps as the atomic counter does.
    pub fn on_disconnect(&mut self)
        ensures
            final(self).spec_max() == old(self).spec_max(),
            final(self).spec_count() == count_after_disconnect(old(self).spec_count()),
    {
        self.count = self.count.wrapping_sub(1);
    }
}

/// The count never goes above the maximum: from a count within the limit,
/// `on_connect` leaves a count within the limit; and an allowed connection
/// followed by its disconnect gives the count back.
pub proof fn lemma_max_connections_bounded(count: u64, max: u64)
    requires
        count <= max,
    ensures
        count_after_connect(count, max) <= max,
        count < max ==> count_after_disconnect(count_after_connect(count, max)) == count,
{
}

/// A remote ip address, as its bits.
#[derive(Debug, Clone, Copy, PartialEq, Eq, Structural)]
pub enum IpAddress {
    V4(u32),
    V6(u128),
}

#[derive(Debug)]
pub struct LimitState {
    v4_connections: HashMap<u32, u64>,
    v6_connections: HashMap<u128, u64>,
}

/// plugin to disallow/ban certain connections
#[derive(Debug)]
pub struct ConnectionLimitPerIp {
    state: LimitState,
    max_per_ip: u64,
}

/// The active connections of `ip` in a map of counts (absent means none).
pub open spec fn count_in(m: Map<IpAddress, u64>, ip: IpAddress) -> u64 {
    if m.contains_key(ip) {
        m[ip]
    } else {
        0
    }
}

/// The active connections after one of `ip` went away: an ip without
/// connections is dropped.
pub open spec fn active_after_disconnect(m: Map<IpAddress, u64>, ip: IpAddress) -> Map<IpAddress, u64> {
    if count_in(m, ip) <= 1 {
        m.remove(ip)
    } else {
        m.insert(ip, (count_in(m, ip) - 1) as u64)
    }
}

/// An allowed connection followed by its disconnect leaves the active
/// connections as they were.
pub proof fn lemma_connect_then_disconnect(m: Map<IpAddress, u64>, ip: IpAddress)
    requires
        m.contains_key(ip) ==> m[ip] >= 1,
        count_in(m, ip) < u64::MAX,
    ensures
        active_after_disconnect(m.insert(ip, (count_in(m, ip) + 1) as u64), ip) == m,
{
    assert(active_after_disconnect(m.insert(ip, (count_in(m, ip) + 1) as u64), ip) =~= m);
}

impl ConnectionLimitPerIp {
    /// The active connections per ip.
    pub closed spec fn active(&self) -> Map<IpAddress, u64> {
        Map::new(
            |ip: IpAddress|
                match ip {
                    IpAddress::V4(a) => self.state.v4_connections@.contains_key(a),
                    IpAddress::V6(a) => self.state.v6_connections@.contains_key(a),
                },
            |ip: IpAddress|
                match ip {
                    IpAddress::V4(a) => self.state.v4_connections@[a],
                    IpAddress::V6(a) => self.state.v6_connections@[a],
                },
        )
    }

    /// The most connections allowed per ip.
    pub closed spec fn spec_max_per_ip(&self) -> u64 {
        self.max_per_ip
    }

    /// Every ip that is listed has between one and the maximum connections.
    pub open spec fn wf(&self) -> bool {
        &&& self.spec_max_per_ip() > 0
        &&& forall|ip: IpAddress|
            #[trigger] self.active().contains_key(ip) ==> 1 <= self.active()[ip]
                <= self.spec_max_per_ip()
    }

    pub fn new(max_per_ip: u64) -> (r: Self)
        requires
            max_per_ip > 0,
        ensures
            r.active() == Map::<IpAddress, u64>::empty(),
            r.spec_max_per_ip() == max_per_ip,
            r.wf(),
    {
        let r = Self {
            max_per_ip,
            state: LimitState { v4_connections: HashMap::new(), v6_connections: HashMap::new() },
        };
        assert(r.active() =~= Map::<IpAddress, u64>::empty());
        r
    }

    /// This plugin prefers proper error messages instead
    /// of ignoring connections
    pub fn on_incoming(&self) -> (r: bool)
        ensures
            r,
    {
        true
    }

    fn count_of(&self, ip: IpAddress) -> (r: u64)
        ensures
            r == count_in(self.active(), ip),
    {
        match ip {
            IpAddress::V4(a) => match self.state.v4_connections.get(&a) {
                Some(c) => *c,
                None => 0,
            },
            IpAddress::V6(a) => match self.state.v6_connections.get(&a) {
                Some(c) => *c,
                None => 0,
            },
        }
    }

    fn set_count(&mut self, ip: IpAddress, c: u64)
        ensures
            final(self).active() == old(self).active().insert(ip, c),
            final(self).spec_max_per_ip() == old(self).spec_max_per_ip(),
    {
        match ip {
            IpAddress::V4(a) => {
                self.state.v4_connections.insert(a, c);
            },
            IpAddress::V6(a) => {
                self.state.v6_connections.insert(a, c);
            },
        }
        assert(self.active() =~= old(self).active().insert(ip, c));
    }

    fn remove_ip(&mut self, ip: IpAddress)
        ensures
            final(self).active() == old(self).active().remove(ip),
            final(self).spec_max_per_ip() == old(self).spec_max_per_ip(),
    {
        match ip {
            IpAddress::V4(a) => {
                self.state.v4_connections.remove(&a);
            },
            IpAddress::V6(a) => {
                self.state.v6_connections.remove(&a);
            },
        }
        assert(self.active() =~= old(self).active().remove(ip));
    }

    /// A connection from `ip` is allowed while that ip has fewer than the
    /// maximum; otherwise it is kicked with a message naming the maximum.
    pub fn on_connect(&mut self, ip: IpAddress) -> (r: ConnectionEvent)
        ensures
            final(self).spec_max_per_ip() == old(self).spec_max_per_ip(),
            count_in(old(self).active(), ip) < old(self).spec_max_per_ip() ==> r is Allow
                && final(self).active() == old(self).active().insert(
                ip,
                (count_in(old(self).active(), ip) + 1) as u64,
            ),
            count_in(old(self).active(), ip) >= old(self).spec_max_per_ip() ==> (r matches ConnectionEvent::Kicked(msg)
                && msg@ == "a maximum of "@ + nat_text(old(self).spec_max_per_ip() as nat)
                + " connections per ip are allowed"@) && final(self).active() == old(
                self,
            ).active().insert(ip, count_in(old(self).active(), ip)),
            old(self).wf() ==> final(self).wf(),
    {
        let count = self.count_of(ip);
        if count < self.max_per_ip {
            self.set_count(ip, count + 1);
            ConnectionEvent::Allow
        } else {
            self.set_count(ip, count);
            proof {
                if old(self).wf() {
                    assert(old(self).active().contains_key(ip));
                    assert(self.active() =~= old(self).active());
                }
            }
            let mut msg = String::from_str("a maximum of ");
            push_u64_text(&mut msg, self.max_per_ip);
            msg.append(" connections per ip are allowed");
            ConnectionEvent::Kicked(msg)
        }
    }

    /// A connection from `ip` went away; an ip without connections is
    /// dropped from the list.
    pub fn on_disconnect(&mut self, ip: IpAddress)
        ensures
            final(self).spec_max_per_ip() == old(self).spec_max_per_ip(),
            final(self).active() == active_after_disconnect(old(self).active(), ip),
            old(self).wf() ==> final(self).wf(),
    {
        let count = self.count_of(ip);
        let count = count.saturating_sub(1);
        if count == 0 {
            self.remove_ip(ip);
        } else {
            self.set_count(ip, count);
        }
    }
}

} // verus!
