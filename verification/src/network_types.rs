//! Plain network types: ordered channels, certificate checks and the
//! errors of unreliable sends.

use vstd::prelude::*;

use std::borrow::Cow;

verus! {

/// The channel in which reliable packets keep their order.
#[derive(Copy, Clone, Debug, PartialEq, Eq, Structural, Hash)]
pub enum NetworkInOrderChannel {
    Global,
    Custom(usize),
}

/// How a client checks the certificate of the server.
#[derive(Debug)]
pub enum NetworkClientCertCheckMode<'a> {
    CheckByCert { cert: Cow<'a, [u8]> },
    /// The hash of the server's public key.
    CheckByPubKeyHash { hash: &'a [u8; 32] },
    // not recommended, only useful for debugging
    DisableCheck,
}

/// The result of a request to send an unreliable unordered packet.
#[derive(Debug)]
pub enum UnreliableUnorderedError {
    /// The connection was closed, with the reason.
    ConnectionClosed(String),
    /// unreliable unordered packets are not supported
    Disabled,
    /// packet too large for a single unreliable unordered packet.
    TooLarge,
}

impl UnreliableUnorderedError {
    /// Whether a packet that could not be sent unreliably is sent reliably
    /// instead: when unreliable packets are off or the packet is too large,
    /// but not when the connection is closed.
    pub fn falls_back_to_reliable(&self) -> (r: bool)
        ensures
            r <==> !(self is ConnectionClosed),
    {
        match self {
            UnreliableUnorderedError::ConnectionClosed(_) => false,
            UnreliableUnorderedError::Disabled | UnreliableUnorderedError::TooLarge => true,
        }
    }
}

/// How far an automatic unordered send got.
#[derive(Debug, Clone, Copy, PartialEq, Eq, Structural)]
pub enum AutoSendState {
    Start,
    /// the packet was sent unreliably, the result is awaited
    TriedUnreliable,
    /// the packet was sent reliably after the unreliable send failed
    TriedReliable,
    Done,
}

/// What happened since the last step of an automatic send.
#[derive(Debug)]
pub enum AutoSendEvent {
    /// the send begins: whether the connection exists and the packet
    /// plugins prepared the packet
    Begin { has_connection: bool, packet_prepared: bool },
    /// the result of the unreliable send
    UnreliableResult(Result<(), UnreliableUnorderedError>),
    /// the reliable send finished (its error is only logged)
    ReliableResult,
}

/// What an automatic send does next.
#[derive(Debug, Clone, Copy, PartialEq, Eq, Structural)]
pub enum AutoSendAction {
    Nothing,
    SendUnreliable,
    /// send the packet that the unreliable send gave back, reliably
    SendReliable,
}

/// The next state and action of an automatic unordered send: the packet is
/// first sent unreliably (only with a connection and a prepared packet);
/// if that fails because unreliable packets are off or the packet is too
/// large it is sent once reliably; after that, after a success or a closed
/// connection nothing more is sent.
pub open spec fn spec_auto_send_step(state: AutoSendState, event: AutoSendEvent) -> (AutoSendState, AutoSendAction) {
    match (state, event) {
        (AutoSendState::Start, AutoSendEvent::Begin { has_connection, packet_prepared }) => if has_connection
            && packet_prepared {
            (AutoSendState::TriedUnreliable, AutoSendAction::SendUnreliable)
        } else {
            (AutoSendState::Done, AutoSendAction::Nothing)
        },
        (AutoSendState::TriedUnreliable, AutoSendEvent::UnreliableResult(res)) => match res {
            Err(e) => if !(e is ConnectionClosed) {
                (AutoSendState::TriedReliable, AutoSendAction::SendReliable)
            } else {
                (AutoSendState::Done, AutoSendAction::Nothing)
            },
            Ok(_) => (AutoSendState::Done, AutoSendAction::Nothing),
        },
        (AutoSendState::TriedReliable, AutoSendEvent::ReliableResult) => (
            AutoSendState::Done,
            AutoSendAction::Nothing,
        ),
        (s, _) => (s, AutoSendAction::Nothing),
    }
}

pub fn auto_send_step(state: AutoSendState, event: AutoSendEvent) -> (r: (AutoSendState, AutoSendAction))
    ensures
        r == spec_auto_send_step(state, event),
{
    match (state, event) {
        (AutoSendState::Start, AutoSendEvent::Begin { has_connection, packet_prepared }) => {
            if has_connection && packet_prepared {
                (AutoSendState::TriedUnreliable, AutoSendAction::SendUnreliable)
            } else {
                (AutoSendState::Done, AutoSendAction::Nothing)
            }
        },
        (AutoSendState::TriedUnreliable, AutoSendEvent::UnreliableResult(res)) => match res {
            Err(e) => {
                if e.falls_back_to_reliable() {
                    (AutoSendState::TriedReliable, AutoSendAction::SendReliable)
                } else {
                    (AutoSendState::Done, AutoSendAction::Nothing)
                }
            },
            Ok(_) => (AutoSendState::Done, AutoSendAction::Nothing),
        },
        (AutoSendState::TriedReliable, AutoSendEvent::ReliableResult) => (
            AutoSendState::Done,
            AutoSendAction::Nothing,
        ),
        (s, _) => (s, AutoSendAction::Nothing),
    }
}

/// The actions of an automatic send over a sequence of events.
pub open spec fn auto_send_trace(state: AutoSendState, events: Seq<AutoSendEvent>) -> Seq<AutoSendAction>
    decreases events.len(),
{
    if events.len() == 0 {
        Seq::empty()
    } else {
        let (next, a) = spec_auto_send_step(state, events[0]);
        seq![a] + auto_send_trace(next, events.drop_first())
    }
}

/// How often `a` occurs in `s`.
pub open spec fn count_action(s: Seq<AutoSendAction>, a: AutoSendAction) -> nat
    decreases s.len(),
{
    if s.len() == 0 {
        0
    } else {
        (if s[0] == a { 1nat } else { 0nat }) + count_action(s.drop_first(), a)
    }
}

/// An automatic send sends at most once unreliably and at most once
/// reliably, whatever happens; from a state past the unreliable send it
/// sends nothing unreliably, and once done nothing at all.
pub proof fn lemma_auto_send_at_most_once(state: AutoSendState, events: Seq<AutoSendEvent>)
    ensures
        count_action(auto_send_trace(state, events), AutoSendAction::SendUnreliable) <= (if state
            == AutoSendState::Start { 1nat } else { 0nat }),
        count_action(auto_send_trace(state, events), AutoSendAction::SendReliable) <= (if state
            == AutoSendState::Start || state == AutoSendState::TriedUnreliable { 1nat } else { 0nat }),
    decreases events.len(),
{
    if events.len() > 0 {
        let (next, a) = spec_auto_send_step(state, events[0]);
        lemma_auto_send_at_most_once(next, events.drop_first());
        let t = auto_send_trace(state, events);
        assert(t.drop_first() =~= auto_send_trace(next, events.drop_first()));
        assert(t[0] == a);
    }
}

/// Extra mouse inputs that can be bound.
#[derive(Debug, Clone, Copy, PartialEq, Eq, Structural, PartialOrd, Ord, Hash)]
pub enum MouseExtra {
    WheelDown,
    WheelUp,
}

} // verus!
