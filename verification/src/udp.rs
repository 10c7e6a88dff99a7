//! The decisions of the two UDP relays.
//!
//! The ingest listener turns each datagram into a cache update and a
//! publication; the egress sender drains the egress queue. Both are written
//! as steps: the caller owns the sockets, performs what a step asks for and
//! comes back with what happened.

use vstd::prelude::*;
use crate::bus::published;
use crate::error::FrameError;
use crate::models::{parse_frame, MessageKind, MessageWrapper};
use crate::state::{AppState, AppStateView};

verus! {

/// The largest datagram that the listener takes: the most that UDP carries.
pub const MAX_DATAGRAM_SIZE: usize = 65535;

/// The shared state after one datagram: a frame that holds a message
/// replaces the cached message of its kind and is published to every
/// subscriber; any other datagram changes nothing.
pub open spec fn ingested(state: AppStateView, datagram: Seq<u8>) -> AppStateView {
    match parse_frame(datagram) {
        Ok(message) => AppStateView {
            latest_values: state.latest_values.insert(message.kind, message),
            subscribers: published(state.subscribers, message, state.bus_capacity),
            ..state
        },
        Err(_) => state,
    }
}

/// The shared state after a run of datagrams, one after the other.
pub open spec fn ingested_all(state: AppStateView, datagrams: Seq<Seq<u8>>) -> AppStateView
    decreases datagrams.len(),
{
    if datagrams.len() == 0 {
        state
    } else {
        ingested(ingested_all(state, datagrams.drop_last()), datagrams.last())
    }
}

/// Whether a datagram is a frame that holds a message.
pub open spec fn is_valid_frame(datagram: Seq<u8>) -> bool {
    parse_frame(datagram) is Ok
}

/// Malformed datagrams among valid ones are as if they had never come: the
/// state after a run of datagrams is the state after its valid ones alone.
pub proof fn lemma_malformed_datagrams_are_skipped(state: AppStateView, datagrams: Seq<Seq<u8>>)
    ensures
        ingested_all(state, datagrams) == ingested_all(
            state,
            datagrams.filter(|d: Seq<u8>| is_valid_frame(d)),
        ),
    decreases datagrams.len(),
{
    let valid = |d: Seq<u8>| is_valid_frame(d);
    reveal(Seq::filter);
    if datagrams.len() > 0 {
        lemma_malformed_datagrams_are_skipped(state, datagrams.drop_last());
        let kept = datagrams.drop_last().filter(valid);
        if is_valid_frame(datagrams.last()) {
            assert(datagrams.filter(valid) == kept.push(datagrams.last()));
            assert(kept.push(datagrams.last()).drop_last() =~= kept);
        } else {
            assert(datagrams.filter(valid) == kept);
        }
    }
}

/// Takes one datagram in: decodes it, files the message in the cache and
/// publishes it to the bus. A datagram that does not decode is reported and
/// changes nothing.
pub fn ingest(state: &mut AppState, datagram: &[u8]) -> (r: Result<MessageKind, FrameError>)
    requires
        old(state).wf(),
    ensures
        final(state).wf(),
        final(state)@ == ingested(old(state)@, datagram@),
        r == match parse_frame(datagram@) {
            Ok(message) => Ok::<MessageKind, FrameError>(message.kind),
            Err(e) => Err::<MessageKind, FrameError>(e),
        },
{
    match MessageWrapper::from_bytes(datagram) {
        Ok(message) => {
            let kind = message.kind();
            state.latest_values.put(message.clone());
            state.tx.publish(&message);
            Ok(kind)
        },
        Err(e) => Err(e),
    }
}

/// Where the ingest listener stands.
#[derive(Debug, Clone, Copy, PartialEq, Eq, Structural)]
pub enum ListenerState {
    /// No socket yet.
    Unbound,
    /// The socket is bound; nothing was received yet.
    Bound,
    /// Datagrams are being received.
    ReceiveLoop,
    /// The socket could not be bound. The listener has ended.
    Failed,
}

/// What happened at the listener's socket.
#[derive(Debug)]
pub enum ListenerEvent {
    /// The socket was bound.
    BindSucceeded,
    /// The socket could not be bound.
    BindFailed,
    /// A datagram arrived.
    Datagram(Vec<u8>),
    /// Receiving failed.
    ReceiveFailed,
}

/// What the listener made of an event.
#[derive(Debug, Clone, Copy, PartialEq, Eq, Structural)]
pub enum ListenerOutcome {
    /// The listener is bound and goes on to receive.
    Listening,
    /// The datagram held a message of this kind, now cached and published.
    Published(MessageKind),
    /// The datagram held no message and was dropped.
    Rejected(FrameError),
    /// Receiving failed; the listener goes on.
    ReceiveError,
    /// Binding failed; the listener ends.
    Fatal,
    /// The event does not belong to the state and was passed over.
    Ignored,
}

impl ListenerState {
    /// Whether the listener has a socket to receive from.
    pub open spec fn receiving(self) -> bool {
        self == ListenerState::Bound || self == ListenerState::ReceiveLoop
    }

    /// Whether the listener has a socket to receive from.
    pub fn is_receiving(self) -> (yes: bool)
        ensures
            yes == self.receiving(),
    {
        match self {
            ListenerState::Bound => true,
            ListenerState::ReceiveLoop => true,
            _ => false,
        }
    }
}

/// One step of the ingest listener.
///
/// Binding moves an unbound listener to `Bound`, or to `Failed` where it
/// did not succeed. A bound listener takes each datagram in and moves to
/// `ReceiveLoop`, where it stays: neither a datagram that does not decode
/// nor a failed receive ends it. An event that does not belong to the state
/// changes nothing.
pub fn udp_listener(state: &mut AppState, phase: ListenerState, event: &ListenerEvent) -> (r: (
    ListenerState,
    ListenerOutcome,
))
    requires
        old(state).wf(),
    ensures
        final(state).wf(),
        match *event {
            ListenerEvent::BindSucceeded => final(state)@ == old(state)@ && r == (
                if phase == ListenerState::Unbound {
                    (ListenerState::Bound, ListenerOutcome::Listening)
                } else {
                    (phase, ListenerOutcome::Ignored)
                }
            ),
            ListenerEvent::BindFailed => final(state)@ == old(state)@ && r == (
                if phase == ListenerState::Unbound {
                    (ListenerState::Failed, ListenerOutcome::Fatal)
                } else {
                    (phase, ListenerOutcome::Ignored)
                }
            ),
            ListenerEvent::Datagram(datagram) => if phase.receiving() {
                &&& final(state)@ == ingested(old(state)@, datagram@)
                &&& r.0 == ListenerState::ReceiveLoop
                &&& r.1 == match parse_frame(datagram@) {
                    Ok(message) => ListenerOutcome::Published(message.kind),
                    Err(e) => ListenerOutcome::Rejected(e),
                }
            } else {
                final(state)@ == old(state)@ && r == (phase, ListenerOutcome::Ignored)
            },
            ListenerEvent::ReceiveFailed => final(state)@ == old(state)@ && r == (
                if phase.receiving() {
                    (ListenerState::ReceiveLoop, ListenerOutcome::ReceiveError)
                } else {
                    (phase, ListenerOutcome::Ignored)
                }
            ),
        },
{
    match event {
        ListenerEvent::BindSucceeded => {
            if phase == ListenerState::Unbound {
                (ListenerState::Bound, ListenerOutcome::Listening)
            } else {
                (phase, ListenerOutcome::Ignored)
            }
        },
        ListenerEvent::BindFailed => {
            if phase == ListenerState::Unbound {
                (ListenerState::Failed, ListenerOutcome::Fatal)
            } else {
                (phase, ListenerOutcome::Ignored)
            }
        },
        ListenerEvent::Datagram(datagram) => {
            if phase.is_receiving() {
                match ingest(state, datagram.as_slice()) {
                    Ok(kind) => (ListenerState::ReceiveLoop, ListenerOutcome::Published(kind)),
                    Err(e) => (ListenerState::ReceiveLoop, ListenerOutcome::Rejected(e)),
                }
            } else {
                (phase, ListenerOutcome::Ignored)
            }
        },
        ListenerEvent::ReceiveFailed => {
            if phase.is_receiving() {
                (ListenerState::ReceiveLoop, ListenerOutcome::ReceiveError)
            } else {
                (phase, ListenerOutcome::Ignored)
            }
        },
    }
}

/// What the egress sender does next.
#[derive(Debug)]
pub enum SenderAction {
    /// Send this frame to the target, then step again. A send that fails is
    /// reported by the caller; the frame is not tried again.
    Send(Vec<u8>),
    /// Nothing waits: suspend until a frame is queued or the queue closes.
    Wait,
    /// The queue is closed and drained: the sender ends.
    Stop,
}

/// One step of the egress sender: takes the oldest frame that waits, byte
/// for byte as it was queued. With nothing waiting it ends where the queue
/// is closed and waits where it is not.
pub fn udp_sender(state: &mut AppState) -> (action: SenderAction)
    requires
        old(state).wf(),
    ensures
        final(state).wf(),
        match action {
            SenderAction::Send(frame) => {
                &&& old(state)@.egress.len() > 0
                &&& frame@ == old(state)@.egress[0]
                &&& final(state)@ == (AppStateView {
                    egress: old(state)@.egress.skip(1),
                    ..old(state)@
                })
            },
            SenderAction::Wait => {
                &&& old(state)@.egress.len() == 0
                &&& !old(state)@.egress_closed
                &&& final(state)@ == old(state)@
            },
            SenderAction::Stop => {
                &&& old(state)@.egress.len() == 0
                &&& old(state)@.egress_closed
                &&& final(state)@ == old(state)@
            },
        },
{
    match state.udp_tx.pop() {
        Some(frame) => SenderAction::Send(frame),
        None => {
            if state.udp_tx.is_closed() {
                SenderAction::Stop
            } else {
                SenderAction::Wait
            }
        },
    }
}

} // verus!
