//! The connection bridge: one client, from its first frame to its last.
//!
//! A connection is seeded with the cached message of every kind and then
//! relays in both directions: what the bus publishes goes out to the client,
//! and the binary frames of the client go, unread, to the egress queue. The
//! two relays end together: when either stops, the other is cancelled.
//!
//! The socket stays with the caller. It writes what a step hands it, reads
//! what the client sends, and reports both here.

use vstd::prelude::*;
use crate::bus::messages_view;
use crate::cache::LatestValues;
use crate::egress::frames_view;
use crate::error::{EncodeError, ForwardError};
use crate::models::{frame_bytes, lemma_tag_table, MessageKind, MessageView, MessageWrapper};
use crate::payload::{field_writable, payload_writable};
use crate::state::{AppState, AppStateView};

verus! {

/// A frame as a client sent it.
#[derive(Debug)]
pub enum ClientFrame {
    /// A binary frame, taken to be a wire frame.
    Binary(Vec<u8>),
    /// A text frame.
    Text,
    /// The control frame that closes the connection.
    Close,
    /// Any other frame.
    Other,
}

/// What reading from the client gave.
#[derive(Debug)]
pub enum InboundEvent {
    /// The client sent a frame.
    Frame(ClientFrame),
    /// Reading failed, or the client is gone.
    Ended,
}

/// Why a connection was closed.
#[derive(Debug, Clone, Copy, PartialEq, Eq, Structural)]
pub enum CloseReason {
    /// A seed frame could not be written.
    SeedFailed,
    /// A relayed frame could not be written.
    WriteFailed,
    /// The client sent a close frame.
    ClientClosed,
    /// Reading from the client failed or ended.
    ReadEnded,
    /// A frame of the client could not be queued for sending.
    ForwardFailed(ForwardError),
}

/// Where a connection stands.
#[derive(Debug, Clone, Copy, PartialEq, Eq, Structural)]
pub enum ConnectionPhase {
    /// The seed frames are being written; no relay runs yet.
    Seeding,
    /// Both relays run.
    Relaying,
    /// Both relays have stopped.
    Closed(CloseReason),
}

/// Where one of the two relays of a connection stands.
#[derive(Debug, Clone, Copy, PartialEq, Eq, Structural)]
pub enum RelayState {
    /// Not started.
    Idle,
    /// At work.
    Running,
    /// Stopped of its own accord.
    Finished,
    /// Stopped because the other relay finished.
    Cancelled,
}

/// What the outbound relay does next.
#[derive(Debug)]
pub enum OutboundAction {
    /// Write this frame to the client as a binary frame, then step again.
    Send(Vec<u8>),
    /// Nothing waits: suspend until the next message is published.
    Wait,
    /// The connection is closed: the relay ends.
    Stop,
}

/// What the inbound relay does next.
#[derive(Debug, Clone, Copy, PartialEq, Eq, Structural)]
pub enum InboundAction {
    /// Read the next frame.
    Continue,
    /// The connection is closed: the relay ends.
    Stop,
}

/// One client connection.
#[derive(Debug, Clone, Copy, PartialEq, Eq, Structural)]
pub struct Connection {
    /// The id under which the connection is subscribed to the bus.
    pub subscriber: usize,
    /// Where the connection stands.
    pub phase: ConnectionPhase,
}

/// Whether `seed` is the frame of the cached message of `kind`.
pub open spec fn is_seed_of(
    cache: Map<MessageKind, MessageView>,
    kind: MessageKind,
    seed: Seq<u8>,
) -> bool {
    &&& cache.contains_key(kind)
    &&& payload_writable(cache[kind].payload)
    &&& seed == frame_bytes(cache[kind])
}

/// Whether `seed` is the frame of a cached message, filed under the kind
/// that its tag names.
pub open spec fn is_seed(cache: Map<MessageKind, MessageView>, seed: Seq<u8>) -> bool {
    &&& seed.len() > 0
    &&& MessageKind::spec_from_tag(seed[0]) matches Some(kind)
    &&& is_seed_of(cache, kind, seed)
}

/// Whether `seeds` seed a client from `cache`: each is the frame of a cached
/// message, no kind is seeded twice, and every cached message that can be
/// written has its frame among them.
pub open spec fn seeds_of(cache: Map<MessageKind, MessageView>, seeds: Seq<Seq<u8>>) -> bool {
    &&& forall|i: int| 0 <= i < seeds.len() ==> is_seed(cache, #[trigger] seeds[i])
    &&& forall|i: int, j: int|
        0 <= i < j < seeds.len() ==> (#[trigger] seeds[i])[0] != (#[trigger] seeds[j])[0]
    &&& forall|kind: MessageKind|
        cache.contains_key(kind) && payload_writable(cache[kind].payload) ==> exists|i: int|
            0 <= i < seeds.len() && #[trigger] seeds[i] == frame_bytes(cache[kind])
}

/// The frames of the messages of a snapshot that can be written, in the
/// order of the snapshot, seed a client.
proof fn lemma_snapshot_seeds(
    cache: Map<MessageKind, MessageView>,
    messages: Seq<MessageView>,
    source: Seq<int>,
    seeds: Seq<Seq<u8>>,
)
    requires
        source.len() == seeds.len(),
        forall|s: int|
            0 <= s < source.len() ==> 0 <= #[trigger] source[s] < messages.len()
                && payload_writable(messages[source[s]].payload) && seeds[s] == frame_bytes(
                messages[source[s]],
            ),
        forall|s: int, t: int|
            0 <= s < t < source.len() ==> #[trigger] source[s] < #[trigger] source[t],
        forall|j: int|
            0 <= j < messages.len() && payload_writable(messages[j].payload) ==> exists|s: int|
                0 <= s < source.len() && #[trigger] source[s] == j,
        forall|j: int|
            0 <= j < messages.len() ==> cache.contains_key(#[trigger] messages[j].kind)
                && cache[messages[j].kind] == messages[j],
        forall|j: int, k: int|
            0 <= j < k < messages.len() ==> #[trigger] messages[j].kind != #[trigger] messages[k].kind,
        forall|kind: MessageKind|
            cache.contains_key(kind) ==> exists|j: int|
                0 <= j < messages.len() && #[trigger] messages[j].kind == kind,
    ensures
        seeds_of(cache, seeds),
{
    assert forall|s: int| 0 <= s < seeds.len() implies is_seed(cache, #[trigger] seeds[s]) by {
        let message = messages[source[s]];
        lemma_tag_table(message.kind);
        assert(seeds[s][0] == message.kind.spec_tag());
        assert(is_seed_of(cache, message.kind, seeds[s]));
    }
    assert forall|s: int, t: int| 0 <= s < t < seeds.len() implies (#[trigger] seeds[s])[0] != (
    #[trigger] seeds[t])[0] by {
        let a = messages[source[s]].kind;
        let b = messages[source[t]].kind;
        assert(source[s] < source[t]);
        assert(a != b);
        lemma_tag_table(a);
        lemma_tag_table(b);
    }
    assert forall|kind: MessageKind|
        cache.contains_key(kind) && payload_writable(cache[kind].payload) implies exists|s: int|
        0 <= s < seeds.len() && #[trigger] seeds[s] == frame_bytes(cache[kind]) by {
        let j = choose|j: int| 0 <= j < messages.len() && #[trigger] messages[j].kind == kind;
        let s = choose|s: int| 0 <= s < source.len() && #[trigger] source[s] == j;
        assert(seeds[s] == frame_bytes(cache[kind]));
    }
}

/// Once every kind is cached in a form that can be written, a joining client
/// is seeded with one frame of each kind, and with one only.
pub proof fn lemma_seeds_cover_every_kind(
    cache: LatestValues,
    seeds: Seq<Seq<u8>>,
    kind: MessageKind,
)
    requires
        cache.wf(),
        seeds_of(cache@, seeds),
        forall|k: MessageKind| #[trigger]
            cache@.contains_key(k) && payload_writable(cache@[k].payload),
    ensures
        exists|i: int|
            {
                &&& 0 <= i < seeds.len()
                &&& #[trigger] seeds[i] == frame_bytes(cache@[kind])
                &&& forall|j: int|
                    0 <= j < seeds.len() && (#[trigger] seeds[j])[0] == kind.spec_tag() ==> j == i
            },
{
    assert(cache@.contains_key(kind));
    cache.lemma_filed_by_kind(kind);
    let i = choose|i: int|
        0 <= i < seeds.len() && #[trigger] seeds[i] == frame_bytes(cache@[kind]);
    assert(seeds[i][0] == kind.spec_tag());
}

/// How many messages at the head of `queue` cannot be written.
pub open spec fn unwritable_prefix(queue: Seq<MessageView>) -> nat
    decreases queue.len(),
{
    if queue.len() == 0 || payload_writable(queue[0].payload) {
        0
    } else {
        1 + unwritable_prefix(queue.skip(1))
    }
}

impl Connection {
    /// Where the outbound relay stands.
    pub open spec fn outbound(&self) -> RelayState {
        match self.phase {
            ConnectionPhase::Seeding => RelayState::Idle,
            ConnectionPhase::Relaying => RelayState::Running,
            ConnectionPhase::Closed(CloseReason::SeedFailed) => RelayState::Idle,
            ConnectionPhase::Closed(CloseReason::WriteFailed) => RelayState::Finished,
            ConnectionPhase::Closed(_) => RelayState::Cancelled,
        }
    }

    /// Where the inbound relay stands.
    pub open spec fn inbound(&self) -> RelayState {
        match self.phase {
            ConnectionPhase::Seeding => RelayState::Idle,
            ConnectionPhase::Relaying => RelayState::Running,
            ConnectionPhase::Closed(CloseReason::SeedFailed) => RelayState::Idle,
            ConnectionPhase::Closed(CloseReason::WriteFailed) => RelayState::Cancelled,
            ConnectionPhase::Closed(_) => RelayState::Finished,
        }
    }

    /// The relays run together and end together: at no time does one run
    /// while the other does not, and where one has finished the other was
    /// cancelled.
    pub proof fn lemma_relays_end_together(&self)
        ensures
            self.outbound() == RelayState::Running <==> self.inbound() == RelayState::Running,
            self.outbound() == RelayState::Running <==> self.phase == ConnectionPhase::Relaying,
            self.outbound() == RelayState::Finished ==> self.inbound() == RelayState::Cancelled,
            self.inbound() == RelayState::Finished ==> self.outbound() == RelayState::Cancelled,
    {
    }

    /// Where the outbound relay stands.
    pub fn outbound_state(&self) -> (relay: RelayState)
        ensures
            relay == self.outbound(),
    {
        match self.phase {
            ConnectionPhase::Seeding => RelayState::Idle,
            ConnectionPhase::Relaying => RelayState::Running,
            ConnectionPhase::Closed(CloseReason::SeedFailed) => RelayState::Idle,
            ConnectionPhase::Closed(CloseReason::WriteFailed) => RelayState::Finished,
            ConnectionPhase::Closed(_) => RelayState::Cancelled,
        }
    }

    /// Where the inbound relay stands.
    pub fn inbound_state(&self) -> (relay: RelayState)
        ensures
            relay == self.inbound(),
    {
        match self.phase {
            ConnectionPhase::Seeding => RelayState::Idle,
            ConnectionPhase::Relaying => RelayState::Running,
            ConnectionPhase::Closed(CloseReason::SeedFailed) => RelayState::Idle,
            ConnectionPhase::Closed(CloseReason::WriteFailed) => RelayState::Cancelled,
            ConnectionPhase::Closed(_) => RelayState::Finished,
        }
    }

    /// Whether the connection is closed.
    pub fn is_closed(&self) -> (closed: bool)
        ensures
            closed == (self.phase is Closed),
    {
        match self.phase {
            ConnectionPhase::Closed(_) => true,
            _ => false,
        }
    }

    /// Opens a connection for a client that has just joined: subscribes it
    /// to the bus, with an empty queue, and gives the frames to seed it
    /// with, one for each kind whose cached message can be written. What is
    /// published from now on waits in the queue until the seeds are out.
    pub fn open(state: &mut AppState) -> (r: (Connection, Vec<Vec<u8>>))
        requires
            old(state).wf(),
        ensures
            final(state).wf(),
            r.0.phase == ConnectionPhase::Seeding,
            !old(state)@.subscribers.contains_key(r.0.subscriber),
            final(state)@ == (AppStateView {
                subscribers: old(state)@.subscribers.insert(r.0.subscriber, Seq::empty()),
                ..old(state)@
            }),
            seeds_of(old(state)@.latest_values, frames_view(r.1@)),
    {
        let subscriber = state.tx.subscribe();
        let messages = state.latest_values.get_all();
        let ghost cache = state.latest_values@;
        assert(cache == old(state)@.latest_values);
        let mut seeds: Vec<Vec<u8>> = Vec::new();
        let ghost mut source: Seq<int> = Seq::empty();
        let mut i: usize = 0;
        while i < messages.len()
            invariant
                i <= messages@.len(),
                state.latest_values.wf(),
                cache == old(state)@.latest_values,
                source.len() == seeds@.len(),
                forall|s: int|
                    0 <= s < source.len() ==> 0 <= #[trigger] source[s] < i && payload_writable(
                        messages@[source[s]]@.payload,
                    ) && seeds@[s]@ == frame_bytes(messages@[source[s]]@),
                forall|s: int, t: int|
                    0 <= s < t < source.len() ==> #[trigger] source[s] < #[trigger] source[t],
                forall|j: int|
                    0 <= j < i && payload_writable(messages@[j]@.payload) ==> exists|s: int|
                        0 <= s < source.len() && #[trigger] source[s] == j,
                forall|j: int|
                    0 <= j < messages@.len() ==> cache.contains_key(#[trigger] messages@[j]@.kind)
                        && cache[messages@[j]@.kind] == messages@[j]@,
                forall|j: int, k: int|
                    0 <= j < k < messages@.len() ==> messages@[j]@.kind != messages@[k]@.kind,
                forall|kind: MessageKind|
                    cache.contains_key(kind) ==> exists|j: int|
                        0 <= j < messages@.len() && #[trigger] messages@[j]@.kind == kind,
            decreases messages@.len() - i,
        {
            match messages[i].to_bytes() {
                Ok(frame) => {
                    seeds.push(frame);
                    proof {
                        let ghost before = source;
                        source = source.push(i as int);
                        assert forall|j: int|
                            0 <= j < i + 1 && payload_writable(
                                messages@[j]@.payload,
                            ) implies exists|s: int|
                            0 <= s < source.len() && #[trigger] source[s] == j by {
                            if j < i {
                                let s = choose|s: int|
                                    0 <= s < before.len() && #[trigger] before[s] == j;
                                assert(source[s] == j);
                            } else {
                                assert(source[source.len() - 1] == j);
                            }
                        }
                    }
                },
                Err(_) => {},
            }
            i += 1;
        }
        proof {
            let listed = messages_view(messages@);
            assert forall|kind: MessageKind| cache.contains_key(kind) implies exists|j: int|
                0 <= j < listed.len() && #[trigger] listed[j].kind == kind by {
                let j = choose|j: int|
                    0 <= j < messages@.len() && #[trigger] messages@[j]@.kind == kind;
                assert(listed[j].kind == kind);
            }
            lemma_snapshot_seeds(cache, listed, source, frames_view(seeds@));
        }
        (Connection { subscriber, phase: ConnectionPhase::Seeding }, seeds)
    }

    /// Closes the connection and gives up its place on the bus.
    fn close(&mut self, state: &mut AppState, reason: CloseReason)
        requires
            old(state).wf(),
        ensures
            final(state).wf(),
            *final(self) == (Connection {
                subscriber: old(self).subscriber,
                phase: ConnectionPhase::Closed(reason),
            }),
            final(state)@ == (AppStateView {
                subscribers: old(state)@.subscribers.remove(old(self).subscriber),
                ..old(state)@
            }),
    {
        self.phase = ConnectionPhase::Closed(reason);
        state.tx.unsubscribe(self.subscriber);
    }

    /// Reports how the seeding went. Where every seed frame was written the
    /// two relays start; where one was not, the connection is closed at
    /// once. Outside the seeding phase the report changes nothing.
    pub fn finish_seeding(&mut self, state: &mut AppState, delivered: bool)
        requires
            old(state).wf(),
        ensures
            final(state).wf(),
            final(self).subscriber == old(self).subscriber,
            final(self).phase == (if old(self).phase != ConnectionPhase::Seeding {
                old(self).phase
            } else if delivered {
                ConnectionPhase::Relaying
            } else {
                ConnectionPhase::Closed(CloseReason::SeedFailed)
            }),
            final(state)@ == (if old(self).phase == ConnectionPhase::Seeding && !delivered {
                AppStateView {
                    subscribers: old(state)@.subscribers.remove(old(self).subscriber),
                    ..old(state)@
                }
            } else {
                old(state)@
            }),
    {
        match self.phase {
            ConnectionPhase::Seeding => {
                if delivered {
                    self.phase = ConnectionPhase::Relaying;
                } else {
                    self.close(state, CloseReason::SeedFailed);
                }
            },
            _ => {},
        }
    }

    /// One step of the outbound relay. While the connection relays, takes
    /// the oldest message that waits for it and gives its frame to write;
    /// a message that cannot be written is passed over. With nothing left
    /// the relay waits. Before the relays have started nothing is taken, and
    /// once the connection is closed the relay stops.
    pub fn next_outbound(&self, state: &mut AppState) -> (action: OutboundAction)
        requires
            old(state).wf(),
        ensures
            final(state).wf(),
            self.phase is Closed ==> action is Stop && final(state)@ == old(state)@,
            self.phase == ConnectionPhase::Seeding ==> action is Wait && final(state)@ == old(state)@,
            self.phase == ConnectionPhase::Relaying && !old(state)@.subscribers.contains_key(
                self.subscriber,
            ) ==> action is Wait && final(state)@ == old(state)@,
            self.phase == ConnectionPhase::Relaying && old(state)@.subscribers.contains_key(
                self.subscriber,
            ) ==> {
                let queue = old(state)@.subscribers[self.subscriber];
                let skipped = unwritable_prefix(queue);
                if skipped < queue.len() {
                    &&& action matches OutboundAction::Send(frame)
                    &&& frame@ == frame_bytes(queue[skipped as int])
                    &&& final(state)@ == (AppStateView {
                        subscribers: old(state)@.subscribers.insert(
                            self.subscriber,
                            queue.skip(skipped as int + 1),
                        ),
                        ..old(state)@
                    })
                } else {
                    &&& action is Wait
                    &&& final(state)@ == (AppStateView {
                        subscribers: old(state)@.subscribers.insert(
                            self.subscriber,
                            Seq::empty(),
                        ),
                        ..old(state)@
                    })
                }
            },
    {
        match self.phase {
            ConnectionPhase::Closed(_) => {
                return OutboundAction::Stop;
            },
            ConnectionPhase::Seeding => {
                return OutboundAction::Wait;
            },
            ConnectionPhase::Relaying => {},
        }
        let id = self.subscriber;
        if !state.tx.is_subscribed(id) {
            return OutboundAction::Wait;
        }
        let ghost queue = state@.subscribers[id];
        let ghost mut taken: nat = 0;
        proof {
            assert(queue.skip(0) =~= queue);
            assert(state@.subscribers =~= old(state)@.subscribers.insert(id, queue.skip(0)));
        }
        loop
            invariant
                state.wf(),
                self.phase == ConnectionPhase::Relaying,
                id == self.subscriber,
                queue == old(state)@.subscribers[id],
                old(state)@.subscribers.contains_key(id),
                taken <= queue.len(),
                taken + unwritable_prefix(queue.skip(taken as int)) == unwritable_prefix(queue),
                state@ == (AppStateView {
                    subscribers: old(state)@.subscribers.insert(id, queue.skip(taken as int)),
                    ..old(state)@
                }),
            decreases queue.len() - taken,
        {
            let ghost rest = queue.skip(taken as int);
            match state.tx.try_receive(id) {
                Some(message) => {
                    proof {
                        assert(rest.skip(1) =~= queue.skip(taken as int + 1));
                        assert(state@.subscribers =~= old(state)@.subscribers.insert(
                            id,
                            queue.skip(taken as int + 1),
                        ));
                    }
                    assert(message@ == queue[taken as int]);
                    match message.to_bytes() {
                        Ok(frame) => {
                            return OutboundAction::Send(frame);
                        },
                        Err(EncodeError::InvalidFieldNumber { index, number }) => {
                            proof {
                                assert(!field_writable(message@.payload[index as int]));
                                taken = taken + 1;
                            }
                        },
                    }
                },
                None => {
                    proof {
                        assert(rest =~= Seq::<MessageView>::empty());
                        assert(state@.subscribers =~= old(state)@.subscribers.insert(
                            id,
                            Seq::empty(),
                        ));
                    }
                    return OutboundAction::Wait;
                },
            }
        }
    }

    /// Reports that a relayed frame could not be written: the outbound relay
    /// finishes and the connection is closed. Outside the relaying phase the
    /// report changes nothing.
    pub fn write_failed(&mut self, state: &mut AppState)
        requires
            old(state).wf(),
        ensures
            final(state).wf(),
            final(self).subscriber == old(self).subscriber,
            final(self).phase == (if old(self).phase == ConnectionPhase::Relaying {
                ConnectionPhase::Closed(CloseReason::WriteFailed)
            } else {
                old(self).phase
            }),
            final(state)@ == (if old(self).phase == ConnectionPhase::Relaying {
                AppStateView {
                    subscribers: old(state)@.subscribers.remove(old(self).subscriber),
                    ..old(state)@
                }
            } else {
                old(state)@
            }),
    {
        match self.phase {
            ConnectionPhase::Relaying => {
                self.close(state, CloseReason::WriteFailed);
            },
            _ => {},
        }
    }

    /// One step of the inbound relay. While the connection relays, a binary
    /// frame goes to the back of the egress queue, byte for byte; where the
    /// queue refuses it the connection is closed. A close frame, or the end
    /// of the client's frames, closes the connection too. Any other frame is
    /// passed over. Outside the relaying phase nothing is forwarded and
    /// nothing changes.
    pub fn on_client(&mut self, state: &mut AppState, event: InboundEvent) -> (action:
        InboundAction)
        requires
            old(state).wf(),
        ensures
            final(state).wf(),
            final(self).subscriber == old(self).subscriber,
            action == (if final(self).phase is Closed {
                InboundAction::Stop
            } else {
                InboundAction::Continue
            }),
            old(self).phase != ConnectionPhase::Relaying ==> *final(self) == *old(self) && final(state)@ == old(state)@,
            old(self).phase == ConnectionPhase::Relaying ==> match event {
                InboundEvent::Frame(ClientFrame::Binary(bytes)) => {
                    if old(state)@.egress_closed || old(state)@.egress.len() >= old(state)@.egress_capacity {
                        &&& final(self).phase == ConnectionPhase::Closed(
                            CloseReason::ForwardFailed(
                                if old(state)@.egress_closed {
                                    ForwardError::QueueClosed
                                } else {
                                    ForwardError::QueueFullOnForward
                                },
                            ),
                        )
                        &&& final(state)@ == (AppStateView {
                            subscribers: old(state)@.subscribers.remove(old(self).subscriber),
                            ..old(state)@
                        })
                    } else {
                        &&& final(self).phase == ConnectionPhase::Relaying
                        &&& final(state)@ == (AppStateView {
                            egress: old(state)@.egress.push(bytes@),
                            ..old(state)@
                        })
                    }
                },
                InboundEvent::Frame(ClientFrame::Text) | InboundEvent::Frame(ClientFrame::Other) => {
                    &&& final(self).phase == ConnectionPhase::Relaying
                    &&& final(state)@ == old(state)@
                },
                InboundEvent::Frame(ClientFrame::Close) => {
                    &&& final(self).phase == ConnectionPhase::Closed(CloseReason::ClientClosed)
                    &&& final(state)@ == (AppStateView {
                        subscribers: old(state)@.subscribers.remove(old(self).subscriber),
                        ..old(state)@
                    })
                },
                InboundEvent::Ended => {
                    &&& final(self).phase == ConnectionPhase::Closed(CloseReason::ReadEnded)
                    &&& final(state)@ == (AppStateView {
                        subscribers: old(state)@.subscribers.remove(old(self).subscriber),
                        ..old(state)@
                    })
                },
            },
    {
        match self.phase {
            ConnectionPhase::Relaying => {},
            ConnectionPhase::Seeding => {
                return InboundAction::Continue;
            },
            ConnectionPhase::Closed(_) => {
                return InboundAction::Stop;
            },
        }
        match event {
            InboundEvent::Frame(ClientFrame::Binary(bytes)) => {
                match state.udp_tx.try_send(bytes) {
                    Ok(()) => InboundAction::Continue,
                    Err(e) => {
                        self.close(state, CloseReason::ForwardFailed(e));
                        InboundAction::Stop
                    },
                }
            },
            InboundEvent::Frame(ClientFrame::Text) => InboundAction::Continue,
            InboundEvent::Frame(ClientFrame::Other) => InboundAction::Continue,
            InboundEvent::Frame(ClientFrame::Close) => {
                self.close(state, CloseReason::ClientClosed);
                InboundAction::Stop
            },
            InboundEvent::Ended => {
                self.close(state, CloseReason::ReadEnded);
                InboundAction::Stop
            },
        }
    }
}

} // verus!
