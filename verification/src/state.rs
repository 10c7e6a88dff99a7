//! The process context: the cache, the bus and the egress queue.
//!
//! One context is made at startup and handed to every component. Nothing in
//! it is ambient: whoever holds the context holds all the shared state of
//! the bridge.

use vstd::prelude::*;
use crate::bus::Bus;
use crate::cache::LatestValues;
use crate::egress::EgressQueue;
use crate::models::{MessageKind, MessageView};
use crate::payload::Payload;

verus! {

/// The shared state of the bridge.
pub struct AppState {
    /// The last message of each kind, to seed clients that join.
    pub latest_values: LatestValues,
    /// The bus that carries every ingested message to the clients.
    pub tx: Bus,
    /// The queue of frames that clients sent and that await sending.
    pub udp_tx: EgressQueue,
}

/// An update for a dashboard, by what it is about.
#[derive(Debug, Clone)]
pub enum BroadcastMessage {
    SensorUpdate(Payload),
    SystemStatusUpdate(Payload),
    HardwareStatusUpdate(Payload),
}

/// The shared state as contracts see it.
pub struct AppStateView {
    /// The cached message of each kind that has one.
    pub latest_values: Map<MessageKind, MessageView>,
    /// For each subscriber, the messages that wait for it, oldest first.
    pub subscribers: Map<usize, Seq<MessageView>>,
    /// The bound on each subscriber's queue.
    pub bus_capacity: nat,
    /// The outbound frames that wait, oldest first.
    pub egress: Seq<Seq<u8>>,
    /// The bound on the egress queue.
    pub egress_capacity: nat,
    /// Whether the egress queue has been closed.
    pub egress_closed: bool,
}

impl View for AppState {
    type V = AppStateView;

    open spec fn view(&self) -> AppStateView {
        AppStateView {
            latest_values: self.latest_values@,
            subscribers: self.tx@,
            bus_capacity: self.tx.spec_capacity(),
            egress: self.udp_tx@,
            egress_capacity: self.udp_tx.spec_capacity(),
            egress_closed: self.udp_tx.spec_closed(),
        }
    }
}

impl AppState {
    /// Each part of the state is well formed.
    pub open spec fn wf(&self) -> bool {
        &&& self.latest_values.wf()
        &&& self.tx.wf()
        &&& self.udp_tx.wf()
    }

    /// A fresh context: nothing cached, nobody subscribed, nothing to send.
    /// Each subscriber will be able to fall `bus_capacity` messages behind,
    /// and `egress_capacity` frames will be able to await sending.
    pub fn new(bus_capacity: usize, egress_capacity: usize) -> (state: Self)
        ensures
            state.wf(),
            state@ == (AppStateView {
                latest_values: Map::empty(),
                subscribers: Map::empty(),
                bus_capacity: bus_capacity as nat,
                egress: Seq::empty(),
                egress_capacity: egress_capacity as nat,
                egress_closed: false,
            }),
    {
        AppState {
            latest_values: LatestValues::new(),
            tx: Bus::new(bus_capacity),
            udp_tx: EgressQueue::new(egress_capacity),
        }
    }
}

} // verus!
