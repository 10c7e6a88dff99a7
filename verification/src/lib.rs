//! A bridge between a UDP telemetry link and a set of browser clients.
//!
//! Every message travels as a wire frame: one kind-tag byte followed by the
//! protobuf encoding of the payload. The crate holds the frame codec, the
//! latest-value cache, the broadcast bus with its drop-oldest policy, the
//! bounded egress queue and the decisions of the ingest, egress and
//! per-connection relays. Sockets and scheduling are left to the caller.

pub mod varint;
pub mod payload;
pub mod error;
pub mod models;
pub mod cache;
pub mod bus;
pub mod egress;
pub mod state;
pub mod udp;
pub mod api;
