//! Command protocol and dual-transport relay for a two-board navigation
//! device: the wire codec for the shared command vocabulary, the chunking
//! and reassembly needed to carry a frame over an MTU-limited link, the
//! bounded queues that decouple producers and consumers, and the routing
//! and retry decisions of the inter-board bridge.

pub mod commands;
pub mod adapter;
pub mod bridge;
pub mod codec;
pub mod gps;
pub mod queue;
pub mod reassembly;
pub mod state;
