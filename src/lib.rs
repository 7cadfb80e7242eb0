//! Signal acquisition and transport layer of a sensor/actuator bridge: edge-timing
//! decoders, a single-slot handoff cell, flow-controlled byte channels and frame
//! splitting, each with machine-checked contracts.

pub mod interval;
pub mod protocol;
pub mod dht11;
pub mod signal;
pub mod statistics;
pub mod frequency;
pub mod queue;
pub mod network;
pub mod rpc;
pub mod seed;
