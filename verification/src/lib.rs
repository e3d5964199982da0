//! Decoding core of a packet sniffer: typed, layered decoding of raw
//! link-layer frames, and the buffer pool that lends receive buffers.

use vstd::prelude::*;

pub mod errors;
pub mod packet_memory;
pub mod packets;
pub mod transport;
pub mod wire;

verus! {

/// Largest payload of an Ethernet II frame, in bytes.
pub const MTU: usize = 1500;

} // verus!
