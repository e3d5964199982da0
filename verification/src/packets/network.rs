//! The network layer.

use vstd::prelude::*;
use ip::ipv4::IPv4;

pub mod ip;

verus! {

/// A decoded network-layer header.
#[derive(Debug, Clone, Copy, PartialEq, Eq, Structural)]
pub enum Network {
    IPv4(IPv4),
    /// Named only: no decoder produces it.
    IPv6,
}

} // verus!
