//! Error kinds of the decoding engine and of the capture transport.

use vstd::prelude::*;

verus! {

/// The layer at which a protocol code had no decoder.
#[derive(Debug, Clone, Copy, PartialEq, Eq, Structural)]
pub enum Layer {
    /// The dispatch from the data-link layer to the network layer.
    DataLink,
    /// The Ethernet header.
    Ethernet,
    /// The IPv4 header.
    IPv4,
}

impl Layer {
    /// The lower-case name of the layer.
    pub fn name(&self) -> (r: &'static str)
        ensures
            r@ == self.spec_name()@,
    {
        match self {
            Layer::DataLink => "datalink",
            Layer::Ethernet => "ethernet",
            Layer::IPv4 => "ipv4",
        }
    }

    /// The name that [`Layer::name`] returns.
    pub open spec fn spec_name(&self) -> &'static str {
        match self {
            Layer::DataLink => "datalink",
            Layer::Ethernet => "ethernet",
            Layer::IPv4 => "ipv4",
        }
    }
}

/// Why a byte sequence could not be decoded.
#[derive(Debug, Clone, Copy, PartialEq, Eq, Structural)]
pub enum DecodeError {
    /// The input holds fewer bytes than the field or layer needs.
    Truncated { needed: usize, available: usize },
    /// The version nibble is not the one of the decoder that was run.
    VersionMismatch { expected: u8, found: u8 },
    /// A protocol code that no decoder is registered for.
    UnsupportedProtocol { code: u16, layer: Layer },
    /// A bit that must be zero was set.
    ReservedBitSet,
}

/// A failed system call of the capture transport.
#[derive(Debug, Clone, Copy, PartialEq, Eq, Structural)]
pub struct OsError {
    /// The error number that the operating system reported.
    pub errno: i32,
}

/// Marker kept for callers that signal an unsupported protocol without
/// any finer detail.
#[derive(Debug, Clone, Copy, PartialEq, Eq, Structural)]
pub enum PacketError {
    ProtocolNotSupported,
}

impl PacketError {
    /// The text of the error: the name of its variant.
    pub fn message(&self) -> (r: String)
        ensures
            r@ == "ProtocolNotSupported"@,
    {
        "ProtocolNotSupported".to_owned()
    }
}

} // verus!
