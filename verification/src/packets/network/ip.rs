//! The Internet Protocol.

use vstd::prelude::*;

pub mod ipv4;

verus! {

/// The version of the Internet Protocol that a header announces.
#[derive(Debug, Clone, Copy, PartialEq, Eq, PartialOrd, Ord, Structural)]
pub enum Version {
    V4,
    V6,
}

impl Version {
    /// The number that the version nibble of a header holds.
    pub open spec fn spec_number(self) -> u8 {
        match self {
            Version::V4 => 4,
            Version::V6 => 6,
        }
    }

    /// The number that the version nibble of a header holds.
    #[verifier::when_used_as_spec(spec_number)]
    pub fn number(self) -> (r: u8)
        ensures
            r == self.spec_number(),
    {
        match self {
            Version::V4 => 4,
            Version::V6 => 6,
        }
    }
}

} // verus!
