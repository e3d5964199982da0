//! The data-link layer.

use vstd::prelude::*;
use crate::errors::DecodeError;
use crate::packets::Parsable;
use ethernet::{EtherType, Ethernet};

pub mod ethernet;

verus! {

/// A decoded data-link header.
#[derive(Debug, Clone, Copy, PartialEq, Eq, Structural)]
pub enum DataLink {
    Ethernet(Ethernet),
}

impl DataLink {
    /// The tag by which the header names the protocol that it carries.
    pub open spec fn spec_protocol_tag(&self) -> EtherType {
        match self {
            DataLink::Ethernet(ethernet) => ethernet.ethertype,
        }
    }

    /// The tag by which the header names the protocol that it carries.
    #[verifier::when_used_as_spec(spec_protocol_tag)]
    pub fn protocol_tag(&self) -> (r: EtherType)
        ensures
            r == self.spec_protocol_tag(),
    {
        match self {
            DataLink::Ethernet(ethernet) => ethernet.ethertype,
        }
    }
}

impl Parsable for DataLink {
    /// Every frame is taken to be an Ethernet frame.
    open spec fn spec_parse(source: Seq<u8>) -> Result<(Seq<u8>, Self), DecodeError> {
        match Ethernet::spec_parse(source) {
            Ok((rest, ethernet)) => Ok((rest, DataLink::Ethernet(ethernet))),
            Err(e) => Err(e),
        }
    }

    proof fn lemma_rest_is_suffix(source: Seq<u8>) {
        Ethernet::lemma_rest_is_suffix(source);
    }

    fn parse(source: &[u8]) -> (r: Result<(&[u8], Self), DecodeError>) {
        let (rem, ethernet) = Ethernet::parse(source)?;
        Ok((rem, DataLink::Ethernet(ethernet)))
    }
}

} // verus!
