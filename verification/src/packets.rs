//! The decoded packet and the contract that every decoder meets.

use vstd::prelude::*;
use crate::errors::{DecodeError, Layer};
use datalink::ethernet::{EtherType, Ethernet};
use datalink::DataLink;
use network::ip::ipv4::IPv4;
use network::Network;

pub mod datalink;
pub mod network;

verus! {

/// A decoder's result with the bytes left over taken as a sequence.
pub open spec fn decoded<T>(r: Result<(&[u8], T), DecodeError>) -> Result<
    (Seq<u8>, T),
    DecodeError,
> {
    match r {
        Ok((rest, value)) => Ok((rest@, value)),
        Err(e) => Err(e),
    }
}

/// A type that is decoded from the front of a byte sequence.
pub trait Parsable: Sized {
    /// What decoding `source` yields: the bytes left over beside the value,
    /// or the reason why `source` does not start with one.
    spec fn spec_parse(source: Seq<u8>) -> Result<(Seq<u8>, Self), DecodeError>;

    /// Decoding consumes a prefix of the input: what is left over is the
    /// end of the input.
    proof fn lemma_rest_is_suffix(source: Seq<u8>)
        ensures
            Self::spec_parse(source) matches Ok((rest, _)) ==> rest.len() <= source.len() && rest
                == source.skip(source.len() - rest.len()),
    ;

    /// Decodes a value from the front of `source` and returns it with the
    /// bytes that were not consumed.
    fn parse(source: &[u8]) -> (r: Result<(&[u8], Self), DecodeError>)
        ensures
            decoded(r) == Self::spec_parse(source@),
    ;
}

/// A decoder of the network layer that a protocol tag can select.
#[derive(Debug, Clone, Copy, PartialEq, Eq, Structural)]
pub enum NetworkDecoder {
    IPv4,
}

impl NetworkDecoder {
    /// What the decoder yields on `source`.
    pub open spec fn spec_decode(self, source: Seq<u8>) -> Result<(Seq<u8>, Network), DecodeError> {
        match self {
            NetworkDecoder::IPv4 => match IPv4::spec_parse(source) {
                Ok((rest, header)) => Ok((rest, Network::IPv4(header))),
                Err(e) => Err(e),
            },
        }
    }

    /// Runs the decoder on `source`.
    pub fn decode(self, source: &[u8]) -> (r: Result<(&[u8], Network), DecodeError>)
        ensures
            decoded(r) == self.spec_decode(source@),
    {
        match self {
            NetworkDecoder::IPv4 => {
                let (payload, header) = IPv4::parse(source)?;
                Ok((payload, Network::IPv4(header)))
            },
        }
    }
}

/// The network decoders by the tag that selects them.
pub open spec fn registry() -> Seq<(EtherType, NetworkDecoder)> {
    seq![(EtherType::IPv4, NetworkDecoder::IPv4)]
}

/// The table of the network decoders: one entry for each tag that has one.
pub fn network_decoders() -> (r: [(EtherType, NetworkDecoder); 1])
    ensures
        r@ == registry(),
{
    let table = [(EtherType::IPv4, NetworkDecoder::IPv4)];
    assert(table@ =~= registry());
    table
}

/// The decoder of the first entry of `table` with the tag `tag`.
pub open spec fn spec_lookup(table: Seq<(EtherType, NetworkDecoder)>, tag: EtherType) -> Option<
    NetworkDecoder,
>
    decreases table.len(),
{
    if table.len() == 0 {
        None
    } else if table[0].0 == tag {
        Some(table[0].1)
    } else {
        spec_lookup(table.skip(1), tag)
    }
}

/// Looks the decoder for `tag` up in `table`.
pub fn lookup(table: &[(EtherType, NetworkDecoder)], tag: EtherType) -> (r: Option<NetworkDecoder>)
    ensures
        r == spec_lookup(table@, tag),
{
    let mut i: usize = 0;
    assert(table@.skip(0) =~= table@);
    while i < table.len()
        invariant
            i <= table@.len(),
            spec_lookup(table@, tag) == spec_lookup(table@.skip(i as int), tag),
        decreases table@.len() - i,
    {
        if table[i].0 == tag {
            return Some(table[i].1);
        }
        assert(table@.skip(i as int).skip(1) =~= table@.skip(i + 1));
        i += 1;
    }
    None
}

/// A decoded frame, layer by layer. A layer is there only if it was decoded
/// in full.
#[derive(Debug, Clone, Copy, PartialEq, Eq)]
pub struct Packet {
    /// Layer 2 of the OSI model.
    pub datalink: Option<DataLink>,
    /// Layer 3 of the OSI model.
    pub network: Option<Network>,
}

impl Packet {
    /// Dispatch by the tag of the data-link header. Where the frame starts
    /// with an Ethernet header that names IPv4, and an IPv4 header follows
    /// it, both layers are there and the bytes left over are those after
    /// the IPv4 header; what the IPv4 decoder refuses is refused with its
    /// error. Where the Ethernet header names another protocol, the frame
    /// is refused with the code of that protocol, at the data-link layer.
    pub proof fn lemma_dispatch(source: Seq<u8>)
        ensures
            Ethernet::spec_parse(source) matches Ok((payload, ethernet)) ==> {
                if ethernet.ethertype == EtherType::IPv4 {
                    match IPv4::spec_parse(payload) {
                        Ok((rest, header)) => Packet::spec_parse(source) == Ok::<_, DecodeError>(
                            (
                                rest,
                                Packet {
                                    datalink: Some(DataLink::Ethernet(ethernet)),
                                    network: Some(Network::IPv4(header)),
                                },
                            ),
                        ),
                        Err(e) => Packet::spec_parse(source) == Err::<(Seq<u8>, Packet), _>(e),
                    }
                } else {
                    Packet::spec_parse(source) == Err::<(Seq<u8>, Packet), _>(
                        DecodeError::UnsupportedProtocol {
                            code: ethernet.ethertype.spec_code(),
                            layer: Layer::DataLink,
                        },
                    )
                }
            },
            Ethernet::spec_parse(source) matches Err(e) ==> Packet::spec_parse(source) == Err::<
                (Seq<u8>, Packet),
                _,
            >(e),
    {
        reveal_with_fuel(spec_lookup, 2);
    }

    /// Decoding finds an encoded frame again: from an Ethernet header that
    /// names IPv4, followed by an IPv4 header, both layers are decoded as
    /// they were encoded, with all that follows them left over.
    pub proof fn lemma_parse_encode(ethernet: Ethernet, header: IPv4, rest: Seq<u8>)
        requires
            ethernet.ethertype == EtherType::IPv4,
            header.wf(),
        ensures
            Packet::spec_parse(ethernet.encode() + header.encode() + rest) == Ok::<_, DecodeError>(
                (
                    rest,
                    Packet {
                        datalink: Some(DataLink::Ethernet(ethernet)),
                        network: Some(Network::IPv4(header)),
                    },
                ),
            ),
    {
        let payload = header.encode() + rest;
        assert(ethernet.encode() + header.encode() + rest =~= ethernet.encode() + payload);
        Ethernet::lemma_parse_encode(ethernet, payload);
        IPv4::lemma_parse_encode(header, rest);
        Packet::lemma_dispatch(ethernet.encode() + payload);
    }
}

impl Parsable for Packet {
    /// The data-link header is decoded first; its tag selects the decoder
    /// of the network header from the registry, and a tag without a decoder
    /// is reported with its code. The bytes left over are those after the
    /// network header.
    open spec fn spec_parse(source: Seq<u8>) -> Result<(Seq<u8>, Self), DecodeError> {
        match DataLink::spec_parse(source) {
            Err(e) => Err(e),
            Ok((payload, datalink)) => match spec_lookup(registry(), datalink.spec_protocol_tag()) {
                None => Err(
                    DecodeError::UnsupportedProtocol {
                        code: datalink.spec_protocol_tag().spec_code(),
                        layer: Layer::DataLink,
                    },
                ),
                Some(decoder) => match decoder.spec_decode(payload) {
                    Err(e) => Err(e),
                    Ok((rest, network)) => Ok(
                        (rest, Packet { datalink: Some(datalink), network: Some(network) }),
                    ),
                },
            },
        }
    }

    proof fn lemma_rest_is_suffix(source: Seq<u8>) {
        if let Ok((rest, _)) = Packet::spec_parse(source) {
            let payload = DataLink::spec_parse(source)->Ok_0.0;
            DataLink::lemma_rest_is_suffix(source);
            IPv4::lemma_rest_is_suffix(payload);
            reveal_with_fuel(spec_lookup, 2);
            assert(rest =~= source.skip(source.len() - rest.len()));
        }
    }

    fn parse(source: &[u8]) -> (r: Result<(&[u8], Self), DecodeError>) {
        let (payload, datalink) = DataLink::parse(source)?;
        let tag = datalink.protocol_tag();
        let table = network_decoders();
        let decoder = match lookup(table.as_slice(), tag) {
            Some(decoder) => decoder,
            None => {
                return Err(
                    DecodeError::UnsupportedProtocol { code: tag.code(), layer: Layer::DataLink },
                );
            },
        };
        let (payload, network) = decoder.decode(payload)?;
        Ok((payload, Packet { datalink: Some(datalink), network: Some(network) }))
    }
}

} // verus!
