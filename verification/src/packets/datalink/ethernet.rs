//! The Ethernet II frame header.

use vstd::prelude::*;
use crate::errors::{DecodeError, Layer};
use crate::packets::{decoded, Parsable};
use crate::wire::{be_u16, spec_be_u16, take_bytes};

verus! {

/// Length in bytes of a hardware address.
pub const MAC_LENGTH: usize = 6;

/// Length in bytes of an Ethernet II header.
pub const HEADER_LENGTH: usize = 14;

/// A hardware address: its six bytes in the order of the wire.
#[derive(Debug, Clone, Copy, PartialEq, Eq, PartialOrd, Ord, Structural)]
pub struct Mac {
    pub a: u8,
    pub b: u8,
    pub c: u8,
    pub d: u8,
    pub e: u8,
    pub f: u8,
}

impl Mac {
    /// The six bytes that spell the address on the wire.
    pub open spec fn encode(self) -> Seq<u8> {
        seq![self.a, self.b, self.c, self.d, self.e, self.f]
    }

    /// The address that the six bytes of `source` from `at` on spell.
    pub open spec fn at(source: Seq<u8>, at: int) -> Mac {
        Mac {
            a: source[at],
            b: source[at + 1],
            c: source[at + 2],
            d: source[at + 3],
            e: source[at + 4],
            f: source[at + 5],
        }
    }

    /// Decoding finds an encoded address again, with all that follows it
    /// left over.
    pub proof fn lemma_parse_encode(mac: Mac, rest: Seq<u8>)
        ensures
            Mac::spec_parse(mac.encode() + rest) == Ok::<_, DecodeError>((rest, mac)),
    {
        let source = mac.encode() + rest;
        assert(source.skip(6) =~= rest);
    }

    /// What was decoded spells the input: the input is the encoded address
    /// followed by the bytes left over.
    pub proof fn lemma_encode_parse(source: Seq<u8>)
        ensures
            Mac::spec_parse(source) matches Ok((rest, mac)) ==> source == mac.encode() + rest,
    {
        if source.len() >= MAC_LENGTH {
            assert(source =~= Mac::at(source, 0).encode() + source.skip(6));
        }
    }
}

impl Parsable for Mac {
    /// The address is the first six bytes.
    open spec fn spec_parse(source: Seq<u8>) -> Result<(Seq<u8>, Self), DecodeError> {
        if source.len() < MAC_LENGTH {
            Err(DecodeError::Truncated { needed: MAC_LENGTH, available: source.len() as usize })
        } else {
            Ok((source.skip(6), Mac::at(source, 0)))
        }
    }

    proof fn lemma_rest_is_suffix(source: Seq<u8>) {
    }

    fn parse(source: &[u8]) -> (r: Result<(&[u8], Self), DecodeError>) {
        let Some((rest, buff)) = take_bytes(source, MAC_LENGTH) else {
            return Err(DecodeError::Truncated { needed: MAC_LENGTH, available: source.len() });
        };
        let mac = Mac { a: buff[0], b: buff[1], c: buff[2], d: buff[3], e: buff[4], f: buff[5] };
        Ok((rest, mac))
    }
}

/// The protocol that an Ethernet frame carries.
#[derive(Debug, Clone, Copy, PartialEq, Eq, PartialOrd, Ord, Structural)]
pub enum EtherType {
    /// 0x0800
    IPv4,
    /// 0x0806
    ARP,
    /// 0x86DD
    IPv6,
}

impl EtherType {
    /// The protocol that the 16-bit `code` stands for, if it is a known one.
    pub open spec fn from_code(code: u16) -> Option<EtherType> {
        if code == 0x0800 {
            Some(EtherType::IPv4)
        } else if code == 0x0806 {
            Some(EtherType::ARP)
        } else if code == 0x86DD {
            Some(EtherType::IPv6)
        } else {
            None
        }
    }

    /// The 16-bit code of the protocol.
    pub open spec fn spec_code(self) -> u16 {
        match self {
            EtherType::IPv4 => 0x0800,
            EtherType::ARP => 0x0806,
            EtherType::IPv6 => 0x86DD,
        }
    }

    /// The 16-bit code of the protocol.
    #[verifier::when_used_as_spec(spec_code)]
    pub fn code(self) -> (r: u16)
        ensures
            r == self.spec_code(),
    {
        match self {
            EtherType::IPv4 => 0x0800,
            EtherType::ARP => 0x0806,
            EtherType::IPv6 => 0x86DD,
        }
    }

    /// The two bytes that spell the code on the wire.
    pub open spec fn encode(self) -> Seq<u8> {
        seq![(self.spec_code() / 256) as u8, (self.spec_code() % 256) as u8]
    }

    /// What decoding the code `code` yields.
    pub open spec fn checked(code: u16) -> Result<EtherType, DecodeError> {
        match EtherType::from_code(code) {
            Some(ethertype) => Ok(ethertype),
            None => Err(DecodeError::UnsupportedProtocol { code, layer: Layer::Ethernet }),
        }
    }

    /// A protocol and its code determine each other.
    pub proof fn lemma_code_round_trip(ethertype: EtherType, code: u16)
        ensures
            EtherType::from_code(ethertype.spec_code()) == Some(ethertype),
            EtherType::from_code(code) matches Some(t) ==> t.spec_code() == code,
    {
    }

    /// Decoding finds an encoded code again, with all that follows it left
    /// over.
    pub proof fn lemma_parse_encode(ethertype: EtherType, rest: Seq<u8>)
        ensures
            EtherType::spec_parse(ethertype.encode() + rest) == Ok::<_, DecodeError>(
                (rest, ethertype),
            ),
    {
        let source = ethertype.encode() + rest;
        assert(source.skip(2) =~= rest);
    }
}

impl Parsable for EtherType {
    /// The code is the first two bytes, most significant byte first; a code
    /// outside the known ones is reported with the code itself.
    open spec fn spec_parse(source: Seq<u8>) -> Result<(Seq<u8>, Self), DecodeError> {
        if source.len() < 2 {
            Err(DecodeError::Truncated { needed: 2, available: source.len() as usize })
        } else {
            match EtherType::checked(spec_be_u16(source[0], source[1])) {
                Ok(ethertype) => Ok((source.skip(2), ethertype)),
                Err(e) => Err(e),
            }
        }
    }

    proof fn lemma_rest_is_suffix(source: Seq<u8>) {
    }

    fn parse(source: &[u8]) -> (r: Result<(&[u8], Self), DecodeError>) {
        let Some((rest, code)) = be_u16(source) else {
            return Err(DecodeError::Truncated { needed: 2, available: source.len() });
        };
        let ethertype = match code {
            0x0800 => EtherType::IPv4,
            0x0806 => EtherType::ARP,
            0x86DD => EtherType::IPv6,
            _ => {
                return Err(DecodeError::UnsupportedProtocol { code, layer: Layer::Ethernet });
            },
        };
        Ok((rest, ethertype))
    }
}

/// An Ethernet II frame header.
#[derive(Debug, Clone, Copy, PartialEq, Eq, PartialOrd, Ord, Structural)]
pub struct Ethernet {
    pub destination: Mac,
    pub source: Mac,
    pub ethertype: EtherType,
}

impl Ethernet {
    /// The fourteen bytes that spell the header on the wire.
    pub open spec fn encode(self) -> Seq<u8> {
        self.destination.encode() + self.source.encode() + self.ethertype.encode()
    }

    /// Decoding finds an encoded header again, with all that follows it
    /// left over.
    pub proof fn lemma_parse_encode(header: Ethernet, rest: Seq<u8>)
        ensures
            Ethernet::spec_parse(header.encode() + rest) == Ok::<_, DecodeError>((rest, header)),
    {
        let source = header.encode() + rest;
        assert(source.skip(14) =~= rest);
    }

    /// What was decoded spells the input: the input is the encoded header
    /// followed by the bytes left over.
    pub proof fn lemma_encode_parse(source: Seq<u8>)
        ensures
            Ethernet::spec_parse(source) matches Ok((rest, header)) ==> source == header.encode()
                + rest,
    {
        if let Ok((rest, header)) = Ethernet::spec_parse(source) {
            let high = source[12];
            let low = source[13];
            assert(spec_be_u16(high, low) / 256 == high && spec_be_u16(high, low) % 256 == low);
            assert(source =~= header.encode() + rest);
        }
    }

    /// Input is truncated exactly where it is shorter than a header,
    /// whatever it holds, and the error tells how many bytes there were.
    pub proof fn lemma_truncated(source: Seq<u8>)
        ensures
            Ethernet::spec_parse(source) == Err::<(Seq<u8>, Ethernet), _>(
                DecodeError::Truncated { needed: 14, available: source.len() as usize },
            ) <==> source.len() < HEADER_LENGTH,
    {
    }
}

impl Parsable for Ethernet {
    /// The header is the first fourteen bytes: the destination, the source
    /// and the code of the protocol. Input shorter than that is truncated,
    /// whatever it holds; an unknown code is reported after that.
    open spec fn spec_parse(source: Seq<u8>) -> Result<(Seq<u8>, Self), DecodeError> {
        if source.len() < HEADER_LENGTH {
            Err(DecodeError::Truncated { needed: HEADER_LENGTH, available: source.len() as usize })
        } else {
            match EtherType::checked(spec_be_u16(source[12], source[13])) {
                Ok(ethertype) => Ok(
                    (
                        source.skip(14),
                        Ethernet {
                            destination: Mac::at(source, 0),
                            source: Mac::at(source, 6),
                            ethertype,
                        },
                    ),
                ),
                Err(e) => Err(e),
            }
        }
    }

    proof fn lemma_rest_is_suffix(source: Seq<u8>) {
    }

    fn parse(source: &[u8]) -> (r: Result<(&[u8], Self), DecodeError>) {
        if source.len() < HEADER_LENGTH {
            return Err(
                DecodeError::Truncated { needed: HEADER_LENGTH, available: source.len() },
            );
        }
        let (rem, destination) = Mac::parse(source)?;
        let (rem, source_mac) = Mac::parse(rem)?;
        let (rem, ethertype) = EtherType::parse(rem)?;
        assert(rem@ =~= source@.skip(14));
        Ok((rem, Ethernet { destination, source: source_mac, ethertype }))
    }
}

} // verus!
