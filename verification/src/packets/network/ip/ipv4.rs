//! The IPv4 header: its fields, their bit-level decoders and the decoder of
//! the fixed twenty-byte header.

use vstd::prelude::*;
use crate::errors::{DecodeError, Layer};
use crate::packets::{decoded, Parsable};
use crate::packets::network::ip::Version;
use crate::wire::{
    be_u16, be_u8, lemma_low_thirteen, lemma_nibbles, lemma_six_and_two, lemma_three_flags,
    read_bits, spec_be_u16, take_bytes,
};

verus! {

/// The transport protocol that an IPv4 packet carries.
#[derive(Debug, Clone, Copy, PartialEq, Eq, Structural)]
pub enum Protocol {
    ICMP,
    IGMP,
    GGP,
    IPinIP,
    ST,
    TCP,
    CBT,
    EGP,
    IGP,
    BBNRCCMON,
    NVPII,
    PUP,
    ARGUS,
    EMCON,
    XNET,
    CHAOS,
    UDP,
    MUX,
    DCNMEAS,
    HMP,
}

impl Protocol {
    /// The protocol that the assigned number `code` stands for, if it is
    /// one of the supported ones.
    pub open spec fn from_code(code: u8) -> Option<Protocol> {
        if code == 1 {
            Some(Protocol::ICMP)
        } else if code == 2 {
            Some(Protocol::IGMP)
        } else if code == 3 {
            Some(Protocol::GGP)
        } else if code == 4 {
            Some(Protocol::IPinIP)
        } else if code == 5 {
            Some(Protocol::ST)
        } else if code == 6 {
            Some(Protocol::TCP)
        } else if code == 7 {
            Some(Protocol::CBT)
        } else if code == 8 {
            Some(Protocol::EGP)
        } else if code == 9 {
            Some(Protocol::IGP)
        } else if code == 10 {
            Some(Protocol::BBNRCCMON)
        } else if code == 11 {
            Some(Protocol::NVPII)
        } else if code == 12 {
            Some(Protocol::PUP)
        } else if code == 13 {
            Some(Protocol::ARGUS)
        } else if code == 14 {
            Some(Protocol::EMCON)
        } else if code == 15 {
            Some(Protocol::XNET)
        } else if code == 16 {
            Some(Protocol::CHAOS)
        } else if code == 17 {
            Some(Protocol::UDP)
        } else if code == 18 {
            Some(Protocol::MUX)
        } else if code == 19 {
            Some(Protocol::DCNMEAS)
        } else if code == 20 {
            Some(Protocol::HMP)
        } else {
            None
        }
    }

    /// The assigned number of the protocol.
    pub open spec fn spec_code(self) -> u8 {
        match self {
            Protocol::ICMP => 1,
            Protocol::IGMP => 2,
            Protocol::GGP => 3,
            Protocol::IPinIP => 4,
            Protocol::ST => 5,
            Protocol::TCP => 6,
            Protocol::CBT => 7,
            Protocol::EGP => 8,
            Protocol::IGP => 9,
            Protocol::BBNRCCMON => 10,
            Protocol::NVPII => 11,
            Protocol::PUP => 12,
            Protocol::ARGUS => 13,
            Protocol::EMCON => 14,
            Protocol::XNET => 15,
            Protocol::CHAOS => 16,
            Protocol::UDP => 17,
            Protocol::MUX => 18,
            Protocol::DCNMEAS => 19,
            Protocol::HMP => 20,
        }
    }

    /// The assigned number of the protocol.
    #[verifier::when_used_as_spec(spec_code)]
    pub fn code(self) -> (r: u8)
        ensures
            r == self.spec_code(),
    {
        match self {
            Protocol::ICMP => 1,
            Protocol::IGMP => 2,
            Protocol::GGP => 3,
            Protocol::IPinIP => 4,
            Protocol::ST => 5,
            Protocol::TCP => 6,
            Protocol::CBT => 7,
            Protocol::EGP => 8,
            Protocol::IGP => 9,
            Protocol::BBNRCCMON => 10,
            Protocol::NVPII => 11,
            Protocol::PUP => 12,
            Protocol::ARGUS => 13,
            Protocol::EMCON => 14,
            Protocol::XNET => 15,
            Protocol::CHAOS => 16,
            Protocol::UDP => 17,
            Protocol::MUX => 18,
            Protocol::DCNMEAS => 19,
            Protocol::HMP => 20,
        }
    }

    /// A protocol and its number determine each other.
    pub proof fn lemma_code_from_code(code: u8)
        ensures
            Protocol::from_code(code) matches Some(p) ==> p.spec_code() == code,
            Protocol::from_code(code) is Some <==> 1 <= code <= 20,
    {
    }

    /// Every protocol is found again from its number.
    pub proof fn lemma_from_code_code(p: Protocol)
        ensures
            Protocol::from_code(p.spec_code()) == Some(p),
    {
    }
}

impl vstd::std_specs::convert::TryFromSpecImpl<u8> for Protocol {
    open spec fn obeys_try_from_spec() -> bool {
        true
    }

    open spec fn try_from_spec(value: u8) -> Result<Self, DecodeError> {
        match Protocol::from_code(value) {
            Some(p) => Ok(p),
            None => Err(DecodeError::UnsupportedProtocol { code: value as u16, layer: Layer::IPv4 }),
        }
    }
}

impl TryFrom<u8> for Protocol {
    type Error = DecodeError;

    /// The protocol with the assigned number `value`; a number outside the
    /// supported list is reported with the number itself.
    fn try_from(value: u8) -> (r: Result<Self, DecodeError>) {
        Ok(
            match value {
                1 => Protocol::ICMP,
                2 => Protocol::IGMP,
                3 => Protocol::GGP,
                4 => Protocol::IPinIP,
                5 => Protocol::ST,
                6 => Protocol::TCP,
                7 => Protocol::CBT,
                8 => Protocol::EGP,
                9 => Protocol::IGP,
                10 => Protocol::BBNRCCMON,
                11 => Protocol::NVPII,
                12 => Protocol::PUP,
                13 => Protocol::ARGUS,
                14 => Protocol::EMCON,
                15 => Protocol::XNET,
                16 => Protocol::CHAOS,
                17 => Protocol::UDP,
                18 => Protocol::MUX,
                19 => Protocol::DCNMEAS,
                20 => Protocol::HMP,
                _ => {
                    return Err(
                        DecodeError::UnsupportedProtocol { code: value as u16, layer: Layer::IPv4 },
                    );
                },
            },
        )
    }
}

/// The two flags of an IPv4 header that fragmentation uses.
#[derive(Debug, Clone, Copy, PartialEq, Eq, Structural)]
pub struct Flags {
    pub dont_fragment: bool,
    pub more_fragments: bool,
}

impl Flags {
    /// The flags with the given "don't fragment" and "more fragments" bits.
    pub fn new(df: bool, mf: bool) -> (r: Self)
        ensures
            r == (Flags { dont_fragment: df, more_fragments: mf }),
    {
        Self { dont_fragment: df, more_fragments: mf }
    }
}

/// An IPv4 address: its four bytes in the order of the wire.
#[derive(Debug, Clone, Copy, PartialEq, Eq, Structural)]
pub struct Ipv4Address {
    pub a: u8,
    pub b: u8,
    pub c: u8,
    pub d: u8,
}

impl Ipv4Address {
    /// The address `a.b.c.d`.
    pub fn new(a: u8, b: u8, c: u8, d: u8) -> (r: Self)
        ensures
            r == (Ipv4Address { a, b, c, d }),
    {
        Self { a, b, c, d }
    }

    /// The four bytes of the address, in the order of the wire.
    pub fn octets(&self) -> (r: [u8; 4])
        ensures
            r@ == self.encode(),
    {
        [self.a, self.b, self.c, self.d]
    }

    /// The four bytes that spell the address on the wire.
    pub open spec fn encode(self) -> Seq<u8> {
        seq![self.a, self.b, self.c, self.d]
    }
}

/// What [`octet`] yields: the first byte of `source`.
pub open spec fn spec_octet(source: Seq<u8>) -> Result<(Seq<u8>, u8), DecodeError> {
    if source.len() < 1 {
        Err(DecodeError::Truncated { needed: 1, available: 0 })
    } else {
        Ok((source.skip(1), source[0]))
    }
}

/// What [`word`] yields: the big-endian number of the first two bytes of
/// `source`.
pub open spec fn spec_word(source: Seq<u8>) -> Result<(Seq<u8>, u16), DecodeError> {
    if source.len() < 2 {
        Err(DecodeError::Truncated { needed: 2, available: source.len() as usize })
    } else {
        Ok((source.skip(2), spec_be_u16(source[0], source[1])))
    }
}

/// Reads a field of one byte.
pub fn octet(source: &[u8]) -> (r: Result<(&[u8], u8), DecodeError>)
    ensures
        decoded(r) == spec_octet(source@),
{
    match be_u8(source) {
        Some((rest, value)) => Ok((rest, value)),
        None => Err(DecodeError::Truncated { needed: 1, available: source.len() }),
    }
}

/// Reads a field of two bytes, most significant byte first.
pub fn word(source: &[u8]) -> (r: Result<(&[u8], u16), DecodeError>)
    ensures
        decoded(r) == spec_word(source@),
{
    match be_u16(source) {
        Some((rest, value)) => Ok((rest, value)),
        None => Err(DecodeError::Truncated { needed: 2, available: source.len() }),
    }
}

/// What [`version_ihl`] yields: the version from the high nibble of the
/// first byte, which must be 4, and the header length from its low nibble.
pub open spec fn spec_version_ihl(source: Seq<u8>) -> Result<
    (Seq<u8>, (Version, u8)),
    DecodeError,
> {
    if source.len() < 1 {
        Err(DecodeError::Truncated { needed: 1, available: 0 })
    } else if source[0] / 16 != 4 {
        Err(DecodeError::VersionMismatch { expected: 4, found: source[0] / 16 })
    } else {
        Ok((source.skip(1), (Version::V4, source[0] % 16)))
    }
}

/// Reads the version and the header length (in 32-bit words) from the first
/// byte. A version other than 4 is rejected; no header length is.
pub fn version_ihl(source: &[u8]) -> (r: Result<(&[u8], (Version, u8)), DecodeError>)
    ensures
        decoded(r) == spec_version_ihl(source@),
{
    let Some((rest, field)) = take_bytes(source, 1) else {
        return Err(DecodeError::Truncated { needed: 1, available: source.len() });
    };
    proof {
        lemma_nibbles(field@);
    }
    let ((field, offset), version) = read_bits(field, 0, 4);
    if version != 4 {
        return Err(DecodeError::VersionMismatch { expected: 4, found: version as u8 });
    }
    let (_, ihl) = read_bits(field, offset, 4);
    Ok((rest, (Version::V4, ihl as u8)))
}

/// What [`dscp_ecn`] yields: the upper six bits and the lower two bits of
/// the first byte.
pub open spec fn spec_dscp_ecn(source: Seq<u8>) -> Result<(Seq<u8>, (u8, u8)), DecodeError> {
    if source.len() < 1 {
        Err(DecodeError::Truncated { needed: 1, available: 0 })
    } else {
        Ok((source.skip(1), (source[0] / 4, source[0] % 4)))
    }
}

/// Reads the differentiated services code point and the explicit congestion
/// notification from the byte that they share.
pub fn dscp_ecn(source: &[u8]) -> (r: Result<(&[u8], (u8, u8)), DecodeError>)
    ensures
        decoded(r) == spec_dscp_ecn(source@),
{
    let Some((rest, field)) = take_bytes(source, 1) else {
        return Err(DecodeError::Truncated { needed: 1, available: source.len() });
    };
    proof {
        lemma_six_and_two(field@);
    }
    let ((field, offset), dscp) = read_bits(field, 0, 6);
    let (_, ecn) = read_bits(field, offset, 2);
    Ok((rest, (dscp as u8, ecn as u8)))
}

/// What [`flags_offset`] yields: the first three bits of the first byte,
/// each as a flag, and the thirteen bits after them as a number.
pub open spec fn spec_flags_offset(source: Seq<u8>) -> Result<
    (Seq<u8>, ((bool, bool, bool), u16)),
    DecodeError,
> {
    if source.len() < 2 {
        Err(DecodeError::Truncated { needed: 2, available: source.len() as usize })
    } else {
        Ok(
            (
                source.skip(2),
                (
                    (source[0] / 128 == 1, (source[0] / 64) % 2 == 1, (source[0] / 32) % 2 == 1),
                    ((source[0] % 32) as int * 256 + source[1] as int) as u16,
                ),
            ),
        )
    }
}

/// Reads the reserved bit, the "don't fragment" and "more fragments" bits
/// and the fragment offset from the two bytes that they share. The reserved
/// bit is handed out as it is read.
pub fn flags_offset(source: &[u8]) -> (r: Result<(&[u8], ((bool, bool, bool), u16)), DecodeError>)
    ensures
        decoded(r) == spec_flags_offset(source@),
{
    let Some((rest, field)) = take_bytes(source, 2) else {
        return Err(DecodeError::Truncated { needed: 2, available: source.len() });
    };
    proof {
        lemma_three_flags(field@);
        lemma_low_thirteen(field@);
    }
    let ((field, offset), reserved) = read_bits(field, 0, 1);
    let ((field, offset), df) = read_bits(field, offset, 1);
    let ((field, offset), mf) = read_bits(field, offset, 1);
    let (_, fragment_offset) = read_bits(field, offset, 13);
    Ok((rest, ((reserved != 0, df != 0, mf != 0), fragment_offset)))
}

/// Reads the total length of the packet.
pub fn total_length(source: &[u8]) -> (r: Result<(&[u8], u16), DecodeError>)
    ensures
        decoded(r) == spec_word(source@),
{
    word(source)
}

/// Reads the identification of the packet.
pub fn identification(source: &[u8]) -> (r: Result<(&[u8], u16), DecodeError>)
    ensures
        decoded(r) == spec_word(source@),
{
    word(source)
}

/// Reads the time to live.
pub fn ttl(source: &[u8]) -> (r: Result<(&[u8], u8), DecodeError>)
    ensures
        decoded(r) == spec_octet(source@),
{
    octet(source)
}

/// Reads the number of the transport protocol, as it stands on the wire.
pub fn protocol(source: &[u8]) -> (r: Result<(&[u8], u8), DecodeError>)
    ensures
        decoded(r) == spec_octet(source@),
{
    octet(source)
}

/// Reads the header checksum. It is handed out as it stands on the wire.
pub fn checksum(source: &[u8]) -> (r: Result<(&[u8], u16), DecodeError>)
    ensures
        decoded(r) == spec_word(source@),
{
    word(source)
}

/// What [`address`] yields: the first four bytes of `source`.
pub open spec fn spec_address(source: Seq<u8>) -> Result<(Seq<u8>, Ipv4Address), DecodeError> {
    if source.len() < 4 {
        Err(DecodeError::Truncated { needed: 4, available: source.len() as usize })
    } else {
        Ok(
            (
                source.skip(4),
                Ipv4Address { a: source[0], b: source[1], c: source[2], d: source[3] },
            ),
        )
    }
}

/// Reads an address of four bytes.
pub fn address(source: &[u8]) -> (r: Result<(&[u8], Ipv4Address), DecodeError>)
    ensures
        decoded(r) == spec_address(source@),
{
    if source.len() < 4 {
        return Err(DecodeError::Truncated { needed: 4, available: source.len() });
    }
    let (rest, a) = octet(source)?;
    let (rest, b) = octet(rest)?;
    let (rest, c) = octet(rest)?;
    let (rest, d) = octet(rest)?;
    assert(rest@ =~= source@.skip(4));
    Ok((rest, Ipv4Address::new(a, b, c, d)))
}

/// The fixed part of an IPv4 header.
#[derive(Debug, Clone, Copy, PartialEq, Eq, Structural)]
pub struct IPv4 {
    pub version: Version,
    /// Length of the header in 32-bit words, as the header states it.
    pub ihl: u8,
    pub dscp: u8,
    pub ecn: u8,
    pub total_length: u16,
    pub identification: u16,
    pub flags: Flags,
    pub fragment_offset: u16,
    pub ttl: u8,
    pub protocol: Protocol,
    /// The checksum as it stood in the header; it is not validated.
    pub checksum: u16,
    pub source: Ipv4Address,
    pub destination: Ipv4Address,
}

/// Length in bytes of the fixed part of an IPv4 header.
pub const HEADER_LENGTH: usize = 20;

impl IPv4 {
    /// The header whose fields the first twenty bytes of `source` spell,
    /// with version 4 and with `protocol` for the protocol number.
    pub open spec fn fields(source: Seq<u8>, protocol: Protocol) -> IPv4 {
        IPv4 {
            version: Version::V4,
            ihl: source[0] % 16,
            dscp: source[1] / 4,
            ecn: source[1] % 4,
            total_length: spec_be_u16(source[2], source[3]),
            identification: spec_be_u16(source[4], source[5]),
            flags: Flags {
                dont_fragment: (source[6] / 64) % 2 == 1,
                more_fragments: (source[6] / 32) % 2 == 1,
            },
            fragment_offset: ((source[6] % 32) as int * 256 + source[7] as int) as u16,
            ttl: source[8],
            protocol,
            checksum: spec_be_u16(source[10], source[11]),
            source: Ipv4Address { a: source[12], b: source[13], c: source[14], d: source[15] },
            destination: Ipv4Address {
                a: source[16],
                b: source[17],
                c: source[18],
                d: source[19],
            },
        }
    }

    /// Whether the header is one that twenty bytes can spell: version 4,
    /// and each field within the bits that it has.
    pub open spec fn wf(self) -> bool {
        &&& self.version == Version::V4
        &&& self.ihl < 16
        &&& self.dscp < 64
        &&& self.ecn < 4
        &&& self.fragment_offset < 8192
    }

    /// The byte that holds the flags and the upper five bits of the
    /// fragment offset; its reserved bit is clear.
    pub open spec fn flags_byte(self) -> u8 {
        ((if self.flags.dont_fragment {
            64int
        } else {
            0
        }) + (if self.flags.more_fragments {
            32int
        } else {
            0
        }) + self.fragment_offset / 256) as u8
    }

    /// The twenty bytes that spell the header on the wire.
    pub open spec fn encode(self) -> Seq<u8> {
        seq![
            (self.version.spec_number() * 16 + self.ihl) as u8,
            (self.dscp * 4 + self.ecn) as u8,
            (self.total_length / 256) as u8,
            (self.total_length % 256) as u8,
            (self.identification / 256) as u8,
            (self.identification % 256) as u8,
            self.flags_byte(),
            (self.fragment_offset % 256) as u8,
            self.ttl,
            self.protocol.spec_code(),
            (self.checksum / 256) as u8,
            (self.checksum % 256) as u8,
        ] + self.source.encode() + self.destination.encode()
    }

    /// Decoding finds an encoded header again, field for field, with all
    /// that follows it left over.
    pub proof fn lemma_parse_encode(header: IPv4, rest: Seq<u8>)
        requires
            header.wf(),
        ensures
            IPv4::spec_parse(header.encode() + rest) == Ok::<_, DecodeError>((rest, header)),
    {
        let source = header.encode() + rest;
        assert(source.skip(20) =~= rest);
        Protocol::lemma_from_code_code(header.protocol);
    }

    /// What was decoded can be spelled, and spells the input: the input is
    /// the encoded header followed by the bytes left over.
    pub proof fn lemma_encode_parse(source: Seq<u8>)
        ensures
            IPv4::spec_parse(source) matches Ok((rest, header)) ==> header.wf() && source
                == header.encode() + rest,
    {
        if let Ok((rest, header)) = IPv4::spec_parse(source) {
            Protocol::lemma_code_from_code(source[9]);
            assert(source =~= header.encode() + rest);
        }
    }

    /// A header is refused for its version exactly where it is of full
    /// length and states another version than 4, whatever else it holds;
    /// the error names the version that it states.
    pub proof fn lemma_version_mismatch(source: Seq<u8>)
        ensures
            IPv4::spec_parse(source) is Err && IPv4::spec_parse(source)->Err_0 is VersionMismatch
                <==> source.len() >= HEADER_LENGTH && source[0] / 16 != 4,
            source.len() >= HEADER_LENGTH && source[0] / 16 != 4 ==> IPv4::spec_parse(source)
                == Err::<(Seq<u8>, IPv4), _>(
                DecodeError::VersionMismatch { expected: 4, found: source[0] / 16 },
            ),
            source.len() >= HEADER_LENGTH && source[0] == 0x60 ==> IPv4::spec_parse(source)
                == Err::<(Seq<u8>, IPv4), _>(
                DecodeError::VersionMismatch { expected: 4, found: 6 },
            ),
    {
    }

    /// A header is refused for its reserved flag exactly where it is of
    /// full length and of version 4 and has that flag set, whatever its
    /// other fields hold.
    pub proof fn lemma_reserved_bit(source: Seq<u8>)
        ensures
            IPv4::spec_parse(source) == Err::<(Seq<u8>, IPv4), _>(DecodeError::ReservedBitSet)
                <==> source.len() >= HEADER_LENGTH && source[0] / 16 == 4 && source[6] >= 128,
    {
    }
}

impl Parsable for IPv4 {
    /// The header is taken from the first twenty bytes, whatever header
    /// length it states: the bytes left over start right after them. Input
    /// shorter than that is truncated; then the version must be 4, the
    /// reserved flag clear and the protocol number a supported one, and
    /// the first of these that fails is reported.
    open spec fn spec_parse(source: Seq<u8>) -> Result<(Seq<u8>, Self), DecodeError> {
        if source.len() < HEADER_LENGTH {
            Err(DecodeError::Truncated { needed: HEADER_LENGTH, available: source.len() as usize })
        } else if source[0] / 16 != 4 {
            Err(DecodeError::VersionMismatch { expected: 4, found: source[0] / 16 })
        } else if source[6] / 128 == 1 {
            Err(DecodeError::ReservedBitSet)
        } else {
            match Protocol::from_code(source[9]) {
                None => Err(
                    DecodeError::UnsupportedProtocol { code: source[9] as u16, layer: Layer::IPv4 },
                ),
                Some(protocol) => Ok((source.skip(20), IPv4::fields(source, protocol))),
            }
        }
    }

    proof fn lemma_rest_is_suffix(source: Seq<u8>) {
    }

    fn parse(source: &[u8]) -> (r: Result<(&[u8], Self), DecodeError>) {
        if source.len() < HEADER_LENGTH {
            return Err(
                DecodeError::Truncated { needed: HEADER_LENGTH, available: source.len() },
            );
        }
        let (input, (version, ihl)) = version_ihl(source)?;
        let (input, (dscp, ecn)) = dscp_ecn(input)?;
        let (input, total_length) = total_length(input)?;
        let (input, identification) = identification(input)?;
        let (input, ((reserved, df, mf), fragment_offset)) = flags_offset(input)?;
        if reserved {
            return Err(DecodeError::ReservedBitSet);
        }
        let (input, ttl) = ttl(input)?;
        let (input, number) = protocol(input)?;
        let protocol = Protocol::try_from(number)?;
        let (input, checksum) = checksum(input)?;
        let (input, source_address) = address(input)?;
        let (input, destination) = address(input)?;
        assert(input@ =~= source@.skip(20));
        Ok(
            (
                input,
                IPv4 {
                    version,
                    ihl,
                    dscp,
                    ecn,
                    total_length,
                    identification,
                    flags: Flags::new(df, mf),
                    fragment_offset,
                    ttl,
                    protocol,
                    checksum,
                    source: source_address,
                    destination,
                },
            ),
        )
    }
}

} // verus!
