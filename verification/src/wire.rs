//! Byte- and bit-level readers. The reading itself is done by `nom`; this
//! module states what each reader returns and proves the arithmetic reading
//! of the bit fields that the header decoders use.

use vstd::prelude::*;
use vstd::pervasive::unreached;

verus! {

/// The number that two bytes spell, most significant byte first.
pub open spec fn spec_be_u16(high: u8, low: u8) -> u16 {
    (high as int * 256 + low as int) as u16
}

/// Bit `index` of `bytes` as 0 or 1, counting from the most significant bit
/// of the first byte.
pub open spec fn bit_at(bytes: Seq<u8>, index: int) -> int {
    ((bytes[index / 8] >> ((7 - index % 8) as u8)) & 1) as int
}

/// The number spelled by the `count` bits of `bytes` that start at bit
/// `start`, most significant bit first.
pub open spec fn bits_value(bytes: Seq<u8>, start: int, count: nat) -> int
    decreases count,
{
    if count == 0 {
        0
    } else {
        2 * bits_value(bytes, start, (count - 1) as nat) + bit_at(bytes, start + count - 1)
    }
}

/// Trusted: `nom::bytes::complete::take` on a byte slice. It splits off the
/// first `count` bytes and returns the rest beside them; it fails exactly
/// when the input is shorter than `count`.
#[verifier::external_body]
pub(crate) fn take_bytes<'a>(input: &'a [u8], count: usize) -> (r: Option<(&'a [u8], &'a [u8])>)
    ensures
        r is Some <==> count <= input@.len(),
        r matches Some((rest, taken)) ==> {
            &&& taken@ == input@.subrange(0, count as int)
            &&& rest@ == input@.subrange(count as int, input@.len() as int)
        },
{
    match nom::bytes::complete::take::<usize, &[u8], nom::error::Error<&[u8]>>(count)(input) {
        Ok((rest, taken)) => Some((rest, taken)),
        Err(_) => None,
    }
}

/// Trusted: `nom::number::complete::be_u8` on a byte slice. It returns the
/// first byte and the input after it; it fails exactly on empty input.
#[verifier::external_body]
pub(crate) fn be_u8<'a>(input: &'a [u8]) -> (r: Option<(&'a [u8], u8)>)
    ensures
        r is Some <==> 1 <= input@.len(),
        r matches Some((rest, value)) ==> {
            &&& value == input@[0]
            &&& rest@ == input@.subrange(1, input@.len() as int)
        },
{
    match nom::number::complete::be_u8::<&[u8], nom::error::Error<&[u8]>>(input) {
        Ok((rest, value)) => Some((rest, value)),
        Err(_) => None,
    }
}

/// Trusted: `nom::number::complete::be_u16` on a byte slice. It returns the
/// big-endian number of the first two bytes and the input after them; it
/// fails exactly when the input holds fewer than two bytes.
#[verifier::external_body]
pub(crate) fn be_u16<'a>(input: &'a [u8]) -> (r: Option<(&'a [u8], u16)>)
    ensures
        r is Some <==> 2 <= input@.len(),
        r matches Some((rest, value)) ==> {
            &&& value == spec_be_u16(input@[0], input@[1])
            &&& rest@ == input@.subrange(2, input@.len() as int)
        },
{
    match nom::number::complete::be_u16::<&[u8], nom::error::Error<&[u8]>>(input) {
        Ok((rest, value)) => Some((rest, value)),
        Err(_) => None,
    }
}

/// Trusted: `nom::bits::complete::take` with a 16-bit result, on a byte
/// slice and a bit offset into its first byte. It reads `count` bits from
/// that offset on, most significant first, drops the bytes that were read
/// to their end and returns the offset into the first byte that is left.
/// It fails exactly when fewer than `count` bits follow the offset. Left
/// out: a count of zero, offsets beyond the first byte, counts beyond the
/// result's width, and inputs whose length in bits overflows.
#[verifier::external_body]
pub(crate) fn take_bits<'a>(input: &'a [u8], bit_offset: usize, count: usize) -> (r: Option<
    ((&'a [u8], usize), u16),
>)
    requires
        bit_offset < 8,
        0 < count <= 16,
        input@.len() * 8 <= usize::MAX,
    ensures
        r is Some <==> bit_offset + count <= input@.len() * 8,
        r matches Some(((rest, offset), value)) ==> {
            &&& value == bits_value(input@, bit_offset as int, count as nat)
            &&& rest@ == input@.subrange((bit_offset + count) / 8, input@.len() as int)
            &&& offset == (bit_offset + count) % 8
        },
{
    let parsed = nom::bits::complete::take::<&[u8], u16, usize, nom::error::Error<(&[u8], usize)>>(
        count,
    )((input, bit_offset));
    match parsed {
        Ok((state, value)) => Some((state, value)),
        Err(_) => None,
    }
}

/// Reads `count` bits that are known to be there: what [`take_bits`] reads,
/// which cannot fail here.
pub(crate) fn read_bits<'a>(input: &'a [u8], bit_offset: usize, count: usize) -> (r: (
    (&'a [u8], usize),
    u16,
))
    requires
        bit_offset < 8,
        0 < count <= 16,
        bit_offset + count <= input@.len() * 8 <= usize::MAX,
    ensures
        r.1 == bits_value(input@, bit_offset as int, count as nat),
        r.0.0@ == input@.subrange((bit_offset + count) / 8, input@.len() as int),
        bit_offset + count < 8 ==> r.0.0@ == input@,
        r.0.1 == (bit_offset + count) % 8,
{
    match take_bits(input, bit_offset, count) {
        Some(read) => {
            assert(input@.subrange(0, input@.len() as int) =~= input@);
            read
        },
        None => unreached(),
    }
}

/// The two nibbles of the first byte, as the bit reader numbers them.
pub proof fn lemma_nibbles(bytes: Seq<u8>)
    requires
        bytes.len() >= 1,
    ensures
        bits_value(bytes, 0, 4) == bytes[0] / 16,
        bits_value(bytes, 4, 4) == bytes[0] % 16,
{
    reveal_with_fuel(bits_value, 5);
    let b = bytes[0];
    assert(8 * ((b >> 7u8) & 1) + 4 * ((b >> 6u8) & 1) + 2 * ((b >> 5u8) & 1) + ((b >> 4u8) & 1)
        == b / 16) by (bit_vector);
    assert(8 * ((b >> 3u8) & 1) + 4 * ((b >> 2u8) & 1) + 2 * ((b >> 1u8) & 1) + ((b >> 0u8) & 1)
        == b % 16) by (bit_vector);
}

/// The first byte split after its sixth bit, as the bit reader numbers it.
pub proof fn lemma_six_and_two(bytes: Seq<u8>)
    requires
        bytes.len() >= 1,
    ensures
        bits_value(bytes, 0, 6) == bytes[0] / 4,
        bits_value(bytes, 6, 2) == bytes[0] % 4,
{
    reveal_with_fuel(bits_value, 7);
    let b = bytes[0];
    assert(32 * ((b >> 7u8) & 1) + 16 * ((b >> 6u8) & 1) + 8 * ((b >> 5u8) & 1) + 4 * ((b >> 4u8)
        & 1) + 2 * ((b >> 3u8) & 1) + ((b >> 2u8) & 1) == b / 4) by (bit_vector);
    assert(2 * ((b >> 1u8) & 1) + ((b >> 0u8) & 1) == b % 4) by (bit_vector);
}

/// The first three bits of the first byte, one by one.
pub proof fn lemma_three_flags(bytes: Seq<u8>)
    requires
        bytes.len() >= 1,
    ensures
        bits_value(bytes, 0, 1) == bytes[0] / 128,
        bits_value(bytes, 1, 1) == (bytes[0] / 64) % 2,
        bits_value(bytes, 2, 1) == (bytes[0] / 32) % 2,
{
    reveal_with_fuel(bits_value, 2);
    let b = bytes[0];
    assert((b >> 7u8) & 1 == b / 128) by (bit_vector);
    assert((b >> 6u8) & 1 == (b / 64) % 2) by (bit_vector);
    assert((b >> 5u8) & 1 == (b / 32) % 2) by (bit_vector);
}

/// The thirteen bits that follow the first three of a two-byte field.
pub proof fn lemma_low_thirteen(bytes: Seq<u8>)
    requires
        bytes.len() >= 2,
    ensures
        bits_value(bytes, 3, 13) == (bytes[0] % 32) * 256 + bytes[1],
{
    reveal_with_fuel(bits_value, 14);
    let b = bytes[0];
    let c = bytes[1];
    assert(16 * ((b >> 4u8) & 1) + 8 * ((b >> 3u8) & 1) + 4 * ((b >> 2u8) & 1) + 2 * ((b >> 1u8)
        & 1) + ((b >> 0u8) & 1) == b % 32) by (bit_vector);
    assert(128 * ((c >> 7u8) & 1) + 64 * ((c >> 6u8) & 1) + 32 * ((c >> 5u8) & 1) + 16 * ((c
        >> 4u8) & 1) + 8 * ((c >> 3u8) & 1) + 4 * ((c >> 2u8) & 1) + 2 * ((c >> 1u8) & 1) + ((c
        >> 0u8) & 1) == c) by (bit_vector);
}

} // verus!
