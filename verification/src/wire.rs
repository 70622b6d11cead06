//! Big-endian ("network byte order") integers and flag bits.
//!
//! Every value is described arithmetically, so that callers reason about
//! sums and products; the shifts and masks stay inside this module.

use vstd::prelude::*;

verus! {

/// The value of a flag bit that sits at `weight`.
pub open spec fn bit_value(set: bool, weight: int) -> int {
    if set {
        weight
    } else {
        0
    }
}

/// The 16-bit value whose big-endian encoding is `hi, lo`.
pub open spec fn be16(hi: u8, lo: u8) -> u16 {
    (hi as int * 0x100 + lo as int) as u16
}

/// The 32-bit value whose big-endian encoding is `b0, b1, b2, b3`.
pub open spec fn be32(b0: u8, b1: u8, b2: u8, b3: u8) -> u32 {
    (b0 as int * 0x100_0000 + b1 as int * 0x1_0000 + b2 as int * 0x100 + b3 as int) as u32
}

/// The 64-bit value whose big-endian encoding is the eight bytes of `b`.
pub open spec fn be64(b: Seq<u8>) -> u64
    recommends
        b.len() == 8,
{
    (b[0] as int * 0x100_0000_0000_0000 + b[1] as int * 0x1_0000_0000_0000 + b[2] as int
        * 0x100_0000_0000 + b[3] as int * 0x1_0000_0000 + b[4] as int * 0x100_0000 + b[5] as int
        * 0x1_0000 + b[6] as int * 0x100 + b[7] as int) as u64
}

/// The two bytes that encode `value` in big-endian order.
pub open spec fn be16_bytes(value: u16) -> Seq<u8> {
    seq![(value as int / 0x100) as u8, (value as int % 0x100) as u8]
}

/// The four bytes that encode `value` in big-endian order.
pub open spec fn be32_bytes(value: u32) -> Seq<u8> {
    seq![
        (value as int / 0x100_0000) as u8,
        ((value as int / 0x1_0000) % 0x100) as u8,
        ((value as int / 0x100) % 0x100) as u8,
        (value as int % 0x100) as u8,
    ]
}

/// The eight bytes that encode `value` in big-endian order.
pub open spec fn be64_bytes(value: u64) -> Seq<u8> {
    seq![
        (value as int / 0x100_0000_0000_0000) as u8,
        ((value as int / 0x1_0000_0000_0000) % 0x100) as u8,
        ((value as int / 0x100_0000_0000) % 0x100) as u8,
        ((value as int / 0x1_0000_0000) % 0x100) as u8,
        ((value as int / 0x100_0000) % 0x100) as u8,
        ((value as int / 0x1_0000) % 0x100) as u8,
        ((value as int / 0x100) % 0x100) as u8,
        (value as int % 0x100) as u8,
    ]
}

/// Assembles a 16-bit value from its two big-endian bytes.
pub fn u16_from_be(hi: u8, lo: u8) -> (value: u16)
    ensures
        value == be16(hi, lo),
        value as int == hi as int * 0x100 + lo as int,
{
    let value = ((hi as u16) << 8) | (lo as u16);
    assert(((hi as u16) << 8) | (lo as u16) == (hi as u16) * 0x100 + (lo as u16)) by (bit_vector);
    value
}

/// The big-endian bytes of a 16-bit value.
pub fn u16_to_be(value: u16) -> (bytes: (u8, u8))
    ensures
        bytes.0 as int == value as int / 0x100,
        bytes.1 as int == value as int % 0x100,
        be16(bytes.0, bytes.1) == value,
        seq![bytes.0, bytes.1] == be16_bytes(value),
{
    let hi = (value >> 8) as u8;
    let lo = (value & 0xff) as u8;
    assert(value >> 8 == value / 0x100 && value >> 8 < 0x100) by (bit_vector);
    assert(value & 0xff == value % 0x100) by (bit_vector);
    (hi, lo)
}

/// Assembles a 32-bit value from its four big-endian bytes.
pub fn u32_from_be(b0: u8, b1: u8, b2: u8, b3: u8) -> (value: u32)
    ensures
        value == be32(b0, b1, b2, b3),
        value as int == b0 as int * 0x100_0000 + b1 as int * 0x1_0000 + b2 as int * 0x100
            + b3 as int,
{
    let value = ((b0 as u32) << 24) | ((b1 as u32) << 16) | ((b2 as u32) << 8) | (b3 as u32);
    assert((((b0 as u32) << 24) | ((b1 as u32) << 16) | ((b2 as u32) << 8) | (b3 as u32)) == (
    b0 as u32) * 0x100_0000 + (b1 as u32) * 0x1_0000 + (b2 as u32) * 0x100 + (b3 as u32))
        by (bit_vector);
    value
}

/// The big-endian bytes of a 32-bit value.
pub fn u32_to_be(value: u32) -> (bytes: (u8, u8, u8, u8))
    ensures
        bytes.0 as int == value as int / 0x100_0000,
        bytes.1 as int == (value as int / 0x1_0000) % 0x100,
        bytes.2 as int == (value as int / 0x100) % 0x100,
        bytes.3 as int == value as int % 0x100,
        be32(bytes.0, bytes.1, bytes.2, bytes.3) == value,
        seq![bytes.0, bytes.1, bytes.2, bytes.3] == be32_bytes(value),
{
    let b0 = (value >> 24) as u8;
    let b1 = ((value >> 16) & 0xff) as u8;
    let b2 = ((value >> 8) & 0xff) as u8;
    let b3 = (value & 0xff) as u8;
    assert(value >> 24 == value / 0x100_0000 && value >> 24 < 0x100) by (bit_vector);
    assert((value >> 16) & 0xff == (value / 0x1_0000) % 0x100) by (bit_vector);
    assert((value >> 8) & 0xff == (value / 0x100) % 0x100) by (bit_vector);
    assert(value & 0xff == value % 0x100) by (bit_vector);
    (b0, b1, b2, b3)
}

/// Assembles a 64-bit value from its eight big-endian bytes.
pub fn u64_from_be(b: [u8; 8]) -> (value: u64)
    ensures
        value == be64(b@),
{
    let b0 = b[0];
    let b1 = b[1];
    let b2 = b[2];
    let b3 = b[3];
    let b4 = b[4];
    let b5 = b[5];
    let b6 = b[6];
    let b7 = b[7];
    let value = ((b0 as u64) << 56) | ((b1 as u64) << 48) | ((b2 as u64) << 40) | ((b3 as u64)
        << 32) | ((b4 as u64) << 24) | ((b5 as u64) << 16) | ((b6 as u64) << 8) | (b7 as u64);
    assert((((b0 as u64) << 56) | ((b1 as u64) << 48) | ((b2 as u64) << 40) | ((b3 as u64) << 32)
        | ((b4 as u64) << 24) | ((b5 as u64) << 16) | ((b6 as u64) << 8) | (b7 as u64)) == (
    b0 as u64) * 0x100_0000_0000_0000 + (b1 as u64) * 0x1_0000_0000_0000 + (b2 as u64)
        * 0x100_0000_0000 + (b3 as u64) * 0x1_0000_0000 + (b4 as u64) * 0x100_0000 + (b5 as u64)
        * 0x1_0000 + (b6 as u64) * 0x100 + (b7 as u64)) by (bit_vector);
    value
}

/// The big-endian bytes of a 64-bit value.
pub fn u64_to_be(value: u64) -> (bytes: [u8; 8])
    ensures
        bytes@ == be64_bytes(value),
        be64(bytes@) == value,
{
    let b0 = (value >> 56) as u8;
    let b1 = ((value >> 48) & 0xff) as u8;
    let b2 = ((value >> 40) & 0xff) as u8;
    let b3 = ((value >> 32) & 0xff) as u8;
    let b4 = ((value >> 24) & 0xff) as u8;
    let b5 = ((value >> 16) & 0xff) as u8;
    let b6 = ((value >> 8) & 0xff) as u8;
    let b7 = (value & 0xff) as u8;
    assert(value >> 56 == value / 0x100_0000_0000_0000 && value >> 56 < 0x100) by (bit_vector);
    assert((value >> 48) & 0xff == (value / 0x1_0000_0000_0000) % 0x100) by (bit_vector);
    assert((value >> 40) & 0xff == (value / 0x100_0000_0000) % 0x100) by (bit_vector);
    assert((value >> 32) & 0xff == (value / 0x1_0000_0000) % 0x100) by (bit_vector);
    assert((value >> 24) & 0xff == (value / 0x100_0000) % 0x100) by (bit_vector);
    assert((value >> 16) & 0xff == (value / 0x1_0000) % 0x100) by (bit_vector);
    assert((value >> 8) & 0xff == (value / 0x100) % 0x100) by (bit_vector);
    assert(value & 0xff == value % 0x100) by (bit_vector);
    let bytes = [b0, b1, b2, b3, b4, b5, b6, b7];
    assert(bytes@ =~= be64_bytes(value));
    proof {
        lemma_be64_round_trip(value);
    }
    bytes
}

/// Appends the big-endian bytes of a 16-bit value.
pub fn push_u16(out: &mut Vec<u8>, value: u16)
    ensures
        final(out)@ == old(out)@ + be16_bytes(value),
{
    let (hi, lo) = u16_to_be(value);
    out.push(hi);
    out.push(lo);
    assert(out@ =~= old(out)@ + be16_bytes(value));
}

/// Appends the big-endian bytes of a 32-bit value.
pub fn push_u32(out: &mut Vec<u8>, value: u32)
    ensures
        final(out)@ == old(out)@ + be32_bytes(value),
{
    let (b0, b1, b2, b3) = u32_to_be(value);
    out.push(b0);
    out.push(b1);
    out.push(b2);
    out.push(b3);
    assert(out@ =~= old(out)@ + be32_bytes(value));
}

/// Appends every byte of `bytes`.
pub fn push_all(out: &mut Vec<u8>, bytes: &[u8])
    ensures
        final(out)@ == old(out)@ + bytes@,
{
    out.extend_from_slice(bytes);
    assert(out@ =~= old(out)@ + bytes@);
}

/// Decoding the big-endian bytes of a 16-bit value gives the value again.
pub proof fn lemma_be16_round_trip(value: u16)
    ensures
        be16(be16_bytes(value)[0], be16_bytes(value)[1]) == value,
{
}

/// Decoding the big-endian bytes of a 32-bit value gives the value again.
pub proof fn lemma_be32_round_trip(value: u32)
    ensures
        be32(
            be32_bytes(value)[0],
            be32_bytes(value)[1],
            be32_bytes(value)[2],
            be32_bytes(value)[3],
        ) == value,
{
    let v = value as int;
    assert(v / 0x100 == (v / 0x1_0000) * 0x100 + (v / 0x100) % 0x100);
    assert(v / 0x1_0000 == (v / 0x100_0000) * 0x100 + (v / 0x1_0000) % 0x100);
}

/// Encoding the value of two big-endian bytes gives the bytes again.
pub proof fn lemma_be16_bytes_of_be16(hi: u8, lo: u8)
    ensures
        be16_bytes(be16(hi, lo)) == seq![hi, lo],
{
    assert(be16_bytes(be16(hi, lo)) =~= seq![hi, lo]);
}

/// Encoding the value of four big-endian bytes gives the bytes again.
pub proof fn lemma_be32_bytes_of_be32(b0: u8, b1: u8, b2: u8, b3: u8)
    ensures
        be32_bytes(be32(b0, b1, b2, b3)) == seq![b0, b1, b2, b3],
{
    let v = be32(b0, b1, b2, b3) as int;
    assert(v == b0 as int * 0x100_0000 + b1 as int * 0x1_0000 + b2 as int * 0x100 + b3 as int);
    assert(v / 0x100 == b0 as int * 0x1_0000 + b1 as int * 0x100 + b2 as int);
    assert(v / 0x1_0000 == b0 as int * 0x100 + b1 as int);
    assert(v / 0x100_0000 == b0 as int);
    assert(be32_bytes(be32(b0, b1, b2, b3)) =~= seq![b0, b1, b2, b3]);
}

/// Decoding the big-endian bytes of a 64-bit value gives the value again.
pub proof fn lemma_be64_round_trip(value: u64)
    ensures
        be64(be64_bytes(value)) == value,
{
    let v = value as int;
    assert(v / 0x100 == (v / 0x1_0000) * 0x100 + (v / 0x100) % 0x100);
    assert(v / 0x1_0000 == (v / 0x100_0000) * 0x100 + (v / 0x1_0000) % 0x100);
    assert(v / 0x100_0000 == (v / 0x1_0000_0000) * 0x100 + (v / 0x100_0000) % 0x100);
    assert(v / 0x1_0000_0000 == (v / 0x100_0000_0000) * 0x100 + (v / 0x1_0000_0000) % 0x100);
    assert(v / 0x100_0000_0000 == (v / 0x1_0000_0000_0000) * 0x100 + (v / 0x100_0000_0000)
        % 0x100);
    assert(v / 0x1_0000_0000_0000 == (v / 0x100_0000_0000_0000) * 0x100 + (v
        / 0x1_0000_0000_0000) % 0x100);
}

} // verus!
