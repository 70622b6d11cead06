//! The Internet checksum of RFC 1071, over an IPv4 header and over a TCP
//! segment with its pseudo-header.
//!
//! The running sum lives in a 32-bit accumulator that wraps. No IP datagram
//! is long enough to make it wrap; the laws below hold even where it does.

use crate::wire::u16_from_be;
use vstd::prelude::*;

verus! {

/// What is left of `sum` in the 32-bit accumulator, which wraps.
pub open spec fn wrap32(sum: nat) -> nat {
    sum % 0x1_0000_0000
}

/// What `byte` at offset `i` adds to the sum of 16-bit big-endian words: it
/// is a high byte at even offsets and a low byte at odd ones.
pub open spec fn weighted(byte: u8, i: int) -> nat {
    if i % 2 == 0 {
        byte as nat * 0x100
    } else {
        byte as nat
    }
}

/// The sum of the 16-bit big-endian words of `bytes`. A trailing odd byte
/// counts as the high byte of a word whose low byte is zero.
pub open spec fn word_sum(bytes: Seq<u8>) -> nat
    decreases bytes.len(),
{
    if bytes.len() == 0 {
        0
    } else {
        word_sum(bytes.drop_last()) + weighted(bytes.last(), bytes.len() - 1)
    }
}

/// Folds every carry above bit 16 back into the low 16 bits, until none is
/// left.
pub open spec fn fold_carries(acc: nat) -> nat
    decreases acc,
{
    if acc < 0x1_0000 {
        acc
    } else {
        fold_carries(acc % 0x1_0000 + acc / 0x1_0000)
    }
}

/// The checksum that an accumulated sum stands for: the one's complement of
/// the folded sum.
pub open spec fn checksum_of(acc: nat) -> u16 {
    (0xFFFF - fold_carries(acc)) as u16
}

/// The accumulator after summing an IPv4 header.
pub open spec fn ip_accumulator(header: Seq<u8>) -> nat {
    wrap32(word_sum(header))
}

/// The checksum of an IPv4 header as it is given, checksum field included.
pub open spec fn spec_ip_checksum(header: Seq<u8>) -> u16 {
    checksum_of(ip_accumulator(header))
}

/// The sum over a TCP segment before it wraps: the pseudo-header (both
/// addresses, the word 0x0006 for a zero byte and protocol number 6, the
/// segment length), then the TCP header, then the payload.
pub open spec fn tcp_sum(
    tcp_header: Seq<u8>,
    data: Seq<u8>,
    src_addr: Seq<u8>,
    dst_addr: Seq<u8>,
) -> nat {
    word_sum(src_addr) + word_sum(dst_addr) + 0x0006 + tcp_header.len() + data.len() + word_sum(
        tcp_header,
    ) + word_sum(data)
}

/// The accumulator after summing a TCP segment.
pub open spec fn tcp_accumulator(
    tcp_header: Seq<u8>,
    data: Seq<u8>,
    src_addr: Seq<u8>,
    dst_addr: Seq<u8>,
) -> nat {
    wrap32(tcp_sum(tcp_header, data, src_addr, dst_addr))
}

/// The checksum of a TCP segment as it is given, checksum field included.
pub open spec fn spec_tcp_checksum(
    tcp_header: Seq<u8>,
    data: Seq<u8>,
    src_addr: Seq<u8>,
    dst_addr: Seq<u8>,
) -> u16 {
    checksum_of(tcp_accumulator(tcp_header, data, src_addr, dst_addr))
}

/// The sum over the first `i + 1` bytes, from the sum over the first `i`.
pub proof fn lemma_word_sum_take(bytes: Seq<u8>, i: int)
    requires
        0 <= i < bytes.len(),
    ensures
        word_sum(bytes.take(i + 1)) == word_sum(bytes.take(i)) + weighted(bytes[i], i),
{
    assert(bytes.take(i + 1).drop_last() =~= bytes.take(i));
}

/// Replacing the byte at `i` changes the sum by the weighted difference.
pub proof fn lemma_word_sum_update(bytes: Seq<u8>, i: int, byte: u8)
    requires
        0 <= i < bytes.len(),
    ensures
        word_sum(bytes.update(i, byte)) + weighted(bytes[i], i) == word_sum(bytes) + weighted(
            byte,
            i,
        ),
    decreases bytes.len(),
{
    let last = bytes.len() - 1;
    if i == last {
        assert(bytes.update(i, byte).drop_last() =~= bytes.drop_last());
    } else {
        lemma_word_sum_update(bytes.drop_last(), i, byte);
        assert(bytes.update(i, byte).drop_last() =~= bytes.drop_last().update(i, byte));
    }
}

/// Folding keeps the sum's residue modulo 0xFFFF, leaves at most 16 bits,
/// and gives zero only for a zero sum.
pub proof fn lemma_fold_carries(acc: nat)
    ensures
        fold_carries(acc) <= 0xFFFF,
        fold_carries(acc) % 0xFFFF == acc % 0xFFFF,
        fold_carries(acc) == 0 <==> acc == 0,
    decreases acc,
{
    if acc >= 0x1_0000 {
        let low = acc % 0x1_0000;
        let high = acc / 0x1_0000;
        lemma_fold_carries(low + high);
        assert(acc == high * 0xFFFF + (low + high));
        assert((high * 0xFFFF + (low + high)) % 0xFFFF == (low + high) % 0xFFFF) by {
            vstd::arithmetic::div_mod::lemma_mod_multiples_vanish(
                high as int,
                (low + high) as int,
                0xFFFF,
            );
        }
    }
}

/// A segment or header checks out (its checksum comes to zero) exactly when
/// its accumulated sum is a positive multiple of 0xFFFF.
pub proof fn lemma_checksum_zero(acc: nat)
    ensures
        checksum_of(acc) == 0 <==> acc > 0 && acc % 0xFFFF == 0,
{
    lemma_fold_carries(acc);
}

/// `bytes` with the 16-bit `value` stored big-endian at `offset`.
pub open spec fn store_u16(bytes: Seq<u8>, offset: int, value: u16) -> Seq<u8> {
    bytes.update(offset, (value as int / 0x100) as u8).update(
        offset + 1,
        (value as int % 0x100) as u8,
    )
}

/// Storing a 16-bit value over a zero field at an even offset adds exactly
/// that value to the sum of words.
pub proof fn lemma_word_sum_store(bytes: Seq<u8>, offset: int, value: u16)
    requires
        0 <= offset,
        offset + 1 < bytes.len(),
        offset % 2 == 0,
        bytes[offset] == 0,
        bytes[offset + 1] == 0,
    ensures
        word_sum(store_u16(bytes, offset, value)) == word_sum(bytes) + value as nat,
{
    let hi = (value as int / 0x100) as u8;
    let lo = (value as int % 0x100) as u8;
    lemma_word_sum_update(bytes, offset, hi);
    lemma_word_sum_update(bytes.update(offset, hi), offset + 1, lo);
}

/// Adding its own checksum to a 32-bit accumulator never makes it wrap, and
/// gives a sum that checks out.
pub proof fn lemma_complement_cancels(acc: nat)
    requires
        acc < 0x1_0000_0000,
    ensures
        acc + checksum_of(acc) < 0x1_0000_0000,
        checksum_of(acc + checksum_of(acc) as nat) == 0,
{
    lemma_fold_carries(acc);
    if acc >= 0xFFFF_0000 {
        // The high half is 0xFFFF, so one fold gives the low half plus
        // 0xFFFF, and the next one the low half itself.
        let low = (acc - 0xFFFF_0000) as nat;
        assert(acc % 0x1_0000 == low && acc / 0x1_0000 == 0xFFFF);
        assert(fold_carries(acc) == fold_carries(low + 0xFFFF));
        if low > 0 {
            assert((low + 0xFFFF) % 0x1_0000 == low - 1 && (low + 0xFFFF) / 0x1_0000 == 1);
            assert(fold_carries(low + 0xFFFF) == fold_carries(low));
        }
    }
    lemma_checksum_zero(acc + checksum_of(acc) as nat);
}

/// An IPv4 header verifies itself: compute the checksum over the header with
/// a zero checksum field, store it in bytes 10 and 11, and the checksum over
/// the finished header is zero.
pub proof fn lemma_ip_checksum_verifies(header: Seq<u8>)
    requires
        header.len() >= 12,
        header[10] == 0,
        header[11] == 0,
    ensures
        spec_ip_checksum(store_u16(header, 10, spec_ip_checksum(header))) == 0,
{
    let checksum = spec_ip_checksum(header);
    lemma_word_sum_store(header, 10, checksum);
    lemma_wrap32_add(word_sum(header), checksum as nat);
    lemma_complement_cancels(ip_accumulator(header));
}

/// A TCP segment verifies itself: compute the checksum over pseudo-header,
/// header with a zero checksum field and payload, store it in bytes 16 and
/// 17 of the header, and the checksum over the finished segment is zero.
pub proof fn lemma_tcp_checksum_verifies(
    tcp_header: Seq<u8>,
    data: Seq<u8>,
    src_addr: Seq<u8>,
    dst_addr: Seq<u8>,
)
    requires
        tcp_header.len() >= 18,
        tcp_header[16] == 0,
        tcp_header[17] == 0,
    ensures
        spec_tcp_checksum(
            store_u16(tcp_header, 16, spec_tcp_checksum(tcp_header, data, src_addr, dst_addr)),
            data,
            src_addr,
            dst_addr,
        ) == 0,
{
    let checksum = spec_tcp_checksum(tcp_header, data, src_addr, dst_addr);
    lemma_word_sum_store(tcp_header, 16, checksum);
    lemma_wrap32_add(tcp_sum(tcp_header, data, src_addr, dst_addr), checksum as nat);
    lemma_complement_cancels(tcp_accumulator(tcp_header, data, src_addr, dst_addr));
}

/// A sum that checks out stops doing so when it moves by less than 0xFFFF
/// in either direction, whether or not the accumulator wraps on the way.
pub proof fn lemma_shifted_sum_fails(sum: nat, shifted: nat)
    requires
        checksum_of(wrap32(sum)) == 0,
        sum != shifted,
        sum < shifted + 0xFFFF,
        shifted < sum + 0xFFFF,
    ensures
        checksum_of(wrap32(shifted)) != 0,
{
    lemma_checksum_zero(wrap32(sum));
    lemma_checksum_zero(wrap32(shifted));
}

/// Corruption of the payload is detected: change any one byte of the payload
/// of a segment that checks out, and it no longer does.
pub proof fn lemma_payload_change_detected(
    tcp_header: Seq<u8>,
    data: Seq<u8>,
    src_addr: Seq<u8>,
    dst_addr: Seq<u8>,
    i: int,
    byte: u8,
)
    requires
        spec_tcp_checksum(tcp_header, data, src_addr, dst_addr) == 0,
        0 <= i < data.len(),
        byte != data[i],
    ensures
        spec_tcp_checksum(tcp_header, data.update(i, byte), src_addr, dst_addr) != 0,
{
    lemma_word_sum_update(data, i, byte);
    lemma_shifted_sum_fails(
        tcp_sum(tcp_header, data, src_addr, dst_addr),
        tcp_sum(tcp_header, data.update(i, byte), src_addr, dst_addr),
    );
}

/// `byte` with bit `bit` inverted.
pub open spec fn flip_bit(byte: u8, bit: u8) -> u8 {
    byte ^ (1u8 << bit)
}

/// A single inverted bit in the payload is detected.
pub proof fn lemma_bit_flip_detected(
    tcp_header: Seq<u8>,
    data: Seq<u8>,
    src_addr: Seq<u8>,
    dst_addr: Seq<u8>,
    i: int,
    bit: u8,
)
    requires
        spec_tcp_checksum(tcp_header, data, src_addr, dst_addr) == 0,
        0 <= i < data.len(),
        bit < 8,
    ensures
        spec_tcp_checksum(
            tcp_header,
            data.update(i, flip_bit(data[i], bit)),
            src_addr,
            dst_addr,
        ) != 0,
{
    let byte = data[i];
    assert(byte ^ (1u8 << bit) != byte) by (bit_vector)
        requires
            bit < 8,
    ;
    lemma_payload_change_detected(tcp_header, data, src_addr, dst_addr, i, flip_bit(byte, bit));
}

/// Wrapping after every addition leaves what wrapping once at the end does.
pub proof fn lemma_wrap32_add(sum: nat, more: nat)
    ensures
        wrap32(wrap32(sum) + more) == wrap32(sum + more),
{
}

/// Adds one word to a wrapping accumulator.
fn add_word(acc: u32, word: u32) -> (sum: u32)
    ensures
        sum as nat == wrap32(acc as nat + word as nat),
{
    acc.wrapping_add(word)
}

/// Adds the words of `bytes` to a wrapping accumulator.
fn sum_words(bytes: &[u8], acc: u32) -> (sum: u32)
    ensures
        sum as nat == wrap32(acc as nat + word_sum(bytes@)),
{
    let n = bytes.len();
    let mut sum = acc;
    let mut i: usize = 0;
    while n - i >= 2
        invariant
            i <= n,
            i % 2 == 0,
            n == bytes@.len(),
            sum as nat == wrap32(acc as nat + word_sum(bytes@.take(i as int))),
        decreases n - i,
    {
        let word: u32 = u16_from_be(bytes[i], bytes[i + 1]) as u32;
        proof {
            lemma_word_sum_take(bytes@, i as int);
            lemma_word_sum_take(bytes@, i + 1);
        }
        sum = add_word(sum, word);
        proof {
            lemma_wrap32_add(acc as nat + word_sum(bytes@.take(i as int)), word as nat);
        }
        i += 2;
    }
    if i < n {
        let word: u32 = u16_from_be(bytes[i], 0) as u32;
        proof {
            lemma_word_sum_take(bytes@, i as int);
            lemma_wrap32_add(acc as nat + word_sum(bytes@.take(i as int)), word as nat);
        }
        sum = add_word(sum, word);
    }
    assert(bytes@.take(n as int) =~= bytes@);
    sum
}

/// Folds the accumulator and takes the one's complement.
fn finish(acc: u32) -> (checksum: u16)
    ensures
        checksum == checksum_of(acc as nat),
{
    let mut sum = acc;
    while (sum >> 16) != 0
        invariant
            fold_carries(sum as nat) == fold_carries(acc as nat),
        decreases sum,
    {
        assert(sum >> 16 == sum / 0x1_0000) by (bit_vector);
        assert(sum & 0xFFFF == sum % 0x1_0000) by (bit_vector);
        sum = (sum & 0xFFFF) + (sum >> 16);
    }
    assert(sum >> 16 == sum / 0x1_0000) by (bit_vector);
    (0xFFFF - sum) as u16
}

/// Computes the checksum of an IPv4 header.
///
/// Over a header whose checksum field is zero this is the value to store
/// there; over a received header, checksum included, zero means intact.
pub fn calculate_ip_checksum(header: &[u8]) -> (checksum: u16)
    ensures
        checksum == spec_ip_checksum(header@),
{
    finish(sum_words(header, 0))
}

/// `len` reduced to the accumulator's 32 bits.
fn len_word(len: usize) -> (word: u32)
    ensures
        word as nat == wrap32(len as nat),
{
    (len as u64 % 0x1_0000_0000) as u32
}

/// Computes the checksum of a TCP segment for the given addresses.
///
/// The sum covers the pseudo-header (source address, destination address,
/// a zero byte and protocol 6 as one word, length of header plus payload),
/// the TCP header and the payload. Over a header whose checksum field is
/// zero this is the value to store there; over a received segment, zero
/// means intact.
pub fn calculate_tcp_checksum(
    tcp_header: &[u8],
    data: &[u8],
    src_addr: [u8; 4],
    dst_addr: [u8; 4],
) -> (checksum: u16)
    ensures
        checksum == spec_tcp_checksum(tcp_header@, data@, src_addr@, dst_addr@),
{
    let ghost src = word_sum(src_addr@);
    let ghost dst = word_sum(dst_addr@);
    let ghost lengths = tcp_header@.len() + data@.len();
    let sum = sum_words(src_addr.as_slice(), 0);
    let sum = sum_words(dst_addr.as_slice(), sum);
    proof {
        lemma_wrap32_add(src, dst);
    }
    let sum = add_word(sum, 0x0006);
    proof {
        lemma_wrap32_add(src + dst, 0x0006);
    }
    let sum = add_word(sum, len_word(tcp_header.len()));
    proof {
        lemma_wrap32_add(tcp_header@.len(), (src + dst + 0x0006) as nat);
        lemma_wrap32_add(src + dst + 0x0006, wrap32(tcp_header@.len()));
    }
    assert(sum as nat == wrap32(src + dst + 0x0006 + tcp_header@.len()));
    let sum = add_word(sum, len_word(data.len()));
    proof {
        lemma_wrap32_add(data@.len(), (src + dst + 0x0006 + tcp_header@.len()) as nat);
        lemma_wrap32_add(src + dst + 0x0006 + tcp_header@.len(), wrap32(data@.len()));
    }
    assert(sum as nat == wrap32(src + dst + 0x0006 + lengths));
    let sum = sum_words(tcp_header, sum);
    proof {
        lemma_wrap32_add(src + dst + 0x0006 + lengths, word_sum(tcp_header@));
    }
    let sum = sum_words(data, sum);
    proof {
        lemma_wrap32_add(src + dst + 0x0006 + lengths + word_sum(tcp_header@), word_sum(data@));
    }
    finish(sum)
}

} // verus!
