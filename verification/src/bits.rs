//! Bit strings and their byte values.
//!
//! The codec's contracts speak of bit strings: a physical byte is the value
//! of 8 consecutive stream bits, most significant bit first, and a payload
//! byte is recovered from the 8 bits that follow a unit's role bit. This
//! module defines the value of a bit string and proves the two directions
//! of the correspondence between a byte and its bits.

use vstd::arithmetic::power2::lemma2_to64;
use vstd::arithmetic::power2::lemma_pow2_unfold;
use vstd::arithmetic::power2::pow2;
use vstd::prelude::*;

verus! {

/// 1 for a set bit, 0 for a clear bit.
pub open spec fn bit_val(b: bool) -> int {
    if b {
        1
    } else {
        0
    }
}

/// The value of a bit string, read most significant bit first.
pub open spec fn bits_to_int(bits: Seq<bool>) -> int
    decreases bits.len(),
{
    if bits.len() == 0 {
        0
    } else {
        2 * bits_to_int(bits.drop_last()) + bit_val(bits.last())
    }
}

/// Bit `j` of `b`, counting from the most significant bit.
pub open spec fn byte_bit(b: u8, j: int) -> bool
    recommends
        0 <= j < 8,
{
    (b >> ((7 - j) as u8)) & 1 == 1
}

/// The 8 bits of `b`, most significant first.
pub open spec fn byte_bits(b: u8) -> Seq<bool> {
    Seq::new(8, |j: int| byte_bit(b, j))
}

/// The value of a bit string fits in as many bits as it has.
pub proof fn lemma_bits_to_int_bound(bits: Seq<bool>)
    ensures
        0 <= bits_to_int(bits) < pow2(bits.len()),
    decreases bits.len(),
{
    if bits.len() == 0 {
        assert(pow2(0) == 1) by {
            lemma2_to64();
        }
    } else {
        lemma_bits_to_int_bound(bits.drop_last());
        lemma_pow2_unfold(bits.len());
    }
}

/// The value of an 8-bit string, written out as a weighted sum.
pub proof fn lemma_bits_to_int8(bits: Seq<bool>)
    requires
        bits.len() == 8,
    ensures
        bits_to_int(bits) == 128 * bit_val(bits[0]) + 64 * bit_val(bits[1]) + 32 * bit_val(
            bits[2],
        ) + 16 * bit_val(bits[3]) + 8 * bit_val(bits[4]) + 4 * bit_val(bits[5]) + 2 * bit_val(
            bits[6],
        ) + bit_val(bits[7]),
{
    let s7 = bits.drop_last();
    let s6 = s7.drop_last();
    let s5 = s6.drop_last();
    let s4 = s5.drop_last();
    let s3 = s4.drop_last();
    let s2 = s3.drop_last();
    let s1 = s2.drop_last();
    let s0 = s1.drop_last();
    assert(s7 =~= bits.subrange(0, 7));
    assert(s6 =~= bits.subrange(0, 6));
    assert(s5 =~= bits.subrange(0, 5));
    assert(s4 =~= bits.subrange(0, 4));
    assert(s3 =~= bits.subrange(0, 3));
    assert(s2 =~= bits.subrange(0, 2));
    assert(s1 =~= bits.subrange(0, 1));
    assert(s0.len() == 0);
    assert(s1.last() == bits[0] && s2.last() == bits[1] && s3.last() == bits[2] && s4.last()
        == bits[3] && s5.last() == bits[4] && s6.last() == bits[5] && s7.last() == bits[6]
        && bits.last() == bits[7]);
    assert(bits_to_int(s0) == 0);
    assert(bits_to_int(s1) == bit_val(bits[0]));
    assert(bits_to_int(s2) == 2 * bits_to_int(s1) + bit_val(bits[1]));
    assert(bits_to_int(s3) == 2 * bits_to_int(s2) + bit_val(bits[2]));
    assert(bits_to_int(s4) == 2 * bits_to_int(s3) + bit_val(bits[3]));
    assert(bits_to_int(s5) == 2 * bits_to_int(s4) + bit_val(bits[4]));
    assert(bits_to_int(s6) == 2 * bits_to_int(s5) + bit_val(bits[5]));
    assert(bits_to_int(s7) == 2 * bits_to_int(s6) + bit_val(bits[6]));
    assert(bits_to_int(bits) == 2 * bits_to_int(s7) + bit_val(bits[7]));
}

/// A byte equals the weighted sum of its bits, and each extracted bit is a
/// single bit.
proof fn lemma_u8_decompose(b: u8)
    by (bit_vector)
    ensures
        b == 128 * ((b >> 7u8) & 1) + 64 * ((b >> 6u8) & 1) + 32 * ((b >> 5u8) & 1) + 16 * ((b
            >> 4u8) & 1) + 8 * ((b >> 3u8) & 1) + 4 * ((b >> 2u8) & 1) + 2 * ((b >> 1u8) & 1) + ((b
            >> 0u8) & 1),
        ((b >> 7u8) & 1) <= 1,
        ((b >> 6u8) & 1) <= 1,
        ((b >> 5u8) & 1) <= 1,
        ((b >> 4u8) & 1) <= 1,
        ((b >> 3u8) & 1) <= 1,
        ((b >> 2u8) & 1) <= 1,
        ((b >> 1u8) & 1) <= 1,
        ((b >> 0u8) & 1) <= 1,
{
}

/// Composing a byte from eight single bits places each bit where the
/// matching shift finds it.
proof fn lemma_u8_compose(b0: u8, b1: u8, b2: u8, b3: u8, b4: u8, b5: u8, b6: u8, b7: u8, x: u8)
    by (bit_vector)
    requires
        b0 <= 1,
        b1 <= 1,
        b2 <= 1,
        b3 <= 1,
        b4 <= 1,
        b5 <= 1,
        b6 <= 1,
        b7 <= 1,
        x == 128 * b0 + 64 * b1 + 32 * b2 + 16 * b3 + 8 * b4 + 4 * b5 + 2 * b6 + b7,
    ensures
        (x >> 7u8) & 1 == b0,
        (x >> 6u8) & 1 == b1,
        (x >> 5u8) & 1 == b2,
        (x >> 4u8) & 1 == b3,
        (x >> 3u8) & 1 == b4,
        (x >> 2u8) & 1 == b5,
        (x >> 1u8) & 1 == b6,
        (x >> 0u8) & 1 == b7,
{
}

/// Reading a byte's bits and reassembling them gives the byte back.
pub proof fn lemma_byte_bits_value(b: u8)
    ensures
        bits_to_int(byte_bits(b)) == b,
{
    let bits = byte_bits(b);
    lemma_bits_to_int8(bits);
    lemma_u8_decompose(b);
    assert forall|j: int| 0 <= j < 8 implies bit_val(bits[j]) == (b >> ((7 - j) as u8)) & 1 by {
        assert((b >> ((7 - j) as u8)) & 1 <= 1) by {
            lemma_u8_decompose(b);
        }
    }
}

/// A string of clear bits has value zero.
pub proof fn lemma_zero_bits(bits: Seq<bool>)
    requires
        forall|j: int| 0 <= j < bits.len() ==> !bits[j],
    ensures
        bits_to_int(bits) == 0,
    decreases bits.len(),
{
    if bits.len() > 0 {
        lemma_zero_bits(bits.drop_last());
    }
}

/// A byte whose value is that of an 8-bit string has exactly those bits.
pub proof fn lemma_value_byte_bits(bits: Seq<bool>, x: u8)
    requires
        bits.len() == 8,
        x == bits_to_int(bits),
    ensures
        forall|j: int| 0 <= j < 8 ==> byte_bit(x, j) == bits[j],
{
    lemma_bits_to_int8(bits);
    lemma_u8_compose(
        bit_val(bits[0]) as u8,
        bit_val(bits[1]) as u8,
        bit_val(bits[2]) as u8,
        bit_val(bits[3]) as u8,
        bit_val(bits[4]) as u8,
        bit_val(bits[5]) as u8,
        bit_val(bits[6]) as u8,
        bit_val(bits[7]) as u8,
        x,
    );
    assert forall|j: int| 0 <= j < 8 implies byte_bit(x, j) == bits[j] by {
        if j == 0 {
        } else if j == 1 {
        } else if j == 2 {
        } else if j == 3 {
        } else if j == 4 {
        } else if j == 5 {
        } else if j == 6 {
        } else {
            assert(j == 7);
        }
    }
}

} // verus!
