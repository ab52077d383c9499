//! The bit string of a byte buffer, least significant bit of each byte first.
use crate::endian::le_u32;
use vstd::arithmetic::power2::{lemma2_to64, lemma_pow2_adds, lemma_pow2_unfold, pow2};
use vstd::prelude::*;

verus! {

/// Bit `i` of the bit string of `data`: bit `i % 8`, counted from the least
/// significant one, of byte `i / 8`.
pub open spec fn bit_at(data: Seq<u8>, i: int) -> nat
    recommends
        0 <= i < 8 * data.len(),
{
    ((data[i / 8] >> ((i % 8) as u8)) & 1) as nat
}

/// The number formed by the `n` bits that start at bit `pos`: bit `k` of the
/// number is bit `pos + k` of the bit string.
pub open spec fn bits_value(data: Seq<u8>, pos: int, n: nat) -> nat
    recommends
        0 <= pos,
        pos + n <= 8 * data.len(),
    decreases n,
{
    if n == 0 {
        0
    } else {
        bits_value(data, pos, (n - 1) as nat) + bit_at(data, pos + n - 1) * pow2((n - 1) as nat)
    }
}

/// The smallest multiple of eight that is not below `pos`.
pub open spec fn align_to_byte(pos: int) -> int {
    (pos + 7) / 8 * 8
}

/// A bit is zero or one.
pub proof fn lemma_bit_at_is_bit(data: Seq<u8>, i: int)
    ensures
        bit_at(data, i) <= 1,
{
    let b = data[i / 8];
    let s = (i % 8) as u8;
    assert((b >> s) & 1 <= 1) by (bit_vector);
}

/// `n` bits form a number below `2^n`.
pub proof fn lemma_bits_value_bound(data: Seq<u8>, pos: int, n: nat)
    ensures
        bits_value(data, pos, n) < pow2(n),
    decreases n,
{
    if n == 0 {
        lemma2_to64();
    } else {
        lemma_bits_value_bound(data, pos, (n - 1) as nat);
        lemma_bit_at_is_bit(data, pos + n - 1);
        lemma_pow2_unfold(n);
        let p = pow2((n - 1) as nat);
        let b = bit_at(data, pos + n - 1);
        assert(b * p <= p) by (nonlinear_arith)
            requires
                b <= 1,
        ;
    }
}

/// A run of bits is its first `m` bits plus `2^m` times the rest.
pub proof fn lemma_bits_value_split(data: Seq<u8>, pos: int, m: nat, n: nat)
    ensures
        bits_value(data, pos, m + n) == bits_value(data, pos, m) + pow2(m) * bits_value(
            data,
            pos + m,
            n,
        ),
    decreases n,
{
    if n == 0 {
        assert(pow2(m) * 0 == 0);
    } else {
        let k = (n - 1) as nat;
        lemma_bits_value_split(data, pos, m, k);
        lemma_pow2_adds(m, k);
        let b = bit_at(data, pos + m + n - 1);
        let rest = bits_value(data, pos + m, k);
        let pm = pow2(m);
        let pk = pow2(k);
        assert(bits_value(data, pos, m + n) == bits_value(data, pos, (m + k) as nat) + b * pow2(
            (m + k) as nat,
        ));
        assert(bits_value(data, pos + m, n) == rest + b * pk);
        assert(pm * (rest + b * pk) == pm * rest + b * (pm * pk)) by (nonlinear_arith);
    }
}

/// A run of bits is its first bit plus twice the run after it.
pub proof fn lemma_bits_value_front(data: Seq<u8>, pos: int, n: nat)
    requires
        n > 0,
    ensures
        bits_value(data, pos, n) == bit_at(data, pos) + 2 * bits_value(
            data,
            pos + 1,
            (n - 1) as nat,
        ),
{
    lemma_bits_value_split(data, pos, 1, (n - 1) as nat);
    lemma2_to64();
    assert(bits_value(data, pos, 1) == bits_value(data, pos, 0) + bit_at(data, pos) * pow2(0));
    assert(bits_value(data, pos, 0) == 0);
}

/// The sum of the bits of a byte, each at its weight, is the byte.
proof fn lemma_byte_is_sum_of_bits(b: u8)
    ensures
        b == ((b >> 0u8) & 1) + 2 * ((b >> 1u8) & 1) + 4 * ((b >> 2u8) & 1) + 8 * ((b >> 3u8) & 1)
            + 16 * ((b >> 4u8) & 1) + 32 * ((b >> 5u8) & 1) + 64 * ((b >> 6u8) & 1) + 128 * ((b
            >> 7u8) & 1),
{
    assert(b == ((b >> 0u8) & 1) + 2 * ((b >> 1u8) & 1) + 4 * ((b >> 2u8) & 1) + 8 * ((b >> 3u8)
        & 1) + 16 * ((b >> 4u8) & 1) + 32 * ((b >> 5u8) & 1) + 64 * ((b >> 6u8) & 1) + 128 * ((b
        >> 7u8) & 1)) by (bit_vector);
}

/// Eight bits read at a byte boundary are the byte that starts there.
pub proof fn lemma_bits_value_byte(data: Seq<u8>, index: int)
    requires
        0 <= index < data.len(),
    ensures
        bits_value(data, 8 * index, 8) == data[index],
{
    let b = data[index];
    let p = 8 * index;
    lemma2_to64();
    lemma_byte_is_sum_of_bits(b);
    assert(bit_at(data, p + 0) == ((b >> 0u8) & 1));
    assert(bit_at(data, p + 1) == ((b >> 1u8) & 1));
    assert(bit_at(data, p + 2) == ((b >> 2u8) & 1));
    assert(bit_at(data, p + 3) == ((b >> 3u8) & 1));
    assert(bit_at(data, p + 4) == ((b >> 4u8) & 1));
    assert(bit_at(data, p + 5) == ((b >> 5u8) & 1));
    assert(bit_at(data, p + 6) == ((b >> 6u8) & 1));
    assert(bit_at(data, p + 7) == ((b >> 7u8) & 1));
    let b0 = bit_at(data, p + 0);
    let b1 = bit_at(data, p + 1);
    let b2 = bit_at(data, p + 2);
    let b3 = bit_at(data, p + 3);
    let b4 = bit_at(data, p + 4);
    let b5 = bit_at(data, p + 5);
    let b6 = bit_at(data, p + 6);
    let b7 = bit_at(data, p + 7);
    assert(bits_value(data, p, 0) == 0);
    assert(bits_value(data, p, 1) == bits_value(data, p, 0) + bit_at(data, p + 1 - 1) * pow2(0));
    assert(bits_value(data, p, 2) == bits_value(data, p, 1) + bit_at(data, p + 2 - 1) * pow2(1));
    assert(bits_value(data, p, 3) == bits_value(data, p, 2) + bit_at(data, p + 3 - 1) * pow2(2));
    assert(bits_value(data, p, 4) == bits_value(data, p, 3) + bit_at(data, p + 4 - 1) * pow2(3));
    assert(bits_value(data, p, 5) == bits_value(data, p, 4) + bit_at(data, p + 5 - 1) * pow2(4));
    assert(bits_value(data, p, 6) == bits_value(data, p, 5) + bit_at(data, p + 6 - 1) * pow2(5));
    assert(bits_value(data, p, 7) == bits_value(data, p, 6) + bit_at(data, p + 7 - 1) * pow2(6));
    assert(bits_value(data, p, 8) == bits_value(data, p, 7) + bit_at(data, p + 8 - 1) * pow2(7));
    assert(bits_value(data, p, 8) == b0 + 2 * b1 + 4 * b2 + 8 * b3 + 16 * b4 + 32 * b5 + 64 * b6
        + 128 * b7);
}

/// Thirty-two bits read at a byte boundary are the little-endian word that
/// starts there: refilling by words does not reorder bits.
pub proof fn lemma_bits_value_word(data: Seq<u8>, index: int)
    requires
        0 <= index,
        index + 4 <= data.len(),
    ensures
        bits_value(data, 8 * index, 32) == le_u32(data.subrange(index, index + 4)),
{
    let p = 8 * index;
    lemma2_to64();
    lemma_bits_value_byte(data, index);
    lemma_bits_value_byte(data, index + 1);
    lemma_bits_value_byte(data, index + 2);
    lemma_bits_value_byte(data, index + 3);
    lemma_bits_value_split(data, p, 8, 8);
    lemma_bits_value_split(data, p, 16, 8);
    lemma_bits_value_split(data, p, 24, 8);
    let w = data.subrange(index, index + 4);
    assert(w[0] == data[index] && w[1] == data[index + 1] && w[2] == data[index + 2] && w[3]
        == data[index + 3]);
}

} // verus!
