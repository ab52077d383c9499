//! A reader that draws bits from a byte slice, least significant bit first.
//!
//! The reader refills its bit buffer with a whole little-endian 32-bit word
//! whenever four source bytes are left, and with the last one to three bytes
//! otherwise. Its contracts are stated over the bit string of the source
//! (see [`crate::bits`]): however the buffer is refilled, the bits come out in
//! the order of that string.
use crate::bits::{
    align_to_byte, bit_at, bits_value, lemma_bit_at_is_bit, lemma_bits_value_bound,
    lemma_bits_value_byte, lemma_bits_value_front, lemma_bits_value_split, lemma_bits_value_word,
};
use crate::endian::read_u32_le;
use crate::error::NLMError;
use vstd::arithmetic::power2::{lemma2_to64, pow2};
use vstd::bits::{lemma_u32_pow2_no_overflow, lemma_u32_shl_is_mul};
use vstd::prelude::*;
use vstd::slice::slice_subrange;

verus! {

/// The residual bit count after an empty buffer was refilled from a source
/// with `rest` bits left and the first bit drawn was handed out: a whole
/// word of 32 bits is drawn if it is there, else the one to three bytes that
/// are left, else nothing.
pub open spec fn refilled(rest: int) -> nat {
    if rest >= 32 {
        31
    } else if rest > 0 {
        (rest - 1) as nat
    } else {
        0
    }
}

/// The residual bit count after one bit was asked for, when it was
/// `buffered` before and `rest` bits of the source were not yet handed out.
pub open spec fn buffered_after_bit(buffered: nat, rest: int) -> nat {
    if buffered > 0 {
        (buffered - 1) as nat
    } else {
        refilled(rest)
    }
}

/// The residual bit count after `count` bits were handed out one after the
/// other.
pub open spec fn buffered_after_bits(buffered: nat, rest: int, count: nat) -> nat
    decreases count,
{
    if count == 0 {
        buffered
    } else {
        buffered_after_bit(
            buffered_after_bits(buffered, rest, (count - 1) as nat),
            rest - (count - 1),
        )
    }
}

/// Handing out `m` bits and then `n` bits leaves the residual count that
/// handing out `m + n` bits leaves.
pub proof fn lemma_buffered_chain(buffered: nat, rest: int, m: nat, n: nat)
    ensures
        buffered_after_bits(buffered, rest, m + n) == buffered_after_bits(
            buffered_after_bits(buffered, rest, m),
            rest - m,
            n,
        ),
    decreases n,
{
    if n > 0 {
        lemma_buffered_chain(buffered, rest, m, (n - 1) as nat);
        assert(buffered_after_bits(buffered, rest, m + n) == buffered_after_bit(
            buffered_after_bits(buffered, rest, (m + n - 1) as nat),
            rest - (m + n - 1),
        ));
    }
}

/// Bits that are buffered are handed out without a refill.
pub proof fn lemma_buffered_drain(buffered: nat, rest: int, count: nat)
    requires
        count <= buffered,
    ensures
        buffered_after_bits(buffered, rest, count) == buffered - count,
    decreases count,
{
    if count > 0 {
        lemma_buffered_drain(buffered, rest, (count - 1) as nat);
    }
}

/// No more bits are buffered than the source has left; once every bit is
/// handed out, none is buffered.
pub proof fn lemma_buffered_bound(buffered: nat, rest: int, count: nat)
    requires
        buffered <= rest,
        count <= rest,
    ensures
        buffered_after_bits(buffered, rest, count) <= rest - count,
    decreases count,
{
    if count > 0 {
        lemma_buffered_bound(buffered, rest, (count - 1) as nat);
    }
}

/// A bit reader over a byte slice.
pub struct Streamer<'a> {
    /// The bits drawn from the source and not yet handed out, lowest first.
    value: u32,
    /// How many bits of `value` are still to be handed out.
    bits_left: usize,
    source: &'a [u8],
    /// Index of the next source byte to draw.
    next: usize,
}

impl<'a> Streamer<'a> {
    /// The bytes the reader draws from.
    pub closed spec fn source(&self) -> Seq<u8> {
        self.source@
    }

    /// Index, in the bit string of the source, of the next bit to be handed
    /// out.
    pub closed spec fn bit_pos(&self) -> int {
        8 * self.next - self.bits_left
    }

    /// Number of bits that were drawn from the source and are not yet handed
    /// out: the residual bit count.
    pub closed spec fn buffered(&self) -> nat {
        self.bits_left as nat
    }

    /// Number of bits in the source.
    pub open spec fn total_bits(&self) -> int {
        8 * (self.source().len() as int)
    }

    /// The buffered bits are the bits of the source that follow `bit_pos`.
    pub closed spec fn wf(&self) -> bool {
        &&& self.next <= self.source@.len()
        &&& self.bits_left <= 31
        &&& self.bits_left <= 8 * self.next
        &&& self.value == bits_value(self.source@, self.bit_pos(), self.bits_left as nat)
    }

    /// The reader is what `before` becomes by handing out bits: it draws
    /// from the same source, stands at or after the position of `before`,
    /// and has buffered what is left after the bits between the two
    /// positions were handed out one after the other.
    pub open spec fn follows(&self, before: Self) -> bool {
        &&& self.source() == before.source()
        &&& before.bit_pos() <= self.bit_pos()
        &&& self.buffered() == buffered_after_bits(
            before.buffered(),
            before.total_bits() - before.bit_pos(),
            (self.bit_pos() - before.bit_pos()) as nat,
        )
    }

    /// Every bit of the source was handed out and none is buffered.
    pub open spec fn exhausted(&self) -> bool {
        self.bit_pos() == self.total_bits() && self.buffered() == 0
    }

    /// What follows a reader that follows another one follows the latter.
    pub proof fn lemma_follows_chain(&self, middle: Self, before: Self)
        requires
            self.follows(middle),
            middle.follows(before),
        ensures
            self.follows(before),
    {
        lemma_buffered_chain(
            before.buffered(),
            before.total_bits() - before.bit_pos(),
            (middle.bit_pos() - before.bit_pos()) as nat,
            (self.bit_pos() - middle.bit_pos()) as nat,
        );
    }

    /// The position of a well-formed reader lies within its source, and
    /// the bits it has buffered end at a byte boundary of the source.
    pub proof fn lemma_bit_pos_in_range(&self)
        requires
            self.wf(),
        ensures
            0 <= self.bit_pos() <= self.total_bits(),
            self.buffered() <= 31,
            self.bit_pos() + self.buffered() <= self.total_bits(),
            (self.bit_pos() + self.buffered()) % 8 == 0,
    {
    }

    /// A reader placed before the first bit of `source`.
    pub fn new(source: &'a [u8]) -> (s: Self)
        ensures
            s.wf(),
            s.source() == source@,
            s.bit_pos() == 0,
            s.buffered() == 0,
    {
        Streamer { value: 0, bits_left: 0, source, next: 0 }
    }

    /// Refills the empty bit buffer and hands out the first bit drawn, or
    /// `None` when the source is exhausted.
    fn fill_buffer_and_return_bit(&mut self) -> (r: Option<u32>)
        requires
            old(self).wf(),
            old(self).bits_left == 0,
        ensures
            final(self).wf(),
            final(self).source() == old(self).source(),
            old(self).bit_pos() < old(self).total_bits() ==> r == Some(
                bit_at(old(self).source(), old(self).bit_pos()) as u32,
            ) && final(self).bit_pos() == old(self).bit_pos() + 1,
            old(self).bit_pos() >= old(self).total_bits() ==> r is None && final(self).bit_pos()
                == old(self).bit_pos(),
            final(self).buffered() == refilled(old(self).total_bits() - old(self).bit_pos()),
    {
        let len = self.source.len();
        let ghost src = self.source@;
        let ghost start = self.next as int;
        if len - self.next >= 4 {
            let word = read_u32_le(slice_subrange(self.source, self.next, self.next + 4));
            proof {
                lemma_bits_value_word(src, start);
                lemma_bits_value_front(src, 8 * start, 32);
                lemma_bit_at_is_bit(src, 8 * start);
                assert(word & 1 == word % 2) by (bit_vector);
                assert(word >> 1 == word / 2) by (bit_vector);
            }
            self.next += 4;
            self.value = word >> 1;
            self.bits_left = 31;
            return Some(word & 1);
        }
        let mut value: u32 = 0;
        let mut shift: u32 = 0;
        while self.next < len
            invariant
                self.source@ == src,
                self.value == old(self).value,
                len == src.len(),
                0 <= start <= self.next <= len,
                len - start < 4,
                shift == 8 * (self.next - start),
                self.bits_left == shift,
                value == bits_value(src, 8 * start, shift as nat),
            decreases len - self.next,
        {
            let v = self.source[self.next];
            proof {
                lemma2_to64();
                lemma_bits_value_bound(src, 8 * start, shift as nat);
                lemma_bits_value_split(src, 8 * start, shift as nat, 8);
                lemma_bits_value_byte(src, self.next as int);
                assert(shift == 0 || shift == 8 || shift == 16);
                if shift == 0 {
                    assert(value | ((v as u32) << 0u32) == value + (v as u32) * 0x1)
                        by (bit_vector)
                        requires
                            value < 0x1,
                    ;
                } else if shift == 8 {
                    assert(value | ((v as u32) << 8u32) == value + (v as u32) * 0x100)
                        by (bit_vector)
                        requires
                            value < 0x100,
                    ;
                } else {
                    assert(value | ((v as u32) << 16u32) == value + (v as u32) * 0x1_0000)
                        by (bit_vector)
                        requires
                            value < 0x1_0000,
                    ;
                }
            }
            let ghost before = value;
            value = value | ((v as u32) << shift);
            assert(pow2(shift as nat) * (v as nat) == (v as u32) * pow2(shift as nat))
                by (nonlinear_arith);
            shift += 8;
            self.bits_left += 8;
            self.next += 1;
        }
        if self.bits_left == 0 {
            return None;
        }
        proof {
            lemma_bits_value_front(src, 8 * start, shift as nat);
            lemma_bit_at_is_bit(src, 8 * start);
            assert(value & 1 == value % 2) by (bit_vector);
            assert(value >> 1 == value / 2) by (bit_vector);
        }
        self.value = value >> 1;
        self.bits_left -= 1;
        Some(value & 1)
    }

    /// Hands out the next bit of the source. Fails, and consumes nothing,
    /// when every bit has been handed out.
    pub fn read_bit(&mut self) -> (r: Result<u32, NLMError>)
        requires
            old(self).wf(),
        ensures
            final(self).wf(),
            final(self).source() == old(self).source(),
            0 <= old(self).bit_pos() <= old(self).total_bits(),
            old(self).bit_pos() < old(self).total_bits() ==> r == Ok::<u32, NLMError>(
                bit_at(old(self).source(), old(self).bit_pos()) as u32,
            ) && final(self).bit_pos() == old(self).bit_pos() + 1,
            old(self).bit_pos() >= old(self).total_bits() ==> r == Err::<u32, NLMError>(
                NLMError::EndOfStream,
            ) && final(self).bit_pos() == old(self).bit_pos(),
            r is Ok ==> final(self).buffered() == buffered_after_bit(
                old(self).buffered(),
                old(self).total_bits() - old(self).bit_pos(),
            ),
            r is Err ==> final(self).exhausted(),
            final(self).follows(*old(self)),
    {
        proof {
            let held = self.buffered();
            let rest = self.total_bits() - self.bit_pos();
            assert(buffered_after_bits(held, rest, 1) == buffered_after_bit(
                buffered_after_bits(held, rest, 0),
                rest - 0,
            ));
        }
        if self.bits_left != 0 {
            let v = self.value;
            proof {
                lemma_bits_value_front(self.source@, self.bit_pos(), self.bits_left as nat);
                lemma_bit_at_is_bit(self.source@, self.bit_pos());
                assert(v & 1 == v % 2) by (bit_vector);
                assert(v >> 1 == v / 2) by (bit_vector);
            }
            self.bits_left -= 1;
            self.value = v >> 1;
            return Ok(v & 1);
        }
        match self.fill_buffer_and_return_bit() {
            Some(bit) => Ok(bit),
            None => Err(NLMError::EndOfStream),
        }
    }

    /// Hands out the next `count` bits as one number: bit `k` of the number
    /// is the `k`-th bit drawn. Fails when fewer than `count` bits are left;
    /// the reader is then at the end of its source.
    pub fn read_bits(&mut self, count: u32) -> (r: Result<u32, NLMError>)
        requires
            old(self).wf(),
            count <= 32,
        ensures
            final(self).wf(),
            final(self).source() == old(self).source(),
            0 <= old(self).bit_pos() <= old(self).total_bits(),
            old(self).bit_pos() + count <= old(self).total_bits() ==> r == Ok::<u32, NLMError>(
                bits_value(old(self).source(), old(self).bit_pos(), count as nat) as u32,
            ) && final(self).bit_pos() == old(self).bit_pos() + count,
            old(self).bit_pos() + count > old(self).total_bits() ==> r == Err::<u32, NLMError>(
                NLMError::EndOfStream,
            ) && final(self).exhausted(),
            r is Ok ==> final(self).buffered() == buffered_after_bits(
                old(self).buffered(),
                old(self).total_bits() - old(self).bit_pos(),
                count as nat,
            ),
            final(self).follows(*old(self)),
    {
        let ghost src = self.source();
        let ghost start = self.bit_pos();
        let ghost held = self.buffered();
        let ghost rest = self.total_bits() - self.bit_pos();
        proof {
            self.lemma_bit_pos_in_range();
        }
        let mut result: u32 = 0;
        let mut bit: u32 = 0;
        while bit < count
            invariant
                bit <= count <= 32,
                self.wf(),
                self.source() == src,
                src == old(self).source(),
                start == old(self).bit_pos(),
                0 <= start,
                self.bit_pos() == start + bit,
                self.bit_pos() <= self.total_bits(),
                held == old(self).buffered(),
                rest == old(self).total_bits() - old(self).bit_pos(),
                held <= rest,
                self.buffered() == buffered_after_bits(held, rest, bit as nat),
                result == bits_value(src, start, bit as nat),
            decreases count - bit,
        {
            let val = match self.read_bit() {
                Ok(val) => val,
                Err(e) => {
                    proof {
                        lemma_buffered_bound(held, rest, rest as nat);
                    }
                    return Err(e);
                },
            };
            assert(val == bit_at(src, start + bit));
            proof {
                lemma_bits_value_bound(src, start, bit as nat);
                lemma_bits_value_bound(src, start, (bit + 1) as nat);
                lemma_bit_at_is_bit(src, start + bit);
                lemma_u32_pow2_no_overflow(bit as nat);
                lemma_u32_shl_is_mul(1, bit);
                let one = 1u32 << bit;
                assert(result | one == result + one) by (bit_vector)
                    requires
                        one == 1u32 << bit,
                        bit < 32,
                        result < one,
                ;
                assert(bits_value(src, start, (bit + 1) as nat) == bits_value(
                    src,
                    start,
                    bit as nat,
                ) + bit_at(src, start + bit + 1 - 1) * pow2(bit as nat));
            }
            let ghost before = result;
            if val != 0 {
                result = result | (1u32 << bit);
            }
            proof {
                let b = bit_at(src, start + bit);
                let p = pow2(bit as nat);
                assert(b * p == if b == 0 {
                    0
                } else {
                    p
                }) by (nonlinear_arith)
                    requires
                        b <= 1,
                ;
            }
            assert(result == before + bit_at(src, start + bit) * pow2(bit as nat));
            bit += 1;
        }
        proof {
            lemma_bits_value_bound(src, start, count as nat);
            lemma2_to64();
        }
        Ok(result)
    }

    /// Discards bits up to the next byte boundary of the source. At a
    /// boundary nothing is discarded.
    pub fn drop_bits(&mut self)
        requires
            old(self).wf(),
        ensures
            final(self).wf(),
            final(self).source() == old(self).source(),
            final(self).bit_pos() == align_to_byte(old(self).bit_pos()),
            final(self).buffered() == old(self).buffered() - old(self).buffered() % 8,
            final(self).follows(*old(self)),
    {
        let ghost start = self.bit_pos();
        proof {
            lemma_buffered_drain(
                self.buffered(),
                self.total_bits() - self.bit_pos(),
                self.buffered() % 8,
            );
        }
        while (self.bits_left & 7) != 0
            invariant
                self.wf(),
                self.source() == old(self).source(),
                start <= self.bit_pos(),
                align_to_byte(self.bit_pos()) == align_to_byte(start),
                old(self).buffered() - old(self).buffered() % 8 <= self.buffered()
                    <= old(self).buffered(),
            decreases self.bits_left,
        {
            let left = self.bits_left;
            let v = self.value;
            proof {
                assert(left & 7 == left % 8) by (bit_vector);
                lemma_bits_value_front(self.source@, self.bit_pos(), left as nat);
                lemma_bit_at_is_bit(self.source@, self.bit_pos());
                assert(v >> 1 == v / 2) by (bit_vector);
            }
            self.bits_left -= 1;
            self.value = v >> 1;
        }
        proof {
            let left = self.bits_left;
            assert(left & 7 == left % 8) by (bit_vector);
        }
    }
}

} // verus!
