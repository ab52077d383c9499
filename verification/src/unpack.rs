//! The unpacker: a stream of literal and copy-back commands, driven by three
//! prefix-code trees, that rebuilds the payload of a packed image.
use crate::bits::{
    align_to_byte, bit_at, bits_value, lemma_bit_at_is_bit, lemma_bits_value_bound,
    lemma_bits_value_byte,
};
use crate::error::NLMError;
use crate::huffman::{decode_from_tree, decode_symbol, lemma_decode_symbol_advances, Node};
use crate::streamer::Streamer;
use vstd::arithmetic::power2::lemma2_to64;
use vstd::prelude::*;

verus! {

/// `out` after `count` bytes were appended one at a time, each a copy of the
/// byte that lay `distance` bytes before the end at that moment. A byte
/// appended by the copy may be read again later in the same copy.
pub open spec fn copy_back(out: Seq<u8>, distance: int, count: nat) -> Seq<u8>
    recommends
        1 <= distance <= out.len(),
    decreases count,
{
    if count == 0 {
        out
    } else {
        copy_back(out.push(out[out.len() - distance]), distance, (count - 1) as nat)
    }
}

/// The distance of the back-reference whose offset is stored at bit `pos`,
/// and the position after it: five low bits, then the high part decoded with
/// `tree3`. `None` when the bit string ends inside the offset.
pub open spec fn reference_distance(data: Seq<u8>, pos: int, tree3: Node) -> Option<(int, int)> {
    if pos < 0 || pos + 5 > 8 * data.len() {
        None
    } else {
        match decode_symbol(tree3, data, pos + 5) {
            None => None,
            Some((high, end)) => Some((high as int * 32 + bits_value(data, pos, 5), end)),
        }
    }
}

/// The effect of a back-reference of `count` bytes whose offset is stored at
/// bit `pos`. The distance must be at least one and at most the length of
/// the output so far.
pub open spec fn back_reference(
    data: Seq<u8>,
    pos: int,
    out: Seq<u8>,
    count: nat,
    tree3: Node,
) -> Result<(Seq<u8>, int), NLMError> {
    match reference_distance(data, pos, tree3) {
        None => Err(NLMError::EndOfStream),
        Some((distance, end)) => {
            if 1 <= distance <= out.len() {
                Ok((copy_back(out, distance, count), end))
            } else {
                Err(NLMError::InvalidDistance)
            }
        },
    }
}

/// Number of bytes that follow the eleven fixed bytes of the literal run
/// that starts at byte `first`: the 24-bit little-endian number in the last
/// three of the eleven, plus one.
pub open spec fn literal_run_extra(data: Seq<u8>, first: int) -> int
    recommends
        0 <= first,
        first + 11 <= data.len(),
{
    data[first + 8] as int + 0x100 * (data[first + 9] as int) + 0x1_0000 * (data[first + 10] as int)
        + 1
}

/// The effect of the literal-run escape met at bit `pos`: the reader skips to
/// the next byte boundary, and eleven bytes plus the run they announce are
/// taken over unchanged. `None` when the source ends inside the run.
pub open spec fn literal_run(data: Seq<u8>, pos: int, out: Seq<u8>) -> Option<(Seq<u8>, int)> {
    let first = align_to_byte(pos) / 8;
    if first + 11 > data.len() {
        None
    } else {
        let end = first + 11 + literal_run_extra(data, first);
        if end > data.len() {
            None
        } else {
            Some((out + data.subrange(first, end), 8 * end))
        }
    }
}

/// The effect of the command stored at bit `pos` on the output `out`, and the
/// position after the command.
///
/// A tag bit of 1 appends one byte decoded with `tree1`. A tag bit of 0 is
/// followed by a byte decoded with `tree2`: up to 0xfd it is the length of a
/// back-reference, 0xfe announces a back-reference with a 13-bit length, and
/// 0xff is the literal-run escape.
pub open spec fn unpack_step(
    data: Seq<u8>,
    pos: int,
    out: Seq<u8>,
    tree1: Node,
    tree2: Node,
    tree3: Node,
) -> Result<(Seq<u8>, int), NLMError> {
    if pos < 0 || pos >= 8 * data.len() {
        Err(NLMError::EndOfStream)
    } else if bit_at(data, pos) != 0 {
        match decode_symbol(tree1, data, pos + 1) {
            None => Err(NLMError::EndOfStream),
            Some((byte, end)) => Ok((out.push(byte), end)),
        }
    } else {
        match decode_symbol(tree2, data, pos + 1) {
            None => Err(NLMError::EndOfStream),
            Some((kind, next)) => {
                if kind <= 0xfd {
                    back_reference(data, next, out, kind as nat, tree3)
                } else if kind == 0xff {
                    match literal_run(data, next, out) {
                        None => Err(NLMError::EndOfStream),
                        Some(done) => Ok(done),
                    }
                } else if next + 13 > 8 * data.len() {
                    Err(NLMError::EndOfStream)
                } else {
                    back_reference(data, next + 13, out, bits_value(data, next, 13), tree3)
                }
            },
        }
    }
}

/// The output and position reached by executing commands from bit `pos` on
/// until the output holds at least `target` bytes.
pub open spec fn unpack_from(
    data: Seq<u8>,
    pos: int,
    out: Seq<u8>,
    target: nat,
    tree1: Node,
    tree2: Node,
    tree3: Node,
) -> Result<(Seq<u8>, int), NLMError>
    decreases 8 * data.len() - pos,
{
    if out.len() >= target {
        Ok((out, pos))
    } else {
        match unpack_step(data, pos, out, tree1, tree2, tree3) {
            Err(e) => Err(e),
            Ok((grown, next)) => {
                if next <= pos || next > 8 * data.len() {
                    Err(NLMError::EndOfStream)
                } else {
                    unpack_from(data, next, grown, target, tree1, tree2, tree3)
                }
            },
        }
    }
}

/// Copying back keeps what was there and appends `count` bytes.
pub proof fn lemma_copy_back_extends(out: Seq<u8>, distance: int, count: nat)
    requires
        1 <= distance <= out.len(),
    ensures
        copy_back(out, distance, count).len() == out.len() + count,
        copy_back(out, distance, count).subrange(0, out.len() as int) == out,
    decreases count,
{
    if count > 0 {
        let grown = out.push(out[out.len() - distance]);
        lemma_copy_back_extends(grown, distance, (count - 1) as nat);
        assert(copy_back(out, distance, count).subrange(0, out.len() as int)
            =~= copy_back(grown, distance, (count - 1) as nat).subrange(
            0,
            grown.len() as int,
        ).subrange(0, out.len() as int));
        assert(grown.subrange(0, out.len() as int) =~= out);
    } else {
        assert(out.subrange(0, out.len() as int) =~= out);
    }
}

/// Every back-reference that is carried out has a distance of at least one
/// and at most the length of the output at that point.
pub proof fn lemma_back_reference_distance(
    data: Seq<u8>,
    pos: int,
    out: Seq<u8>,
    count: nat,
    tree3: Node,
)
    requires
        back_reference(data, pos, out, count, tree3) is Ok,
    ensures
        reference_distance(data, pos, tree3) matches Some(found) && 1 <= found.0 <= out.len(),
{
}

/// A command that succeeds uses at least its tag bit, ends inside the bit
/// string and never shortens the output.
pub proof fn lemma_unpack_step_advances(
    data: Seq<u8>,
    pos: int,
    out: Seq<u8>,
    tree1: Node,
    tree2: Node,
    tree3: Node,
)
    ensures
        unpack_step(data, pos, out, tree1, tree2, tree3) matches Ok(done) ==> pos < done.1 <= 8
            * data.len() && out.len() <= done.0.len() && done.0.subrange(0, out.len() as int)
            == out,
{
    if 0 <= pos < 8 * data.len() {
        if bit_at(data, pos) != 0 {
            lemma_decode_symbol_advances(tree1, data, pos + 1);
            if let Some((byte, end)) = decode_symbol(tree1, data, pos + 1) {
                assert(out.push(byte).subrange(0, out.len() as int) =~= out);
            }
        } else {
            lemma_decode_symbol_advances(tree2, data, pos + 1);
            if let Some((kind, next)) = decode_symbol(tree2, data, pos + 1) {
                if kind == 0xff {
                    if let Some(done) = literal_run(data, next, out) {
                        assert(done.0.subrange(0, out.len() as int) =~= out);
                    }
                } else {
                    let at = if kind <= 0xfd {
                        next
                    } else {
                        next + 13
                    };
                    let count = if kind <= 0xfd {
                        kind as nat
                    } else {
                        bits_value(data, next, 13)
                    };
                    if at + 5 <= 8 * data.len() {
                        lemma_decode_symbol_advances(tree3, data, at + 5);
                        if let Some((distance, end)) = reference_distance(data, at, tree3) {
                            if 1 <= distance <= out.len() {
                                lemma_copy_back_extends(out, distance, count);
                            }
                        }
                    }
                }
            }
        }
    }
}

/// Appends `count` bytes to `result`, each a copy of the byte `distance`
/// bytes before the end at that moment.
fn copy_from_back(result: &mut Vec<u8>, distance: usize, count: usize)
    requires
        1 <= distance <= old(result)@.len(),
    ensures
        final(result)@ == copy_back(old(result)@, distance as int, count as nat),
{
    let offset = result.len() - distance;
    let mut n: usize = 0;
    while n < count
        invariant
            n <= count,
            1 <= distance <= old(result)@.len(),
            offset == old(result)@.len() - distance,
            result@.len() == old(result)@.len() + n,
            copy_back(old(result)@, distance as int, count as nat) == copy_back(
                result@,
                distance as int,
                (count - n) as nat,
            ),
        decreases count - n,
    {
        assert(offset + n < result.len());
        let b = result[offset + n];
        result.push(b);
        n += 1;
    }
}

/// Reads the offset of a back-reference and carries the reference out.
fn read_back_reference(
    streamer: &mut Streamer,
    result: &mut Vec<u8>,
    count: usize,
    tree3: &Box<Node>,
) -> (r: Result<(), NLMError>)
    requires
        old(streamer).wf(),
    ensures
        final(streamer).wf(),
        final(streamer).source() == old(streamer).source(),
        r is Ok ==> final(streamer).follows(*old(streamer)),
        r is Err && r->Err_0 == NLMError::EndOfStream ==> final(streamer).exhausted(),
        match back_reference(
            old(streamer).source(),
            old(streamer).bit_pos(),
            old(result)@,
            count as nat,
            **tree3,
        ) {
            Ok((out, end)) => r is Ok && final(result)@ == out && final(streamer).bit_pos() == end,
            Err(e) => r == Err::<(), NLMError>(e),
        },
{
    let ghost src = streamer.source();
    let ghost pos = streamer.bit_pos();
    let ghost before = *streamer;
    let low = streamer.read_bits(5)?;
    let ghost after_low = *streamer;
    let high = decode_from_tree(streamer, tree3)?;
    proof {
        lemma_bits_value_bound(src, pos, 5);
        lemma2_to64();
        streamer.lemma_follows_chain(after_low, before);
    }
    let distance = ((high as u32) * 32 + low) as usize;
    if distance == 0 || distance > result.len() {
        return Err(NLMError::InvalidDistance);
    }
    copy_from_back(result, distance, count);
    Ok(())
}

/// Reads one byte at a byte boundary and appends it to `result`.
fn read_raw_byte(streamer: &mut Streamer, result: &mut Vec<u8>) -> (r: Result<u8, NLMError>)
    requires
        old(streamer).wf(),
        old(streamer).bit_pos() % 8 == 0,
    ensures
        final(streamer).wf(),
        final(streamer).source() == old(streamer).source(),
        r is Ok ==> final(streamer).follows(*old(streamer)),
        r is Err && r->Err_0 == NLMError::EndOfStream ==> final(streamer).exhausted(),
        old(streamer).bit_pos() / 8 < old(streamer).source().len() ==> r == Ok::<u8, NLMError>(
            old(streamer).source()[old(streamer).bit_pos() / 8],
        ) && final(result)@ == old(result)@.push(r->Ok_0) && final(streamer).bit_pos() == old(streamer).bit_pos() + 8,
        old(streamer).bit_pos() / 8 >= old(streamer).source().len() ==> r == Err::<u8, NLMError>(
            NLMError::EndOfStream,
        ),
{
    let ghost src = streamer.source();
    let ghost pos = streamer.bit_pos();
    let v = streamer.read_bits(8)?;
    proof {
        lemma_bits_value_byte(src, pos / 8);
    }
    let byte = v as u8;
    result.push(byte);
    Ok(byte)
}

/// Reads `count` bytes at a byte boundary and appends them to `result`.
fn read_raw_bytes(streamer: &mut Streamer, result: &mut Vec<u8>, count: u32) -> (r: Result<
    (),
    NLMError,
>)
    requires
        old(streamer).wf(),
        old(streamer).bit_pos() % 8 == 0,
    ensures
        final(streamer).wf(),
        final(streamer).source() == old(streamer).source(),
        r is Ok ==> final(streamer).follows(*old(streamer)),
        r is Err && r->Err_0 == NLMError::EndOfStream ==> final(streamer).exhausted(),
        old(streamer).bit_pos() / 8 + count <= old(streamer).source().len() ==> r is Ok && final(result)@ == old(result)@ + old(streamer).source().subrange(
            old(streamer).bit_pos() / 8,
            old(streamer).bit_pos() / 8 + count,
        ) && final(streamer).bit_pos() == old(streamer).bit_pos() + 8 * count,
        old(streamer).bit_pos() / 8 + count > old(streamer).source().len() ==> r == Err::<
            (),
            NLMError,
        >(NLMError::EndOfStream),
{
    let ghost src = streamer.source();
    let ghost first = streamer.bit_pos() / 8;
    proof {
        streamer.lemma_bit_pos_in_range();
        assert(old(result)@ + src.subrange(first, first) =~= old(result)@);
    }
    let mut n: u32 = 0;
    while n < count
        invariant
            n <= count,
            streamer.wf(),
            streamer.source() == src,
            src == old(streamer).source(),
            first == old(streamer).bit_pos() / 8,
            0 <= first,
            streamer.bit_pos() == 8 * (first + n),
            first + n <= src.len(),
            result@ == old(result)@ + src.subrange(first, first + n),
            streamer.follows(*old(streamer)),
        decreases count - n,
    {
        let ghost before = *streamer;
        let byte = read_raw_byte(streamer, result)?;
        proof {
            streamer.lemma_follows_chain(before, *old(streamer));
            assert(src.subrange(first, first + n).push(byte) =~= src.subrange(first, first + n + 1));
            assert((old(result)@ + src.subrange(first, first + n)).push(byte) =~= old(result)@
                + src.subrange(first, first + n + 1));
        }
        n += 1;
    }
    Ok(())
}

/// Carries out the literal-run escape.
fn read_literal_run(streamer: &mut Streamer, result: &mut Vec<u8>) -> (r: Result<(), NLMError>)
    requires
        old(streamer).wf(),
    ensures
        final(streamer).wf(),
        final(streamer).source() == old(streamer).source(),
        r is Ok ==> final(streamer).follows(*old(streamer)),
        r is Err && r->Err_0 == NLMError::EndOfStream ==> final(streamer).exhausted(),
        match literal_run(old(streamer).source(), old(streamer).bit_pos(), old(result)@) {
            Some((out, end)) => r is Ok && final(result)@ == out && final(streamer).bit_pos()
                == end,
            None => r == Err::<(), NLMError>(NLMError::EndOfStream),
        },
{
    let ghost src = streamer.source();
    let ghost first = align_to_byte(streamer.bit_pos()) / 8;
    proof {
        streamer.lemma_bit_pos_in_range();
    }
    let ghost before = *streamer;
    streamer.drop_bits();
    let ghost s1 = *streamer;
    read_raw_bytes(streamer, result, 8)?;
    let ghost s2 = *streamer;
    let bl = read_raw_byte(streamer, result)?;
    let ghost s3 = *streamer;
    let bh = read_raw_byte(streamer, result)?;
    let ghost s4 = *streamer;
    let v = read_raw_byte(streamer, result)?;
    let ghost s5 = *streamer;
    proof {
        s2.lemma_follows_chain(s1, before);
        s3.lemma_follows_chain(s2, before);
        s4.lemma_follows_chain(s3, before);
        s5.lemma_follows_chain(s4, before);
    }
    proof {
        assert(((v as u32) << 16) == (v as u32) * 0x1_0000) by (bit_vector);
        assert(((bh as u32) << 8) == (bh as u32) * 0x100) by (bit_vector);
    }
    let n = ((v as u32) << 16) + ((bh as u32) << 8) + (bl as u32) + 1;
    proof {
        assert(n == literal_run_extra(src, first));
        assert(old(result)@ + src.subrange(first, first + 8) + seq![bl] + seq![bh] + seq![v]
            =~= old(result)@ + src.subrange(first, first + 11));
        assert(result@ =~= old(result)@ + src.subrange(first, first + 11));
    }
    read_raw_bytes(streamer, result, n)?;
    proof {
        assert(result@ =~= old(result)@ + src.subrange(first, first + 11 + n));
        streamer.lemma_follows_chain(s5, before);
    }
    Ok(())
}

/// Executes the command at the reader's position on `result`.
fn unpack_command(
    streamer: &mut Streamer,
    result: &mut Vec<u8>,
    tree1: &Box<Node>,
    tree2: &Box<Node>,
    tree3: &Box<Node>,
) -> (r: Result<(), NLMError>)
    requires
        old(streamer).wf(),
    ensures
        final(streamer).wf(),
        final(streamer).source() == old(streamer).source(),
        r is Ok ==> final(streamer).follows(*old(streamer)),
        r is Err && r->Err_0 == NLMError::EndOfStream ==> final(streamer).exhausted(),
        match unpack_step(
            old(streamer).source(),
            old(streamer).bit_pos(),
            old(result)@,
            **tree1,
            **tree2,
            **tree3,
        ) {
            Ok((out, end)) => r is Ok && final(result)@ == out && final(streamer).bit_pos() == end,
            Err(e) => r == Err::<(), NLMError>(e),
        },
{
    let ghost src = streamer.source();
    let ghost pos = streamer.bit_pos();
    let ghost before = *streamer;
    let tag = streamer.read_bit()?;
    let ghost after_tag = *streamer;
    proof {
        lemma_bit_at_is_bit(src, pos);
    }
    if tag != 0 {
        let b1 = decode_from_tree(streamer, tree1)?;
        proof {
            streamer.lemma_follows_chain(after_tag, before);
        }
        result.push(b1);
        return Ok(());
    }
    let b2 = decode_from_tree(streamer, tree2)?;
    let ghost after_kind = *streamer;
    proof {
        after_kind.lemma_follows_chain(after_tag, before);
    }
    if b2 <= 0xfd {
        let done = read_back_reference(streamer, result, b2 as usize, tree3);
        proof {
            if done is Ok {
                streamer.lemma_follows_chain(after_kind, before);
            }
        }
        done
    } else if b2 == 0xff {
        let done = read_literal_run(streamer, result);
        proof {
            if done is Ok {
                streamer.lemma_follows_chain(after_kind, before);
            }
        }
        done
    } else {
        let ghost next = streamer.bit_pos();
        let count = streamer.read_bits(13)?;
        let ghost after_count = *streamer;
        proof {
            lemma_bits_value_bound(src, next, 13);
            lemma2_to64();
            after_count.lemma_follows_chain(after_kind, before);
        }
        let done = read_back_reference(streamer, result, count as usize, tree3);
        proof {
            if done is Ok {
                streamer.lemma_follows_chain(after_count, before);
            }
        }
        done
    }
}

/// Unpacks commands from the reader until at least `decompress_len` bytes
/// are there. The last command may bring more than asked for. Fails when the
/// source ends inside a command or a back-reference reaches outside the
/// output.
pub fn unpack(
    streamer: &mut Streamer,
    decompress_len: usize,
    tree1: &Box<Node>,
    tree2: &Box<Node>,
    tree3: &Box<Node>,
) -> (r: Result<Vec<u8>, NLMError>)
    requires
        old(streamer).wf(),
    ensures
        final(streamer).wf(),
        final(streamer).source() == old(streamer).source(),
        r is Ok ==> final(streamer).follows(*old(streamer)),
        r is Err && r->Err_0 == NLMError::EndOfStream ==> final(streamer).exhausted(),
        match unpack_from(
            old(streamer).source(),
            old(streamer).bit_pos(),
            Seq::empty(),
            decompress_len as nat,
            **tree1,
            **tree2,
            **tree3,
        ) {
            Ok((out, end)) => r is Ok && r->Ok_0@ == out && final(streamer).bit_pos() == end,
            Err(e) => r == Err::<Vec<u8>, NLMError>(e),
        },
{
    let ghost src = streamer.source();
    let ghost start = streamer.bit_pos();
    let mut result: Vec<u8> = Vec::new();
    while result.len() < decompress_len
        invariant
            streamer.wf(),
            streamer.source() == src,
            src == old(streamer).source(),
            start == old(streamer).bit_pos(),
            unpack_from(src, start, Seq::empty(), decompress_len as nat, **tree1, **tree2, **tree3)
                == unpack_from(
                src,
                streamer.bit_pos(),
                result@,
                decompress_len as nat,
                **tree1,
                **tree2,
                **tree3,
            ),
            streamer.follows(*old(streamer)),
        decreases streamer.total_bits() - streamer.bit_pos(),
    {
        proof {
            lemma_unpack_step_advances(src, streamer.bit_pos(), result@, **tree1, **tree2, **tree3);
        }
        let ghost before = *streamer;
        unpack_command(streamer, &mut result, tree1, tree2, tree3)?;
        proof {
            streamer.lemma_follows_chain(before, *old(streamer));
        }
    }
    Ok(result)
}

} // verus!
