//! Little-endian 32-bit words, as stored throughout an NLM image.
use byteorder::{ByteOrder, LittleEndian};
use vstd::prelude::*;

verus! {

/// The value of the little-endian 32-bit word that `b` starts with.
pub open spec fn le_u32(b: Seq<u8>) -> u32
    recommends
        b.len() >= 4,
{
    (b[0] as int + 0x100 * (b[1] as int) + 0x1_0000 * (b[2] as int) + 0x100_0000 * (b[3] as int)) as u32
}

/// The four bytes that store `v` in little-endian order.
pub open spec fn u32_le_bytes(v: u32) -> Seq<u8> {
    seq![
        (v % 0x100) as u8,
        ((v / 0x100) % 0x100) as u8,
        ((v / 0x1_0000) % 0x100) as u8,
        (v / 0x100_0000) as u8,
    ]
}

/// The little-endian word stored at `offset` in `data`.
pub open spec fn le_u32_at(data: Seq<u8>, offset: int) -> u32
    recommends
        0 <= offset,
        offset + 4 <= data.len(),
{
    le_u32(data.subrange(offset, offset + 4))
}

/// `data` with the four bytes at `offset` replaced by the little-endian
/// encoding of `v`.
pub open spec fn put_le_u32(data: Seq<u8>, offset: int, v: u32) -> Seq<u8>
    recommends
        0 <= offset,
        offset + 4 <= data.len(),
{
    data.subrange(0, offset) + u32_le_bytes(v) + data.subrange(offset + 4, data.len() as int)
}

/// Reading back a stored word gives the word.
pub proof fn lemma_le_u32_of_bytes(v: u32)
    ensures
        u32_le_bytes(v).len() == 4,
        le_u32(u32_le_bytes(v)) == v,
{
}

/// Storing a word changes the four addressed bytes and nothing else.
pub proof fn lemma_put_le_u32(data: Seq<u8>, offset: int, v: u32)
    requires
        0 <= offset,
        offset + 4 <= data.len(),
    ensures
        put_le_u32(data, offset, v).len() == data.len(),
        le_u32_at(put_le_u32(data, offset, v), offset) == v,
        forall|i: int|
            0 <= i < data.len() && !(offset <= i < offset + 4) ==> put_le_u32(data, offset, v)[i]
                == data[i],
{
    lemma_le_u32_of_bytes(v);
    assert(put_le_u32(data, offset, v).subrange(offset, offset + 4) =~= u32_le_bytes(v));
}

/// A slice is no longer than the machine can address.
pub proof fn lemma_len_fits(data: &[u8])
    ensures
        data@.len() <= usize::MAX,
{
    assert(data.len() == data@.len());
}

/// `byteorder::LittleEndian::read_u32`: decodes the first four bytes of `buf`
/// as a little-endian word. The outside function panics on a shorter slice.
#[verifier::external_body]
pub(crate) fn read_u32_le(buf: &[u8]) -> (v: u32)
    requires
        buf@.len() >= 4,
    ensures
        v == le_u32(buf@),
{
    LittleEndian::read_u32(buf)
}

/// `byteorder::LittleEndian::write_u32`: stores `n` in little-endian order in
/// the four bytes of `buf` that start at `offset`; the other bytes stay.
#[verifier::external_body]
pub(crate) fn write_u32_le(buf: &mut Vec<u8>, offset: usize, n: u32)
    requires
        offset + 4 <= old(buf)@.len(),
    ensures
        final(buf)@ == put_le_u32(old(buf)@, offset as int, n),
{
    LittleEndian::write_u32(&mut buf[offset..], n)
}

/// The little-endian word at `offset` of `data`, if the image holds all four
/// of its bytes.
pub fn read_word(data: &[u8], offset: usize) -> (r: Option<u32>)
    ensures
        r is Some <==> offset + 4 <= data@.len(),
        r is Some ==> r->0 == le_u32_at(data@, offset as int),
{
    if data.len() < 4 || offset > data.len() - 4 {
        return None;
    }
    let word = read_u32_le(vstd::slice::slice_subrange(data, offset, offset + 4));
    Some(word)
}

} // verus!
