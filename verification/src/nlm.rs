//! An NLM image held in memory: its header and its bytes, unpacked if the
//! file was packed.
use crate::bits::{lemma_bits_value_bound, lemma_bits_value_byte, lemma_bits_value_word};
use crate::endian::le_u32_at;
use crate::error::NLMError;
use crate::header::{nlm_magic, NLMHeader, NLM_HEADER_SIZE, NLM_VERSION_PACKED};
use crate::huffman::{lemma_parse_tree_advances, parse_tree, read_tree};
use crate::streamer::Streamer;
use crate::tables::{
    autoload_at, exports_at, exports_view, externals_at, externals_view, fixups_at, names_view,
    read_autoload, read_exports, read_externals, read_fixups, NLMExport, NLMExternal, NLMFixup,
};
use crate::unpack::{unpack, unpack_from};
use vstd::arithmetic::power2::lemma2_to64;
use vstd::prelude::*;
use vstd::slice::{slice_subrange, slice_to_vec};

verus! {

/// Offset at which the payload of a packed image starts. The bytes before it
/// are taken over unpacked.
pub const NLM_PACKED_OFFSET: usize = 400;

/// Offset of the header byte that marks an image as packed.
pub const NLM_VERSION_OFFSET: usize = 0x18;

/// Value that the marker byte has in an unpacked image.
pub const NLM_VERSION_UNPACKED: u8 = 0x04;

/// An NLM image: the header as found in the file, and the bytes of the
/// unpacked image.
#[derive(Debug)]
pub struct NLM {
    pub header: NLMHeader,
    pub data: Vec<u8>,
}

/// The payload of a packed file: what follows the first 400 bytes.
pub open spec fn packed_payload(packed: Seq<u8>) -> Seq<u8> {
    if packed.len() >= NLM_PACKED_OFFSET {
        packed.subrange(NLM_PACKED_OFFSET as int, packed.len() as int)
    } else {
        Seq::empty()
    }
}

/// The length of the whole unpacked image that a packed file declares: the
/// little-endian word that follows the two opening bytes of the payload.
pub open spec fn declared_length(packed: Seq<u8>) -> int
    recommends
        packed.len() >= NLM_PACKED_OFFSET + 6,
{
    le_u32_at(packed, NLM_PACKED_OFFSET + 2) as int
}

/// The unpacked image of a packed file.
///
/// The payload opens with the bytes 1 and 10, the declared length and three
/// trees; the commands that follow are executed until the declared length is
/// reached. The image is the first 400 bytes of the file, with the marker
/// byte set to "unpacked", followed by the output of the commands.
pub open spec fn unpacked_image(packed: Seq<u8>) -> Result<Seq<u8>, NLMError> {
    let payload = packed_payload(packed);
    if payload.len() < 2 {
        Err(NLMError::EndOfStream)
    } else if payload[0] != 1 || payload[1] != 10 {
        Err(NLMError::InvalidCompression(payload[0], payload[1]))
    } else if payload.len() < 6 {
        Err(NLMError::EndOfStream)
    } else {
        match parse_tree(payload, 48) {
            None => Err(NLMError::EndOfStream),
            Some((tree1, after1)) => match parse_tree(payload, after1) {
                None => Err(NLMError::EndOfStream),
                Some((tree2, after2)) => match parse_tree(payload, after2) {
                    None => Err(NLMError::EndOfStream),
                    Some((tree3, after3)) => {
                        let length = declared_length(packed);
                        if length < NLM_PACKED_OFFSET {
                            Err(NLMError::InvalidLength)
                        } else {
                            match unpack_from(
                                payload,
                                after3,
                                Seq::empty(),
                                (length - NLM_PACKED_OFFSET) as nat,
                                tree1,
                                tree2,
                                tree3,
                            ) {
                                Err(e) => Err(e),
                                Ok((out, end)) => {
                                    if out.len() != length - NLM_PACKED_OFFSET {
                                        Err(NLMError::InvalidLength)
                                    } else {
                                        Ok(
                                            packed.subrange(0, NLM_PACKED_OFFSET as int).update(
                                                NLM_VERSION_OFFSET as int,
                                                NLM_VERSION_UNPACKED,
                                            ) + out,
                                        )
                                    }
                                },
                            }
                        }
                    },
                },
            },
        }
    }
}

/// The image that a file holds: the file itself, or its unpacked image when
/// the header marks it as packed. A file shorter than the header or without
/// the signature holds none.
pub open spec fn image_of(file: Seq<u8>) -> Result<Seq<u8>, NLMError> {
    if file.len() < NLM_HEADER_SIZE {
        Err(NLMError::UnexpectedEof)
    } else if file.subrange(0, 24) != nlm_magic() {
        Err(NLMError::InvalidMagic)
    } else if le_u32_at(file, NLM_VERSION_OFFSET as int) != NLM_VERSION_PACKED {
        Ok(file)
    } else {
        unpacked_image(file)
    }
}

/// An unpacked image has the length that the packed file declares, and its
/// first 400 bytes are those of the packed file, except for the marker byte,
/// which says "unpacked".
pub proof fn lemma_unpacked_image_shape(packed: Seq<u8>)
    requires
        unpacked_image(packed) is Ok,
    ensures
        packed.len() >= NLM_PACKED_OFFSET + 6,
        unpacked_image(packed)->Ok_0.len() == declared_length(packed),
        unpacked_image(packed)->Ok_0[NLM_VERSION_OFFSET as int] == NLM_VERSION_UNPACKED,
        forall|i: int|
            0 <= i < NLM_PACKED_OFFSET && i != NLM_VERSION_OFFSET ==> unpacked_image(
                packed,
            )->Ok_0[i] == packed[i],
{
}

impl NLM {
    /// Reads the image that `data` holds, unpacking it if the header marks it
    /// as packed.
    ///
    /// Fails with `UnexpectedEof` when `data` is shorter than the header,
    /// with `InvalidMagic` when the signature is wrong, and with the error of
    /// [`unpacked_image`] when a packed payload cannot be unpacked.
    pub fn new(data: &[u8]) -> (r: Result<Self, NLMError>)
        ensures
            match image_of(data@) {
                Ok(image) => r is Ok && r->Ok_0.data@ == image && r->Ok_0.header.decodes(data@),
                Err(e) => r is Err && r->Err_0 == e,
            },
            r is Ok && r->Ok_0.header.load_version == NLM_VERSION_PACKED ==> {
                &&& r->Ok_0.data@.len() == declared_length(data@)
                &&& r->Ok_0.data@[NLM_VERSION_OFFSET as int] == NLM_VERSION_UNPACKED
                &&& forall|i: int|
                    0 <= i < NLM_PACKED_OFFSET && i != NLM_VERSION_OFFSET ==> r->Ok_0.data@[i]
                        == data@[i]
            },
    {
        let header = NLMHeader::from(data)?;
        if !header.is_magic_valid() {
            return Err(NLMError::InvalidMagic);
        }
        if header.load_version != NLM_VERSION_PACKED {
            // Not packed; all done
            return Ok(NLM { header, data: slice_to_vec(data) });
        }
        let unpacked = Self::unpack_image(data)?;
        proof {
            lemma_unpacked_image_shape(data@);
        }
        Ok(NLM { header, data: unpacked })
    }

    /// Unpacks the payload of a packed file and pieces the image together.
    fn unpack_image(data: &[u8]) -> (r: Result<Vec<u8>, NLMError>)
        ensures
            match unpacked_image(data@) {
                Ok(image) => r is Ok && r->Ok_0@ == image,
                Err(e) => r is Err && r->Err_0 == e,
            },
    {
        // Skip until the packed payload
        let payload = if data.len() >= NLM_PACKED_OFFSET {
            slice_subrange(data, NLM_PACKED_OFFSET, data.len())
        } else {
            slice_subrange(data, 0, 0)
        };
        let ghost src = payload@;
        assert(src =~= packed_payload(data@));
        let mut streamer = Streamer::new(payload);
        proof {
            lemma2_to64();
            lemma_bits_value_bound(src, 0, 8);
            lemma_bits_value_bound(src, 8, 8);
            lemma_bits_value_bound(src, 16, 32);
            if src.len() >= 1 {
                lemma_bits_value_byte(src, 0);
            }
            if src.len() >= 2 {
                lemma_bits_value_byte(src, 1);
            }
            if src.len() >= 6 {
                lemma_bits_value_word(src, 2);
                assert(src.subrange(2, 6) =~= data@.subrange(
                    NLM_PACKED_OFFSET + 2,
                    NLM_PACKED_OFFSET + 6,
                ));
            }
        }
        let a = streamer.read_bits(8)? as u8;
        let b = streamer.read_bits(8)? as u8;
        if a != 1 || b != 10 {
            return Err(NLMError::InvalidCompression(a, b));
        }
        let length = streamer.read_bits(32)? as usize;

        let ghost at1 = streamer.bit_pos();
        let tree1 = read_tree(&mut streamer)?;
        let ghost at2 = streamer.bit_pos();
        let tree2 = read_tree(&mut streamer)?;
        let ghost at3 = streamer.bit_pos();
        let tree3 = read_tree(&mut streamer)?;
        proof {
            lemma_parse_tree_advances(src, at1);
            lemma_parse_tree_advances(src, at2);
            lemma_parse_tree_advances(src, at3);
        }
        if length < NLM_PACKED_OFFSET {
            return Err(NLMError::InvalidLength);
        }
        let unpacked = unpack(&mut streamer, length - NLM_PACKED_OFFSET, &tree1, &tree2, &tree3)?;
        if unpacked.len() != length - NLM_PACKED_OFFSET {
            return Err(NLMError::InvalidLength);
        }
        // Piece together the NLM header and unpacked payload

        let mut image = slice_to_vec(slice_subrange(data, 0, NLM_PACKED_OFFSET));
        image.set(NLM_VERSION_OFFSET, NLM_VERSION_UNPACKED);  // remove compression flag
        let mut unpacked = unpacked;
        image.append(&mut unpacked);
        Ok(image)
    }

    /// The external symbols of the module, in table order.
    pub fn get_externals(&self) -> (r: Result<Vec<NLMExternal>, NLMError>)
        ensures
            match externals_at(
                self.data@,
                self.header.externals_offs as int,
                self.header.externals_len as nat,
            ) {
                Ok((externals, end)) => r is Ok && externals_view(r->Ok_0@) == externals
                    && externals.len() == self.header.externals_len,
                Err(e) => r is Err && r->Err_0 == e,
            },
    {
        read_externals(self.data.as_slice(), self.header.externals_offs, self.header.externals_len)
    }

    /// The exported symbols of the module, in table order.
    pub fn get_exports(&self) -> (r: Result<Vec<NLMExport>, NLMError>)
        ensures
            match exports_at(
                self.data@,
                self.header.exported_offs as int,
                self.header.exported_len as nat,
            ) {
                Ok((exports, end)) => r is Ok && exports_view(r->Ok_0@) == exports
                    && exports.len() == self.header.exported_len,
                Err(e) => r is Err && r->Err_0 == e,
            },
    {
        read_exports(self.data.as_slice(), self.header.exported_offs, self.header.exported_len)
    }

    /// The fixups of the module, in table order.
    pub fn get_fixups(&self) -> (r: Result<Vec<NLMFixup>, NLMError>)
        ensures
            match fixups_at(self.data@, self.header.fixup_offs as int, self.header.fixup_len as nat) {
                Ok(fixups) => r is Ok && r->Ok_0@ == fixups,
                Err(e) => r is Err && r->Err_0 == e,
            },
    {
        read_fixups(self.data.as_slice(), self.header.fixup_offs, self.header.fixup_len)
    }

    /// The names of the modules to load along with this one, in list order.
    pub fn get_autoload(&self) -> (r: Result<Vec<String>, NLMError>)
        ensures
            match autoload_at(
                self.data@,
                self.header.autoload_offs as int,
                self.header.autoload_len as nat,
            ) {
                Ok((names, end)) => r is Ok && names_view(r->Ok_0@) == names && names.len()
                    == self.header.autoload_len,
                Err(e) => r is Err && r->Err_0 == e,
            },
    {
        read_autoload(self.data.as_slice(), self.header.autoload_offs, self.header.autoload_len)
    }
}

} // verus!
