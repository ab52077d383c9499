//! The fixed-layout header that every NLM image starts with.
use crate::endian::{le_u32_at, read_word};
use crate::error::NLMError;
use vstd::prelude::*;

verus! {

/// Number of bytes the header occupies at the start of an image.
pub const NLM_HEADER_SIZE: usize = 123;

/// Value of `load_version` that marks a packed image.
pub const NLM_VERSION_PACKED: u32 = 0x84;

/// The signature: the text "NetWare Loadable Module" followed by 0x1a.
pub open spec fn nlm_magic() -> Seq<u8> {
    seq![
        0x4eu8, 0x65, 0x74, 0x57, 0x61, 0x72, 0x65, 0x20,
        0x4c, 0x6f, 0x61, 0x64, 0x61, 0x62, 0x6c, 0x65,
        0x20, 0x4d, 0x6f, 0x64, 0x75, 0x6c, 0x65, 0x1a,
    ]
}

/// The descriptor at offset 0 of an NLM image. All integers are stored
/// little-endian.
///
/// The signature takes bytes 0 to 23, the load version bytes 24 to 27 and
/// the module name bytes 28 to 41. From byte 42 on follow eight pairs of
/// offset and length, for the code, the data, the custom data, the autoload
/// list, the fixups, the externals, the exports and the debug records; then,
/// from byte 106 on, the length of the uninitialised data and the offsets of
/// the start, terminate and check procedures; the module type is byte 122.
#[derive(Debug)]
pub struct NLMHeader {
    pub magic: [u8; 24],
    pub load_version: u32,
    pub name: [u8; 14],
    pub code_offs: u32,
    pub code_len: u32,
    pub data_offs: u32,
    pub data_len: u32,
    pub custom_data_offs: u32,
    pub custom_data_len: u32,
    pub autoload_offs: u32,
    pub autoload_len: u32,
    pub fixup_offs: u32,
    pub fixup_len: u32,
    pub externals_offs: u32,
    pub externals_len: u32,
    pub exported_offs: u32,
    pub exported_len: u32,
    pub debug_offs: u32,
    pub debug_len: u32,
    pub uninit_len: u32,
    pub start_offs: u32,
    pub term_offs: u32,
    pub check_offs: u32,
    pub nlm_type: u8,
}

impl NLMHeader {
    /// Every field is zero.
    pub open spec fn is_zeroed(&self) -> bool {
        &&& self.magic@ == Seq::new(24, |i: int| 0u8)
        &&& self.load_version == 0
        &&& self.name@ == Seq::new(14, |i: int| 0u8)
        &&& self.code_offs == 0
        &&& self.code_len == 0
        &&& self.data_offs == 0
        &&& self.data_len == 0
        &&& self.custom_data_offs == 0
        &&& self.custom_data_len == 0
        &&& self.autoload_offs == 0
        &&& self.autoload_len == 0
        &&& self.fixup_offs == 0
        &&& self.fixup_len == 0
        &&& self.externals_offs == 0
        &&& self.externals_len == 0
        &&& self.exported_offs == 0
        &&& self.exported_len == 0
        &&& self.debug_offs == 0
        &&& self.debug_len == 0
        &&& self.uninit_len == 0
        &&& self.start_offs == 0
        &&& self.term_offs == 0
        &&& self.check_offs == 0
        &&& self.nlm_type == 0
    }

    /// The header holds what the first 123 bytes of `data` encode.
    pub open spec fn decodes(&self, data: Seq<u8>) -> bool
        recommends
            data.len() >= NLM_HEADER_SIZE,
    {
        &&& self.magic@ == data.subrange(0, 24)
        &&& self.load_version == le_u32_at(data, 24)
        &&& self.name@ == data.subrange(28, 42)
        &&& self.code_offs == le_u32_at(data, 42)
        &&& self.code_len == le_u32_at(data, 46)
        &&& self.data_offs == le_u32_at(data, 50)
        &&& self.data_len == le_u32_at(data, 54)
        &&& self.custom_data_offs == le_u32_at(data, 58)
        &&& self.custom_data_len == le_u32_at(data, 62)
        &&& self.autoload_offs == le_u32_at(data, 66)
        &&& self.autoload_len == le_u32_at(data, 70)
        &&& self.fixup_offs == le_u32_at(data, 74)
        &&& self.fixup_len == le_u32_at(data, 78)
        &&& self.externals_offs == le_u32_at(data, 82)
        &&& self.externals_len == le_u32_at(data, 86)
        &&& self.exported_offs == le_u32_at(data, 90)
        &&& self.exported_len == le_u32_at(data, 94)
        &&& self.debug_offs == le_u32_at(data, 98)
        &&& self.debug_len == le_u32_at(data, 102)
        &&& self.uninit_len == le_u32_at(data, 106)
        &&& self.start_offs == le_u32_at(data, 110)
        &&& self.term_offs == le_u32_at(data, 114)
        &&& self.check_offs == le_u32_at(data, 118)
        &&& self.nlm_type == data[122]
    }

    /// The magic field is the NLM signature.
    pub open spec fn magic_valid(&self) -> bool {
        self.magic@ == nlm_magic()
    }

    /// A header with every field zero.
    pub fn new() -> (h: Self)
        ensures
            h.is_zeroed(),
    {
        let h = NLMHeader {
            magic: [0u8; 24],
            load_version: 0,
            name: [0u8; 14],
            code_offs: 0,
            code_len: 0,
            data_offs: 0,
            data_len: 0,
            custom_data_offs: 0,
            custom_data_len: 0,
            autoload_offs: 0,
            autoload_len: 0,
            fixup_offs: 0,
            fixup_len: 0,
            externals_offs: 0,
            externals_len: 0,
            exported_offs: 0,
            exported_len: 0,
            debug_offs: 0,
            debug_len: 0,
            uninit_len: 0,
            start_offs: 0,
            term_offs: 0,
            check_offs: 0,
            nlm_type: 0,
        };
        assert(h.magic@ =~= Seq::new(24, |i: int| 0u8));
        assert(h.name@ =~= Seq::new(14, |i: int| 0u8));
        h
    }

    /// Decodes the header from the start of `data`. Fails exactly when `data`
    /// is shorter than the header.
    pub fn from(data: &[u8]) -> (r: Result<Self, NLMError>)
        ensures
            r is Ok <==> data@.len() >= NLM_HEADER_SIZE,
            r is Err ==> r->Err_0 == NLMError::UnexpectedEof,
            r is Ok ==> r->Ok_0.decodes(data@),
    {
        if data.len() < NLM_HEADER_SIZE {
            return Err(NLMError::UnexpectedEof);
        }
        let mut result = Self::new();
        let mut i: usize = 0;
        while i < 24
            invariant
                i <= 24,
                data@.len() >= NLM_HEADER_SIZE,
                forall|k: int| 0 <= k < i ==> result.magic@[k] == data@[k],
            decreases 24 - i,
        {
            result.magic[i] = data[i];
            i += 1;
        }
        let mut j: usize = 0;
        while j < 14
            invariant
                j <= 14,
                data@.len() >= NLM_HEADER_SIZE,
                forall|k: int| 0 <= k < j ==> result.name@[k] == data@[28 + k],
                result.magic@ =~= data@.subrange(0, 24),
            decreases 14 - j,
        {
            result.name[j] = data[28 + j];
            j += 1;
        }
        assert(result.name@ =~= data@.subrange(28, 42));
        result.load_version = Self::field(data, 24);
        result.code_offs = Self::field(data, 42);
        result.code_len = Self::field(data, 46);
        result.data_offs = Self::field(data, 50);
        result.data_len = Self::field(data, 54);
        result.custom_data_offs = Self::field(data, 58);
        result.custom_data_len = Self::field(data, 62);
        result.autoload_offs = Self::field(data, 66);
        result.autoload_len = Self::field(data, 70);
        result.fixup_offs = Self::field(data, 74);
        result.fixup_len = Self::field(data, 78);
        result.externals_offs = Self::field(data, 82);
        result.externals_len = Self::field(data, 86);
        result.exported_offs = Self::field(data, 90);
        result.exported_len = Self::field(data, 94);
        result.debug_offs = Self::field(data, 98);
        result.debug_len = Self::field(data, 102);
        result.uninit_len = Self::field(data, 106);
        result.start_offs = Self::field(data, 110);
        result.term_offs = Self::field(data, 114);
        result.check_offs = Self::field(data, 118);
        result.nlm_type = data[122];
        Ok(result)
    }

    /// The 32-bit header field stored at `offset`.
    fn field(data: &[u8], offset: usize) -> (v: u32)
        requires
            offset + 4 <= data@.len(),
        ensures
            v == le_u32_at(data@, offset as int),
    {
        match read_word(data, offset) {
            Some(v) => v,
            None => 0,
        }
    }

    /// Whether the magic field holds the NLM signature.
    pub fn is_magic_valid(&self) -> (valid: bool)
        ensures
            valid == self.magic_valid(),
    {
        let magic: [u8; 24] = [
            0x4e, 0x65, 0x74, 0x57, 0x61, 0x72, 0x65, 0x20,
            0x4c, 0x6f, 0x61, 0x64, 0x61, 0x62, 0x6c, 0x65,
            0x20, 0x4d, 0x6f, 0x64, 0x75, 0x6c, 0x65, 0x1a,
        ];
        assert(magic@ =~= nlm_magic());
        let mut i: usize = 0;
        while i < 24
            invariant
                i <= 24,
                magic@ == nlm_magic(),
                forall|k: int| 0 <= k < i ==> self.magic@[k] == magic@[k],
            decreases 24 - i,
        {
            if self.magic[i] != magic[i] {
                assert(self.magic@[i as int] != nlm_magic()[i as int]);
                return false;
            }
            i += 1;
        }
        assert(self.magic@ =~= nlm_magic());
        true
    }
}

/// Changing any single byte of a valid signature makes the header invalid.
pub proof fn lemma_magic_mutation_is_invalid(valid: NLMHeader, mutated: NLMHeader, at: int)
    requires
        valid.magic_valid(),
        0 <= at < 24,
        mutated.magic@[at] != valid.magic@[at],
    ensures
        !mutated.magic_valid(),
{
}

} // verus!
