//! Fixups: words inside the image that hold addresses inside the module and
//! are rewritten against the addresses the segments are loaded at.
use crate::endian::{
    le_u32_at, lemma_put_le_u32, put_le_u32, read_word, write_u32_le,
};
use crate::error::NLMError;
use crate::nlm::NLM;
use crate::tables::{fixups_at, NLMFixup};
use vstd::prelude::*;

verus! {

/// Virtual address at which the code segment is loaded.
pub const NLM_CODE_VADDR: u32 = 0x1000_0000;

/// Virtual address at which the data segment is loaded.
pub const NLM_DATA_VADDR: u32 = 0x4000_0000;

impl NLMFixup {
    /// Whether the word to rewrite lies in the code segment.
    pub open spec fn in_code(self) -> bool {
        self is AbsRefToDataFromCode || self is AbsRefToCodeFromCode
    }

    /// Offset of the word to rewrite in its segment.
    pub open spec fn local_offset(self) -> u32 {
        match self {
            NLMFixup::AbsRefToDataFromData(offset) => offset,
            NLMFixup::AbsRefToDataFromCode(offset) => offset,
            NLMFixup::AbsRefToCodeFromData(offset) => offset,
            NLMFixup::AbsRefToCodeFromCode(offset) => offset,
        }
    }

    /// The load address of the segment that the word refers to.
    pub open spec fn target_vaddr(self) -> u32 {
        if self is AbsRefToDataFromData || self is AbsRefToDataFromCode {
            NLM_DATA_VADDR
        } else {
            NLM_CODE_VADDR
        }
    }

    /// Offset in the image of the word to rewrite, for segments that start
    /// at `code_offs` and `data_offs`.
    pub open spec fn image_offset(self, code_offs: u32, data_offs: u32) -> int {
        self.local_offset() + if self.in_code() {
            code_offs
        } else {
            data_offs
        }
    }
}

/// `image` after `vaddr` was added, modulo 2^32, to the little-endian word
/// at `offset`.
#[verifier::opaque]
pub open spec fn relocated(image: Seq<u8>, offset: int, vaddr: u32) -> Seq<u8>
    recommends
        0 <= offset,
        offset + 4 <= image.len(),
{
    put_le_u32(image, offset, ((le_u32_at(image, offset) + vaddr) % 0x1_0000_0000) as u32)
}

/// `image` after `fixup` was applied. A fixup whose word does not lie inside
/// the image cannot be applied.
pub open spec fn fixed_up(image: Seq<u8>, fixup: NLMFixup, code_offs: u32, data_offs: u32) -> Result<
    Seq<u8>,
    NLMError,
> {
    let offset = fixup.image_offset(code_offs, data_offs);
    if offset + 4 > image.len() {
        Err(NLMError::FixupOutOfRange)
    } else {
        Ok(relocated(image, offset, fixup.target_vaddr()))
    }
}

/// `image` after the first `count` of `fixups` were applied in order.
pub open spec fn fixed_up_all(
    image: Seq<u8>,
    fixups: Seq<NLMFixup>,
    count: nat,
    code_offs: u32,
    data_offs: u32,
) -> Result<Seq<u8>, NLMError>
    recommends
        count <= fixups.len(),
    decreases count,
{
    if count == 0 {
        Ok(image)
    } else {
        match fixed_up_all(image, fixups, (count - 1) as nat, code_offs, data_offs) {
            Err(e) => Err(e),
            Ok(before) => fixed_up(before, fixups[count - 1], code_offs, data_offs),
        }
    }
}

/// The image of a module with all its fixups applied.
pub open spec fn fixed_up_image(
    image: Seq<u8>,
    fixup_offs: u32,
    fixup_len: u32,
    code_offs: u32,
    data_offs: u32,
) -> Result<Seq<u8>, NLMError> {
    match fixups_at(image, fixup_offs as int, fixup_len as nat) {
        Err(e) => Err(e),
        Ok(fixups) => fixed_up_all(image, fixups, fixups.len(), code_offs, data_offs),
    }
}

/// Applying a fixup changes only the four bytes of its word, and changes the
/// word by the load address of the segment it refers to, modulo 2^32.
pub proof fn lemma_fixup_is_local(image: Seq<u8>, fixup: NLMFixup, code_offs: u32, data_offs: u32)
    requires
        fixed_up(image, fixup, code_offs, data_offs) is Ok,
    ensures
        ({
            let after = fixed_up(image, fixup, code_offs, data_offs)->Ok_0;
            let offset = fixup.image_offset(code_offs, data_offs);
            &&& after.len() == image.len()
            &&& le_u32_at(after, offset) == (le_u32_at(image, offset) + fixup.target_vaddr())
                % 0x1_0000_0000
            &&& forall|i: int|
                0 <= i < image.len() && !(offset <= i < offset + 4) ==> after[i] == image[i]
        }),
{
    reveal(relocated);
    let offset = fixup.image_offset(code_offs, data_offs);
    let word = ((le_u32_at(image, offset) + fixup.target_vaddr()) % 0x1_0000_0000) as u32;
    lemma_put_le_u32(image, offset, word);
}

/// Applying fixups never changes the length of the image.
pub proof fn lemma_fixed_up_all_len(
    image: Seq<u8>,
    fixups: Seq<NLMFixup>,
    count: nat,
    code_offs: u32,
    data_offs: u32,
)
    requires
        count <= fixups.len(),
    ensures
        fixed_up_all(image, fixups, count, code_offs, data_offs) matches Ok(after) ==> after.len()
            == image.len(),
    decreases count,
{
    if count > 0 {
        lemma_fixed_up_all_len(image, fixups, (count - 1) as nat, code_offs, data_offs);
        if let Ok(before) = fixed_up_all(image, fixups, (count - 1) as nat, code_offs, data_offs) {
            if fixed_up(before, fixups[count - 1], code_offs, data_offs) is Ok {
                lemma_fixup_is_local(before, fixups[count - 1], code_offs, data_offs);
            }
        }
    }
}

/// Fixups that cannot be applied up to some point cannot be applied beyond
/// it.
pub proof fn lemma_fixup_error_stays(
    image: Seq<u8>,
    fixups: Seq<NLMFixup>,
    count: nat,
    more: nat,
    code_offs: u32,
    data_offs: u32,
)
    requires
        fixed_up_all(image, fixups, count, code_offs, data_offs) is Err,
        count <= more,
    ensures
        fixed_up_all(image, fixups, more, code_offs, data_offs) == fixed_up_all(
            image,
            fixups,
            count,
            code_offs,
            data_offs,
        ),
    decreases more,
{
    if count < more {
        lemma_fixup_error_stays(image, fixups, count, (more - 1) as nat, code_offs, data_offs);
    }
}

/// Adds `vaddr`, modulo 2^32, to the little-endian word at `offset` of
/// `image`. Nothing else changes.
pub fn relocate_word(image: &mut Vec<u8>, offset: usize, vaddr: u32)
    requires
        offset + 4 <= old(image)@.len(),
    ensures
        final(image)@ == relocated(old(image)@, offset as int, vaddr),
        final(image)@.len() == old(image)@.len(),
        le_u32_at(final(image)@, offset as int) == (le_u32_at(old(image)@, offset as int) + vaddr)
            % 0x1_0000_0000,
        forall|i: int|
            0 <= i < old(image)@.len() && !(offset <= i < offset + 4) ==> final(image)@[i] == old(
                image,
            )@[i],
{
    let value = match read_word(image.as_slice(), offset) {
        Some(value) => value,
        None => 0,
    };
    let value = value.wrapping_add(vaddr);
    proof {
        reveal(relocated);
        lemma_put_le_u32(old(image)@, offset as int, value);
    }
    write_u32_le(image, offset, value);
}

impl NLMFixup {
    /// Applies the fixup to `image`, whose segments start at `code_offs`
    /// and `data_offs`. Fails, and leaves the image as it is, when the
    /// word of the fixup does not lie inside the image.
    pub fn apply(&self, image: &mut Vec<u8>, code_offs: u32, data_offs: u32) -> (r: Result<
        (),
        NLMError,
    >)
        ensures
            match fixed_up(old(image)@, *self, code_offs, data_offs) {
                Ok(after) => r is Ok && final(image)@ == after,
                Err(e) => r is Err && r->Err_0 == e && final(image)@ == old(image)@,
            },
    {
        let (local, segment, vaddr) = match self {
            NLMFixup::AbsRefToDataFromData(data_offset) => (*data_offset, data_offs, NLM_DATA_VADDR),
            NLMFixup::AbsRefToDataFromCode(code_offset) => (*code_offset, code_offs, NLM_DATA_VADDR),
            NLMFixup::AbsRefToCodeFromData(data_offset) => (*data_offset, data_offs, NLM_CODE_VADDR),
            NLMFixup::AbsRefToCodeFromCode(code_offset) => (*code_offset, code_offs, NLM_CODE_VADDR),
        };
        let offset: u64 = local as u64 + segment as u64;
        if offset + 4 > image.len() as u64 {
            return Err(NLMError::FixupOutOfRange);
        }
        relocate_word(image, offset as usize, vaddr);
        Ok(())
    }
}

impl NLM {
    /// A copy of the image with every fixup of the module applied, in table
    /// order: the address of the segment that a word refers to is added to
    /// the word.
    ///
    /// Fails with the error of the fixup table when that cannot be read, and
    /// with `FixupOutOfRange` when a fixup addresses a word outside the
    /// image.
    pub fn apply_fixups(&self) -> (r: Result<Vec<u8>, NLMError>)
        ensures
            match fixed_up_image(
                self.data@,
                self.header.fixup_offs,
                self.header.fixup_len,
                self.header.code_offs,
                self.header.data_offs,
            ) {
                Ok(image) => r is Ok && r->Ok_0@ == image && image.len() == self.data@.len(),
                Err(e) => r is Err && r->Err_0 == e,
            },
    {
        let mut nlm_data = self.data.clone();
        let fixups = self.get_fixups()?;
        let code_offs = self.header.code_offs;
        let data_offs = self.header.data_offs;
        let mut i: usize = 0;
        while i < fixups.len()
            invariant
                i <= fixups.len(),
                fixups_at(self.data@, self.header.fixup_offs as int, self.header.fixup_len as nat)
                    == Ok::<Seq<NLMFixup>, NLMError>(fixups@),
                code_offs == self.header.code_offs,
                data_offs == self.header.data_offs,
                fixed_up_all(self.data@, fixups@, i as nat, code_offs, data_offs) == Ok::<
                    Seq<u8>,
                    NLMError,
                >(nlm_data@),
            decreases fixups.len() - i,
        {
            match fixups[i].apply(&mut nlm_data, code_offs, data_offs) {
                Err(e) => {
                    proof {
                        lemma_fixup_error_stays(
                            self.data@,
                            fixups@,
                            (i + 1) as nat,
                            fixups@.len(),
                            code_offs,
                            data_offs,
                        );
                    }
                    return Err(e);
                },
                Ok(()) => {},
            }
            i += 1;
        }
        proof {
            lemma_fixed_up_all_len(self.data@, fixups@, fixups@.len(), code_offs, data_offs);
        }
        Ok(nlm_data)
    }
}

} // verus!
