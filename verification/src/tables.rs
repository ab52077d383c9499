//! The tables of an NLM image: fixups, external references, exports and the
//! autoload list, with the record formats they are stored in.
//!
//! Fixups, external references and exports are stored as 32-bit words whose
//! top four bits give the kind and whose low 26 bits give the value. Names
//! are stored as a length byte followed by that many bytes.
use crate::endian::{le_u32_at, lemma_len_fits, read_word};
use crate::error::NLMError;
use vstd::prelude::*;
use vstd::slice::{slice_subrange, slice_to_vec};
use vstd::utf8::{decode_utf8, valid_utf8};

verus! {

/// An internal relocation: a word of the module that holds an address inside
/// the module. The value is the offset of the word in its segment.
#[derive(Debug, Clone, Copy, PartialEq, Eq, Structural)]
pub enum NLMFixup {
    AbsRefToDataFromData(u32),
    AbsRefToDataFromCode(u32),
    AbsRefToCodeFromData(u32),
    AbsRefToCodeFromCode(u32),
}

/// One place that refers to an external symbol. The value is the offset of
/// the place in its segment.
#[derive(Debug, Clone, Copy, PartialEq, Eq, Structural)]
pub enum NLMExternalRef {
    RelRefFromData(u32),
    RelRefFromCode(u32),
    AbsRefFromData(u32),
    AbsRefFromCode(u32),
}

/// A symbol that the module expects another module to define, with the
/// places that refer to it.
#[derive(Debug)]
pub struct NLMExternal {
    pub name: String,
    pub refs: Vec<NLMExternalRef>,
}

/// A symbol that the module defines: its name and its offset in the code or
/// the data segment.
#[derive(Debug)]
pub enum NLMExport {
    Code(String, u32),
    Data(String, u32),
}

/// What an [`NLMExternal`] stands for.
pub struct ExternalSpec {
    pub name: Seq<char>,
    pub refs: Seq<NLMExternalRef>,
}

/// What an [`NLMExport`] stands for.
pub enum ExportSpec {
    Code(Seq<char>, u32),
    Data(Seq<char>, u32),
}

impl View for NLMExternal {
    type V = ExternalSpec;

    open spec fn view(&self) -> ExternalSpec {
        ExternalSpec { name: self.name@, refs: self.refs@ }
    }
}

impl View for NLMExport {
    type V = ExportSpec;

    open spec fn view(&self) -> ExportSpec {
        match self {
            NLMExport::Code(name, value) => ExportSpec::Code(name@, *value),
            NLMExport::Data(name, value) => ExportSpec::Data(name@, *value),
        }
    }
}

/// What a list of externals stands for.
pub open spec fn externals_view(list: Seq<NLMExternal>) -> Seq<ExternalSpec> {
    list.map_values(|e: NLMExternal| e@)
}

/// What a list of exports stands for.
pub open spec fn exports_view(list: Seq<NLMExport>) -> Seq<ExportSpec> {
    list.map_values(|e: NLMExport| e@)
}

/// What a list of names stands for.
pub open spec fn names_view(list: Seq<String>) -> Seq<Seq<char>> {
    list.map_values(|s: String| s@)
}

/// The kind of a table word: its top four bits.
pub open spec fn word_kind(word: u32) -> u32 {
    word >> 28
}

/// The value of a table word: its low 26 bits.
pub open spec fn word_value(word: u32) -> u32 {
    word & 0x3ff_ffff
}

/// The fixup that a table word encodes.
pub open spec fn fixup_of_word(word: u32) -> Result<NLMFixup, NLMError> {
    let kind = word_kind(word);
    let value = word_value(word);
    if kind == 0x0 {
        Ok(NLMFixup::AbsRefToDataFromData(value))
    } else if kind == 0x4 {
        Ok(NLMFixup::AbsRefToDataFromCode(value))
    } else if kind == 0x8 {
        Ok(NLMFixup::AbsRefToCodeFromData(value))
    } else if kind == 0xc {
        Ok(NLMFixup::AbsRefToCodeFromCode(value))
    } else {
        Err(NLMError::UnsupportedFixupType(kind))
    }
}

/// The external reference that a table word encodes.
pub open spec fn external_ref_of_word(word: u32) -> Result<NLMExternalRef, NLMError> {
    let kind = word_kind(word);
    let value = word_value(word);
    if kind == 0x0 {
        Ok(NLMExternalRef::RelRefFromData(value))
    } else if kind == 0x4 {
        Ok(NLMExternalRef::RelRefFromCode(value))
    } else if kind == 0x8 {
        Ok(NLMExternalRef::AbsRefFromData(value))
    } else if kind == 0xc {
        Ok(NLMExternalRef::AbsRefFromCode(value))
    } else {
        Err(NLMError::UnrecognizedRefType(kind))
    }
}

/// The export that a name and a table word encode.
pub open spec fn export_of_word(name: Seq<char>, word: u32) -> Result<ExportSpec, NLMError> {
    let kind = word_kind(word);
    let value = word_value(word);
    if kind == 0x0 {
        Ok(ExportSpec::Data(name, value))
    } else if kind == 0x8 {
        Ok(ExportSpec::Code(name, value))
    } else {
        Err(NLMError::UnrecognizedExportType(kind))
    }
}

/// The bytes of the length-prefixed name stored at `pos`, and the position
/// after it. `None` when the image ends inside the name.
pub open spec fn name_at(data: Seq<u8>, pos: int) -> Option<(Seq<u8>, int)> {
    if pos < 0 || pos >= data.len() {
        None
    } else {
        let end = pos + 1 + data[pos] as int;
        if end > data.len() {
            None
        } else {
            Some((data.subrange(pos + 1, end), end))
        }
    }
}

/// The text of a stored name: its characters when the bytes are valid UTF-8
/// (which covers US-ASCII), and a single question mark otherwise.
pub open spec fn name_text(bytes: Seq<u8>) -> Seq<char> {
    if valid_utf8(bytes) {
        decode_utf8(bytes)
    } else {
        seq!['?']
    }
}

/// The first `count` fixups of the table stored at `offs`.
pub open spec fn fixups_at(data: Seq<u8>, offs: int, count: nat) -> Result<Seq<NLMFixup>, NLMError>
    decreases count,
{
    if count == 0 {
        Ok(Seq::empty())
    } else {
        match fixups_at(data, offs, (count - 1) as nat) {
            Err(e) => Err(e),
            Ok(before) => {
                let pos = offs + 4 * (count - 1);
                if pos + 4 > data.len() {
                    Err(NLMError::UnexpectedEof)
                } else {
                    match fixup_of_word(le_u32_at(data, pos)) {
                        Err(e) => Err(e),
                        Ok(fixup) => Ok(before.push(fixup)),
                    }
                }
            },
        }
    }
}

/// The first `count` reference words of the list stored at `offs`.
pub open spec fn external_refs_at(data: Seq<u8>, offs: int, count: nat) -> Result<
    Seq<NLMExternalRef>,
    NLMError,
>
    decreases count,
{
    if count == 0 {
        Ok(Seq::empty())
    } else {
        match external_refs_at(data, offs, (count - 1) as nat) {
            Err(e) => Err(e),
            Ok(before) => {
                let pos = offs + 4 * (count - 1);
                if pos + 4 > data.len() {
                    Err(NLMError::UnexpectedEof)
                } else {
                    match external_ref_of_word(le_u32_at(data, pos)) {
                        Err(e) => Err(e),
                        Ok(found) => Ok(before.push(found)),
                    }
                }
            },
        }
    }
}

/// The external stored at `pos`, and the position after it: a name, the
/// number of references, and that many reference words.
pub open spec fn external_at(data: Seq<u8>, pos: int) -> Result<(ExternalSpec, int), NLMError> {
    match name_at(data, pos) {
        None => Err(NLMError::UnexpectedEof),
        Some((name, after_name)) => {
            if after_name + 4 > data.len() {
                Err(NLMError::UnexpectedEof)
            } else {
                let count = le_u32_at(data, after_name);
                match external_refs_at(data, after_name + 4, count as nat) {
                    Err(e) => Err(e),
                    Ok(refs) => Ok(
                        (
                            ExternalSpec { name: name_text(name), refs },
                            after_name + 4 + 4 * count,
                        ),
                    ),
                }
            }
        },
    }
}

/// The first `count` externals of the table stored at `offs`, and the
/// position after them.
pub open spec fn externals_at(data: Seq<u8>, offs: int, count: nat) -> Result<
    (Seq<ExternalSpec>, int),
    NLMError,
>
    decreases count,
{
    if count == 0 {
        Ok((Seq::empty(), offs))
    } else {
        match externals_at(data, offs, (count - 1) as nat) {
            Err(e) => Err(e),
            Ok((before, pos)) => match external_at(data, pos) {
                Err(e) => Err(e),
                Ok((found, next)) => Ok((before.push(found), next)),
            },
        }
    }
}

/// The export stored at `pos`, and the position after it: a name and a
/// table word.
pub open spec fn export_at(data: Seq<u8>, pos: int) -> Result<(ExportSpec, int), NLMError> {
    match name_at(data, pos) {
        None => Err(NLMError::UnexpectedEof),
        Some((name, after_name)) => {
            if after_name + 4 > data.len() {
                Err(NLMError::UnexpectedEof)
            } else {
                match export_of_word(name_text(name), le_u32_at(data, after_name)) {
                    Err(e) => Err(e),
                    Ok(found) => Ok((found, after_name + 4)),
                }
            }
        },
    }
}

/// The first `count` exports of the table stored at `offs`, and the position
/// after them.
pub open spec fn exports_at(data: Seq<u8>, offs: int, count: nat) -> Result<
    (Seq<ExportSpec>, int),
    NLMError,
>
    decreases count,
{
    if count == 0 {
        Ok((Seq::empty(), offs))
    } else {
        match exports_at(data, offs, (count - 1) as nat) {
            Err(e) => Err(e),
            Ok((before, pos)) => match export_at(data, pos) {
                Err(e) => Err(e),
                Ok((found, next)) => Ok((before.push(found), next)),
            },
        }
    }
}

/// The first `count` names of the autoload list stored at `offs`, and the
/// position after them.
pub open spec fn autoload_at(data: Seq<u8>, offs: int, count: nat) -> Result<
    (Seq<Seq<char>>, int),
    NLMError,
>
    decreases count,
{
    if count == 0 {
        Ok((Seq::empty(), offs))
    } else {
        match autoload_at(data, offs, (count - 1) as nat) {
            Err(e) => Err(e),
            Ok((before, pos)) => match name_at(data, pos) {
                None => Err(NLMError::UnexpectedEof),
                Some((name, next)) => Ok((before.push(name_text(name)), next)),
            },
        }
    }
}

/// A table that cannot be read up to some record cannot be read beyond it.
pub proof fn lemma_fixups_error_stays(data: Seq<u8>, offs: int, count: nat, more: nat)
    requires
        fixups_at(data, offs, count) is Err,
        count <= more,
    ensures
        fixups_at(data, offs, more) == fixups_at(data, offs, count),
    decreases more,
{
    if count < more {
        lemma_fixups_error_stays(data, offs, count, (more - 1) as nat);
    }
}

/// A reference list that cannot be read up to some word cannot be read
/// beyond it.
pub proof fn lemma_external_refs_error_stays(data: Seq<u8>, offs: int, count: nat, more: nat)
    requires
        external_refs_at(data, offs, count) is Err,
        count <= more,
    ensures
        external_refs_at(data, offs, more) == external_refs_at(data, offs, count),
    decreases more,
{
    if count < more {
        lemma_external_refs_error_stays(data, offs, count, (more - 1) as nat);
    }
}

/// An externals table that cannot be read up to some record cannot be read
/// beyond it.
pub proof fn lemma_externals_error_stays(data: Seq<u8>, offs: int, count: nat, more: nat)
    requires
        externals_at(data, offs, count) is Err,
        count <= more,
    ensures
        externals_at(data, offs, more) == externals_at(data, offs, count),
    decreases more,
{
    if count < more {
        lemma_externals_error_stays(data, offs, count, (more - 1) as nat);
    }
}

/// An exports table that cannot be read up to some record cannot be read
/// beyond it.
pub proof fn lemma_exports_error_stays(data: Seq<u8>, offs: int, count: nat, more: nat)
    requires
        exports_at(data, offs, count) is Err,
        count <= more,
    ensures
        exports_at(data, offs, more) == exports_at(data, offs, count),
    decreases more,
{
    if count < more {
        lemma_exports_error_stays(data, offs, count, (more - 1) as nat);
    }
}

/// An autoload list that cannot be read up to some name cannot be read
/// beyond it.
pub proof fn lemma_autoload_error_stays(data: Seq<u8>, offs: int, count: nat, more: nat)
    requires
        autoload_at(data, offs, count) is Err,
        count <= more,
    ensures
        autoload_at(data, offs, more) == autoload_at(data, offs, count),
    decreases more,
{
    if count < more {
        lemma_autoload_error_stays(data, offs, count, (more - 1) as nat);
    }
}

/// `String::from_utf8` of std: the text that `bytes` encode, or `None` when
/// they are not valid UTF-8.
#[verifier::external_body]
fn string_from_utf8(bytes: Vec<u8>) -> (r: Option<String>)
    ensures
        r is Some <==> valid_utf8(bytes@),
        r is Some ==> r->0@ == decode_utf8(bytes@),
{
    String::from_utf8(bytes).ok()
}

/// The kind of a table word.
fn kind_of(word: u32) -> (kind: u32)
    ensures
        kind == word_kind(word),
{
    word >> 28
}

/// The value of a table word.
fn value_of(word: u32) -> (value: u32)
    ensures
        value == word_value(word),
{
    word & 0x3ff_ffff
}

impl NLMFixup {
    /// Decodes a word of the fixup table. Fails on an unknown kind, with the
    /// kind in the error.
    pub fn from_word(word: u32) -> (r: Result<NLMFixup, NLMError>)
        ensures
            r == fixup_of_word(word),
    {
        let kind = kind_of(word);
        let value = value_of(word);
        if kind == 0x0 {
            Ok(NLMFixup::AbsRefToDataFromData(value))
        } else if kind == 0x4 {
            Ok(NLMFixup::AbsRefToDataFromCode(value))
        } else if kind == 0x8 {
            Ok(NLMFixup::AbsRefToCodeFromData(value))
        } else if kind == 0xc {
            Ok(NLMFixup::AbsRefToCodeFromCode(value))
        } else {
            Err(NLMError::UnsupportedFixupType(kind))
        }
    }
}

impl NLMExternalRef {
    /// Decodes a reference word of the externals table. Fails on an unknown
    /// kind, with the kind in the error.
    pub fn from_word(word: u32) -> (r: Result<NLMExternalRef, NLMError>)
        ensures
            r == external_ref_of_word(word),
    {
        let kind = kind_of(word);
        let value = value_of(word);
        if kind == 0x0 {
            Ok(NLMExternalRef::RelRefFromData(value))
        } else if kind == 0x4 {
            Ok(NLMExternalRef::RelRefFromCode(value))
        } else if kind == 0x8 {
            Ok(NLMExternalRef::AbsRefFromData(value))
        } else if kind == 0xc {
            Ok(NLMExternalRef::AbsRefFromCode(value))
        } else {
            Err(NLMError::UnrecognizedRefType(kind))
        }
    }
}

impl NLMExport {
    /// Builds an export from its name and its word of the exports table.
    /// Fails on an unknown kind, with the kind in the error.
    pub fn from_word(name: String, word: u32) -> (r: Result<NLMExport, NLMError>)
        ensures
            match export_of_word(name@, word) {
                Ok(found) => r is Ok && r->Ok_0@ == found,
                Err(e) => r is Err && r->Err_0 == e,
            },
    {
        let kind = kind_of(word);
        let value = value_of(word);
        if kind == 0x0 {
            Ok(NLMExport::Data(name, value))
        } else if kind == 0x8 {
            Ok(NLMExport::Code(name, value))
        } else {
            Err(NLMError::UnrecognizedExportType(kind))
        }
    }
}

/// Reads the length-prefixed name stored at `pos`. `None` when the image
/// ends inside the name.
pub fn read_name(data: &[u8], pos: usize) -> (r: Option<(String, usize)>)
    ensures
        match name_at(data@, pos as int) {
            None => r is None,
            Some((bytes, next)) => r matches Some(found) && found.0@ == name_text(bytes)
                && found.1 == next,
        },
{
    if pos >= data.len() {
        return None;
    }
    let n = data[pos] as usize;
    if n > data.len() - pos - 1 {
        return None;
    }
    let bytes = slice_to_vec(slice_subrange(data, pos + 1, pos + 1 + n));
    let name = match string_from_utf8(bytes) {
        Some(text) => text,
        None => {
            proof {
                reveal_strlit("?");
                assert("?"@ =~= seq!['?']);
            }
            "?".to_owned()
        },
    };
    Some((name, pos + 1 + n))
}

/// Reads `count` fixups from the table stored at `offs`.
pub fn read_fixups(data: &[u8], offs: u32, count: u32) -> (r: Result<Vec<NLMFixup>, NLMError>)
    ensures
        match fixups_at(data@, offs as int, count as nat) {
            Ok(fixups) => r is Ok && r->Ok_0@ == fixups,
            Err(e) => r is Err && r->Err_0 == e,
        },
{
    let mut fixups: Vec<NLMFixup> = Vec::new();
    let mut i: u32 = 0;
    while i < count
        invariant
            i <= count,
            fixups_at(data@, offs as int, i as nat) == Ok::<Seq<NLMFixup>, NLMError>(fixups@),
        decreases count - i,
    {
        let pos: u64 = offs as u64 + 4 * (i as u64);
        proof {
            lemma_len_fits(data);
        }
        let word = if pos > usize::MAX as u64 {
            None
        } else {
            read_word(data, pos as usize)
        };
        let fixup = match word {
            None => Err(NLMError::UnexpectedEof),
            Some(word) => NLMFixup::from_word(word),
        };
        assert(fixups_at(data@, offs as int, (i + 1) as nat) == match fixup {
            Err(e) => Err::<Seq<NLMFixup>, NLMError>(e),
            Ok(fixup) => Ok(fixups@.push(fixup)),
        });
        match fixup {
            Err(e) => {
                proof {
                    lemma_fixups_error_stays(data@, offs as int, (i + 1) as nat, count as nat);
                }
                return Err(e);
            },
            Ok(fixup) => {
                fixups.push(fixup);
            },
        }
        i += 1;
    }
    Ok(fixups)
}

/// Reads `count` reference words from the list stored at `offs`.
fn read_external_refs(data: &[u8], offs: usize, count: u32) -> (r: Result<
    Vec<NLMExternalRef>,
    NLMError,
>)
    requires
        offs <= data@.len(),
    ensures
        match external_refs_at(data@, offs as int, count as nat) {
            Ok(refs) => r is Ok && r->Ok_0@ == refs && offs + 4 * count <= data@.len(),
            Err(e) => r is Err && r->Err_0 == e,
        },
{
    let mut refs: Vec<NLMExternalRef> = Vec::new();
    let mut i: u32 = 0;
    let mut pos: usize = offs;
    while i < count
        invariant
            i <= count,
            pos == offs + 4 * i,
            pos <= data@.len(),
            external_refs_at(data@, offs as int, i as nat) == Ok::<Seq<NLMExternalRef>, NLMError>(
                refs@,
            ),
        decreases count - i,
    {
        proof {
            lemma_len_fits(data);
        }
        let word = match read_word(data, pos) {
            None => {
                proof {
                    lemma_external_refs_error_stays(
                        data@,
                        offs as int,
                        (i + 1) as nat,
                        count as nat,
                    );
                }
                return Err(NLMError::UnexpectedEof);
            },
            Some(word) => word,
        };
        match NLMExternalRef::from_word(word) {
            Err(e) => {
                proof {
                    lemma_external_refs_error_stays(
                        data@,
                        offs as int,
                        (i + 1) as nat,
                        count as nat,
                    );
                }
                return Err(e);
            },
            Ok(found) => {
                refs.push(found);
            },
        }
        pos += 4;
        i += 1;
    }
    Ok(refs)
}

/// Reads the external stored at `pos`.
fn read_external(data: &[u8], pos: usize) -> (r: Result<(NLMExternal, usize), NLMError>)
    ensures
        match external_at(data@, pos as int) {
            Ok((found, next)) => r matches Ok(read) && read.0@ == found && read.1 == next
                && next <= data@.len(),
            Err(e) => r is Err && r->Err_0 == e,
        },
{
    let (name, after_name) = match read_name(data, pos) {
        None => {
            return Err(NLMError::UnexpectedEof);
        },
        Some(found) => found,
    };
    let count = match read_word(data, after_name) {
        None => {
            return Err(NLMError::UnexpectedEof);
        },
        Some(count) => count,
    };
    proof {
        lemma_len_fits(data);
    }
    let refs = read_external_refs(data, after_name + 4, count)?;
    Ok((NLMExternal { name, refs }, after_name + 4 + 4 * (count as usize)))
}

/// Reads `count` externals from the table stored at `offs`.
pub fn read_externals(data: &[u8], offs: u32, count: u32) -> (r: Result<
    Vec<NLMExternal>,
    NLMError,
>)
    ensures
        match externals_at(data@, offs as int, count as nat) {
            Ok((externals, end)) => r is Ok && externals_view(r->Ok_0@) == externals
                && externals.len() == count,
            Err(e) => r is Err && r->Err_0 == e,
        },
{
    let mut externals: Vec<NLMExternal> = Vec::new();
    let mut pos: usize = offs as usize;
    let mut i: u32 = 0;
    assert(externals_view(externals@) =~= Seq::empty());
    while i < count
        invariant
            i <= count,
            externals@.len() == i,
            externals_at(data@, offs as int, i as nat) == Ok::<(Seq<ExternalSpec>, int), NLMError>(
                (externals_view(externals@), pos as int),
            ),
        decreases count - i,
    {
        let ghost before = externals@;
        match read_external(data, pos) {
            Err(e) => {
                proof {
                    lemma_externals_error_stays(data@, offs as int, (i + 1) as nat, count as nat);
                }
                return Err(e);
            },
            Ok((found, next)) => {
                externals.push(found);
                pos = next;
                proof {
                    assert(externals_view(externals@) =~= externals_view(before).push(found@));
                }
            },
        }
        i += 1;
    }
    Ok(externals)
}

/// Reads the export stored at `pos`.
fn read_export(data: &[u8], pos: usize) -> (r: Result<(NLMExport, usize), NLMError>)
    ensures
        match export_at(data@, pos as int) {
            Ok((found, next)) => r matches Ok(read) && read.0@ == found && read.1 == next
                && next <= data@.len(),
            Err(e) => r is Err && r->Err_0 == e,
        },
{
    let (name, after_name) = match read_name(data, pos) {
        None => {
            return Err(NLMError::UnexpectedEof);
        },
        Some(found) => found,
    };
    let word = match read_word(data, after_name) {
        None => {
            return Err(NLMError::UnexpectedEof);
        },
        Some(word) => word,
    };
    proof {
        lemma_len_fits(data);
    }
    let export = NLMExport::from_word(name, word)?;
    Ok((export, after_name + 4))
}

/// Reads `count` exports from the table stored at `offs`.
pub fn read_exports(data: &[u8], offs: u32, count: u32) -> (r: Result<Vec<NLMExport>, NLMError>)
    ensures
        match exports_at(data@, offs as int, count as nat) {
            Ok((exports, end)) => r is Ok && exports_view(r->Ok_0@) == exports && exports.len()
                == count,
            Err(e) => r is Err && r->Err_0 == e,
        },
{
    let mut exports: Vec<NLMExport> = Vec::new();
    let mut pos: usize = offs as usize;
    let mut i: u32 = 0;
    assert(exports_view(exports@) =~= Seq::empty());
    while i < count
        invariant
            i <= count,
            exports@.len() == i,
            exports_at(data@, offs as int, i as nat) == Ok::<(Seq<ExportSpec>, int), NLMError>(
                (exports_view(exports@), pos as int),
            ),
        decreases count - i,
    {
        let ghost before = exports@;
        match read_export(data, pos) {
            Err(e) => {
                proof {
                    lemma_exports_error_stays(data@, offs as int, (i + 1) as nat, count as nat);
                }
                return Err(e);
            },
            Ok((found, next)) => {
                exports.push(found);
                pos = next;
                proof {
                    assert(exports_view(exports@) =~= exports_view(before).push(found@));
                }
            },
        }
        i += 1;
    }
    Ok(exports)
}

/// Reads `count` names from the autoload list stored at `offs`.
pub fn read_autoload(data: &[u8], offs: u32, count: u32) -> (r: Result<Vec<String>, NLMError>)
    ensures
        match autoload_at(data@, offs as int, count as nat) {
            Ok((names, end)) => r is Ok && names_view(r->Ok_0@) == names && names.len()
                == count,
            Err(e) => r is Err && r->Err_0 == e,
        },
{
    let mut names: Vec<String> = Vec::new();
    let mut pos: usize = offs as usize;
    let mut i: u32 = 0;
    assert(names_view(names@) =~= Seq::empty());
    while i < count
        invariant
            i <= count,
            names@.len() == i,
            autoload_at(data@, offs as int, i as nat) == Ok::<(Seq<Seq<char>>, int), NLMError>(
                (names_view(names@), pos as int),
            ),
        decreases count - i,
    {
        let ghost before = names@;
        match read_name(data, pos) {
            None => {
                proof {
                    lemma_autoload_error_stays(data@, offs as int, (i + 1) as nat, count as nat);
                }
                return Err(NLMError::UnexpectedEof);
            },
            Some((name, next)) => {
                let ghost text = name@;
                names.push(name);
                pos = next;
                proof {
                    assert(names_view(names@) =~= names_view(before).push(text));
                }
            },
        }
        i += 1;
    }
    Ok(names)
}

} // verus!
