//! The ELF writer of the `object` crate, as far as this library drives it.
//!
//! The writer works in two phases: first every part of the file is reserved,
//! which fixes its offset; then the parts are written in the same order. The
//! contracts in this module are not proved. They restate, over
//! [`WriterState`], what the source of `object::write::elf::Writer` does for a
//! little-endian ELF-32 file, and exclude the calls on which it panics.
//!
//! A writer borrows its buffer for as long as it lives. What the buffer
//! holds afterwards is named when the writer is made ([`new_writer`]), kept
//! by every call, and known to be the bytes written once the writer is given
//! up ([`give_up`]).
use crate::elf_format::{
    align_up, file_header32, padding, program_header32, rel32, section_header32, symbol32, zeros,
    SHF_INFO_LINK, SHT_REL, SHT_STRTAB, SHT_SYMTAB,
};
use object::write::elf::{FileHeader, ProgramHeader, Rel, SectionHeader, SectionIndex, Sym, Writer};
use object::write::StringId;
use object::Endianness;
use vstd::prelude::*;

verus! {

#[verifier::external_type_specification]
#[verifier::external_body]
pub struct ExWriter<'a>(Writer<'a>);

#[verifier::external_type_specification]
#[verifier::external_body]
pub struct ExStringId(StringId);

#[verifier::external_type_specification]
#[verifier::external_body]
pub struct ExWriteError(object::write::Error);

#[verifier::external_type_specification]
pub struct ExEndianness(Endianness);

/// What a writer holds: the fields of `Writer` that this library's calls
/// read or change, under the names they have in its source.
pub struct WriterState {
    /// The buffer that the writer writes into is a `Vec<u8>`, empty when the
    /// writer was made. Such a buffer never refuses the announced length.
    pub on_vec: bool,
    /// What the buffer holds once the writer is given up. This is fixed
    /// when the writer is made: no call on the writer changes it.
    pub output: Seq<u8>,
    /// The writer was made for a little-endian ELF-32 file.
    pub elf32_le: bool,
    /// `len`: the file length reserved so far.
    pub reserved: nat,
    /// The bytes written to the buffer so far.
    pub bytes: Seq<u8>,
    /// The file length announced to the buffer when writing began; zero
    /// before. A `Vec<u8>` buffer takes no write beyond it.
    pub announced: nat,
    pub segment_offset: nat,
    pub segment_num: nat,
    pub section_offset: nat,
    pub section_num: nat,
    /// The distinct section names added, in the order of their first
    /// addition.
    pub shstrtab: Seq<Seq<u8>>,
    /// Index in `shstrtab` of the name ".shstrtab", once it was added.
    pub shstrtab_str_id: Option<nat>,
    pub shstrtab_index: nat,
    pub shstrtab_offset: nat,
    pub shstrtab_data: Seq<u8>,
    pub need_strtab: bool,
    /// The distinct strings added, in the order of their first addition.
    pub strtab: Seq<Seq<u8>>,
    /// Index in `shstrtab` of the name ".strtab", once it was added.
    pub strtab_str_id: Option<nat>,
    pub strtab_index: nat,
    pub strtab_offset: nat,
    pub strtab_data: Seq<u8>,
    /// Index in `shstrtab` of the name ".symtab", once it was added.
    pub symtab_str_id: Option<nat>,
    pub symtab_index: nat,
    pub symtab_offset: nat,
    pub symtab_num: nat,
    pub need_symtab_shndx: bool,
    /// Whether the name ".symtab_shndx" was added.
    pub symtab_shndx_named: bool,
    pub symtab_shndx_offset: nat,
}

/// The state of a writer.
pub uninterp spec fn writer_state(w: Writer) -> WriterState;

/// The position that an identifier returned by a string table has in that
/// table.
pub uninterp spec fn string_id_index(id: StringId) -> nat;

/// The bytes of the string table that holds `strings`: a NUL byte, then the
/// strings, each followed by a NUL byte, in the order that the writer's
/// suffix-sharing sort gives them; a string that ends another one is not
/// stored again.
pub uninterp spec fn string_table_data(strings: Seq<Seq<u8>>) -> Seq<u8>;

/// The offset in [`string_table_data`] at which string number `index` starts.
pub uninterp spec fn string_table_offset(strings: Seq<Seq<u8>>, index: nat) -> nat;

/// The name of the symbol table section.
pub open spec fn symtab_name() -> Seq<u8> {
    seq![0x2eu8, 0x73, 0x79, 0x6d, 0x74, 0x61, 0x62]
}

/// The name of the string table section.
pub open spec fn strtab_name() -> Seq<u8> {
    seq![0x2eu8, 0x73, 0x74, 0x72, 0x74, 0x61, 0x62]
}

/// The name of the section name table section.
pub open spec fn shstrtab_name() -> Seq<u8> {
    seq![0x2eu8, 0x73, 0x68, 0x73, 0x74, 0x72, 0x74, 0x61, 0x62]
}

/// A string table after `s` was added: a string that is there already is not
/// added again.
pub open spec fn table_add(strings: Seq<Seq<u8>>, s: Seq<u8>) -> Seq<Seq<u8>> {
    if strings.contains(s) {
        strings
    } else {
        strings.push(s)
    }
}

/// The index that `s` has in the table after it was added.
pub open spec fn table_index(strings: Seq<Seq<u8>>, s: Seq<u8>) -> nat {
    if strings.contains(s) {
        strings.index_of(s) as nat
    } else {
        strings.len()
    }
}

/// An upper bound for the size of the string table that holds `strings`.
pub open spec fn table_size_bound(strings: Seq<Seq<u8>>) -> nat
    decreases strings.len(),
{
    if strings.len() == 0 {
        1
    } else {
        table_size_bound(strings.drop_last()) + strings.last().len() + 1
    }
}

/// The bytes of `s`, followed by a NUL byte, are found at `offset` in
/// `data`.
pub open spec fn stored_at(data: Seq<u8>, offset: nat, s: Seq<u8>) -> bool {
    &&& offset + s.len() < data.len()
    &&& data.subrange(offset as int, (offset + s.len()) as int) == s
    &&& data[(offset + s.len()) as int] == 0
}

/// In the string table that holds `strings`, each string is found at its
/// offset.
pub open spec fn table_stores(strings: Seq<Seq<u8>>) -> bool {
    forall|i: int|
        0 <= i < strings.len() ==> stored_at(
            string_table_data(strings),
            string_table_offset(strings, i as nat),
            #[trigger] strings[i],
        )
}

/// The low 32 bits of `n`: what a 32-bit field of the format keeps of it.
pub open spec fn low32(n: nat) -> u32 {
    (n % 0x1_0000_0000) as u32
}

/// An alignment that this library asks for.
pub open spec fn is_alignment(align: usize) -> bool {
    align == 1 || align == 4 || align == 16
}

impl WriterState {
    /// The state of a writer as `Writer::new` makes it for a little-endian
    /// ELF-32 file, over a buffer of the given kind and future.
    pub open spec fn fresh(on_vec: bool, output: Seq<u8>) -> WriterState {
        WriterState {
            on_vec,
            output,
            elf32_le: true,
            reserved: 0,
            bytes: Seq::empty(),
            announced: 0,
            segment_offset: 0,
            segment_num: 0,
            section_offset: 0,
            section_num: 0,
            shstrtab: Seq::empty(),
            shstrtab_str_id: None,
            shstrtab_index: 0,
            shstrtab_offset: 0,
            shstrtab_data: Seq::empty(),
            need_strtab: false,
            strtab: Seq::empty(),
            strtab_str_id: None,
            strtab_index: 0,
            strtab_offset: 0,
            strtab_data: Seq::empty(),
            symtab_str_id: None,
            symtab_index: 0,
            symtab_offset: 0,
            symtab_num: 0,
            need_symtab_shndx: false,
            symtab_shndx_named: false,
            symtab_shndx_offset: 0,
        }
    }

    /// Nothing was reserved or written yet.
    pub open spec fn is_fresh(self) -> bool {
        self == Self::fresh(self.on_vec, self.output)
    }

    /// The buffer takes `n` more bytes.
    pub open spec fn has_room(self, n: nat) -> bool {
        self.elf32_le && self.bytes.len() + n <= self.announced
    }

    /// Section names can still be added and section indices reserved.
    pub open spec fn sections_open(self) -> bool {
        &&& self.section_offset == 0
        &&& self.shstrtab_offset == 0
        &&& self.shstrtab_data.len() == 0
        &&& self.section_num + 1 < 0xff00
    }

    /// `id` names a section name whose offset is known.
    pub open spec fn section_name_known(self, id: StringId) -> bool {
        self.shstrtab_data.len() > 0 && string_id_index(id) < self.shstrtab.len()
    }

    /// The state after `n` bytes were written.
    pub open spec fn wrote(self, n: Seq<u8>) -> WriterState {
        WriterState { bytes: self.bytes + n, ..self }
    }

    /// The state after a section index was reserved for a section of the
    /// writer's own, under `name`.
    pub open spec fn named_section(self, name: Seq<u8>) -> WriterState {
        WriterState {
            shstrtab: table_add(self.shstrtab, name),
            section_num: if self.section_num == 0 {
                2
            } else {
                self.section_num + 1
            },
            ..self
        }
    }

    /// The index that the next reserved section gets.
    pub open spec fn next_section(self) -> nat {
        if self.section_num == 0 {
            1
        } else {
            self.section_num
        }
    }
}

/// `Writer::new`: a writer of the given byte order and class that writes
/// into `buffer`. Nothing is reserved or written yet. The writer is the one
/// this library drives if the byte order is little-endian and the class is
/// not the 64-bit one. What `buffer` holds when the writer is given up is
/// what the state of the writer calls its output.
#[verifier::external_body]
pub(crate) fn new_writer<'a>(endian: Endianness, is_64: bool, buffer: &'a mut Vec<u8>) -> (w:
    Writer<'a>)
    requires
        old(buffer)@.len() == 0,
    ensures
        writer_state(w) == (WriterState {
            elf32_le: endian == Endianness::Little && !is_64,
            ..WriterState::fresh(true, final(buffer)@)
        }),
{
    Writer::new(endian, is_64, buffer)
}

/// `Writer::len`, on a writer that is given up with the call: the number of
/// bytes written. The writer is gone when the call returns, so the bytes
/// written are what its buffer holds from then on.
#[verifier::external_body]
pub(crate) fn give_up(w: Writer<'_>) -> (len: usize)
    requires
        writer_state(w).on_vec,
    ensures
        len == writer_state(w).bytes.len(),
        writer_state(w).output == writer_state(w).bytes.subrange(0, len as int),
{
    w.len()
}

/// `Writer::reserve`: reserves `len` bytes at the next multiple of
/// `align_start` and returns their offset. A range of no bytes is neither
/// aligned nor reserved: the current length is returned.
#[verifier::external_body]
pub(crate) fn reserve(w: &mut Writer<'_>, len: usize, align_start: usize) -> (offset: usize)
    requires
        is_alignment(align_start),
        writer_state(*old(w)).reserved + align_start + len <= usize::MAX,
    ensures
        offset == if len == 0 {
            writer_state(*old(w)).reserved
        } else {
            align_up(writer_state(*old(w)).reserved, align_start as nat)
        },
        writer_state(*final(w)) == (WriterState {
            reserved: (offset + len) as nat,
            ..writer_state(*old(w))
        }),
{
    w.reserve(len, align_start)
}

/// `Writer::write_align`: writes zero bytes up to the next multiple of
/// `align_start`.
#[verifier::external_body]
pub(crate) fn write_align(w: &mut Writer<'_>, align_start: usize)
    requires
        is_alignment(align_start),
        writer_state(*old(w)).bytes.len() + align_start <= usize::MAX,
    ensures
        writer_state(*final(w)) == writer_state(*old(w)).wrote(
            padding(writer_state(*old(w)).bytes.len(), align_start as nat),
        ),
{
    w.write_align(align_start)
}

/// `Writer::write`: writes `data`.
#[verifier::external_body]
pub(crate) fn write_data(w: &mut Writer<'_>, data: &[u8])
    requires
        writer_state(*old(w)).has_room(data@.len()),
    ensures
        writer_state(*final(w)) == writer_state(*old(w)).wrote(data@),
{
    w.write(data)
}

/// `Writer::reserve_file_header`: reserves the 52 bytes of the file header at
/// the start of the file.
#[verifier::external_body]
pub(crate) fn reserve_file_header(w: &mut Writer<'_>)
    requires
        writer_state(*old(w)).elf32_le,
        writer_state(*old(w)).reserved == 0,
    ensures
        writer_state(*final(w)) == (WriterState { reserved: 52, ..writer_state(*old(w)) }),
{
    w.reserve_file_header()
}

/// `Writer::write_file_header`: announces the reserved length to the buffer
/// and writes the file header, with the offsets and counts of the program
/// and section headers as they were reserved. It fails, and writes nothing,
/// when the buffer cannot take the announced length; a `Vec<u8>` always
/// takes it.
#[verifier::external_body]
pub(crate) fn write_file_header(
    w: &mut Writer<'_>,
    os_abi: u8,
    abi_version: u8,
    e_type: u16,
    e_machine: u16,
    e_entry: u32,
    e_flags: u32,
) -> (r: Result<(), object::write::Error>)
    requires
        writer_state(*old(w)).elf32_le,
        writer_state(*old(w)).bytes.len() == 0,
        writer_state(*old(w)).reserved >= 52,
        writer_state(*old(w)).segment_offset <= u32::MAX,
        writer_state(*old(w)).section_offset <= u32::MAX,
        0 < writer_state(*old(w)).segment_num <= u16::MAX,
        0 < writer_state(*old(w)).section_num < 0xff00,
        writer_state(*old(w)).shstrtab_index < 0xff00,
    ensures
        r is Ok ==> writer_state(*final(w)) == (WriterState {
            announced: writer_state(*old(w)).reserved,
            bytes: file_header32(
                os_abi,
                abi_version,
                e_type,
                e_machine,
                e_entry,
                writer_state(*old(w)).segment_offset as u32,
                writer_state(*old(w)).section_offset as u32,
                e_flags,
                32,
                writer_state(*old(w)).segment_num as u16,
                40,
                writer_state(*old(w)).section_num as u16,
                writer_state(*old(w)).shstrtab_index as u16,
            ),
            ..writer_state(*old(w))
        }),
        r is Err ==> writer_state(*final(w)) == writer_state(*old(w)),
        writer_state(*old(w)).on_vec ==> r is Ok,
{
    w.write_file_header(
        &FileHeader { os_abi, abi_version, e_type, e_machine, e_entry: e_entry as u64, e_flags },
    )
}

/// `Writer::reserve_program_headers`: reserves `num` program headers of 32
/// bytes each at the next multiple of four.
#[verifier::external_body]
pub(crate) fn reserve_program_headers(w: &mut Writer<'_>, num: u32)
    requires
        writer_state(*old(w)).elf32_le,
        writer_state(*old(w)).segment_offset == 0,
        num > 0,
        writer_state(*old(w)).reserved + 4 + 32 * num <= usize::MAX,
    ensures
        writer_state(*final(w)) == (WriterState {
            segment_num: num as nat,
            segment_offset: align_up(writer_state(*old(w)).reserved, 4),
            reserved: align_up(writer_state(*old(w)).reserved, 4) + 32 * num as nat,
            ..writer_state(*old(w))
        }),
{
    w.reserve_program_headers(num)
}

/// `Writer::write_program_header`: writes one program header.
#[verifier::external_body]
pub(crate) fn write_program_header(
    w: &mut Writer<'_>,
    p_type: u32,
    p_flags: u32,
    p_offset: u32,
    p_vaddr: u32,
    p_paddr: u32,
    p_filesz: u32,
    p_memsz: u32,
    p_align: u32,
)
    requires
        writer_state(*old(w)).has_room(32),
    ensures
        writer_state(*final(w)) == writer_state(*old(w)).wrote(
            program_header32(p_type, p_offset, p_vaddr, p_paddr, p_filesz, p_memsz, p_flags, p_align),
        ),
{
    w.write_program_header(
        &ProgramHeader {
            p_type,
            p_flags,
            p_offset: p_offset as u64,
            p_vaddr: p_vaddr as u64,
            p_paddr: p_paddr as u64,
            p_filesz: p_filesz as u64,
            p_memsz: p_memsz as u64,
            p_align: p_align as u64,
        },
    )
}

/// `Writer::reserve_section_index`: reserves the next section index, after
/// the index of the null section if this is the first.
#[verifier::external_body]
pub(crate) fn reserve_section_index(w: &mut Writer<'_>) -> (index: u32)
    requires
        writer_state(*old(w)).section_offset == 0,
        writer_state(*old(w)).section_num + 1 < 0xff00,
    ensures
        index == writer_state(*old(w)).next_section(),
        writer_state(*final(w)) == (WriterState {
            section_num: index as nat + 1,
            ..writer_state(*old(w))
        }),
{
    w.reserve_section_index().0
}

/// `Writer::add_section_name`: adds a name to the section name table and
/// returns its identifier. The outside function panics on a name that holds
/// a NUL byte and once the table was laid out.
#[verifier::external_body]
pub(crate) fn add_section_name<'a>(w: &mut Writer<'a>, name: &'a [u8]) -> (id: StringId)
    requires
        writer_state(*old(w)).shstrtab_offset == 0,
        writer_state(*old(w)).shstrtab_data.len() == 0,
        !name@.contains(0u8),
    ensures
        string_id_index(id) == table_index(writer_state(*old(w)).shstrtab, name@),
        writer_state(*final(w)) == (WriterState {
            shstrtab: table_add(writer_state(*old(w)).shstrtab, name@),
            ..writer_state(*old(w))
        }),
{
    w.add_section_name(name)
}

/// `Writer::add_string`: adds a string to the symbol string table and
/// returns its identifier. The outside function panics on a string that
/// holds a NUL byte and once the table was laid out.
#[verifier::external_body]
pub(crate) fn add_string<'a>(w: &mut Writer<'a>, name: &'a [u8]) -> (id: StringId)
    requires
        writer_state(*old(w)).strtab_offset == 0,
        writer_state(*old(w)).strtab_data.len() == 0,
        !name@.contains(0u8),
    ensures
        string_id_index(id) == table_index(writer_state(*old(w)).strtab, name@),
        writer_state(*final(w)) == (WriterState {
            need_strtab: true,
            strtab: table_add(writer_state(*old(w)).strtab, name@),
            ..writer_state(*old(w))
        }),
{
    w.add_string(name)
}

/// `Writer::reserve_null_symbol_index`: reserves symbol index 0 for the null
/// symbol.
#[verifier::external_body]
pub(crate) fn reserve_null_symbol_index(w: &mut Writer<'_>)
    requires
        writer_state(*old(w)).symtab_offset == 0,
        writer_state(*old(w)).symtab_num == 0,
    ensures
        writer_state(*final(w)) == (WriterState {
            symtab_num: 1,
            need_strtab: true,
            ..writer_state(*old(w))
        }),
{
    w.reserve_null_symbol_index();
}

/// `Writer::reserve_symbol_index`: reserves the next symbol index for a
/// symbol of the given section.
#[verifier::external_body]
pub(crate) fn reserve_symbol_index(w: &mut Writer<'_>, section: Option<u32>) -> (index: u32)
    requires
        writer_state(*old(w)).symtab_offset == 0,
        writer_state(*old(w)).symtab_shndx_offset == 0,
        0 < writer_state(*old(w)).symtab_num < u32::MAX,
        section matches Some(s) ==> s < 0xff00,
    ensures
        index == writer_state(*old(w)).symtab_num,
        writer_state(*final(w)) == (WriterState {
            symtab_num: index as nat + 1,
            ..writer_state(*old(w))
        }),
{
    w.reserve_symbol_index(section.map(SectionIndex)).0
}

/// `Writer::reserve_symtab_section_index`: adds the name ".symtab" and
/// reserves the next section index for the symbol table.
#[verifier::external_body]
pub(crate) fn reserve_symtab_section_index(w: &mut Writer<'_>) -> (index: u32)
    requires
        writer_state(*old(w)).sections_open(),
        writer_state(*old(w)).symtab_index == 0,
    ensures
        index == writer_state(*old(w)).next_section(),
        writer_state(*final(w)) == (WriterState {
            symtab_str_id: Some(table_index(writer_state(*old(w)).shstrtab, symtab_name())),
            symtab_index: index as nat,
            ..writer_state(*old(w)).named_section(symtab_name())
        }),
{
    w.reserve_symtab_section_index().0
}

/// `Writer::reserve_symtab`: reserves 16 bytes for each reserved symbol index
/// at the next multiple of four.
#[verifier::external_body]
pub(crate) fn reserve_symtab(w: &mut Writer<'_>)
    requires
        writer_state(*old(w)).elf32_le,
        writer_state(*old(w)).symtab_offset == 0,
        writer_state(*old(w)).symtab_num > 0,
        writer_state(*old(w)).reserved + 4 + 16 * writer_state(*old(w)).symtab_num <= usize::MAX,
    ensures
        writer_state(*final(w)) == (WriterState {
            symtab_offset: align_up(writer_state(*old(w)).reserved, 4),
            reserved: align_up(writer_state(*old(w)).reserved, 4) + 16 * writer_state(
                *old(w),
            ).symtab_num,
            ..writer_state(*old(w))
        }),
{
    w.reserve_symtab()
}

/// `Writer::symtab_shndx_needed`: whether a symbol was reserved for a
/// section whose index does not fit 16 bits.
#[verifier::external_body]
pub(crate) fn symtab_shndx_needed(w: &Writer<'_>) -> (needed: bool)
    ensures
        needed == writer_state(*w).need_symtab_shndx,
{
    w.symtab_shndx_needed()
}

/// `Writer::reserve_symtab_shndx_section_index`: adds the name
/// ".symtab_shndx" and reserves a section index for the table of extended
/// section indices. Nothing is stated of the writer afterwards.
#[verifier::external_body]
pub(crate) fn reserve_symtab_shndx_section_index(w: &mut Writer<'_>)
    requires
        writer_state(*old(w)).sections_open(),
        !writer_state(*old(w)).symtab_shndx_named,
{
    w.reserve_symtab_shndx_section_index();
}

/// `Writer::reserve_symtab_shndx`: does nothing when no extended section
/// indices are needed.
#[verifier::external_body]
pub(crate) fn reserve_symtab_shndx(w: &mut Writer<'_>)
    requires
        writer_state(*old(w)).symtab_shndx_offset == 0,
        !writer_state(*old(w)).need_symtab_shndx,
    ensures
        writer_state(*final(w)) == writer_state(*old(w)),
{
    w.reserve_symtab_shndx()
}

/// `Writer::reserve_strtab_section_index`: adds the name ".strtab" and
/// reserves the next section index for the string table.
#[verifier::external_body]
pub(crate) fn reserve_strtab_section_index(w: &mut Writer<'_>) -> (index: u32)
    requires
        writer_state(*old(w)).sections_open(),
        writer_state(*old(w)).strtab_index == 0,
    ensures
        index == writer_state(*old(w)).next_section(),
        writer_state(*final(w)) == (WriterState {
            strtab_str_id: Some(table_index(writer_state(*old(w)).shstrtab, strtab_name())),
            strtab_index: index as nat,
            ..writer_state(*old(w)).named_section(strtab_name())
        }),
{
    w.reserve_strtab_section_index().0
}

/// `Writer::reserve_strtab`: lays out the string table and reserves its
/// bytes, unaligned. The table starts with a NUL byte, stores no string
/// twice, and each string is found at the offset noted for it.
#[verifier::external_body]
pub(crate) fn reserve_strtab(w: &mut Writer<'_>)
    requires
        writer_state(*old(w)).strtab_offset == 0,
        writer_state(*old(w)).strtab_data.len() == 0,
        writer_state(*old(w)).need_strtab,
        writer_state(*old(w)).reserved + table_size_bound(writer_state(*old(w)).strtab)
            <= usize::MAX,
    ensures
        writer_state(*final(w)) == (WriterState {
            strtab_data: string_table_data(writer_state(*old(w)).strtab),
            strtab_offset: writer_state(*old(w)).reserved,
            reserved: writer_state(*old(w)).reserved + string_table_data(
                writer_state(*old(w)).strtab,
            ).len(),
            ..writer_state(*old(w))
        }),
        1 <= string_table_data(writer_state(*old(w)).strtab).len() <= table_size_bound(
            writer_state(*old(w)).strtab,
        ),
        table_stores(writer_state(*old(w)).strtab),
{
    w.reserve_strtab()
}

/// `Writer::reserve_relocations`: reserves 8 bytes for each of `count`
/// relocations without addend at the next multiple of four, and returns
/// their offset. For no relocations the current length is returned.
#[verifier::external_body]
pub(crate) fn reserve_relocations(w: &mut Writer<'_>, count: usize, is_rela: bool) -> (offset:
    usize)
    requires
        writer_state(*old(w)).elf32_le,
        !is_rela,
        writer_state(*old(w)).reserved + 4 + 8 * count <= usize::MAX,
    ensures
        offset == if count == 0 {
            writer_state(*old(w)).reserved
        } else {
            align_up(writer_state(*old(w)).reserved, 4)
        },
        writer_state(*final(w)) == (WriterState {
            reserved: (offset + 8 * count) as nat,
            ..writer_state(*old(w))
        }),
{
    w.reserve_relocations(count, is_rela)
}

/// `Writer::reserve_shstrtab_section_index`: adds the name ".shstrtab" and
/// reserves the next section index for the section name table.
#[verifier::external_body]
pub(crate) fn reserve_shstrtab_section_index(w: &mut Writer<'_>) -> (index: u32)
    requires
        writer_state(*old(w)).sections_open(),
        writer_state(*old(w)).shstrtab_index == 0,
    ensures
        index == writer_state(*old(w)).next_section(),
        writer_state(*final(w)) == (WriterState {
            shstrtab_str_id: Some(table_index(writer_state(*old(w)).shstrtab, shstrtab_name())),
            shstrtab_index: index as nat,
            ..writer_state(*old(w)).named_section(shstrtab_name())
        }),
{
    w.reserve_shstrtab_section_index().0
}

/// `Writer::reserve_shstrtab`: lays out the section name table and reserves
/// its bytes, unaligned. The table starts with a NUL byte, stores no name
/// twice, and each name is found at the offset noted for it.
#[verifier::external_body]
pub(crate) fn reserve_shstrtab(w: &mut Writer<'_>)
    requires
        writer_state(*old(w)).shstrtab_offset == 0,
        writer_state(*old(w)).shstrtab_data.len() == 0,
        writer_state(*old(w)).section_num > 0,
        writer_state(*old(w)).reserved + table_size_bound(writer_state(*old(w)).shstrtab)
            <= usize::MAX,
    ensures
        writer_state(*final(w)) == (WriterState {
            shstrtab_data: string_table_data(writer_state(*old(w)).shstrtab),
            shstrtab_offset: writer_state(*old(w)).reserved,
            reserved: writer_state(*old(w)).reserved + string_table_data(
                writer_state(*old(w)).shstrtab,
            ).len(),
            ..writer_state(*old(w))
        }),
        1 <= string_table_data(writer_state(*old(w)).shstrtab).len() <= table_size_bound(
            writer_state(*old(w)).shstrtab,
        ),
        table_stores(writer_state(*old(w)).shstrtab),
{
    w.reserve_shstrtab()
}

/// `Writer::reserve_section_headers`: reserves 40 bytes for each reserved
/// section index at the next multiple of four.
#[verifier::external_body]
pub(crate) fn reserve_section_headers(w: &mut Writer<'_>)
    requires
        writer_state(*old(w)).elf32_le,
        writer_state(*old(w)).section_offset == 0,
        writer_state(*old(w)).section_num > 0,
        writer_state(*old(w)).reserved + 4 + 40 * writer_state(*old(w)).section_num
            <= usize::MAX,
    ensures
        writer_state(*final(w)) == (WriterState {
            section_offset: align_up(writer_state(*old(w)).reserved, 4),
            reserved: align_up(writer_state(*old(w)).reserved, 4) + 40 * writer_state(
                *old(w),
            ).section_num,
            ..writer_state(*old(w))
        }),
{
    w.reserve_section_headers()
}

/// `Writer::write_null_symbol`: pads to a multiple of four and writes the
/// null symbol, 16 zero bytes. The outside function panics unless the
/// symbol table starts where it was reserved.
#[verifier::external_body]
pub(crate) fn write_null_symbol(w: &mut Writer<'_>)
    requires
        writer_state(*old(w)).symtab_num > 0,
        !writer_state(*old(w)).need_symtab_shndx,
        writer_state(*old(w)).symtab_offset == align_up(writer_state(*old(w)).bytes.len(), 4),
        writer_state(*old(w)).elf32_le,
        writer_state(*old(w)).symtab_offset + 16 <= writer_state(*old(w)).announced,
    ensures
        writer_state(*final(w)) == writer_state(*old(w)).wrote(
            padding(writer_state(*old(w)).bytes.len(), 4) + zeros(16),
        ),
{
    w.write_null_symbol()
}

/// `Writer::write_symbol`: writes one symbol table entry; its name field is
/// the offset of the name in the string table, its section field the given
/// section index, or `st_shndx` where none is given.
#[verifier::external_body]
pub(crate) fn write_symbol(
    w: &mut Writer<'_>,
    name: StringId,
    section: Option<u32>,
    st_info: u8,
    st_other: u8,
    st_shndx: u16,
    st_value: u32,
    st_size: u32,
)
    requires
        writer_state(*old(w)).has_room(16),
        !writer_state(*old(w)).need_symtab_shndx,
        writer_state(*old(w)).strtab_data.len() > 0,
        string_id_index(name) < writer_state(*old(w)).strtab.len(),
        section matches Some(s) ==> s < 0xff00,
    ensures
        writer_state(*final(w)) == writer_state(*old(w)).wrote(
            symbol32(
                low32(string_table_offset(writer_state(*old(w)).strtab, string_id_index(name))),
                st_value,
                st_size,
                st_info,
                st_other,
                match section {
                    Some(s) => s as u16,
                    None => st_shndx,
                },
            ),
        ),
{
    w.write_symbol(
        &Sym {
            name: Some(name),
            section: section.map(SectionIndex),
            st_info,
            st_other,
            st_shndx,
            st_value: st_value as u64,
            st_size: st_size as u64,
        },
    )
}

/// `Writer::write_symtab_shndx`: does nothing when no table of extended
/// section indices was reserved.
#[verifier::external_body]
pub(crate) fn write_symtab_shndx(w: &mut Writer<'_>)
    requires
        writer_state(*old(w)).symtab_shndx_offset == 0,
    ensures
        writer_state(*final(w)) == writer_state(*old(w)),
{
    w.write_symtab_shndx()
}

/// `Writer::write_strtab`: writes the string table as it was laid out. The
/// outside function panics unless the table starts where it was reserved.
#[verifier::external_body]
pub(crate) fn write_strtab(w: &mut Writer<'_>)
    requires
        writer_state(*old(w)).strtab_offset != 0,
        writer_state(*old(w)).strtab_offset == writer_state(*old(w)).bytes.len(),
        writer_state(*old(w)).has_room(writer_state(*old(w)).strtab_data.len()),
    ensures
        writer_state(*final(w)) == writer_state(*old(w)).wrote(
            writer_state(*old(w)).strtab_data,
        ),
{
    w.write_strtab()
}

/// `Writer::write_align_relocation`: writes zero bytes up to the next
/// multiple of four.
#[verifier::external_body]
pub(crate) fn write_align_relocation(w: &mut Writer<'_>)
    requires
        writer_state(*old(w)).elf32_le,
        writer_state(*old(w)).bytes.len() + 4 <= usize::MAX,
    ensures
        writer_state(*final(w)) == writer_state(*old(w)).wrote(
            padding(writer_state(*old(w)).bytes.len(), 4),
        ),
{
    w.write_align_relocation()
}

/// `Writer::write_relocation`: writes one relocation without addend.
#[verifier::external_body]
pub(crate) fn write_relocation(
    w: &mut Writer<'_>,
    is_rela: bool,
    r_offset: u32,
    r_sym: u32,
    r_type: u32,
)
    requires
        writer_state(*old(w)).has_room(8),
        !is_rela,
        r_sym < 0x100_0000,
        r_type < 0x100,
    ensures
        writer_state(*final(w)) == writer_state(*old(w)).wrote(rel32(r_offset, r_sym, r_type)),
{
    w.write_relocation(is_rela, &Rel { r_offset: r_offset as u64, r_sym, r_type, r_addend: 0 })
}

/// `Writer::write_shstrtab`: writes the section name table as it was laid
/// out. The outside function panics unless the table starts where it was
/// reserved.
#[verifier::external_body]
pub(crate) fn write_shstrtab(w: &mut Writer<'_>)
    requires
        writer_state(*old(w)).shstrtab_offset != 0,
        writer_state(*old(w)).shstrtab_offset == writer_state(*old(w)).bytes.len(),
        writer_state(*old(w)).has_room(writer_state(*old(w)).shstrtab_data.len()),
    ensures
        writer_state(*final(w)) == writer_state(*old(w)).wrote(
            writer_state(*old(w)).shstrtab_data,
        ),
{
    w.write_shstrtab()
}

/// `Writer::write_null_section_header`: pads to a multiple of four and
/// writes the null section header, 40 zero bytes. The outside function
/// panics unless the section headers start where they were reserved.
#[verifier::external_body]
pub(crate) fn write_null_section_header(w: &mut Writer<'_>)
    requires
        0 < writer_state(*old(w)).section_num < 0xff00,
        writer_state(*old(w)).shstrtab_index < 0xff00,
        writer_state(*old(w)).section_offset == align_up(writer_state(*old(w)).bytes.len(), 4),
        writer_state(*old(w)).elf32_le,
        writer_state(*old(w)).section_offset + 40 <= writer_state(*old(w)).announced,
    ensures
        writer_state(*final(w)) == writer_state(*old(w)).wrote(
            padding(writer_state(*old(w)).bytes.len(), 4) + zeros(40),
        ),
{
    w.write_null_section_header()
}

/// `Writer::symtab_index`: the section index reserved for the symbol table.
#[verifier::external_body]
pub(crate) fn symtab_index(w: &mut Writer<'_>) -> (index: u32)
    ensures
        index == writer_state(*old(w)).symtab_index,
        writer_state(*final(w)) == writer_state(*old(w)),
{
    w.symtab_index().0
}

/// `Writer::write_section_header`: writes one section header; its name
/// field is the offset of the name in the section name table.
#[verifier::external_body]
pub(crate) fn write_section_header(
    w: &mut Writer<'_>,
    name: StringId,
    sh_type: u32,
    sh_flags: u32,
    sh_addr: u32,
    sh_offset: u32,
    sh_size: u32,
    sh_link: u32,
    sh_info: u32,
    sh_addralign: u32,
    sh_entsize: u32,
)
    requires
        writer_state(*old(w)).has_room(40),
        writer_state(*old(w)).section_name_known(name),
    ensures
        writer_state(*final(w)) == writer_state(*old(w)).wrote(
            section_header32(
                low32(string_table_offset(writer_state(*old(w)).shstrtab, string_id_index(name))),
                sh_type,
                sh_flags,
                sh_addr,
                sh_offset,
                sh_size,
                sh_link,
                sh_info,
                sh_addralign,
                sh_entsize,
            ),
        ),
{
    w.write_section_header(
        &SectionHeader {
            name: Some(name),
            sh_type,
            sh_flags: sh_flags as u64,
            sh_addr: sh_addr as u64,
            sh_offset: sh_offset as u64,
            sh_size: sh_size as u64,
            sh_link,
            sh_info,
            sh_addralign: sh_addralign as u64,
            sh_entsize: sh_entsize as u64,
        },
    )
}

/// `Writer::write_relocation_section_header`: writes the header of a section
/// of `count` relocations without addend at `offset`, which apply to section
/// `section` and refer to the symbol table in section `symtab`.
#[verifier::external_body]
pub(crate) fn write_relocation_section_header(
    w: &mut Writer<'_>,
    name: StringId,
    section: u32,
    symtab: u32,
    offset: usize,
    count: usize,
    is_rela: bool,
)
    requires
        writer_state(*old(w)).has_room(40),
        writer_state(*old(w)).section_name_known(name),
        !is_rela,
        offset <= u32::MAX,
        8 * count <= u32::MAX,
    ensures
        writer_state(*final(w)) == writer_state(*old(w)).wrote(
            section_header32(
                low32(string_table_offset(writer_state(*old(w)).shstrtab, string_id_index(name))),
                SHT_REL,
                SHF_INFO_LINK,
                0,
                offset as u32,
                (8 * count) as u32,
                symtab,
                section,
                4,
                8,
            ),
        ),
{
    w.write_relocation_section_header(
        name,
        SectionIndex(section),
        SectionIndex(symtab),
        offset,
        count,
        is_rela,
    )
}

/// `Writer::write_symtab_section_header`: writes the header of the symbol
/// table section; `num_local` goes to its info field, the index of the
/// string table section to its link field.
#[verifier::external_body]
pub(crate) fn write_symtab_section_header(w: &mut Writer<'_>, num_local: u32)
    requires
        writer_state(*old(w)).has_room(40),
        writer_state(*old(w)).symtab_index != 0,
        writer_state(*old(w)).shstrtab_data.len() > 0,
        writer_state(*old(w)).symtab_str_id matches Some(id) && id < writer_state(
            *old(w),
        ).shstrtab.len(),
        writer_state(*old(w)).symtab_offset <= u32::MAX,
        16 * writer_state(*old(w)).symtab_num <= u32::MAX,
        writer_state(*old(w)).strtab_index <= u32::MAX,
    ensures
        writer_state(*final(w)) == writer_state(*old(w)).wrote(
            section_header32(
                low32(string_table_offset(
                    writer_state(*old(w)).shstrtab,
                    writer_state(*old(w)).symtab_str_id->0,
                )),
                SHT_SYMTAB,
                0,
                0,
                writer_state(*old(w)).symtab_offset as u32,
                (16 * writer_state(*old(w)).symtab_num) as u32,
                writer_state(*old(w)).strtab_index as u32,
                num_local,
                4,
                16,
            ),
        ),
{
    w.write_symtab_section_header(num_local)
}

/// `Writer::write_symtab_shndx_section_header`: does nothing when the name
/// ".symtab_shndx" was not added.
#[verifier::external_body]
pub(crate) fn write_symtab_shndx_section_header(w: &mut Writer<'_>)
    requires
        !writer_state(*old(w)).symtab_shndx_named,
    ensures
        writer_state(*final(w)) == writer_state(*old(w)),
{
    w.write_symtab_shndx_section_header()
}

/// `Writer::write_strtab_section_header`: writes the header of the string
/// table section.
#[verifier::external_body]
pub(crate) fn write_strtab_section_header(w: &mut Writer<'_>)
    requires
        writer_state(*old(w)).has_room(40),
        writer_state(*old(w)).strtab_index != 0,
        writer_state(*old(w)).shstrtab_data.len() > 0,
        writer_state(*old(w)).strtab_str_id matches Some(id) && id < writer_state(
            *old(w),
        ).shstrtab.len(),
        writer_state(*old(w)).strtab_offset <= u32::MAX,
        writer_state(*old(w)).strtab_data.len() <= u32::MAX,
    ensures
        writer_state(*final(w)) == writer_state(*old(w)).wrote(
            section_header32(
                low32(string_table_offset(
                    writer_state(*old(w)).shstrtab,
                    writer_state(*old(w)).strtab_str_id->0,
                )),
                SHT_STRTAB,
                0,
                0,
                writer_state(*old(w)).strtab_offset as u32,
                writer_state(*old(w)).strtab_data.len() as u32,
                0,
                0,
                1,
                0,
            ),
        ),
{
    w.write_strtab_section_header()
}

/// `Writer::write_shstrtab_section_header`: writes the header of the section
/// name table section.
#[verifier::external_body]
pub(crate) fn write_shstrtab_section_header(w: &mut Writer<'_>)
    requires
        writer_state(*old(w)).has_room(40),
        writer_state(*old(w)).shstrtab_index != 0,
        writer_state(*old(w)).shstrtab_data.len() > 0,
        writer_state(*old(w)).shstrtab_str_id matches Some(id) && id < writer_state(
            *old(w),
        ).shstrtab.len(),
        writer_state(*old(w)).shstrtab_offset <= u32::MAX,
        writer_state(*old(w)).shstrtab_data.len() <= u32::MAX,
    ensures
        writer_state(*final(w)) == writer_state(*old(w)).wrote(
            section_header32(
                low32(string_table_offset(
                    writer_state(*old(w)).shstrtab,
                    writer_state(*old(w)).shstrtab_str_id->0,
                )),
                SHT_STRTAB,
                0,
                0,
                writer_state(*old(w)).shstrtab_offset as u32,
                writer_state(*old(w)).shstrtab_data.len() as u32,
                0,
                0,
                1,
                0,
            ),
        ),
{
    w.write_shstrtab_section_header()
}

} // verus!
