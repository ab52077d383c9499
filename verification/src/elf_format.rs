//! The byte layout of the records of a little-endian ELF-32 file.
use crate::endian::u32_le_bytes;
use vstd::prelude::*;

verus! {

/// Size of the ELF-32 file header.
pub const ELF_HEADER_SIZE: usize = 52;

/// Size of an ELF-32 program header.
pub const ELF_PROGRAM_HEADER_SIZE: usize = 32;

/// Size of an ELF-32 section header.
pub const ELF_SECTION_HEADER_SIZE: usize = 40;

/// Size of an ELF-32 symbol table entry.
pub const ELF_SYMBOL_SIZE: usize = 16;

/// Size of an ELF-32 relocation entry without addend.
pub const ELF_REL_SIZE: usize = 8;

/// File type: shared object.
pub const ET_DYN: u16 = 3;

/// Machine: Intel 80386.
pub const EM_386: u16 = 3;

/// The current version of the format.
pub const EV_CURRENT: u8 = 1;

/// Segment type: loadable.
pub const PT_LOAD: u32 = 1;

/// Segment flag: executable.
pub const PF_X: u32 = 1;

/// Segment flag: writable.
pub const PF_W: u32 = 2;

/// Segment flag: readable.
pub const PF_R: u32 = 4;

/// Section type: contents defined by the program.
pub const SHT_PROGBITS: u32 = 1;

/// Section type: symbol table.
pub const SHT_SYMTAB: u32 = 2;

/// Section type: string table.
pub const SHT_STRTAB: u32 = 3;

/// Section type: note.
pub const SHT_NOTE: u32 = 7;

/// Section type: relocations without addends.
pub const SHT_REL: u32 = 9;

/// Section flag: writable.
pub const SHF_WRITE: u32 = 1;

/// Section flag: occupies memory when the file is loaded.
pub const SHF_ALLOC: u32 = 2;

/// Section flag: holds machine instructions.
pub const SHF_EXECINSTR: u32 = 4;

/// Section flag: the info field holds a section index.
pub const SHF_INFO_LINK: u32 = 0x40;

/// Symbol visibility: as the binding says.
pub const STV_DEFAULT: u8 = 0;

/// Relocation type: the absolute address of the symbol.
pub const R_386_32: u32 = 1;

/// Relocation type: the address of the symbol relative to the patched place.
pub const R_386_PC32: u32 = 2;

/// The two bytes that store `v` in little-endian order.
pub open spec fn u16_le_bytes(v: u16) -> Seq<u8> {
    seq![(v % 0x100) as u8, (v / 0x100) as u8]
}

/// `n` zero bytes.
pub open spec fn zeros(n: nat) -> Seq<u8> {
    Seq::new(n, |i: int| 0u8)
}

/// The smallest multiple of `size` that is not below `offset`.
pub open spec fn align_up(offset: nat, size: nat) -> nat
    recommends
        size > 0,
{
    ((offset + size - 1) / (size as int) * size) as nat
}

/// The padding that brings a file of `len` bytes to a multiple of `size`.
pub open spec fn padding(len: nat, size: nat) -> Seq<u8>
    recommends
        size > 0,
{
    zeros((align_up(len, size) - len) as nat)
}

/// The ELF-32 file header of a little-endian file.
pub open spec fn file_header32(
    os_abi: u8,
    abi_version: u8,
    e_type: u16,
    e_machine: u16,
    e_entry: u32,
    e_phoff: u32,
    e_shoff: u32,
    e_flags: u32,
    e_phentsize: u16,
    e_phnum: u16,
    e_shentsize: u16,
    e_shnum: u16,
    e_shstrndx: u16,
) -> Seq<u8> {
    seq![0x7fu8, 0x45, 0x4c, 0x46, 1, 1, 1, os_abi, abi_version, 0, 0, 0, 0, 0, 0, 0]
        + u16_le_bytes(e_type) + u16_le_bytes(e_machine) + u32_le_bytes(1) + u32_le_bytes(e_entry)
        + u32_le_bytes(e_phoff) + u32_le_bytes(e_shoff) + u32_le_bytes(e_flags) + u16_le_bytes(52)
        + u16_le_bytes(e_phentsize) + u16_le_bytes(e_phnum) + u16_le_bytes(e_shentsize)
        + u16_le_bytes(e_shnum) + u16_le_bytes(e_shstrndx)
}

/// An ELF-32 program header.
pub open spec fn program_header32(
    p_type: u32,
    p_offset: u32,
    p_vaddr: u32,
    p_paddr: u32,
    p_filesz: u32,
    p_memsz: u32,
    p_flags: u32,
    p_align: u32,
) -> Seq<u8> {
    u32_le_bytes(p_type) + u32_le_bytes(p_offset) + u32_le_bytes(p_vaddr) + u32_le_bytes(p_paddr)
        + u32_le_bytes(p_filesz) + u32_le_bytes(p_memsz) + u32_le_bytes(p_flags) + u32_le_bytes(
        p_align,
    )
}

/// An ELF-32 section header.
pub open spec fn section_header32(
    sh_name: u32,
    sh_type: u32,
    sh_flags: u32,
    sh_addr: u32,
    sh_offset: u32,
    sh_size: u32,
    sh_link: u32,
    sh_info: u32,
    sh_addralign: u32,
    sh_entsize: u32,
) -> Seq<u8> {
    u32_le_bytes(sh_name) + u32_le_bytes(sh_type) + u32_le_bytes(sh_flags) + u32_le_bytes(sh_addr)
        + u32_le_bytes(sh_offset) + u32_le_bytes(sh_size) + u32_le_bytes(sh_link) + u32_le_bytes(
        sh_info,
    ) + u32_le_bytes(sh_addralign) + u32_le_bytes(sh_entsize)
}

/// An ELF-32 symbol table entry.
pub open spec fn symbol32(
    st_name: u32,
    st_value: u32,
    st_size: u32,
    st_info: u8,
    st_other: u8,
    st_shndx: u16,
) -> Seq<u8> {
    u32_le_bytes(st_name) + u32_le_bytes(st_value) + u32_le_bytes(st_size) + seq![st_info, st_other]
        + u16_le_bytes(st_shndx)
}

/// An ELF-32 relocation entry without addend: the offset, then the symbol
/// index in the upper 24 bits and the type in the low 8 bits of one word.
pub open spec fn rel32(r_offset: u32, r_sym: u32, r_type: u32) -> Seq<u8>
    recommends
        r_sym < 0x100_0000,
        r_type < 0x100,
{
    u32_le_bytes(r_offset) + u32_le_bytes((r_sym * 0x100 + r_type) as u32)
}

/// The records have the sizes that the format gives them.
pub proof fn lemma_record_sizes()
    ensures
        forall|a: u8, b: u8, c: u16, d: u16, e: u32, f: u32, g: u32, h: u32, i: u16, j: u16, k: u16, l: u16, m: u16|
            #[trigger] file_header32(a, b, c, d, e, f, g, h, i, j, k, l, m).len()
                == ELF_HEADER_SIZE,
        forall|a: u32, b: u32, c: u32, d: u32, e: u32, f: u32, g: u32, h: u32|
            #[trigger] program_header32(a, b, c, d, e, f, g, h).len() == ELF_PROGRAM_HEADER_SIZE,
        forall|a: u32, b: u32, c: u32, d: u32, e: u32, f: u32, g: u32, h: u32, i: u32, j: u32|
            #[trigger] section_header32(a, b, c, d, e, f, g, h, i, j).len()
                == ELF_SECTION_HEADER_SIZE,
        forall|a: u32, b: u32, c: u32, d: u8, e: u8, f: u16| #[trigger]
            symbol32(a, b, c, d, e, f).len() == ELF_SYMBOL_SIZE,
        forall|a: u32, b: u32, c: u32| #[trigger] rel32(a, b, c).len() == ELF_REL_SIZE,
{
}

} // verus!
