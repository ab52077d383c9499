//! The ELF file of a plan: where each part lies and what its bytes are.
//!
//! The file holds, in this order: the file header, two program headers, the
//! contents of `.text`, `.data` and `.nlm.autoload`, the symbol table, the
//! string table, the relocations of `.text` and of `.data`, the section name
//! table and nine section headers. A part is aligned only if it is not
//! empty.
use crate::elf_format::{
    align_up, file_header32, lemma_record_sizes, padding, program_header32, rel32,
    section_header32, symbol32, zeros, EM_386, ET_DYN, EV_CURRENT, PT_LOAD, SHF_INFO_LINK,
    SHT_NOTE, SHT_PROGBITS, SHT_REL, SHT_STRTAB, SHT_SYMTAB,
};
use crate::fixup::{NLM_CODE_VADDR, NLM_DATA_VADDR};
use crate::plan::{ElfRel, ElfSegment, PlanSpec, SymbolSpec};
use crate::writer::{
    low32, shstrtab_name, stored_at, string_table_data, string_table_offset, strtab_name,
    symtab_name, table_add, table_index,
};
use vstd::prelude::*;
use vstd::utf8::encode_utf8;

verus! {

/// Alignment of the code and data sections in the file.
pub const SEGMENT_ALIGN: usize = 16;

/// The bytes of ".text".
pub open spec fn text_name() -> Seq<u8> {
    seq![0x2eu8, 0x74, 0x65, 0x78, 0x74]
}

/// The bytes of ".rel.text".
pub open spec fn rel_text_name() -> Seq<u8> {
    seq![0x2eu8, 0x72, 0x65, 0x6c, 0x2e, 0x74, 0x65, 0x78, 0x74]
}

/// The bytes of ".data".
pub open spec fn data_name() -> Seq<u8> {
    seq![0x2eu8, 0x64, 0x61, 0x74, 0x61]
}

/// The bytes of ".rel.data".
pub open spec fn rel_data_name() -> Seq<u8> {
    seq![0x2eu8, 0x72, 0x65, 0x6c, 0x2e, 0x64, 0x61, 0x74, 0x61]
}

/// The bytes of ".nlm.autoload".
pub open spec fn autoload_name() -> Seq<u8> {
    seq![0x2eu8, 0x6e, 0x6c, 0x6d, 0x2e, 0x61, 0x75, 0x74, 0x6f, 0x6c, 0x6f, 0x61, 0x64]
}

/// The section names, in the order in which they are added to the section
/// name table: name number `i` belongs to section `i + 1`, so that `.text`
/// is section 1, `.data` section 3, `.symtab` section 6, `.strtab` section
/// 7 and `.shstrtab` section 8.
pub open spec fn section_names() -> Seq<Seq<u8>> {
    seq![
        text_name(),
        rel_text_name(),
        data_name(),
        rel_data_name(),
        autoload_name(),
        symtab_name(),
        strtab_name(),
        shstrtab_name(),
    ]
}

/// The distinct names of the first `count` symbols, in the order of their
/// first occurrence: the strings of the string table.
pub open spec fn symbol_strings(symbols: Seq<SymbolSpec>, count: nat) -> Seq<Seq<u8>>
    decreases count,
{
    if count == 0 {
        Seq::empty()
    } else {
        table_add(
            symbol_strings(symbols, (count - 1) as nat),
            encode_utf8(symbols[count - 1].name),
        )
    }
}

/// The position that the name of symbol `k` has among the strings of the
/// string table.
pub open spec fn symbol_string_index(symbols: Seq<SymbolSpec>, k: int) -> nat {
    table_index(symbol_strings(symbols, k as nat), encode_utf8(symbols[k].name))
}

/// The offset at which a part of `len` bytes is placed in a file of `at`
/// bytes: the next multiple of `align`, or `at` itself for an empty part.
pub open spec fn placed(at: nat, len: nat, align: nat) -> nat {
    if len == 0 {
        at
    } else {
        align_up(at, align)
    }
}

/// The padding that precedes a part of `len` bytes in a file of `at` bytes.
pub open spec fn placed_padding(at: nat, len: nat, align: nat) -> Seq<u8> {
    zeros((placed(at, len, align) - at) as nat)
}

/// The offsets of the parts of the file.
pub struct ElfLayout {
    pub code_offset: nat,
    pub data_offset: nat,
    pub autoload_offset: nat,
    pub symtab_offset: nat,
    pub strtab_offset: nat,
    pub rel_text_offset: nat,
    pub rel_data_offset: nat,
    pub shstrtab_offset: nat,
    pub section_offset: nat,
    pub total: nat,
}

impl PlanSpec {
    /// The strings of the string table.
    pub open spec fn strings(self) -> Seq<Seq<u8>> {
        symbol_strings(self.symbols, self.symbols.len())
    }

    /// The bytes of the string table.
    pub open spec fn strtab_data(self) -> Seq<u8> {
        string_table_data(self.strings())
    }

    /// The offsets of the parts of the file.
    pub open spec fn layout(self) -> ElfLayout {
        let code_offset = placed(116, self.code.len(), 16);
        let data_offset = placed(code_offset + self.code.len(), self.data.len(), 16);
        let autoload_offset = data_offset + self.data.len();
        let symtab_offset = align_up(autoload_offset + self.autoload.len(), 4);
        let strtab_offset = symtab_offset + 16 * (self.symbols.len() + 1);
        let rel_text_offset = placed(
            strtab_offset + self.strtab_data().len(),
            8 * self.code_relocs.len(),
            4,
        );
        let rel_data_offset = placed(
            rel_text_offset + 8 * self.code_relocs.len(),
            8 * self.data_relocs.len(),
            4,
        );
        let shstrtab_offset = rel_data_offset + 8 * self.data_relocs.len();
        let section_offset = align_up(
            shstrtab_offset + string_table_data(section_names()).len(),
            4,
        );
        ElfLayout {
            code_offset,
            data_offset,
            autoload_offset,
            symtab_offset,
            strtab_offset,
            rel_text_offset,
            rel_data_offset,
            shstrtab_offset,
            section_offset,
            total: section_offset + 40 * 9,
        }
    }

    /// The file header and the two program headers: one loadable segment
    /// for the code, readable and executable, and one for the data,
    /// readable and writable.
    #[verifier::opaque]
    pub open spec fn headers(self) -> Seq<u8> {
        let l = self.layout();
        file_header32(
            0,
            EV_CURRENT,
            ET_DYN,
            EM_386,
            self.entry,
            52,
            l.section_offset as u32,
            0,
            32,
            2,
            40,
            9,
            8,
        ) + program_header32(
            PT_LOAD,
            l.code_offset as u32,
            NLM_CODE_VADDR,
            NLM_CODE_VADDR,
            self.code.len() as u32,
            self.code.len() as u32,
            5,
            16,
        ) + program_header32(
            PT_LOAD,
            l.data_offset as u32,
            NLM_DATA_VADDR,
            NLM_DATA_VADDR,
            self.data.len() as u32,
            self.data.len() as u32,
            6,
            16,
        )
    }

    /// The contents of the three sections of the module, with the padding
    /// before the code and before the data.
    #[verifier::opaque]
    pub open spec fn bodies(self) -> Seq<u8> {
        let l = self.layout();
        placed_padding(116, self.code.len(), 16) + self.code + placed_padding(
            l.code_offset + self.code.len(),
            self.data.len(),
            16,
        ) + self.data + self.autoload
    }

    /// The entry of symbol `k` in the symbol table.
    pub open spec fn symbol_entry(self, k: int) -> Seq<u8> {
        let symbol = self.symbols[k];
        symbol32(
            low32(string_table_offset(self.strings(), symbol_string_index(self.symbols, k))),
            symbol.value,
            0,
            symbol.info,
            0,
            match symbol.section {
                Some(ElfSegment::Code) => 1,
                Some(ElfSegment::Data) => 3,
                None => 0,
            },
        )
    }

    /// The entries of the first `count` symbols.
    pub open spec fn symbol_entries(self, count: nat) -> Seq<u8>
        decreases count,
    {
        if count == 0 {
            Seq::empty()
        } else {
            self.symbol_entries((count - 1) as nat) + self.symbol_entry(count - 1)
        }
    }

    /// The symbol table with the padding before it: the null symbol, then
    /// the entries of the symbols.
    #[verifier::opaque]
    pub open spec fn symtab(self) -> Seq<u8> {
        let l = self.layout();
        padding(l.autoload_offset + self.autoload.len(), 4) + zeros(16) + self.symbol_entries(
            self.symbols.len(),
        )
    }

    /// The relocations of both sections, each list with the padding before
    /// it.
    #[verifier::opaque]
    pub open spec fn relocations(self) -> Seq<u8> {
        let l = self.layout();
        placed_padding(l.strtab_offset + self.strtab_data().len(), 8 * self.code_relocs.len(), 4)
            + rel_entries(self.code_relocs, self.code_relocs.len()) + placed_padding(
            l.rel_text_offset + 8 * self.code_relocs.len(),
            8 * self.data_relocs.len(),
            4,
        ) + rel_entries(self.data_relocs, self.data_relocs.len())
    }

    /// The header of section `index`, for `index` from 1 to 8.
    #[verifier::opaque]
    pub open spec fn section_header(self, index: int) -> Seq<u8> {
        let l = self.layout();
        let name = low32(string_table_offset(section_names(), (index - 1) as nat));
        if index == 1 {
            section_header32(
                name,
                SHT_PROGBITS,
                6,
                NLM_CODE_VADDR,
                l.code_offset as u32,
                self.code.len() as u32,
                0,
                0,
                16,
                0,
            )
        } else if index == 2 {
            section_header32(
                name,
                SHT_REL,
                SHF_INFO_LINK,
                0,
                l.rel_text_offset as u32,
                (8 * self.code_relocs.len()) as u32,
                6,
                1,
                4,
                8,
            )
        } else if index == 3 {
            section_header32(
                name,
                SHT_PROGBITS,
                3,
                NLM_DATA_VADDR,
                l.data_offset as u32,
                self.data.len() as u32,
                0,
                0,
                16,
                0,
            )
        } else if index == 4 {
            section_header32(
                name,
                SHT_REL,
                SHF_INFO_LINK,
                0,
                l.rel_data_offset as u32,
                (8 * self.data_relocs.len()) as u32,
                6,
                3,
                4,
                8,
            )
        } else if index == 5 {
            section_header32(
                name,
                SHT_NOTE,
                0,
                0,
                l.autoload_offset as u32,
                self.autoload.len() as u32,
                0,
                0,
                1,
                0,
            )
        } else if index == 6 {
            section_header32(
                name,
                SHT_SYMTAB,
                0,
                0,
                l.symtab_offset as u32,
                (16 * (self.symbols.len() + 1)) as u32,
                7,
                self.num_local,
                4,
                16,
            )
        } else if index == 7 {
            section_header32(
                name,
                SHT_STRTAB,
                0,
                0,
                l.strtab_offset as u32,
                self.strtab_data().len() as u32,
                0,
                0,
                1,
                0,
            )
        } else {
            section_header32(
                name,
                SHT_STRTAB,
                0,
                0,
                l.shstrtab_offset as u32,
                string_table_data(section_names()).len() as u32,
                0,
                0,
                1,
                0,
            )
        }
    }

    /// The section header table with the padding before it: the null
    /// header, then the headers of sections 1 to 8.
    #[verifier::opaque]
    pub open spec fn section_headers(self) -> Seq<u8> {
        let l = self.layout();
        padding(l.shstrtab_offset + string_table_data(section_names()).len(), 4) + zeros(40)
            + self.section_header(1) + self.section_header(2) + self.section_header(3)
            + self.section_header(4) + self.section_header(5) + self.section_header(6)
            + self.section_header(7) + self.section_header(8)
    }

    /// The name of every symbol is found in the string table at the offset
    /// that the entry of the symbol holds, and the name of every section in
    /// the section name table at the offset that its header holds.
    pub open spec fn names_resolve(self) -> bool {
        &&& forall|k: int|
            0 <= k < self.symbols.len() ==> stored_at(
                self.strtab_data(),
                string_table_offset(self.strings(), #[trigger] symbol_string_index(self.symbols, k)),
                encode_utf8(self.symbols[k].name),
            )
        &&& forall|i: int|
            0 <= i < section_names().len() ==> stored_at(
                string_table_data(section_names()),
                string_table_offset(section_names(), i as nat),
                #[trigger] section_names()[i],
            )
    }

    /// The bytes of the ELF file.
    pub open spec fn elf_file(self) -> Seq<u8> {
        self.headers() + self.bodies() + self.symtab() + self.strtab_data() + self.relocations()
            + string_table_data(section_names()) + self.section_headers()
    }
}

/// The entries of the first `count` relocations.
pub open spec fn rel_entries(relocs: Seq<ElfRel>, count: nat) -> Seq<u8>
    decreases count,
{
    if count == 0 {
        Seq::empty()
    } else {
        rel_entries(relocs, (count - 1) as nat) + rel32(
            relocs[count - 1].r_offset,
            relocs[count - 1].r_sym,
            relocs[count - 1].r_type,
        )
    }
}

/// A list of relocation entries takes eight bytes for each.
pub proof fn lemma_rel_entries_len(relocs: Seq<ElfRel>, count: nat)
    ensures
        rel_entries(relocs, count).len() == 8 * count,
    decreases count,
{
    if count > 0 {
        lemma_rel_entries_len(relocs, (count - 1) as nat);
    }
}

/// A list of symbol entries takes sixteen bytes for each.
pub proof fn lemma_symbol_entries_len(plan: PlanSpec, count: nat)
    ensures
        plan.symbol_entries(count).len() == 16 * count,
    decreases count,
{
    if count > 0 {
        lemma_symbol_entries_len(plan, (count - 1) as nat);
    }
}

/// Each part of the file ends where the next one begins, and the file ends
/// where its last part ends: what is written is what the layout reserves.
pub proof fn lemma_part_lengths(plan: PlanSpec)
    ensures
        ({
            let l = plan.layout();
            let names = string_table_data(section_names());
            &&& plan.headers().len() == 116
            &&& 116 + plan.bodies().len() == l.autoload_offset + plan.autoload.len()
            &&& l.autoload_offset + plan.autoload.len() + plan.symtab().len() == l.strtab_offset
            &&& l.strtab_offset + plan.strtab_data().len() + plan.relocations().len()
                == l.shstrtab_offset
            &&& l.shstrtab_offset + names.len() + plan.section_headers().len() == l.total
            &&& plan.elf_file().len() == l.total
        }),
{
    reveal(PlanSpec::headers);
    reveal(PlanSpec::section_header);
    reveal(PlanSpec::bodies);
    reveal(PlanSpec::symtab);
    reveal(PlanSpec::relocations);
    reveal(PlanSpec::section_headers);
    lemma_record_sizes();
    lemma_rel_entries_len(plan.code_relocs, plan.code_relocs.len());
    lemma_rel_entries_len(plan.data_relocs, plan.data_relocs.len());
    lemma_symbol_entries_len(plan, plan.symbols.len());
}

} // verus!
