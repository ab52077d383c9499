//! What the ELF file of a module is made of: the contents of its sections,
//! its symbols and its relocations, as plain values.
use crate::elf_format::{R_386_32, R_386_PC32};
use crate::error::NLMError;
use crate::fixup::{fixed_up_image, NLM_CODE_VADDR, NLM_DATA_VADDR};
use crate::header::NLMHeader;
use crate::tables::{autoload_at, exports_at, externals_at, ExportSpec, ExternalSpec, NLMExternalRef};
use vstd::prelude::*;
use vstd::utf8::encode_utf8;

verus! {

/// Info byte of a local function symbol: the binding, local (0), in the
/// upper four bits and the type, function (2), in the lower four.
pub const INFO_LOCAL_FUNC: u8 = 0x02;

/// Info byte of a global symbol without type: the binding, global (1), in
/// the upper four bits and the type, none (0), in the lower four.
pub const INFO_GLOBAL_NOTYPE: u8 = 0x10;

/// Room granted to the parts of the file whose size does not depend on the
/// module: the headers, the section name table, the null symbol and the
/// padding between the parts.
pub const ELF_OVERHEAD: u64 = 1024;

/// Largest size that 32-bit file offsets can address.
pub const ELF_MAX_SIZE: u64 = 0xffff_ffff;

/// Number of symbol indices that a relocation entry can express.
pub const ELF_MAX_SYMBOLS: u64 = 0x100_0000;

/// The section that a symbol is defined in.
#[derive(Debug, Clone, Copy, PartialEq, Eq, Structural)]
pub enum ElfSegment {
    Code,
    Data,
}

/// A symbol of the ELF file. A symbol without section is undefined.
#[derive(Debug)]
pub struct ElfSymbol {
    pub name: String,
    pub section: Option<ElfSegment>,
    pub value: u32,
    pub info: u8,
}

/// A relocation without addend: the address to patch, the index of the
/// symbol in the symbol table, and the relocation type.
#[derive(Debug, Clone, Copy, PartialEq, Eq, Structural)]
pub struct ElfRel {
    pub r_offset: u32,
    pub r_sym: u32,
    pub r_type: u32,
}

/// Everything that goes into the ELF file of a module.
#[derive(Debug)]
pub struct ElfPlan {
    /// Entry point: the address of the start procedure.
    pub entry: u32,
    /// Contents of `.text`: the code segment with its fixups applied.
    pub code: Vec<u8>,
    /// Contents of `.data`: the data segment with its fixups applied.
    pub data: Vec<u8>,
    /// Contents of `.nlm.autoload`: the autoload names, each followed by a
    /// NUL byte.
    pub autoload: Vec<u8>,
    /// The symbol table without the null symbol: the local symbols, then
    /// the global ones.
    pub symbols: Vec<ElfSymbol>,
    /// Number of local symbols, the null symbol included.
    pub num_local: u32,
    /// Contents of `.rel.text`.
    pub code_relocs: Vec<ElfRel>,
    /// Contents of `.rel.data`.
    pub data_relocs: Vec<ElfRel>,
}

/// What an [`ElfSymbol`] stands for.
pub struct SymbolSpec {
    pub name: Seq<char>,
    pub section: Option<ElfSegment>,
    pub value: u32,
    pub info: u8,
}

/// What an [`ElfPlan`] stands for.
pub struct PlanSpec {
    pub entry: u32,
    pub code: Seq<u8>,
    pub data: Seq<u8>,
    pub autoload: Seq<u8>,
    pub symbols: Seq<SymbolSpec>,
    pub num_local: u32,
    pub code_relocs: Seq<ElfRel>,
    pub data_relocs: Seq<ElfRel>,
}

impl View for ElfSymbol {
    type V = SymbolSpec;

    open spec fn view(&self) -> SymbolSpec {
        SymbolSpec { name: self.name@, section: self.section, value: self.value, info: self.info }
    }
}

/// What a list of symbols stands for.
pub open spec fn symbols_view(list: Seq<ElfSymbol>) -> Seq<SymbolSpec> {
    list.map_values(|s: ElfSymbol| s@)
}

impl View for ElfPlan {
    type V = PlanSpec;

    open spec fn view(&self) -> PlanSpec {
        PlanSpec {
            entry: self.entry,
            code: self.code@,
            data: self.data@,
            autoload: self.autoload@,
            symbols: symbols_view(self.symbols@),
            num_local: self.num_local,
            code_relocs: self.code_relocs@,
            data_relocs: self.data_relocs@,
        }
    }
}

/// `offset` bytes above the load address `vaddr`, modulo 2^32.
pub open spec fn address(vaddr: u32, offset: u32) -> u32 {
    ((vaddr + offset) % 0x1_0000_0000) as u32
}

/// A name can be stored in a string table: its bytes hold no NUL.
pub open spec fn name_storable(name: Seq<char>) -> bool {
    !encode_utf8(name).contains(0u8)
}

/// The symbol of an export: a local function symbol in the section of the
/// export, at the address of the export.
pub open spec fn export_symbol(export: ExportSpec) -> SymbolSpec {
    match export {
        ExportSpec::Code(name, value) => SymbolSpec {
            name,
            section: Some(ElfSegment::Code),
            value: address(NLM_CODE_VADDR, value),
            info: INFO_LOCAL_FUNC,
        },
        ExportSpec::Data(name, value) => SymbolSpec {
            name,
            section: Some(ElfSegment::Data),
            value: address(NLM_DATA_VADDR, value),
            info: INFO_LOCAL_FUNC,
        },
    }
}

/// The symbol of an entry point: a local function symbol in the code
/// section.
pub open spec fn entry_symbol(name: Seq<char>, offset: u32) -> SymbolSpec {
    SymbolSpec {
        name,
        section: Some(ElfSegment::Code),
        value: address(NLM_CODE_VADDR, offset),
        info: INFO_LOCAL_FUNC,
    }
}

/// The symbol of an external: an undefined global symbol.
pub open spec fn external_symbol(external: ExternalSpec) -> SymbolSpec {
    SymbolSpec { name: external.name, section: None, value: 0, info: INFO_GLOBAL_NOTYPE }
}

/// Symbol number `i` of the table, the null symbol not counted: first the
/// exports, then `nlm_start`, `nlm_terminate` and `nlm_check`, then the
/// externals.
pub open spec fn plan_symbol(
    i: int,
    exports: Seq<ExportSpec>,
    header: NLMHeader,
    externals: Seq<ExternalSpec>,
) -> SymbolSpec {
    if i < exports.len() {
        export_symbol(exports[i])
    } else if i == exports.len() {
        entry_symbol("nlm_start"@, header.start_offs)
    } else if i == exports.len() + 1 {
        entry_symbol("nlm_terminate"@, header.term_offs)
    } else if i == exports.len() + 2 {
        entry_symbol("nlm_check"@, header.check_offs)
    } else {
        external_symbol(externals[i - exports.len() - 3])
    }
}

/// The symbol table, the null symbol not counted.
pub open spec fn plan_symbols(
    exports: Seq<ExportSpec>,
    header: NLMHeader,
    externals: Seq<ExternalSpec>,
) -> Seq<SymbolSpec> {
    Seq::new(
        exports.len() + 3 + externals.len(),
        |i: int| plan_symbol(i, exports, header, externals),
    )
}

/// The relocation that a reference gives rise to in the section it lies in,
/// against symbol number `sym`: a PC-relative one for a relative reference,
/// an absolute one for an absolute reference. `None` for a reference from
/// the other section.
pub open spec fn reloc_of(reference: NLMExternalRef, sym: u32, from_code: bool) -> Option<ElfRel> {
    match reference {
        NLMExternalRef::RelRefFromCode(at) => if from_code {
            Some(ElfRel { r_offset: address(NLM_CODE_VADDR, at), r_sym: sym, r_type: R_386_PC32 })
        } else {
            None
        },
        NLMExternalRef::AbsRefFromCode(at) => if from_code {
            Some(ElfRel { r_offset: address(NLM_CODE_VADDR, at), r_sym: sym, r_type: R_386_32 })
        } else {
            None
        },
        NLMExternalRef::RelRefFromData(at) => if from_code {
            None
        } else {
            Some(ElfRel { r_offset: address(NLM_DATA_VADDR, at), r_sym: sym, r_type: R_386_PC32 })
        },
        NLMExternalRef::AbsRefFromData(at) => if from_code {
            None
        } else {
            Some(ElfRel { r_offset: address(NLM_DATA_VADDR, at), r_sym: sym, r_type: R_386_32 })
        },
    }
}

/// The relocations of the first `count` references of one external.
pub open spec fn relocs_of_refs(
    refs: Seq<NLMExternalRef>,
    count: nat,
    sym: u32,
    from_code: bool,
) -> Seq<ElfRel>
    decreases count,
{
    if count == 0 {
        Seq::empty()
    } else {
        let before = relocs_of_refs(refs, (count - 1) as nat, sym, from_code);
        match reloc_of(refs[count - 1], sym, from_code) {
            Some(rel) => before.push(rel),
            None => before,
        }
    }
}

/// The relocations of one section for the first `count` externals, whose
/// symbols follow the `num_local` local ones in table order.
pub open spec fn relocs_of(
    externals: Seq<ExternalSpec>,
    count: nat,
    num_local: u32,
    from_code: bool,
) -> Seq<ElfRel>
    decreases count,
{
    if count == 0 {
        Seq::empty()
    } else {
        relocs_of(externals, (count - 1) as nat, num_local, from_code) + relocs_of_refs(
            externals[count - 1].refs,
            externals[count - 1].refs.len(),
            (num_local + count - 1) as u32,
            from_code,
        )
    }
}

/// The contents of the autoload section for the first `count` names: each
/// name followed by a NUL byte.
pub open spec fn autoload_bytes(names: Seq<Seq<char>>, count: nat) -> Seq<u8>
    decreases count,
{
    if count == 0 {
        Seq::empty()
    } else {
        autoload_bytes(names, (count - 1) as nat) + encode_utf8(names[count - 1]) + seq![0u8]
    }
}

/// The room that the names of the first `count` symbols take in a string
/// table when none is shared.
pub open spec fn names_weight(symbols: Seq<SymbolSpec>, count: nat) -> nat
    decreases count,
{
    if count == 0 {
        0
    } else {
        names_weight(symbols, (count - 1) as nat) + encode_utf8(symbols[count - 1].name).len() + 1
    }
}

/// The bytes of segment `offs..offs + len` of `image`, if it lies inside.
pub open spec fn segment_of(image: Seq<u8>, offs: u32, len: u32) -> Option<Seq<u8>> {
    if offs + len > image.len() {
        None
    } else {
        Some(image.subrange(offs as int, offs + len))
    }
}

impl PlanSpec {
    /// An upper bound for the size of the file.
    pub open spec fn weight(self) -> nat {
        self.code.len() + self.data.len() + self.autoload.len() + 16 * self.symbols.len()
            + names_weight(self.symbols, self.symbols.len()) + 8 * self.code_relocs.len() + 8
            * self.data_relocs.len() + ELF_OVERHEAD as nat
    }

    /// The file can be addressed with 32-bit offsets and its symbols with
    /// the 24-bit indices of relocation entries.
    pub open spec fn fits(self) -> bool {
        self.symbols.len() + 1 < ELF_MAX_SYMBOLS && self.weight() <= ELF_MAX_SIZE
    }

    /// Every name can be stored, every relocation expressed, and the file
    /// addressed.
    pub open spec fn wf(self) -> bool {
        &&& forall|i: int|
            0 <= i < self.symbols.len() ==> name_storable(#[trigger] self.symbols[i].name)
        &&& forall|i: int|
            0 <= i < self.code_relocs.len() ==> (#[trigger] self.code_relocs[i]).r_sym
                < ELF_MAX_SYMBOLS && self.code_relocs[i].r_type < 0x100
        &&& forall|i: int|
            0 <= i < self.data_relocs.len() ==> (#[trigger] self.data_relocs[i]).r_sym
                < ELF_MAX_SYMBOLS && self.data_relocs[i].r_type < 0x100
        &&& self.fits()
    }
}

/// The plan made of the parts of a module.
pub open spec fn assembled(
    header: NLMHeader,
    code: Seq<u8>,
    data: Seq<u8>,
    autoload: Seq<Seq<char>>,
    exports: Seq<ExportSpec>,
    externals: Seq<ExternalSpec>,
) -> Result<PlanSpec, NLMError> {
    let symbols = plan_symbols(exports, header, externals);
    let num_local = (exports.len() + 4) as u32;
    let plan = PlanSpec {
        entry: address(NLM_CODE_VADDR, header.start_offs),
        code,
        data,
        autoload: autoload_bytes(autoload, autoload.len()),
        symbols,
        num_local,
        code_relocs: relocs_of(externals, externals.len(), num_local, true),
        data_relocs: relocs_of(externals, externals.len(), num_local, false),
    };
    if exists|i: int| 0 <= i < symbols.len() && !name_storable(#[trigger] symbols[i].name) {
        Err(NLMError::InvalidName)
    } else if !plan.fits() {
        Err(NLMError::TooLarge)
    } else {
        Ok(plan)
    }
}

/// The plan of the module with header `header` and image `image`.
///
/// The fixups are applied to a copy of the image, from which the code and
/// data sections are cut. The tables are read from the image as it is. The
/// first failure decides, in this order: the fixup table, a fixup, the
/// externals table, the segments, the autoload list, the exports table, a
/// name, the size.
pub open spec fn plan_of(header: NLMHeader, image: Seq<u8>) -> Result<PlanSpec, NLMError> {
    match fixed_up_image(
        image,
        header.fixup_offs,
        header.fixup_len,
        header.code_offs,
        header.data_offs,
    ) {
        Err(e) => Err(e),
        Ok(fixed) => match externals_at(
            image,
            header.externals_offs as int,
            header.externals_len as nat,
        ) {
            Err(e) => Err(e),
            Ok((externals, end)) => {
                let code = segment_of(fixed, header.code_offs, header.code_len);
                let data = segment_of(fixed, header.data_offs, header.data_len);
                if code is None || data is None {
                    Err(NLMError::SegmentOutOfRange)
                } else {
                    match autoload_at(
                        image,
                        header.autoload_offs as int,
                        header.autoload_len as nat,
                    ) {
                        Err(e) => Err(e),
                        Ok((autoload, end)) => match exports_at(
                            image,
                            header.exported_offs as int,
                            header.exported_len as nat,
                        ) {
                            Err(e) => Err(e),
                            Ok((exports, end)) => assembled(
                                header,
                                code->0,
                                data->0,
                                autoload,
                                exports,
                                externals,
                            ),
                        },
                    }
                }
            },
        }
    }
}

} // verus!
