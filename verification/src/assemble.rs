//! Building the plan of the ELF file from an NLM image.
use crate::elf_format::{R_386_32, R_386_PC32};
use crate::error::NLMError;
use crate::fixup::{NLM_CODE_VADDR, NLM_DATA_VADDR};
use crate::header::NLMHeader;
use crate::nlm::NLM;
use crate::plan::{
    address, assembled, autoload_bytes, entry_symbol, export_symbol, name_storable,
    names_weight, plan_of, plan_symbols, reloc_of, relocs_of, relocs_of_refs, segment_of,
    symbols_view, ElfPlan, ElfRel, ElfSegment, ElfSymbol, SymbolSpec, ELF_MAX_SIZE,
    ELF_MAX_SYMBOLS, ELF_OVERHEAD, INFO_GLOBAL_NOTYPE, INFO_LOCAL_FUNC,
};
use crate::fixup::fixed_up_image;
use crate::tables::{
    autoload_at, exports_at, exports_view, externals_at, externals_view, names_view, ExportSpec,
    ExternalSpec, NLMExport, NLMExternal, NLMExternalRef,
};
use vstd::prelude::*;
use vstd::slice::{slice_subrange, slice_to_vec};
use vstd::utf8::{encode_utf8, is_ascii_chars, is_ascii_chars_encode_utf8};

verus! {

/// `offset` bytes above the load address `vaddr`, modulo 2^32.
fn address_of(vaddr: u32, offset: u32) -> (a: u32)
    ensures
        a == address(vaddr, offset),
{
    vaddr.wrapping_add(offset)
}

/// Whether a name holds no NUL byte.
pub fn name_is_storable(name: &String) -> (ok: bool)
    ensures
        ok == name_storable(name@),
{
    let bytes = name.as_str().as_bytes();
    let mut i: usize = 0;
    while i < bytes.len()
        invariant
            i <= bytes.len(),
            bytes@ == encode_utf8(name@),
            forall|k: int| 0 <= k < i ==> bytes@[k] != 0,
        decreases bytes.len() - i,
    {
        if bytes[i] == 0 {
            assert(bytes@.contains(0u8));
            return false;
        }
        i += 1;
    }
    true
}

/// The contents of the autoload section: each name followed by a NUL byte.
pub fn autoload_content(names: &Vec<String>) -> (content: Vec<u8>)
    ensures
        content@ == autoload_bytes(names_view(names@), names@.len()),
{
    let mut content: Vec<u8> = Vec::new();
    let mut i: usize = 0;
    while i < names.len()
        invariant
            i <= names.len(),
            content@ == autoload_bytes(names_view(names@), i as nat),
        decreases names.len() - i,
    {
        let ghost before = content@;
        content.extend_from_slice(names[i].as_str().as_bytes());
        content.push(0u8);
        proof {
            assert(names_view(names@)[i as int] == names@[i as int]@);
            assert(content@ =~= before + encode_utf8(names@[i as int]@) + seq![0u8]);
        }
        i += 1;
    }
    content
}

/// A copy of the segment `offs..offs + len` of `image`, if it lies inside.
pub fn cut_segment(image: &Vec<u8>, offs: u32, len: u32) -> (r: Option<Vec<u8>>)
    ensures
        r is Some <==> segment_of(image@, offs, len) is Some,
        r is Some ==> r->0@ == segment_of(image@, offs, len)->0,
{
    let end: u64 = offs as u64 + len as u64;
    if end > image.len() as u64 {
        return None;
    }
    Some(slice_to_vec(slice_subrange(image.as_slice(), offs as usize, end as usize)))
}

/// The symbol of an export.
fn symbol_of_export(export: &NLMExport) -> (symbol: ElfSymbol)
    ensures
        symbol@ == export_symbol(export@),
{
    match export {
        NLMExport::Code(name, value) => ElfSymbol {
            name: name.clone(),
            section: Some(ElfSegment::Code),
            value: address_of(NLM_CODE_VADDR, *value),
            info: INFO_LOCAL_FUNC,
        },
        NLMExport::Data(name, value) => ElfSymbol {
            name: name.clone(),
            section: Some(ElfSegment::Data),
            value: address_of(NLM_DATA_VADDR, *value),
            info: INFO_LOCAL_FUNC,
        },
    }
}

/// The symbol of an entry point.
fn symbol_of_entry(name: &str, offset: u32) -> (symbol: ElfSymbol)
    ensures
        symbol@ == entry_symbol(name@, offset),
{
    ElfSymbol {
        name: name.to_owned(),
        section: Some(ElfSegment::Code),
        value: address_of(NLM_CODE_VADDR, offset),
        info: INFO_LOCAL_FUNC,
    }
}

/// The names of the entry points hold no NUL byte.
proof fn lemma_entry_names_storable()
    ensures
        name_storable("nlm_start"@),
        name_storable("nlm_terminate"@),
        name_storable("nlm_check"@),
{
    reveal_strlit("nlm_start");
    reveal_strlit("nlm_terminate");
    reveal_strlit("nlm_check");
    assert(is_ascii_chars("nlm_start"@));
    assert(is_ascii_chars("nlm_terminate"@));
    assert(is_ascii_chars("nlm_check"@));
    is_ascii_chars_encode_utf8("nlm_start"@);
    is_ascii_chars_encode_utf8("nlm_terminate"@);
    is_ascii_chars_encode_utf8("nlm_check"@);
}

/// The symbols of a module, the null symbol not counted: the exports, the
/// three entry points, the externals. Fails with `InvalidName` exactly when
/// one of their names holds a NUL byte.
pub fn collect_symbols(
    exports: &Vec<NLMExport>,
    header: &NLMHeader,
    externals: &Vec<NLMExternal>,
) -> (r: Result<Vec<ElfSymbol>, NLMError>)
    ensures
        ({
            let symbols = plan_symbols(exports_view(exports@), *header, externals_view(externals@));
            if exists|i: int| 0 <= i < symbols.len() && !name_storable(#[trigger] symbols[i].name) {
                r is Err && r->Err_0 == NLMError::InvalidName
            } else {
                r is Ok && symbols_view(r->Ok_0@) == symbols
            }
        }),
{
    let ghost want = plan_symbols(exports_view(exports@), *header, externals_view(externals@));
    let mut symbols: Vec<ElfSymbol> = Vec::new();
    // Collect all local symbols, these are the exported symbols
    let mut i: usize = 0;
    while i < exports.len()
        invariant
            i <= exports.len(),
            want == plan_symbols(exports_view(exports@), *header, externals_view(externals@)),
            symbols@.len() == i,
            forall|k: int| 0 <= k < i ==> (#[trigger] symbols@[k])@ == want[k],
            forall|k: int| 0 <= k < i ==> name_storable(#[trigger] want[k].name),
        decreases exports.len() - i,
    {
        let symbol = symbol_of_export(&exports[i]);
        assert(exports_view(exports@)[i as int] == exports@[i as int]@);
        assert(symbol@ == want[i as int]);
        if !name_is_storable(&symbol.name) {
            assert(0 <= i < want.len() && !name_storable(want[i as int].name));
            return Err(NLMError::InvalidName);
        }
        symbols.push(symbol);
        i += 1;
    }
    // Add our custom symbols
    proof {
        lemma_entry_names_storable();
    }
    symbols.push(symbol_of_entry("nlm_start", header.start_offs));
    symbols.push(symbol_of_entry("nlm_terminate", header.term_offs));
    symbols.push(symbol_of_entry("nlm_check", header.check_offs));
    // Now grab the externals, these will be global external symbols
    let first = symbols.len();
    let mut n: usize = 0;
    while n < externals.len()
        invariant
            n <= externals.len(),
            first == exports@.len() + 3,
            want == plan_symbols(exports_view(exports@), *header, externals_view(externals@)),
            symbols@.len() == first + n,
            forall|k: int| 0 <= k < first + n ==> (#[trigger] symbols@[k])@ == want[k],
            forall|k: int| 0 <= k < first + n ==> name_storable(#[trigger] want[k].name),
        decreases externals.len() - n,
    {
        let symbol = ElfSymbol {
            name: externals[n].name.clone(),
            section: None,
            value: 0,
            info: INFO_GLOBAL_NOTYPE,
        };
        assert(externals_view(externals@)[n as int] == externals@[n as int]@);
        assert(symbol@ == want[first + n]);
        if !name_is_storable(&symbol.name) {
            assert(0 <= first + n < want.len() && !name_storable(want[first + n].name));
            return Err(NLMError::InvalidName);
        }
        symbols.push(symbol);
        n += 1;
    }
    assert(symbols_view(symbols@) =~= want);
    Ok(symbols)
}

/// The relocation that a reference gives rise to in the section it lies in.
fn reloc_for(reference: &NLMExternalRef, sym: u32, from_code: bool) -> (r: Option<ElfRel>)
    ensures
        r == reloc_of(*reference, sym, from_code),
{
    match reference {
        NLMExternalRef::RelRefFromCode(rel) => if from_code {
            Some(
                ElfRel { r_offset: address_of(NLM_CODE_VADDR, *rel), r_sym: sym, r_type: R_386_PC32 },
            )
        } else {
            None
        },
        NLMExternalRef::AbsRefFromCode(abs) => if from_code {
            Some(ElfRel { r_offset: address_of(NLM_CODE_VADDR, *abs), r_sym: sym, r_type: R_386_32 })
        } else {
            None
        },
        NLMExternalRef::RelRefFromData(rel) => if from_code {
            None
        } else {
            Some(
                ElfRel { r_offset: address_of(NLM_DATA_VADDR, *rel), r_sym: sym, r_type: R_386_PC32 },
            )
        },
        NLMExternalRef::AbsRefFromData(abs) => if from_code {
            None
        } else {
            Some(ElfRel { r_offset: address_of(NLM_DATA_VADDR, *abs), r_sym: sym, r_type: R_386_32 })
        },
    }
}

/// Every relocation of a reference list is against the symbol of its
/// external and of one of the two types.
pub proof fn lemma_relocs_of_refs_shape(
    refs: Seq<NLMExternalRef>,
    count: nat,
    sym: u32,
    from_code: bool,
)
    ensures
        relocs_of_refs(refs, count, sym, from_code).len() <= count,
        forall|k: int|
            0 <= k < relocs_of_refs(refs, count, sym, from_code).len() ==> {
                let rel = #[trigger] relocs_of_refs(refs, count, sym, from_code)[k];
                rel.r_sym == sym && (rel.r_type == R_386_32 || rel.r_type == R_386_PC32)
            },
    decreases count,
{
    if count > 0 {
        lemma_relocs_of_refs_shape(refs, (count - 1) as nat, sym, from_code);
    }
}

/// Every relocation is against the symbol of an external: its symbol index
/// is at least `num_local` and below `num_local` plus the number of
/// externals.
pub proof fn lemma_relocs_of_shape(
    externals: Seq<ExternalSpec>,
    count: nat,
    num_local: u32,
    from_code: bool,
)
    requires
        count <= externals.len(),
        num_local + externals.len() <= u32::MAX,
    ensures
        forall|k: int|
            0 <= k < relocs_of(externals, count, num_local, from_code).len() ==> {
                let rel = #[trigger] relocs_of(externals, count, num_local, from_code)[k];
                num_local <= rel.r_sym < num_local + count && (rel.r_type == R_386_32 || rel.r_type
                    == R_386_PC32)
            },
    decreases count,
{
    if count > 0 {
        let refs = externals[count - 1].refs;
        let sym = (num_local + count - 1) as u32;
        let before = relocs_of(externals, (count - 1) as nat, num_local, from_code);
        let added = relocs_of_refs(refs, refs.len(), sym, from_code);
        lemma_relocs_of_shape(externals, (count - 1) as nat, num_local, from_code);
        lemma_relocs_of_refs_shape(refs, refs.len(), sym, from_code);
        assert forall|k: int| 0 <= k < (before + added).len() implies {
            let rel = #[trigger] (before + added)[k];
            num_local <= rel.r_sym < num_local + count && (rel.r_type == R_386_32 || rel.r_type
                == R_386_PC32)
        } by {
            if k < before.len() {
                assert((before + added)[k] == before[k]);
            } else {
                assert((before + added)[k] == added[k - before.len()]);
            }
        }
    }
}

/// The relocations of one section: for each external in table order, the
/// relocations of its references from that section, against the symbol of
/// the external.
pub fn relocs_for(externals: &Vec<NLMExternal>, num_local: u32, from_code: bool) -> (relocs: Vec<
    ElfRel,
>)
    requires
        num_local + externals@.len() <= u32::MAX,
    ensures
        relocs@ == relocs_of(externals_view(externals@), externals@.len(), num_local, from_code),
{
    let ghost spec = externals_view(externals@);
    let mut relocs: Vec<ElfRel> = Vec::new();
    let mut n: usize = 0;
    while n < externals.len()
        invariant
            n <= externals.len(),
            num_local + externals@.len() <= u32::MAX,
            spec == externals_view(externals@),
            relocs@ == relocs_of(spec, n as nat, num_local, from_code),
        decreases externals.len() - n,
    {
        let ext = &externals[n];
        let r_sym = num_local + n as u32;
        let ghost before = relocs@;
        assert(spec[n as int] == externals@[n as int]@);
        let mut j: usize = 0;
        while j < ext.refs.len()
            invariant
                j <= ext.refs.len(),
                relocs@ == before + relocs_of_refs(ext.refs@, j as nat, r_sym, from_code),
            decreases ext.refs.len() - j,
        {
            let ghost inner = relocs_of_refs(ext.refs@, j as nat, r_sym, from_code);
            match reloc_for(&ext.refs[j], r_sym, from_code) {
                Some(rel) => {
                    relocs.push(rel);
                    assert(relocs@ =~= before + inner.push(rel));
                },
                None => {},
            }
            j += 1;
        }
        n += 1;
    }
    relocs
}

/// The room that the names of `symbols` take in a string table when none is
/// shared, or `None` when that is more than `limit`.
fn names_room(symbols: &Vec<ElfSymbol>, limit: u64) -> (r: Option<u64>)
    ensures
        r is Some <==> names_weight(symbols_view(symbols@), symbols@.len()) <= limit,
        r is Some ==> r->0 == names_weight(symbols_view(symbols@), symbols@.len()),
{
    let ghost spec = symbols_view(symbols@);
    let mut total: u64 = 0;
    let mut i: usize = 0;
    while i < symbols.len()
        invariant
            i <= symbols.len(),
            spec == symbols_view(symbols@),
            total == names_weight(spec, i as nat),
            total <= limit,
        decreases symbols.len() - i,
    {
        let len = symbols[i].name.as_str().as_bytes().len() as u64;
        assert(spec[i as int] == symbols@[i as int]@);
        if len >= limit - total {
            proof {
                lemma_names_weight_grows(spec, (i + 1) as nat, symbols@.len() as nat);
            }
            return None;
        }
        total = total + len + 1;
        i += 1;
    }
    Some(total)
}

/// The room that names take grows with their number.
pub proof fn lemma_names_weight_grows(symbols: Seq<SymbolSpec>, count: nat, more: nat)
    requires
        count <= more,
    ensures
        names_weight(symbols, count) <= names_weight(symbols, more),
    decreases more,
{
    if count < more {
        lemma_names_weight_grows(symbols, count, (more - 1) as nat);
    }
}

/// In a plan made of the parts of a module, the symbols before `num_local`,
/// the null symbol counted, are local and the others global and undefined;
/// and every relocation refers to one of the latter.
pub proof fn lemma_assembled_symbols(
    header: NLMHeader,
    code: Seq<u8>,
    data: Seq<u8>,
    autoload: Seq<Seq<char>>,
    exports: Seq<ExportSpec>,
    externals: Seq<ExternalSpec>,
)
    requires
        assembled(header, code, data, autoload, exports, externals) is Ok,
    ensures
        ({
            let plan = assembled(header, code, data, autoload, exports, externals)->Ok_0;
            &&& plan.wf()
            &&& 1 <= plan.num_local <= plan.symbols.len() + 1
            &&& forall|i: int|
                0 <= i < plan.num_local - 1 ==> (#[trigger] plan.symbols[i]).info
                    == INFO_LOCAL_FUNC && plan.symbols[i].section is Some
            &&& forall|i: int|
                plan.num_local - 1 <= i < plan.symbols.len() ==> (#[trigger] plan.symbols[i]).info
                    == INFO_GLOBAL_NOTYPE && plan.symbols[i].section is None
            &&& forall|k: int|
                0 <= k < plan.code_relocs.len() ==> plan.num_local <= (
                #[trigger] plan.code_relocs[k]).r_sym <= plan.symbols.len()
            &&& forall|k: int|
                0 <= k < plan.data_relocs.len() ==> plan.num_local <= (
                #[trigger] plan.data_relocs[k]).r_sym <= plan.symbols.len()
        }),
{
    let plan = assembled(header, code, data, autoload, exports, externals)->Ok_0;
    lemma_relocs_of_shape(externals, externals.len(), plan.num_local, true);
    lemma_relocs_of_shape(externals, externals.len(), plan.num_local, false);
}

/// In the plan of a module, `num_local` counts the local symbols, the null
/// symbol included, and every relocation refers to an undefined global
/// symbol.
pub proof fn lemma_plan_symbols(header: NLMHeader, image: Seq<u8>)
    requires
        plan_of(header, image) is Ok,
    ensures
        ({
            let plan = plan_of(header, image)->Ok_0;
            &&& forall|i: int|
                0 <= i < plan.symbols.len() ==> ((#[trigger] plan.symbols[i]).info
                    == INFO_LOCAL_FUNC <==> i + 1 < plan.num_local)
            &&& forall|k: int|
                0 <= k < plan.code_relocs.len() ==> {
                    let sym = (#[trigger] plan.code_relocs[k]).r_sym;
                    1 <= sym <= plan.symbols.len() && plan.symbols[sym - 1].section is None
                        && plan.symbols[sym - 1].info == INFO_GLOBAL_NOTYPE
                }
            &&& forall|k: int|
                0 <= k < plan.data_relocs.len() ==> {
                    let sym = (#[trigger] plan.data_relocs[k]).r_sym;
                    1 <= sym <= plan.symbols.len() && plan.symbols[sym - 1].section is None
                        && plan.symbols[sym - 1].info == INFO_GLOBAL_NOTYPE
                }
        }),
{
    let fixed = fixed_up_image(
        image,
        header.fixup_offs,
        header.fixup_len,
        header.code_offs,
        header.data_offs,
    )->Ok_0;
    let externals = externals_at(
        image,
        header.externals_offs as int,
        header.externals_len as nat,
    )->Ok_0.0;
    let autoload = autoload_at(
        image,
        header.autoload_offs as int,
        header.autoload_len as nat,
    )->Ok_0.0;
    let exports = exports_at(
        image,
        header.exported_offs as int,
        header.exported_len as nat,
    )->Ok_0.0;
    let code = segment_of(fixed, header.code_offs, header.code_len)->0;
    let data = segment_of(fixed, header.data_offs, header.data_len)->0;
    lemma_assembled_symbols(header, code, data, autoload, exports, externals);
}

/// The entry point of a plan lies inside the code section, provided that the
/// start procedure lies inside the code segment and the code section ends
/// below 2^32.
pub proof fn lemma_entry_in_code(header: NLMHeader, image: Seq<u8>)
    requires
        plan_of(header, image) is Ok,
        header.start_offs < header.code_len,
        NLM_CODE_VADDR + header.code_len <= 0x1_0000_0000,
    ensures
        ({
            let plan = plan_of(header, image)->Ok_0;
            NLM_CODE_VADDR <= plan.entry < NLM_CODE_VADDR + plan.code.len()
        }),
{
}

impl ElfPlan {
    /// Whether the file can be addressed with 32-bit offsets and its symbols
    /// with the 24-bit indices of relocation entries.
    pub fn fits(&self) -> (ok: bool)
        ensures
            ok == self@.fits(),
    {
        let limit = ELF_MAX_SIZE - ELF_OVERHEAD;
        if self.symbols.len() as u64 >= ELF_MAX_SYMBOLS - 1 {
            return false;
        }
        let mut total: u64 = 16 * (self.symbols.len() as u64);
        let names = match names_room(&self.symbols, limit) {
            None => {
                return false;
            },
            Some(names) => names,
        };
        total = total + names;
        if self.code.len() as u64 > limit {
            return false;
        }
        total = total + self.code.len() as u64;
        if self.data.len() as u64 > limit {
            return false;
        }
        total = total + self.data.len() as u64;
        if self.autoload.len() as u64 > limit {
            return false;
        }
        total = total + self.autoload.len() as u64;
        if self.code_relocs.len() as u64 > limit / 8 {
            return false;
        }
        total = total + 8 * (self.code_relocs.len() as u64);
        if self.data_relocs.len() as u64 > limit / 8 {
            return false;
        }
        total = total + 8 * (self.data_relocs.len() as u64);
        total <= limit
    }
}

impl NLM {
    /// The plan of the ELF file of the module: section contents with the
    /// fixups applied, the symbol table and the relocations of both
    /// sections.
    ///
    /// Fails with the error that [`plan_of`] gives for the image. A plan
    /// that is returned can be written.
    pub fn plan_elf(&self) -> (r: Result<ElfPlan, NLMError>)
        ensures
            match plan_of(self.header, self.data@) {
                Ok(plan) => r is Ok && r->Ok_0@ == plan && plan.wf(),
                Err(e) => r is Err && r->Err_0 == e,
            },
    {
        let nlm_data = self.apply_fixups()?;
        let externals = self.get_externals()?;
        let code = cut_segment(&nlm_data, self.header.code_offs, self.header.code_len);
        let data = cut_segment(&nlm_data, self.header.data_offs, self.header.data_len);
        let (code, data) = match (code, data) {
            (Some(code), Some(data)) => (code, data),
            _ => {
                return Err(NLMError::SegmentOutOfRange);
            },
        };
        let autoload = self.get_autoload()?;
        let autoload_content = autoload_content(&autoload);
        let exports = self.get_exports()?;
        let symbols = collect_symbols(&exports, &self.header, &externals)?;
        let ghost spec_externals = externals_view(externals@);
        let ghost want = assembled(
            self.header,
            code@,
            data@,
            names_view(autoload@),
            exports_view(exports@),
            spec_externals,
        );
        if symbols.len() as u64 >= ELF_MAX_SYMBOLS - 1 {
            return Err(NLMError::TooLarge);
        }
        let symtab_num_local = exports.len() as u32 + 4;
        proof {
            lemma_relocs_of_shape(spec_externals, spec_externals.len(), symtab_num_local, true);
            lemma_relocs_of_shape(spec_externals, spec_externals.len(), symtab_num_local, false);
        }
        let plan = ElfPlan {
            entry: address_of(NLM_CODE_VADDR, self.header.start_offs),
            code,
            data,
            autoload: autoload_content,
            symbols,
            num_local: symtab_num_local,
            code_relocs: relocs_for(&externals, symtab_num_local, true),
            data_relocs: relocs_for(&externals, symtab_num_local, false),
        };
        if !plan.fits() {
            return Err(NLMError::TooLarge);
        }
        Ok(plan)
    }
}

} // verus!
