//! Writing the ELF file of a plan with the writer of the `object` crate.
use crate::elf_format::{
    lemma_record_sizes, padding, zeros, EM_386, ET_DYN, EV_CURRENT, PF_R, PF_W, PF_X, PT_LOAD,
    SHF_ALLOC, SHF_EXECINSTR, SHF_WRITE, SHT_NOTE, SHT_PROGBITS, STV_DEFAULT,
};
use crate::error::NLMError;
use crate::fixup::{NLM_CODE_VADDR, NLM_DATA_VADDR};
use crate::image::{
    autoload_name, data_name, lemma_part_lengths, lemma_rel_entries_len,
    lemma_symbol_entries_len, placed, placed_padding, rel_data_name, rel_entries, rel_text_name,
    section_names, symbol_string_index, symbol_strings, text_name, SEGMENT_ALIGN,
};
use crate::nlm::NLM;
use crate::plan::{
    name_storable, names_weight, plan_of, ElfPlan, ElfRel, ElfSegment, PlanSpec, SymbolSpec,
};
use crate::writer::{
    add_section_name, add_string, give_up, new_writer, reserve, reserve_file_header,
    reserve_null_symbol_index,
    reserve_program_headers, reserve_relocations, reserve_section_headers, reserve_section_index,
    reserve_shstrtab, reserve_shstrtab_section_index, reserve_strtab, reserve_strtab_section_index,
    reserve_symbol_index, reserve_symtab, reserve_symtab_section_index, reserve_symtab_shndx,
    reserve_symtab_shndx_section_index, shstrtab_name, stored_at, string_id_index,
    string_table_data, string_table_offset, strtab_name, symtab_index, symtab_name,
    symtab_shndx_needed, table_add, table_index, table_size_bound, table_stores, write_align,
    write_align_relocation, write_data, write_file_header, write_null_section_header,
    write_null_symbol, write_program_header, write_relocation, write_relocation_section_header,
    write_section_header, write_shstrtab, write_shstrtab_section_header, write_strtab,
    write_strtab_section_header, write_symbol, write_symtab_section_header, write_symtab_shndx,
    write_symtab_shndx_section_header, writer_state, WriterState,
};
use object::write::elf::Writer;
use object::write::StringId;
use object::Endianness;
use vstd::prelude::*;
use vstd::utf8::{encode_utf8, is_ascii_chars, is_ascii_chars_encode_utf8};

verus! {

/// The state of a writer on which every part of the file of `plan` was
/// reserved and nothing written. The kind and the future of its buffer are
/// those of `base`.
pub open spec fn state_reserved(plan: PlanSpec, base: WriterState) -> WriterState {
    let l = plan.layout();
    WriterState {
        on_vec: base.on_vec,
        output: base.output,
        elf32_le: true,
        reserved: l.total,
        bytes: Seq::empty(),
        announced: 0,
        segment_offset: 52,
        segment_num: 2,
        section_offset: l.section_offset,
        section_num: 9,
        shstrtab: section_names(),
        shstrtab_str_id: Some(7),
        shstrtab_index: 8,
        shstrtab_offset: l.shstrtab_offset,
        shstrtab_data: string_table_data(section_names()),
        need_strtab: true,
        strtab: plan.strings(),
        strtab_str_id: Some(6),
        strtab_index: 7,
        strtab_offset: l.strtab_offset,
        strtab_data: plan.strtab_data(),
        symtab_str_id: Some(5),
        symtab_index: 6,
        symtab_offset: l.symtab_offset,
        symtab_num: plan.symbols.len() + 1,
        need_symtab_shndx: false,
        symtab_shndx_named: false,
        symtab_shndx_offset: 0,
    }
}

/// The state of a writer that has written `bytes` of the file of `plan`.
pub open spec fn state_writing(plan: PlanSpec, bytes: Seq<u8>, base: WriterState) -> WriterState {
    WriterState { announced: plan.layout().total, bytes, ..state_reserved(plan, base) }
}

/// The bytes of a literal section name.
proof fn lemma_section_name_bytes()
    ensures
        encode_utf8(".text"@) == text_name(),
        encode_utf8(".rel.text"@) == rel_text_name(),
        encode_utf8(".data"@) == data_name(),
        encode_utf8(".rel.data"@) == rel_data_name(),
        encode_utf8(".nlm.autoload"@) == autoload_name(),
{
    reveal_strlit(".text");
    reveal_strlit(".rel.text");
    reveal_strlit(".data");
    reveal_strlit(".rel.data");
    reveal_strlit(".nlm.autoload");
    assert(is_ascii_chars(".text"@));
    assert(is_ascii_chars(".rel.text"@));
    assert(is_ascii_chars(".data"@));
    assert(is_ascii_chars(".rel.data"@));
    assert(is_ascii_chars(".nlm.autoload"@));
    is_ascii_chars_encode_utf8(".text"@);
    is_ascii_chars_encode_utf8(".rel.text"@);
    is_ascii_chars_encode_utf8(".data"@);
    is_ascii_chars_encode_utf8(".rel.data"@);
    is_ascii_chars_encode_utf8(".nlm.autoload"@);
    assert(encode_utf8(".text"@) =~= text_name());
    assert(encode_utf8(".rel.text"@) =~= rel_text_name());
    assert(encode_utf8(".data"@) =~= data_name());
    assert(encode_utf8(".rel.data"@) =~= rel_data_name());
    assert(encode_utf8(".nlm.autoload"@) =~= autoload_name());
}

/// No section name holds a NUL byte.
proof fn lemma_section_names_storable()
    ensures
        !text_name().contains(0u8),
        !rel_text_name().contains(0u8),
        !data_name().contains(0u8),
        !rel_data_name().contains(0u8),
        !autoload_name().contains(0u8),
{
}

/// Adding the section names one after the other gives the section name
/// table, each name at the position of its addition.
proof fn lemma_section_name_table()
    ensures
        ({
            let t0 = Seq::<Seq<u8>>::empty();
            let t1 = table_add(t0, text_name());
            let t2 = table_add(t1, rel_text_name());
            let t3 = table_add(t2, data_name());
            let t4 = table_add(t3, rel_data_name());
            let t5 = table_add(t4, autoload_name());
            let t6 = table_add(t5, symtab_name());
            let t7 = table_add(t6, strtab_name());
            let t8 = table_add(t7, shstrtab_name());
            &&& t8 == section_names()
            &&& table_index(t0, text_name()) == 0
            &&& table_index(t1, rel_text_name()) == 1
            &&& table_index(t2, data_name()) == 2
            &&& table_index(t3, rel_data_name()) == 3
            &&& table_index(t4, autoload_name()) == 4
            &&& table_index(t5, symtab_name()) == 5
            &&& table_index(t6, strtab_name()) == 6
            &&& table_index(t7, shstrtab_name()) == 7
            &&& table_size_bound(section_names()) <= 80
        }),
{
    let a = text_name();
    let b = rel_text_name();
    let c = data_name();
    let d = rel_data_name();
    let e = autoload_name();
    let f = symtab_name();
    let g = strtab_name();
    let h = shstrtab_name();
    assert(a[1] != c[1]);
    assert(b[5] != d[5]);
    assert(b[1] != h[1]);
    assert(d[1] != h[1]);
    assert(f[2] != g[2]);
    let t0 = Seq::<Seq<u8>>::empty();
    let t1 = table_add(t0, a);
    assert(t1 =~= seq![a]);
    let t2 = table_add(t1, b);
    assert(t2 =~= seq![a, b]);
    let t3 = table_add(t2, c);
    assert(t3 =~= seq![a, b, c]);
    let t4 = table_add(t3, d);
    assert(t4 =~= seq![a, b, c, d]);
    let t5 = table_add(t4, e);
    assert(t5 =~= seq![a, b, c, d, e]);
    let t6 = table_add(t5, f);
    assert(t6 =~= seq![a, b, c, d, e, f]);
    let t7 = table_add(t6, g);
    assert(t7 =~= seq![a, b, c, d, e, f, g]);
    let t8 = table_add(t7, h);
    assert(t8 =~= seq![a, b, c, d, e, f, g, h]);
    assert(t8.drop_last() =~= t7);
    assert(t7.drop_last() =~= t6);
    assert(t6.drop_last() =~= t5);
    assert(t5.drop_last() =~= t4);
    assert(t4.drop_last() =~= t3);
    assert(t3.drop_last() =~= t2);
    assert(t2.drop_last() =~= t1);
    assert(t1.drop_last() =~= t0);
    reveal_with_fuel(table_size_bound, 10);
}

/// The section names added before the symbols are reserved.
pub open spec fn body_names() -> Seq<Seq<u8>> {
    seq![text_name(), rel_text_name(), data_name(), rel_data_name(), autoload_name()]
}

/// The state of a writer on which the headers and the three sections of the
/// module were reserved.
pub open spec fn state_bodies_reserved(plan: PlanSpec, base: WriterState) -> WriterState {
    let l = plan.layout();
    WriterState {
        reserved: l.autoload_offset + plan.autoload.len(),
        segment_offset: 52,
        segment_num: 2,
        section_num: 6,
        shstrtab: body_names(),
        ..WriterState::fresh(base.on_vec, base.output)
    }
}

/// The state of a writer on which the symbols were reserved as well.
pub open spec fn state_symbols_reserved(plan: PlanSpec, base: WriterState) -> WriterState {
    WriterState {
        need_strtab: true,
        strtab: plan.strings(),
        symtab_num: plan.symbols.len() + 1,
        ..state_bodies_reserved(plan, base)
    }
}

/// What the reservation of the sections of the module gave.
struct BodyParts {
    code_index: u32,
    data_index: u32,
    code_offset: usize,
    data_offset: usize,
    autoload_offset: usize,
    text_id: StringId,
    rel_text_id: StringId,
    data_id: StringId,
    rel_data_id: StringId,
    autoload_id: StringId,
}

impl BodyParts {
    /// The offsets are those of the layout, the names those of the section
    /// name table.
    spec fn matches(self, plan: PlanSpec) -> bool {
        let l = plan.layout();
        &&& self.code_index == 1
        &&& self.data_index == 3
        &&& self.code_offset == l.code_offset
        &&& self.data_offset == l.data_offset
        &&& self.autoload_offset == l.autoload_offset
        &&& string_id_index(self.text_id) == 0
        &&& string_id_index(self.rel_text_id) == 1
        &&& string_id_index(self.data_id) == 2
        &&& string_id_index(self.rel_data_id) == 3
        &&& string_id_index(self.autoload_id) == 4
    }
}

/// Reserves the file header, the program headers and the three sections of
/// the module, each with the section of its relocations.
fn reserve_bodies<'a>(plan: &'a ElfPlan, w: &mut Writer<'a>) -> (parts: BodyParts)
    requires
        plan@.wf(),
        writer_state(*old(w)).is_fresh(),
    ensures
        writer_state(*final(w)) == state_bodies_reserved(plan@, writer_state(*old(w))),
        parts.matches(plan@),
{
    proof {
        lemma_section_name_bytes();
        lemma_section_names_storable();
        lemma_section_name_table();
    }
    reserve_file_header(w);

    // Program Header
    reserve_program_headers(w, 2);

    let code_index = reserve_section_index(w);
    let code_offset = reserve(w, plan.code.len(), SEGMENT_ALIGN);
    let text_id = add_section_name(w, ".text".as_bytes());
    reserve_section_index(w);  // for rel.text
    let rel_text_id = add_section_name(w, ".rel.text".as_bytes());

    let data_index = reserve_section_index(w);
    let data_offset = reserve(w, plan.data.len(), SEGMENT_ALIGN);
    let data_id = add_section_name(w, ".data".as_bytes());
    reserve_section_index(w);  // for rel.data
    let rel_data_id = add_section_name(w, ".rel.data".as_bytes());

    let _autoload_index = reserve_section_index(w);
    let autoload_offset = reserve(w, plan.autoload.len(), 1);
    let autoload_id = add_section_name(w, ".nlm.autoload".as_bytes());
    proof {
        assert(writer_state(*w).shstrtab =~= body_names());
    }
    BodyParts {
        code_index,
        data_index,
        code_offset,
        data_offset,
        autoload_offset,
        text_id,
        rel_text_id,
        data_id,
        rel_data_id,
        autoload_id,
    }
}

/// The strings of a string table take no more room than the names they
/// come from.
proof fn lemma_strings_bound(symbols: Seq<SymbolSpec>, count: nat)
    ensures
        table_size_bound(symbol_strings(symbols, count)) <= 1 + names_weight(symbols, count),
    decreases count,
{
    if count > 0 {
        lemma_strings_bound(symbols, (count - 1) as nat);
        let before = symbol_strings(symbols, (count - 1) as nat);
        let name = encode_utf8(symbols[count - 1].name);
        if !before.contains(name) {
            assert(before.push(name).drop_last() =~= before);
        }
    }
}

/// A string keeps its place when more strings are added, and the place of
/// the name of a symbol lies inside the table.
proof fn lemma_strings_grow(symbols: Seq<SymbolSpec>, count: nat, more: nat)
    requires
        count <= more,
    ensures
        symbol_strings(symbols, count).len() <= symbol_strings(symbols, more).len(),
        forall|i: int|
            0 <= i < symbol_strings(symbols, count).len() ==> symbol_strings(symbols, more)[i]
                == symbol_strings(symbols, count)[i],
    decreases more,
{
    if count < more {
        lemma_strings_grow(symbols, count, (more - 1) as nat);
    }
}

/// The name of every symbol is found in the string table at the place noted
/// for it.
pub proof fn lemma_symbol_string_index(symbols: Seq<SymbolSpec>, k: int)
    requires
        0 <= k < symbols.len(),
    ensures
        symbol_string_index(symbols, k) < symbol_strings(symbols, symbols.len()).len(),
        symbol_strings(symbols, symbols.len())[symbol_string_index(symbols, k) as int]
            == encode_utf8(symbols[k].name),
{
    let before = symbol_strings(symbols, k as nat);
    let name = encode_utf8(symbols[k].name);
    let after = symbol_strings(symbols, (k + 1) as nat);
    assert(after == table_add(before, name));
    if before.contains(name) {
        let i = before.index_of(name);
        assert(0 <= i < before.len() && before[i] == name);
    }
    lemma_strings_grow(symbols, (k + 1) as nat, symbols.len());
}

/// Reserves the null symbol and, for each symbol of the plan in order, its
/// name and its index. Returns the identifiers of the names.
fn reserve_symbols<'a>(plan: &'a ElfPlan, w: &mut Writer<'a>, code_index: u32, data_index: u32) -> (ids:
    Vec<StringId>)
    requires
        plan@.wf(),
        writer_state(*old(w)) == state_bodies_reserved(plan@, writer_state(*old(w))),
        code_index == 1,
        data_index == 3,
    ensures
        writer_state(*final(w)) == state_symbols_reserved(plan@, writer_state(*old(w))),
        ids@.len() == plan@.symbols.len(),
        forall|k: int|
            0 <= k < ids@.len() ==> string_id_index(#[trigger] ids@[k]) == symbol_string_index(
                plan@.symbols,
                k,
            ),
{
    reserve_null_symbol_index(w);
    let mut ids: Vec<StringId> = Vec::new();
    let mut k: usize = 0;
    while k < plan.symbols.len()
        invariant
            k <= plan.symbols.len(),
            plan@.wf(),
            code_index == 1,
            data_index == 3,
            writer_state(*w) == (WriterState {
                need_strtab: true,
                strtab: symbol_strings(plan@.symbols, k as nat),
                symtab_num: k as nat + 1,
                ..state_bodies_reserved(plan@, writer_state(*old(w)))
            }),
            ids@.len() == k,
            forall|j: int|
                0 <= j < k ==> string_id_index(#[trigger] ids@[j]) == symbol_string_index(
                    plan@.symbols,
                    j,
                ),
        decreases plan.symbols.len() - k,
    {
        let symbol = &plan.symbols[k];
        assert(plan@.symbols[k as int] == symbol@);
        assert(name_storable(plan@.symbols[k as int].name));
        let id = add_string(w, symbol.name.as_str().as_bytes());
        let section = match symbol.section {
            Some(ElfSegment::Code) => Some(code_index),
            Some(ElfSegment::Data) => Some(data_index),
            None => None,
        };
        let _index = reserve_symbol_index(w, section);
        ids.push(id);
        k += 1;
    }
    ids
}

/// Reserves the symbol table, the string table, the relocations of both
/// sections, the section name table and the section headers. Returns the
/// offsets of the two relocation lists.
fn reserve_tables(plan: &ElfPlan, w: &mut Writer<'_>) -> (offsets: (usize, usize))
    requires
        plan@.wf(),
        writer_state(*old(w)) == state_symbols_reserved(plan@, writer_state(*old(w))),
    ensures
        writer_state(*final(w)) == state_reserved(plan@, writer_state(*old(w))),
        offsets.0 == plan@.layout().rel_text_offset,
        offsets.1 == plan@.layout().rel_data_offset,
        plan@.layout().total <= u32::MAX,
        plan@.strtab_data().len() >= 1,
        string_table_data(section_names()).len() >= 1,
        table_stores(plan@.strings()),
        table_stores(section_names()),
{
    proof {
        lemma_section_name_table();
        lemma_strings_bound(plan@.symbols, plan@.symbols.len());
        assert(body_names() =~= table_add(
            table_add(
                table_add(
                    table_add(table_add(Seq::<Seq<u8>>::empty(), text_name()), rel_text_name()),
                    data_name(),
                ),
                rel_data_name(),
            ),
            autoload_name(),
        ));
    }
    // Symbols
    reserve_symtab_section_index(w);
    reserve_symtab(w);
    if symtab_shndx_needed(w) {
        reserve_symtab_shndx_section_index(w);
    }
    reserve_symtab_shndx(w);
    reserve_strtab_section_index(w);
    reserve_strtab(w);

    // Relocations
    let is_rela = false;
    let code_rel_offset = reserve_relocations(w, plan.code_relocs.len(), is_rela);
    let data_rel_offset = reserve_relocations(w, plan.data_relocs.len(), is_rela);

    // Section headers
    reserve_shstrtab_section_index(w);
    reserve_shstrtab(w);
    reserve_section_headers(w);
    (code_rel_offset, data_rel_offset)
}

/// Writes the file header and the two program headers. Fails, with nothing
/// written, when the writer cannot start.
fn write_headers(plan: &ElfPlan, w: &mut Writer<'_>, parts: &BodyParts) -> (r: Result<
    (),
    NLMError,
>)
    requires
        plan@.wf(),
        writer_state(*old(w)) == state_reserved(plan@, writer_state(*old(w))),
        parts.matches(plan@),
        plan@.layout().total <= u32::MAX,
    ensures
        r is Ok ==> writer_state(*final(w)) == state_writing(
            plan@,
            plan@.headers(),
            writer_state(*old(w)),
        ),
        writer_state(*old(w)).on_vec ==> r is Ok,
        r is Err ==> r->Err_0 == NLMError::WriterFailed && writer_state(*final(w))
            == state_reserved(plan@, writer_state(*old(w))),
{
    proof {
        reveal(PlanSpec::headers);
        lemma_part_lengths(plan@);
        lemma_record_sizes();
        assert(PF_R | PF_X == 5) by (bit_vector);
        assert(PF_R | PF_W == 6) by (bit_vector);
    }
    match write_file_header(w, 0, EV_CURRENT, ET_DYN, EM_386, plan.entry, 0) {
        Ok(()) => {},
        Err(_) => {
            return Err(NLMError::WriterFailed);
        },
    }
    // Program Headers
    write_program_header(
        w,
        PT_LOAD,
        PF_R | PF_X,
        parts.code_offset as u32,
        NLM_CODE_VADDR,
        NLM_CODE_VADDR,
        plan.code.len() as u32,
        plan.code.len() as u32,
        SEGMENT_ALIGN as u32,
    );
    write_program_header(
        w,
        PT_LOAD,
        PF_R | PF_W,
        parts.data_offset as u32,
        NLM_DATA_VADDR,
        NLM_DATA_VADDR,
        plan.data.len() as u32,
        plan.data.len() as u32,
        SEGMENT_ALIGN as u32,
    );
    Ok(())
}

/// Writes the contents of the three sections of the module. A section is
/// aligned only if it is not empty, as it was reserved.
fn write_bodies(plan: &ElfPlan, w: &mut Writer<'_>)
    requires
        plan@.wf(),
        writer_state(*old(w)) == state_writing(plan@, plan@.headers(), writer_state(*old(w))),
        plan@.layout().total <= u32::MAX,
    ensures
        writer_state(*final(w)) == state_writing(
            plan@,
            plan@.headers() + plan@.bodies(),
            writer_state(*old(w)),
        ),
{
    let ghost l = plan@.layout();
    let ghost head = plan@.headers();
    proof {
        reveal(PlanSpec::bodies);
        lemma_part_lengths(plan@);
    }
    // Section content
    if plan.code.len() > 0 {
        write_align(w, SEGMENT_ALIGN);
    }
    assert(writer_state(*w).bytes =~= head + placed_padding(116, plan@.code.len(), 16));
    assert(writer_state(*w).bytes.len() == l.code_offset);
    write_data(w, plan.code.as_slice());
    if plan.data.len() > 0 {
        write_align(w, SEGMENT_ALIGN);
    }
    assert(writer_state(*w).bytes =~= head + placed_padding(116, plan@.code.len(), 16)
        + plan@.code + placed_padding(l.code_offset + plan@.code.len(), plan@.data.len(), 16));
    assert(writer_state(*w).bytes.len() == l.data_offset);
    write_data(w, plan.data.as_slice());

    // Autoload section
    write_align(w, 1);
    write_data(w, plan.autoload.as_slice());
    assert(writer_state(*w).bytes =~= head + plan@.bodies());
}

/// Writes the symbol table: the null symbol, then the symbols of the plan.
fn write_symbols(
    plan: &ElfPlan,
    w: &mut Writer<'_>,
    ids: &Vec<StringId>,
    code_index: u32,
    data_index: u32,
)
    requires
        plan@.wf(),
        writer_state(*old(w)) == state_writing(
            plan@,
            plan@.headers() + plan@.bodies(),
            writer_state(*old(w)),
        ),
        plan@.layout().total <= u32::MAX,
        plan@.strtab_data().len() >= 1,
        code_index == 1,
        data_index == 3,
        ids@.len() == plan@.symbols.len(),
        forall|k: int|
            0 <= k < ids@.len() ==> string_id_index(#[trigger] ids@[k]) == symbol_string_index(
                plan@.symbols,
                k,
            ),
    ensures
        writer_state(*final(w)) == state_writing(
            plan@,
            plan@.headers() + plan@.bodies() + plan@.symtab(),
            writer_state(*old(w)),
        ),
{
    let ghost l = plan@.layout();
    let ghost before = plan@.headers() + plan@.bodies();
    let ghost start = before + padding(before.len(), 4) + zeros(16);
    proof {
        reveal(PlanSpec::symtab);
        lemma_part_lengths(plan@);
        lemma_symbol_entries_len(plan@, plan@.symbols.len());
    }
    // Symbols
    write_null_symbol(w);
    assert(writer_state(*w).bytes =~= start + plan@.symbol_entries(0));
    let mut k: usize = 0;
    while k < plan.symbols.len()
        invariant
            k <= plan.symbols.len(),
            plan@.wf(),
            l == plan@.layout(),
            l.total <= u32::MAX,
            plan@.strtab_data().len() >= 1,
            code_index == 1,
            data_index == 3,
            start.len() == l.symtab_offset + 16,
            l.symtab_offset + 16 * (plan@.symbols.len() + 1) <= l.total,
            ids@.len() == plan@.symbols.len(),
            forall|j: int|
                0 <= j < ids@.len() ==> string_id_index(#[trigger] ids@[j])
                    == symbol_string_index(plan@.symbols, j),
            writer_state(*w) == state_writing(
                plan@,
                start + plan@.symbol_entries(k as nat),
                writer_state(*old(w)),
            ),
        decreases plan.symbols.len() - k,
    {
        let sym = &plan.symbols[k];
        proof {
            assert(plan@.symbols[k as int] == sym@);
            lemma_symbol_string_index(plan@.symbols, k as int);
            lemma_symbol_entries_len(plan@, k as nat);
        }
        let section = match sym.section {
            Some(ElfSegment::Code) => Some(code_index),
            Some(ElfSegment::Data) => Some(data_index),
            None => None,
        };
        write_symbol(w, ids[k], section, sym.info, STV_DEFAULT, 0, sym.value, 0);
        assert(writer_state(*w).bytes =~= start + plan@.symbol_entries((k + 1) as nat));
        k += 1;
    }
    assert(writer_state(*w).bytes =~= before + plan@.symtab());
}

/// Writes one list of relocations, aligned if it is not empty.
fn write_relocations(plan: &ElfPlan, w: &mut Writer<'_>, relocs: &Vec<ElfRel>, Ghost(end): Ghost<nat>)
    requires
        plan@.wf(),
        writer_state(*old(w)) == state_writing(
            plan@,
            writer_state(*old(w)).bytes,
            writer_state(*old(w)),
        ),
        relocs@ == plan@.code_relocs || relocs@ == plan@.data_relocs,
        placed(writer_state(*old(w)).bytes.len(), 8 * relocs@.len(), 4) + 8 * relocs@.len() == end,
        end <= plan@.layout().total,
        plan@.layout().total <= u32::MAX,
    ensures
        writer_state(*final(w)) == state_writing(
            plan@,
            writer_state(*old(w)).bytes + placed_padding(
                writer_state(*old(w)).bytes.len(),
                8 * relocs@.len(),
                4,
            ) + rel_entries(relocs@, relocs@.len()),
            writer_state(*old(w)),
        ),
{
    let ghost before = writer_state(*w).bytes;
    let ghost start = before + placed_padding(before.len(), 8 * relocs@.len(), 4);
    let is_rela = false;
    if relocs.len() > 0 {
        write_align_relocation(w);
    }
    assert(writer_state(*w).bytes =~= start + rel_entries(relocs@, 0));
    let mut k: usize = 0;
    while k < relocs.len()
        invariant
            k <= relocs.len(),
            plan@.wf(),
            !is_rela,
            relocs@ == plan@.code_relocs || relocs@ == plan@.data_relocs,
            start.len() + 8 * relocs@.len() == end,
            end <= plan@.layout().total,
            writer_state(*w) == state_writing(
                plan@,
                start + rel_entries(relocs@, k as nat),
                writer_state(*old(w)),
            ),
        decreases relocs.len() - k,
    {
        let rel = relocs[k];
        proof {
            lemma_rel_entries_len(relocs@, k as nat);
        }
        write_relocation(w, is_rela, rel.r_offset, rel.r_sym, rel.r_type);
        assert(writer_state(*w).bytes =~= start + rel_entries(relocs@, (k + 1) as nat));
        k += 1;
    }
}

/// Writes the string table.
fn write_strings(plan: &ElfPlan, w: &mut Writer<'_>)
    requires
        plan@.wf(),
        writer_state(*old(w)) == state_writing(
            plan@,
            plan@.headers() + plan@.bodies() + plan@.symtab(),
            writer_state(*old(w)),
        ),
        plan@.layout().total <= u32::MAX,
    ensures
        writer_state(*final(w)) == state_writing(
            plan@,
            plan@.headers() + plan@.bodies() + plan@.symtab() + plan@.strtab_data(),
            writer_state(*old(w)),
        ),
{
    proof {
        lemma_part_lengths(plan@);
    }
    write_symtab_shndx(w);
    write_strtab(w);
}

/// Writes the headers of the three sections of the module and of their
/// relocation sections.
fn write_body_headers(
    plan: &ElfPlan,
    w: &mut Writer<'_>,
    parts: &BodyParts,
    symtab: u32,
    code_rel_offset: usize,
    data_rel_offset: usize,
)
    requires
        plan@.wf(),
        writer_state(*old(w)) == state_writing(
            plan@,
            writer_state(*old(w)).bytes,
            writer_state(*old(w)),
        ),
        writer_state(*old(w)).bytes.len() + 200 <= plan@.layout().total,
        parts.matches(plan@),
        symtab == 6,
        code_rel_offset == plan@.layout().rel_text_offset,
        data_rel_offset == plan@.layout().rel_data_offset,
        plan@.layout().total <= u32::MAX,
        string_table_data(section_names()).len() >= 1,
    ensures
        writer_state(*final(w)) == state_writing(
            plan@,
            writer_state(*old(w)).bytes + plan@.section_header(1) + plan@.section_header(2)
                + plan@.section_header(3) + plan@.section_header(4) + plan@.section_header(5),
                writer_state(*old(w)),
        ),
{
    let ghost start = writer_state(*w).bytes;
    proof {
        reveal(PlanSpec::section_header);
        lemma_part_lengths(plan@);
        lemma_record_sizes();
        assert(SHF_ALLOC | SHF_EXECINSTR == 6) by (bit_vector);
        assert(SHF_ALLOC | SHF_WRITE == 3) by (bit_vector);
    }
    let is_rela = false;
    write_section_header(
        w,
        parts.text_id,
        SHT_PROGBITS,
        SHF_ALLOC | SHF_EXECINSTR,
        NLM_CODE_VADDR,
        parts.code_offset as u32,
        plan.code.len() as u32,
        0,
        0,
        SEGMENT_ALIGN as u32,
        0,
    );
    write_relocation_section_header(
        w,
        parts.rel_text_id,
        parts.code_index,
        symtab,
        code_rel_offset,
        plan.code_relocs.len(),
        is_rela,
    );
    write_section_header(
        w,
        parts.data_id,
        SHT_PROGBITS,
        SHF_ALLOC | SHF_WRITE,
        NLM_DATA_VADDR,
        parts.data_offset as u32,
        plan.data.len() as u32,
        0,
        0,
        SEGMENT_ALIGN as u32,
        0,
    );
    write_relocation_section_header(
        w,
        parts.rel_data_id,
        parts.data_index,
        symtab,
        data_rel_offset,
        plan.data_relocs.len(),
        is_rela,
    );
    write_section_header(
        w,
        parts.autoload_id,
        SHT_NOTE,
        0,
        0,
        parts.autoload_offset as u32,
        plan.autoload.len() as u32,
        0,
        0,
        1,
        0,
    );
    assert(writer_state(*w).bytes =~= start + plan@.section_header(1) + plan@.section_header(2)
        + plan@.section_header(3) + plan@.section_header(4) + plan@.section_header(5));
}

/// Writes the headers of the symbol table, the string table and the section
/// name table.
fn write_table_headers(plan: &ElfPlan, w: &mut Writer<'_>)
    requires
        plan@.wf(),
        writer_state(*old(w)) == state_writing(
            plan@,
            writer_state(*old(w)).bytes,
            writer_state(*old(w)),
        ),
        writer_state(*old(w)).bytes.len() + 120 <= plan@.layout().total,
        plan@.layout().total <= u32::MAX,
        string_table_data(section_names()).len() >= 1,
    ensures
        writer_state(*final(w)) == state_writing(
            plan@,
            writer_state(*old(w)).bytes + plan@.section_header(6) + plan@.section_header(7)
                + plan@.section_header(8),
                writer_state(*old(w)),
        ),
{
    let ghost start = writer_state(*w).bytes;
    proof {
        reveal(PlanSpec::section_header);
        lemma_part_lengths(plan@);
        lemma_record_sizes();
    }
    write_symtab_section_header(w, plan.num_local);
    write_symtab_shndx_section_header(w);
    write_strtab_section_header(w);
    write_shstrtab_section_header(w);
    assert(writer_state(*w).bytes =~= start + plan@.section_header(6) + plan@.section_header(7)
        + plan@.section_header(8));
}

/// Writes the section name table and the section headers.
fn write_section_table(
    plan: &ElfPlan,
    w: &mut Writer<'_>,
    parts: &BodyParts,
    code_rel_offset: usize,
    data_rel_offset: usize,
)
    requires
        plan@.wf(),
        writer_state(*old(w)) == state_writing(
            plan@,
            writer_state(*old(w)).bytes,
            writer_state(*old(w)),
        ),
        writer_state(*old(w)).bytes.len() == plan@.layout().shstrtab_offset,
        parts.matches(plan@),
        code_rel_offset == plan@.layout().rel_text_offset,
        data_rel_offset == plan@.layout().rel_data_offset,
        plan@.layout().total <= u32::MAX,
        string_table_data(section_names()).len() >= 1,
    ensures
        writer_state(*final(w)) == state_writing(
            plan@,
            writer_state(*old(w)).bytes + string_table_data(section_names())
                + plan@.section_headers(),
                writer_state(*old(w)),
        ),
{
    let ghost l = plan@.layout();
    let ghost before = writer_state(*w).bytes;
    let ghost names = string_table_data(section_names());
    proof {
        lemma_part_lengths(plan@);
        lemma_record_sizes();
    }
    write_shstrtab(w);
    write_null_section_header(w);
    let symtab = symtab_index(w);
    let ghost start = before + names + padding(l.shstrtab_offset + names.len(), 4) + zeros(40);
    assert(writer_state(*w).bytes =~= start);
    assert(start.len() == l.section_offset + 40);
    write_body_headers(plan, w, parts, symtab, code_rel_offset, data_rel_offset);
    let ghost middle = writer_state(*w).bytes;
    assert(middle.len() == l.section_offset + 240) by {
        reveal(PlanSpec::section_header);
    }
    write_table_headers(plan, w);
    proof {
        reveal(PlanSpec::section_headers);
        assert(writer_state(*w).bytes =~= before + names + plan@.section_headers());
    }
}

/// Writes the relocations of the code section, then those of the data
/// section.
fn write_both_relocations(plan: &ElfPlan, w: &mut Writer<'_>)
    requires
        plan@.wf(),
        writer_state(*old(w)) == state_writing(
            plan@,
            plan@.headers() + plan@.bodies() + plan@.symtab() + plan@.strtab_data(),
            writer_state(*old(w)),
        ),
        plan@.layout().total <= u32::MAX,
    ensures
        writer_state(*final(w)) == state_writing(
            plan@,
            plan@.headers() + plan@.bodies() + plan@.symtab() + plan@.strtab_data()
                + plan@.relocations(),
                writer_state(*old(w)),
        ),
{
    let ghost l = plan@.layout();
    let ghost before = writer_state(*w).bytes;
    proof {
        reveal(PlanSpec::relocations);
        lemma_part_lengths(plan@);
        lemma_rel_entries_len(plan@.code_relocs, plan@.code_relocs.len());
        lemma_rel_entries_len(plan@.data_relocs, plan@.data_relocs.len());
    }
    // Relocations, code
    write_relocations(
        plan,
        w,
        &plan.code_relocs,
        Ghost((l.rel_text_offset + 8 * plan@.code_relocs.len()) as nat),
    );
    // Relocations, data
    write_relocations(plan, w, &plan.data_relocs, Ghost(l.shstrtab_offset));
    assert(writer_state(*w).bytes =~= before + plan@.relocations());
}

impl ElfPlan {
    /// Writes the ELF file of the plan with `writer`, which must be new and
    /// made for a little-endian ELF-32 file.
    ///
    /// Every part is reserved first and then written at the offset it was
    /// reserved at. On success the writer holds exactly the bytes of the
    /// file, and as many bytes were written as were reserved. The call
    /// fails only when the writer cannot start writing into its buffer;
    /// every part is then reserved and nothing is written. A writer over a
    /// `Vec<u8>` can always start.
    pub fn write_elf<'a>(&'a self, writer: &mut Writer<'a>) -> (r: Result<(), NLMError>)
        requires
            self@.wf(),
            writer_state(*old(writer)).is_fresh(),
        ensures
            r is Ok ==> {
                &&& writer_state(*final(writer)).bytes == self@.elf_file()
                &&& writer_state(*final(writer)).reserved == self@.elf_file().len()
                &&& self@.elf_file().len() <= u32::MAX
                &&& self@.names_resolve()
            },
            r is Err ==> {
                &&& r->Err_0 == NLMError::WriterFailed
                &&& writer_state(*final(writer)) == state_reserved(
                    self@,
                    writer_state(*old(writer)),
                )
            },
            writer_state(*old(writer)).on_vec ==> r is Ok,
            writer_state(*final(writer)).on_vec == writer_state(*old(writer)).on_vec,
            writer_state(*final(writer)).output == writer_state(*old(writer)).output,
    {
        let ghost plan = self@;
        let ghost l = plan.layout();
        let parts = reserve_bodies(self, writer);
        let ids = reserve_symbols(self, writer, parts.code_index, parts.data_index);
        let (code_rel_offset, data_rel_offset) = reserve_tables(self, writer);
        proof {
            lemma_part_lengths(plan);
            assert forall|k: int| 0 <= k < plan.symbols.len() implies stored_at(
                plan.strtab_data(),
                string_table_offset(plan.strings(), #[trigger] symbol_string_index(plan.symbols, k)),
                encode_utf8(plan.symbols[k].name),
            ) by {
                lemma_symbol_string_index(plan.symbols, k);
            }
            assert(plan.names_resolve());
        }
        write_headers(self, writer, &parts)?;
        write_bodies(self, writer);
        write_symbols(self, writer, &ids, parts.code_index, parts.data_index);
        write_strings(self, writer);
        write_both_relocations(self, writer);
        write_section_table(self, writer, &parts, code_rel_offset, data_rel_offset);
        assert(writer_state(*writer).bytes =~= plan.elf_file());
        Ok(())
    }
}

impl NLM {
    /// The ELF file of the module.
    ///
    /// The plan of the module is made and written, with a new writer, into
    /// a buffer, which is returned. The call fails exactly when the module
    /// has no plan, with the error that [`plan_of`] gives for the image.
    pub fn write_elf(&self) -> (r: Result<Vec<u8>, NLMError>)
        ensures
            match plan_of(self.header, self.data@) {
                Err(e) => r is Err && r->Err_0 == e,
                Ok(plan) => r is Ok && r->Ok_0@ == plan.elf_file() && plan.names_resolve(),
            },
    {
        let plan = self.plan_elf()?;
        let mut out_data: Vec<u8> = Vec::new();
        let mut writer = new_writer(Endianness::Little, false, &mut out_data);
        plan.write_elf(&mut writer)?;
        let ghost written = writer_state(writer).bytes;
        let _len = give_up(writer);
        assert(written.subrange(0, written.len() as int) =~= written);
        Ok(out_data)
    }
}

} // verus!
