use nlm2elf::error::NLMError;
use nlm2elf::nlm::NLM;
use nlm2elf::plan::{ElfPlan, ElfSegment};
use object::elf;
use object::read::elf::{FileHeader, ProgramHeader, Rel, SectionHeader, Sym};
use object::write::elf::Writer;
use object::write::WritableBuffer;
use object::{Endianness, Object, ObjectSection};

const MAGIC: &[u8; 24] = b"NetWare Loadable Module\x1a";

struct Module {
    code: Vec<u8>,
    data: Vec<u8>,
    fixups: Vec<u32>,
    externals: Vec<(Vec<u8>, Vec<u32>)>,
    exports: Vec<(Vec<u8>, u32)>,
    autoload: Vec<Vec<u8>>,
    start: u32,
    term: u32,
    check: u32,
}

fn empty_module() -> Module {
    Module {
        code: Vec::new(),
        data: Vec::new(),
        fixups: Vec::new(),
        externals: Vec::new(),
        exports: Vec::new(),
        autoload: Vec::new(),
        start: 0,
        term: 0,
        check: 0,
    }
}

fn put32(image: &mut Vec<u8>, at: usize, value: u32) {
    image[at..at + 4].copy_from_slice(&value.to_le_bytes());
}

fn push_name(image: &mut Vec<u8>, name: &[u8]) {
    image.push(name.len() as u8);
    image.extend_from_slice(name);
}

/// An unpacked image: the header, padded to 128 bytes, then the code, the
/// data and the tables.
fn build_image(m: &Module) -> Vec<u8> {
    let mut image = vec![0u8; 128];
    image[0..24].copy_from_slice(MAGIC);
    put32(&mut image, 24, 4);
    image[28..33].copy_from_slice(b"\x04TEST");
    let code_offs = image.len() as u32;
    put32(&mut image, 42, code_offs);
    put32(&mut image, 46, m.code.len() as u32);
    image.extend_from_slice(&m.code);
    let data_offs = image.len() as u32;
    put32(&mut image, 50, data_offs);
    put32(&mut image, 54, m.data.len() as u32);
    image.extend_from_slice(&m.data);
    let autoload_offs = image.len() as u32;
    put32(&mut image, 66, autoload_offs);
    put32(&mut image, 70, m.autoload.len() as u32);
    for name in &m.autoload {
        push_name(&mut image, name);
    }
    let fixup_offs = image.len() as u32;
    put32(&mut image, 74, fixup_offs);
    put32(&mut image, 78, m.fixups.len() as u32);
    for word in &m.fixups {
        image.extend_from_slice(&word.to_le_bytes());
    }
    let externals_offs = image.len() as u32;
    put32(&mut image, 82, externals_offs);
    put32(&mut image, 86, m.externals.len() as u32);
    for (name, refs) in &m.externals {
        push_name(&mut image, name);
        image.extend_from_slice(&(refs.len() as u32).to_le_bytes());
        for word in refs {
            image.extend_from_slice(&word.to_le_bytes());
        }
    }
    let exported_offs = image.len() as u32;
    put32(&mut image, 90, exported_offs);
    put32(&mut image, 94, m.exports.len() as u32);
    for (name, word) in &m.exports {
        push_name(&mut image, name);
        image.extend_from_slice(&word.to_le_bytes());
    }
    put32(&mut image, 110, m.start);
    put32(&mut image, 114, m.term);
    put32(&mut image, 118, m.check);
    image
}

fn plan_of(m: &Module) -> ElfPlan {
    NLM::new(&build_image(m)).unwrap().plan_elf().unwrap()
}

/// Writes the plan and checks that as much was written as was reserved.
fn write(plan: &ElfPlan) -> Vec<u8> {
    let mut out = Vec::new();
    let mut writer = Writer::new(Endianness::Little, false, &mut out);
    plan.write_elf(&mut writer).unwrap();
    assert_eq!(writer.reserved_len(), writer.len());
    out
}

fn convert(m: &Module) -> Vec<u8> {
    write(&plan_of(m))
}

fn section_index(file: &[u8], name: &[u8]) -> usize {
    let header = elf::FileHeader32::<Endianness>::parse(file).unwrap();
    let endian = header.endian().unwrap();
    let sections = header.sections(endian, file).unwrap();
    sections.section_by_name(endian, name).unwrap().0
}

fn section_data(file: &[u8], name: &[u8]) -> Vec<u8> {
    let header = elf::FileHeader32::<Endianness>::parse(file).unwrap();
    let endian = header.endian().unwrap();
    let sections = header.sections(endian, file).unwrap();
    let section = sections.section_by_name(endian, name).unwrap().1;
    section.data(endian, file).unwrap().to_vec()
}

/// The symbols of the file: name, value, info, section index.
fn symbols_of(file: &[u8]) -> Vec<(Vec<u8>, u32, u8, u16)> {
    let header = elf::FileHeader32::<Endianness>::parse(file).unwrap();
    let endian = header.endian().unwrap();
    let sections = header.sections(endian, file).unwrap();
    let symbols = sections.symbols(endian, file, elf::SHT_SYMTAB).unwrap();
    symbols
        .iter()
        .map(|s| {
            (
                symbols.symbol_name(endian, s).unwrap().to_vec(),
                s.st_value(endian),
                s.st_info(),
                s.st_shndx(endian),
            )
        })
        .collect()
}

/// The relocations of a section: offset, symbol index, type.
fn relocations_of(file: &[u8], name: &[u8]) -> Vec<(u32, u32, u32)> {
    let header = elf::FileHeader32::<Endianness>::parse(file).unwrap();
    let endian = header.endian().unwrap();
    let sections = header.sections(endian, file).unwrap();
    let section = sections.section_by_name(endian, name).unwrap().1;
    let (rels, link) = section.rel(endian, file).unwrap().unwrap();
    assert_eq!(link.0, section_index(file, b".symtab"));
    rels.iter().map(|r| (r.r_offset(endian), r.r_sym(endian), r.r_type(endian))).collect()
}

fn minimal_module() -> Module {
    let mut m = empty_module();
    m.code = vec![0xc3, 0x00, 0x00, 0x00];
    m
}

#[test]
fn minimal_module_gives_entry_segment_and_entry_symbols() {
    let file = convert(&minimal_module());
    let header = elf::FileHeader32::<Endianness>::parse(&*file).unwrap();
    let endian = header.endian().unwrap();
    assert_eq!(header.e_entry(endian), 0x1000_0000);
    assert_eq!(header.e_type(endian), elf::ET_DYN);
    assert_eq!(header.e_machine(endian), elf::EM_386);
    let segments = header.program_headers(endian, &*file).unwrap();
    let code: Vec<_> = segments
        .iter()
        .filter(|s| {
            s.p_type(endian) == elf::PT_LOAD && s.p_flags(endian) == elf::PF_R | elf::PF_X
        })
        .collect();
    assert_eq!(code.len(), 1);
    assert_eq!(code[0].p_filesz(endian), 4);
    assert_eq!(code[0].p_memsz(endian), 4);
    assert_eq!(code[0].p_vaddr(endian), 0x1000_0000);
    assert_eq!(code[0].p_align(endian), 16);
    let start = code[0].p_offset(endian) as usize;
    assert_eq!(&file[start..start + 4], &[0xc3, 0x00, 0x00, 0x00]);
    let names: Vec<Vec<u8>> = symbols_of(&file).into_iter().map(|s| s.0).collect();
    assert_eq!(
        names,
        vec![b"".to_vec(), b"nlm_start".to_vec(), b"nlm_terminate".to_vec(), b"nlm_check".to_vec()]
    );
}

#[test]
fn minimal_module_has_the_nine_sections_in_order() {
    let file = convert(&minimal_module());
    let header = elf::FileHeader32::<Endianness>::parse(&*file).unwrap();
    let endian = header.endian().unwrap();
    let sections = header.sections(endian, &*file).unwrap();
    let names: Vec<Vec<u8>> =
        sections.iter().map(|s| sections.section_name(endian, s).unwrap().to_vec()).collect();
    let expected: Vec<Vec<u8>> = vec![
        b"".to_vec(),
        b".text".to_vec(),
        b".rel.text".to_vec(),
        b".data".to_vec(),
        b".rel.data".to_vec(),
        b".nlm.autoload".to_vec(),
        b".symtab".to_vec(),
        b".strtab".to_vec(),
        b".shstrtab".to_vec(),
    ];
    assert_eq!(names, expected);
    let text = sections.section_by_name(endian, b".text").unwrap().1;
    assert_eq!(text.sh_type(endian), elf::SHT_PROGBITS);
    assert_eq!(text.sh_flags(endian), elf::SHF_ALLOC | elf::SHF_EXECINSTR);
    assert_eq!(text.sh_addr(endian), 0x1000_0000);
    assert_eq!(text.sh_size(endian), 4);
    assert_eq!(text.sh_addralign(endian), 16);
    let data = sections.section_by_name(endian, b".data").unwrap().1;
    assert_eq!(data.sh_flags(endian), elf::SHF_ALLOC | elf::SHF_WRITE);
    assert_eq!(data.sh_addr(endian), 0x4000_0000);
    assert_eq!(data.sh_size(endian), 0);
    let rel = sections.section_by_name(endian, b".rel.text").unwrap().1;
    assert_eq!(rel.sh_type(endian), elf::SHT_REL);
    assert_eq!(rel.sh_info(endian), 1);
    assert_eq!(rel.sh_link(endian), 6);
    assert_eq!(rel.sh_entsize(endian), 8);
    let rel = sections.section_by_name(endian, b".rel.data").unwrap().1;
    assert_eq!(rel.sh_info(endian), 3);
}

#[test]
fn minimal_module_parses_with_the_generic_reader() {
    let file = convert(&minimal_module());
    let parsed = object::File::parse(&*file).unwrap();
    assert_eq!(parsed.entry(), 0x1000_0000);
    assert_eq!(parsed.architecture(), object::Architecture::I386);
    let text = parsed.section_by_name(".text").unwrap();
    assert_eq!(text.data().unwrap(), &[0xc3, 0x00, 0x00, 0x00]);
    assert_eq!(text.address(), 0x1000_0000);
}

#[test]
fn external_referenced_from_code_gives_pc_relative_relocation() {
    let mut m = minimal_module();
    m.code = vec![0x90; 0x20];
    m.externals = vec![(b"printf".to_vec(), vec![0x4000_0010])];
    let file = convert(&m);
    let symbols = symbols_of(&file);
    let printf = symbols.iter().position(|s| s.0 == b"printf").unwrap();
    assert_eq!(printf, 4);
    assert_eq!(symbols[printf].1, 0);
    assert_eq!(symbols[printf].2, (elf::STB_GLOBAL << 4) + elf::STT_NOTYPE);
    assert_eq!(symbols[printf].3, 0);
    assert_eq!(
        relocations_of(&file, b".rel.text"),
        vec![(0x1000_0010, printf as u32, elf::R_386_PC32)]
    );
    assert_eq!(relocations_of(&file, b".rel.data"), vec![]);
}

#[test]
fn exported_data_symbol_lies_in_data_section() {
    let mut m = minimal_module();
    m.data = vec![0u8; 0x40];
    m.exports = vec![(b"version".to_vec(), 0x20)];
    let file = convert(&m);
    let symbols = symbols_of(&file);
    assert_eq!(symbols[1].0, b"version");
    assert_eq!(symbols[1].1, 0x4000_0020);
    assert_eq!(symbols[1].2, (elf::STB_LOCAL << 4) + elf::STT_FUNC);
    assert_eq!(symbols[1].3 as usize, section_index(&file, b".data"));
}

#[test]
fn exported_code_symbol_lies_in_code_section() {
    let mut m = minimal_module();
    m.exports = vec![(b"run".to_vec(), 0x8000_0002)];
    let file = convert(&m);
    let symbols = symbols_of(&file);
    assert_eq!(symbols[1].0, b"run");
    assert_eq!(symbols[1].1, 0x1000_0002);
    assert_eq!(symbols[1].3 as usize, section_index(&file, b".text"));
}

#[test]
fn fixup_from_code_to_data_adds_data_address() {
    let mut m = minimal_module();
    m.code = vec![0x08, 0x00, 0x00, 0x00];
    m.fixups = vec![0x4000_0000];
    let file = convert(&m);
    assert_eq!(section_data(&file, b".text"), vec![0x08, 0x00, 0x00, 0x40]);
    assert_eq!(relocations_of(&file, b".rel.text"), vec![]);
    assert_eq!(relocations_of(&file, b".rel.data"), vec![]);
}

#[test]
fn autoload_names_are_stored_nul_terminated_in_a_note_section() {
    let mut m = minimal_module();
    m.autoload = vec![b"clib".to_vec(), b"tli".to_vec()];
    let file = convert(&m);
    assert_eq!(section_data(&file, b".nlm.autoload"), b"clib\0tli\0".to_vec());
    let header = elf::FileHeader32::<Endianness>::parse(&*file).unwrap();
    let endian = header.endian().unwrap();
    let sections = header.sections(endian, &*file).unwrap();
    let section = sections.section_by_name(endian, b".nlm.autoload").unwrap().1;
    assert_eq!(section.sh_type(endian), elf::SHT_NOTE);
    assert_eq!(section.sh_flags(endian), 0);
    assert_eq!(section.sh_addralign(endian), 1);
}

fn rich_module() -> Module {
    let mut m = empty_module();
    m.code = (0..0x31u8).collect();
    m.data = (0..0x15u8).map(|b| b.wrapping_mul(3)).collect();
    m.start = 0x10;
    m.term = 0x20;
    m.check = 0x30;
    m.fixups = vec![0x0000_0004, 0x4000_0008, 0x8000_000c, 0xc000_0010];
    m.externals = vec![
        (b"printf".to_vec(), vec![0x4000_0001, 0x0000_0002, 0xc000_0003]),
        (b"unused".to_vec(), vec![]),
        (b"malloc".to_vec(), vec![0x8000_0005, 0xc000_0006]),
    ];
    m.exports = vec![(b"main".to_vec(), 0x8000_0000), (b"table".to_vec(), 0x0000_0010)];
    m.autoload = vec![b"clib".to_vec()];
    m
}

#[test]
fn rich_module_symbols_are_locals_then_globals() {
    let file = convert(&rich_module());
    let symbols = symbols_of(&file);
    let local = (elf::STB_LOCAL << 4) + elf::STT_FUNC;
    let global = (elf::STB_GLOBAL << 4) + elf::STT_NOTYPE;
    let expected: Vec<(Vec<u8>, u32, u8, u16)> = vec![
        (b"".to_vec(), 0, 0, 0),
        (b"main".to_vec(), 0x1000_0000, local, 1),
        (b"table".to_vec(), 0x4000_0010, local, 3),
        (b"nlm_start".to_vec(), 0x1000_0010, local, 1),
        (b"nlm_terminate".to_vec(), 0x1000_0020, local, 1),
        (b"nlm_check".to_vec(), 0x1000_0030, local, 1),
        (b"printf".to_vec(), 0, global, 0),
        (b"unused".to_vec(), 0, global, 0),
        (b"malloc".to_vec(), 0, global, 0),
    ];
    assert_eq!(symbols, expected);
    let header = elf::FileHeader32::<Endianness>::parse(&*file).unwrap();
    let endian = header.endian().unwrap();
    let sections = header.sections(endian, &*file).unwrap();
    let symtab = sections.section_by_name(endian, b".symtab").unwrap().1;
    assert_eq!(symtab.sh_info(endian), 6);
    assert_eq!(symtab.sh_link(endian) as usize, section_index(&file, b".strtab"));
    assert_eq!(symtab.sh_entsize(endian), 16);
}

#[test]
fn rich_module_relocations_refer_to_undefined_globals() {
    let file = convert(&rich_module());
    let symbols = symbols_of(&file);
    let text = relocations_of(&file, b".rel.text");
    let data = relocations_of(&file, b".rel.data");
    assert_eq!(
        text,
        vec![
            (0x1000_0001, 6, elf::R_386_PC32),
            (0x1000_0003, 6, elf::R_386_32),
            (0x1000_0006, 8, elf::R_386_32),
        ]
    );
    assert_eq!(data, vec![(0x4000_0002, 6, elf::R_386_PC32), (0x4000_0005, 8, elf::R_386_32)]);
    for (_, sym, _) in text.iter().chain(data.iter()) {
        let symbol = &symbols[*sym as usize];
        assert_eq!(symbol.2 >> 4, elf::STB_GLOBAL);
        assert_eq!(symbol.3, elf::SHN_UNDEF);
    }
}

#[test]
fn rich_module_sections_hold_the_fixed_up_segments() {
    let m = rich_module();
    let file = convert(&m);
    let mut code = m.code.clone();
    let mut data = m.data.clone();
    // data word at 4 refers to data, code word at 8 refers to data,
    // data word at 12 refers to code, code word at 16 refers to code
    let add = |bytes: &mut Vec<u8>, at: usize, vaddr: u32| {
        let word = u32::from_le_bytes(bytes[at..at + 4].try_into().unwrap());
        bytes[at..at + 4].copy_from_slice(&word.wrapping_add(vaddr).to_le_bytes());
    };
    add(&mut data, 4, 0x4000_0000);
    add(&mut code, 8, 0x4000_0000);
    add(&mut data, 12, 0x1000_0000);
    add(&mut code, 16, 0x1000_0000);
    assert_eq!(section_data(&file, b".text"), code);
    assert_eq!(section_data(&file, b".data"), data);
    let header = elf::FileHeader32::<Endianness>::parse(&*file).unwrap();
    let endian = header.endian().unwrap();
    let entry = header.e_entry(endian);
    let sections = header.sections(endian, &*file).unwrap();
    let text = sections.section_by_name(endian, b".text").unwrap().1;
    assert!(text.sh_addr(endian) <= entry && entry < text.sh_addr(endian) + text.sh_size(endian));
    assert_eq!(text.sh_offset(endian) % 16, 0);
    let data_section = sections.section_by_name(endian, b".data").unwrap().1;
    assert_eq!(data_section.sh_offset(endian) % 16, 0);
}

#[test]
fn plan_lists_symbols_and_relocations() {
    let plan = plan_of(&rich_module());
    assert_eq!(plan.entry, 0x1000_0010);
    assert_eq!(plan.num_local, 6);
    assert_eq!(plan.symbols.len(), 8);
    assert_eq!(plan.symbols[0].name, "main");
    assert_eq!(plan.symbols[0].section, Some(ElfSegment::Code));
    assert_eq!(plan.symbols[1].section, Some(ElfSegment::Data));
    assert_eq!(plan.symbols[5].name, "printf");
    assert_eq!(plan.symbols[5].section, None);
    assert_eq!(plan.symbols[5].info, 16);
    assert_eq!(plan.code_relocs.len(), 3);
    assert_eq!(plan.data_relocs.len(), 2);
    assert_eq!(plan.code_relocs[2].r_sym, 8);
    assert_eq!(plan.autoload, b"clib\0".to_vec());
    assert!(plan.fits());
}

#[test]
fn duplicate_names_share_one_string() {
    let mut m = minimal_module();
    m.exports = vec![(b"same".to_vec(), 0x8000_0000), (b"same".to_vec(), 0x8000_0001)];
    m.externals = vec![(b"same".to_vec(), vec![0xc000_0000])];
    let file = convert(&m);
    let symbols = symbols_of(&file);
    assert_eq!(symbols[1].0, b"same");
    assert_eq!(symbols[2].0, b"same");
    assert_eq!(symbols[6].0, b"same");
    assert_eq!(relocations_of(&file, b".rel.text"), vec![(0x1000_0000, 6, elf::R_386_32)]);
    let strtab = section_data(&file, b".strtab");
    assert_eq!(strtab.windows(5).filter(|w| w == b"same\0").count(), 1);
}

#[test]
fn name_that_ends_another_is_found_again() {
    let mut m = minimal_module();
    m.exports = vec![(b"start".to_vec(), 0x8000_0000)];
    let file = convert(&m);
    let symbols = symbols_of(&file);
    assert_eq!(symbols[1].0, b"start");
    assert_eq!(symbols[2].0, b"nlm_start");
}

#[test]
fn empty_module_is_written_without_padding_mismatch() {
    let file = convert(&empty_module());
    assert_eq!(section_data(&file, b".text"), Vec::<u8>::new());
    assert_eq!(section_data(&file, b".data"), Vec::<u8>::new());
    assert_eq!(symbols_of(&file).len(), 4);
}

#[test]
fn sizes_that_leave_parts_unaligned_are_written_as_reserved() {
    for code_len in 0..18usize {
        for data_len in [0usize, 1, 15, 16, 17] {
            let mut m = empty_module();
            m.code = vec![0xaa; code_len];
            m.data = vec![0xbb; data_len];
            m.exports = vec![(vec![b'x'; code_len + 1], 0)];
            if code_len % 2 == 1 {
                m.externals = vec![(b"e".to_vec(), vec![0x0000_0000])];
            }
            let file = convert(&m);
            assert_eq!(section_data(&file, b".text"), m.code);
            assert_eq!(section_data(&file, b".data"), m.data);
        }
    }
}

#[test]
fn name_with_nul_byte_is_refused() {
    let mut m = minimal_module();
    m.exports = vec![(b"a\0b".to_vec(), 0)];
    let nlm = NLM::new(&build_image(&m)).unwrap();
    assert_eq!(nlm.plan_elf().unwrap_err(), NLMError::InvalidName);
}

#[test]
fn segment_outside_image_is_refused() {
    let mut image = build_image(&minimal_module());
    put32(&mut image, 46, 0x1000);
    let nlm = NLM::new(&image).unwrap();
    assert_eq!(nlm.plan_elf().unwrap_err(), NLMError::SegmentOutOfRange);
}

#[test]
fn entry_address_wraps_modulo_two_to_the_32() {
    let mut m = minimal_module();
    m.check = 0xffff_ffff;
    let plan = plan_of(&m);
    assert_eq!(plan.symbols[2].name, "nlm_check");
    assert_eq!(plan.symbols[2].value, 0x0fff_ffff);
}

/// A buffer that cannot take any file.
struct NoRoom {
    taken: usize,
}

impl WritableBuffer for NoRoom {
    fn len(&self) -> usize {
        self.taken
    }

    fn reserve(&mut self, _size: usize) -> Result<(), ()> {
        Err(())
    }

    fn resize(&mut self, new_len: usize) {
        self.taken = new_len;
    }

    fn write_bytes(&mut self, val: &[u8]) {
        self.taken += val.len();
    }
}

#[test]
fn writer_that_cannot_start_fails_with_nothing_written() {
    let plan = plan_of(&rich_module());
    let mut buffer = NoRoom { taken: 0 };
    let mut writer = Writer::new(Endianness::Little, false, &mut buffer);
    assert_eq!(plan.write_elf(&mut writer), Err(NLMError::WriterFailed));
    assert_eq!(writer.len(), 0);
    assert!(writer.reserved_len() > 0);
}

#[test]
fn file_is_as_long_as_the_layout_says() {
    // header 52, program headers 64, code at 128 (4 bytes), symbols at 132
    // (4 of 16 bytes), strings 35 bytes, section names from 231, section
    // headers at the next multiple of four
    let file = convert(&minimal_module());
    let header = elf::FileHeader32::<Endianness>::parse(&*file).unwrap();
    let endian = header.endian().unwrap();
    let sections = header.sections(endian, &*file).unwrap();
    let text = sections.section_by_name(endian, b".text").unwrap().1;
    assert_eq!(text.sh_offset(endian), 128);
    let symtab = sections.section_by_name(endian, b".symtab").unwrap().1;
    assert_eq!(symtab.sh_offset(endian), 132);
    assert_eq!(symtab.sh_size(endian), 64);
    let strtab = sections.section_by_name(endian, b".strtab").unwrap().1;
    assert_eq!(strtab.sh_offset(endian), 196);
    assert_eq!(strtab.sh_size(endian), 35);
    let shstrtab = sections.section_by_name(endian, b".shstrtab").unwrap().1;
    assert_eq!(shstrtab.sh_offset(endian), 231);
    let names_end = 231 + shstrtab.sh_size(endian) as usize;
    let table = (names_end + 3) / 4 * 4;
    assert_eq!(file.len(), table + 9 * 40);
    assert_eq!(&file[..4], &[0x7f, b'E', b'L', b'F']);
    assert_eq!(&file[4..7], &[1, 1, 1]);
}

#[test]
fn module_converts_to_the_file_that_its_plan_writes() {
    for m in [minimal_module(), rich_module(), empty_module()] {
        let nlm = NLM::new(&build_image(&m)).unwrap();
        let file = nlm.write_elf().unwrap();
        assert_eq!(file, convert(&m));
        assert_eq!(&file[..4], &[0x7f, b'E', b'L', b'F']);
    }
}

#[test]
fn module_that_has_no_plan_is_not_converted() {
    let mut m = minimal_module();
    m.exports = vec![(b"a\0b".to_vec(), 0)];
    let nlm = NLM::new(&build_image(&m)).unwrap();
    assert_eq!(nlm.write_elf(), Err(NLMError::InvalidName));
    let mut m = minimal_module();
    m.fixups = vec![0x2000_0000];
    let nlm = NLM::new(&build_image(&m)).unwrap();
    assert_eq!(nlm.write_elf(), Err(NLMError::UnsupportedFixupType(2)));
    let mut m = minimal_module();
    m.externals = vec![(b"x".to_vec(), vec![0x7000_0000])];
    let nlm = NLM::new(&build_image(&m)).unwrap();
    assert_eq!(nlm.write_elf(), Err(NLMError::UnrecognizedRefType(7)));
    let mut m = minimal_module();
    m.exports = vec![(b"x".to_vec(), 0xc000_0000)];
    let nlm = NLM::new(&build_image(&m)).unwrap();
    assert_eq!(nlm.write_elf(), Err(NLMError::UnrecognizedExportType(0xc)));
    let mut m = minimal_module();
    m.fixups = vec![0x4000_0001];
    let mut image = build_image(&m);
    image.truncate(image.len() - 4);
    image.extend_from_slice(&0x4000_1000u32.to_le_bytes());
    let nlm = NLM::new(&image).unwrap();
    assert_eq!(nlm.write_elf(), Err(NLMError::FixupOutOfRange));
}
