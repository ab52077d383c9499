use nlm2elf::error::NLMError;
use nlm2elf::nlm::NLM;
use nlm2elf::tables::{
    read_autoload, read_exports, read_externals, read_fixups, read_name, NLMExport,
    NLMExternalRef, NLMFixup,
};

const MAGIC: &[u8; 24] = b"NetWare Loadable Module\x1a";

fn words(list: &[u32]) -> Vec<u8> {
    list.iter().flat_map(|w| w.to_le_bytes()).collect()
}

fn named(name: &[u8], rest: &[u32]) -> Vec<u8> {
    let mut out = vec![name.len() as u8];
    out.extend_from_slice(name);
    out.extend_from_slice(&words(rest));
    out
}

#[test]
fn fixup_words_decode_by_top_nibble() {
    assert_eq!(NLMFixup::from_word(0x0000_0010), Ok(NLMFixup::AbsRefToDataFromData(0x10)));
    assert_eq!(NLMFixup::from_word(0x4000_0010), Ok(NLMFixup::AbsRefToDataFromCode(0x10)));
    assert_eq!(NLMFixup::from_word(0x8000_0010), Ok(NLMFixup::AbsRefToCodeFromData(0x10)));
    assert_eq!(NLMFixup::from_word(0xc000_0010), Ok(NLMFixup::AbsRefToCodeFromCode(0x10)));
    assert_eq!(NLMFixup::from_word(0x1000_0010), Err(NLMError::UnsupportedFixupType(1)));
    assert_eq!(NLMFixup::from_word(0xf000_0010), Err(NLMError::UnsupportedFixupType(0xf)));
}

#[test]
fn word_value_is_the_low_26_bits() {
    assert_eq!(NLMFixup::from_word(0x03ff_ffff), Ok(NLMFixup::AbsRefToDataFromData(0x03ff_ffff)));
    assert_eq!(NLMFixup::from_word(0x0fff_ffff), Ok(NLMFixup::AbsRefToDataFromData(0x03ff_ffff)));
    assert_eq!(NLMFixup::from_word(0xcc00_0001), Ok(NLMFixup::AbsRefToCodeFromCode(1)));
    assert_eq!(
        NLMExternalRef::from_word(0x4800_0002),
        Ok(NLMExternalRef::RelRefFromCode(2))
    );
}

#[test]
fn external_ref_words_decode_by_top_nibble() {
    assert_eq!(NLMExternalRef::from_word(0x0000_0001), Ok(NLMExternalRef::RelRefFromData(1)));
    assert_eq!(NLMExternalRef::from_word(0x4000_0001), Ok(NLMExternalRef::RelRefFromCode(1)));
    assert_eq!(NLMExternalRef::from_word(0x8000_0001), Ok(NLMExternalRef::AbsRefFromData(1)));
    assert_eq!(NLMExternalRef::from_word(0xc000_0001), Ok(NLMExternalRef::AbsRefFromCode(1)));
    assert_eq!(NLMExternalRef::from_word(0x2000_0001), Err(NLMError::UnrecognizedRefType(2)));
    assert_eq!(NLMExternalRef::from_word(0xe000_0001), Err(NLMError::UnrecognizedRefType(0xe)));
}

#[test]
fn export_words_decode_by_top_nibble() {
    match NLMExport::from_word("a".to_string(), 0x0000_0020).unwrap() {
        NLMExport::Data(name, value) => {
            assert_eq!(name, "a");
            assert_eq!(value, 0x20);
        }
        NLMExport::Code(..) => panic!("data expected"),
    }
    match NLMExport::from_word("b".to_string(), 0x8000_0020).unwrap() {
        NLMExport::Code(name, value) => {
            assert_eq!(name, "b");
            assert_eq!(value, 0x20);
        }
        NLMExport::Data(..) => panic!("code expected"),
    }
    assert_eq!(
        NLMExport::from_word("c".to_string(), 0x4000_0020).err(),
        Some(NLMError::UnrecognizedExportType(4))
    );
    assert_eq!(
        NLMExport::from_word("c".to_string(), 0xc000_0020).err(),
        Some(NLMError::UnrecognizedExportType(0xc))
    );
}

#[test]
fn names_are_length_prefixed() {
    let data = b"\x04clib\x00\x03tli";
    assert_eq!(read_name(data, 0), Some(("clib".to_string(), 5)));
    assert_eq!(read_name(data, 5), Some((String::new(), 6)));
    assert_eq!(read_name(data, 6), Some(("tli".to_string(), 10)));
    assert_eq!(read_name(data, 10), None);
    assert_eq!(read_name(data, 11), None);
    assert_eq!(read_name(&data[..9], 6), None);
    assert_eq!(read_name(&[], 0), None);
}

#[test]
fn name_that_is_not_text_becomes_a_question_mark() {
    let data = [2u8, 0xff, 0xfe, 1, b'x'];
    assert_eq!(read_name(&data, 0), Some(("?".to_string(), 3)));
    assert_eq!(read_name(&data, 3), Some(("x".to_string(), 5)));
    let cut = [2u8, 0xc3, 0x28];
    assert_eq!(read_name(&cut, 0), Some(("?".to_string(), 3)));
    let two_byte = [2u8, 0xc3, 0xa9];
    assert_eq!(read_name(&two_byte, 0), Some(("\u{e9}".to_string(), 3)));
}

#[test]
fn fixups_are_read_in_table_order() {
    let mut data = vec![0xaa, 0xbb];
    data.extend_from_slice(&words(&[0x0000_0004, 0xc000_0008, 0x4000_000c]));
    assert_eq!(
        read_fixups(&data, 2, 3),
        Ok(vec![
            NLMFixup::AbsRefToDataFromData(4),
            NLMFixup::AbsRefToCodeFromCode(8),
            NLMFixup::AbsRefToDataFromCode(12),
        ])
    );
    assert_eq!(read_fixups(&data, 2, 0), Ok(vec![]));
    assert_eq!(read_fixups(&data, 1000, 0), Ok(vec![]));
    assert_eq!(read_fixups(&data, 2, 4), Err(NLMError::UnexpectedEof));
    assert_eq!(read_fixups(&data, 1000, 1), Err(NLMError::UnexpectedEof));
    assert_eq!(read_fixups(&data, 0xffff_ffff, 0xffff_ffff), Err(NLMError::UnexpectedEof));
}

#[test]
fn first_bad_fixup_decides() {
    let data = words(&[0x0000_0004, 0x3000_0000, 0x5000_0000]);
    assert_eq!(read_fixups(&data, 0, 3), Err(NLMError::UnsupportedFixupType(3)));
    assert_eq!(read_fixups(&data, 0, 7), Err(NLMError::UnsupportedFixupType(3)));
    assert_eq!(read_fixups(&data, 0, 1), Ok(vec![NLMFixup::AbsRefToDataFromData(4)]));
    let data = words(&[0x0000_0004]);
    assert_eq!(read_fixups(&data[..3], 0, 1), Err(NLMError::UnexpectedEof));
}

#[test]
fn externals_hold_name_and_references() {
    let mut data = vec![0u8; 3];
    data.extend_from_slice(&named(b"printf", &[2, 0x4000_0010, 0x8000_0020]));
    data.extend_from_slice(&named(b"exit", &[0]));
    data.extend_from_slice(&named(b"\xff", &[1, 0xc000_0001]));
    let externals = read_externals(&data, 3, 3).unwrap();
    assert_eq!(externals.len(), 3);
    assert_eq!(externals[0].name, "printf");
    assert_eq!(
        externals[0].refs,
        vec![NLMExternalRef::RelRefFromCode(0x10), NLMExternalRef::AbsRefFromData(0x20)]
    );
    assert_eq!(externals[1].name, "exit");
    assert!(externals[1].refs.is_empty());
    assert_eq!(externals[2].name, "?");
    assert_eq!(externals[2].refs, vec![NLMExternalRef::AbsRefFromCode(1)]);
    assert_eq!(read_externals(&data, 3, 2).unwrap().len(), 2);
    assert!(read_externals(&data, 3, 0).unwrap().is_empty());
}

#[test]
fn externals_table_errors() {
    let mut data = named(b"printf", &[2, 0x4000_0010, 0x8000_0020]);
    assert_eq!(read_externals(&data, 0, 2).err(), Some(NLMError::UnexpectedEof));
    assert_eq!(read_externals(&data[..data.len() - 1], 0, 1).err(), Some(NLMError::UnexpectedEof));
    assert_eq!(read_externals(&data[..9], 0, 1).err(), Some(NLMError::UnexpectedEof));
    assert_eq!(read_externals(&data[..4], 0, 1).err(), Some(NLMError::UnexpectedEof));
    assert_eq!(read_externals(&data, 100, 1).err(), Some(NLMError::UnexpectedEof));
    let at = data.len() - 1;
    data[at] = 0x60;
    assert_eq!(read_externals(&data, 0, 1).err(), Some(NLMError::UnrecognizedRefType(6)));
    let huge = named(b"x", &[0xffff_ffff, 0x4000_0000]);
    assert_eq!(read_externals(&huge, 0, 1).err(), Some(NLMError::UnexpectedEof));
}

#[test]
fn exports_hold_name_and_kind() {
    let mut data = named(b"main", &[0x8000_0100]);
    data.extend_from_slice(&named(b"version", &[0x0000_0020]));
    let exports = read_exports(&data, 0, 2).unwrap();
    assert_eq!(exports.len(), 2);
    match &exports[0] {
        NLMExport::Code(name, value) => {
            assert_eq!(name, "main");
            assert_eq!(*value, 0x100);
        }
        NLMExport::Data(..) => panic!("code expected"),
    }
    match &exports[1] {
        NLMExport::Data(name, value) => {
            assert_eq!(name, "version");
            assert_eq!(*value, 0x20);
        }
        NLMExport::Code(..) => panic!("data expected"),
    }
    assert_eq!(read_exports(&data, 0, 3).err(), Some(NLMError::UnexpectedEof));
    assert_eq!(read_exports(&data[..7], 0, 1).err(), Some(NLMError::UnexpectedEof));
    let bad = named(b"main", &[0x4000_0100]);
    assert_eq!(read_exports(&bad, 0, 1).err(), Some(NLMError::UnrecognizedExportType(4)));
}

#[test]
fn autoload_names_are_read_in_list_order() {
    let data = b"\x04clib\x03tli";
    assert_eq!(read_autoload(data, 0, 2), Ok(vec!["clib".to_string(), "tli".to_string()]));
    assert_eq!(read_autoload(data, 5, 1), Ok(vec!["tli".to_string()]));
    assert_eq!(read_autoload(data, 0, 0), Ok(vec![]));
    assert_eq!(read_autoload(data, 0, 3), Err(NLMError::UnexpectedEof));
    assert_eq!(read_autoload(&data[..8], 0, 2), Err(NLMError::UnexpectedEof));
}

#[test]
fn image_tables_are_found_through_the_header() {
    let mut image = vec![0u8; 128];
    image[0..24].copy_from_slice(MAGIC);
    image[24] = 4;
    let autoload_offs = image.len() as u32;
    image.extend_from_slice(b"\x04clib");
    let fixup_offs = image.len() as u32;
    image.extend_from_slice(&words(&[0x8000_0000]));
    let externals_offs = image.len() as u32;
    image.extend_from_slice(&named(b"puts", &[1, 0xc000_0004]));
    let exported_offs = image.len() as u32;
    image.extend_from_slice(&named(b"go", &[0x8000_0000]));
    image[66..70].copy_from_slice(&autoload_offs.to_le_bytes());
    image[70..74].copy_from_slice(&1u32.to_le_bytes());
    image[74..78].copy_from_slice(&fixup_offs.to_le_bytes());
    image[78..82].copy_from_slice(&1u32.to_le_bytes());
    image[82..86].copy_from_slice(&externals_offs.to_le_bytes());
    image[86..90].copy_from_slice(&1u32.to_le_bytes());
    image[90..94].copy_from_slice(&exported_offs.to_le_bytes());
    image[94..98].copy_from_slice(&1u32.to_le_bytes());
    let nlm = NLM::new(&image).unwrap();
    assert_eq!(nlm.get_autoload(), Ok(vec!["clib".to_string()]));
    assert_eq!(nlm.get_fixups(), Ok(vec![NLMFixup::AbsRefToCodeFromData(0)]));
    let externals = nlm.get_externals().unwrap();
    assert_eq!(externals.len(), 1);
    assert_eq!(externals[0].name, "puts");
    assert_eq!(externals[0].refs, vec![NLMExternalRef::AbsRefFromCode(4)]);
    let exports = nlm.get_exports().unwrap();
    assert_eq!(exports.len(), 1);
    assert!(matches!(&exports[0], NLMExport::Code(name, 0) if name == "go"));
}

#[test]
fn image_with_table_past_its_end_is_an_error() {
    let mut image = vec![0u8; 128];
    image[0..24].copy_from_slice(MAGIC);
    image[24] = 4;
    image[74..78].copy_from_slice(&126u32.to_le_bytes());
    image[78..82].copy_from_slice(&1u32.to_le_bytes());
    image[86..90].copy_from_slice(&1u32.to_le_bytes());
    image[82..86].copy_from_slice(&500u32.to_le_bytes());
    let nlm = NLM::new(&image).unwrap();
    assert_eq!(nlm.get_fixups(), Err(NLMError::UnexpectedEof));
    assert_eq!(nlm.get_externals().err(), Some(NLMError::UnexpectedEof));
    assert!(nlm.get_exports().unwrap().is_empty());
}
