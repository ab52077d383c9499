use nlm2elf::error::NLMError;
use nlm2elf::header::{NLMHeader, NLM_HEADER_SIZE};

const MAGIC: &[u8; 24] = b"NetWare Loadable Module\x1a";

fn sample() -> Vec<u8> {
    let mut data = vec![0u8; 123];
    data[0..24].copy_from_slice(MAGIC);
    data[24..28].copy_from_slice(&0x84u32.to_le_bytes());
    data[28..42].copy_from_slice(b"\x06SERVERabcdefg");
    for (k, at) in (42..122).step_by(4).enumerate() {
        data[at..at + 4].copy_from_slice(&(0x0101_0100u32 * (k as u32 + 1) + k as u32).to_le_bytes());
    }
    data[122] = 0x07;
    data
}

fn field(k: u32) -> u32 {
    0x0101_0100u32 * (k + 1) + k
}

#[test]
fn new_header_is_all_zero() {
    let h = NLMHeader::new();
    assert_eq!(h.magic, [0u8; 24]);
    assert_eq!(h.name, [0u8; 14]);
    assert_eq!(h.load_version, 0);
    assert_eq!(h.code_offs, 0);
    assert_eq!(h.code_len, 0);
    assert_eq!(h.data_offs, 0);
    assert_eq!(h.data_len, 0);
    assert_eq!(h.uninit_len, 0);
    assert_eq!(h.custom_data_offs, 0);
    assert_eq!(h.custom_data_len, 0);
    assert_eq!(h.autoload_offs, 0);
    assert_eq!(h.autoload_len, 0);
    assert_eq!(h.fixup_offs, 0);
    assert_eq!(h.fixup_len, 0);
    assert_eq!(h.externals_offs, 0);
    assert_eq!(h.externals_len, 0);
    assert_eq!(h.exported_offs, 0);
    assert_eq!(h.exported_len, 0);
    assert_eq!(h.debug_offs, 0);
    assert_eq!(h.debug_len, 0);
    assert_eq!(h.start_offs, 0);
    assert_eq!(h.term_offs, 0);
    assert_eq!(h.check_offs, 0);
    assert_eq!(h.nlm_type, 0);
    assert!(!h.is_magic_valid());
}

#[test]
fn header_fields_are_read_in_file_order() {
    let h = NLMHeader::from(&sample()).unwrap();
    assert_eq!(&h.magic, MAGIC);
    assert_eq!(h.load_version, 0x84);
    assert_eq!(&h.name, b"\x06SERVERabcdefg");
    assert_eq!(h.code_offs, field(0));
    assert_eq!(h.code_len, field(1));
    assert_eq!(h.data_offs, field(2));
    assert_eq!(h.data_len, field(3));
    assert_eq!(h.custom_data_offs, field(4));
    assert_eq!(h.custom_data_len, field(5));
    assert_eq!(h.autoload_offs, field(6));
    assert_eq!(h.autoload_len, field(7));
    assert_eq!(h.fixup_offs, field(8));
    assert_eq!(h.fixup_len, field(9));
    assert_eq!(h.externals_offs, field(10));
    assert_eq!(h.externals_len, field(11));
    assert_eq!(h.exported_offs, field(12));
    assert_eq!(h.exported_len, field(13));
    assert_eq!(h.debug_offs, field(14));
    assert_eq!(h.debug_len, field(15));
    assert_eq!(h.uninit_len, field(16));
    assert_eq!(h.start_offs, field(17));
    assert_eq!(h.term_offs, field(18));
    assert_eq!(h.check_offs, field(19));
    assert_eq!(h.nlm_type, 0x07);
}

#[test]
fn header_words_are_little_endian() {
    let mut data = sample();
    data[42..46].copy_from_slice(&[0x78, 0x56, 0x34, 0x12]);
    let h = NLMHeader::from(&data).unwrap();
    assert_eq!(h.code_offs, 0x1234_5678);
}

#[test]
fn header_needs_all_its_bytes() {
    let data = sample();
    assert_eq!(NLM_HEADER_SIZE, 123);
    assert!(NLMHeader::from(&data).is_ok());
    assert_eq!(NLMHeader::from(&data[..122]).err(), Some(NLMError::UnexpectedEof));
    assert_eq!(NLMHeader::from(&data[..24]).err(), Some(NLMError::UnexpectedEof));
    assert_eq!(NLMHeader::from(&[]).err(), Some(NLMError::UnexpectedEof));
    let mut longer = data.clone();
    longer.extend_from_slice(&[1, 2, 3]);
    assert_eq!(NLMHeader::from(&longer).unwrap().nlm_type, 7);
}

#[test]
fn signature_is_recognised() {
    let h = NLMHeader::from(&sample()).unwrap();
    assert!(h.is_magic_valid());
}

#[test]
fn any_changed_signature_byte_is_noticed() {
    for at in 0..24 {
        for flip in [0x01u8, 0x20, 0x80, 0xff] {
            let mut data = sample();
            data[at] ^= flip;
            let h = NLMHeader::from(&data).unwrap();
            assert!(!h.is_magic_valid());
        }
    }
}

#[test]
fn bytes_after_the_signature_do_not_matter_to_it() {
    let mut data = sample();
    for at in 24..123 {
        data[at] ^= 0xff;
    }
    assert!(NLMHeader::from(&data).unwrap().is_magic_valid());
}

#[test]
fn each_field_is_read_at_its_offset() {
    let at = |offset: usize| {
        let mut data = vec![0u8; 123];
        data[offset..offset + 4].copy_from_slice(&0xdead_beefu32.to_le_bytes());
        NLMHeader::from(&data).unwrap()
    };
    assert_eq!(at(24).load_version, 0xdead_beef);
    assert_eq!(at(42).code_offs, 0xdead_beef);
    assert_eq!(at(46).code_len, 0xdead_beef);
    assert_eq!(at(50).data_offs, 0xdead_beef);
    assert_eq!(at(54).data_len, 0xdead_beef);
    assert_eq!(at(58).custom_data_offs, 0xdead_beef);
    assert_eq!(at(62).custom_data_len, 0xdead_beef);
    assert_eq!(at(66).autoload_offs, 0xdead_beef);
    assert_eq!(at(70).autoload_len, 0xdead_beef);
    assert_eq!(at(74).fixup_offs, 0xdead_beef);
    assert_eq!(at(78).fixup_len, 0xdead_beef);
    assert_eq!(at(82).externals_offs, 0xdead_beef);
    assert_eq!(at(86).externals_len, 0xdead_beef);
    assert_eq!(at(90).exported_offs, 0xdead_beef);
    assert_eq!(at(94).exported_len, 0xdead_beef);
    assert_eq!(at(98).debug_offs, 0xdead_beef);
    assert_eq!(at(102).debug_len, 0xdead_beef);
    assert_eq!(at(106).uninit_len, 0xdead_beef);
    assert_eq!(at(110).start_offs, 0xdead_beef);
    assert_eq!(at(114).term_offs, 0xdead_beef);
    assert_eq!(at(118).check_offs, 0xdead_beef);
    assert_eq!(at(58).uninit_len, 0);
    assert_eq!(at(106).debug_len, 0);
}
