use nlm2elf::error::NLMError;
use nlm2elf::fixup::{relocate_word, NLM_CODE_VADDR, NLM_DATA_VADDR};
use nlm2elf::header::NLMHeader;
use nlm2elf::nlm::NLM;
use nlm2elf::tables::NLMFixup;

const MAGIC: &[u8; 24] = b"NetWare Loadable Module\x1a";

#[test]
fn load_addresses() {
    assert_eq!(NLM_CODE_VADDR, 0x1000_0000);
    assert_eq!(NLM_DATA_VADDR, 0x4000_0000);
}

#[test]
fn relocate_word_adds_to_the_little_endian_word() {
    let mut image = vec![0xaa, 0x08, 0x00, 0x00, 0x00, 0xbb];
    relocate_word(&mut image, 1, 0x4000_0000);
    assert_eq!(image, vec![0xaa, 0x08, 0x00, 0x00, 0x40, 0xbb]);
    relocate_word(&mut image, 1, 0x0102_0304);
    assert_eq!(image, vec![0xaa, 0x0c, 0x03, 0x02, 0x41, 0xbb]);
}

#[test]
fn relocate_word_wraps_modulo_two_to_the_32() {
    let mut image = vec![0x01, 0x00, 0x00, 0xf0];
    relocate_word(&mut image, 0, 0x1000_0000);
    assert_eq!(image, vec![0x01, 0x00, 0x00, 0x00]);
    let mut image = vec![0xff, 0xff, 0xff, 0xff];
    relocate_word(&mut image, 0, 0xffff_ffff);
    assert_eq!(image, vec![0xfe, 0xff, 0xff, 0xff]);
}

#[test]
fn relocate_word_changes_only_its_four_bytes() {
    let before: Vec<u8> = (0..32u8).collect();
    for at in 0..=28 {
        let mut image = before.clone();
        relocate_word(&mut image, at, 0x4000_0000);
        assert_eq!(image.len(), before.len());
        for i in 0..32 {
            if i < at || i >= at + 4 {
                assert_eq!(image[i], before[i]);
            }
        }
        let old = u32::from_le_bytes(before[at..at + 4].try_into().unwrap());
        let new = u32::from_le_bytes(image[at..at + 4].try_into().unwrap());
        assert_eq!(new, old.wrapping_add(0x4000_0000));
    }
}

#[test]
fn fixup_kinds_pick_segment_and_address() {
    let image: Vec<u8> = vec![0; 24];
    let cases = [
        (NLMFixup::AbsRefToDataFromData(4), 16 + 4, 0x4000_0000u32),
        (NLMFixup::AbsRefToDataFromCode(4), 8 + 4, 0x4000_0000),
        (NLMFixup::AbsRefToCodeFromData(0), 16, 0x1000_0000),
        (NLMFixup::AbsRefToCodeFromCode(0), 8, 0x1000_0000),
    ];
    for (fixup, at, vaddr) in cases {
        let mut fixed = image.clone();
        assert_eq!(fixup.apply(&mut fixed, 8, 16), Ok(()));
        let mut expected = image.clone();
        expected[at..at + 4].copy_from_slice(&vaddr.to_le_bytes());
        assert_eq!(fixed, expected);
    }
}

#[test]
fn fixup_outside_the_image_is_refused_and_changes_nothing() {
    let before: Vec<u8> = (0..24u8).collect();
    let mut image = before.clone();
    assert_eq!(
        NLMFixup::AbsRefToDataFromData(5).apply(&mut image, 8, 16),
        Err(NLMError::FixupOutOfRange)
    );
    assert_eq!(image, before);
    assert_eq!(NLMFixup::AbsRefToDataFromData(4).apply(&mut image, 8, 16), Ok(()));
    let mut image = before.clone();
    assert_eq!(
        NLMFixup::AbsRefToCodeFromCode(0x03ff_ffff).apply(&mut image, 0xffff_ffff, 0),
        Err(NLMError::FixupOutOfRange)
    );
    assert_eq!(image, before);
}

fn image_with_fixups(fixups: &[u32]) -> Vec<u8> {
    let mut image = vec![0u8; 128];
    image[0..24].copy_from_slice(MAGIC);
    image[24] = 4;
    image[42..46].copy_from_slice(&128u32.to_le_bytes());
    image[46..50].copy_from_slice(&8u32.to_le_bytes());
    image[50..54].copy_from_slice(&136u32.to_le_bytes());
    image[54..58].copy_from_slice(&8u32.to_le_bytes());
    image.extend_from_slice(&[0x08, 0, 0, 0, 0x04, 0, 0, 0]);
    image.extend_from_slice(&[0x02, 0, 0, 0, 0xff, 0xff, 0xff, 0xff]);
    image[74..78].copy_from_slice(&144u32.to_le_bytes());
    image[78..82].copy_from_slice(&(fixups.len() as u32).to_le_bytes());
    for word in fixups {
        image.extend_from_slice(&word.to_le_bytes());
    }
    image
}

#[test]
fn fixups_of_an_image_are_applied_in_order_to_a_copy() {
    let image = image_with_fixups(&[0x4000_0000, 0xc000_0004, 0x0000_0000, 0x8000_0004]);
    let nlm = NLM::new(&image).unwrap();
    let fixed = nlm.apply_fixups().unwrap();
    assert_eq!(nlm.data, image);
    assert_eq!(fixed.len(), image.len());
    assert_eq!(&fixed[128..136], &[0x08, 0, 0, 0x40, 0x04, 0, 0, 0x10]);
    assert_eq!(&fixed[136..144], &[0x02, 0, 0, 0x40, 0xff, 0xff, 0xff, 0x0f]);
    assert_eq!(&fixed[..128], &image[..128]);
    assert_eq!(&fixed[144..], &image[144..]);
}

#[test]
fn fixup_applied_twice_adds_twice() {
    let image = image_with_fixups(&[0x4000_0000, 0x4000_0000]);
    let fixed = NLM::new(&image).unwrap().apply_fixups().unwrap();
    assert_eq!(&fixed[128..132], &[0x08, 0, 0, 0x80]);
}

#[test]
fn image_without_fixups_is_copied() {
    let image = image_with_fixups(&[]);
    assert_eq!(NLM::new(&image).unwrap().apply_fixups(), Ok(image));
}

#[test]
fn bad_fixup_table_or_fixup_fails_the_whole_pass() {
    let image = image_with_fixups(&[0x4000_0000, 0x5000_0000]);
    assert_eq!(
        NLM::new(&image).unwrap().apply_fixups(),
        Err(NLMError::UnsupportedFixupType(5))
    );
    let image = image_with_fixups(&[0x4000_0000, 0x4000_1000]);
    assert_eq!(NLM::new(&image).unwrap().apply_fixups(), Err(NLMError::FixupOutOfRange));
    let mut image = image_with_fixups(&[0x4000_0000]);
    image[78] = 2;
    assert_eq!(NLM::new(&image).unwrap().apply_fixups(), Err(NLMError::UnexpectedEof));
}

#[test]
fn apply_reads_segments_from_the_header_of_the_image() {
    let image = image_with_fixups(&[0x4000_0004]);
    let nlm = NLM::new(&image).unwrap();
    let header: &NLMHeader = &nlm.header;
    assert_eq!(header.code_offs, 128);
    assert_eq!(header.data_offs, 136);
    let fixed = nlm.apply_fixups().unwrap();
    assert_eq!(&fixed[132..136], &[0x04, 0, 0, 0x40]);
}
