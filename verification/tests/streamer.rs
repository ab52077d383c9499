use nlm2elf::error::NLMError;
use nlm2elf::streamer::Streamer;

/// Bit `i` of the buffer, least significant bit of each byte first.
fn reference_bit(buffer: &[u8], i: usize) -> u32 {
    ((buffer[i / 8] >> (i % 8)) & 1) as u32
}

/// The number formed by `count` bits from bit `pos` on, first bit lowest.
fn reference_bits(buffer: &[u8], pos: usize, count: usize) -> u32 {
    let mut value: u64 = 0;
    for k in 0..count {
        value |= (reference_bit(buffer, pos + k) as u64) << k;
    }
    value as u32
}

#[test]
fn bits_come_out_lowest_first() {
    let data = [0b1010_0101u8, 0b0000_1111];
    let mut s = Streamer::new(&data);
    let expected = [1, 0, 1, 0, 0, 1, 0, 1, 1, 1, 1, 1, 0, 0, 0, 0];
    for bit in expected {
        assert_eq!(s.read_bit(), Ok(bit));
    }
    assert_eq!(s.read_bit(), Err(NLMError::EndOfStream));
    assert_eq!(s.read_bit(), Err(NLMError::EndOfStream));
}

#[test]
fn read_bits_assembles_lowest_bit_first() {
    let data = [0xa5u8, 0x0f, 0x12, 0x34, 0x56];
    let mut s = Streamer::new(&data);
    assert_eq!(s.read_bits(4), Ok(0x5));
    assert_eq!(s.read_bits(8), Ok(0xfa));
    assert_eq!(s.read_bits(12), Ok(0x120));
    assert_eq!(s.read_bits(16), Ok(0x5634));
    assert_eq!(s.read_bits(1), Err(NLMError::EndOfStream));
}

#[test]
fn read_bits_of_a_whole_word_is_little_endian() {
    let data = [0x78u8, 0x56, 0x34, 0x12, 0xff];
    let mut s = Streamer::new(&data);
    assert_eq!(s.read_bits(32), Ok(0x1234_5678));
    assert_eq!(s.read_bits(8), Ok(0xff));
}

#[test]
fn read_bits_across_word_boundary() {
    let data = [0x00u8, 0x00, 0x00, 0x80, 0x01, 0x00, 0x00, 0x00, 0x03];
    let mut s = Streamer::new(&data);
    assert_eq!(s.read_bits(31), Ok(0));
    assert_eq!(s.read_bits(2), Ok(3));
    assert_eq!(s.read_bits(31), Ok(0));
    assert_eq!(s.read_bits(8), Ok(3));
}

#[test]
fn read_zero_bits_gives_zero_and_consumes_nothing() {
    let data = [0xffu8];
    let mut s = Streamer::new(&data);
    assert_eq!(s.read_bits(0), Ok(0));
    assert_eq!(s.read_bits(8), Ok(0xff));
    assert_eq!(s.read_bits(0), Ok(0));
}

#[test]
fn empty_source_has_no_bits() {
    let data: [u8; 0] = [];
    let mut s = Streamer::new(&data);
    assert_eq!(s.read_bit(), Err(NLMError::EndOfStream));
    assert_eq!(s.read_bits(1), Err(NLMError::EndOfStream));
    s.drop_bits();
    assert_eq!(s.read_bits(0), Ok(0));
}

#[test]
fn asking_for_more_than_is_left_fails_and_exhausts() {
    let data = [0xffu8, 0xff];
    let mut s = Streamer::new(&data);
    assert_eq!(s.read_bits(3), Ok(7));
    assert_eq!(s.read_bits(14), Err(NLMError::EndOfStream));
    assert_eq!(s.read_bit(), Err(NLMError::EndOfStream));
}

#[test]
fn drop_bits_skips_to_the_next_byte() {
    let data = [0x01u8, 0x02, 0x03, 0x04, 0x05, 0x06, 0x07];
    let mut s = Streamer::new(&data);
    s.drop_bits();
    assert_eq!(s.read_bits(8), Ok(0x01));
    assert_eq!(s.read_bit(), Ok(0));
    s.drop_bits();
    assert_eq!(s.read_bits(8), Ok(0x03));
    s.drop_bits();
    s.drop_bits();
    assert_eq!(s.read_bits(3), Ok(4));
    s.drop_bits();
    assert_eq!(s.read_bits(7), Ok(0x05));
    s.drop_bits();
    assert_eq!(s.read_bits(16), Ok(0x0706));
    s.drop_bits();
    assert_eq!(s.read_bit(), Err(NLMError::EndOfStream));
}

#[test]
fn reads_agree_with_reference_extraction_for_every_length() {
    let buffer: Vec<u8> = (0..23u32).map(|i| (i * 37 + 11) as u8).collect();
    for len in 0..buffer.len() {
        let source = &buffer[..len];
        for pattern in 0..6usize {
            let counts: [usize; 6] = [1, 5, 13, 8, 32, 3];
            let mut s = Streamer::new(source);
            let mut pos = 0;
            let mut turn = pattern;
            loop {
                let count = counts[turn % counts.len()];
                turn += 1;
                let got = s.read_bits(count as u32);
                if pos + count <= 8 * len {
                    assert_eq!(got, Ok(reference_bits(source, pos, count)));
                    pos += count;
                } else {
                    assert_eq!(got, Err(NLMError::EndOfStream));
                    break;
                }
            }
        }
    }
}

#[test]
fn single_bits_agree_with_reference_extraction() {
    let buffer: Vec<u8> = (0..11u32).map(|i| (i * 91 + 5) as u8).collect();
    let mut s = Streamer::new(&buffer);
    for i in 0..8 * buffer.len() {
        assert_eq!(s.read_bit(), Ok(reference_bit(&buffer, i)));
    }
    assert_eq!(s.read_bit(), Err(NLMError::EndOfStream));
}
