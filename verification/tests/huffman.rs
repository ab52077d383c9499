use nlm2elf::error::NLMError;
use nlm2elf::huffman::{decode_from_tree, read_tree, Node};
use nlm2elf::streamer::Streamer;

/// Collects bits into bytes, least significant bit of each byte first.
struct Bits {
    bytes: Vec<u8>,
    used: usize,
}

fn bits() -> Bits {
    Bits { bytes: Vec::new(), used: 0 }
}

fn put(b: &mut Bits, value: u32, count: usize) {
    for k in 0..count {
        if b.used % 8 == 0 {
            b.bytes.push(0);
        }
        if (value >> k) & 1 != 0 {
            let last = b.bytes.len() - 1;
            b.bytes[last] |= 1 << (b.used % 8);
        }
        b.used += 1;
    }
}

fn put_leaf(b: &mut Bits, value: u8) {
    put(b, 1, 1);
    put(b, value as u32, 8);
}

fn leaf(value: u8) -> Box<Node> {
    Box::new(Node { link: None, value })
}

fn fork(zero: Box<Node>, one: Box<Node>) -> Box<Node> {
    Box::new(Node { link: Some((zero, one)), value: 0 })
}

fn is_leaf(node: &Node, value: u8) -> bool {
    node.link.is_none() && node.value == value
}

#[test]
fn new_node_is_a_zero_leaf() {
    let node = Node::new();
    assert!(node.link.is_none());
    assert_eq!(node.value, 0);
}

#[test]
fn single_leaf_takes_nine_bits() {
    let mut b = bits();
    put_leaf(&mut b, 0x5a);
    put(&mut b, 0x7f, 7);
    let mut s = Streamer::new(&b.bytes);
    let tree = read_tree(&mut s).unwrap();
    assert!(is_leaf(&tree, 0x5a));
    assert_eq!(s.read_bits(7), Ok(0x7f));
}

#[test]
fn nested_tree_is_read_zero_branch_first() {
    // (a, ((b, c), d))
    let mut b = bits();
    put(&mut b, 0, 1);
    put_leaf(&mut b, b'a');
    put(&mut b, 0, 1);
    put(&mut b, 0, 1);
    put_leaf(&mut b, b'b');
    put_leaf(&mut b, b'c');
    put_leaf(&mut b, b'd');
    put(&mut b, 1, 1);
    let mut s = Streamer::new(&b.bytes);
    let tree = read_tree(&mut s).unwrap();
    assert_eq!(tree.value, 0);
    let (zero, one) = tree.link.as_ref().unwrap();
    assert!(is_leaf(zero, b'a'));
    let (one_zero, one_one) = one.link.as_ref().unwrap();
    assert!(is_leaf(one_one, b'd'));
    let (x, y) = one_zero.link.as_ref().unwrap();
    assert!(is_leaf(x, b'b'));
    assert!(is_leaf(y, b'c'));
    assert_eq!(s.read_bit(), Ok(1));
}

#[test]
fn tree_cut_short_is_an_end_of_stream() {
    let mut b = bits();
    put(&mut b, 0, 1);
    put_leaf(&mut b, b'a');
    put(&mut b, 1, 1);
    put(&mut b, 0x12, 5);
    let mut s = Streamer::new(&b.bytes);
    assert_eq!(read_tree(&mut s).err(), Some(NLMError::EndOfStream));
    let empty: [u8; 0] = [];
    let mut s = Streamer::new(&empty);
    assert_eq!(read_tree(&mut s).err(), Some(NLMError::EndOfStream));
    let zeros = [0u8; 3];
    let mut s = Streamer::new(&zeros);
    assert_eq!(read_tree(&mut s).err(), Some(NLMError::EndOfStream));
}

#[test]
fn decoding_follows_the_bits_to_a_leaf() {
    let tree = fork(leaf(b'a'), fork(fork(leaf(b'b'), leaf(b'c')), leaf(b'd')));
    let mut b = bits();
    put(&mut b, 0b0, 1); // a
    put(&mut b, 0b11, 2); // d
    put(&mut b, 0b001, 3); // b: bits 1, 0, 0
    put(&mut b, 0b101, 3); // c: bits 1, 0, 1
    put(&mut b, 0b0, 1); // a
    let mut s = Streamer::new(&b.bytes);
    assert_eq!(decode_from_tree(&mut s, &tree), Ok(b'a'));
    assert_eq!(decode_from_tree(&mut s, &tree), Ok(b'd'));
    assert_eq!(decode_from_tree(&mut s, &tree), Ok(b'b'));
    assert_eq!(decode_from_tree(&mut s, &tree), Ok(b'c'));
    assert_eq!(decode_from_tree(&mut s, &tree), Ok(b'a'));
}

#[test]
fn decoding_with_a_leaf_uses_no_bits() {
    let tree = leaf(7);
    let data = [0xa5u8];
    let mut s = Streamer::new(&data);
    assert_eq!(decode_from_tree(&mut s, &tree), Ok(7));
    assert_eq!(decode_from_tree(&mut s, &tree), Ok(7));
    assert_eq!(s.read_bits(8), Ok(0xa5));
    assert_eq!(decode_from_tree(&mut s, &tree), Ok(7));
}

#[test]
fn decoding_past_the_end_is_an_end_of_stream() {
    let tree = fork(leaf(1), fork(leaf(2), leaf(3)));
    let data = [0xffu8];
    let mut s = Streamer::new(&data);
    assert_eq!(s.read_bits(7), Ok(0x7f));
    assert_eq!(decode_from_tree(&mut s, &tree), Err(NLMError::EndOfStream));
}

#[test]
fn tree_read_back_decodes_what_it_encodes() {
    let mut b = bits();
    put(&mut b, 0, 1);
    put_leaf(&mut b, 0x11);
    put_leaf(&mut b, 0x22);
    put(&mut b, 0b10, 2);
    let mut s = Streamer::new(&b.bytes);
    let tree = read_tree(&mut s).unwrap();
    assert_eq!(decode_from_tree(&mut s, &tree), Ok(0x11));
    assert_eq!(decode_from_tree(&mut s, &tree), Ok(0x22));
}

#[test]
fn leaf_stored_in_one_word() {
    let data = [0x83u8, 0, 0, 0];
    let mut s = Streamer::new(&data);
    let tree = read_tree(&mut s).unwrap();
    assert!(is_leaf(&tree, 0x41));
    // nine bits were used: the next byte boundary is bit 16
    s.drop_bits();
    assert_eq!(s.read_bits(16), Ok(0));
    assert_eq!(s.read_bit(), Err(NLMError::EndOfStream));
}

#[test]
fn two_leaves_stored_in_one_word() {
    let data = [0x06u8, 0x14, 0, 0];
    let mut s = Streamer::new(&data);
    let tree = read_tree(&mut s).unwrap();
    let (zero, one) = tree.link.as_ref().unwrap();
    assert!(is_leaf(zero, 1));
    assert!(is_leaf(one, 2));
    // nineteen bits were used: thirteen are left
    assert_eq!(s.read_bits(13), Ok(0));
    assert_eq!(s.read_bit(), Err(NLMError::EndOfStream));
}

#[test]
fn one_bit_selects_the_second_child() {
    let tree = fork(leaf(1), leaf(2));
    let data = [0x01u8, 0, 0, 0];
    let mut s = Streamer::new(&data);
    assert_eq!(decode_from_tree(&mut s, &tree), Ok(2));
    assert_eq!(s.read_bits(31), Ok(0));
    assert_eq!(s.read_bit(), Err(NLMError::EndOfStream));
}
