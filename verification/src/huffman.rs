//! The prefix-code trees of a packed image: how they are stored in the bit
//! stream and how a symbol is decoded with one.
use crate::bits::{bit_at, bits_value, lemma_bit_at_is_bit, lemma_bits_value_bound};
use crate::error::NLMError;
use crate::streamer::Streamer;
use vstd::arithmetic::power2::lemma2_to64;
use vstd::prelude::*;

verus! {

/// A node of a prefix-code tree. A node without `link` is a leaf and carries
/// the decoded byte in `value`; otherwise `link` holds the subtree for bit 0
/// and the subtree for bit 1.
#[derive(Debug)]
pub struct Node {
    pub link: Option<(Box<Node>, Box<Node>)>,
    pub value: u8,
}

impl Node {
    /// Number of edges on the longest path from this node to a leaf.
    pub open spec fn height(self) -> nat
        decreases self,
    {
        match self.link {
            None => 0,
            Some((zero, one)) => {
                let h0 = zero.height();
                let h1 = one.height();
                1 + if h0 >= h1 {
                    h0
                } else {
                    h1
                }
            },
        }
    }

    /// A leaf that carries the byte 0.
    pub fn new() -> (node: Box<Node>)
        ensures
            node.link is None,
            node.value == 0,
    {
        Box::new(Node { link: None, value: 0 })
    }
}

/// The tree stored at bit `pos` of `data`, and the position after it. A tree
/// is stored as a 1 bit and the eight bits of a leaf value, or as a 0 bit,
/// the subtree for bit 0 and the subtree for bit 1. `None` when the bit
/// string ends inside the tree.
pub open spec fn parse_tree(data: Seq<u8>, pos: int) -> Option<(Node, int)>
    decreases 8 * data.len() - pos,
{
    if pos < 0 || pos >= 8 * data.len() {
        None
    } else if bit_at(data, pos) != 0 {
        if pos + 9 <= 8 * data.len() {
            Some((Node { link: None, value: bits_value(data, pos + 1, 8) as u8 }, pos + 9))
        } else {
            None
        }
    } else {
        match parse_tree(data, pos + 1) {
            None => None,
            Some((zero, mid)) => {
                if mid <= pos || mid > 8 * data.len() {
                    None
                } else {
                    match parse_tree(data, mid) {
                        None => None,
                        Some((one, end)) => Some(
                            (Node { link: Some((Box::new(zero), Box::new(one))), value: 0 }, end),
                        ),
                    }
                }
            },
        }
    }
}

/// The byte decoded with `tree` from the bits that start at `pos`, and the
/// position after the bits used: each bit selects a subtree until a leaf is
/// reached. `None` when the bit string ends before a leaf is reached.
pub open spec fn decode_symbol(tree: Node, data: Seq<u8>, pos: int) -> Option<(u8, int)>
    decreases tree,
{
    match tree.link {
        None => Some((tree.value, pos)),
        Some((zero, one)) => {
            if pos < 0 || pos >= 8 * data.len() {
                None
            } else if bit_at(data, pos) == 0 {
                decode_symbol(*zero, data, pos + 1)
            } else {
                decode_symbol(*one, data, pos + 1)
            }
        },
    }
}

/// A stored tree takes at least one bit and ends inside the bit string.
pub proof fn lemma_parse_tree_advances(data: Seq<u8>, pos: int)
    ensures
        parse_tree(data, pos) matches Some(parsed) ==> pos < parsed.1 <= 8 * data.len(),
    decreases 8 * data.len() - pos,
{
    if 0 <= pos < 8 * data.len() && bit_at(data, pos) == 0 {
        lemma_parse_tree_advances(data, pos + 1);
        if let Some((zero, mid)) = parse_tree(data, pos + 1) {
            if pos < mid <= 8 * data.len() {
                lemma_parse_tree_advances(data, mid);
            }
        }
    }
}

/// Decoding a symbol never moves backwards and stays inside the bit string.
pub proof fn lemma_decode_symbol_advances(tree: Node, data: Seq<u8>, pos: int)
    requires
        0 <= pos <= 8 * data.len(),
    ensures
        decode_symbol(tree, data, pos) matches Some(decoded) ==> pos <= decoded.1 <= 8
            * data.len(),
    decreases tree,
{
    if let Some((zero, one)) = tree.link {
        if pos < 8 * data.len() {
            if bit_at(data, pos) == 0 {
                lemma_decode_symbol_advances(*zero, data, pos + 1);
            } else {
                lemma_decode_symbol_advances(*one, data, pos + 1);
            }
        }
    }
}

/// Reads the tree stored at the reader's position. Fails with `EndOfStream`
/// exactly when the source ends inside the tree; the reader is then at the
/// end of its source. Nothing but the bits of the tree is handed out.
pub fn read_tree(streamer: &mut Streamer) -> (r: Result<Box<Node>, NLMError>)
    requires
        old(streamer).wf(),
    ensures
        final(streamer).wf(),
        final(streamer).source() == old(streamer).source(),
        match parse_tree(old(streamer).source(), old(streamer).bit_pos()) {
            Some((tree, end)) => r is Ok && *r->Ok_0 == tree && final(streamer).bit_pos() == end,
            None => r == Err::<Box<Node>, NLMError>(NLMError::EndOfStream),
        },
        r is Ok ==> final(streamer).follows(*old(streamer)),
        r is Err ==> final(streamer).exhausted(),
    decreases old(streamer).total_bits() - old(streamer).bit_pos(),
{
    let ghost src = streamer.source();
    let ghost pos = streamer.bit_pos();
    let ghost before = *streamer;
    let mut node = Node::new();
    let bit = streamer.read_bit()?;
    let ghost after_bit = *streamer;
    if bit != 0 {
        let value = streamer.read_bits(8)?;
        proof {
            lemma_bits_value_bound(src, pos + 1, 8);
            lemma2_to64();
            streamer.lemma_follows_chain(after_bit, before);
        }
        node.value = value as u8;
    } else {
        proof {
            lemma_bit_at_is_bit(src, pos);
            lemma_parse_tree_advances(src, pos + 1);
        }
        let first = read_tree(streamer)?;
        let ghost after_first = *streamer;
        proof {
            lemma_parse_tree_advances(src, streamer.bit_pos());
            after_first.lemma_follows_chain(after_bit, before);
        }
        let second = read_tree(streamer)?;
        proof {
            streamer.lemma_follows_chain(after_first, before);
        }
        node.link = Some((first, second));
    }
    Ok(node)
}

/// Decodes one symbol with `tree` from the bits at the reader's position.
/// Fails with `EndOfStream` exactly when the source ends before a leaf is
/// reached; the reader is then at the end of its source. Nothing but the
/// bits that lead to the leaf is handed out.
pub fn decode_from_tree(streamer: &mut Streamer, tree: &Box<Node>) -> (r: Result<u8, NLMError>)
    requires
        old(streamer).wf(),
    ensures
        final(streamer).wf(),
        final(streamer).source() == old(streamer).source(),
        match decode_symbol(**tree, old(streamer).source(), old(streamer).bit_pos()) {
            Some((value, end)) => r == Ok::<u8, NLMError>(value) && final(streamer).bit_pos()
                == end,
            None => r == Err::<u8, NLMError>(NLMError::EndOfStream),
        },
        r is Ok ==> final(streamer).follows(*old(streamer)),
        r is Err ==> final(streamer).exhausted(),
{
    let ghost src = streamer.source();
    let ghost start = streamer.bit_pos();
    let mut node: &Node = &**tree;
    loop
        invariant
            streamer.wf(),
            streamer.source() == src,
            src == old(streamer).source(),
            start == old(streamer).bit_pos(),
            decode_symbol(**tree, src, start) == decode_symbol(*node, src, streamer.bit_pos()),
            streamer.follows(*old(streamer)),
        decreases node.height(),
    {
        match &node.link {
            None => {
                return Ok(node.value);
            },
            Some(pair) => {
                let ghost before = *streamer;
                let bit = streamer.read_bit()?;
                proof {
                    lemma_bit_at_is_bit(src, streamer.bit_pos() - 1);
                    streamer.lemma_follows_chain(before, *old(streamer));
                }
                node =
                if bit == 0 {
                    &*pair.0
                } else {
                    &*pair.1
                };
            },
        }
    }
}

} // verus!
