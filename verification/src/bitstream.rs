//! What the bits of a recording mean: single bits, symbols of the code tree,
//! integers of a given width and zero-terminated strings.
//!
//! Every function here is a specification. A read that would need a bit
//! beyond the end of the buffer has no value (`None`).

use crate::huffman::{HuffmanTree, Node};
use vstd::prelude::*;

verus! {

/// The number of bits in a buffer.
pub open spec fn bit_len(msg: Seq<u8>) -> int {
    8 * (msg.len() as int)
}

/// Bit `pos` of the buffer; bit 0 is the lowest bit of the first byte.
pub open spec fn bit_at(msg: Seq<u8>, pos: int) -> u8 {
    (msg[pos / 8] >> ((pos % 8) as u8)) & 1
}

/// The walk down the tree from `node`, one bit per step: 0 goes left, 1 goes
/// right. It ends at a leaf and gives the leaf's symbol and the position
/// after the last bit taken.
pub open spec fn walk(tree: &HuffmanTree, msg: Seq<u8>, node: int, pos: int) -> Option<(int, int)>
    decreases bit_len(msg) - pos,
{
    match tree.nodes()[node] {
        Node::Leaf { symbol } => Some((symbol as int, pos)),
        Node::Internal { left, right } => {
            if 0 <= pos < bit_len(msg) {
                let next = if bit_at(msg, pos) == 0 {
                    left
                } else {
                    right
                };
                walk(tree, msg, next as int, pos + 1)
            } else {
                None
            }
        },
    }
}

/// The symbol whose code word starts at `pos`, and the position after it.
pub open spec fn symbol_at(tree: &HuffmanTree, msg: Seq<u8>, pos: int) -> Option<(int, int)> {
    walk(tree, msg, tree.root(), pos)
}

/// The integer whose bit `i`, for `i < count`, is bit `pos + i` of the
/// buffer.
pub open spec fn low_bits(msg: Seq<u8>, pos: int, count: int) -> u32
    decreases count,
{
    if count <= 0 {
        0
    } else {
        low_bits(msg, pos, count - 1) | ((bit_at(msg, pos + count - 1) as u32) << ((count
            - 1) as u32))
    }
}

/// `count` symbols read from `pos` on, the first shifted left by `shift`
/// bits and each further one by eight more, joined bit by bit; and the
/// position after the last of them.
pub open spec fn symbols_at(
    tree: &HuffmanTree,
    msg: Seq<u8>,
    pos: int,
    count: int,
    shift: int,
) -> Option<(u32, int)>
    decreases count,
{
    if count <= 0 {
        Some((0u32, pos))
    } else {
        match symbol_at(tree, msg, pos) {
            None => None,
            Some((symbol, next)) => match symbols_at(tree, msg, next, count - 1, shift + 8) {
                None => None,
                Some((rest, end)) => Some((((symbol as u32) << (shift as u32)) | rest, end)),
            },
        }
    }
}

/// The integer of `bits` bits that starts at `pos`, and the position after
/// it. The `bits % 8` lowest bits stand in the buffer as they are; above them
/// follow `bits / 8` symbols of the code tree, lowest first.
pub open spec fn bits_at(tree: &HuffmanTree, msg: Seq<u8>, pos: int, bits: int) -> Option<
    (i32, int),
> {
    let loose = bits % 8;
    if pos < 0 || pos + loose > bit_len(msg) {
        None
    } else {
        match symbols_at(tree, msg, pos + loose, bits / 8, loose) {
            None => None,
            Some((high, end)) => Some(((low_bits(msg, pos, loose) | high) as i32, end)),
        }
    }
}

/// The bytes of the string that starts at `pos`: the symbols up to the first
/// that is zero, each cut to eight bits; and the position after that zero.
pub open spec fn string_at(tree: &HuffmanTree, msg: Seq<u8>, pos: int) -> Option<(Seq<u8>, int)>
    decreases bit_len(msg) - pos,
{
    match symbol_at(tree, msg, pos) {
        None => None,
        Some((symbol, next)) => {
            if symbol == 0 {
                Some((Seq::empty(), next))
            } else if pos < next <= bit_len(msg) {
                match string_at(tree, msg, next) {
                    None => None,
                    Some((rest, end)) => Some((seq![symbol as u8] + rest, end)),
                }
            } else {
                None
            }
        },
    }
}

/// Two integers read one after the other, taken as one: `low` holds the
/// `loose` lowest bits, `high` the bits above them.
pub open spec fn joined(low: i32, high: i32, loose: int) -> i32 {
    ((low as u32) | ((high as u32) << (loose as u32))) as i32
}

proof fn lemma_shift_parts(symbol: u32, rest: u32, shift: u32, extra: u32)
    requires
        shift + extra < 32,
    ensures
        ((symbol << shift) | rest) << extra == (symbol << ((shift + extra) as u32)) | (rest
            << extra),
        0u32 << extra == 0u32,
{
    assert(((symbol << shift) | rest) << extra == (symbol << ((shift + extra) as u32)) | (rest
        << extra)) by (bit_vector)
        requires
            shift + extra < 32,
    ;
    assert(0u32 << extra == 0u32) by (bit_vector);
}

/// Symbols read at a larger shift give the value read at the smaller one,
/// shifted by the difference.
proof fn lemma_symbols_shift(
    tree: &HuffmanTree,
    msg: Seq<u8>,
    pos: int,
    count: int,
    shift: int,
    extra: int,
)
    requires
        0 <= shift,
        0 <= extra,
        count > 0 ==> shift + 8 * (count - 1) + extra < 32,
        count <= 0 ==> extra < 32,
    ensures
        symbols_at(tree, msg, pos, count, shift + extra) == match symbols_at(
            tree,
            msg,
            pos,
            count,
            shift,
        ) {
            None => None::<(u32, int)>,
            Some((value, end)) => Some((value << (extra as u32), end)),
        },
    decreases count,
{
    if count <= 0 {
        lemma_shift_parts(0, 0, 0, extra as u32);
    } else {
        match symbol_at(tree, msg, pos) {
            None => {},
            Some((symbol, next)) => {
                lemma_symbols_shift(tree, msg, next, count - 1, shift + 8, extra);
                match symbols_at(tree, msg, next, count - 1, shift + 8) {
                    None => {},
                    Some((rest, end)) => {
                        lemma_shift_parts(symbol as u32, rest, shift as u32, extra as u32);
                    },
                }
            },
        }
    }
}

/// Reading no bits gives 0 and leaves the position.
pub proof fn lemma_bits_none(tree: &HuffmanTree, msg: Seq<u8>, pos: int)
    requires
        0 <= pos <= bit_len(msg),
    ensures
        bits_at(tree, msg, pos, 0) == Some((0i32, pos)),
{
    assert((0u32 | 0u32) as i32 == 0i32) by (bit_vector);
}

/// Reading fewer than eight bits takes them from the buffer as they stand.
pub proof fn lemma_bits_loose(tree: &HuffmanTree, msg: Seq<u8>, pos: int, bits: int)
    requires
        0 <= bits < 8,
        0 <= pos,
        pos + bits <= bit_len(msg),
    ensures
        bits_at(tree, msg, pos, bits) == Some((low_bits(msg, pos, bits) as i32, pos + bits)),
{
    let low = low_bits(msg, pos, bits);
    assert(low | 0u32 == low) by (bit_vector);
}

/// Reading eight bits is reading one symbol.
pub proof fn lemma_bits_symbol(tree: &HuffmanTree, msg: Seq<u8>, pos: int)
    requires
        0 <= pos <= bit_len(msg),
    ensures
        bits_at(tree, msg, pos, 8) == match symbol_at(tree, msg, pos) {
            None => None::<(i32, int)>,
            Some((symbol, end)) => Some((symbol as i32, end)),
        },
{
    match symbol_at(tree, msg, pos) {
        None => {},
        Some((symbol, end)) => {
            let s = symbol as u32;
            assert(symbols_at(tree, msg, end, 0, 8) == Some((0u32, end)));
            assert(0u32 | ((s << 0u32) | 0u32) == s) by (bit_vector);
            lemma_walk_symbol(tree, msg, tree.root(), pos);
        },
    }
}

/// A walk moves forward, and where it takes a bit it stays inside the
/// buffer.
pub proof fn lemma_walk_moves(tree: &HuffmanTree, msg: Seq<u8>, node: int, pos: int)
    ensures
        walk(tree, msg, node, pos) matches Some((symbol, end)) ==> pos <= end && (end == pos
            || end <= bit_len(msg)),
    decreases bit_len(msg) - pos,
{
    match tree.nodes()[node] {
        Node::Leaf { symbol } => {},
        Node::Internal { left, right } => {
            if 0 <= pos < bit_len(msg) {
                let next = if bit_at(msg, pos) == 0 {
                    left
                } else {
                    right
                };
                lemma_walk_moves(tree, msg, next as int, pos + 1);
            }
        },
    }
}

/// Symbols are read forward, inside the buffer.
pub proof fn lemma_symbols_move(
    tree: &HuffmanTree,
    msg: Seq<u8>,
    pos: int,
    count: int,
    shift: int,
)
    requires
        0 <= pos <= bit_len(msg),
    ensures
        symbols_at(tree, msg, pos, count, shift) matches Some((value, end)) ==> pos <= end
            <= bit_len(msg),
    decreases count,
{
    if count > 0 {
        lemma_walk_moves(tree, msg, tree.root(), pos);
        match symbol_at(tree, msg, pos) {
            None => {},
            Some((symbol, next)) => {
                lemma_symbols_move(tree, msg, next, count - 1, shift + 8);
            },
        }
    }
}

/// An integer is read forward, inside the buffer.
pub proof fn lemma_bits_move(tree: &HuffmanTree, msg: Seq<u8>, pos: int, bits: int)
    requires
        0 <= bits,
    ensures
        bits_at(tree, msg, pos, bits) matches Some((value, end)) ==> 0 <= pos <= end <= bit_len(
            msg,
        ),
{
    let loose = bits % 8;
    if 0 <= pos && pos + loose <= bit_len(msg) {
        lemma_symbols_move(tree, msg, pos + loose, bits / 8, loose);
    }
}

/// The symbol that a walk ends on is that of a leaf, a 16-bit number.
pub proof fn lemma_walk_symbol(tree: &HuffmanTree, msg: Seq<u8>, node: int, pos: int)
    ensures
        walk(tree, msg, node, pos) matches Some((symbol, end)) ==> 0 <= symbol <= u16::MAX,
    decreases bit_len(msg) - pos,
{
    match tree.nodes()[node] {
        Node::Leaf { symbol } => {},
        Node::Internal { left, right } => {
            if 0 <= pos < bit_len(msg) {
                let next = if bit_at(msg, pos) == 0 {
                    left
                } else {
                    right
                };
                lemma_walk_symbol(tree, msg, next as int, pos + 1);
            }
        },
    }
}

/// An integer of any width up to 32 bits is what its loose bits and its
/// whole bytes give when they are read one after the other and joined:
/// whether the width is a multiple of eight makes no difference.
pub proof fn lemma_bits_split(tree: &HuffmanTree, msg: Seq<u8>, pos: int, bits: int)
    requires
        0 <= bits <= 32,
        0 <= pos,
    ensures
        bits_at(tree, msg, pos, bits) == match bits_at(tree, msg, pos, bits % 8) {
            None => None::<(i32, int)>,
            Some((low, mid)) => match bits_at(tree, msg, mid, bits - bits % 8) {
                None => None,
                Some((high, end)) => Some((joined(low, high, bits % 8), end)),
            },
        },
{
    let loose = bits % 8;
    let count = bits / 8;
    if pos + loose <= bit_len(msg) {
        lemma_bits_loose(tree, msg, pos, loose);
        let low = low_bits(msg, pos, loose);
        let mid = pos + loose;
        assert((bits - loose) % 8 == 0 && (bits - loose) / 8 == count);
        lemma_symbols_shift(tree, msg, mid, count, 0, loose);
        match symbols_at(tree, msg, mid, count, 0) {
            None => {},
            Some((whole, end)) => {
                let shift = loose as u32;
                assert(0u32 | whole == whole) by (bit_vector);
                assert(low_bits(msg, mid, 0) == 0u32);
                assert(((low as i32) as u32 | (((whole as i32) as u32) << shift)) as i32 == (low | (
                whole << shift)) as i32) by (bit_vector);
            },
        }
    }
}

} // verus!
