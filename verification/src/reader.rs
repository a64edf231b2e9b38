//! The bit-level reader of a recording: single bits, symbols, integers and
//! strings, each read at a bit position that the call moves forward.

use crate::bitstream::{
    bit_at, bit_len, bits_at, low_bits, string_at, symbol_at, symbols_at, walk,
};
use crate::demo::Demo;
use crate::huffman::{HuffmanTree, Node};
use crate::text::{bytes_to_text, text_of};
use vstd::prelude::*;

verus! {

proof fn lemma_join_bits(a: u32, b: u32, c: u32)
    ensures
        a | (b | c) == (a | b) | c,
        a | 0 == a,
        0 | a == a,
{
    assert(a | (b | c) == (a | b) | c) by (bit_vector);
    assert(a | 0 == a) by (bit_vector);
    assert(0 | a == a) by (bit_vector);
}

proof fn lemma_join_zero()
    ensures
        forall|a: u32| #[trigger] (0u32 | a) == a,
{
    assert forall|a: u32| #[trigger] (0u32 | a) == a by {
        assert(0u32 | a == a) by (bit_vector);
    }
}

impl Demo {
    /// Reads the bit at `bit_position` and moves the position one bit on.
    pub fn bitbuffer_read(msg: &Vec<u8>, bit_position: &mut usize) -> (bit: i32)
        requires
            *old(bit_position) < bit_len(msg@),
            bit_len(msg@) <= usize::MAX,
        ensures
            bit == bit_at(msg@, *old(bit_position) as int),
            0 <= bit <= 1,
            *final(bit_position) == *old(bit_position) + 1,
    {
        let bit_offset: usize = *bit_position % 8;
        let byte_offset: usize = *bit_position / 8;
        let shift: u8 = bit_offset as u8;
        let byte: u8 = msg[byte_offset];
        let result: u8 = (byte >> shift) & 1;
        assert(((byte >> shift) & 1) <= 1) by (bit_vector);
        *bit_position += 1;
        result as i32
    }

    /// Reads the symbol whose code word starts at `bit_position`, if the
    /// buffer holds all of it, and moves the position behind it. Otherwise
    /// the position stays.
    pub fn try_huffman_read(msg: &Vec<u8>, tree: &HuffmanTree, bit_position: &mut usize) -> (r:
        Option<i32>)
        requires
            bit_len(msg@) <= usize::MAX,
        ensures
            match symbol_at(tree, msg@, *old(bit_position) as int) {
                Some((symbol, end)) => r matches Some(found) && found == symbol && *final(
                    bit_position) == end && 0 <= symbol <= 256 && *old(bit_position) < end
                    <= bit_len(msg@),
                None => r is None && *final(bit_position) == *old(bit_position),
            },
    {
        let start: usize = *bit_position;
        let total: usize = msg.len() * 8;
        let mut node: usize = tree.root_node();
        let mut steps: usize = 0;
        loop
            invariant
                start == *old(bit_position),
                total == bit_len(msg@),
                node < tree.nodes().len(),
                *bit_position == start + steps,
                steps == 0 || *bit_position <= total,
                steps == 0 ==> node == tree.root(),
                crate::huffman::table_fits(tree.nodes(), tree.root()),
                walk(tree, msg@, node as int, *bit_position as int) == symbol_at(
                    tree,
                    msg@,
                    start as int,
                ),
            decreases total + 1 - steps,
        {
            match tree.node(node) {
                Node::Leaf { symbol } => {
                    return Some(symbol as i32);
                },
                Node::Internal { left, right } => {
                    if *bit_position >= total {
                        *bit_position = start;
                        return None;
                    }
                    let bit: i32 = Self::bitbuffer_read(msg, bit_position);
                    node = if bit == 0 {
                        left
                    } else {
                        right
                    };
                    steps += 1;
                },
            }
        }
    }

    /// Reads the symbol whose code word starts at `bit_position` and moves
    /// the position behind it.
    pub fn huffman_read(msg: &Vec<u8>, tree: &HuffmanTree, bit_position: &mut usize) -> (symbol:
        i32)
        requires
            bit_len(msg@) <= usize::MAX,
            symbol_at(tree, msg@, *old(bit_position) as int) is Some,
        ensures
            symbol_at(tree, msg@, *old(bit_position) as int) == Some(
                (symbol as int, *final(bit_position) as int),
            ),
            0 <= symbol <= 256,
            *old(bit_position) < *final(bit_position) <= bit_len(msg@),
    {
        match Self::try_huffman_read(msg, tree, bit_position) {
            Some(symbol) => symbol,
            None => 0,
        }
    }

    /// Reads an integer of `bits` bits at `bit_position`, if the buffer holds
    /// all of it, and moves the position behind it. Otherwise the position
    /// stays.
    pub fn try_huffman_readbits(
        bits: i32,
        msg: &Vec<u8>,
        tree: &HuffmanTree,
        bit_position: &mut usize,
    ) -> (r: Option<i32>)
        requires
            0 <= bits <= 32,
            bit_len(msg@) <= usize::MAX,
        ensures
            match bits_at(tree, msg@, *old(bit_position) as int, bits as int) {
                Some((value, end)) => r == Some(value) && *final(bit_position) == end && *old(bit_position) <= end <= bit_len(msg@),
                None => r is None && *final(bit_position) == *old(bit_position),
            },
    {
        let start: usize = *bit_position;
        let total: usize = msg.len() * 8;
        let bit_count: i32 = bits % 8;
        let byte_count: i32 = bits / 8;
        if start > total || total - start < bit_count as usize {
            return None;
        }
        let mut result: u32 = 0;
        let mut i: i32 = 0;
        while i < bit_count
            invariant
                start == *old(bit_position),
                0 <= i <= bit_count < 8,
                total == bit_len(msg@),
                total <= usize::MAX,
                start + bit_count <= total,
                *bit_position == start + i,
                result == low_bits(msg@, start as int, i as int),
            decreases bit_count - i,
        {
            let bit: i32 = Self::bitbuffer_read(msg, bit_position);
            result = result | ((bit as u32) << (i as u32));
            i += 1;
        }
        let low: u32 = result;
        let mut high: u32 = 0;
        proof {
            lemma_join_zero();
        }
        let mut j: i32 = 0;
        while j < byte_count
            invariant
                start == *old(bit_position),
                bit_count == bits % 8,
                byte_count == bits / 8,
                low == low_bits(msg@, start as int, bit_count as int),
                0 <= j <= byte_count <= 4,
                0 <= bit_count < 8,
                8 * byte_count + bit_count <= 32,
                total == bit_len(msg@),
                total <= usize::MAX,
                start + bit_count <= *bit_position <= total,
                symbols_at(
                    tree,
                    msg@,
                    start + bit_count,
                    byte_count as int,
                    bit_count as int,
                ) == match symbols_at(
                    tree,
                    msg@,
                    *bit_position as int,
                    byte_count - j,
                    bit_count + 8 * j,
                ) {
                    Some((rest, end)) => Some((high | rest, end)),
                    None => None,
                },
            decreases byte_count - j,
        {
            let ghost here = *bit_position as int;
            match Self::try_huffman_read(msg, tree, bit_position) {
                None => {
                    *bit_position = start;
                    return None;
                },
                Some(symbol) => {
                    let bit_offset: i32 = j * 8 + bit_count;
                    let part: u32 = (symbol as u32) << (bit_offset as u32);
                    proof {
                        let after = symbols_at(
                            tree,
                            msg@,
                            *bit_position as int,
                            byte_count - j - 1,
                            bit_count + 8 * j + 8,
                        );
                        if after is Some {
                            lemma_join_bits(high, part, after.unwrap().0);
                        }
                    }
                    high = high | part;
                    j += 1;
                },
            }
        }
        proof {
            lemma_join_bits(high, 0, 0);
        }
        Some((low | high) as i32)
    }

    /// Reads an integer of `bits` bits at `bit_position` and moves the
    /// position behind it.
    pub fn huffman_readbits(
        bits: i32,
        msg: &Vec<u8>,
        tree: &HuffmanTree,
        bit_position: &mut usize,
    ) -> (value: i32)
        requires
            0 <= bits <= 32,
            bit_len(msg@) <= usize::MAX,
            bits_at(tree, msg@, *old(bit_position) as int, bits as int) is Some,
        ensures
            bits_at(tree, msg@, *old(bit_position) as int, bits as int) == Some(
                (value, *final(bit_position) as int),
            ),
            *old(bit_position) <= *final(bit_position) <= bit_len(msg@),
    {
        match Self::try_huffman_readbits(bits, msg, tree, bit_position) {
            Some(value) => value,
            None => 0,
        }
    }

    /// Reads the bytes of the zero-terminated string at `bit_position`, if
    /// the buffer holds all of it, and moves the position behind the zero.
    /// Otherwise the position stays.
    pub fn try_read_string_bytes(
        msg: &Vec<u8>,
        tree: &HuffmanTree,
        bit_position: &mut usize,
    ) -> (r: Option<Vec<u8>>)
        requires
            bit_len(msg@) <= usize::MAX,
        ensures
            match string_at(tree, msg@, *old(bit_position) as int) {
                Some((bytes, end)) => r matches Some(found) && found@ == bytes && *final(bit_position) == end && *old(bit_position) < end <= bit_len(msg@),
                None => r is None && *final(bit_position) == *old(bit_position),
            },
    {
        let start: usize = *bit_position;
        let mut string_bytes: Vec<u8> = Vec::new();
        loop
            invariant
                start == *old(bit_position),
                bit_len(msg@) <= usize::MAX,
                start <= *bit_position,
                string_bytes@.len() > 0 ==> start < *bit_position <= bit_len(msg@),
                string_bytes@.len() == 0 ==> start == *bit_position,
                string_at(tree, msg@, start as int) == match string_at(
                    tree,
                    msg@,
                    *bit_position as int,
                ) {
                    Some((rest, end)) => Some((string_bytes@ + rest, end)),
                    None => None,
                },
            decreases bit_len(msg@) + 1 - *bit_position,
        {
            match Self::try_huffman_read(msg, tree, bit_position) {
                None => {
                    *bit_position = start;
                    return None;
                },
                Some(next_byte) => {
                    if next_byte == 0 {
                        assert(string_bytes@ + Seq::<u8>::empty() =~= string_bytes@);
                        return Some(string_bytes);
                    }
                    let ghost before = string_bytes@;
                    string_bytes.push(#[verifier::truncate] (next_byte as u8));
                    proof {
                        let after = string_at(tree, msg@, *bit_position as int);
                        if after is Some {
                            assert(before + (seq![next_byte as u8] + after.unwrap().0)
                                =~= string_bytes@ + after.unwrap().0);
                        }
                    }
                },
            }
        }
    }

    /// Reads the zero-terminated string at `bit_position`, if the buffer
    /// holds all of it, and moves the position behind the zero. Bytes that
    /// are not UTF-8 give the empty text.
    pub fn try_huffman_readstring(
        msg: &Vec<u8>,
        tree: &HuffmanTree,
        bit_position: &mut usize,
    ) -> (r: Option<String>)
        requires
            bit_len(msg@) <= usize::MAX,
        ensures
            match string_at(tree, msg@, *old(bit_position) as int) {
                Some((bytes, end)) => r matches Some(s) && s@ == text_of(bytes) && *final(bit_position) == end && *old(bit_position) < end <= bit_len(msg@),
                None => r is None && *final(bit_position) == *old(bit_position),
            },
    {
        match Self::try_read_string_bytes(msg, tree, bit_position) {
            Some(bytes) => Some(bytes_to_text(bytes)),
            None => None,
        }
    }

    /// Reads the zero-terminated string at `bit_position` and moves the
    /// position behind the zero. Bytes that are not UTF-8 give the empty
    /// text.
    pub fn huffman_readstring(msg: &Vec<u8>, tree: &HuffmanTree, bit_position: &mut usize) -> (s:
        String)
        requires
            bit_len(msg@) <= usize::MAX,
            string_at(tree, msg@, *old(bit_position) as int) is Some,
        ensures
            string_at(tree, msg@, *old(bit_position) as int) matches Some((bytes, end)) && s@
                == text_of(bytes) && *final(bit_position) == end,
            *old(bit_position) < *final(bit_position) <= bit_len(msg@),
    {
        match Self::try_huffman_readstring(msg, tree, bit_position) {
            Some(s) => s,
            None => String::new(),
        }
    }

    /// Moves `bit_position` to the end of the message of `msg_length` bytes
    /// that starts at `msg_start_pos`.
    pub fn skip_rest_of_message(
        bit_position: &mut usize,
        msg_length: i32,
        msg_start_pos: &mut usize,
    )
        requires
            msg_length >= 0,
            *old(msg_start_pos) <= *old(bit_position) <= *old(msg_start_pos) + 8 * msg_length
                <= usize::MAX,
        ensures
            *final(bit_position) == *old(msg_start_pos) + 8 * msg_length,
            *final(msg_start_pos) == *old(msg_start_pos),
    {
        let msg_bits_parsed: usize = *bit_position - *msg_start_pos;
        let remaining_message: usize = (msg_length as usize) * 8 - msg_bits_parsed;
        *bit_position += remaining_message;
    }
}

} // verus!
