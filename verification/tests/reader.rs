use sarge_launcher::demo::Demo;
use sarge_launcher::huffman::{HuffmanTree, Node};

fn grow(table: &mut Vec<Node>, depth: u32, bits: u16) -> usize {
    let at = table.len();
    if depth == 8 {
        table.push(Node::Leaf { symbol: bits });
        return at;
    }
    table.push(Node::Internal { left: 0, right: 0 });
    let left = grow(table, depth + 1, bits);
    let right = grow(table, depth + 1, bits | (1 << depth));
    table[at] = Node::Internal { left, right };
    at
}

/// The tree in which the code word of a byte is its eight bits, lowest first.
fn plain_tree() -> HuffmanTree {
    let mut table = Vec::new();
    let root = grow(&mut table, 0, 0);
    HuffmanTree::new(table, root).unwrap()
}

/// A tree with code words of different lengths: 0 is `0`, 65 is `10`,
/// 66 is `110`, the escape symbol is `111`.
fn skewed_tree() -> HuffmanTree {
    let table = vec![
        Node::Leaf { symbol: 0 },
        Node::Leaf { symbol: 65 },
        Node::Internal { left: 0, right: 3 },
        Node::Internal { left: 1, right: 4 },
        Node::Internal { left: 5, right: 6 },
        Node::Leaf { symbol: 66 },
        Node::Leaf { symbol: 256 },
    ];
    HuffmanTree::new(table, 2).unwrap()
}

#[test]
fn bits_come_lowest_first() {
    let msg = vec![0b0000_0101u8, 0b1000_0000];
    let mut pos = 0usize;
    let bits: Vec<i32> = (0..16).map(|_| Demo::bitbuffer_read(&msg, &mut pos)).collect();
    assert_eq!(bits, vec![1, 0, 1, 0, 0, 0, 0, 0, 0, 0, 0, 0, 0, 0, 0, 1]);
    assert_eq!(pos, 16);
}

#[test]
fn symbols_follow_the_tree() {
    // 65 = 10, 0 = 0, 66 = 110, escape = 111, written lowest bit first
    let msg = vec![0b1101_1001u8, 0b0000_0001];
    let tree = skewed_tree();
    let mut pos = 0usize;
    assert_eq!(Demo::huffman_read(&msg, &tree, &mut pos), 65);
    assert_eq!(pos, 2);
    assert_eq!(Demo::huffman_read(&msg, &tree, &mut pos), 0);
    assert_eq!(pos, 3);
    assert_eq!(Demo::huffman_read(&msg, &tree, &mut pos), 66);
    assert_eq!(pos, 6);
    assert_eq!(Demo::huffman_read(&msg, &tree, &mut pos), 256);
    assert_eq!(pos, 9);
}

#[test]
fn a_symbol_cut_off_by_the_end_is_not_read() {
    let msg = vec![0b1100_0000u8];
    let tree = skewed_tree();
    let mut pos = 6usize;
    assert_eq!(Demo::try_huffman_read(&msg, &tree, &mut pos), None);
    assert_eq!(pos, 6);
    let mut pos = 8usize;
    assert_eq!(Demo::try_huffman_read(&msg, &tree, &mut pos), None);
    assert_eq!(pos, 8);
    let mut pos = 100usize;
    assert_eq!(Demo::try_huffman_read(&msg, &tree, &mut pos), None);
    assert_eq!(pos, 100);
}

#[test]
fn read_bits_of_no_width_is_zero() {
    let msg = vec![0xffu8];
    let tree = plain_tree();
    let mut pos = 3usize;
    assert_eq!(Demo::huffman_readbits(0, &msg, &tree, &mut pos), 0);
    assert_eq!(pos, 3);
}

#[test]
fn read_bits_of_seven_takes_loose_bits() {
    let msg = vec![0b1010_1010u8];
    let tree = plain_tree();
    let mut pos = 0usize;
    assert_eq!(Demo::huffman_readbits(7, &msg, &tree, &mut pos), 0b010_1010);
    assert_eq!(pos, 7);
}

#[test]
fn read_bits_of_eight_is_one_symbol() {
    let msg = vec![0xa7u8, 0x01];
    let tree = plain_tree();
    let mut pos = 0usize;
    assert_eq!(Demo::huffman_readbits(8, &msg, &tree, &mut pos), 0xa7);
    assert_eq!(pos, 8);
    let mut again = 0usize;
    assert_eq!(Demo::huffman_read(&msg, &tree, &mut again), 0xa7);
}

#[test]
fn read_bits_of_fifteen_joins_bits_and_a_symbol() {
    let msg = vec![0xaau8, 0x55, 0x01];
    let tree = plain_tree();
    let mut pos = 0usize;
    assert_eq!(Demo::huffman_readbits(15, &msg, &tree, &mut pos), 0x55aa);
    assert_eq!(pos, 15);
    let mut step = 0usize;
    let low = Demo::huffman_readbits(7, &msg, &tree, &mut step);
    let high = Demo::huffman_readbits(8, &msg, &tree, &mut step);
    assert_eq!(low | (high << 7), 0x55aa);
    assert_eq!(step, 15);
}

#[test]
fn read_bits_of_sixteen_is_two_symbols() {
    let msg = vec![0x34u8, 0x12];
    let tree = plain_tree();
    let mut pos = 0usize;
    assert_eq!(Demo::huffman_readbits(16, &msg, &tree, &mut pos), 0x1234);
    assert_eq!(pos, 16);
}

#[test]
fn read_bits_of_thirty_two_may_be_negative() {
    let msg = vec![0xfeu8, 0xff, 0xff, 0xff];
    let tree = plain_tree();
    let mut pos = 0usize;
    assert_eq!(Demo::huffman_readbits(32, &msg, &tree, &mut pos), -2);
    assert_eq!(pos, 32);
}

#[test]
fn read_bits_with_a_skewed_tree() {
    // three loose bits 1,0,1, then the symbol 65 (10): 5 | 65 << 3
    let msg = vec![0b0000_1101u8];
    let tree = skewed_tree();
    let mut pos = 0usize;
    assert_eq!(Demo::huffman_readbits(11, &msg, &tree, &mut pos), 5 | (65 << 3));
    assert_eq!(pos, 5);
}

#[test]
fn read_bits_beyond_the_end_gives_nothing() {
    let msg = vec![0x01u8, 0x02, 0x03];
    let tree = plain_tree();
    let mut pos = 0usize;
    assert_eq!(Demo::try_huffman_readbits(32, &msg, &tree, &mut pos), None);
    assert_eq!(pos, 0);
    let mut pos = 20usize;
    assert_eq!(Demo::try_huffman_readbits(5, &msg, &tree, &mut pos), None);
    assert_eq!(pos, 20);
    let mut pos = 8usize;
    assert_eq!(Demo::try_huffman_readbits(16, &msg, &tree, &mut pos), Some(0x0302));
    assert_eq!(pos, 24);
}

#[test]
fn strings_end_at_a_zero() {
    let msg = vec![b'h', b'i', 0, b'x', 0];
    let tree = plain_tree();
    let mut pos = 0usize;
    assert_eq!(Demo::huffman_readstring(&msg, &tree, &mut pos), "hi");
    assert_eq!(pos, 24);
    assert_eq!(Demo::huffman_readstring(&msg, &tree, &mut pos), "x");
    assert_eq!(pos, 40);
}

#[test]
fn a_string_that_is_not_utf8_is_empty() {
    let msg = vec![0xffu8, 0xfe, 0, 0xc3, 0xa9, 0];
    let tree = plain_tree();
    let mut pos = 0usize;
    assert_eq!(Demo::huffman_readstring(&msg, &tree, &mut pos), "");
    assert_eq!(pos, 24);
    assert_eq!(Demo::huffman_readstring(&msg, &tree, &mut pos), "\u{e9}");
}

#[test]
fn a_string_without_its_zero_is_not_read() {
    let msg = vec![b'a', b'b'];
    let tree = plain_tree();
    let mut pos = 0usize;
    assert_eq!(Demo::try_huffman_readstring(&msg, &tree, &mut pos), None);
    assert_eq!(pos, 0);
    assert_eq!(Demo::try_read_string_bytes(&msg, &tree, &mut pos), None);
}

#[test]
fn the_escape_symbol_in_a_string_is_a_zero_byte() {
    // escape (111), 65 (10), 0 (0)
    let msg = vec![0b0000_1111u8];
    let tree = skewed_tree();
    let mut pos = 0usize;
    assert_eq!(Demo::try_read_string_bytes(&msg, &tree, &mut pos), Some(vec![0u8, 65]));
    assert_eq!(pos, 6);
}

#[test]
fn skipping_goes_to_the_end_of_the_message() {
    let mut pos = 100usize;
    let mut start = 64usize;
    Demo::skip_rest_of_message(&mut pos, 10, &mut start);
    assert_eq!(pos, 144);
    assert_eq!(start, 64);
}
