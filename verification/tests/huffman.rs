use sarge_launcher::huffman::{HuffmanTree, Node, ESCAPE_SYMBOL};

fn small_table() -> Vec<Node> {
    vec![
        Node::Internal { left: 1, right: 2 },
        Node::Leaf { symbol: 0 },
        Node::Internal { left: 3, right: 4 },
        Node::Leaf { symbol: 65 },
        Node::Leaf { symbol: ESCAPE_SYMBOL },
    ]
}

#[test]
fn a_table_that_fits_is_taken() {
    let tree = HuffmanTree::new(small_table(), 0).unwrap();
    assert_eq!(tree.len(), 5);
    assert_eq!(tree.root_node(), 0);
    let root = tree.node(tree.root_node());
    assert!(!root.is_leaf());
    assert_eq!(root.left(), 1);
    assert_eq!(root.right(), 2);
    let leaf = tree.node(3);
    assert!(leaf.is_leaf());
    assert_eq!(leaf.value(), 65);
    assert_eq!(tree.node(4).value(), 256);
}

#[test]
fn the_root_may_stand_anywhere() {
    let tree = HuffmanTree::new(small_table(), 2).unwrap();
    assert_eq!(tree.root_node(), 2);
}

#[test]
fn a_root_outside_the_table_is_refused() {
    assert!(HuffmanTree::new(small_table(), 5).is_none());
    assert!(HuffmanTree::new(Vec::new(), 0).is_none());
}

#[test]
fn a_leaf_as_root_is_refused() {
    assert!(HuffmanTree::new(small_table(), 1).is_none());
}

#[test]
fn a_child_outside_the_table_is_refused() {
    let mut table = small_table();
    table[2] = Node::Internal { left: 3, right: 5 };
    assert!(HuffmanTree::new(table, 0).is_none());
}

#[test]
fn a_symbol_above_the_escape_is_refused() {
    let mut table = small_table();
    table[3] = Node::Leaf { symbol: 257 };
    assert!(HuffmanTree::new(table, 0).is_none());
}
