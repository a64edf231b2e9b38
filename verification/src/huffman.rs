//! The code tree of the wire format: a flat table of nodes linked by index.

use vstd::prelude::*;

verus! {

/// The symbol that the wire format reserves as its literal escape. Every other
/// symbol of a leaf is a byte value.
pub const ESCAPE_SYMBOL: u16 = 256;

/// A node of the code tree: a leaf that carries a symbol, or an inner node
/// that names its two children by their index in the table.
#[derive(Clone, Copy, Debug)]
pub enum Node {
    Leaf { symbol: u16 },
    Internal { left: usize, right: usize },
}

impl Node {
    /// Whether the node ends a code word.
    pub fn is_leaf(&self) -> (b: bool)
        ensures
            b == (*self is Leaf),
    {
        match self {
            Node::Leaf { .. } => true,
            Node::Internal { .. } => false,
        }
    }

    /// The symbol of a leaf.
    pub fn value(&self) -> (v: u16)
        requires
            *self is Leaf,
        ensures
            v == self->symbol,
    {
        match self {
            Node::Leaf { symbol } => *symbol,
            Node::Internal { .. } => 0,
        }
    }

    /// The child taken on a 0 bit.
    pub fn left(&self) -> (i: usize)
        requires
            *self is Internal,
        ensures
            i == self->left,
    {
        match self {
            Node::Internal { left, .. } => *left,
            Node::Leaf { .. } => 0,
        }
    }

    /// The child taken on a 1 bit.
    pub fn right(&self) -> (i: usize)
        requires
            *self is Internal,
        ensures
            i == self->right,
    {
        match self {
            Node::Internal { right, .. } => *right,
            Node::Leaf { .. } => 0,
        }
    }
}

/// Whether node `i` of `nodes` fits the table: a leaf holds a byte or the
/// escape symbol, an inner node points at two nodes of the table.
pub open spec fn node_fits(nodes: Seq<Node>, i: int) -> bool {
    match nodes[i] {
        Node::Leaf { symbol } => symbol <= ESCAPE_SYMBOL,
        Node::Internal { left, right } => left < nodes.len() && right < nodes.len(),
    }
}

/// Whether `nodes` with the root at `root` is a code table that can be walked:
/// the root is an inner node of the table, and every node fits.
pub open spec fn table_fits(nodes: Seq<Node>, root: int) -> bool {
    &&& 0 <= root < nodes.len()
    &&& nodes[root] is Internal
    &&& forall|i: int| 0 <= i < nodes.len() ==> node_fits(nodes, i)
}

/// The number of bytes that one node takes in a stored table.
pub const STORED_NODE: usize = 5;

/// The 16-bit number in the two bytes from `at` on, low byte first.
pub open spec fn stored_number(bytes: Seq<u8>, at: int) -> int {
    bytes[at] + 0x100 * bytes[at + 1]
}

/// The node that the five bytes from `at` on stand for: a byte that is 0
/// for a leaf, then the leaf's symbol, or the two children of an inner
/// node, each a 16-bit number.
pub open spec fn stored_node(bytes: Seq<u8>, at: int) -> Node {
    if bytes[at] == 0 {
        Node::Leaf { symbol: stored_number(bytes, at + 1) as u16 }
    } else {
        Node::Internal {
            left: stored_number(bytes, at + 1) as usize,
            right: stored_number(bytes, at + 3) as usize,
        }
    }
}

/// The nodes of a stored table: they follow the two bytes of the root's
/// index, five bytes each.
pub open spec fn stored_nodes(bytes: Seq<u8>) -> Seq<Node> {
    Seq::new(
        ((bytes.len() - 2) / STORED_NODE as int) as nat,
        |i: int| stored_node(bytes, 2 + STORED_NODE * i),
    )
}

/// Whether `bytes` is a stored table: two bytes of the root's index, then
/// whole nodes.
pub open spec fn is_stored_table(bytes: Seq<u8>) -> bool {
    bytes.len() >= 2 && (bytes.len() - 2) % STORED_NODE as int == 0
}

/// The code tree. It is built once and only read afterwards.
#[derive(Debug)]
pub struct HuffmanTree {
    nodes: Vec<Node>,
    root: usize,
}

impl HuffmanTree {
    /// The table of nodes.
    pub closed spec fn nodes(&self) -> Seq<Node> {
        self.nodes@
    }

    /// The index of the root in the table.
    pub closed spec fn root(&self) -> int {
        self.root as int
    }

    #[verifier::type_invariant]
    spec fn inv(&self) -> bool {
        table_fits(self.nodes@, self.root as int)
    }

    /// Takes a table and the index of its root, and hands back the tree if the
    /// table can be walked.
    pub fn new(nodes: Vec<Node>, root: usize) -> (tree: Option<HuffmanTree>)
        ensures
            tree is Some <==> table_fits(nodes@, root as int),
            tree matches Some(t) ==> t.nodes() == nodes@ && t.root() == root,
    {
        if root >= nodes.len() {
            return None;
        }
        if nodes[root].is_leaf() {
            return None;
        }
        let mut i: usize = 0;
        while i < nodes.len()
            invariant
                i <= nodes.len(),
                forall|j: int| 0 <= j < i ==> node_fits(nodes@, j),
            decreases nodes.len() - i,
        {
            let fits = match nodes[i] {
                Node::Leaf { symbol } => symbol <= ESCAPE_SYMBOL,
                Node::Internal { left, right } => left < nodes.len() && right < nodes.len(),
            };
            if !fits {
                assert(!node_fits(nodes@, i as int));
                return None;
            }
            i += 1;
        }
        Some(HuffmanTree { nodes, root })
    }

    /// Reads a stored table, and hands back the tree if the bytes are a
    /// stored table that can be walked.
    pub fn from_bytes(bytes: &[u8]) -> (tree: Option<HuffmanTree>)
        ensures
            tree is Some <==> is_stored_table(bytes@) && table_fits(
                stored_nodes(bytes@),
                stored_number(bytes@, 0),
            ),
            tree matches Some(t) ==> t.nodes() == stored_nodes(bytes@) && t.root()
                == stored_number(bytes@, 0),
    {
        if bytes.len() < 2 || (bytes.len() - 2) % STORED_NODE != 0 {
            return None;
        }
        let count: usize = (bytes.len() - 2) / STORED_NODE;
        let root: usize = bytes[0] as usize + 0x100 * (bytes[1] as usize);
        let mut nodes: Vec<Node> = Vec::new();
        let mut i: usize = 0;
        while i < count
            invariant
                i <= count,
                count == (bytes@.len() - 2) / STORED_NODE as int,
                bytes@.len() == 2 + STORED_NODE * count,
                bytes@.len() <= usize::MAX,
                nodes@.len() == i,
                forall|j: int| 0 <= j < i ==> nodes@[j] == stored_node(bytes@, 2 + STORED_NODE * j),
            decreases count - i,
        {
            assert(STORED_NODE * i + STORED_NODE <= STORED_NODE * count) by (nonlinear_arith)
                requires
                    i < count,
            ;
            let at: usize = 2 + STORED_NODE * i;
            let first: usize = bytes[at + 1] as usize + 0x100 * (bytes[at + 2] as usize);
            let second: usize = bytes[at + 3] as usize + 0x100 * (bytes[at + 4] as usize);
            if bytes[at] == 0 {
                nodes.push(Node::Leaf { symbol: first as u16 });
            } else {
                nodes.push(Node::Internal { left: first, right: second });
            }
            i += 1;
        }
        assert(nodes@ =~= stored_nodes(bytes@));
        Self::new(nodes, root)
    }

    /// The number of nodes in the table.
    pub fn len(&self) -> (n: usize)
        ensures
            n == self.nodes().len(),
    {
        self.nodes.len()
    }

    /// The index of the root, which is an inner node of the table.
    pub fn root_node(&self) -> (r: usize)
        ensures
            r == self.root(),
            table_fits(self.nodes(), self.root()),
    {
        proof {
            use_type_invariant(self);
        }
        self.root
    }

    /// The node at index `i`.
    pub fn node(&self, i: usize) -> (n: Node)
        requires
            i < self.nodes().len(),
        ensures
            n == self.nodes()[i as int],
            node_fits(self.nodes(), i as int),
    {
        proof {
            use_type_invariant(self);
        }
        self.nodes[i]
    }
}

} // verus!
