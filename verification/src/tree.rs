//! The syntax tree that the analysis reads, and its pre-order.

use vstd::prelude::*;

verus! {

/// One vertex of a syntax tree, as a parser hands it over.
///
/// `role` is the name of the field under which the parent holds this node,
/// and is empty where the parent gives it no name. The span counts bytes of
/// the source text; the start position counts rows and columns from zero.
#[derive(Debug, PartialEq, Eq)]
pub struct Node {
    pub kind: String,
    pub role: String,
    pub start_byte: usize,
    pub end_byte: usize,
    pub start_row: u32,
    pub start_column: u32,
    pub children: Vec<Node>,
}

/// The nodes of the tree under `node`, parents before children and
/// children from left to right.
pub open spec fn preorder(node: Node) -> Seq<Node>
    decreases node, 1nat,
{
    seq![node] + forest_preorder(node.children@)
}

/// The pre-orders of `nodes`, one after the other.
pub open spec fn forest_preorder(nodes: Seq<Node>) -> Seq<Node>
    decreases nodes, 0nat,
{
    if nodes.len() == 0 {
        Seq::empty()
    } else {
        forest_preorder(nodes.drop_last()) + preorder(nodes.last())
    }
}

/// Adding one more tree to a forest appends that tree's pre-order.
pub proof fn lemma_forest_preorder_step(nodes: Seq<Node>, n: int)
    requires
        0 <= n < nodes.len(),
    ensures
        forest_preorder(nodes.take(n + 1)) == forest_preorder(nodes.take(n)) + preorder(nodes[n]),
{
    assert(nodes.take(n + 1).drop_last() =~= nodes.take(n));
    assert(nodes.take(n + 1).last() == nodes[n]);
}

impl Node {
    /// A node without children and without a role.
    pub fn leaf(kind: String, start_byte: usize, end_byte: usize, start_row: u32, start_column: u32) -> (node: Node)
        ensures
            node.kind == kind,
            node.role@ == Seq::<char>::empty(),
            node.start_byte == start_byte,
            node.end_byte == end_byte,
            node.start_row == start_row,
            node.start_column == start_column,
            node.children@ == Seq::<Node>::empty(),
    {
        Node { kind, role: String::new(), start_byte, end_byte, start_row, start_column, children: Vec::new() }
    }
}

} // verus!
