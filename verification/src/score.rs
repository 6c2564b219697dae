//! The structural complexity score of a tree.

use vstd::prelude::*;
use crate::tree::{Node, preorder, forest_preorder};

verus! {

/// Whether `kind` is one of the branching kinds of the grammar in use.
pub open spec fn is_branching(kind: Seq<char>, branching: Seq<String>) -> bool {
    exists|i: int| 0 <= i < branching.len() && #[trigger] branching[i]@ == kind
}

/// What one node adds to the score: two for a branching kind, one otherwise.
pub open spec fn weight(node: Node, branching: Seq<String>) -> nat {
    if is_branching(node.kind@, branching) { 2 } else { 1 }
}

/// The score of the tree under `node`: its own weight and the scores of its children.
pub open spec fn tree_score(node: Node, branching: Seq<String>) -> nat
    decreases node, 1nat,
{
    weight(node, branching) + forest_score(node.children@, branching)
}

/// The scores of `nodes`, added up.
pub open spec fn forest_score(nodes: Seq<Node>, branching: Seq<String>) -> nat
    decreases nodes, 0nat,
{
    if nodes.len() == 0 {
        0
    } else {
        forest_score(nodes.drop_last(), branching) + tree_score(nodes.last(), branching)
    }
}

/// How many of `nodes` have a branching kind.
pub open spec fn branch_count(nodes: Seq<Node>, branching: Seq<String>) -> nat
    decreases nodes.len(),
{
    if nodes.len() == 0 {
        0
    } else {
        branch_count(nodes.drop_last(), branching) + if is_branching(nodes.last().kind@, branching) { 1nat } else { 0nat }
    }
}

/// Decides whether `kind` is among `branching`.
pub fn kind_is_branching(kind: &String, branching: &Vec<String>) -> (found: bool)
    ensures
        found == is_branching(kind@, branching@),
{
    let mut i: usize = 0;
    while i < branching.len()
        invariant
            i <= branching.len(),
            forall|j: int| 0 <= j < i ==> (#[trigger] branching@[j])@ != kind@,
        decreases branching.len() - i,
    {
        if branching[i] == *kind {
            return true;
        }
        i += 1;
    }
    false
}

/// The complexity score of the tree under `node`.
///
/// The score has to fit the result type; a tree that a machine can hold has
/// far fewer nodes than that.
pub fn score(node: &Node, branching: &Vec<String>) -> (total: u64)
    requires
        tree_score(*node, branching@) <= u64::MAX,
    ensures
        total == tree_score(*node, branching@),
        total >= 1,
    decreases node,
{
    let mut total: u64 = if kind_is_branching(&node.kind, branching) { 2 } else { 1 };
    let mut i: usize = 0;
    while i < node.children.len()
        invariant
            i <= node.children.len(),
            total == weight(*node, branching@) + forest_score(node.children@.take(i as int), branching@),
            tree_score(*node, branching@) <= u64::MAX,
        decreases node.children.len() - i,
    {
        proof {
            lemma_forest_score_step(node.children@, i as int, branching@);
            lemma_forest_score_prefix(node.children@, i as int + 1, branching@);
        }
        let part = score(&node.children[i], branching);
        total = total + part;
        i += 1;
    }
    proof {
        assert(node.children@.take(node.children@.len() as int) =~= node.children@);
    }
    total
}

/// The complexity score of the tree under `node`, or nothing where the
/// score does not fit the result type.
pub fn checked_score(node: &Node, branching: &Vec<String>) -> (total: Option<u64>)
    ensures
        match total {
            Some(t) => t == tree_score(*node, branching@),
            None => tree_score(*node, branching@) > u64::MAX,
        },
    decreases node,
{
    let mut total: u64 = if kind_is_branching(&node.kind, branching) { 2 } else { 1 };
    let mut i: usize = 0;
    while i < node.children.len()
        invariant
            i <= node.children.len(),
            total == weight(*node, branching@) + forest_score(node.children@.take(i as int), branching@),
        decreases node.children.len() - i,
    {
        proof {
            lemma_forest_score_step(node.children@, i as int, branching@);
            lemma_forest_score_prefix(node.children@, i as int + 1, branching@);
        }
        match checked_score(&node.children[i], branching) {
            None => {
                return None;
            },
            Some(part) => match total.checked_add(part) {
                None => {
                    return None;
                },
                Some(sum) => {
                    total = sum;
                },
            },
        }
        i += 1;
    }
    proof {
        assert(node.children@.take(node.children@.len() as int) =~= node.children@);
    }
    Some(total)
}

/// Adding one more tree to a forest adds that tree's score.
pub proof fn lemma_forest_score_step(nodes: Seq<Node>, n: int, branching: Seq<String>)
    requires
        0 <= n < nodes.len(),
    ensures
        forest_score(nodes.take(n + 1), branching) == forest_score(nodes.take(n), branching) + tree_score(nodes[n], branching),
{
    assert(nodes.take(n + 1).drop_last() =~= nodes.take(n));
    assert(nodes.take(n + 1).last() == nodes[n]);
}

/// A part of a forest scores no more than the whole.
pub proof fn lemma_forest_score_prefix(nodes: Seq<Node>, n: int, branching: Seq<String>)
    requires
        0 <= n <= nodes.len(),
    ensures
        forest_score(nodes.take(n), branching) <= forest_score(nodes, branching),
    decreases nodes.len() - n,
{
    if n == nodes.len() {
        assert(nodes.take(n) =~= nodes);
    } else {
        lemma_forest_score_step(nodes, n, branching);
        lemma_forest_score_prefix(nodes, n + 1, branching);
    }
}

/// Counting branching kinds goes through concatenation.
pub proof fn lemma_branch_count_concat(a: Seq<Node>, b: Seq<Node>, branching: Seq<String>)
    ensures
        branch_count(a + b, branching) == branch_count(a, branching) + branch_count(b, branching),
    decreases b.len(),
{
    if b.len() == 0 {
        assert(a + b =~= a);
    } else {
        assert((a + b).drop_last() =~= a + b.drop_last());
        assert((a + b).last() == b.last());
        lemma_branch_count_concat(a, b.drop_last(), branching);
    }
}

/// The score of a tree is the number of its nodes plus the number of those
/// that have a branching kind.
pub proof fn lemma_score_counts_nodes_and_branches(node: Node, branching: Seq<String>)
    ensures
        tree_score(node, branching) == preorder(node).len() + branch_count(preorder(node), branching),
    decreases node, 1nat,
{
    let first = seq![node];
    let rest = forest_preorder(node.children@);
    lemma_forest_score_counts_nodes_and_branches(node.children@, branching);
    lemma_branch_count_concat(first, rest, branching);
    assert(first.drop_last() =~= Seq::<Node>::empty());
    assert(branch_count(first.drop_last(), branching) == 0);
    assert(first.last() == node);
}

/// The same count for a sequence of trees.
pub proof fn lemma_forest_score_counts_nodes_and_branches(nodes: Seq<Node>, branching: Seq<String>)
    ensures
        forest_score(nodes, branching) == forest_preorder(nodes).len() + branch_count(
            forest_preorder(nodes),
            branching,
        ),
    decreases nodes, 0nat,
{
    if nodes.len() > 0 {
        lemma_forest_score_counts_nodes_and_branches(nodes.drop_last(), branching);
        lemma_score_counts_nodes_and_branches(nodes.last(), branching);
        lemma_branch_count_concat(
            forest_preorder(nodes.drop_last()),
            preorder(nodes.last()),
            branching,
        );
    }
}

/// A tree of one node whose kind is not a branching kind scores one.
pub proof fn lemma_single_plain_node_scores_one(node: Node, branching: Seq<String>)
    requires
        node.children@.len() == 0,
        !is_branching(node.kind@, branching),
    ensures
        tree_score(node, branching) == 1,
{
}

/// Where no node below the root has a branching kind, the score is one, plus
/// the number of branching nodes in the tree, plus the number of nodes below
/// the root that have no branching kind.
pub proof fn lemma_score_without_inner_branches(node: Node, branching: Seq<String>)
    requires
        branch_count(forest_preorder(node.children@), branching) == 0,
    ensures
        tree_score(node, branching) == 1 + branch_count(preorder(node), branching) + (forest_preorder(
            node.children@,
        ).len() - branch_count(forest_preorder(node.children@), branching)),
{
    lemma_score_counts_nodes_and_branches(node, branching);
}

} // verus!
