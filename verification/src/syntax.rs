//! Parse trees as plain values, and the grammars that produce them.

use vstd::prelude::*;
use vstd::string::*;

verus! {

/// A node of a grammar's parse tree: its kind, whether the grammar names
/// it, where it stands in the source, and its children.
#[derive(Debug, PartialEq, Eq)]
pub struct SyntaxNode {
    pub kind: String,
    pub is_named: bool,
    pub start_row: usize,
    pub start_column: usize,
    pub end_row: usize,
    pub end_column: usize,
    pub start_byte: usize,
    pub end_byte: usize,
    pub children: Vec<SyntaxNode>,
}

/// What a grammar says of one node of a parse tree, and how many nodes
/// the subtree below it holds, the node itself included. A parse tree
/// comes as a listing of such facts in depth-first order.
#[derive(Debug, PartialEq, Eq)]
pub struct NodeFacts {
    pub kind: String,
    pub is_named: bool,
    pub start_row: usize,
    pub start_column: usize,
    pub end_row: usize,
    pub end_column: usize,
    pub start_byte: usize,
    pub end_byte: usize,
    pub size: usize,
}

/// A node holds the facts given.
pub open spec fn has_facts(node: SyntaxNode, facts: NodeFacts) -> bool {
    &&& node.kind@ == facts.kind@
    &&& node.is_named == facts.is_named
    &&& node.start_row == facts.start_row
    &&& node.start_column == facts.start_column
    &&& node.end_row == facts.end_row
    &&& node.end_column == facts.end_column
    &&& node.start_byte == facts.start_byte
    &&& node.end_byte == facts.end_byte
}

/// How many nodes of a listing make up the subtree that begins it: as many
/// as its first node says, but one at least and no more than there are.
pub open spec fn span(nodes: Seq<NodeFacts>) -> int {
    if nodes.len() == 0 {
        0
    } else if nodes[0].size < 1 {
        1
    } else if nodes[0].size > nodes.len() {
        nodes.len() as int
    } else {
        nodes[0].size as int
    }
}

/// The children from position `i` on are the trees of the subtrees that
/// a listing holds from position `at` on, one after the other, to its end.
pub open spec fn are_trees_from(
    kids: Seq<SyntaxNode>,
    i: int,
    below: Seq<NodeFacts>,
    at: int,
) -> bool
    decreases kids, kids.len() - i,
{
    if 0 <= i < kids.len() {
        let next = at + span(below.skip(at));
        &&& 0 <= at < below.len()
        &&& is_tree_of(kids[i], below.subrange(at, next))
        &&& are_trees_from(kids, i + 1, below, next)
    } else {
        at == below.len()
    }
}

/// `node` is the tree that a listing in depth-first order stands for: it
/// holds the facts of the first entry, and its children are the trees of
/// the subtrees that follow, one after the other, to the end of the
/// listing.
pub open spec fn is_tree_of(node: SyntaxNode, nodes: Seq<NodeFacts>) -> bool
    decreases node,
{
    &&& nodes.len() > 0
    &&& has_facts(node, nodes[0])
    &&& are_trees_from(node.children@, 0, nodes.skip(1), 0)
}

/// The child at position `k` is the tree of the subtree between two of the
/// given places in a listing, and the second place is where that subtree
/// ends.
spec fn child_fits(kids: Seq<SyntaxNode>, k: int, below: Seq<NodeFacts>, starts: Seq<int>) -> bool {
    &&& 0 <= starts[k] < below.len()
    &&& starts[k + 1] == starts[k] + span(below.skip(starts[k]))
    &&& is_tree_of(kids[k], below.subrange(starts[k], starts[k + 1]))
}

/// Children that are the trees of subtrees which begin at the given
/// places, each where the one before ends and the last at the end of the
/// listing, are the trees of the listing.
proof fn lemma_trees_from(kids: Seq<SyntaxNode>, below: Seq<NodeFacts>, starts: Seq<int>, i: int)
    requires
        0 <= i <= kids.len(),
        starts.len() == kids.len() + 1,
        starts[kids.len() as int] == below.len(),
        forall|k: int| 0 <= k < kids.len() ==> #[trigger] child_fits(kids, k, below, starts),
    ensures
        are_trees_from(kids, i, below, starts[i]),
    decreases kids.len() - i,
{
    if i < kids.len() {
        assert(child_fits(kids, i, below, starts));
        lemma_trees_from(kids, below, starts, i + 1);
    }
}

/// Builds the tree of the entries from `from` up to `to`.
fn subtree(nodes: &Vec<NodeFacts>, from: usize, to: usize) -> (r: SyntaxNode)
    requires
        from < to <= nodes@.len(),
    ensures
        is_tree_of(r, nodes@.subrange(from as int, to as int)),
    decreases to - from,
{
    let ghost all = nodes@.subrange(from as int, to as int);
    let ghost below = all.skip(1);
    let ghost starts: Seq<int> = seq![0int];
    let mut children: Vec<SyntaxNode> = Vec::new();
    let mut at: usize = from + 1;
    assert(below =~= nodes@.subrange(from + 1, to as int));
    while at < to
        invariant
            from < at <= to <= nodes@.len(),
            below == nodes@.subrange(from + 1, to as int),
            starts.len() == children@.len() + 1,
            starts[0] == 0,
            starts[children@.len() as int] == at - from - 1,
            forall|k: int|
                0 <= k < children@.len() ==> #[trigger] child_fits(children@, k, below, starts),
        decreases to - at,
    {
        let said = nodes[at].size;
        let room = to - at;
        let taken: usize = if said < 1 {
            1
        } else if said > room {
            room
        } else {
            said
        };
        let child = subtree(nodes, at, at + taken);
        let ghost before = children@;
        let ghost earlier = starts;
        children.push(child);
        proof {
            let done = before.len() as int;
            let rest = below.skip(at - from - 1);
            assert(rest =~= nodes@.subrange(at as int, to as int));
            assert(span(rest) == taken);
            assert(below.subrange(at - from - 1, at - from - 1 + taken) =~= nodes@.subrange(
                at as int,
                at + taken,
            ));
            starts = earlier.push(at - from - 1 + taken);
            assert forall|k: int| 0 <= k < children@.len() implies #[trigger] child_fits(
                children@,
                k,
                below,
                starts,
            ) by {
                if k < done {
                    assert(child_fits(before, k, below, earlier));
                    assert(children@[k] == before[k]);
                    assert(starts[k] == earlier[k] && starts[k + 1] == earlier[k + 1]);
                } else {
                    assert(children@[k] == child);
                    assert(starts[k] == at - from - 1 && starts[k + 1] == at - from - 1 + taken);
                }
            }
        }
        at = at + taken;
    }
    let node = &nodes[from];
    let r = SyntaxNode {
        kind: node.kind.clone(),
        is_named: node.is_named,
        start_row: node.start_row,
        start_column: node.start_column,
        end_row: node.end_row,
        end_column: node.end_column,
        start_byte: node.start_byte,
        end_byte: node.end_byte,
        children,
    };
    proof {
        assert(all[0] == nodes@[from as int]);
        assert(below.len() == to - from - 1);
        lemma_trees_from(children@, below, starts, 0);
    }
    r
}

/// The tree that a listing of nodes in depth-first order stands for; none
/// for a listing without nodes.
pub fn plain_tree(nodes: &Vec<NodeFacts>) -> (r: Option<SyntaxNode>)
    ensures
        match r {
            Some(tree) => is_tree_of(tree, nodes@),
            None => nodes@.len() == 0,
        },
{
    if nodes.len() == 0 {
        None
    } else {
        assert(nodes@.subrange(0, nodes@.len() as int) =~= nodes@);
        Some(subtree(nodes, 0, nodes.len()))
    }
}

/// The languages that the engine has a grammar for.
pub open spec fn has_grammar(language: crate::types::Language) -> bool {
    language == crate::types::Language::Python || language == crate::types::Language::Java || language == crate::types::Language::JavaScript
        || language == crate::types::Language::Kotlin
}

} // verus!
