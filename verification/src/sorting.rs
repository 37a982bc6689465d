//! The order of siblings in a scanned tree, and the sort that establishes it.

use vstd::prelude::*;
use crate::text::{
    lemma_lex_lt_asymmetric, lemma_lex_not_after_transitive, lex_lt, str_lt,
};
use crate::tree::{forest_view, lemma_forest_view, lemma_forest_view_insert, FileNode, NodeModel};

verus! {

/// Whether `a` must stand before `b` among siblings: a directory before a
/// file, and of two entries of one kind the one whose name comes first.
pub open spec fn sorts_before(a: NodeModel, b: NodeModel) -> bool {
    (!a.is_file && b.is_file) || (a.is_file == b.is_file && lex_lt(a.name, b.name))
}

/// Whether `a` may stand before `b` among siblings.
pub open spec fn in_order(a: NodeModel, b: NodeModel) -> bool {
    !sorts_before(b, a)
}

/// Siblings are sorted when every one of them may stand before all that
/// follow it: directories come first, and within one kind the names never
/// decrease.
pub open spec fn siblings_sorted(nodes: Seq<NodeModel>) -> bool {
    forall|i: int, j: int| 0 <= i < j < nodes.len() ==> in_order(#[trigger] nodes[i], #[trigger] nodes[j])
}

/// Where the node `x` goes in the sorted sequence `s`: behind the last
/// element that it need not precede.
pub open spec fn insert_position(s: Seq<NodeModel>, x: NodeModel) -> int
    decreases s.len(),
{
    if s.len() == 0 {
        0
    } else if sorts_before(x, s.last()) {
        insert_position(s.drop_last(), x)
    } else {
        s.len() as int
    }
}

/// The siblings `s` in sorted order. Nodes that may stand either way round
/// keep the order in which they came.
pub open spec fn sort_nodes(s: Seq<NodeModel>) -> Seq<NodeModel>
    decreases s.len(),
{
    if s.len() == 0 {
        s
    } else {
        let sorted = sort_nodes(s.drop_last());
        sorted.insert(insert_position(sorted, s.last()), s.last())
    }
}

/// Where `a` may stand before `b` and `b` before `c`, `a` may stand before `c`.
pub proof fn lemma_in_order_transitive(a: NodeModel, b: NodeModel, c: NodeModel)
    requires
        in_order(a, b),
        in_order(b, c),
    ensures
        in_order(a, c),
{
    if a.is_file == b.is_file && b.is_file == c.is_file {
        lemma_lex_not_after_transitive(a.name, b.name, c.name);
    }
}

/// A node that must stand before another may stand before it.
pub proof fn lemma_sorts_before_asymmetric(a: NodeModel, b: NodeModel)
    ensures
        sorts_before(a, b) ==> in_order(a, b),
{
    lemma_lex_lt_asymmetric(a.name, b.name);
}

/// The insert position lies inside the sequence, every element from it on
/// must follow `x`, and the element just before it need not.
pub proof fn lemma_insert_position(s: Seq<NodeModel>, x: NodeModel)
    ensures
        0 <= insert_position(s, x) <= s.len(),
        forall|k: int| insert_position(s, x) <= k < s.len() ==> sorts_before(x, #[trigger] s[k]),
        insert_position(s, x) > 0 ==> !sorts_before(x, s[insert_position(s, x) - 1]),
    decreases s.len(),
{
    if s.len() > 0 && sorts_before(x, s.last()) {
        lemma_insert_position(s.drop_last(), x);
        assert forall|k: int| insert_position(s, x) <= k < s.len() implies sorts_before(
            x,
            #[trigger] s[k],
        ) by {
            if k < s.len() - 1 {
                assert(s.drop_last()[k] == s[k]);
            }
        }
    }
}

/// Sorting keeps the number of siblings and leaves them sorted.
pub proof fn lemma_sort_sorted(s: Seq<NodeModel>)
    ensures
        sort_nodes(s).len() == s.len(),
        siblings_sorted(sort_nodes(s)),
    decreases s.len(),
{
    if s.len() > 0 {
        let sorted = sort_nodes(s.drop_last());
        let x = s.last();
        let p = insert_position(sorted, x);
        let r = sorted.insert(p, x);
        lemma_sort_sorted(s.drop_last());
        lemma_insert_position(sorted, x);
        assert forall|i: int, j: int| 0 <= i < j < r.len() implies in_order(
            #[trigger] r[i],
            #[trigger] r[j],
        ) by {
            if j < p {
                assert(in_order(sorted[i], sorted[j]));
            } else if j == p {
                if i < p - 1 {
                    assert(in_order(sorted[i], sorted[p - 1]));
                    lemma_in_order_transitive(sorted[i], sorted[p - 1], x);
                }
            } else if i < p {
                assert(in_order(sorted[i], sorted[j - 1]));
            } else if i == p {
                assert(sorts_before(x, sorted[j - 1]));
                lemma_sorts_before_asymmetric(x, sorted[j - 1]);
            } else {
                assert(in_order(sorted[i - 1], sorted[j - 1]));
            }
        }
    }
}

/// Sorting only reorders: the sorted siblings are the given ones, each as
/// often as it was given.
pub proof fn lemma_sort_permutes(s: Seq<NodeModel>)
    ensures
        sort_nodes(s).to_multiset() == s.to_multiset(),
    decreases s.len(),
{
    if s.len() > 0 {
        let sorted = sort_nodes(s.drop_last());
        lemma_sort_permutes(s.drop_last());
        lemma_insert_position(sorted, s.last());
        vstd::seq_lib::to_multiset_insert(sorted, insert_position(sorted, s.last()), s.last());
        vstd::seq_lib::to_multiset_build(s.drop_last(), s.last());
        assert(s.drop_last().push(s.last()) =~= s);
    }
}

/// Sorting keeps the number of files in the forest.
pub proof fn lemma_sort_file_count(s: Seq<NodeModel>)
    ensures
        crate::shape::file_count(sort_nodes(s)) == crate::shape::file_count(s),
    decreases s.len(),
{
    if s.len() > 0 {
        let sorted = sort_nodes(s.drop_last());
        lemma_sort_file_count(s.drop_last());
        lemma_insert_position(sorted, s.last());
        crate::shape::lemma_file_count_insert(sorted, insert_position(sorted, s.last()), s.last());
    }
}

/// What holds of every sibling holds of every sorted sibling.
pub proof fn lemma_sort_keeps(s: Seq<NodeModel>, holds: spec_fn(NodeModel) -> bool)
    requires
        forall|i: int| 0 <= i < s.len() ==> holds(#[trigger] s[i]),
    ensures
        forall|i: int| 0 <= i < sort_nodes(s).len() ==> holds(#[trigger] sort_nodes(s)[i]),
    decreases s.len(),
{
    if s.len() > 0 {
        let sorted = sort_nodes(s.drop_last());
        assert forall|i: int| 0 <= i < s.drop_last().len() implies holds(
            #[trigger] s.drop_last()[i],
        ) by {
            assert(s.drop_last()[i] == s[i]);
        }
        lemma_sort_keeps(s.drop_last(), holds);
        lemma_insert_position(sorted, s.last());
        let p = insert_position(sorted, s.last());
        assert forall|i: int| 0 <= i < sort_nodes(s).len() implies holds(
            #[trigger] sort_nodes(s)[i],
        ) by {
            if i < p {
                assert(sort_nodes(s)[i] == sorted[i]);
            } else if i > p {
                assert(sort_nodes(s)[i] == sorted[i - 1]);
            }
        }
    }
}

/// Whether the node `a` must stand before the node `b`.
pub fn node_before(a: &FileNode, b: &FileNode) -> (r: bool)
    ensures
        r == sorts_before(a@, b@),
{
    if a.is_file != b.is_file {
        !a.is_file
    } else {
        str_lt(a.name.as_str(), b.name.as_str())
    }
}

/// Sorts siblings: directories first, then by name.
pub fn sort_siblings(nodes: Vec<FileNode>) -> (sorted: Vec<FileNode>)
    ensures
        forest_view(sorted@) == sort_nodes(forest_view(nodes@)),
{
    let mut sorted: Vec<FileNode> = Vec::new();
    let ghost all = nodes@;
    for node in it: nodes
        invariant
            it.seq() == all,
            forest_view(sorted@) == sort_nodes(forest_view(all.take(it.index() as int))),
    {
        let ghost before = forest_view(sorted@);
        let mut p: usize = sorted.len();
        proof {
            lemma_forest_view(sorted@);
            assert(before.take(p as int) =~= before);
        }
        while p > 0 && node_before(&node, &sorted[p - 1])
            invariant
                p <= sorted.len(),
                before == forest_view(sorted@),
                before.len() == sorted.len(),
                forall|i: int| 0 <= i < sorted.len() ==> #[trigger] before[i] == sorted@[i]@,
                insert_position(before, node@) == insert_position(before.take(p as int), node@),
            decreases p,
        {
            assert(before.take(p as int).drop_last() =~= before.take(p - 1));
            p -= 1;
        }
        proof {
            lemma_forest_view_insert(sorted@, p as int, node);
            let done = all.take(it.index() as int);
            let next = all.take(it.index() + 1);
            assert(next.drop_last() =~= done);
            assert(next.last() == node);
            crate::tree::lemma_forest_view_push(done, node);
            assert(done.push(node) =~= next);
            assert(forest_view(next).drop_last() =~= forest_view(done));
        }
        sorted.insert(p, node);
    }
    proof {
        assert(all.take(all.len() as int) =~= all);
    }
    sorted
}

} // verus!
