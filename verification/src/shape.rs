//! What is measured on a scanned tree: how many files it holds, how deep it
//! reaches, whether its siblings are in order and which names occur in it.

use vstd::prelude::*;
use crate::names::{is_hidden, is_skipped_name, placeholder_name};
use crate::sorting::siblings_sorted;
use crate::tree::NodeModel;

verus! {

/// The number of file nodes in the subtree of `n`, `n` itself included.
pub open spec fn node_files(n: NodeModel) -> nat
    decreases n,
{
    (if n.is_file {
        1nat
    } else {
        0nat
    }) + match n.children {
        Some(c) => file_count(c),
        None => 0nat,
    }
}

/// The number of file nodes in a forest, on all its levels together.
pub open spec fn file_count(nodes: Seq<NodeModel>) -> nat
    decreases nodes,
{
    if nodes.len() == 0 {
        0nat
    } else {
        file_count(nodes.drop_last()) + node_files(nodes.last())
    }
}

/// Whether the node `n`, standing at depth `depth`, and everything below it
/// stays within `max_depth`.
pub open spec fn node_no_deeper(n: NodeModel, depth: nat, max_depth: nat) -> bool
    decreases n,
{
    depth <= max_depth && match n.children {
        Some(c) => no_deeper_than(c, depth + 1, max_depth),
        None => true,
    }
}

/// Whether no node of the forest `nodes`, whose roots stand at depth `depth`,
/// lies deeper than `max_depth`.
pub open spec fn no_deeper_than(nodes: Seq<NodeModel>, depth: nat, max_depth: nat) -> bool
    decreases nodes,
{
    forall|i: int| 0 <= i < nodes.len() ==> node_no_deeper(#[trigger] nodes[i], depth, max_depth)
}

/// Whether the children of `n`, and theirs in turn, are in sorted order.
pub open spec fn node_sorted(n: NodeModel) -> bool
    decreases n,
{
    match n.children {
        Some(c) => sorted_throughout(c),
        None => true,
    }
}

/// Whether the siblings are in sorted order on every level of the forest.
pub open spec fn sorted_throughout(nodes: Seq<NodeModel>) -> bool
    decreases nodes,
{
    siblings_sorted(nodes) && forall|i: int|
        0 <= i < nodes.len() ==> node_sorted(#[trigger] nodes[i])
}

/// A name that a scan may give to a node: never one of the skipped names,
/// and one that starts with a dot only for the two dotfiles that are always
/// shown, either as such or behind a depth-limit placeholder.
pub open spec fn name_allowed(name: Seq<char>) -> bool {
    &&& !is_skipped_name(name)
    &&& is_hidden(name) ==> name == placeholder_name(".gitignore"@) || name == placeholder_name(
        ".env"@,
    )
}

/// Whether `n` and every node below it has an allowed name.
pub open spec fn node_names_allowed(n: NodeModel) -> bool
    decreases n,
{
    name_allowed(n.name) && match n.children {
        Some(c) => names_allowed(c),
        None => true,
    }
}

/// Whether every node of the forest has an allowed name.
pub open spec fn names_allowed(nodes: Seq<NodeModel>) -> bool
    decreases nodes,
{
    forall|i: int| 0 <= i < nodes.len() ==> node_names_allowed(#[trigger] nodes[i])
}

/// A forest and the same forest with one more tree in it hold the files of
/// both.
pub proof fn lemma_file_count_insert(nodes: Seq<NodeModel>, i: int, n: NodeModel)
    requires
        0 <= i <= nodes.len(),
    ensures
        file_count(nodes.insert(i, n)) == file_count(nodes) + node_files(n),
    decreases nodes.len(),
{
    let r = nodes.insert(i, n);
    if i == nodes.len() {
        assert(r =~= nodes.push(n));
        assert(r.drop_last() =~= nodes);
    } else {
        assert(r.last() == nodes.last());
        assert(r.drop_last() =~= nodes.drop_last().insert(i, n));
        lemma_file_count_insert(nodes.drop_last(), i, n);
    }
}

} // verus!
