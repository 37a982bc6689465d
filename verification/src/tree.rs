//! The tree that a workspace scan produces, and what is measured on it.

use vstd::prelude::*;

verus! {

/// One filesystem entry of a scanned workspace. A directory owns its
/// children; a file has none.
#[derive(Debug, PartialEq, Eq)]
pub struct FileNode {
    pub name: String,
    /// The entry's path relative to the scan root, with forward slashes.
    pub path: String,
    pub is_file: bool,
    pub children: Option<Vec<FileNode>>,
}

/// The mathematical value of a [`FileNode`].
pub struct NodeModel {
    pub name: Seq<char>,
    pub path: Seq<char>,
    pub is_file: bool,
    pub children: Option<Seq<NodeModel>>,
}

impl View for FileNode {
    type V = NodeModel;

    open spec fn view(&self) -> NodeModel
        decreases self,
    {
        NodeModel {
            name: self.name@,
            path: self.path@,
            is_file: self.is_file,
            children: match self.children {
                Some(v) => Some(forest_view(v@)),
                None => None,
            },
        }
    }
}

/// The values of a sequence of nodes, in the same order.
pub open spec fn forest_view(nodes: Seq<FileNode>) -> Seq<NodeModel>
    decreases nodes,
{
    if nodes.len() == 0 {
        Seq::empty()
    } else {
        forest_view(nodes.drop_last()).push(nodes.last()@)
    }
}

/// The values of a sequence of nodes stand at the same positions.
pub proof fn lemma_forest_view(nodes: Seq<FileNode>)
    ensures
        forest_view(nodes).len() == nodes.len(),
        forall|i: int| 0 <= i < nodes.len() ==> #[trigger] forest_view(nodes)[i] == nodes[i]@,
    decreases nodes.len(),
{
    if nodes.len() > 0 {
        lemma_forest_view(nodes.drop_last());
        assert(forest_view(nodes) == forest_view(nodes.drop_last()).push(nodes.last()@));
        assert forall|i: int| 0 <= i < nodes.len() implies #[trigger] forest_view(nodes)[i]
            == nodes[i]@ by {
            if i < nodes.len() - 1 {
                assert(nodes.drop_last()[i] == nodes[i]);
            }
        }
    } else {
        assert(forest_view(nodes) == Seq::<NodeModel>::empty());
    }
}

/// The value of a sequence with one more node at its end.
pub proof fn lemma_forest_view_push(nodes: Seq<FileNode>, node: FileNode)
    ensures
        forest_view(nodes.push(node)) == forest_view(nodes).push(node@),
{
    assert(nodes.push(node).drop_last() =~= nodes);
}

/// The value of a sequence with one more node in it.
pub proof fn lemma_forest_view_insert(nodes: Seq<FileNode>, i: int, node: FileNode)
    requires
        0 <= i <= nodes.len(),
    ensures
        forest_view(nodes.insert(i, node)) == forest_view(nodes).insert(i, node@),
{
    lemma_forest_view(nodes);
    lemma_forest_view(nodes.insert(i, node));
    assert(forest_view(nodes.insert(i, node)) =~= forest_view(nodes).insert(i, node@));
}

} // verus!
