//! The bounded workspace scan: a depth-first walk over a directory tree that
//! stops descending at a depth limit and stops taking entries once a number
//! of files has been seen, counted over the whole walk.

use vstd::prelude::*;
use crate::names::{
    child_path, depth_limit_name, display_name, excluded, extension_skipped, skipped_by_extension,
    is_excluded, join_path, path_text, placeholder_name, shown_name, shown_path,
};
use crate::names::lemma_placeholder_name;
use crate::shape::{
    file_count, names_allowed, no_deeper_than, node_files, node_names_allowed, node_no_deeper,
    node_sorted, sorted_throughout,
};
use crate::sorting::{
    lemma_sort_file_count, lemma_sort_keeps, lemma_sort_sorted, sort_nodes, sort_siblings,
};
use crate::tree::{forest_view, FileNode, NodeModel};

verus! {

/// The depth limit of a workspace scan.
pub const MAX_DEPTH: u32 = 10;

/// The number of files after which a workspace scan takes no more entries.
pub const MAX_FILES: usize = 1000;

/// What a directory holds under one name.
#[derive(Debug, PartialEq, Eq)]
pub enum EntryKind {
    File,
    /// A directory with its entries in listing order, or `None` where it
    /// could not be listed.
    Directory(Option<Vec<DirEntry>>),
}

/// One entry of a directory listing.
#[derive(Debug, PartialEq, Eq)]
pub struct DirEntry {
    /// The entry's name, or `None` where it is not valid Unicode.
    pub name: Option<String>,
    /// The extension of the entry's path, for an entry whose name is not
    /// valid Unicode but whose extension is. It is not read otherwise.
    pub extension: Option<String>,
    pub kind: EntryKind,
}

/// The limits of one scan and the place of the directory being listed.
pub struct Frame {
    /// The directory's path relative to the scan root.
    pub path: Option<Seq<char>>,
    /// The depth of the directory's entries; those of the root are at 0.
    pub depth: nat,
    pub max_depth: nat,
    pub max_files: nat,
}

impl Frame {
    /// The frame of the directory called `name` inside the directory of `self`.
    pub open spec fn below(self, name: Option<Seq<char>>) -> Frame {
        Frame { path: child_path(self.path, name), depth: self.depth + 1, ..self }
    }
}

/// The node for a file called `name` in the directory of `frame`.
pub open spec fn file_node(frame: Frame, name: Option<Seq<char>>) -> NodeModel {
    NodeModel {
        name: shown_name(name),
        path: shown_path(child_path(frame.path, name)),
        is_file: true,
        children: None,
    }
}

/// The node for a directory called `name` with the scanned `children`.
pub open spec fn directory_node(
    frame: Frame,
    name: Option<Seq<char>>,
    children: Seq<NodeModel>,
) -> NodeModel {
    NodeModel {
        name: shown_name(name),
        path: shown_path(child_path(frame.path, name)),
        is_file: false,
        children: Some(children),
    }
}

/// The placeholder that stands for a directory at the depth limit: a
/// directory node without children, marked by its name.
pub open spec fn placeholder_node(frame: Frame, name: Option<Seq<char>>) -> NodeModel {
    NodeModel {
        name: placeholder_name(shown_name(name)),
        path: shown_path(child_path(frame.path, name)),
        is_file: false,
        children: Some(Seq::empty()),
    }
}

/// What the scan makes of one entry, given the number of files seen so far:
/// the entry's node, if it gets one, and the number of files seen after it.
pub open spec fn scan_entry(e: DirEntry, frame: Frame, count: nat) -> (Option<NodeModel>, nat)
    decreases e, 0nat,
{
    let name = e.name.deep_view();
    if is_excluded(shown_name(name)) {
        (None, count)
    } else {
        match e.kind {
            EntryKind::Directory(listing) => {
                if frame.depth >= frame.max_depth {
                    (Some(placeholder_node(frame, name)), count)
                } else {
                    let (children, seen) = scan_listing(listing, frame.below(name), count);
                    (Some(directory_node(frame, name, children)), seen)
                }
            },
            EntryKind::File => {
                if skipped_by_extension(name, e.extension.deep_view()) {
                    (None, count)
                } else {
                    (Some(file_node(frame, name)), count + 1)
                }
            },
        }
    }
}

/// What the scan makes of the first `k` entries of a directory, in listing
/// order. Once the number of files seen has reached the limit, no further
/// entry is taken.
pub open spec fn scan_prefix(entries: Seq<DirEntry>, k: nat, frame: Frame, count: nat) -> (
    Seq<NodeModel>,
    nat,
)
    decreases entries, k,
{
    if k == 0 || k > entries.len() {
        (Seq::empty(), count)
    } else {
        let (nodes, seen) = scan_prefix(entries, (k - 1) as nat, frame, count);
        if seen >= frame.max_files {
            (nodes, seen)
        } else {
            let (node, seen_after) = scan_entry(entries[k - 1], frame, seen);
            (
                match node {
                    Some(n) => nodes.push(n),
                    None => nodes,
                },
                seen_after,
            )
        }
    }
}

/// The sorted nodes of a directory and the number of files seen after it. A
/// directory that could not be listed has no nodes.
pub open spec fn scan_listing(listing: Option<Vec<DirEntry>>, frame: Frame, count: nat) -> (
    Seq<NodeModel>,
    nat,
)
    decreases listing, 0nat,
{
    match listing {
        Some(entries) => {
            let (nodes, seen) = scan_prefix(entries@, entries@.len(), frame, count);
            (sort_nodes(nodes), seen)
        },
        None => (Seq::empty(), count),
    }
}

/// The frame of a directory given by executable values.
pub open spec fn frame_of(path: Option<String>, depth: u32, max_depth: u32, max_files: usize) -> Frame {
    Frame {
        path: path.deep_view(),
        depth: depth as nat,
        max_depth: max_depth as nat,
        max_files: max_files as nat,
    }
}

/// Once the limit on files is reached, the rest of a directory adds nothing.
pub proof fn lemma_scan_prefix_saturated(
    entries: Seq<DirEntry>,
    i: nat,
    k: nat,
    frame: Frame,
    count: nat,
)
    requires
        i <= k <= entries.len(),
        scan_prefix(entries, i, frame, count).1 >= frame.max_files,
    ensures
        scan_prefix(entries, k, frame, count) == scan_prefix(entries, i, frame, count),
    decreases k - i,
{
    if i < k {
        lemma_scan_prefix_saturated(entries, i, (k - 1) as nat, frame, count);
    }
}

/// Whether a node made at depth `frame.depth` has its files counted in
/// `added`, bears allowed names, is sorted below, and stays within the depth
/// limit where it was made within it.
pub open spec fn node_shaped(n: NodeModel, frame: Frame, added: int) -> bool {
    &&& added == node_files(n)
    &&& node_names_allowed(n)
    &&& node_sorted(n)
    &&& frame.depth <= frame.max_depth ==> node_no_deeper(n, frame.depth, frame.max_depth)
}

/// Whether the nodes of one directory have their files counted in `added`,
/// bear allowed names, are sorted below, and stay within the depth limit.
pub open spec fn level_shaped(nodes: Seq<NodeModel>, frame: Frame, added: int) -> bool {
    &&& added == file_count(nodes)
    &&& names_allowed(nodes)
    &&& forall|i: int| 0 <= i < nodes.len() ==> node_sorted(#[trigger] nodes[i])
    &&& frame.depth <= frame.max_depth ==> no_deeper_than(nodes, frame.depth, frame.max_depth)
}

/// The shape of what the scan makes of one entry.
pub proof fn lemma_scan_entry_shape(e: DirEntry, frame: Frame, count: nat)
    ensures
        match scan_entry(e, frame, count).0 {
            Some(n) => node_shaped(n, frame, scan_entry(e, frame, count).1 - count),
            None => scan_entry(e, frame, count).1 == count,
        },
        count < frame.max_files ==> scan_entry(e, frame, count).1 <= frame.max_files,
    decreases e, 0nat,
{
    let name = e.name.deep_view();
    if !is_excluded(shown_name(name)) {
        match e.kind {
            EntryKind::Directory(listing) => {
                if frame.depth >= frame.max_depth {
                    lemma_placeholder_name(shown_name(name));
                    let n = placeholder_node(frame, name);
                    assert(file_count(Seq::<NodeModel>::empty()) == 0);
                    assert(node_names_allowed(n));
                    assert(node_sorted(n));
                } else {
                    lemma_scan_listing_shape(listing, frame.below(name), count);
                    let children = scan_listing(listing, frame.below(name), count).0;
                    let n = directory_node(frame, name, children);
                    assert(node_names_allowed(n));
                    assert(node_sorted(n));
                    assert(node_no_deeper(n, frame.depth, frame.max_depth));
                }
            },
            EntryKind::File => {
                if !skipped_by_extension(name, e.extension.deep_view()) {
                    let n = file_node(frame, name);
                    assert(node_names_allowed(n));
                    assert(node_sorted(n));
                }
            },
        }
    }
}

/// The shape of what the scan makes of the first entries of a directory.
pub proof fn lemma_scan_prefix_shape(entries: Seq<DirEntry>, k: nat, frame: Frame, count: nat)
    ensures
        level_shaped(
            scan_prefix(entries, k, frame, count).0,
            frame,
            scan_prefix(entries, k, frame, count).1 - count,
        ),
        count <= frame.max_files ==> scan_prefix(entries, k, frame, count).1 <= frame.max_files,
    decreases entries, k,
{
    if k == 0 || k > entries.len() {
        assert(file_count(Seq::<NodeModel>::empty()) == 0);
    } else {
        lemma_scan_prefix_shape(entries, (k - 1) as nat, frame, count);
        let (nodes, seen) = scan_prefix(entries, (k - 1) as nat, frame, count);
        if seen < frame.max_files {
            lemma_scan_entry_shape(entries[k - 1], frame, seen);
            match scan_entry(entries[k - 1], frame, seen).0 {
                Some(n) => {
                    assert(nodes.push(n).drop_last() =~= nodes);
                },
                None => {},
            }
        }
    }
}

/// The shape of the sorted nodes of a directory.
pub proof fn lemma_scan_listing_shape(listing: Option<Vec<DirEntry>>, frame: Frame, count: nat)
    ensures
        level_shaped(
            scan_listing(listing, frame, count).0,
            frame,
            scan_listing(listing, frame, count).1 - count,
        ),
        sorted_throughout(scan_listing(listing, frame, count).0),
        count <= frame.max_files ==> scan_listing(listing, frame, count).1 <= frame.max_files,
    decreases listing, 0nat,
{
    match listing {
        Some(entries) => {
            lemma_scan_prefix_shape(entries@, entries@.len(), frame, count);
            let nodes = scan_prefix(entries@, entries@.len(), frame, count).0;
            lemma_sort_sorted(nodes);
            lemma_sort_file_count(nodes);
            lemma_sort_keeps(nodes, |n: NodeModel| node_names_allowed(n));
            lemma_sort_keeps(nodes, |n: NodeModel| node_sorted(n));
            if frame.depth <= frame.max_depth {
                lemma_sort_keeps(
                    nodes,
                    |n: NodeModel| node_no_deeper(n, frame.depth, frame.max_depth),
                );
            }
        },
        None => {
            assert(file_count(Seq::<NodeModel>::empty()) == 0);
        },
    }
}

fn scan_directory(
    listing: &Option<Vec<DirEntry>>,
    path: &Option<String>,
    depth: u32,
    max_depth: u32,
    max_files: usize,
    count: &mut usize,
) -> (nodes: Vec<FileNode>)
    ensures
        (forest_view(nodes@), *final(count) as nat) == scan_listing(
            *listing,
            frame_of(*path, depth, max_depth, max_files),
            *old(count) as nat,
        ),
    decreases listing,
{
    let ghost frame = frame_of(*path, depth, max_depth, max_files);
    let ghost start = *count as nat;
    match listing {
        None => Vec::new(),
        Some(entries) => {
            let mut nodes: Vec<FileNode> = Vec::new();
            let mut i: usize = 0;
            while i < entries.len() && *count < max_files
                invariant
                    i <= entries.len(),
                    frame == frame_of(*path, depth, max_depth, max_files),
                    *listing == Some(*entries),
                    (forest_view(nodes@), *count as nat) == scan_prefix(
                        entries@,
                        i as nat,
                        frame,
                        start,
                    ),
                decreases entries.len() - i,
            {
                let entry = &entries[i];
                let name = display_name(&entry.name);
                let ghost before = nodes@;
                let ghost seen = *count as nat;
                proof {
                    assert(scan_prefix(entries@, (i + 1) as nat, frame, start) == {
                        let (node, seen_after) = scan_entry(entries@[i as int], frame, seen);
                        (
                            match node {
                                Some(n) => forest_view(before).push(n),
                                None => forest_view(before),
                            },
                            seen_after,
                        )
                    });
                }
                if !excluded(name.as_str()) {
                    match &entry.kind {
                        EntryKind::Directory(inner) => {
                            let entry_path = join_path(path, &entry.name);
                            if depth >= max_depth {
                                let node = FileNode {
                                    name: depth_limit_name(name.as_str()),
                                    path: path_text(&entry_path),
                                    is_file: false,
                                    children: Some(Vec::new()),
                                };
                                proof {
                                    crate::tree::lemma_forest_view_push(before, node);
                                }
                                nodes.push(node);
                            } else {
                                proof {
                                    assert((*listing)->0 == *entries);
                                    assert(decreases_to!(*listing => (*listing)->0));
                                    assert(decreases_to!(*entries => entries@[i as int]));
                                    assert(decreases_to!(entries@[i as int] => entries@[i as int].kind));
                                    assert(decreases_to!(entries@[i as int].kind => *inner));
                                }
                                let children = scan_directory(
                                    inner,
                                    &entry_path,
                                    depth + 1,
                                    max_depth,
                                    max_files,
                                    count,
                                );
                                let node = FileNode {
                                    name,
                                    path: path_text(&entry_path),
                                    is_file: false,
                                    children: Some(children),
                                };
                                proof {
                                    crate::tree::lemma_forest_view_push(before, node);
                                }
                                nodes.push(node);
                            }
                        },
                        EntryKind::File => {
                            if !extension_skipped(&entry.name, &entry.extension) {
                                let entry_path = join_path(path, &entry.name);
                                let node = FileNode {
                                    name,
                                    path: path_text(&entry_path),
                                    is_file: true,
                                    children: None,
                                };
                                proof {
                                    crate::tree::lemma_forest_view_push(before, node);
                                }
                                nodes.push(node);
                                *count += 1;
                            }
                        },
                    }
                }
                i += 1;
            }
            proof {
                if i < entries.len() {
                    lemma_scan_prefix_saturated(
                        entries@,
                        i as nat,
                        entries@.len(),
                        frame,
                        start,
                    );
                }
            }
            sort_siblings(nodes)
        },
    }
}

/// The frame of the root of a workspace scan.
pub open spec fn root_frame() -> Frame {
    Frame {
        path: Some(Seq::empty()),
        depth: 0,
        max_depth: MAX_DEPTH as nat,
        max_files: MAX_FILES as nat,
    }
}

/// Scans the directory `dir`, whose path relative to the scan root is
/// `relative` and whose entries stand at depth `current_depth`.
///
/// The result holds at most `max_files` files on all its levels together.
/// Directories below `max_depth` are not entered: a placeholder stands for
/// each. Siblings are sorted on every level, and no skipped or hidden name
/// occurs.
pub fn build_file_tree_with_limit(
    dir: &Option<Vec<DirEntry>>,
    relative: &Option<String>,
    current_depth: u32,
    max_depth: u32,
    max_files: usize,
) -> (nodes: Vec<FileNode>)
    ensures
        forest_view(nodes@) == scan_listing(
            *dir,
            frame_of(*relative, current_depth, max_depth, max_files),
            0,
        ).0,
        file_count(forest_view(nodes@)) <= max_files,
        current_depth <= max_depth ==> no_deeper_than(
            forest_view(nodes@),
            current_depth as nat,
            max_depth as nat,
        ),
        sorted_throughout(forest_view(nodes@)),
        names_allowed(forest_view(nodes@)),
{
    let mut count: usize = 0;
    proof {
        lemma_scan_listing_shape(*dir, frame_of(*relative, current_depth, max_depth, max_files), 0);
    }
    scan_directory(dir, relative, current_depth, max_depth, max_files, &mut count)
}

/// Scans a workspace from its root directory `dir`, within the limits
/// [`MAX_DEPTH`] and [`MAX_FILES`]. A root that could not be listed gives an
/// empty tree.
pub fn build_file_tree(dir: &Option<Vec<DirEntry>>) -> (nodes: Vec<FileNode>)
    ensures
        forest_view(nodes@) == scan_listing(*dir, root_frame(), 0).0,
        file_count(forest_view(nodes@)) <= MAX_FILES,
        no_deeper_than(forest_view(nodes@), 0, MAX_DEPTH as nat),
        sorted_throughout(forest_view(nodes@)),
        names_allowed(forest_view(nodes@)),
{
    let root = Some(String::new());
    assert(frame_of(root, 0, MAX_DEPTH, MAX_FILES) == root_frame());
    build_file_tree_with_limit(dir, &root, 0, MAX_DEPTH, MAX_FILES)
}

} // verus!
