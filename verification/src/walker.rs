//! The workspace scan as a machine that is fed one directory listing at a
//! time. The machine decides which directory is listed next, so that a
//! caller who reads the disk never reads more than the scan needs: nothing
//! below the depth limit, and nothing once the limit on files is reached.

use vstd::prelude::*;
use crate::names::{
    child_path, depth_limit_name, display_name, excluded, extension_skipped, skipped_by_extension,
    is_excluded, join_path, path_text, shown_name,
};
use crate::sorting::sort_siblings;
use crate::tree::lemma_forest_view_push;
use crate::names::lemma_placeholder_name;
use crate::scan::{directory_node, file_node, placeholder_node, Frame};
use crate::shape::{
    file_count, names_allowed, no_deeper_than, node_files, node_names_allowed, node_no_deeper,
    node_sorted, sorted_throughout,
};
use crate::sorting::{lemma_sort_file_count, lemma_sort_keeps, lemma_sort_sorted, sort_nodes};
use crate::tree::{forest_view, FileNode, NodeModel};

verus! {

/// One entry of a directory listing, as the caller read it.
#[derive(Debug, Clone, PartialEq, Eq)]
pub struct ListedEntry {
    /// The entry's name, or `None` where it is not valid Unicode.
    pub name: Option<String>,
    /// The extension of the entry's path, for an entry whose name is not
    /// valid Unicode but whose extension is. It is not read otherwise.
    pub extension: Option<String>,
    pub is_dir: bool,
}

/// The mathematical value of a [`ListedEntry`].
pub struct ListedModel {
    pub name: Option<Seq<char>>,
    pub extension: Option<Seq<char>>,
    pub is_dir: bool,
}

impl View for ListedEntry {
    type V = ListedModel;

    open spec fn view(&self) -> ListedModel {
        ListedModel {
            name: self.name.deep_view(),
            extension: self.extension.deep_view(),
            is_dir: self.is_dir,
        }
    }
}

/// The values of the entries of a listing, in the same order.
pub open spec fn listing_view(entries: Seq<ListedEntry>) -> Seq<ListedModel> {
    entries.map_values(|e: ListedEntry| e@)
}

/// A directory whose entries are being taken.
pub struct Level {
    /// The directory's path relative to the scan root.
    pub path: Option<String>,
    pub entries: Vec<ListedEntry>,
    /// The number of entries taken so far.
    pub next: usize,
    /// The nodes made of the entries taken, in listing order.
    pub nodes: Vec<FileNode>,
}

/// The mathematical value of a [`Level`].
pub struct LevelModel {
    pub path: Option<Seq<char>>,
    pub entries: Seq<ListedModel>,
    pub next: nat,
    pub nodes: Seq<NodeModel>,
}

impl View for Level {
    type V = LevelModel;

    open spec fn view(&self) -> LevelModel {
        LevelModel {
            path: self.path.deep_view(),
            entries: listing_view(self.entries@),
            next: self.next as nat,
            nodes: forest_view(self.nodes@),
        }
    }
}

/// What the machine asks of its caller.
#[derive(Debug, Clone, PartialEq, Eq)]
pub enum Request {
    /// List the directory that is entry `index` of the directory at `level`
    /// of the walk (the root is at level 0), and feed the listing.
    List { level: usize, index: usize },
    /// The walk is over and the tree can be taken.
    Done,
}

/// The state of a walk: the directories that are open, from the root down,
/// the number of files seen, and the tree once the walk is over.
pub struct WalkModel {
    pub max_depth: nat,
    pub max_files: nat,
    pub count: nat,
    pub levels: Seq<LevelModel>,
    pub tree: Option<Seq<NodeModel>>,
}

impl WalkModel {
    /// The frame of the innermost open directory.
    pub open spec fn frame(self) -> Frame {
        Frame {
            path: self.levels.last().path,
            depth: (self.levels.len() - 1) as nat,
            max_depth: self.max_depth,
            max_files: self.max_files,
        }
    }

    /// The walk with `top` in place of its innermost open directory.
    pub open spec fn with_top(self, top: LevelModel) -> WalkModel {
        WalkModel { levels: self.levels.drop_last().push(top), ..self }
    }

    /// The walk after `node` was made of the next entry of the innermost
    /// directory, or after that entry was passed over.
    pub open spec fn taken(self, node: Option<NodeModel>) -> WalkModel {
        let top = self.levels.last();
        self.with_top(
            LevelModel {
                next: top.next + 1,
                nodes: match node {
                    Some(n) => top.nodes.push(n),
                    None => top.nodes,
                },
                ..top
            },
        )
    }

    /// The walk after its innermost directory was closed: its sorted nodes
    /// become the tree, or the children of its node in the directory above.
    pub open spec fn closed(self) -> WalkModel {
        let sorted = sort_nodes(self.levels.last().nodes);
        let rest = self.levels.drop_last();
        if rest.len() == 0 {
            WalkModel { levels: rest, tree: Some(sorted), ..self }
        } else {
            let above = WalkModel { levels: rest, ..self };
            let parent = rest.last();
            let name = parent.entries[parent.next - 1].name;
            above.with_top(
                LevelModel {
                    nodes: parent.nodes.push(directory_node(above.frame(), name, sorted)),
                    ..parent
                },
            )
        }
    }

    /// The walk after a directory was opened with the entries `entries`: the
    /// root where none is open, else the directory taken last.
    pub open spec fn opened(self, entries: Seq<ListedModel>) -> WalkModel {
        let path = if self.levels.len() == 0 {
            Some(Seq::empty())
        } else {
            let top = self.levels.last();
            child_path(top.path, top.entries[top.next - 1].name)
        };
        WalkModel {
            levels: self.levels.push(LevelModel { path, entries, next: 0, nodes: Seq::empty() }),
            ..self
        }
    }
}

/// The entries still to be taken in the open directories, and one more for
/// each directory that is open.
pub open spec fn remaining(levels: Seq<LevelModel>) -> nat
    decreases levels.len(),
{
    if levels.len() == 0 {
        0
    } else {
        let top = levels.last();
        remaining(levels.drop_last()) + 1 + if top.next <= top.entries.len() {
            (top.entries.len() - top.next) as nat
        } else {
            0
        }
    }
}

/// What remains after the innermost open directory was replaced.
pub proof fn lemma_remaining_with_top(levels: Seq<LevelModel>, top: LevelModel)
    requires
        levels.len() > 0,
    ensures
        remaining(levels.drop_last().push(top)) == remaining(levels.drop_last()) + 1 + if top.next
            <= top.entries.len() {
            (top.entries.len() - top.next) as nat
        } else {
            0
        },
{
    assert(levels.drop_last().push(top).drop_last() =~= levels.drop_last());
}

#[via_fn]
proof fn advance_terminates(m: WalkModel) {
    if m.levels.len() > 0 {
        let top = m.levels.last();
        if top.next < top.entries.len() && m.count < m.max_files {
            let e = top.entries[top.next as int];
            lemma_remaining_with_top(m.levels, m.taken(None).levels.last());
            lemma_remaining_with_top(
                m.levels,
                m.taken(Some(placeholder_node(m.frame(), e.name))).levels.last(),
            );
            lemma_remaining_with_top(
                m.levels,
                m.taken(Some(file_node(m.frame(), e.name))).levels.last(),
            );
        } else {
            let rest = m.levels.drop_last();
            if rest.len() > 0 {
                lemma_remaining_with_top(rest, m.closed().levels.last());
            }
        }
    }
}

/// What the machine asks next, as a value.
pub enum RequestModel {
    List { level: nat, index: nat },
    Done,
}

impl View for Request {
    type V = RequestModel;

    open spec fn view(&self) -> RequestModel {
        match self {
            Request::List { level, index } => RequestModel::List {
                level: *level as nat,
                index: *index as nat,
            },
            Request::Done => RequestModel::Done,
        }
    }
}

/// Runs the walk until it needs a listing or is over. Entries are taken in
/// listing order while the limit on files is not reached: an excluded entry
/// is passed over; a directory is asked for, or at the depth limit replaced
/// by a placeholder; a file gets a node and is counted unless its extension
/// rules it out. A directory with nothing more to take is closed.
pub open spec fn advance(m: WalkModel) -> (WalkModel, RequestModel)
    decreases remaining(m.levels),
    via advance_terminates
{
    if m.levels.len() == 0 {
        (m, RequestModel::Done)
    } else {
        let top = m.levels.last();
        if top.next < top.entries.len() && m.count < m.max_files {
            let e = top.entries[top.next as int];
            let name = shown_name(e.name);
            if is_excluded(name) {
                advance(m.taken(None))
            } else if e.is_dir {
                if m.frame().depth >= m.max_depth {
                    advance(m.taken(Some(placeholder_node(m.frame(), e.name))))
                } else {
                    (
                        m.taken(None),
                        RequestModel::List { level: m.frame().depth, index: top.next },
                    )
                }
            } else if skipped_by_extension(e.name, e.extension) {
                advance(m.taken(None))
            } else {
                advance(
                    WalkModel { count: m.count + 1, ..m.taken(Some(file_node(m.frame(), e.name))) },
                )
            }
        } else {
            advance(m.closed())
        }
    }
}

/// The walk after a listing was fed: the directory asked for is opened with
/// the entries of the listing, or with none where it could not be listed,
/// and the walk runs on. A walk that is over stays as it is.
pub open spec fn fed(m: WalkModel, listing: Option<Seq<ListedModel>>) -> (WalkModel, RequestModel) {
    if m.tree is Some {
        (m, RequestModel::Done)
    } else {
        advance(
            m.opened(
                match listing {
                    Some(entries) => entries,
                    None => Seq::empty(),
                },
            ),
        )
    }
}

/// The number of file nodes made so far in the open directories.
pub open spec fn open_files(levels: Seq<LevelModel>) -> nat
    decreases levels.len(),
{
    if levels.len() == 0 {
        0
    } else {
        open_files(levels.drop_last()) + file_count(levels.last().nodes)
    }
}

impl LevelModel {
    /// Whether the entry taken last is a directory that the scan enters by
    /// its name: the one that is open below this one.
    pub open spec fn entered(self) -> bool {
        &&& 1 <= self.next <= self.entries.len()
        &&& self.entries[self.next - 1].is_dir
        &&& !is_excluded(shown_name(self.entries[self.next - 1].name))
    }

    /// Whether the nodes made so far bear allowed names, are sorted below and
    /// stay within the depth limit, this directory's entries being at `depth`.
    pub open spec fn shaped(self, depth: nat, max_depth: nat) -> bool {
        &&& names_allowed(self.nodes)
        &&& forall|i: int| 0 <= i < self.nodes.len() ==> node_sorted(#[trigger] self.nodes[i])
        &&& no_deeper_than(self.nodes, depth, max_depth)
    }
}

impl WalkModel {
    /// What holds of a walk while it runs.
    pub open spec fn running(self) -> bool {
        &&& self.levels.len() <= self.max_depth + 1
        &&& forall|j: int| 0 <= j < self.levels.len() - 1 ==> (#[trigger] self.levels[j]).entered()
        &&& self.levels.len() > 0 ==> self.levels.last().next <= self.levels.last().entries.len()
        &&& forall|j: int|
            0 <= j < self.levels.len() ==> (#[trigger] self.levels[j]).shaped(
                j as nat,
                self.max_depth,
            )
        &&& self.count <= self.max_files
        &&& match self.tree {
            Some(t) => {
                &&& self.levels.len() == 0
                &&& self.count == file_count(t)
                &&& names_allowed(t)
                &&& sorted_throughout(t)
                &&& no_deeper_than(t, 0, self.max_depth)
            },
            None => self.count == open_files(self.levels),
        }
    }

    /// What holds of a walk between two listings: it is over, or has not
    /// begun, or waits for the listing of the directory that it took last.
    pub open spec fn wf(self) -> bool {
        &&& self.running()
        &&& self.levels.len() > 0 ==> self.levels.last().entered() && self.levels.len()
            <= self.max_depth
    }
}

/// The files of the open directories after the innermost was replaced.
pub proof fn lemma_open_files_with_top(levels: Seq<LevelModel>, top: LevelModel)
    requires
        levels.len() > 0,
    ensures
        open_files(levels.drop_last().push(top)) == open_files(levels.drop_last()) + file_count(
            top.nodes,
        ),
{
    assert(levels.drop_last().push(top).drop_last() =~= levels.drop_last());
}

/// Taking the next entry of the innermost directory keeps a running walk
/// running, where the node made of it, if any, is one that the scan makes.
pub proof fn lemma_taken_running(m: WalkModel, node: Option<NodeModel>, counted: nat)
    requires
        m.running(),
        m.tree is None,
        m.levels.len() > 0,
        m.levels.last().next < m.levels.last().entries.len(),
        m.count + counted <= m.max_files,
        match node {
            Some(n) => {
                &&& counted == node_files(n)
                &&& node_names_allowed(n)
                &&& node_sorted(n)
                &&& node_no_deeper(n, m.frame().depth, m.max_depth)
            },
            None => counted == 0,
        },
    ensures
        (WalkModel { count: m.count + counted, ..m.taken(node) }).running(),
{
    let r = WalkModel { count: m.count + counted, ..m.taken(node) };
    let top = m.levels.last();
    let new_top = r.levels.last();
    lemma_open_files_with_top(m.levels, new_top);
    assert(m.levels.drop_last().push(top) =~= m.levels);
    lemma_open_files_with_top(m.levels, top);
    assert(top.shaped((m.levels.len() - 1) as nat, m.max_depth));
    match node {
        Some(n) => {
            assert(top.nodes.push(n).drop_last() =~= top.nodes);
        },
        None => {},
    }
    assert forall|j: int| 0 <= j < r.levels.len() implies (#[trigger] r.levels[j]).shaped(
        j as nat,
        r.max_depth,
    ) by {
        if j < r.levels.len() - 1 {
            assert(r.levels[j] == m.levels[j]);
        }
    }
    assert forall|j: int| 0 <= j < r.levels.len() - 1 implies (#[trigger] r.levels[j]).entered() by {
        assert(r.levels[j] == m.levels[j]);
    }
}

/// Closing the innermost directory keeps a running walk running.
pub proof fn lemma_closed_running(m: WalkModel)
    requires
        m.running(),
        m.tree is None,
        m.levels.len() > 0,
    ensures
        m.closed().running(),
{
    let r = m.closed();
    let top = m.levels.last();
    let depth = (m.levels.len() - 1) as nat;
    let sorted = sort_nodes(top.nodes);
    let rest = m.levels.drop_last();
    assert(top.shaped(depth, m.max_depth));
    lemma_sort_sorted(top.nodes);
    lemma_sort_file_count(top.nodes);
    lemma_sort_keeps(top.nodes, |n: NodeModel| node_names_allowed(n));
    lemma_sort_keeps(top.nodes, |n: NodeModel| node_sorted(n));
    lemma_sort_keeps(top.nodes, |n: NodeModel| node_no_deeper(n, depth, m.max_depth));
    assert(m.levels.drop_last().push(top) =~= m.levels);
    lemma_open_files_with_top(m.levels, top);
    if rest.len() == 0 {
        assert(open_files(rest) == 0);
    } else {
        let above = WalkModel { levels: rest, ..m };
        let parent = rest.last();
        assert(parent == m.levels[m.levels.len() - 2]);
        assert(parent.entered());
        assert(parent.shaped((depth - 1) as nat, m.max_depth));
        let name = parent.entries[parent.next - 1].name;
        let node = directory_node(above.frame(), name, sorted);
        assert(node_names_allowed(node));
        assert(node_sorted(node));
        assert(node_no_deeper(node, (depth - 1) as nat, m.max_depth));
        assert(parent.nodes.push(node).drop_last() =~= parent.nodes);
        assert(node_files(node) == file_count(sorted));
        assert(file_count(parent.nodes.push(node)) == file_count(parent.nodes) + node_files(node));
        lemma_open_files_with_top(rest, r.levels.last());
        assert(r.levels == rest.drop_last().push(r.levels.last()));
        assert(rest.drop_last().push(parent) =~= rest);
        lemma_open_files_with_top(rest, parent);
        assert(open_files(m.levels) == open_files(rest) + file_count(top.nodes));
        assert(open_files(r.levels) == open_files(rest.drop_last()) + file_count(
            r.levels.last().nodes,
        ));
        assert forall|j: int| 0 <= j < r.levels.len() implies (#[trigger] r.levels[j]).shaped(
            j as nat,
            r.max_depth,
        ) by {
            if j < r.levels.len() - 1 {
                assert(r.levels[j] == m.levels[j]);
            }
        }
        assert forall|j: int| 0 <= j < r.levels.len() - 1 implies (
        #[trigger] r.levels[j]).entered() by {
            assert(r.levels[j] == m.levels[j]);
        }
    }
}

/// A running walk runs on to a state that can wait for a listing.
pub proof fn lemma_advance_wf(m: WalkModel)
    requires
        m.running(),
        m.tree is None || m.levels.len() == 0,
    ensures
        advance(m).0.wf(),
        advance(m).1 is Done <==> advance(m).0.levels.len() == 0,
        advance(m).1 matches RequestModel::List { level, index } ==> {
            &&& level == advance(m).0.levels.len() - 1
            &&& index == advance(m).0.levels.last().next - 1
        },
        m.levels.len() > 0 ==> (advance(m).1 is Done <==> advance(m).0.tree is Some),
        advance(m).0.max_depth == m.max_depth,
        advance(m).0.max_files == m.max_files,
    decreases remaining(m.levels),
{
    if m.levels.len() > 0 {
        let top = m.levels.last();
        if top.next < top.entries.len() && m.count < m.max_files {
            let e = top.entries[top.next as int];
            let name = shown_name(e.name);
            lemma_remaining_with_top(m.levels, m.taken(None).levels.last());
            if is_excluded(name) {
                lemma_taken_running(m, None, 0);
                lemma_advance_wf(m.taken(None));
            } else if e.is_dir {
                if m.frame().depth >= m.max_depth {
                    let n = placeholder_node(m.frame(), e.name);
                    lemma_placeholder_name(name);
                    assert(file_count(Seq::<NodeModel>::empty()) == 0);
                    assert(node_names_allowed(n));
                    assert(node_sorted(n));
                    lemma_taken_running(m, Some(n), 0);
                    lemma_remaining_with_top(m.levels, m.taken(Some(n)).levels.last());
                    lemma_advance_wf(m.taken(Some(n)));
                } else {
                    lemma_taken_running(m, None, 0);
                }
            } else if skipped_by_extension(e.name, e.extension) {
                lemma_taken_running(m, None, 0);
                lemma_advance_wf(m.taken(None));
            } else {
                let n = file_node(m.frame(), e.name);
                assert(node_names_allowed(n));
                lemma_taken_running(m, Some(n), 1);
                lemma_remaining_with_top(m.levels, m.taken(Some(n)).levels.last());
                lemma_advance_wf(WalkModel { count: m.count + 1, ..m.taken(Some(n)) });
            }
        } else {
            lemma_closed_running(m);
            let rest = m.levels.drop_last();
            if rest.len() > 0 {
                lemma_remaining_with_top(rest, m.closed().levels.last());
            }
            lemma_advance_wf(m.closed());
        }
    }
}

/// A walk that waits for a listing runs once the directory is opened.
pub proof fn lemma_opened_running(m: WalkModel, entries: Seq<ListedModel>)
    requires
        m.wf(),
        m.tree is None,
    ensures
        m.opened(entries).running(),
{
    let o = m.opened(entries);
    assert(o.levels.drop_last() =~= m.levels);
    assert(file_count(Seq::<NodeModel>::empty()) == 0);
    assert forall|j: int| 0 <= j < o.levels.len() implies (#[trigger] o.levels[j]).shaped(
        j as nat,
        o.max_depth,
    ) by {
        if j < o.levels.len() - 1 {
            assert(o.levels[j] == m.levels[j]);
        }
    }
    assert forall|j: int| 0 <= j < o.levels.len() - 1 implies (#[trigger] o.levels[j]).entered() by {
        assert(o.levels[j] == m.levels[j]);
    }
}

/// Feeding a listing to a walk that can take one leaves a walk that can
/// take the next. The walk is over exactly when the machine says so, and
/// then the tree holds no more files than the limit, nothing below the depth
/// limit, sorted siblings and allowed names only.
pub proof fn lemma_fed_wf(m: WalkModel, listing: Option<Seq<ListedModel>>)
    requires
        m.wf(),
    ensures
        fed(m, listing).0.wf(),
        fed(m, listing).1 is Done <==> fed(m, listing).0.tree is Some,
        fed(m, listing).0.tree matches Some(t) ==> {
            &&& file_count(t) <= m.max_files
            &&& no_deeper_than(t, 0, m.max_depth)
            &&& sorted_throughout(t)
            &&& names_allowed(t)
        },
        fed(m, listing).1 matches RequestModel::List { level, index } ==> {
            &&& level == fed(m, listing).0.levels.len() - 1
            &&& index == fed(m, listing).0.levels.last().next - 1
        },
{
    if m.tree is None {
        let entries = match listing {
            Some(entries) => entries,
            None => Seq::empty(),
        };
        lemma_opened_running(m, entries);
        lemma_advance_wf(m.opened(entries));
    }
}

/// The values of the open directories, from the root down.
pub open spec fn levels_view(levels: Seq<Level>) -> Seq<LevelModel> {
    levels.map_values(|l: Level| l@)
}

/// The value of a listing as it is fed.
pub open spec fn fed_view(listing: Option<Vec<ListedEntry>>) -> Option<Seq<ListedModel>> {
    match listing {
        Some(entries) => Some(listing_view(entries@)),
        None => None,
    }
}

/// A workspace scan in progress.
pub struct Walker {
    max_depth: u32,
    max_files: usize,
    count: usize,
    levels: Vec<Level>,
    tree: Option<Vec<FileNode>>,
}

impl View for Walker {
    type V = WalkModel;

    closed spec fn view(&self) -> WalkModel {
        WalkModel {
            max_depth: self.max_depth as nat,
            max_files: self.max_files as nat,
            count: self.count as nat,
            levels: levels_view(self.levels@),
            tree: match self.tree {
                Some(t) => Some(forest_view(t@)),
                None => None,
            },
        }
    }
}

impl Walker {
    /// A walk that has not begun: it waits for the listing of the root.
    pub fn new(max_depth: u32, max_files: usize) -> (w: Walker)
        ensures
            w@ == (WalkModel {
                max_depth: max_depth as nat,
                max_files: max_files as nat,
                count: 0,
                levels: Seq::empty(),
                tree: None,
            }),
            w@.wf(),
    {
        let w = Walker { max_depth, max_files, count: 0, levels: Vec::new(), tree: None };
        assert(w@.levels =~= Seq::empty());
        w
    }

    /// A walk within the limits of a workspace scan.
    pub fn workspace() -> (w: Walker)
        ensures
            w@ == (WalkModel {
                max_depth: crate::scan::MAX_DEPTH as nat,
                max_files: crate::scan::MAX_FILES as nat,
                count: 0,
                levels: Seq::empty(),
                tree: None,
            }),
            w@.wf(),
    {
        Walker::new(crate::scan::MAX_DEPTH, crate::scan::MAX_FILES)
    }

    /// Whether the walk is over.
    pub fn is_done(&self) -> (r: bool)
        ensures
            r == (self@.tree is Some),
    {
        self.tree.is_some()
    }

    /// The tree of a walk that is over.
    pub fn into_tree(self) -> (r: Option<Vec<FileNode>>)
        ensures
            match r {
                Some(t) => self@.tree == Some(forest_view(t@)),
                None => self@.tree is None,
            },
    {
        self.tree
    }

    fn run(&mut self) -> (req: Request)
        requires
            old(self)@.running(),
            old(self)@.tree is None,
        ensures
            (final(self)@, req@) == advance(old(self)@),
    {
        let ghost start = self@;
        loop
            invariant
                start == old(self)@,
                self@.running(),
                self@.tree is None,
                advance(self@) == advance(start),
            decreases remaining(self@.levels),
        {
            if self.levels.len() == 0 {
                assert(advance(self@) == (self@, RequestModel::Done));
                return Request::Done;
            }
            let ghost m = self@;
            let ghost all = self.levels@;
            let mut top = self.levels.pop().unwrap();
            let ghost top0 = top;
            proof {
                assert(levels_view(self.levels@) =~= m.levels.drop_last());
                assert(m.levels.last() == top@);
                assert(m.levels[m.levels.len() - 1].shaped(
                    (m.levels.len() - 1) as nat,
                    m.max_depth,
                ));
            }
            if top.next < top.entries.len() && self.count < self.max_files {
                let index = top.next;
                let name = display_name(&top.entries[index].name);
                let is_dir = top.entries[index].is_dir;
                let ghost e = top@.entries[index as int];
                assert(e == top.entries@[index as int]@);
                proof {
                    lemma_remaining_with_top(m.levels, m.taken(None).levels.last());
                }
                if excluded(name.as_str()) {
                    top.next = index + 1;
                    self.levels.push(top);
                    proof {
                        assert(self@.levels =~= m.taken(None).levels);
                        lemma_taken_running(m, None, 0);
                    }
                } else if is_dir {
                    if self.levels.len() >= self.max_depth as usize {
                        let entry_path = join_path(&top.path, &top.entries[index].name);
                        let node = FileNode {
                            name: depth_limit_name(name.as_str()),
                            path: path_text(&entry_path),
                            is_file: false,
                            children: Some(Vec::new()),
                        };
                        let ghost n = placeholder_node(m.frame(), e.name);
                        proof {
                            assert(node@ == n);
                            lemma_forest_view_push(top.nodes@, node);
                            lemma_placeholder_name(shown_name(e.name));
                            assert(file_count(Seq::<NodeModel>::empty()) == 0);
                            assert(node_names_allowed(n));
                            assert(node_sorted(n));
                            lemma_remaining_with_top(m.levels, m.taken(Some(n)).levels.last());
                        }
                        top.nodes.push(node);
                        top.next = index + 1;
                        self.levels.push(top);
                        proof {
                            assert(self@.levels =~= m.taken(Some(n)).levels);
                            lemma_taken_running(m, Some(n), 0);
                        }
                    } else {
                        top.next = index + 1;
                        self.levels.push(top);
                        proof {
                            assert(self@.levels =~= m.taken(None).levels);
                            assert(self@ == m.taken(None));
                            assert(advance(m) == (
                                m.taken(None),
                                RequestModel::List { level: m.frame().depth, index: index as nat },
                            ));
                        }
                        return Request::List { level: self.levels.len() - 1, index };
                    }
                } else if extension_skipped(&top.entries[index].name, &top.entries[index].extension) {
                    top.next = index + 1;
                    self.levels.push(top);
                    proof {
                        assert(self@.levels =~= m.taken(None).levels);
                        lemma_taken_running(m, None, 0);
                    }
                } else {
                    let entry_path = join_path(&top.path, &top.entries[index].name);
                    let node = FileNode {
                        name,
                        path: path_text(&entry_path),
                        is_file: true,
                        children: None,
                    };
                    let ghost n = file_node(m.frame(), e.name);
                    proof {
                        assert(node@ == n);
                        lemma_forest_view_push(top.nodes@, node);
                        assert(node_names_allowed(n));
                        lemma_remaining_with_top(m.levels, m.taken(Some(n)).levels.last());
                    }
                    top.nodes.push(node);
                    top.next = index + 1;
                    self.levels.push(top);
                    self.count = self.count + 1;
                    proof {
                        assert(self@.levels =~= m.taken(Some(n)).levels);
                        lemma_taken_running(m, Some(n), 1);
                    }
                }
            } else {
                proof {
                    lemma_closed_running(m);
                }
                let sorted = sort_siblings(top.nodes);
                if self.levels.len() == 0 {
                    self.tree = Some(sorted);
                    proof {
                        assert(self@.levels =~= m.closed().levels);
                        assert(self@ == m.closed());
                        assert(advance(m) == advance(m.closed()));
                        assert(advance(m.closed()) == (m.closed(), RequestModel::Done));
                    }
                    return Request::Done;
                }
                let ghost rest = m.levels.drop_last();
                let mut parent = self.levels.pop().unwrap();
                proof {
                    assert(parent@ == rest.last());
                    assert(parent@ == m.levels[m.levels.len() - 2]);
                    assert(parent@.entered());
                    assert(levels_view(self.levels@) =~= rest.drop_last());
                }
                let taken = parent.next - 1;
                let name = display_name(&parent.entries[taken].name);
                let entry_path = join_path(&parent.path, &parent.entries[taken].name);
                let node = FileNode {
                    name,
                    path: path_text(&entry_path),
                    is_file: false,
                    children: Some(sorted),
                };
                proof {
                    assert(parent@.entries[taken as int] == parent.entries@[taken as int]@);
                    lemma_forest_view_push(parent.nodes@, node);
                    lemma_remaining_with_top(rest, m.closed().levels.last());
                }
                parent.nodes.push(node);
                self.levels.push(parent);
                proof {
                    assert(self@.levels =~= m.closed().levels);
                    assert(self@ == m.closed());
                }
            }
        }
    }

    /// Feeds the listing that the machine asked for last, or that of the root
    /// where the walk has not begun: the entries in listing order, or `None`
    /// where the directory could not be listed. Returns what the machine asks
    /// next.
    ///
    /// Once the walk is over, its tree holds at most `max_files` files and
    /// nothing deeper than `max_depth`; its siblings are sorted on every level
    /// and no skipped or hidden name occurs in it.
    pub fn feed(&mut self, listing: Option<Vec<ListedEntry>>) -> (req: Request)
        requires
            old(self)@.wf(),
        ensures
            (final(self)@, req@) == fed(old(self)@, fed_view(listing)),
            final(self)@.wf(),
            req is Done <==> final(self)@.tree is Some,
            final(self)@.tree matches Some(t) ==> {
                &&& file_count(t) <= old(self)@.max_files
                &&& no_deeper_than(t, 0, old(self)@.max_depth)
                &&& sorted_throughout(t)
                &&& names_allowed(t)
            },
    {
        proof {
            lemma_fed_wf(self@, fed_view(listing));
        }
        if self.tree.is_some() {
            return Request::Done;
        }
        let ghost m = self@;
        let entries = match listing {
            Some(entries) => entries,
            None => Vec::new(),
        };
        let ghost fed_entries = match fed_view(listing) {
            Some(entries) => entries,
            None => Seq::empty(),
        };
        assert(listing_view(entries@) =~= fed_entries);
        let n = self.levels.len();
        let path = if n == 0 {
            Some(String::new())
        } else {
            let top = &self.levels[n - 1];
            assert(m.levels[n - 1] == top@);
            assert(top@.entries[top.next - 1] == top.entries@[top.next - 1]@);
            join_path(&top.path, &top.entries[top.next - 1].name)
        };
        self.levels.push(Level { path, entries, next: 0, nodes: Vec::new() });
        proof {
            let o = m.opened(fed_entries);
            assert(self@.levels =~= o.levels);
            assert(self@ == o);
            lemma_opened_running(m, fed_entries);
        }
        self.run()
    }
}

} // verus!
