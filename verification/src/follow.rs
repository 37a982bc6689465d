//! The walk and the scan agree: a walk that is fed the listings of a
//! directory tree ends with the tree that the scan makes of it.

use vstd::prelude::*;
use crate::names::{child_path, is_excluded, shown_name};
use crate::scan::{
    directory_node, file_node, lemma_scan_prefix_saturated, placeholder_node, scan_entry,
    scan_listing, scan_prefix, DirEntry, EntryKind, Frame,
};
use crate::sorting::sort_nodes;
use crate::tree::NodeModel;
use crate::walker::{advance, fed, lemma_remaining_with_top, remaining, ListedModel, WalkModel};

verus! {

/// The entries of a directory: none where it could not be listed.
pub open spec fn entries_of(dir: Option<Vec<DirEntry>>) -> Seq<DirEntry> {
    match dir {
        Some(entries) => entries@,
        None => Seq::empty(),
    }
}

/// An entry as a caller lists it.
pub open spec fn listed(e: DirEntry) -> ListedModel {
    ListedModel {
        name: e.name.deep_view(),
        extension: e.extension.deep_view(),
        is_dir: e.kind is Directory,
    }
}

/// The listing of a directory as it is fed to a walk.
pub open spec fn listing_of(dir: Option<Vec<DirEntry>>) -> Option<Seq<ListedModel>> {
    match dir {
        Some(entries) => Some(entries@.map_values(|e: DirEntry| listed(e))),
        None => None,
    }
}

/// The entries that a walk holds for a directory.
pub open spec fn held_of(dir: Option<Vec<DirEntry>>) -> Seq<ListedModel> {
    entries_of(dir).map_values(|e: DirEntry| listed(e))
}

/// The frame of the directory that is open at level `j` of a walk.
pub open spec fn frame_at(m: WalkModel, j: int) -> Frame {
    Frame {
        path: m.levels[j].path,
        depth: j as nat,
        max_depth: m.max_depth,
        max_files: m.max_files,
    }
}

/// The number of files that the scan has seen when it enters the directory
/// at level `j`, the directories above being `dirs`.
pub open spec fn seen_before(m: WalkModel, dirs: Seq<Option<Vec<DirEntry>>>, j: int) -> nat
    decreases j,
{
    if j <= 0 {
        0
    } else {
        scan_prefix(
            entries_of(dirs[j - 1]),
            (m.levels[j - 1].next - 1) as nat,
            frame_at(m, j - 1),
            seen_before(m, dirs, j - 1),
        ).1
    }
}

/// What the scan makes of the entries of level `j` that the walk is done
/// with: all that it has taken, but for the directory that is open below.
pub open spec fn scanned(m: WalkModel, dirs: Seq<Option<Vec<DirEntry>>>, j: int, below: bool) -> (
    Seq<NodeModel>,
    nat,
) {
    scan_prefix(
        entries_of(dirs[j]),
        (if below {
            m.levels[j].next - 1
        } else {
            m.levels[j].next as int
        }) as nat,
        frame_at(m, j),
        seen_before(m, dirs, j),
    )
}

/// Whether level `j` of the walk holds the listing of `dirs[j]` and has made
/// of it what the scan makes.
pub open spec fn level_follows(
    m: WalkModel,
    dirs: Seq<Option<Vec<DirEntry>>>,
    j: int,
    below: bool,
) -> bool {
    let l = m.levels[j];
    let entries = entries_of(dirs[j]);
    &&& l.entries == held_of(dirs[j])
    &&& (if below {
        1 <= l.next
    } else {
        0 <= l.next
    })
    &&& l.next <= entries.len()
    &&& scanned(m, dirs, j, below).0 == l.nodes
    &&& below ==> {
        &&& scanned(m, dirs, j, true).1 < m.max_files
        &&& j < m.max_depth
        &&& entries[l.next - 1].kind is Directory
        &&& !is_excluded(shown_name(entries[l.next - 1].name.deep_view()))
    }
}

/// Whether the directory open at level `j + 1` is the one taken last at
/// level `j`.
pub open spec fn linked(m: WalkModel, dirs: Seq<Option<Vec<DirEntry>>>, j: int) -> bool {
    let l = m.levels[j];
    let e = entries_of(dirs[j])[l.next - 1];
    &&& e.kind == EntryKind::Directory(dirs[j + 1])
    &&& m.levels[j + 1].path == child_path(l.path, e.name.deep_view())
}

/// Whether a walk that has no tree yet follows the scan of the directories
/// `dirs`, which are open from the root down. A walk that waits for a
/// listing has taken the directory to be listed; one that runs has not.
pub open spec fn follows(m: WalkModel, dirs: Seq<Option<Vec<DirEntry>>>, waiting: bool) -> bool {
    let n = m.levels.len() as int;
    &&& m.tree is None
    &&& dirs.len() == n
    &&& n > 0 ==> m.levels[0].path == Some(Seq::<char>::empty())
    &&& forall|j: int| 0 <= j < n - 1 ==> #[trigger] level_follows(m, dirs, j, true)
    &&& forall|j: int| 0 <= j < n - 1 ==> #[trigger] linked(m, dirs, j)
    &&& n > 0 ==> level_follows(m, dirs, n - 1, waiting)
    &&& m.count == if n > 0 {
        scanned(m, dirs, n - 1, waiting).1
    } else {
        0
    }
}

/// The frame of the root of a walk.
pub open spec fn walk_root(m: WalkModel) -> Frame {
    Frame {
        path: Some(Seq::empty()),
        depth: 0,
        max_depth: m.max_depth,
        max_files: m.max_files,
    }
}

/// Two walks that agree on their levels up to `j` have seen the same number
/// of files before level `j`.
pub proof fn lemma_seen_before_agrees(
    a: WalkModel,
    b: WalkModel,
    dirs_a: Seq<Option<Vec<DirEntry>>>,
    dirs_b: Seq<Option<Vec<DirEntry>>>,
    j: int,
)
    requires
        0 <= j <= a.levels.len(),
        j <= b.levels.len(),
        j <= dirs_a.len(),
        j <= dirs_b.len(),
        a.max_depth == b.max_depth,
        a.max_files == b.max_files,
        forall|i: int| 0 <= i < j ==> a.levels[i] == b.levels[i],
        forall|i: int| 0 <= i < j ==> dirs_a[i] == dirs_b[i],
    ensures
        seen_before(a, dirs_a, j) == seen_before(b, dirs_b, j),
    decreases j,
{
    if j > 0 {
        lemma_seen_before_agrees(a, b, dirs_a, dirs_b, j - 1);
        assert(a.levels[j - 1] == b.levels[j - 1]);
        assert(dirs_a[j - 1] == dirs_b[j - 1]);
        assert(frame_at(a, j - 1) == frame_at(b, j - 1));
    }
}

/// The levels below the innermost stay as they are when the innermost is
/// replaced, and so does what the scan made of them.
proof fn lemma_lower_levels_kept(
    m: WalkModel,
    r: WalkModel,
    dirs: Seq<Option<Vec<DirEntry>>>,
)
    requires
        follows(m, dirs, false) || follows(m, dirs, true),
        m.levels.len() > 0,
        r.levels.len() == m.levels.len(),
        r.max_depth == m.max_depth,
        r.max_files == m.max_files,
        forall|i: int| 0 <= i < m.levels.len() - 1 ==> r.levels[i] == m.levels[i],
        r.levels.last().path == m.levels.last().path,
    ensures
        forall|j: int| 0 <= j < r.levels.len() - 1 ==> #[trigger] level_follows(r, dirs, j, true),
        forall|j: int| 0 <= j < r.levels.len() - 2 ==> #[trigger] linked(r, dirs, j),
        r.levels.len() >= 2 ==> linked(r, dirs, r.levels.len() - 2),
        seen_before(r, dirs, r.levels.len() - 1) == seen_before(m, dirs, m.levels.len() - 1),
        frame_at(r, r.levels.len() - 1) == frame_at(m, m.levels.len() - 1),
        r.levels[0].path == Some(Seq::<char>::empty()),
{
    let n = m.levels.len() as int;
    assert forall|j: int| 0 <= j < n - 1 implies #[trigger] level_follows(r, dirs, j, true) by {
        assert(level_follows(m, dirs, j, true));
        lemma_seen_before_agrees(r, m, dirs, dirs, j);
        assert(frame_at(r, j) == frame_at(m, j));
    }
    assert forall|j: int| 0 <= j < n - 1 implies #[trigger] linked(r, dirs, j) by {
        assert(linked(m, dirs, j));
    }
    lemma_seen_before_agrees(r, m, dirs, dirs, n - 1);
}

/// Taking an entry that the scan does not enter keeps the walk on the scan.
proof fn lemma_taken_follows(
    m: WalkModel,
    dirs: Seq<Option<Vec<DirEntry>>>,
    node: Option<NodeModel>,
    count: nat,
)
    requires
        follows(m, dirs, false),
        m.levels.len() > 0,
        m.levels.last().next < m.levels.last().entries.len(),
        m.count < m.max_files,
        scan_entry(
            entries_of(dirs.last())[m.levels.last().next as int],
            frame_at(m, m.levels.len() - 1),
            m.count,
        ) == (node, count),
    ensures
        follows(WalkModel { count, ..m.taken(node) }, dirs, false),
{
    let r = WalkModel { count, ..m.taken(node) };
    let n = m.levels.len() as int;
    lemma_lower_levels_kept(m, r, dirs);
    assert(level_follows(m, dirs, n - 1, false));
    assert(scanned(m, dirs, n - 1, false) == (m.levels.last().nodes, m.count));
}

/// Taking a directory that the scan enters leaves the walk waiting for the
/// listing of that directory.
proof fn lemma_entered_follows(m: WalkModel, dirs: Seq<Option<Vec<DirEntry>>>)
    requires
        follows(m, dirs, false),
        m.levels.len() > 0,
        m.levels.last().next < m.levels.last().entries.len(),
        m.count < m.max_files,
        m.levels.len() - 1 < m.max_depth,
        entries_of(dirs.last())[m.levels.last().next as int].kind is Directory,
        !is_excluded(
            shown_name(entries_of(dirs.last())[m.levels.last().next as int].name.deep_view()),
        ),
    ensures
        follows(m.taken(None), dirs, true),
{
    let r = m.taken(None);
    let n = m.levels.len() as int;
    lemma_lower_levels_kept(m, r, dirs);
    assert(level_follows(m, dirs, n - 1, false));
    assert(scanned(r, dirs, n - 1, true) == scanned(m, dirs, n - 1, false));
}

/// Opening the directory that the walk waits for keeps it on the scan.
proof fn lemma_opened_follows(
    m: WalkModel,
    dirs: Seq<Option<Vec<DirEntry>>>,
    dir: Option<Vec<DirEntry>>,
)
    requires
        follows(m, dirs, true),
        m.levels.len() > 0 ==> entries_of(dirs.last())[m.levels.last().next - 1].kind
            == EntryKind::Directory(dir),
    ensures
        follows(m.opened(held_of(dir)), dirs.push(dir), false),
{
    let r = m.opened(held_of(dir));
    let all = dirs.push(dir);
    let n = m.levels.len() as int;
    assert forall|j: int| 0 <= j < n implies #[trigger] level_follows(r, all, j, true) by {
        assert(level_follows(m, dirs, j, true));
        lemma_seen_before_agrees(r, m, all, dirs, j);
        assert(frame_at(r, j) == frame_at(m, j));
    }
    assert forall|j: int| 0 <= j < n implies #[trigger] linked(r, all, j) by {
        if j < n - 1 {
            assert(linked(m, dirs, j));
        } else {
            assert(level_follows(m, dirs, n - 1, true));
        }
    }
    if n > 0 {
        lemma_seen_before_agrees(r, m, all, dirs, n - 1);
        assert(frame_at(r, n - 1) == frame_at(m, n - 1));
        assert(seen_before(r, all, n) == scanned(m, dirs, n - 1, true).1);
    }
    assert(level_follows(r, all, n, false));
}

/// What the scan makes of the whole directory that is innermost in a walk
/// which has nothing more to take from it.
proof fn lemma_closing(m: WalkModel, dirs: Seq<Option<Vec<DirEntry>>>)
    requires
        follows(m, dirs, false),
        m.levels.len() > 0,
        !(m.levels.last().next < m.levels.last().entries.len() && m.count < m.max_files),
    ensures
        scan_listing(
            dirs.last(),
            frame_at(m, m.levels.len() - 1),
            seen_before(m, dirs, m.levels.len() - 1),
        ) == (sort_nodes(m.levels.last().nodes), m.count),
{
    let n = m.levels.len() as int;
    let top = m.levels.last();
    let frame = frame_at(m, n - 1);
    let start = seen_before(m, dirs, n - 1);
    assert(level_follows(m, dirs, n - 1, false));
    match dirs.last() {
        Some(entries) => {
            assert(entries_of(dirs.last()) == entries@);
            lemma_scan_prefix_saturated_or_full(entries@, top.next, frame, start);
        },
        None => {
            assert(top.next == 0);
            assert(sort_nodes(Seq::<NodeModel>::empty()) =~= Seq::<NodeModel>::empty());
        },
    }
}

/// A prefix that is the whole listing, or that has reached the limit on
/// files, gives what the whole listing gives.
proof fn lemma_scan_prefix_saturated_or_full(
    entries: Seq<DirEntry>,
    k: nat,
    frame: Frame,
    count: nat,
)
    requires
        k <= entries.len(),
        k == entries.len() || scan_prefix(entries, k, frame, count).1 >= frame.max_files,
    ensures
        scan_prefix(entries, entries.len(), frame, count) == scan_prefix(entries, k, frame, count),
{
    if k < entries.len() {
        lemma_scan_prefix_saturated(entries, k, entries.len(), frame, count);
    }
}

/// Closing the innermost directory keeps the walk on the scan; closing the
/// root ends it with the tree of the scan.
proof fn lemma_closed_follows(m: WalkModel, dirs: Seq<Option<Vec<DirEntry>>>)
    requires
        follows(m, dirs, false),
        m.levels.len() > 0,
        !(m.levels.last().next < m.levels.last().entries.len() && m.count < m.max_files),
    ensures
        m.levels.len() == 1 ==> m.closed().tree == Some(
            scan_listing(dirs[0], walk_root(m), 0).0,
        ) && m.closed().levels.len() == 0,
        m.levels.len() > 1 ==> follows(m.closed(), dirs.drop_last(), false),
{
    let n = m.levels.len() as int;
    lemma_closing(m, dirs);
    let sorted = sort_nodes(m.levels.last().nodes);
    if n == 1 {
        assert(frame_at(m, 0) == walk_root(m));
        assert(dirs.last() == dirs[0]);
    } else {
        let r = m.closed();
        let rest = dirs.drop_last();
        let p = n - 2;
        let parent = m.levels[p];
        assert(m.levels.drop_last().last() == parent);
        assert(level_follows(m, dirs, p, true));
        assert(linked(m, dirs, p));
        let e = entries_of(dirs[p])[parent.next - 1];
        assert(parent.entries[parent.next - 1] == listed(e));
        assert(frame_at(m, p).below(e.name.deep_view()) == frame_at(m, n - 1));
        assert(dirs.last() == dirs[n - 1]);
        assert(seen_before(m, dirs, n - 1) == scanned(m, dirs, p, true).1);
        assert(scan_entry(e, frame_at(m, p), scanned(m, dirs, p, true).1) == (
            Some(directory_node(frame_at(m, p), e.name.deep_view(), sorted)),
            m.count,
        ));
        assert forall|j: int| 0 <= j < p implies #[trigger] level_follows(r, rest, j, true) by {
            assert(level_follows(m, dirs, j, true));
            assert(r.levels[j] == m.levels[j]);
            lemma_seen_before_agrees(r, m, rest, dirs, j);
            assert(frame_at(r, j) == frame_at(m, j));
        }
        assert forall|j: int| 0 <= j < p implies #[trigger] linked(r, rest, j) by {
            assert(linked(m, dirs, j));
            assert(r.levels[j] == m.levels[j]);
            assert(r.levels[j + 1].path == m.levels[j + 1].path);
        }
        lemma_seen_before_agrees(r, m, rest, dirs, p);
        assert(frame_at(r, p) == frame_at(m, p));
        assert(scanned(r, rest, p, false) == (parent.nodes.push(
            directory_node(frame_at(m, p), e.name.deep_view(), sorted),
        ), m.count));
        assert(level_follows(r, rest, p, false));
    }
}

/// A walk that runs on the scan of `dirs` runs on until it waits on the
/// scan of the directories that are still open, or ends with the tree that
/// the scan makes of the root.
proof fn lemma_advance_follows(m: WalkModel, dirs: Seq<Option<Vec<DirEntry>>>)
    requires
        follows(m, dirs, false),
        m.levels.len() > 0,
    ensures
        advance(m).1 is Done ==> advance(m).0.tree == Some(scan_listing(dirs[0], walk_root(m), 0).0),
        advance(m).1 is List ==> {
            &&& 0 < advance(m).0.levels.len() <= dirs.len()
            &&& follows(advance(m).0, dirs.take(advance(m).0.levels.len() as int), true)
        },
    decreases remaining(m.levels),
{
    let n = m.levels.len() as int;
    let top = m.levels.last();
    assert(level_follows(m, dirs, n - 1, false));
    if top.next < top.entries.len() && m.count < m.max_files {
        let l = top.entries[top.next as int];
        let e = entries_of(dirs.last())[top.next as int];
        assert(l == listed(e));
        assert(m.frame() == frame_at(m, n - 1));
        let name = shown_name(l.name);
        lemma_remaining_with_top(m.levels, m.taken(None).levels.last());
        if is_excluded(name) {
            lemma_taken_follows(m, dirs, None, m.count);
            lemma_advance_follows(m.taken(None), dirs);
        } else if l.is_dir {
            if m.frame().depth >= m.max_depth {
                let node = placeholder_node(m.frame(), l.name);
                lemma_taken_follows(m, dirs, Some(node), m.count);
                lemma_remaining_with_top(m.levels, m.taken(Some(node)).levels.last());
                lemma_advance_follows(m.taken(Some(node)), dirs);
            } else {
                lemma_entered_follows(m, dirs);
                assert(dirs.take(n) =~= dirs);
            }
        } else if crate::names::skipped_by_extension(l.name, l.extension) {
            lemma_taken_follows(m, dirs, None, m.count);
            lemma_advance_follows(m.taken(None), dirs);
        } else {
            let node = file_node(m.frame(), l.name);
            lemma_taken_follows(m, dirs, Some(node), m.count + 1);
            lemma_remaining_with_top(m.levels, m.taken(Some(node)).levels.last());
            lemma_advance_follows(WalkModel { count: m.count + 1, ..m.taken(Some(node)) }, dirs);
        }
    } else {
        lemma_closed_follows(m, dirs);
        if n > 1 {
            let rest = m.levels.drop_last();
            lemma_remaining_with_top(rest, m.closed().levels.last());
            lemma_advance_follows(m.closed(), dirs.drop_last());
            let after = advance(m.closed()).0;
            assert(dirs.drop_last()[0] == dirs[0]);
            if advance(m).1 is List {
                assert(dirs.drop_last().take(after.levels.len() as int) =~= dirs.take(
                    after.levels.len() as int,
                ));
            }
        }
    }
}

/// A walk that has not begun waits on the scan of nothing.
pub proof fn lemma_new_walk_follows(m: WalkModel)
    requires
        m.levels.len() == 0,
        m.tree is None,
        m.count == 0,
    ensures
        follows(m, Seq::empty(), true),
{
}

/// The walk and the scan agree. Let a walk wait on the scan of the
/// directories `dirs`, open from the root down, and be fed the listing of
/// the directory `dir` that it asked for. Then it either asks for a
/// directory again, and waits on the scan of those that are still open, or
/// it is over, and its tree is the tree that the scan makes of the root.
pub proof fn lemma_fed_follows(
    m: WalkModel,
    dirs: Seq<Option<Vec<DirEntry>>>,
    dir: Option<Vec<DirEntry>>,
)
    requires
        follows(m, dirs, true),
        m.levels.len() > 0 ==> entries_of(dirs.last())[m.levels.last().next - 1].kind
            == EntryKind::Directory(dir),
    ensures
        fed(m, listing_of(dir)).1 is Done ==> fed(m, listing_of(dir)).0.tree == Some(
            scan_listing(dirs.push(dir)[0], walk_root(m), 0).0,
        ),
        fed(m, listing_of(dir)).1 is List ==> {
            &&& 0 < fed(m, listing_of(dir)).0.levels.len() <= dirs.len() + 1
            &&& follows(
                fed(m, listing_of(dir)).0,
                dirs.push(dir).take(fed(m, listing_of(dir)).0.levels.len() as int),
                true,
            )
        },
{
    let held = match listing_of(dir) {
        Some(entries) => entries,
        None => Seq::empty(),
    };
    assert(held =~= held_of(dir));
    lemma_opened_follows(m, dirs, dir);
    lemma_advance_follows(m.opened(held_of(dir)), dirs.push(dir));
    assert(walk_root(m.opened(held_of(dir))) == walk_root(m));
}

} // verus!
