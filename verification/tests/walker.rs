use code_sensei::scan::{build_file_tree_with_limit, DirEntry, EntryKind};
use code_sensei::tree::FileNode;
use code_sensei::walker::{ListedEntry, Request, Walker};

fn file(name: &str) -> DirEntry {
    DirEntry { name: Some(name.to_string()), extension: None, kind: EntryKind::File }
}

fn dir(name: &str, entries: Vec<DirEntry>) -> DirEntry {
    DirEntry {
        name: Some(name.to_string()),
        extension: None,
        kind: EntryKind::Directory(Some(entries)),
    }
}

fn listed(entries: &[DirEntry]) -> Vec<ListedEntry> {
    entries
        .iter()
        .map(|e| ListedEntry {
            name: e.name.clone(),
            extension: e.extension.clone(),
            is_dir: matches!(e.kind, EntryKind::Directory(_)),
        })
        .collect()
}

/// Drives a walker over a tree held in memory, answering each request from
/// the tree, and counts the listings that were asked for.
fn walk(root: &Option<Vec<DirEntry>>, max_depth: u32, max_files: usize) -> (Vec<FileNode>, usize) {
    let mut walker = Walker::new(max_depth, max_files);
    let mut open: Vec<&Option<Vec<DirEntry>>> = vec![root];
    let mut asked = 1;
    let mut request = walker.feed(root.as_ref().map(|e| listed(e)));
    loop {
        match request {
            Request::Done => break,
            Request::List { level, index } => {
                open.truncate(level + 1);
                let entries = open[level].as_ref().unwrap();
                let inner = match &entries[index].kind {
                    EntryKind::Directory(inner) => inner,
                    EntryKind::File => panic!("asked to list a file"),
                };
                open.push(inner);
                asked += 1;
                request = walker.feed(inner.as_ref().map(|e| listed(e)));
            }
        }
    }
    assert!(walker.is_done());
    (walker.into_tree().unwrap(), asked)
}

fn sample() -> Option<Vec<DirEntry>> {
    Some(vec![
        file("z.txt"),
        dir("src", vec![file("main.rs"), dir("util", vec![file("b.rs"), file("a.rs")]), file("x.o")]),
        dir("node_modules", vec![dir("dep", vec![file("index.js")])]),
        DirEntry {
        name: Some("locked".to_string()),
        extension: None,
        kind: EntryKind::Directory(None),
    },
        file(".gitignore"),
        file(".secret"),
        dir("docs", vec![]),
    ])
}

#[test]
fn walker_builds_the_tree_of_the_recursive_scan() {
    let root = sample();
    let (tree, asked) = walk(&root, 10, 1000);
    let expected = build_file_tree_with_limit(&root, &Some(String::new()), 0, 10, 1000);
    assert_eq!(tree, expected);
    // root, src, src/util, locked, docs: skipped directories are never listed
    assert_eq!(asked, 5);
    assert_eq!(tree[0].name, "docs");
    assert_eq!(tree[2].children.as_ref().unwrap()[0].path, "src/util");
}

#[test]
fn walker_agrees_with_the_recursive_scan_under_tight_limits() {
    let root = sample();
    for max_depth in 0..4 {
        for max_files in 0..6 {
            let (tree, _) = walk(&root, max_depth, max_files);
            let expected =
                build_file_tree_with_limit(&root, &Some(String::new()), 0, max_depth, max_files);
            assert_eq!(tree, expected, "depth {} files {}", max_depth, max_files);
        }
    }
}

#[test]
fn walker_does_not_list_below_the_depth_limit() {
    let root = Some(vec![dir("a", vec![dir("b", vec![dir("c", vec![file("f")])])])]);
    let (tree, asked) = walk(&root, 1, 1000);
    assert_eq!(asked, 2);
    let a = &tree[0];
    let b = &a.children.as_ref().unwrap()[0];
    assert_eq!(b.name, "b (深度限制)");
    assert_eq!(b.children, Some(vec![]));
}

#[test]
fn walker_stops_listing_once_the_file_limit_is_reached() {
    let root = Some(vec![
        dir("a", vec![file("1"), file("2"), file("3")]),
        dir("b", vec![file("4")]),
        dir("c", vec![file("5")]),
    ]);
    let (tree, asked) = walk(&root, 10, 3);
    assert_eq!(asked, 2);
    assert_eq!(tree.len(), 1);
    assert_eq!(tree[0].children.as_ref().unwrap().len(), 3);
}

#[test]
fn walker_with_unreadable_root_is_done_at_once() {
    let mut walker = Walker::new(10, 1000);
    assert!(!walker.is_done());
    assert_eq!(walker.feed(None), Request::Done);
    assert!(walker.is_done());
    assert_eq!(walker.feed(Some(vec![])), Request::Done);
    assert_eq!(walker.into_tree(), Some(vec![]));
}

#[test]
fn walker_that_has_not_finished_has_no_tree() {
    let mut walker = Walker::new(10, 1000);
    let request = walker.feed(Some(vec![ListedEntry { name: Some("d".to_string()), extension: None, is_dir: true }]));
    assert_eq!(request, Request::List { level: 0, index: 0 });
    assert!(!walker.is_done());
    assert_eq!(walker.into_tree(), None);
}

#[test]
fn workspace_walker_has_the_limits_of_the_workspace_scan() {
    let entries: Vec<ListedEntry> = (0..1200)
        .map(|i| ListedEntry { name: Some(format!("f{:04}", i)), extension: None, is_dir: false })
        .collect();
    let mut walker = Walker::workspace();
    assert_eq!(walker.feed(Some(entries)), Request::Done);
    assert_eq!(walker.into_tree().unwrap().len(), 1000);
}

#[test]
fn walker_judges_a_name_that_is_not_unicode_by_the_extension_of_its_path() {
    let root = Some(vec![
        DirEntry { name: None, extension: Some("exe".to_string()), kind: EntryKind::File },
        DirEntry { name: None, extension: Some("txt".to_string()), kind: EntryKind::File },
        DirEntry { name: None, extension: None, kind: EntryKind::File },
    ]);
    let (tree, _) = walk(&root, 10, 1000);
    assert_eq!(tree.len(), 2);
    assert_eq!(tree, build_file_tree_with_limit(&root, &Some(String::new()), 0, 10, 1000));
}
