use code_sensei::scan::{
    build_file_tree, build_file_tree_with_limit, DirEntry, EntryKind, MAX_DEPTH, MAX_FILES,
};
use code_sensei::tree::FileNode;

fn file(name: &str) -> DirEntry {
    DirEntry { name: Some(name.to_string()), extension: None, kind: EntryKind::File }
}

fn dir(name: &str, entries: Vec<DirEntry>) -> DirEntry {
    DirEntry {
        name: Some(name.to_string()),
        extension: None,
        kind: EntryKind::Directory(Some(entries)),
    }
}

fn count_files(nodes: &[FileNode]) -> usize {
    let mut n = 0;
    for node in nodes {
        if node.is_file {
            n += 1;
        }
        if let Some(children) = &node.children {
            n += count_files(children);
        }
    }
    n
}

fn levels(nodes: &[FileNode]) -> usize {
    let mut deepest = 0;
    for node in nodes {
        let below = match &node.children {
            Some(children) => levels(children),
            None => 0,
        };
        if 1 + below > deepest {
            deepest = 1 + below;
        }
    }
    deepest
}

fn names(nodes: &[FileNode]) -> Vec<String> {
    nodes.iter().map(|n| n.name.clone()).collect()
}

#[test]
fn one_file_and_one_directory_with_one_file() {
    let root = Some(vec![file("readme.md"), dir("lib", vec![file("mod.rs")])]);
    let tree = build_file_tree(&root);
    assert_eq!(tree.len(), 2);
    assert_eq!(tree[0].name, "lib");
    assert_eq!(tree[0].path, "lib");
    assert!(!tree[0].is_file);
    let children = tree[0].children.as_ref().unwrap();
    assert_eq!(children.len(), 1);
    assert_eq!(children[0].name, "mod.rs");
    assert_eq!(children[0].path, "lib/mod.rs");
    assert!(children[0].is_file);
    assert_eq!(children[0].children, None);
    assert_eq!(tree[1].name, "readme.md");
    assert_eq!(tree[1].path, "readme.md");
    assert!(tree[1].is_file);
    assert_eq!(tree[1].children, None);
}

#[test]
fn unreadable_root_gives_an_empty_tree() {
    assert_eq!(build_file_tree(&None), Vec::<FileNode>::new());
    assert_eq!(build_file_tree(&Some(vec![])), Vec::<FileNode>::new());
}

#[test]
fn unreadable_subdirectory_has_no_children_and_does_not_stop_the_scan() {
    let locked = DirEntry {
        name: Some("locked".to_string()),
        extension: None,
        kind: EntryKind::Directory(None),
    };
    let tree = build_file_tree(&Some(vec![locked, file("a.txt")]));
    assert_eq!(names(&tree), vec!["locked", "a.txt"]);
    assert_eq!(tree[0].children, Some(vec![]));
}

#[test]
fn directories_come_before_files_and_names_are_sorted() {
    let root = Some(vec![
        file("zeta.txt"),
        dir("src", vec![]),
        file("Alpha.txt"),
        dir("docs", vec![]),
        file("alpha.txt"),
        file("a"),
        file("ab"),
    ]);
    let tree = build_file_tree(&root);
    assert_eq!(names(&tree), vec!["docs", "src", "Alpha.txt", "a", "ab", "alpha.txt", "zeta.txt"]);
}

#[test]
fn names_are_ordered_by_code_point() {
    let root = Some(vec![file("é"), file("z"), file("中"), file("Z")]);
    let tree = build_file_tree(&root);
    assert_eq!(names(&tree), vec!["Z", "z", "é", "中"]);
}

#[test]
fn skipped_and_hidden_entries_are_left_out() {
    let root = Some(vec![
        dir("node_modules", vec![file("x.js")]),
        dir(".git", vec![file("HEAD")]),
        dir("target", vec![]),
        dir("debug", vec![]),
        dir("release", vec![]),
        dir("build", vec![]),
        dir("dist", vec![]),
        dir(".vscode", vec![]),
        dir(".idea", vec![]),
        dir("vendor", vec![]),
        dir("venv", vec![]),
        dir(".venv", vec![]),
        dir("__pycache__", vec![]),
        dir(".next", vec![]),
        dir(".nuxt", vec![]),
        dir("coverage", vec![]),
        file("build"),
        file(".hidden"),
        file(".gitignore"),
        file(".env"),
        file("kept.rs"),
    ]);
    let tree = build_file_tree(&root);
    assert_eq!(names(&tree), vec![".env", ".gitignore", "kept.rs"]);
}

#[test]
fn binary_extensions_are_left_out() {
    let root = Some(vec![
        file("a.dll"),
        file("b.exe"),
        file("c.so"),
        file("d.dylib"),
        file("e.bin"),
        file("f.pdb"),
        file("g.o"),
        file("h.a"),
        file("i.lib"),
        file("j.tar.exe"),
        file("k.EXE"),
        file("exe"),
        file("l.exe.txt"),
        dir("m.dll", vec![]),
    ]);
    let tree = build_file_tree(&root);
    assert_eq!(names(&tree), vec!["m.dll", "exe", "k.EXE", "l.exe.txt"]);
}

#[test]
fn name_that_is_not_unicode_is_shown_as_unknown_without_path() {
    let root = Some(vec![
        DirEntry { name: None, extension: None, kind: EntryKind::File },
        DirEntry {
            name: None,
            extension: None,
            kind: EntryKind::Directory(Some(vec![file("inner.txt")])),
        },
    ]);
    let tree = build_file_tree(&root);
    assert_eq!(tree.len(), 2);
    assert_eq!(tree[0].name, "unknown");
    assert_eq!(tree[0].path, "");
    assert_eq!(tree[0].children.as_ref().unwrap()[0].path, "");
    assert_eq!(tree[1].name, "unknown");
    assert_eq!(tree[1].path, "");
}

#[test]
fn backslashes_in_paths_become_forward_slashes() {
    let root = Some(vec![dir("a\\b", vec![file("c\\d.txt")])]);
    let tree = build_file_tree(&root);
    assert_eq!(tree[0].name, "a\\b");
    assert_eq!(tree[0].path, "a/b");
    let children = tree[0].children.as_ref().unwrap();
    assert_eq!(children[0].path, "a/b/c/d.txt");
}

fn chain(depth: usize) -> DirEntry {
    let mut inner = dir(&format!("d{}", depth), vec![file("leaf.txt")]);
    let mut level = depth;
    while level > 0 {
        level -= 1;
        inner = dir(&format!("d{}", level), vec![inner]);
    }
    inner
}

#[test]
fn depth_limit_puts_a_placeholder_in_place_of_deeper_directories() {
    let tree = build_file_tree(&Some(vec![chain(14)]));
    assert_eq!(levels(&tree), MAX_DEPTH as usize + 1);
    let mut node = &tree[0];
    for depth in 0..10 {
        assert_eq!(node.name, format!("d{}", depth));
        node = &node.children.as_ref().unwrap()[0];
    }
    assert_eq!(node.name, "d10 (深度限制)");
    assert_eq!(node.path, "d0/d1/d2/d3/d4/d5/d6/d7/d8/d9/d10");
    assert!(!node.is_file);
    assert_eq!(node.children, Some(vec![]));
    assert_eq!(count_files(&tree), 0);
}

#[test]
fn files_at_the_depth_limit_are_kept() {
    let tree = build_file_tree(&Some(vec![chain(9)]));
    assert_eq!(levels(&tree), 11);
    assert_eq!(count_files(&tree), 1);
}

#[test]
fn placeholder_of_a_shown_dotfile_directory() {
    let tree = build_file_tree_with_limit(
        &Some(vec![dir(".env", vec![file("x")])]),
        &Some(String::new()),
        0,
        0,
        10,
    );
    assert_eq!(tree[0].name, ".env (深度限制)");
}

#[test]
fn file_limit_is_shared_by_the_whole_scan() {
    let many = |prefix: &str, n: usize| -> Vec<DirEntry> {
        (0..n).map(|i| file(&format!("{}{:04}.txt", prefix, i))).collect()
    };
    let root = Some(vec![dir("a", many("a", 600)), dir("b", many("b", 600)), file("top.txt")]);
    let tree = build_file_tree(&root);
    assert_eq!(count_files(&tree), MAX_FILES);
    assert_eq!(names(&tree), vec!["a", "b"]);
    assert_eq!(tree[0].children.as_ref().unwrap().len(), 600);
    assert_eq!(tree[1].children.as_ref().unwrap().len(), 400);
}

#[test]
fn file_limit_in_one_directory() {
    let entries: Vec<DirEntry> = (0..1500).map(|i| file(&format!("f{:04}", i))).collect();
    let tree = build_file_tree(&Some(entries));
    assert_eq!(tree.len(), 1000);
    assert_eq!(tree[0].name, "f0000");
    assert_eq!(tree[999].name, "f0999");
}

#[test]
fn limits_of_zero() {
    let root = Some(vec![file("a"), dir("d", vec![file("b")])]);
    let none = build_file_tree_with_limit(&root, &Some(String::new()), 0, 10, 0);
    assert!(none.is_empty());
    let flat = build_file_tree_with_limit(&root, &Some(String::new()), 0, 0, 10);
    assert_eq!(names(&flat), vec!["d (深度限制)", "a"]);
}

#[test]
fn scan_below_the_root_writes_paths_from_the_root() {
    let listing = Some(vec![file("x.rs")]);
    let tree = build_file_tree_with_limit(&listing, &Some("src/core".to_string()), 2, 10, 1000);
    assert_eq!(tree[0].path, "src/core/x.rs");
}

#[test]
fn equal_names_keep_their_listing_order() {
    let root = Some(vec![dir("same", vec![file("first")]), dir("same", vec![file("second")])]);
    let tree = build_file_tree(&root);
    assert_eq!(tree[0].children.as_ref().unwrap()[0].name, "first");
    assert_eq!(tree[1].children.as_ref().unwrap()[0].name, "second");
}

#[test]
fn file_whose_name_is_not_unicode_is_judged_by_the_extension_of_its_path() {
    let other = |extension: Option<&str>| DirEntry {
        name: None,
        extension: extension.map(|e| e.to_string()),
        kind: EntryKind::File,
    };
    let root = Some(vec![other(Some("dll")), other(Some("rs")), other(None), other(Some("so"))]);
    let tree = build_file_tree(&root);
    assert_eq!(names(&tree), vec!["unknown", "unknown"]);
    // the extension that is carried is not read for a name that is valid Unicode
    let named = DirEntry {
        name: Some("a.rs".to_string()),
        extension: Some("dll".to_string()),
        kind: EntryKind::File,
    };
    assert_eq!(names(&build_file_tree(&Some(vec![named]))), vec!["a.rs"]);
    // nor for a directory
    let directory = DirEntry {
        name: None,
        extension: Some("dll".to_string()),
        kind: EntryKind::Directory(Some(vec![])),
    };
    assert_eq!(names(&build_file_tree(&Some(vec![directory]))), vec!["unknown"]);
}
