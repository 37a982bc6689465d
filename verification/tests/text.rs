use code_sensei::names::{
    binary_extension, binary_extension_text, depth_limit_name, display_name, excluded, extension,
    extension_skipped, join_path, path_text, with_forward_slashes,
};
use code_sensei::text::{
    chars_of, concat2, concat3, decimal_string, starts_with_char, str_eq, str_lt, string_of,
    substring, trim, trim_end_matches, white_space,
};

#[test]
fn characters_and_back() {
    let chars = chars_of("a中😀");
    assert_eq!(chars, vec!['a', '中', '😀']);
    assert_eq!(string_of(&chars), "a中😀");
    assert_eq!(substring(&chars, 1, 3), "中😀");
    assert_eq!(substring(&chars, 2, 2), "");
}

#[test]
fn lexicographic_order_is_that_of_str() {
    let samples = ["", "a", "A", "ab", "abc", "b", "é", "中", "😀", "a\u{0}", "aé", "a中"];
    for a in samples {
        for b in samples {
            assert_eq!(str_lt(a, b), a < b, "{:?} < {:?}", a, b);
            assert_eq!(str_eq(a, b), a == b, "{:?} == {:?}", a, b);
        }
    }
}

#[test]
fn first_character_and_concatenation() {
    assert!(starts_with_char(".git", '.'));
    assert!(!starts_with_char("git.", '.'));
    assert!(!starts_with_char("", '.'));
    assert_eq!(concat2("ab", "cd"), "abcd");
    assert_eq!(concat3("a", "/", "b"), "a/b");
}

#[test]
fn decimal_numerals() {
    assert_eq!(decimal_string(0), "0");
    assert_eq!(decimal_string(7), "7");
    assert_eq!(decimal_string(10), "10");
    assert_eq!(decimal_string(1234567890), "1234567890");
    assert_eq!(decimal_string(u64::MAX), "18446744073709551615");
}

#[test]
fn trimming() {
    assert_eq!(trim_end_matches("http://h///", '/'), "http://h");
    assert_eq!(trim_end_matches("//", '/'), "");
    assert_eq!(trim_end_matches("/a/b", '/'), "/a/b");
    assert_eq!(trim("  a b \t\n"), "a b");
    assert_eq!(trim("\u{3000}x\u{a0}"), "x");
    assert_eq!(trim(" \r\n "), "");
    assert_eq!(trim(""), "");
    assert_eq!(trim("x"), "x");
}

#[test]
fn white_space_is_that_of_char() {
    for code in 0..0x3100u32 {
        if let Some(c) = char::from_u32(code) {
            assert_eq!(white_space(c), c.is_whitespace(), "U+{:04X}", code);
        }
    }
    assert!(!white_space('😀'));
}

#[test]
fn shown_names() {
    assert_eq!(display_name(&Some("x".to_string())), "x");
    assert_eq!(display_name(&None), "unknown");
    assert_eq!(depth_limit_name("deep"), "deep (深度限制)");
}

#[test]
fn excluded_names() {
    for name in [
        "node_modules", ".git", "target", "debug", "release", "build", "dist", ".vscode",
        ".idea", "vendor", "venv", ".venv", "__pycache__", ".next", ".nuxt", "coverage",
        ".hidden", ".", "..", ".gitignore2", ".envrc",
    ] {
        assert!(excluded(name), "{}", name);
    }
    for name in [".gitignore", ".env", "src", "Target", "builds", "a.git", "", "unknown"] {
        assert!(!excluded(name), "{}", name);
    }
}

#[test]
fn extensions() {
    assert_eq!(extension("a.rs"), Some("rs".to_string()));
    assert_eq!(extension("a.tar.gz"), Some("gz".to_string()));
    assert_eq!(extension("a."), Some(String::new()));
    assert_eq!(extension(".bashrc"), None);
    assert_eq!(extension(".a.b"), Some("b".to_string()));
    assert_eq!(extension("Makefile"), None);
    assert_eq!(extension(""), None);
    for name in ["a.rs", "a.tar.gz", "a.", ".bashrc", ".a.b", "Makefile", "x.中"] {
        let expected = std::path::Path::new(name)
            .extension()
            .map(|e| e.to_str().unwrap().to_string());
        assert_eq!(extension(name), expected, "{}", name);
    }
    assert!(binary_extension("lib.so"));
    assert!(binary_extension("x.y.dylib"));
    assert!(!binary_extension("so"));
    assert!(!binary_extension(".so"));
    assert!(!binary_extension("lib.so.1"));
    assert!(!binary_extension("a.SO"));
    for ext in ["dll", "exe", "so", "dylib", "bin", "pdb", "o", "a", "lib"] {
        assert!(binary_extension_text(ext), "{}", ext);
    }
    assert!(!binary_extension_text(""));
    assert!(!binary_extension_text("DLL"));
    assert!(!binary_extension_text("libs"));
    assert!(extension_skipped(&Some("x.o".to_string()), &None));
    assert!(!extension_skipped(&Some("x.c".to_string()), &Some("o".to_string())));
    assert!(extension_skipped(&None, &Some("o".to_string())));
    assert!(!extension_skipped(&None, &Some("c".to_string())));
    assert!(!extension_skipped(&None, &None));
}

#[test]
fn relative_paths() {
    let root = Some(String::new());
    let name = Some("src".to_string());
    assert_eq!(join_path(&root, &name), Some("src".to_string()));
    assert_eq!(
        join_path(&Some("src".to_string()), &Some("a\\b".to_string())),
        Some("src/a/b".to_string())
    );
    assert_eq!(join_path(&None, &name), None);
    assert_eq!(join_path(&root, &None), None);
    assert_eq!(path_text(&None), "");
    assert_eq!(path_text(&Some("a/b".to_string())), "a/b");
    assert_eq!(with_forward_slashes("a\\b/c\\"), "a/b/c/");
}
