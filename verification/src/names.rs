//! The naming rules of the workspace scan: which entries are left out, what a
//! depth-limit placeholder is called, and how relative paths are written.

use vstd::prelude::*;
use crate::text::{chars_of, concat2, concat3, starts_with_char, str_eq};

verus! {

/// The name shown for an entry whose real name is not valid Unicode.
pub open spec fn shown_name(name: Option<Seq<char>>) -> Seq<char> {
    match name {
        Some(n) => n,
        None => "unknown"@,
    }
}

/// A hidden entry: its name starts with a dot and is neither of the two
/// dotfiles that are always shown.
pub open spec fn is_hidden(name: Seq<char>) -> bool {
    name.len() > 0 && name[0] == '.' && name != ".gitignore"@ && name != ".env"@
}

/// The names of directories that are known to be large or irrelevant:
/// build outputs, dependency caches, editor and version-control metadata.
pub open spec fn is_skipped_name(name: Seq<char>) -> bool {
    ||| name == "node_modules"@
    ||| name == ".git"@
    ||| name == "target"@
    ||| name == "debug"@
    ||| name == "release"@
    ||| name == "build"@
    ||| name == "dist"@
    ||| name == ".vscode"@
    ||| name == ".idea"@
    ||| name == "vendor"@
    ||| name == "venv"@
    ||| name == ".venv"@
    ||| name == "__pycache__"@
    ||| name == ".next"@
    ||| name == ".nuxt"@
    ||| name == "coverage"@
}

/// An entry that the scan passes over whatever its kind.
pub open spec fn is_excluded(name: Seq<char>) -> bool {
    is_hidden(name) || is_skipped_name(name)
}

/// The position of the last dot in `name`, if it holds one.
pub open spec fn last_dot(name: Seq<char>) -> Option<int>
    decreases name.len(),
{
    if name.len() == 0 {
        None
    } else if name.last() == '.' {
        Some(name.len() - 1)
    } else {
        last_dot(name.drop_last())
    }
}

/// The extension of a file name: what follows its last dot, unless the name
/// holds no dot or its only dot is the first character.
pub open spec fn extension_of(name: Seq<char>) -> Option<Seq<char>> {
    match last_dot(name) {
        Some(i) => if i == 0 {
            None
        } else {
            Some(name.skip(i + 1))
        },
        None => None,
    }
}

/// The extensions of binaries and libraries, which the scan leaves out.
pub open spec fn is_binary_extension(ext: Seq<char>) -> bool {
    ||| ext == "dll"@
    ||| ext == "exe"@
    ||| ext == "so"@
    ||| ext == "dylib"@
    ||| ext == "bin"@
    ||| ext == "pdb"@
    ||| ext == "o"@
    ||| ext == "a"@
    ||| ext == "lib"@
}

/// A file that the scan leaves out because of its extension.
pub open spec fn has_binary_extension(name: Seq<char>) -> bool {
    match extension_of(name) {
        Some(ext) => is_binary_extension(ext),
        None => false,
    }
}

/// Whether a file is left out because of its extension: that of its name,
/// or, for a name that is not valid Unicode, the one that was read from its
/// path.
pub open spec fn skipped_by_extension(name: Option<Seq<char>>, path_extension: Option<Seq<char>>) -> bool {
    match name {
        Some(n) => has_binary_extension(n),
        None => match path_extension {
            Some(ext) => is_binary_extension(ext),
            None => false,
        },
    }
}

/// The name of the placeholder that stands for a directory at the depth limit.
pub open spec fn placeholder_name(name: Seq<char>) -> Seq<char> {
    name + " (深度限制)"@
}

/// `text` with every backslash turned into a forward slash.
pub open spec fn forward_slashes(text: Seq<char>) -> Seq<char> {
    text.map_values(|c: char| if c == '\\' { '/' } else { c })
}

/// The path of an entry relative to the scan root, given the relative path of
/// the directory that holds it (empty for the root itself). A path that holds
/// a name which is not valid Unicode cannot be written.
pub open spec fn child_path(parent: Option<Seq<char>>, name: Option<Seq<char>>) -> Option<Seq<char>> {
    match (parent, name) {
        (Some(p), Some(n)) => if p.len() == 0 {
            Some(forward_slashes(n))
        } else {
            Some(p + "/"@ + forward_slashes(n))
        },
        _ => None,
    }
}

/// The text of a relative path: empty where the path cannot be written.
pub open spec fn shown_path(path: Option<Seq<char>>) -> Seq<char> {
    match path {
        Some(p) => p,
        None => Seq::empty(),
    }
}

/// The placeholder of an entry that the scan takes never bears a skipped
/// name, and starts with a dot only where it stands for one of the two
/// dotfiles that are always shown.
pub proof fn lemma_placeholder_name(name: Seq<char>)
    requires
        !is_excluded(name),
    ensures
        !is_skipped_name(placeholder_name(name)),
        is_hidden(placeholder_name(name)) ==> name == ".gitignore"@ || name == ".env"@,
{
    reveal_strlit(" (深度限制)");
    reveal_strlit("node_modules");
    reveal_strlit(".git");
    reveal_strlit("target");
    reveal_strlit("debug");
    reveal_strlit("release");
    reveal_strlit("build");
    reveal_strlit("dist");
    reveal_strlit(".vscode");
    reveal_strlit(".idea");
    reveal_strlit("vendor");
    reveal_strlit("venv");
    reveal_strlit(".venv");
    reveal_strlit("__pycache__");
    reveal_strlit(".next");
    reveal_strlit(".nuxt");
    reveal_strlit("coverage");
    let p = placeholder_name(name);
    assert(p.len() == name.len() + 7);
    assert(p.last() == ')');
    if name.len() > 0 {
        assert(p[0] == name[0]);
    } else {
        assert(p[0] == ' ');
    }
}

/// The name under which an entry is shown.
pub fn display_name(name: &Option<String>) -> (r: String)
    ensures
        r@ == shown_name(name.deep_view()),
{
    match name {
        Some(n) => n.clone(),
        None => String::from_str("unknown"),
    }
}

/// Whether the scan passes over an entry of this name.
pub fn excluded(name: &str) -> (r: bool)
    ensures
        r == is_excluded(name@),
{
    if starts_with_char(name, '.') && !str_eq(name, ".gitignore") && !str_eq(name, ".env") {
        return true;
    }
    str_eq(name, "node_modules") || str_eq(name, ".git") || str_eq(name, "target") || str_eq(
        name,
        "debug",
    ) || str_eq(name, "release") || str_eq(name, "build") || str_eq(name, "dist") || str_eq(
        name,
        ".vscode",
    ) || str_eq(name, ".idea") || str_eq(name, "vendor") || str_eq(name, "venv") || str_eq(
        name,
        ".venv",
    ) || str_eq(name, "__pycache__") || str_eq(name, ".next") || str_eq(name, ".nuxt") || str_eq(
        name,
        "coverage",
    )
}

/// The extension of a file name.
pub fn extension(name: &str) -> (r: Option<String>)
    ensures
        r.deep_view() == extension_of(name@),
{
    let chars = chars_of(name);
    let mut i: usize = chars.len();
    assert(chars@.take(i as int) =~= chars@);
    while i > 0 && chars[i - 1] != '.'
        invariant
            i <= chars.len(),
            last_dot(chars@) == last_dot(chars@.take(i as int)),
        decreases i,
    {
        assert(chars@.take(i as int).drop_last() =~= chars@.take(i - 1));
        i -= 1;
    }
    if i <= 1 {
        assert(i == 0 ==> chars@.take(0).len() == 0);
        return None;
    }
    let mut ext = String::new();
    let mut k: usize = i;
    while k < chars.len()
        invariant
            i <= k <= chars.len(),
            ext@ == chars@.subrange(i as int, k as int),
        decreases chars.len() - k,
    {
        ext.push(chars[k]);
        k += 1;
    }
    assert(chars@.subrange(i as int, chars.len() as int) =~= chars@.skip(i as int));
    Some(ext)
}

/// Whether `ext` is the extension of a binary or a library.
pub fn binary_extension_text(ext: &str) -> (r: bool)
    ensures
        r == is_binary_extension(ext@),
{
    str_eq(ext, "dll") || str_eq(ext, "exe") || str_eq(ext, "so") || str_eq(ext, "dylib") || str_eq(
        ext,
        "bin",
    ) || str_eq(ext, "pdb") || str_eq(ext, "o") || str_eq(ext, "a") || str_eq(ext, "lib")
}

/// Whether a file of this name is left out because of its extension.
pub fn binary_extension(name: &str) -> (r: bool)
    ensures
        r == has_binary_extension(name@),
{
    match extension(name) {
        Some(ext) => binary_extension_text(ext.as_str()),
        None => false,
    }
}

/// Whether a file is left out because of its extension, read from its name
/// or, for a name that is not valid Unicode, from its path.
pub fn extension_skipped(name: &Option<String>, path_extension: &Option<String>) -> (r: bool)
    ensures
        r == skipped_by_extension(name.deep_view(), path_extension.deep_view()),
{
    match name {
        Some(n) => binary_extension(n.as_str()),
        None => match path_extension {
            Some(ext) => binary_extension_text(ext.as_str()),
            None => false,
        },
    }
}

/// The name of the placeholder for a directory called `name`.
pub fn depth_limit_name(name: &str) -> (r: String)
    ensures
        r@ == placeholder_name(name@),
{
    concat2(name, " (深度限制)")
}

/// `text` with forward slashes in place of backslashes.
pub fn with_forward_slashes(text: &str) -> (r: String)
    ensures
        r@ == forward_slashes(text@),
{
    let chars = chars_of(text);
    let mut r = String::new();
    let mut i: usize = 0;
    while i < chars.len()
        invariant
            i <= chars.len(),
            r@ == forward_slashes(chars@.take(i as int)),
        decreases chars.len() - i,
    {
        let c = chars[i];
        r.push(if c == '\\' { '/' } else { c });
        assert(forward_slashes(chars@.take(i + 1)) =~= forward_slashes(chars@.take(i as int)).push(
            if c == '\\' { '/' } else { c },
        ));
        i += 1;
    }
    assert(chars@.take(chars.len() as int) =~= chars@);
    r
}

/// The relative path of an entry called `name` inside the directory whose
/// relative path is `parent`.
pub fn join_path(parent: &Option<String>, name: &Option<String>) -> (r: Option<String>)
    ensures
        r.deep_view() == child_path(parent.deep_view(), name.deep_view()),
{
    match (parent, name) {
        (Some(p), Some(n)) => {
            let tail = with_forward_slashes(n.as_str());
            if p.as_str().is_empty() {
                Some(tail)
            } else {
                Some(concat3(p.as_str(), "/", tail.as_str()))
            }
        },
        _ => None,
    }
}

/// The text of a relative path.
pub fn path_text(path: &Option<String>) -> (r: String)
    ensures
        r@ == shown_path(path.deep_view()),
{
    match path {
        Some(p) => p.clone(),
        None => String::new(),
    }
}

} // verus!
