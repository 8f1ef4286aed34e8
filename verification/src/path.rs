//! Paths as plain strings with `/` as the separator.
//!
//! The functions here work on the text of a path only. They never look at the
//! file system and they do not normalise: a path is taken apart and put
//! together exactly as it is written.

use vstd::prelude::*;
use vstd::string::*;

verus! {

/// A path is absolute when it starts with a separator.
pub open spec fn is_absolute(path: Seq<char>) -> bool {
    path.len() > 0 && path[0] == '/'
}

/// `path` appended to `base`.
///
/// An absolute `path` replaces `base`. Otherwise the two are put together
/// with exactly one separator between them, unless `base` is empty or already
/// ends with one.
pub open spec fn join_paths(base: Seq<char>, path: Seq<char>) -> Seq<char> {
    if is_absolute(path) {
        path
    } else if base.len() == 0 || base.last() == '/' {
        base + path
    } else {
        base + seq!['/'] + path
    }
}

/// Length of the directory part of `path`: everything up to and including the
/// last separator, or nothing when `path` has no separator.
pub open spec fn dir_len(path: Seq<char>) -> nat
    decreases path.len(),
{
    if path.len() == 0 {
        0
    } else if path.last() == '/' {
        path.len()
    } else {
        dir_len(path.drop_last())
    }
}

/// The directory part of `path`, with its trailing separator.
pub open spec fn dir_prefix(path: Seq<char>) -> Seq<char> {
    path.take(dir_len(path) as int)
}

/// What follows the last separator of `path`.
pub open spec fn file_name(path: Seq<char>) -> Seq<char> {
    path.skip(dir_len(path) as int)
}

/// A `..` component starts at index `i` of `path`.
pub open spec fn parent_at(path: Seq<char>, i: int) -> bool {
    &&& 0 <= i
    &&& i + 2 <= path.len()
    &&& path[i] == '.'
    &&& path[i + 1] == '.'
    &&& (i == 0 || path[i - 1] == '/')
    &&& (i + 2 == path.len() || path[i + 2] == '/')
}

/// Some component of `path` is `..`.
pub open spec fn has_parent_component(path: Seq<char>) -> bool {
    exists|i: int| parent_at(path, i)
}

/// A relative path that names a file at or below the directory it is joined
/// to: it is not empty, not absolute, does not end with a separator and has
/// no `..` component.
pub open spec fn stays_inside(rel: Seq<char>) -> bool {
    &&& rel.len() > 0
    &&& rel[0] != '/'
    &&& rel.last() != '/'
    &&& !has_parent_component(rel)
}

/// What is left of `path` once the leading `root` is taken away, or `None`
/// when `path` does not lie under `root`.
///
/// `root` must be a textual prefix of `path` that ends at a component
/// boundary. The separator that follows `root` is dropped.
pub open spec fn strip_root(root: Seq<char>, path: Seq<char>) -> Option<Seq<char>> {
    let rest = path.skip(root.len() as int);
    if !root.is_prefix_of(path) {
        None
    } else if root.len() == 0 || root.last() == '/' || rest.len() == 0 {
        Some(rest)
    } else if rest[0] == '/' {
        Some(rest.skip(1))
    } else {
        None
    }
}

/// The path of an entry relative to `root`, when the entry lies under `root`
/// and its relative path stays inside.
pub open spec fn relative_subpath(root: Seq<char>, path: Seq<char>) -> Option<Seq<char>> {
    match strip_root(root, path) {
        Some(rel) => if stays_inside(rel) {
            Some(rel)
        } else {
            None
        },
        None => None,
    }
}

/// `dir_len` marks the last separator: the character before it is a
/// separator, and no separator follows.
pub proof fn lemma_dir_len(path: Seq<char>)
    ensures
        dir_len(path) <= path.len(),
        dir_len(path) > 0 ==> path[dir_len(path) - 1] == '/',
        forall|k: int| dir_len(path) <= k < path.len() ==> path[k] != '/',
    decreases path.len(),
{
    if path.len() > 0 && path.last() != '/' {
        let front = path.drop_last();
        lemma_dir_len(front);
        assert forall|k: int| dir_len(path) <= k < path.len() implies path[k] != '/' by {
            if k < front.len() {
                assert(path[k] == front[k]);
            }
        }
    }
}

/// A path is its directory part followed by its file name.
pub proof fn lemma_dir_prefix_file_name(path: Seq<char>)
    ensures
        dir_prefix(path) + file_name(path) == path,
        !file_name(path).contains('/'),
        dir_prefix(path).len() > 0 ==> dir_prefix(path).last() == '/',
{
    lemma_dir_len(path);
}

/// Joining a relative path that stays inside onto `base` in two steps,
/// directory part first and file name second, gives the same as joining it
/// in one; and taking `base` away again gives the relative path back.
pub proof fn lemma_join_then_strip(base: Seq<char>, rel: Seq<char>)
    requires
        stays_inside(rel),
    ensures
        join_paths(join_paths(base, dir_prefix(rel)), file_name(rel)) == join_paths(base, rel),
        strip_root(base, join_paths(base, rel)) == Some(rel),
        relative_subpath(base, join_paths(base, rel)) == Some(rel),
{
    lemma_dir_len(rel);
    lemma_dir_prefix_file_name(rel);
}

/// A path with a relative path under `root` is `root` joined with that
/// relative path.
pub proof fn lemma_strip_then_join(root: Seq<char>, path: Seq<char>)
    requires
        relative_subpath(root, path) is Some,
    ensures
        join_paths(root, relative_subpath(root, path)->0) == path,
{
}

/// The characters of `s`, in order.
pub fn chars_of(s: &str) -> (chars: Vec<char>)
    ensures
        chars@ == s@,
{
    let mut chars: Vec<char> = Vec::new();
    for c in it: s.chars()
        invariant
            it.seq() == s@,
            chars@ == it.seq().take(it.index()),
    {
        chars.push(c);
    }
    chars
}

/// Whether `path` starts with a separator.
pub fn is_absolute_path(path: &str) -> (absolute: bool)
    ensures
        absolute == is_absolute(path@),
{
    path.unicode_len() > 0 && path.get_char(0) == '/'
}

/// Appends `path` to `base`; an absolute `path` replaces `base`.
pub fn join_path(base: &str, path: &str) -> (joined: String)
    ensures
        joined@ == join_paths(base@, path@),
{
    if is_absolute_path(path) {
        return String::from_str(path);
    }
    let base_len: usize = base.unicode_len();
    let mut joined: String = String::from_str(base);
    if base_len > 0 && base.get_char(base_len - 1) != '/' {
        proof {
            reveal_strlit("/");
            assert("/"@ =~= seq!['/']);
        }
        joined.append("/");
    }
    joined.append(path);
    joined
}

/// Splits `path` after its last separator into directory part and file name.
pub fn split_file_name(path: &str) -> (parts: (String, String))
    ensures
        parts.0@ == dir_prefix(path@),
        parts.1@ == file_name(path@),
{
    let chars: Vec<char> = chars_of(path);
    let mut cut: usize = chars.len();
    assert(path@.take(cut as int) =~= path@);
    while cut > 0 && chars[cut - 1] != '/'
        invariant
            cut <= chars.len(),
            chars@ == path@,
            dir_len(path@) == dir_len(path@.take(cut as int)),
        decreases cut,
    {
        assert(path@.take(cut as int).drop_last() =~= path@.take(cut - 1));
        cut = cut - 1;
    }
    let dir: String = String::from_str(path.substring_char(0, cut));
    let name: String = String::from_str(path.substring_char(cut, chars.len()));
    (dir, name)
}

/// Whether some component of `path` is `..`.
pub fn has_parent_dir_component(path: &str) -> (found: bool)
    ensures
        found == has_parent_component(path@),
{
    let chars: Vec<char> = chars_of(path);
    let len: usize = chars.len();
    let mut i: usize = 0;
    while len >= 2 && i <= len - 2
        invariant
            len == chars.len(),
            chars@ == path@,
            forall|k: int| 0 <= k < i ==> !parent_at(path@, k),
        decreases len - i,
    {
        if chars[i] == '.' && chars[i + 1] == '.' && (i == 0 || chars[i - 1] == '/') && (i + 2
            == len || chars[i + 2] == '/') {
            assert(parent_at(path@, i as int));
            return true;
        }
        i = i + 1;
    }
    false
}

/// Whether `rel` is a relative path that stays inside the directory it is
/// joined to.
pub fn is_inside(rel: &str) -> (inside: bool)
    ensures
        inside == stays_inside(rel@),
{
    let len: usize = rel.unicode_len();
    len > 0 && rel.get_char(0) != '/' && rel.get_char(len - 1) != '/' && !has_parent_dir_component(
        rel,
    )
}

/// Takes the leading `root` away from `path`; `None` when `path` does not lie
/// under `root`.
pub fn strip_root_prefix(root: &str, path: &str) -> (rest: Option<String>)
    ensures
        match strip_root(root@, path@) {
            Some(rel) => rest matches Some(r) && r@ == rel,
            None => rest is None,
        },
{
    let root_chars: Vec<char> = chars_of(root);
    let path_chars: Vec<char> = chars_of(path);
    let root_len: usize = root_chars.len();
    let path_len: usize = path_chars.len();
    if root_len > path_len {
        return None;
    }
    let mut i: usize = 0;
    while i < root_len
        invariant
            i <= root_len <= path_len,
            root_len == root_chars.len(),
            path_len == path_chars.len(),
            root_chars@ == root@,
            path_chars@ == path@,
            forall|k: int| 0 <= k < i ==> root@[k] == path@[k],
        decreases root_len - i,
    {
        if root_chars[i] != path_chars[i] {
            return None;
        }
        i = i + 1;
    }
    assert(root@.is_prefix_of(path@));
    let start: usize = if root_len == 0 || root_chars[root_len - 1] == '/' || root_len == path_len {
        root_len
    } else if path_chars[root_len] == '/' {
        root_len + 1
    } else {
        return None;
    };
    Some(String::from_str(path.substring_char(start, path_len)))
}

/// The path of an entry relative to `root`; `None` when the entry does not
/// lie under `root` or its relative path would not stay inside.
pub fn relative_to(root: &str, path: &str) -> (rel: Option<String>)
    ensures
        match relative_subpath(root@, path@) {
            Some(expected) => rel matches Some(r) && r@ == expected,
            None => rel is None,
        },
{
    match strip_root_prefix(root, path) {
        Some(rest) => {
            if is_inside(rest.as_str()) {
                Some(rest)
            } else {
                None
            }
        },
        None => None,
    }
}

} // verus!
