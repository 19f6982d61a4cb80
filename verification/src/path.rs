//! Paths as text.
//!
//! A path is a string whose segments are separated by `/`. Paths inside a
//! content tree are relative to the tree's root, which is the empty path.

use vstd::prelude::*;

verus! {

/// The separator between the segments of a path.
pub const SEPARATOR: char = '/';

/// A path is absolute when it begins with the separator.
pub open spec fn is_absolute(path: Seq<char>) -> bool {
    path.len() > 0 && path[0] == SEPARATOR
}

/// `rel` resolved against `base`.
///
/// An absolute `rel` stands for itself, and so does any `rel` against the
/// empty base. Otherwise `rel` follows `base`, with one separator between
/// them unless `base` already ends in one.
pub open spec fn joined(base: Seq<char>, rel: Seq<char>) -> Seq<char> {
    if is_absolute(rel) || base.len() == 0 {
        rel
    } else if base.last() == SEPARATOR {
        base + rel
    } else {
        base + seq![SEPARATOR] + rel
    }
}

/// How many separators `path` begins with.
pub open spec fn leading_separators(path: Seq<char>) -> nat
    decreases path.len(),
{
    if path.len() > 0 && path[0] == SEPARATOR {
        1 + leading_separators(path.skip(1))
    } else {
        0
    }
}

/// `root` is `path` itself or one of the directories above it.
pub open spec fn is_under(path: Seq<char>, root: Seq<char>) -> bool {
    &&& root.is_prefix_of(path)
    &&& (root.len() == 0 || root.len() == path.len() || root.last() == SEPARATOR
        || path[root.len() as int] == SEPARATOR)
}

/// What is left of `path` below `root`: `path` without `root` and without the
/// separators that follow it. It is meant for paths under `root`.
pub open spec fn remainder(path: Seq<char>, root: Seq<char>) -> Seq<char> {
    let rest = path.skip(root.len() as int);
    rest.skip(leading_separators(rest) as int)
}

/// `path` made relative to `root`, where `path` lies under `root`.
pub open spec fn relative(path: Seq<char>, root: Seq<char>) -> Option<Seq<char>> {
    if is_under(path, root) {
        Some(remainder(path, root))
    } else {
        None
    }
}

/// The separators that a path begins with are within it, and what follows
/// them does not begin with another.
pub proof fn lemma_leading_separators(path: Seq<char>)
    ensures
        leading_separators(path) <= path.len(),
        forall|i: int| 0 <= i < leading_separators(path) ==> path[i] == SEPARATOR,
        !is_absolute(path.skip(leading_separators(path) as int)),
    decreases path.len(),
{
    if path.len() > 0 && path[0] == SEPARATOR {
        let tail = path.skip(1);
        lemma_leading_separators(tail);
        let k = leading_separators(tail);
        assert(tail.skip(k as int) =~= path.skip(k as int + 1));
        assert forall|i: int| 0 <= i < leading_separators(path) implies path[i] == SEPARATOR by {
            if i > 0 {
                assert(path[i] == tail[i - 1]);
            }
        }
    } else {
        assert(path.skip(0) =~= path);
    }
}

/// A relative path never begins with a separator and never holds the root:
/// the path is the root, then separators only, then the relative path.
pub proof fn lemma_relative_is_suffix(path: Seq<char>, root: Seq<char>)
    requires
        is_under(path, root),
    ensures
        !is_absolute(remainder(path, root)),
        remainder(path, root).len() + root.len() <= path.len(),
        path == root + path.subrange(
            root.len() as int,
            path.len() - remainder(path, root).len(),
        ) + remainder(path, root),
        forall|i: int|
            root.len() <= i < path.len() - remainder(path, root).len() ==> path[i] == SEPARATOR,
{
    let rest = path.skip(root.len() as int);
    lemma_leading_separators(rest);
    let k = leading_separators(rest) as int;
    let rel = remainder(path, root);
    assert(rel.len() == rest.len() - k);
    assert(path =~= root + path.subrange(root.len() as int, path.len() - rel.len()) + rel);
    assert forall|i: int| root.len() <= i < path.len() - rel.len() implies path[i]
        == SEPARATOR by {
        assert(path[i] == rest[i - root.len()]);
    }
}

/// Resolves `rel` against `base`.
pub fn join(base: &str, rel: &str) -> (path: String)
    ensures
        path@ == joined(base@, rel@),
{
    let base_len: usize = base.unicode_len();
    let rel_len: usize = rel.unicode_len();
    if base_len == 0 || (rel_len > 0 && rel.get_char(0) == SEPARATOR) {
        return rel.to_owned();
    }
    let mut path = base.to_owned();
    if base.get_char(base_len - 1) != SEPARATOR {
        proof {
            reveal_strlit("/");
        }
        path.append("/");
        assert("/"@ =~= seq![SEPARATOR]);
    }
    path.append(rel);
    path
}

/// Counts the separators at the start of what follows the first `from`
/// characters of `path`.
fn skip_separators(path: &str, from: usize, len: usize) -> (to: usize)
    requires
        len == path@.len(),
        from <= len,
    ensures
        to == from + leading_separators(path@.skip(from as int)),
        to <= len,
{
    let mut to: usize = from;
    while to < len && path.get_char(to) == SEPARATOR
        invariant
            len == path@.len(),
            from <= to <= len,
            from + leading_separators(path@.skip(from as int)) == to + leading_separators(
                path@.skip(to as int),
            ),
        decreases len - to,
    {
        assert(path@.skip(to as int).skip(1) =~= path@.skip(to as int + 1));
        to += 1;
    }
    to
}

/// Makes `path` relative to `root`: `None` where `path` does not lie under
/// `root`.
pub fn strip_root(path: &str, root: &str) -> (rel: Option<String>)
    ensures
        rel is Some <==> is_under(path@, root@),
        rel matches Some(r) ==> r@ == remainder(path@, root@),
{
    let path_len: usize = path.unicode_len();
    let root_len: usize = root.unicode_len();
    if root_len > path_len {
        return None;
    }
    let head = path.substring_char(0, root_len);
    if head.to_owned() != root.to_owned() {
        assert(!root@.is_prefix_of(path@)) by {
            if root@.is_prefix_of(path@) {
                assert(path@.subrange(0, root_len as int) =~= root@);
            }
        }
        return None;
    }
    assert(root@.is_prefix_of(path@)) by {
        assert(path@.subrange(0, root_len as int) == root@);
    }
    if root_len > 0 && root_len < path_len && root.get_char(root_len - 1) != SEPARATOR
        && path.get_char(root_len) != SEPARATOR {
        return None;
    }
    let start: usize = skip_separators(path, root_len, path_len);
    let rest = path.substring_char(start, path_len);
    proof {
        let tail = path@.skip(root_len as int);
        assert(tail.skip(leading_separators(tail) as int) =~= path@.subrange(
            start as int,
            path_len as int,
        ));
    }
    Some(rest.to_owned())
}

} // verus!
