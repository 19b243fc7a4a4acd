//! Predicates on absolute paths written as `/`-separated strings. Paths are
//! compared by whole components; a trailing separator names no component.
use vstd::prelude::*;
use crate::engine::TMBliss;

verus! {

/// The separator between path components.
pub open spec fn sep() -> char {
    '/'
}

/// `p` without its trailing separators; the root `/` stays as it is.
pub open spec fn trim_sep(p: Seq<char>) -> Seq<char>
    decreases p.len(),
{
    if p.len() > 1 && p.last() == sep() {
        trim_sep(p.drop_last())
    } else {
        p
    }
}

/// On paths without trailing separators: `root` names a leading run of whole
/// components of `child`.
pub open spec fn component_prefix(root: Seq<char>, child: Seq<char>) -> bool {
    &&& root.len() <= child.len()
    &&& child.subrange(0, root.len() as int) == root
    &&& (root.len() == child.len() || child[root.len() as int] == sep() || (root.len() > 0
        && root.last() == sep()))
}

/// `root` names a leading run of whole components of `child`
/// (the path-level `starts_with`, not the textual one).
pub open spec fn path_prefix(root: Seq<char>, child: Seq<char>) -> bool {
    component_prefix(trim_sep(root), trim_sep(child))
}

/// `a` and `b` name the same path.
pub open spec fn same_path(a: Seq<char>, b: Seq<char>) -> bool {
    trim_sep(a) == trim_sep(b)
}

/// `child` is `root` itself or lies below it.
pub open spec fn inside(root: Seq<char>, child: Seq<char>) -> bool {
    same_path(root, child) || (path_prefix(root, child) && !path_prefix(child, root))
}

/// On a path without trailing separators: its last component is `name`.
pub open spec fn last_component_is(path: Seq<char>, name: Seq<char>) -> bool {
    path == name || (path.len() > name.len() && path.subrange(
        path.len() - name.len(),
        path.len() as int,
    ) == name && path[path.len() - name.len() - 1] == sep())
}

/// The last component of `path` is exactly `name`.
pub open spec fn ends_with_component(path: Seq<char>, name: Seq<char>) -> bool {
    last_component_is(trim_sep(path), name)
}

/// Whether `glob` matches the whole of `path`: a single `*` stays within
/// one component, `**` crosses separators.
pub uninterp spec fn glob_matches(glob: Seq<char>, path: Seq<char>) -> bool;

/// Relies on `glob_match::glob_match`: the answer depends on the glob and the
/// path alone.
#[verifier::external_body]
pub(crate) fn matches_glob(glob: &str, path: &str) -> (r: bool)
    ensures
        r == glob_matches(glob@, path@),
{
    glob_match::glob_match(glob, path)
}

/// `s@.subrange(start, start + t@.len()) == t@`, compared character by character.
fn equal_at(s: &str, start: usize, t: &str) -> (r: bool)
    requires
        start + t@.len() <= s@.len(),
    ensures
        r == (s@.subrange(start as int, start + t@.len()) == t@),
{
    let n = t.unicode_len();
    let len = s.unicode_len();
    let mut i: usize = 0;
    while i < n
        invariant
            n == t@.len(),
            len == s@.len(),
            start + n <= s@.len(),
            i <= n,
            forall|k: int| 0 <= k < i ==> s@[start + k] == t@[k],
        decreases n - i,
    {
        if s.get_char(start + i) != t.get_char(i) {
            assert(s@.subrange(start as int, start + n)[i as int] != t@[i as int]);
            return false;
        }
        i = i + 1;
    }
    assert(s@.subrange(start as int, start + n) =~= t@);
    true
}

/// `p` without its trailing separators.
pub fn trimmed(p: &str) -> (r: &str)
    ensures
        r@ == trim_sep(p@),
{
    let mut n = p.unicode_len();
    assert(p@.subrange(0, n as int) =~= p@);
    while n > 1 && p.get_char(n - 1) == '/'
        invariant
            n <= p@.len(),
            trim_sep(p@) == trim_sep(p@.subrange(0, n as int)),
        decreases n,
    {
        assert(p@.subrange(0, n as int).drop_last() =~= p@.subrange(0, n - 1));
        n = n - 1;
    }
    p.substring_char(0, n)
}

/// On paths without trailing separators: whether `child` starts with the
/// whole components of `root`.
fn starts_with_components(child: &str, root: &str) -> (r: bool)
    ensures
        r == component_prefix(root@, child@),
{
    let rl = root.unicode_len();
    let cl = child.unicode_len();
    if rl > cl {
        return false;
    }
    if !equal_at(child, 0, root) {
        return false;
    }
    rl == cl || child.get_char(rl) == '/' || (rl > 0 && root.get_char(rl - 1) == '/')
}

/// Whether `child` starts with the whole components of `root`.
pub fn starts_with_path(child: &str, root: &str) -> (r: bool)
    ensures
        r == path_prefix(root@, child@),
{
    starts_with_components(trimmed(child), trimmed(root))
}

/// Whether `a` and `b` name the same path.
pub fn is_same_path(a: &str, b: &str) -> (r: bool)
    ensures
        r == same_path(a@, b@),
{
    equal_at_whole(trimmed(a), trimmed(b))
}

/// Whether the last component of `path` is `name`.
pub fn has_last_component(path: &str, name: &str) -> (r: bool)
    ensures
        r == ends_with_component(path@, name@),
{
    let path = trimmed(path);
    let pl = path.unicode_len();
    let nl = name.unicode_len();
    if pl == nl {
        let r = equal_at(path, 0, name);
        assert(path@.subrange(0, pl as int) =~= path@);
        return r;
    }
    if pl < nl {
        return false;
    }
    equal_at(path, pl - nl, name) && path.get_char(pl - nl - 1) == '/'
}

impl TMBliss {
    /// Path containment by whole components: `child` is `root` or lies below
    /// it; `/foo` does not contain `/foobar`, and `/foo/` is `/foo`.
    pub fn is_inside(root: &str, child: &str) -> (r: bool)
        ensures
            r == inside(root@, child@),
    {
        if is_same_path(root, child) {
            return true;
        }
        starts_with_path(child, root) && !starts_with_path(root, child)
    }
}

/// Whether two strings hold the same characters.
pub fn equal_at_whole(a: &str, b: &str) -> (r: bool)
    ensures
        r == (a@ == b@),
{
    if a.unicode_len() != b.unicode_len() {
        return false;
    }
    let r = equal_at(a, 0, b);
    assert(a@.subrange(0, a@.len() as int) =~= a@);
    r
}

} // verus!
