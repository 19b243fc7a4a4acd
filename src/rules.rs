//! How the caller's rules and the override-derived globs decide, for one
//! path, whether it is skipped, allowed or a candidate for the marker.
use vstd::prelude::*;
use crate::conf::Conf;
use crate::git::{Git, IGNORE_FILE, ignore_file_name, is_git_dir};
use crate::overrides::{OVERRIDE_FILE, override_file_name};
use crate::overrides::views;
use crate::engine::TMBliss;
use crate::paths::{glob_matches, inside, same_path, is_same_path, has_last_component, ends_with_component, matches_glob};

verus! {

/// Some glob of `globs` matches `p`.
pub open spec fn any_glob(globs: Seq<Seq<char>>, p: Seq<char>) -> bool {
    exists|i: int| 0 <= i < globs.len() && glob_matches(#[trigger] globs[i], p)
}

/// `p` lies in (or is) one of `roots`.
pub open spec fn any_inside(roots: Seq<Seq<char>>, p: Seq<char>) -> bool {
    exists|i: int| 0 <= i < roots.len() && inside(#[trigger] roots[i], p)
}

/// `p` is a file that configures the scan: an override file or an ignore file.
pub open spec fn is_service_file(p: Seq<char>) -> bool {
    ends_with_component(p, override_file_name()) || ends_with_component(p, ignore_file_name())
}

/// A skip rule matches `p`: a metadata directory, a skip-glob of the caller or
/// of an override file (`local`), or a skip-path.
pub open spec fn skip_matched(conf: &Conf, local: Seq<Seq<char>>, p: Seq<char>) -> bool {
    is_git_dir(p) || any_glob(views(conf.skip_glob@), p) || any_glob(local, p) || any_inside(views(conf.skip_path@), p)
}

/// An allowlist rule matches `p`.
pub open spec fn allow_matched(conf: &Conf, p: Seq<char>) -> bool {
    any_inside(views(conf.allowlist_path@), p) || any_glob(views(conf.allowlist_glob@), p)
}

/// The excluder: `p` is neither marked nor descended into.
pub open spec fn excluded(conf: &Conf, local: Seq<Seq<char>>, processed: Set<Seq<char>>, p: Seq<char>) -> bool {
    processed.contains(p) || is_service_file(p) || skip_matched(conf, local, p)
}

/// Some directory strictly between `dir` and `c` is matched by a skip rule.
pub open spec fn skipped_between(conf: &Conf, local: Seq<Seq<char>>, dir: Seq<char>, c: Seq<char>) -> bool {
    exists|k: int|
        dir.len() < k < c.len() && c[k] == '/' && #[trigger] skip_matched(conf, local, c.subrange(0, k))
}

/// An ignored path found under `dir` is handed on to be marked.
pub open spec fn candidate_kept(conf: &Conf, local: Seq<Seq<char>>, dir: Seq<char>, c: Seq<char>) -> bool {
    &&& !skip_matched(conf, local, c)
    &&& !allow_matched(conf, c)
    &&& !is_service_file(c)
    &&& !skipped_between(conf, local, dir, c)
}

/// `a` is a proper ancestor of `b`.
pub open spec fn ancestor_of(a: Seq<char>, b: Seq<char>) -> bool {
    !same_path(a, b) && inside(a, b)
}

/// `raw[i]` survives root-reduction: no member of `raw` is its ancestor, and it
/// does not repeat an earlier member.
pub open spec fn is_root(raw: Seq<String>, i: int) -> bool {
    &&& forall|j: int| 0 <= j < raw.len() ==> !ancestor_of(#[trigger] raw[j]@, raw[i]@)
    &&& forall|j: int| 0 <= j < i ==> #[trigger] raw[j]@ != raw[i]@
}

/// The members of `raw[..n]` that survive root-reduction, in order.
pub open spec fn roots_upto(raw: Seq<String>, n: int) -> Seq<Seq<char>>
    decreases n,
{
    if n <= 0 {
        Seq::empty()
    } else if is_root(raw, n - 1) {
        roots_upto(raw, n - 1).push(raw[n - 1]@)
    } else {
        roots_upto(raw, n - 1)
    }
}

/// Root-reduction of `raw`.
pub open spec fn reduce_roots_spec(raw: Seq<String>) -> Seq<Seq<char>> {
    roots_upto(raw, raw.len() as int)
}

/// The members of `paths[..n]` kept as candidates under `dir`, in order.
pub open spec fn kept_upto(conf: &Conf, local: Seq<Seq<char>>, dir: Seq<char>, paths: Seq<Seq<char>>, n: int) -> Seq<Seq<char>>
    decreases n,
{
    if n <= 0 {
        Seq::empty()
    } else if candidate_kept(conf, local, dir, paths[n - 1]) {
        kept_upto(conf, local, dir, paths, n - 1).push(paths[n - 1])
    } else {
        kept_upto(conf, local, dir, paths, n - 1)
    }
}

/// The candidates that the ignore provider's answer `raw` gives for `dir`:
/// nothing when the lookup failed, else its root-reduction filtered by the rules.
pub open spec fn candidates_spec(conf: &Conf, local: Seq<Seq<char>>, dir: Seq<char>, raw: Option<Seq<String>>) -> Seq<Seq<char>> {
    match raw {
        Some(r) => {
            let roots = reduce_roots_spec(r);
            kept_upto(conf, local, dir, roots, roots.len() as int)
        },
        None => Seq::empty(),
    }
}

/// Whether some glob of `globs` matches `p`.
pub fn any_glob_matches(globs: &Vec<String>, p: &str) -> (r: bool)
    ensures
        r == any_glob(views(globs@), p@),
{
    let mut i: usize = 0;
    while i < globs.len()
        invariant
            i <= globs@.len(),
            forall|k: int| 0 <= k < i ==> !glob_matches(#[trigger] views(globs@)[k], p@),
        decreases globs.len() - i,
    {
        if matches_glob(globs[i].as_str(), p) {
            assert(views(globs@)[i as int] == globs@[i as int]@);
            return true;
        }
        i = i + 1;
    }
    false
}

/// Whether `p` lies in one of `roots`.
pub fn any_root_contains(roots: &Vec<String>, p: &str) -> (r: bool)
    ensures
        r == any_inside(views(roots@), p@),
{
    let mut i: usize = 0;
    while i < roots.len()
        invariant
            i <= roots@.len(),
            forall|k: int| 0 <= k < i ==> !inside(#[trigger] views(roots@)[k], p@),
        decreases roots.len() - i,
    {
        if TMBliss::is_inside(roots[i].as_str(), p) {
            assert(views(roots@)[i as int] == roots@[i as int]@);
            return true;
        }
        i = i + 1;
    }
    false
}

/// Whether `p` is an override file or an ignore file.
pub fn service_file(p: &str) -> (r: bool)
    ensures
        r == is_service_file(p@),
{
    proof {
        reveal_strlit(".tmbliss");
        reveal_strlit(".gitignore");
    }
    assert(OVERRIDE_FILE@ =~= override_file_name());
    assert(IGNORE_FILE@ =~= ignore_file_name());
    has_last_component(p, OVERRIDE_FILE) || has_last_component(p, IGNORE_FILE)
}

/// Whether a skip rule matches `p`.
pub fn skip_rule_matches(conf: &Conf, local: &Vec<String>, p: &str) -> (r: bool)
    ensures
        r == skip_matched(conf, views(local@), p@),
{
    Git::is_git(p) || any_glob_matches(&conf.skip_glob, p) || any_glob_matches(local, p)
        || any_root_contains(&conf.skip_path, p)
}

/// Whether an allowlist rule matches `p`.
pub fn allow_rule_matches(conf: &Conf, p: &str) -> (r: bool)
    ensures
        r == allow_matched(conf, p@),
{
    any_root_contains(&conf.allowlist_path, p) || any_glob_matches(&conf.allowlist_glob, p)
}

/// Whether a directory strictly between `dir` and `c` is matched by a skip rule.
pub fn skip_rule_between(conf: &Conf, local: &Vec<String>, dir: &str, c: &str) -> (r: bool)
    ensures
        r == skipped_between(conf, views(local@), dir@, c@),
{
    let n = c.unicode_len();
    let d = dir.unicode_len();
    if d >= n {
        return false;
    }
    let mut k: usize = d + 1;
    while k < n
        invariant
            n == c@.len(),
            dir@.len() < k,
            forall|j: int|
                dir@.len() < j < k && j < n && c@[j] == '/' ==> !#[trigger] skip_matched(
                    conf,
                    views(local@),
                    c@.subrange(0, j),
                ),
        decreases n - k,
    {
        if c.get_char(k) == '/' {
            if skip_rule_matches(conf, local, c.substring_char(0, k)) {
                return true;
            }
        }
        k = k + 1;
    }
    false
}

/// Whether an ignored path `c` found under `dir` is handed on to be marked.
pub fn keep_candidate(conf: &Conf, local: &Vec<String>, dir: &str, c: &str) -> (r: bool)
    ensures
        r == candidate_kept(conf, views(local@), dir@, c@),
{
    !skip_rule_matches(conf, local, c) && !allow_rule_matches(conf, c) && !service_file(c)
        && !skip_rule_between(conf, local, dir, c)
}

/// Root-reduction: the members of `raw` that have no ancestor in `raw`,
/// each once, in their order.
pub fn reduce_roots(raw: &Vec<String>) -> (r: Vec<String>)
    ensures
        views(r@) == reduce_roots_spec(raw@),
{
    let mut out: Vec<String> = Vec::new();
    let mut i: usize = 0;
    assert(views(out@) =~= roots_upto(raw@, 0));
    while i < raw.len()
        invariant
            i <= raw@.len(),
            views(out@) == roots_upto(raw@, i as int),
        decreases raw.len() - i,
    {
        let mut keep = true;
        let mut j: usize = 0;
        while j < raw.len()
            invariant
                i < raw@.len(),
                j <= raw@.len(),
                keep == ((forall|k: int| 0 <= k < j ==> !ancestor_of(#[trigger] raw@[k]@, raw@[i as int]@))
                    && (forall|k: int| 0 <= k < j && k < i ==> #[trigger] raw@[k]@ != raw@[i as int]@)),
            decreases raw.len() - j,
        {
            let same = is_same_path(raw[j].as_str(), raw[i].as_str());
            if !same && TMBliss::is_inside(raw[j].as_str(), raw[i].as_str()) {
                keep = false;
            }
            if j < i && crate::paths::equal_at_whole(raw[j].as_str(), raw[i].as_str()) {
                keep = false;
            }
            j = j + 1;
        }
        if keep {
            let ghost prev = out@;
            out.push(raw[i].clone());
            assert(views(out@) =~= views(prev).push(raw@[i as int]@));
        }
        i = i + 1;
    }
    out
}

impl TMBliss {
    /// The candidates for the marker that the ignore provider's answer `raw`
    /// gives for directory `dir`: an empty list when the lookup failed, else its
    /// root-reduction without the paths that a rule keeps unmarked.
    pub fn get_git_excludes(conf: &Conf, local: &Vec<String>, dir: &str, raw: &Option<Vec<String>>) -> (r: Vec<String>)
        ensures
            views(r@) == candidates_spec(
                conf,
                views(local@),
                dir@,
                match raw {
                    Some(v) => Some(v@),
                    None => None,
                },
            ),
    {
        match raw {
            None => {
                let r: Vec<String> = Vec::new();
                assert(views(r@) =~= Seq::<Seq<char>>::empty());
                r
            },
            Some(v) => {
                let roots = reduce_roots(v);
                let ghost rs = reduce_roots_spec(v@);
                let mut out: Vec<String> = Vec::new();
                let mut i: usize = 0;
                assert(views(out@) =~= kept_upto(conf, views(local@), dir@, rs, 0));
                while i < roots.len()
                    invariant
                        views(roots@) == rs,
                        i <= roots@.len(),
                        views(out@) == kept_upto(conf, views(local@), dir@, rs, i as int),
                    decreases roots.len() - i,
                {
                    assert(roots@[i as int]@ == rs[i as int]);
                    if keep_candidate(conf, local, dir, roots[i].as_str()) {
                        let ghost prev = out@;
                        out.push(roots[i].clone());
                        assert(views(out@) =~= views(prev).push(rs[i as int]));
                    }
                    i = i + 1;
                }
                out
            },
        }
    }
}

} // verus!
