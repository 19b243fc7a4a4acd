//! Per-directory override files: one glob per line, each turned into an
//! absolute skip-glob scoped to the directory that holds the file.
use vstd::prelude::*;

verus! {

/// Name of the per-directory override file.
pub const OVERRIDE_FILE: &'static str = ".tmbliss";

/// `.tmbliss`
pub open spec fn override_file_name() -> Seq<char> {
    seq!['.', 't', 'm', 'b', 'l', 'i', 's', 's']
}

/// The lines of `s`, split at each `\n`; text after the last `\n` is one more
/// line, empty when `s` ends with `\n`.
pub open spec fn split_lines(s: Seq<char>) -> Seq<Seq<char>>
    decreases s.len(),
{
    if s.len() == 0 {
        seq![Seq::empty()]
    } else if s.last() == '\n' {
        split_lines(s.drop_last()).push(Seq::empty())
    } else {
        let l = split_lines(s.drop_last());
        l.update(l.len() - 1, l.last().push(s.last()))
    }
}

/// A line without its trailing carriage return, if it has one.
pub open spec fn strip_cr(l: Seq<char>) -> Seq<char> {
    if l.len() > 0 && l.last() == '\r' {
        l.drop_last()
    } else {
        l
    }
}

/// Whether `c` counts as blank space in an override file.
pub open spec fn is_blank_char(c: char) -> bool {
    c == ' ' || c == '\t' || c == '\r'
}

/// A line that holds a pattern: neither blank nor a `#` comment.
pub open spec fn is_pattern_line(l: Seq<char>) -> bool {
    &&& exists|i: int| 0 <= i < l.len() && !is_blank_char(#[trigger] l[i])
    &&& l[0] != '#'
}

/// `dir` joined with the relative path `rel`.
pub open spec fn join(dir: Seq<char>, rel: Seq<char>) -> Seq<char> {
    if dir.len() > 0 && dir.last() == '/' {
        dir + rel
    } else {
        dir.push('/') + rel
    }
}

/// Whether `c` has a meaning of its own in a glob.
pub open spec fn is_glob_meta(c: char) -> bool {
    c == '*' || c == '?' || c == '[' || c == ']' || c == '{' || c == '}' || c == '\\'
}

/// `s` as a glob that matches `s` literally: each character with a meaning
/// of its own in a glob is preceded by `\`.
pub open spec fn escape_glob(s: Seq<char>) -> Seq<char>
    decreases s.len(),
{
    if s.len() == 0 {
        s
    } else if is_glob_meta(s.last()) {
        escape_glob(s.drop_last()) + seq!['\\', s.last()]
    } else {
        escape_glob(s.drop_last()).push(s.last())
    }
}

/// The absolute skip-glob for `pattern` declared in directory `dir`: a leading
/// `/` binds it to `dir` itself, otherwise it matches at any depth below `dir`.
/// The directory's own name is matched literally.
pub open spec fn scoped_glob(dir: Seq<char>, pattern: Seq<char>) -> Seq<char> {
    if pattern.len() > 0 && pattern[0] == '/' {
        join(escape_glob(dir), pattern.drop_first())
    } else {
        join(escape_glob(dir), seq!['*', '*', '/'] + pattern)
    }
}

/// The skip-globs that the first `n` of `lines` give in directory `dir`.
pub open spec fn globs_of_lines(dir: Seq<char>, lines: Seq<Seq<char>>, n: int) -> Seq<Seq<char>>
    decreases n,
{
    if n <= 0 {
        Seq::empty()
    } else {
        let before = globs_of_lines(dir, lines, n - 1);
        if is_pattern_line(lines[n - 1]) {
            before.push(scoped_glob(dir, strip_cr(lines[n - 1])))
        } else {
            before
        }
    }
}

/// The skip-globs that an override file with `content` gives in `dir`.
pub open spec fn override_globs_spec(dir: Seq<char>, content: Seq<char>) -> Seq<Seq<char>> {
    let lines = split_lines(content);
    globs_of_lines(dir, lines, lines.len() as int)
}

/// The views of a sequence of strings.
pub open spec fn views(v: Seq<String>) -> Seq<Seq<char>> {
    v.map_values(|s: String| s@)
}

/// Splits `s` into its lines.
pub fn lines_of(s: &str) -> (r: Vec<String>)
    ensures
        views(r@) == split_lines(s@),
{
    let n = s.unicode_len();
    let mut done: Vec<String> = Vec::new();
    let mut start: usize = 0;
    let mut i: usize = 0;
    assert(s@.subrange(0, 0) =~= Seq::<char>::empty());
    assert(views(done@) =~= Seq::<Seq<char>>::empty());
    assert(views(done@).push(s@.subrange(0, 0)) =~= split_lines(s@.subrange(0, 0)));
    while i < n
        invariant
            n == s@.len(),
            start <= i <= n,
            views(done@).push(s@.subrange(start as int, i as int)) == split_lines(
                s@.subrange(0, i as int),
            ),
        decreases n - i,
    {
        let c = s.get_char(i);
        proof {
            let p = s@.subrange(0, i + 1);
            assert(p.drop_last() =~= s@.subrange(0, i as int));
            assert(p.last() == c);
        }
        if c == '\n' {
            let line = s.substring_char(start, i);
            let ghost prev = done@;
            done.push(line.to_string());
            assert(views(done@) =~= views(prev).push(line@));
            proof {
                assert(s@.subrange(i + 1, i + 1) =~= Seq::<char>::empty());
            }
            start = i + 1;
        } else {
            proof {
                assert(s@.subrange(start as int, i + 1) =~= s@.subrange(start as int, i as int).push(c));
                let l = views(done@).push(s@.subrange(start as int, i as int));
                assert(l.update(l.len() - 1, l.last().push(c)) =~= views(done@).push(
                    s@.subrange(start as int, i + 1),
                ));
            }
        }
        i = i + 1;
    }
    let last = s.substring_char(start, n);
    let ghost before = done@;
    done.push(last.to_string());
    assert(views(done@) =~= views(before).push(last@));
    assert(s@.subrange(0, n as int) =~= s@);
    done
}

/// Whether line `l` holds a pattern.
pub fn pattern_line(l: &str) -> (r: bool)
    ensures
        r == is_pattern_line(l@),
{
    let n = l.unicode_len();
    let mut i: usize = 0;
    let mut seen = false;
    while i < n
        invariant
            n == l@.len(),
            i <= n,
            seen == exists|k: int| 0 <= k < i && !is_blank_char(#[trigger] l@[k]),
        decreases n - i,
    {
        let c = l.get_char(i);
        if !(c == ' ' || c == '\t' || c == '\r') {
            seen = true;
        }
        i = i + 1;
    }
    seen && l.get_char(0) != '#'
}

/// `dir` joined with the relative path `rel`.
pub fn join_path(dir: &str, rel: &str) -> (r: String)
    ensures
        r@ == join(dir@, rel@),
{
    let n = dir.unicode_len();
    let mut r = String::from_str(dir);
    if !(n > 0 && dir.get_char(n - 1) == '/') {
        r.append("/");
        proof {
            reveal_strlit("/");
        }
        assert(r@ =~= dir@.push('/'));
    }
    r.append(rel);
    r
}

/// `s` as a glob that matches it literally.
pub fn escaped(s: &str) -> (r: String)
    ensures
        r@ == escape_glob(s@),
{
    let n = s.unicode_len();
    let mut r = String::new();
    let mut i: usize = 0;
    proof {
        reveal_strlit("\\");
    }
    assert(s@.subrange(0, 0) =~= Seq::<char>::empty());
    while i < n
        invariant
            n == s@.len(),
            i <= n,
            r@ == escape_glob(s@.subrange(0, i as int)),
            "\\"@ == seq!['\\'],
        decreases n - i,
    {
        let c = s.get_char(i);
        assert(s@.subrange(0, i + 1).drop_last() =~= s@.subrange(0, i as int));
        if c == '*' || c == '?' || c == '[' || c == ']' || c == '{' || c == '}' || c == '\\' {
            r.append("\\");
        }
        let one = s.substring_char(i, i + 1);
        assert(one@ =~= seq![c]);
        r.append(one);
        assert(r@ =~= escape_glob(s@.subrange(0, i + 1)));
        i = i + 1;
    }
    assert(s@.subrange(0, n as int) =~= s@);
    r
}

/// The absolute skip-glob for `pattern` declared in directory `dir`.
pub fn scope_glob(dir: &str, pattern: &str) -> (r: String)
    ensures
        r@ == scoped_glob(dir@, pattern@),
{
    let dir_text = escaped(dir);
    let dir = dir_text.as_str();
    let n = pattern.unicode_len();
    if n > 0 && pattern.get_char(0) == '/' {
        let rest = pattern.substring_char(1, n);
        assert(rest@ =~= pattern@.drop_first());
        join_path(dir, rest)
    } else {
        let mut rel = String::from_str("**/");
        rel.append(pattern);
        proof {
            reveal_strlit("**/");
        }
        assert(rel@ =~= seq!['*', '*', '/'] + pattern@);
        join_path(dir, rel.as_str())
    }
}

/// A line without its trailing carriage return.
pub fn without_cr(l: &str) -> (r: &str)
    ensures
        r@ == strip_cr(l@),
{
    let n = l.unicode_len();
    if n > 0 && l.get_char(n - 1) == '\r' {
        let r = l.substring_char(0, n - 1);
        assert(r@ =~= l@.drop_last());
        r
    } else {
        l
    }
}

/// The skip-globs that an override file with `content`, held by directory
/// `dir`, adds for `dir` and everything below it.
pub fn override_globs(dir: &str, content: &str) -> (r: Vec<String>)
    ensures
        views(r@) == override_globs_spec(dir@, content@),
{
    let lines = lines_of(content);
    let ghost ls = split_lines(content@);
    let mut out: Vec<String> = Vec::new();
    let mut i: usize = 0;
    assert(views(out@) =~= globs_of_lines(dir@, ls, 0));
    while i < lines.len()
        invariant
            views(lines@) == ls,
            i <= lines@.len(),
            views(out@) == globs_of_lines(dir@, ls, i as int),
        decreases lines.len() - i,
    {
        let l = lines[i].as_str();
        assert(l@ == ls[i as int]);
        if pattern_line(l) {
            let g = scope_glob(dir, without_cr(l));
            let ghost prev = out@;
            out.push(g);
            assert(views(out@) =~= views(prev).push(g@));
        }
        i = i + 1;
    }
    out
}

} // verus!
