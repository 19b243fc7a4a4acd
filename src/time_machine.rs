//! The marker store's error kinds, and how a failure report of the marker
//! tool maps onto them.
use vstd::prelude::*;

verus! {

/// The failure report of the marker tool carries its status code here.
pub const STATUS_PATTERN: &'static str = "Error \\((.*)\\) while attempting";

/// Entry point for the marker store's operations.
pub struct TimeMachine {}

/// Why a marker operation failed.
#[derive(Debug, Clone, PartialEq)]
pub enum TimeMachineError {
    FileNotFound,
    FileInaccessible,
    Unknown(String),
}

/// The mathematical value of a [`TimeMachineError`].
pub enum TimeMachineErrorView {
    FileNotFound,
    FileInaccessible,
    Unknown(Seq<char>),
}

impl View for TimeMachineError {
    type V = TimeMachineErrorView;

    open spec fn view(&self) -> TimeMachineErrorView {
        match self {
            TimeMachineError::FileNotFound => TimeMachineErrorView::FileNotFound,
            TimeMachineError::FileInaccessible => TimeMachineErrorView::FileInaccessible,
            TimeMachineError::Unknown(d) => TimeMachineErrorView::Unknown(d@),
        }
    }
}

/// The character of decimal digit `d`.
pub open spec fn digit_char(d: nat) -> char {
    if d == 0 {
        '0'
    } else if d == 1 {
        '1'
    } else if d == 2 {
        '2'
    } else if d == 3 {
        '3'
    } else if d == 4 {
        '4'
    } else if d == 5 {
        '5'
    } else if d == 6 {
        '6'
    } else if d == 7 {
        '7'
    } else if d == 8 {
        '8'
    } else {
        '9'
    }
}

/// The decimal digits of `n`, without leading zeros.
pub open spec fn digits_text(n: nat) -> Seq<char>
    decreases n,
{
    if n < 10 {
        seq![digit_char(n)]
    } else {
        digits_text(n / 10).push(digit_char(n % 10))
    }
}

/// `n` written in decimal, with a leading `-` when negative.
pub open spec fn decimal_text(n: int) -> Seq<char> {
    if n < 0 {
        seq!['-'] + digits_text((-n) as nat)
    } else {
        digits_text(n as nat)
    }
}

/// Whether `c` is an ASCII decimal digit.
pub open spec fn is_digit(c: char) -> bool {
    '0' <= c <= '9'
}

/// The value of a run of decimal digits.
pub open spec fn digits_value(s: Seq<char>) -> int
    decreases s.len(),
{
    if s.len() == 0 {
        0
    } else {
        digits_value(s.drop_last()) * 10 + (s.last() as int - '0' as int)
    }
}

/// `s` without its leading sign, if it has one.
pub open spec fn unsigned_part(s: Seq<char>) -> Seq<char> {
    if s.len() > 0 && (s[0] == '-' || s[0] == '+') {
        s.drop_first()
    } else {
        s
    }
}

/// Every character of `d` is a decimal digit.
pub open spec fn all_digits(d: Seq<char>) -> bool {
    forall|i: int| 0 <= i < d.len() ==> is_digit(#[trigger] d[i])
}

/// The value of `s` read as an optional sign and one or more decimal digits,
/// with nothing around them.
pub open spec fn signed_decimal(s: Seq<char>) -> Option<int> {
    let digits = unsigned_part(s);
    if digits.len() > 0 && all_digits(digits) {
        if s[0] == '-' {
            Some(-digits_value(digits))
        } else {
            Some(digits_value(digits))
        }
    } else {
        None
    }
}

/// What reading `s` as an `i64` gives: `None` when it is not a decimal
/// number or does not fit.
pub open spec fn i64_of(s: Seq<char>) -> Option<int> {
    match signed_decimal(s) {
        Some(v) => if i64::MIN <= v <= i64::MAX {
            Some(v)
        } else {
            None
        },
        None => None,
    }
}

/// The character of decimal digit `d`.
fn digit(d: u64) -> (r: &'static str)
    requires
        d < 10,
    ensures
        r@ == seq![digit_char(d as nat)],
{
    proof {
        reveal_strlit("0123456789");
    }
    let all = "0123456789";
    let r = all.substring_char(d as usize, d as usize + 1);
    assert(r@ =~= seq![digit_char(d as nat)]);
    r
}

/// The decimal digits of `m`.
fn digits(m: u64) -> (r: String)
    ensures
        r@ == digits_text(m as nat),
    decreases m,
{
    if m < 10 {
        String::from_str(digit(m))
    } else {
        let mut r = digits(m / 10);
        r.append(digit(m % 10));
        assert(r@ =~= digits_text(m as nat));
        r
    }
}

/// `n` written in decimal.
fn decimal(n: i64) -> (r: String)
    ensures
        r@ == decimal_text(n as int),
{
    if n < 0 {
        let m: u64 = (0i128 - n as i128) as u64;
        let mut r = String::from_str("-");
        r.append(digits(m).as_str());
        proof {
            reveal_strlit("-");
        }
        assert(r@ =~= decimal_text(n as int));
        r
    } else {
        digits(n as u64)
    }
}

/// The value of the digit character `c`.
fn digit_value(c: char) -> (r: u64)
    requires
        is_digit(c),
    ensures
        r as int == c as int - '0' as int,
{
    (c as u32 - '0' as u32) as u64
}

/// A longer run of digits is worth at least as much.
proof fn lemma_digits_grow(s: Seq<char>, i: int, j: int)
    requires
        0 <= i <= j <= s.len(),
        forall|k: int| 0 <= k < s.len() ==> is_digit(#[trigger] s[k]),
    ensures
        0 <= digits_value(s.subrange(0, i)) <= digits_value(s.subrange(0, j)),
    decreases j,
{
    if j > 0 {
        if i < j {
            lemma_digits_grow(s, i, j - 1);
        } else {
            lemma_digits_grow(s, i - 1, j - 1);
        }
        assert(s.subrange(0, j).drop_last() =~= s.subrange(0, j - 1));
        assert(is_digit(s[j - 1]));
    } else {
        assert(s.subrange(0, 0) =~= Seq::<char>::empty());
    }
}

/// `s` read as an optional sign and decimal digits; `None` where it is not
/// such a number or does not fit in an `i64`.
fn parse_i64(s: &str) -> (r: Option<i64>)
    ensures
        match r {
            Some(v) => i64_of(s@) == Some(v as int),
            None => i64_of(s@) is None,
        },
{
    let n = s.unicode_len();
    if n == 0 {
        return None;
    }
    let first = s.get_char(0);
    let negative = first == '-';
    let start: usize = if first == '-' || first == '+' { 1 } else { 0 };
    let ghost ds = if start == 1 { s@.drop_first() } else { s@ };
    assert(ds =~= s@.subrange(start as int, n as int));
    if start == n {
        return None;
    }
    let limit: i128 = 9223372036854775808;
    let mut acc: i128 = 0;
    let mut i: usize = start;
    assert(ds.subrange(0, 0) =~= Seq::<char>::empty());
    while i < n
        invariant
            n == s@.len(),
            start <= i <= n,
            ds == s@.subrange(start as int, n as int),
            n > 0,
            ds == unsigned_part(s@),
            negative == (s@[0] == '-'),
            forall|k: int| 0 <= k < i - start ==> is_digit(#[trigger] ds[k]),
            acc as int == digits_value(ds.subrange(0, i - start)),
            0 <= acc <= limit,
            limit == 9223372036854775808,
        decreases n - i,
    {
        let c = s.get_char(i);
        assert(ds[i - start] == c);
        if !('0' <= c && c <= '9') {
            assert(!is_digit(ds[i - start]));
            assert(!all_digits(ds));
            assert(signed_decimal(s@) is None);
            return None;
        }
        assert(ds.subrange(0, i + 1 - start).drop_last() =~= ds.subrange(0, i - start));
        let next = acc * 10 + digit_value(c) as i128;
        assert(ds.subrange(0, i + 1 - start).last() == c);
        assert(digits_value(ds.subrange(0, i + 1 - start)) == next);
        if next > limit {
            proof {
                if all_digits(ds) {
                    lemma_digits_grow(ds, i + 1 - start, ds.len() as int);
                    assert(ds.subrange(0, ds.len() as int) =~= ds);
                    assert(digits_value(ds) > limit);
                    assert(signed_decimal(s@) is Some);
                    if negative {
                        assert(signed_decimal(s@) == Some(-digits_value(ds)));
                    } else {
                        assert(signed_decimal(s@) == Some(digits_value(ds)));
                    }
                } else {
                    assert(signed_decimal(s@) is None);
                }
            }
            return None;
        }
        acc = next;
        i = i + 1;
    }
    assert(ds.subrange(0, n - start) =~= ds);
    if negative {
        Some((0 - acc) as i64)
    } else if acc == limit {
        None
    } else {
        Some(acc as i64)
    }
}

/// Capture group 1 of the leftmost match of the regular expression `pattern`
/// in `text`; `None` where nothing matches or the pattern is not valid.
pub uninterp spec fn regex_group(pattern: Seq<char>, text: Seq<char>) -> Option<Seq<char>>;

/// Relies on `regex::Regex::new` and `regex::Regex::captures`: the first
/// capture group of the leftmost match.
#[verifier::external_body]
fn first_group(pattern: &str, text: &str) -> (r: Option<String>)
    ensures
        match r {
            Some(g) => regex_group(pattern@, text@) == Some(g@),
            None => regex_group(pattern@, text@) is None,
        },
{
    match regex::Regex::new(pattern) {
        Ok(re) => re.captures(text).and_then(|c| c.get(1)).map(|m| m.as_str().to_string()),
        Err(_) => None,
    }
}

/// The status code read from a captured group: 0 when there is none or it is
/// not a number.
pub open spec fn status_of(group: Option<Seq<char>>) -> int {
    match group {
        Some(g) => match i64_of(g) {
            Some(v) => v,
            None => 0,
        },
        None => 0,
    }
}

/// The error kind that a status code of the marker tool stands for.
pub open spec fn error_of_status(status: int) -> TimeMachineErrorView {
    if status == -43 || status == 100002 {
        TimeMachineErrorView::FileNotFound
    } else if status == -50 || status == -20 {
        TimeMachineErrorView::FileInaccessible
    } else {
        TimeMachineErrorView::Unknown(unknown_status_text(status))
    }
}

/// The description carried by an error of unknown status.
pub open spec fn unknown_status_text(status: int) -> Seq<char> {
    seq!['U', 'n', 'k', 'n', 'o', 'w', 'n', ' ', 'e', 'r', 'r', 'o', 'r', ' ', 'w', 'i', 't', 'h', ' ',
    's', 't', 'a', 't', 'u', 's', ' '] + decimal_text(status)
}

/// The text of an error, as it is shown to the user.
pub open spec fn message_of(e: TimeMachineErrorView) -> Seq<char> {
    match e {
        TimeMachineErrorView::FileNotFound => seq!['F', 'i', 'l', 'e', ' ', 'n', 'o', 't', ' ', 'f', 'o', 'u', 'n', 'd'],
        TimeMachineErrorView::FileInaccessible => seq!['F', 'i', 'l', 'e', ' ', 'i', 'n', 'a', 'c', 'c', 'e', 's', 's', 'i', 'b', 'l', 'e'],
        TimeMachineErrorView::Unknown(d) => seq!['U', 'n', 'k', 'n', 'o', 'w', 'n', ' ', 'e', 'r', 'r', 'o', 'r', ':', ' '] + d,
    }
}

impl TimeMachine {
    /// The status code held in a captured group.
    pub fn status_from_group(group: Option<String>) -> (r: i64)
        ensures
            r as int == status_of(
                match group {
                    Some(g) => Some(g@),
                    None => None,
                },
            ),
    {
        match group {
            Some(g) => match parse_i64(g.as_str()) {
                Some(v) => v,
                None => 0,
            },
            None => 0,
        }
    }

    /// The status code reported in the marker tool's error output.
    pub fn parse_status_code(output: &str) -> (r: i64)
        ensures
            r as int == status_of(regex_group(STATUS_PATTERN@, output@)),
    {
        Self::status_from_group(first_group(STATUS_PATTERN, output))
    }

    /// The error kind that a status code stands for.
    pub fn error_from_status(status: i64) -> (r: TimeMachineError)
        ensures
            r@ == error_of_status(status as int),
    {
        if status == -43 || status == 100002 {
            TimeMachineError::FileNotFound
        } else if status == -50 || status == -20 {
            TimeMachineError::FileInaccessible
        } else {
            let mut d = String::from_str("Unknown error with status ");
            d.append(decimal(status).as_str());
            proof {
                reveal_strlit("Unknown error with status ");
            }
            assert(d@ =~= unknown_status_text(status as int));
            TimeMachineError::Unknown(d)
        }
    }

    /// The error kind that the marker tool's error output reports.
    pub fn parse_error(output: &str) -> (r: TimeMachineError)
        ensures
            r@ == error_of_status(status_of(regex_group(STATUS_PATTERN@, output@))),
    {
        Self::error_from_status(Self::parse_status_code(output))
    }
}

impl TimeMachineError {
    /// A short description of the kind of failure.
    pub fn description(&self) -> (r: &'static str)
        ensures
            r@ == match self@ {
                TimeMachineErrorView::FileNotFound => message_of(self@),
                TimeMachineErrorView::FileInaccessible => message_of(self@),
                TimeMachineErrorView::Unknown(_) => seq!['U', 'n', 'k', 'n', 'o', 'w', 'n', ' ', 'e', 'r', 'r', 'o', 'r'],
            },
    {
        proof {
            reveal_strlit("File not found");
            reveal_strlit("File inaccessible");
            reveal_strlit("Unknown error");
        }
        match self {
            TimeMachineError::FileNotFound => "File not found",
            TimeMachineError::FileInaccessible => "File inaccessible",
            TimeMachineError::Unknown(_) => "Unknown error",
        }
    }

    /// The full text of the error, as it is shown to the user.
    pub fn message(&self) -> (r: String)
        ensures
            r@ == message_of(self@),
    {
        proof {
            reveal_strlit("File not found");
            reveal_strlit("File inaccessible");
            reveal_strlit("Unknown error: ");
        }
        match self {
            TimeMachineError::FileNotFound => String::from_str("File not found"),
            TimeMachineError::FileInaccessible => String::from_str("File inaccessible"),
            TimeMachineError::Unknown(d) => {
                let mut s = String::from_str("Unknown error: ");
                s.append(d.as_str());
                s
            },
        }
    }
}

} // verus!
