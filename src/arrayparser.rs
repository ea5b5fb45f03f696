//! The textual range syntax of array jobs: `N` or `A-B`, ASCII digits only.
use vstd::prelude::*;
use vstd::string::StrSliceExecFns;

use crate::arraydef::{id_run, valid_range, ArrayDef, TaskIdRange};

verus! {

/// Why a range token was refused.
#[derive(Clone, Debug, PartialEq, Eq)]
pub enum ArrayParseError {
    /// The token is not `N` or `A-B` with ASCII decimal numbers that fit in a
    /// `u32`; it carries the whole token.
    ParseError(String),
    /// The token is well formed, but its end lies before its start, or the
    /// range holds more identifiers than a `u32` can count.
    InvalidRange(u32, u32),
}

/// An ASCII decimal digit.
pub open spec fn is_digit(c: char) -> bool {
    '0' <= c && c <= '9'
}

/// A non-empty run of decimal digits.
pub open spec fn is_number(d: Seq<char>) -> bool {
    d.len() > 0 && forall|i: int| 0 <= i < d.len() ==> is_digit(#[trigger] d[i])
}

/// The value of a run of decimal digits.
pub open spec fn digits_value(d: Seq<char>) -> nat
    decreases d.len(),
{
    if d.len() == 0 {
        0
    } else {
        digits_value(d.drop_last()) * 10 + ((d.last() as u32 - '0' as u32) as nat)
    }
}

/// `s` is `A-B`, with the dash at index `k`.
pub open spec fn dash_at(s: Seq<char>, k: int) -> bool {
    0 <= k < s.len() && s[k] == '-' && is_number(s.take(k)) && is_number(s.skip(k + 1))
}

/// The two bounds that `s` writes, before any check of their size or order:
/// `N` stands for `N-N`.
pub open spec fn syntax_bounds(s: Seq<char>) -> Option<(nat, nat)> {
    if is_number(s) {
        Some((digits_value(s), digits_value(s)))
    } else if exists|k: int| dash_at(s, k) {
        let k = choose|k: int| dash_at(s, k);
        Some((digits_value(s.take(k)), digits_value(s.skip(k + 1))))
    } else {
        None
    }
}

/// The bounds of a well-formed token whose numbers both fit in a `u32`.
pub open spec fn parsed_bounds(s: Seq<char>) -> Option<(nat, nat)> {
    match syntax_bounds(s) {
        Some((a, b)) => if a <= u32::MAX && b <= u32::MAX {
            Some((a, b))
        } else {
            None
        },
        None => None,
    }
}

/// The range from `a` to `b` inclusive can be held by a `TaskIdRange`.
pub open spec fn bounds_fit(a: nat, b: nat) -> bool {
    a <= b && valid_range(a as int, b - a + 1)
}

proof fn lemma_dash_unique(s: Seq<char>, k1: int, k2: int)
    requires
        dash_at(s, k1),
        dash_at(s, k2),
    ensures
        k1 == k2,
{
    if k1 < k2 {
        assert(s.take(k2)[k1] == s[k1]);
    } else if k2 < k1 {
        assert(s.take(k1)[k2] == s[k2]);
    }
}

/// A lone number `N` that fits in a `u32` reads as the single identifier
/// `N`.
pub proof fn lemma_single_number(s: Seq<char>)
    requires
        is_number(s),
        digits_value(s) <= u32::MAX,
    ensures
        parsed_bounds(s) == Some((digits_value(s), digits_value(s))),
        bounds_fit(digits_value(s), digits_value(s)),
        id_run(digits_value(s) as int, 1) == seq![digits_value(s) as u32],
{
    assert(id_run(digits_value(s) as int, 1) =~= seq![digits_value(s) as u32]);
}

/// `A-B`, with numbers `A` and `B` that fit in a `u32`, reads as the bounds
/// `A` and `B`. Where `A <= B` (and the range is not all of `0` to
/// `u32::MAX`, whose size a `u32` cannot count) the token names the
/// `B - A + 1` identifiers from `A` to `B`; where `A > B` it is refused.
pub proof fn lemma_dash_pair(x: Seq<char>, y: Seq<char>)
    requires
        is_number(x),
        is_number(y),
        digits_value(x) <= u32::MAX,
        digits_value(y) <= u32::MAX,
    ensures
        ({
            let (a, b) = (digits_value(x), digits_value(y));
            &&& parsed_bounds(x + seq!['-'] + y) == Some((a, b))
            &&& a <= b && b - a + 1 <= u32::MAX ==> bounds_fit(a, b) && id_run(a as int, b - a + 1).len()
                == b - a + 1 && id_run(a as int, b - a + 1)[0] == a && id_run(a as int, b - a + 1).last() == b
            &&& a > b ==> !bounds_fit(a, b)
        }),
{
    let s = x + seq!['-'] + y;
    let k = x.len() as int;
    assert(s.take(k) =~= x);
    assert(s.skip(k + 1) =~= y);
    assert(s[k] == '-');
    assert(dash_at(s, k));
    assert(!is_digit(s[k]));
    let c = choose|c: int| dash_at(s, c);
    lemma_dash_unique(s, c, k);
}

/// The first index at or after `from` that does not hold a digit.
fn digit_run_end(s: &str, from: usize) -> (r: usize)
    requires
        from <= s@.len(),
    ensures
        from <= r <= s@.len(),
        forall|i: int| from <= i < r ==> is_digit(#[trigger] s@[i]),
        r == s@.len() || !is_digit(s@[r as int]),
{
    let n = s.unicode_len();
    let mut i: usize = from;
    while i < n
        invariant
            n == s@.len(),
            from <= i <= n,
            forall|j: int| from <= j < i ==> is_digit(#[trigger] s@[j]),
        decreases n - i,
    {
        let c = s.get_char(i);
        if !('0' <= c && c <= '9') {
            return i;
        }
        i = i + 1;
    }
    i
}

/// The value of the digits of `s` from `from` up to `to`, if it fits in a
/// `u32`.
fn p_uint(s: &str, from: usize, to: usize) -> (r: Option<u32>)
    requires
        from < to <= s@.len(),
        forall|i: int| from <= i < to ==> is_digit(#[trigger] s@[i]),
    ensures
        match r {
            Some(v) => v == digits_value(s@.subrange(from as int, to as int)),
            None => digits_value(s@.subrange(from as int, to as int)) > u32::MAX,
        },
{
    let mut acc: u32 = 0;
    let mut over = false;
    let mut i: usize = from;
    assert(s@.subrange(from as int, from as int).len() == 0);
    while i < to
        invariant
            from <= i <= to <= s@.len(),
            forall|j: int| from <= j < to ==> is_digit(#[trigger] s@[j]),
            over <==> digits_value(s@.subrange(from as int, i as int)) > u32::MAX,
            !over ==> acc == digits_value(s@.subrange(from as int, i as int)),
        decreases to - i,
    {
        let c = s.get_char(i);
        let d: u32 = (c as u32) - ('0' as u32);
        assert(s@.subrange(from as int, i + 1).drop_last() =~= s@.subrange(from as int, i as int));
        if !over {
            let next: u64 = (acc as u64) * 10 + (d as u64);
            if next > u32::MAX as u64 {
                over = true;
            } else {
                acc = next as u32;
            }
        }
        i = i + 1;
    }
    if over {
        None
    } else {
        Some(acc)
    }
}

/// The error for a token that does not follow the syntax.
fn malformed(input: &str) -> (r: ArrayParseError)
    ensures
        r matches ArrayParseError::ParseError(m) && m@ == input@,
{
    ArrayParseError::ParseError(input.to_owned())
}

/// Reads a whole token `N` or `A-B` as a range of task identifiers.
fn p_task_id_range(input: &str) -> (r: Result<TaskIdRange, ArrayParseError>)
    ensures
        match parsed_bounds(input@) {
            None => r matches Err(ArrayParseError::ParseError(m)) && m@ == input@,
            Some((a, b)) => if bounds_fit(a, b) {
                r matches Ok(t) && t@ == id_run(a as int, b - a + 1)
            } else {
                r matches Err(ArrayParseError::InvalidRange(x, y)) && x == a && y == b
            },
        },
{
    let n = input.unicode_len();
    let ghost s = input@;
    let k = digit_run_end(input, 0);
    if k == 0 {
        proof {
            assert forall|k1: int| !dash_at(s, k1) by {
                if dash_at(s, k1) {
                    assert(s.take(k1)[0] == s[0]);
                }
            }
        }
        return Err(malformed(input));
    }
    let (a, b) = if k == n {
        assert(s.subrange(0, k as int) =~= s);
        match p_uint(input, 0, k) {
            Some(v) => (v, v),
            None => return Err(malformed(input)),
        }
    } else {
        let c = input.get_char(k);
        assert forall|k1: int| dash_at(s, k1) implies k1 == k by {
            if k1 < k {
                assert(is_digit(s[k1]));
            } else if k1 > k {
                assert(s.take(k1)[k as int] == s[k as int]);
            }
        }
        if c != '-' {
            return Err(malformed(input));
        }
        let j = digit_run_end(input, k + 1);
        if j == k + 1 || j != n {
            proof {
                if dash_at(s, k as int) {
                    if j < n {
                        assert(s.skip(k + 1)[j - k - 1] == s[j as int]);
                    }
                }
            }
            return Err(malformed(input));
        }
        assert(s.subrange(0, k as int) =~= s.take(k as int));
        assert(s.subrange(k + 1, n as int) =~= s.skip(k + 1));
        assert(dash_at(s, k as int));
        let a = match p_uint(input, 0, k) {
            Some(v) => v,
            None => return Err(malformed(input)),
        };
        let b = match p_uint(input, k + 1, n) {
            Some(v) => v,
            None => return Err(malformed(input)),
        };
        assert(!is_digit(s[k as int]));
        assert(syntax_bounds(s) == Some((a as nat, b as nat)));
        (a, b)
    };
    assert(parsed_bounds(s) == Some((a as nat, b as nat)));
    if b < a || b - a == u32::MAX {
        return Err(ArrayParseError::InvalidRange(a, b));
    }
    Ok(TaskIdRange::new(a, b - a + 1))
}

/// Reads a range token, `N` or `A-B` in ASCII decimal with nothing around
/// it, as an array job: `N` stands for the single identifier `N`, `A-B` for
/// `A, A + 1, ..., B`.
pub fn parse_array_def(input: &str) -> (r: Result<ArrayDef, ArrayParseError>)
    ensures
        match parsed_bounds(input@) {
            None => r matches Err(ArrayParseError::ParseError(m)) && m@ == input@,
            Some((a, b)) => if bounds_fit(a, b) {
                r matches Ok(d) && d@ == id_run(a as int, b - a + 1)
            } else {
                r matches Err(ArrayParseError::InvalidRange(x, y)) && x == a && y == b
            },
        },
{
    match p_task_id_range(input) {
        Ok(range) => Ok(ArrayDef::new(range)),
        Err(e) => Err(e),
    }
}

/// Reads a whole token as one ASCII decimal number that fits in a `u32`.
pub fn parse_uint(input: &str) -> (r: Result<u32, ArrayParseError>)
    ensures
        if is_number(input@) && digits_value(input@) <= u32::MAX {
            r == Ok::<u32, ArrayParseError>(digits_value(input@) as u32)
        } else {
            r matches Err(ArrayParseError::ParseError(m)) && m@ == input@
        },
{
    let n = input.unicode_len();
    let k = digit_run_end(input, 0);
    if k == 0 || k != n {
        return Err(malformed(input));
    }
    assert(input@.subrange(0, k as int) =~= input@);
    match p_uint(input, 0, k) {
        Some(v) => Ok(v),
        None => Err(malformed(input)),
    }
}

} // verus!
