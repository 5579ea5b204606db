//! Reading positions and line ranges out of command arguments.

use vstd::prelude::*;
use vstd::string::*;

use crate::error::{invalid_args, AppError, AppResult};
use crate::model::is_invalid_args;
use crate::text::owned;

verus! {

/// Whether `c` is a decimal digit.
pub open spec fn is_digit(c: char) -> bool {
    '0' <= c && c <= '9'
}

/// The value of a sequence of decimal digits.
pub open spec fn digits_value(d: Seq<char>) -> nat
    decreases d.len(),
{
    if d.len() == 0 {
        0
    } else {
        digits_value(d.drop_last()) * 10 + (d.last() as nat - '0' as nat) as nat
    }
}

/// The digits of a number: the text without one leading `+`.
pub open spec fn number_digits(s: Seq<char>) -> Seq<char> {
    if s.len() > 0 && s[0] == '+' {
        s.drop_first()
    } else {
        s
    }
}

/// `s` read as an unsigned decimal number that fits a `usize`: an optional
/// `+` and at least one digit, nothing else.
pub open spec fn parsed_usize(s: Seq<char>) -> Option<usize> {
    let d = number_digits(s);
    if d.len() > 0 && (forall|i: int| 0 <= i < d.len() ==> is_digit(#[trigger] d[i]))
        && digits_value(d) <= usize::MAX {
        Some(digits_value(d) as usize)
    } else {
        None
    }
}

/// `s` read as a 1-based line number.
pub open spec fn line_number(s: Seq<char>) -> Option<usize> {
    match parsed_usize(s) {
        Some(v) => if v >= 1 {
            Some(v)
        } else {
            None
        },
        None => None,
    }
}

/// `k` is the index of the first `:` in `s`.
pub open spec fn colon_at(s: Seq<char>, k: int) -> bool {
    &&& 0 <= k < s.len()
    &&& s[k] == ':'
    &&& forall|j: int| 0 <= j < k ==> s[j] != ':'
}

/// The index of the first `:` in `s`, if any.
pub open spec fn first_colon(s: Seq<char>) -> Option<int> {
    if exists|k: int| colon_at(s, k) {
        Some(choose|k: int| colon_at(s, k))
    } else {
        None
    }
}

/// A position `line:col`: exactly one colon, with a number on each side.
pub open spec fn pos_of(s: Seq<char>) -> Option<(usize, usize)> {
    match first_colon(s) {
        None => None,
        Some(k) => {
            let rest = s.skip(k + 1);
            match (parsed_usize(s.take(k)), parsed_usize(rest)) {
                (Some(l), Some(c)) => if first_colon(rest) is None {
                    Some((l, c))
                } else {
                    None
                },
                _ => None,
            }
        },
    }
}

/// Whether `c` has the Unicode `White_Space` property.
pub open spec fn is_white_space(c: char) -> bool {
    ||| '\u{9}' <= c <= '\u{d}'
    ||| c == ' '
    ||| c == '\u{85}'
    ||| c == '\u{a0}'
    ||| c == '\u{1680}'
    ||| '\u{2000}' <= c <= '\u{200a}'
    ||| c == '\u{2028}'
    ||| c == '\u{2029}'
    ||| c == '\u{202f}'
    ||| c == '\u{205f}'
    ||| c == '\u{3000}'
}

/// `s` without its leading whitespace.
pub open spec fn trim_start(s: Seq<char>) -> Seq<char>
    decreases s.len(),
{
    if s.len() > 0 && is_white_space(s[0]) {
        trim_start(s.drop_first())
    } else {
        s
    }
}

/// `s` without its trailing whitespace.
pub open spec fn trim_end(s: Seq<char>) -> Seq<char>
    decreases s.len(),
{
    if s.len() > 0 && is_white_space(s.last()) {
        trim_end(s.drop_last())
    } else {
        s
    }
}

/// `s` with the whitespace at both ends removed.
pub open spec fn trimmed_of(s: Seq<char>) -> Seq<char> {
    trim_end(trim_start(s))
}

/// One bound of a range: absent where it is blank, else a line number.
pub open spec fn bound_of(s: Seq<char>) -> Option<Option<usize>> {
    let t = trimmed_of(s);
    if t.len() == 0 {
        Some(None)
    } else {
        match line_number(t) {
            Some(v) => Some(Some(v)),
            None => None,
        }
    }
}

/// A range `N`, `A:B`, `A:` or `:B` of line numbers, after trimming.
pub open spec fn range_spec_of(spec: Seq<char>) -> Option<(Option<usize>, Option<usize>)> {
    let t = trimmed_of(spec);
    match first_colon(t) {
        None => match line_number(t) {
            Some(v) => Some((Some(v), None)),
            None => None,
        },
        Some(k) => match (bound_of(t.take(k)), bound_of(t.skip(k + 1))) {
            (Some(a), Some(b)) => Some((a, b)),
            _ => None,
        },
    }
}

/// Whether `c` is whitespace.
fn white_space(c: char) -> (r: bool)
    ensures
        r == is_white_space(c),
{
    ('\u{9}' <= c && c <= '\u{d}') || c == ' ' || c == '\u{85}' || c == '\u{a0}' || c
        == '\u{1680}' || ('\u{2000}' <= c && c <= '\u{200a}') || c == '\u{2028}' || c
        == '\u{2029}' || c == '\u{202f}' || c == '\u{205f}' || c == '\u{3000}'
}

/// `s` without whitespace at either end.
pub fn trim(s: &str) -> (r: String)
    ensures
        r@ == trimmed_of(s@),
{
    let n = s.unicode_len();
    let mut i: usize = 0;
    assert(s@.skip(0) =~= s@);
    while i < n && white_space(s.get_char(i))
        invariant
            n == s@.len(),
            i <= n,
            trim_start(s@) == trim_start(s@.skip(i as int)),
        decreases n - i,
    {
        assert(s@.skip(i as int).drop_first() =~= s@.skip(i + 1));
        i += 1;
    }
    assert(trim_start(s@.skip(i as int)) == s@.skip(i as int));
    assert(s@.skip(i as int) =~= s@.subrange(i as int, n as int));
    let mut j: usize = n;
    while j > i && white_space(s.get_char(j - 1))
        invariant
            n == s@.len(),
            i <= j <= n,
            trimmed_of(s@) == trim_end(s@.subrange(i as int, j as int)),
        decreases j,
    {
        assert(s@.subrange(i as int, j as int).drop_last() =~= s@.subrange(i as int, j - 1));
        j -= 1;
    }
    owned(s.substring_char(i, j))
}

/// The characters `[from, to)` of `s`.
fn chars_between(s: &str, from: usize, to: usize) -> (r: String)
    requires
        from <= to <= s@.len(),
    ensures
        r@ == s@.subrange(from as int, to as int),
{
    owned(s.substring_char(from, to))
}

/// The index of the first `:` in `s`.
pub fn find_colon(s: &str) -> (r: Option<usize>)
    ensures
        r == (match first_colon(s@) {
            Some(k) => Some(k as usize),
            None => None,
        }),
{
    let n = s.unicode_len();
    let mut i: usize = 0;
    while i < n
        invariant
            n == s@.len(),
            i <= n,
            forall|j: int| 0 <= j < i ==> s@[j] != ':',
        decreases n - i,
    {
        if s.get_char(i) == ':' {
            assert(colon_at(s@, i as int));
            assert forall|k: int| colon_at(s@, k) implies k == i by {
                if k < i {
                    assert(s@[k] != ':');
                } else if k > i {
                    assert(s@[i as int] != ':');
                }
            }
            return Some(i);
        }
        i += 1;
    }
    assert forall|k: int| !colon_at(s@, k) by {
        if 0 <= k < s@.len() {
            assert(s@[k] != ':');
        }
    }
    None
}

/// `s` read as an unsigned decimal number, as `usize::from_str` reads it.
pub fn parse_usize(s: &str) -> (r: Option<usize>)
    ensures
        r == parsed_usize(s@),
{
    let n = s.unicode_len();
    let mut i: usize = 0;
    if n > 0 && s.get_char(0) == '+' {
        i = 1;
    }
    let start = i;
    let ghost d = number_digits(s@);
    assert(d =~= s@.skip(start as int));
    if i >= n {
        return None;
    }
    let mut v: usize = 0;
    let mut overflow = false;
    while i < n
        invariant
            n == s@.len(),
            start <= i <= n,
            start < n,
            d == s@.skip(start as int),
            d == number_digits(s@),
            forall|j: int| start <= j < i ==> is_digit(#[trigger] s@[j]),
            !overflow ==> v == digits_value(s@.subrange(start as int, i as int)),
            overflow ==> digits_value(s@.subrange(start as int, i as int)) > usize::MAX,
        decreases n - i,
    {
        let c = s.get_char(i);
        if c < '0' || c > '9' {
            assert(d[i - start] == c);
            assert(!(forall|j: int| 0 <= j < d.len() ==> is_digit(#[trigger] d[j])));
            return None;
        }
        let ghost p = s@.subrange(start as int, i as int);
        assert(s@.subrange(start as int, i + 1) =~= p.push(c));
        let dv = (c as u32 - '0' as u32) as usize;
        assert(dv as nat == (c as nat - '0' as nat) as nat);
        let ghost q = s@.subrange(start as int, i + 1);
        assert(q.drop_last() =~= p);
        assert(q.last() == c);
        assert(digits_value(q) == digits_value(p) * 10 + dv);
        if !overflow {
            if v > (usize::MAX - dv) / 10 {
                overflow = true;
                assert(v * 10 + dv > usize::MAX) by (nonlinear_arith)
                    requires
                        v > (usize::MAX - dv) / 10,
                        dv <= 9,
                ;
            } else {
                assert(v * 10 + dv <= usize::MAX) by (nonlinear_arith)
                    requires
                        v <= (usize::MAX - dv) / 10,
                        dv <= 9,
                ;
                v = v * 10 + dv;
            }
        } else {
            assert(digits_value(p) * 10 + dv >= digits_value(p)) by (nonlinear_arith);
        }
        i += 1;
    }
    assert(s@.subrange(start as int, n as int) =~= d);
    if overflow {
        None
    } else {
        Some(v)
    }
}

/// `s` read as a 1-based line number.
pub fn parse_pos_usize(s: &str) -> (r: AppResult<usize>)
    ensures
        r is Ok <==> line_number(s@) is Some,
        r is Ok ==> r->Ok_0 == line_number(s@)->Some_0,
        r is Err ==> is_invalid_args(r),
{
    match parse_usize(s) {
        None => Err(AppError::InvalidArgs(crate::text::join3("invalid number: ", s, ""))),
        Some(v) => if v == 0 {
            Err(invalid_args("line numbers are 1-based (>=1)"))
        } else {
            Ok(v)
        },
    }
}

/// A position written `line:col`.
pub fn parse_pos(s: &str) -> (r: AppResult<(usize, usize)>)
    ensures
        r is Ok <==> pos_of(s@) is Some,
        r is Ok ==> r->Ok_0 == pos_of(s@)->Some_0,
        r is Err ==> is_invalid_args(r),
{
    let n = s.unicode_len();
    let k = match find_colon(s) {
        Some(k) => k,
        None => {
            return match parse_usize(s) {
                None => Err(invalid_args("invalid line number")),
                Some(_) => Err(invalid_args("missing col in <line:col>")),
            };
        },
    };
    let head = chars_between(s, 0, k);
    assert(head@ =~= s@.take(k as int));
    let line = match parse_usize(head.as_str()) {
        Some(v) => v,
        None => return Err(invalid_args("invalid line number")),
    };
    let rest = chars_between(s, k + 1, n);
    assert(rest@ =~= s@.skip(k + 1));
    let col = match parse_usize(rest.as_str()) {
        Some(v) => v,
        None => return Err(invalid_args("invalid column number")),
    };
    if find_colon(rest.as_str()).is_some() {
        return Err(invalid_args("too many ':' in <line:col>"));
    }
    Ok((line, col))
}

/// One bound of a range: blank gives `None`.
fn parse_bound(s: &str) -> (r: AppResult<Option<usize>>)
    ensures
        r is Ok <==> bound_of(s@) is Some,
        r is Ok ==> r->Ok_0 == bound_of(s@)->Some_0,
        r is Err ==> is_invalid_args(r),
{
    let t = trim(s);
    if t.as_str().is_empty() {
        Ok(None)
    } else {
        match parse_pos_usize(t.as_str()) {
            Ok(v) => Ok(Some(v)),
            Err(e) => Err(e),
        }
    }
}

/// A range of lines written `N`, `A:B`, `A:` or `:B`.
pub fn parse_range_spec(spec: &str) -> (r: AppResult<(Option<usize>, Option<usize>)>)
    ensures
        r is Ok <==> range_spec_of(spec@) is Some,
        r is Ok ==> r->Ok_0 == range_spec_of(spec@)->Some_0,
        r is Err ==> is_invalid_args(r),
{
    let t = trim(spec);
    let s = t.as_str();
    match find_colon(s) {
        None => {
            let v = match parse_pos_usize(s) {
                Ok(v) => v,
                Err(e) => return Err(e),
            };
            Ok((Some(v), None))
        },
        Some(k) => {
            let n = s.unicode_len();
            let a = chars_between(s, 0, k);
            let b = chars_between(s, k + 1, n);
            assert(a@ =~= s@.take(k as int));
            assert(b@ =~= s@.skip(k + 1));
            let start = match parse_bound(a.as_str()) {
                Ok(v) => v,
                Err(e) => return Err(e),
            };
            let end = match parse_bound(b.as_str()) {
                Ok(v) => v,
                Err(e) => return Err(e),
            };
            Ok((start, end))
        },
    }
}

} // verus!
