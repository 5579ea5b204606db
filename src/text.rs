//! Byte-addressed editing of UTF-8 strings.
//!
//! A line of the buffer is a `String`; its model is the sequence of its UTF-8
//! bytes. Offsets into a line count bytes, and every cut must fall on a
//! character boundary.

use vstd::prelude::*;
use vstd::string::*;
use vstd::utf8::*;

verus! {

broadcast use vstd::utf8::group_utf8_lib;

/// The newline byte.
pub const NEWLINE: u8 = 10;

/// The UTF-8 bytes of a character sequence.
pub open spec fn bytes_of(s: Seq<char>) -> Seq<u8> {
    encode_utf8(s)
}

/// Whether a byte sequence holds a newline.
pub open spec fn has_newline(b: Seq<u8>) -> bool {
    b.contains(NEWLINE)
}

/// `b` with `t` put in at byte offset `off`.
pub open spec fn spliced(b: Seq<u8>, off: int, t: Seq<u8>) -> Seq<u8> {
    b.take(off) + t + b.skip(off)
}

/// `b` without the bytes in `[start, end)`.
pub open spec fn cut(b: Seq<u8>, start: int, end: int) -> Seq<u8> {
    b.take(start) + b.skip(end)
}

/// The decimal digits of `n`, most significant first.
pub open spec fn decimal_digits(n: nat) -> Seq<char>
    decreases n,
{
    let d = seq!['0', '1', '2', '3', '4', '5', '6', '7', '8', '9'][(n % 10) as int];
    if n < 10 {
        seq![d]
    } else {
        decimal_digits(n / 10).push(d)
    }
}

/// Encoding distributes over concatenation.
pub proof fn lemma_encode_concat(a: Seq<char>, b: Seq<char>)
    ensures
        encode_utf8(a + b) == encode_utf8(a) + encode_utf8(b),
    decreases a.len(),
{
    if a.len() == 0 {
        assert(a + b =~= b);
        assert(encode_utf8(a) + encode_utf8(b) =~= encode_utf8(b));
    } else {
        assert((a + b).drop_first() =~= a.drop_first() + b);
        lemma_encode_concat(a.drop_first(), b);
        assert(encode_utf8(a + b) =~= encode_utf8(a) + encode_utf8(b));
    }
}

/// Where two valid encodings meet there is a character boundary.
pub proof fn lemma_boundary_at_join(x: Seq<u8>, y: Seq<u8>)
    requires
        valid_utf8(x),
        valid_utf8(y),
    ensures
        valid_utf8(x + y),
        is_char_boundary(x + y, x.len() as int),
{
    valid_utf8_concat(x, y);
    if y.len() == 0 {
        assert(x + y =~= x);
        is_char_boundary_start_end_of_seq(x);
    } else {
        assert((x + y)[x.len() as int] == y[0]);
        assert(valid_first_scalar(y));
        is_char_boundary_iff_not_is_continuation_byte(x + y, x.len() as int);
    }
}

/// A boundary of `b` before `end` is a boundary of `b`'s first `end` bytes.
pub proof fn lemma_boundary_in_prefix(b: Seq<u8>, end: int, i: int)
    requires
        valid_utf8(b),
        is_char_boundary(b, end),
        is_char_boundary(b, i),
        0 <= i <= end,
    ensures
        valid_utf8(b.take(end)),
        is_char_boundary(b.take(end), i),
{
    assert(end <= b.len());
    valid_utf8_split(b, end);
    assert(b.take(end) =~= b.subrange(0, end));
    let p = b.take(end);
    if i == end {
        is_char_boundary_start_end_of_seq(p);
    } else {
        is_char_boundary_iff_not_is_continuation_byte(p, i);
        is_char_boundary_iff_not_is_continuation_byte(b, i);
    }
}

/// Splicing lines without newlines gives a line without newlines.
pub proof fn lemma_no_newline_spliced(b: Seq<u8>, off: int, t: Seq<u8>)
    requires
        !has_newline(b),
        !has_newline(t),
        0 <= off <= b.len(),
    ensures
        !has_newline(spliced(b, off, t)),
{
    let r = spliced(b, off, t);
    assert forall|j: int| 0 <= j < r.len() implies r[j] != NEWLINE by {
        if j < off {
            assert(r[j] == b[j]);
        } else if j < off + t.len() {
            assert(r[j] == t[j - off]);
        } else {
            assert(r[j] == b[j - t.len()]);
        }
    }
}

/// Cutting a range out of a line without newlines leaves none.
pub proof fn lemma_no_newline_cut(b: Seq<u8>, start: int, end: int)
    requires
        !has_newline(b),
        0 <= start <= end <= b.len(),
    ensures
        !has_newline(cut(b, start, end)),
{
    let r = cut(b, start, end);
    assert forall|j: int| 0 <= j < r.len() implies r[j] != NEWLINE by {
        if j < start {
            assert(r[j] == b[j]);
        } else {
            assert(r[j] == b[j + end - start]);
        }
    }
}

/// A piece of a line without newlines has none.
pub proof fn lemma_no_newline_subrange(b: Seq<u8>, start: int, end: int)
    requires
        !has_newline(b),
        0 <= start <= end <= b.len(),
    ensures
        !has_newline(b.subrange(start, end)),
{
    let s = b.subrange(start, end);
    assert forall|j: int| 0 <= j < s.len() implies s[j] != NEWLINE by {
        assert(s[j] == b[start + j]);
    }
}

/// The decimal digit `d`.
fn digit(d: usize) -> (r: &'static str)
    requires
        d < 10,
    ensures
        r@ == seq![seq!['0', '1', '2', '3', '4', '5', '6', '7', '8', '9'][d as int]],
{
    proof {
        reveal_strlit("0");
        reveal_strlit("1");
        reveal_strlit("2");
        reveal_strlit("3");
        reveal_strlit("4");
        reveal_strlit("5");
        reveal_strlit("6");
        reveal_strlit("7");
        reveal_strlit("8");
        reveal_strlit("9");
    }
    let r = if d == 0 {
        "0"
    } else if d == 1 {
        "1"
    } else if d == 2 {
        "2"
    } else if d == 3 {
        "3"
    } else if d == 4 {
        "4"
    } else if d == 5 {
        "5"
    } else if d == 6 {
        "6"
    } else if d == 7 {
        "7"
    } else if d == 8 {
        "8"
    } else {
        "9"
    };
    assert(r@ =~= seq![seq!['0', '1', '2', '3', '4', '5', '6', '7', '8', '9'][d as int]]);
    r
}

/// The decimal form of `n`.
pub fn decimal(n: usize) -> (r: String)
    ensures
        r@ == decimal_digits(n as nat),
    decreases n,
{
    if n < 10 {
        owned(digit(n))
    } else {
        let mut r = decimal(n / 10);
        r.append(digit(n % 10));
        r
    }
}

/// Whether `s` holds a newline.
pub fn contains_newline(s: &str) -> (r: bool)
    ensures
        r == has_newline(bytes_of(s@)),
{
    let b = s.as_bytes();
    let mut i: usize = 0;
    while i < b.len()
        invariant
            b@ == bytes_of(s@),
            i <= b@.len(),
            forall|j: int| 0 <= j < i ==> b@[j] != NEWLINE,
        decreases b@.len() - i,
    {
        if b[i] == NEWLINE {
            assert(b@[i as int] == NEWLINE);
            return true;
        }
        i += 1;
    }
    false
}

/// A copy of `s`.
pub fn owned(s: &str) -> (r: String)
    ensures
        r@ == s@,
{
    s.to_owned()
}

/// Joins two strings.
pub fn join2(a: &str, b: &str) -> (r: String)
    ensures
        r@ == a@ + b@,
{
    let mut r = a.to_owned();
    r.append(b);
    r
}

/// Joins three strings.
pub fn join3(a: &str, b: &str, c: &str) -> (r: String)
    ensures
        r@ == a@ + b@ + c@,
        bytes_of(r@) == bytes_of(a@) + bytes_of(b@) + bytes_of(c@),
{
    let mut r = a.to_owned();
    r.append(b);
    r.append(c);
    proof {
        lemma_encode_concat(a@ + b@, c@);
        lemma_encode_concat(a@, b@);
    }
    r
}

/// `line` with `text` put in at byte offset `off`.
pub fn splice(line: &str, off: usize, text: &str) -> (r: String)
    requires
        is_char_boundary(bytes_of(line@), off as int),
    ensures
        bytes_of(r@) == spliced(bytes_of(line@), off as int, bytes_of(text@)),
{
    let (a, c) = line.split_at(off);
    let r = join3(a, text, c);
    proof {
        let b = bytes_of(line@);
        assert(a.spec_bytes() =~= b.take(off as int));
        assert(c.spec_bytes() =~= b.skip(off as int));
    }
    r
}

/// The bytes `[start, end)` of `line`.
pub fn slice(line: &str, start: usize, end: usize) -> (r: String)
    requires
        start <= end,
        is_char_boundary(bytes_of(line@), start as int),
        is_char_boundary(bytes_of(line@), end as int),
    ensures
        bytes_of(r@) == bytes_of(line@).subrange(start as int, end as int),
{
    let ghost b = bytes_of(line@);
    let (ab, _c) = line.split_at(end);
    proof {
        lemma_boundary_in_prefix(b, end as int, start as int);
        assert(ab.spec_bytes() =~= b.take(end as int));
    }
    let (_a, m) = ab.split_at(start);
    assert(m.spec_bytes() =~= b.subrange(start as int, end as int));
    m.to_owned()
}

/// `line` without its bytes `[start, end)`.
pub fn remove_range(line: &str, start: usize, end: usize) -> (r: String)
    requires
        start <= end,
        is_char_boundary(bytes_of(line@), start as int),
        is_char_boundary(bytes_of(line@), end as int),
    ensures
        bytes_of(r@) == cut(bytes_of(line@), start as int, end as int),
{
    let ghost b = bytes_of(line@);
    let (ab, c) = line.split_at(end);
    proof {
        lemma_boundary_in_prefix(b, end as int, start as int);
        assert(ab.spec_bytes() =~= b.take(end as int));
    }
    let (a, _m) = ab.split_at(start);
    let r = join3(a, "", c);
    proof {
        assert(a.spec_bytes() =~= b.take(start as int));
        assert(c.spec_bytes() =~= b.skip(end as int));
        assert(bytes_of(""@) =~= Seq::<u8>::empty()) by {
            reveal_strlit("");
        }
        assert(bytes_of(r@) =~= cut(b, start as int, end as int));
    }
    r
}

} // verus!
