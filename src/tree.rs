//! Drawing a directory tree: the order of the entries of one directory and
//! the lines that show them.

use vstd::prelude::*;
use vstd::multiset::Multiset;
use vstd::string::*;

use crate::text::{join2, join3};

verus! {

broadcast use {vstd::seq_lib::group_to_multiset_ensures, vstd::multiset::group_multiset_axioms};

/// Whether name `a` sorts before or equal to name `b`, character by character.
pub open spec fn name_le(a: Seq<char>, b: Seq<char>) -> bool
    decreases a.len(),
{
    if a.len() == 0 {
        true
    } else if b.len() == 0 {
        false
    } else if (a[0] as u32) != (b[0] as u32) {
        (a[0] as u32) < (b[0] as u32)
    } else {
        name_le(a.drop_first(), b.drop_first())
    }
}

/// The view of an entry: its name, and whether it is a directory.
pub open spec fn entry_view(e: (String, bool)) -> (Seq<char>, bool) {
    (e.0@, e.1)
}

/// Whether entry `a` is listed before or with entry `b`: directories first,
/// then by name.
pub open spec fn entry_le(a: (Seq<char>, bool), b: (Seq<char>, bool)) -> bool {
    (a.1 && !b.1) || (a.1 == b.1 && name_le(a.0, b.0))
}

/// Any two names are ordered one way or the other.
proof fn lemma_name_total(a: Seq<char>, b: Seq<char>)
    ensures
        name_le(a, b) || name_le(b, a),
    decreases a.len(),
{
    if a.len() > 0 && b.len() > 0 && (a[0] as u32) == (b[0] as u32) {
        lemma_name_total(a.drop_first(), b.drop_first());
    }
}

/// The order of names is transitive.
proof fn lemma_name_trans(a: Seq<char>, b: Seq<char>, c: Seq<char>)
    requires
        name_le(a, b),
        name_le(b, c),
    ensures
        name_le(a, c),
    decreases a.len(),
{
    if a.len() > 0 && b.len() > 0 && c.len() > 0 && (a[0] as u32) == (b[0] as u32) && (b[0]
        as u32) == (c[0] as u32) {
        lemma_name_trans(a.drop_first(), b.drop_first(), c.drop_first());
    }
}

/// Whether name `a` sorts before or equal to name `b`.
fn name_before(a: &str, b: &str) -> (r: bool)
    ensures
        r == name_le(a@, b@),
{
    let n = a.unicode_len();
    let m = b.unicode_len();
    let mut i: usize = 0;
    assert(a@.skip(0) =~= a@ && b@.skip(0) =~= b@);
    while i < n && i < m
        invariant
            n == a@.len(),
            m == b@.len(),
            i <= n,
            i <= m,
            name_le(a@, b@) == name_le(a@.skip(i as int), b@.skip(i as int)),
        decreases n - i,
    {
        let x = a.get_char(i);
        let y = b.get_char(i);
        if (x as u32) != (y as u32) {
            return (x as u32) < (y as u32);
        }
        assert(a@.skip(i as int).drop_first() =~= a@.skip(i + 1));
        assert(b@.skip(i as int).drop_first() =~= b@.skip(i + 1));
        i += 1;
    }
    i == n
}

/// Whether entry `a` is listed before or with entry `b`.
fn entry_before(a: &(String, bool), b: &(String, bool)) -> (r: bool)
    ensures
        r == entry_le(entry_view(*a), entry_view(*b)),
{
    (a.1 && !b.1) || (a.1 == b.1 && name_before(a.0.as_str(), b.0.as_str()))
}

/// The entries of a directory in listing order: directories first, then by
/// name.
pub fn sort_entries(entries: Vec<(String, bool)>) -> (r: Vec<(String, bool)>)
    ensures
        r@.to_multiset() == entries@.to_multiset(),
        forall|i: int, j: int|
            0 <= i < j < r@.len() ==> entry_le(entry_view(#[trigger] r@[i]), entry_view(#[trigger] r@[j])),
{
    let mut rest = entries;
    let mut out: Vec<(String, bool)> = Vec::new();
    assert(out@.to_multiset() =~= Multiset::<(String, bool)>::empty());
    assert(out@.to_multiset().add(rest@.to_multiset()) =~= entries@.to_multiset());
    while rest.len() > 0
        invariant
            out@.to_multiset().add(rest@.to_multiset()) == entries@.to_multiset(),
            forall|i: int, j: int|
                0 <= i < j < out@.len() ==> entry_le(entry_view(#[trigger] out@[i]), entry_view(#[trigger] out@[j])),
            forall|i: int, j: int|
                0 <= i < out@.len() && 0 <= j < rest@.len() ==> entry_le(
                    entry_view(#[trigger] out@[i]),
                    entry_view(#[trigger] rest@[j]),
                ),
        decreases rest@.len(),
    {
        let mut k: usize = 0;
        let mut j: usize = 1;
        proof {
            lemma_name_total(rest@[0].0@, rest@[0].0@);
        }
        while j < rest.len()
            invariant
                k < j <= rest@.len(),
                forall|t: int| 0 <= t < j ==> entry_le(entry_view(rest@[k as int]), entry_view(#[trigger] rest@[t])),
            decreases rest@.len() - j,
        {
            if !entry_before(&rest[k], &rest[j]) {
                proof {
                    let x = entry_view(rest@[j as int]);
                    let b = entry_view(rest@[k as int]);
                    lemma_name_total(b.0, x.0);
                    assert forall|t: int| 0 <= t <= j implies entry_le(x, entry_view(#[trigger] rest@[t])) by {
                        if t < j {
                            let y = entry_view(rest@[t]);
                            if x.1 == b.1 && b.1 == y.1 {
                                lemma_name_trans(x.0, b.0, y.0);
                            }
                        } else {
                            lemma_name_total(x.0, x.0);
                        }
                    }
                }
                k = j;
            }
            j += 1;
        }
        let ghost before_rest = rest@;
        let ghost before_out = out@;
        let x = rest.remove(k);
        out.push(x);
        proof {
            assert(before_rest.remove(k as int) == rest@);
            assert(before_out.push(before_rest[k as int]) == out@);
            let e = before_rest[k as int];
            assert(before_rest.contains(e));
            assert(before_rest.to_multiset().count(e) > 0);
            assert(rest@.to_multiset() == before_rest.to_multiset().remove(e));
            assert(out@.to_multiset() == before_out.to_multiset().insert(e));
            assert forall|i: int, j: int| 0 <= i < out@.len() && 0 <= j < rest@.len() implies entry_le(
                entry_view(#[trigger] out@[i]),
                entry_view(#[trigger] rest@[j]),
            ) by {
                let jj = if j < k { j } else { j + 1 };
                assert(rest@[j] == before_rest[jj]);
                if i < before_out.len() {
                    assert(out@[i] == before_out[i]);
                }
            }
            assert forall|i: int, j: int| 0 <= i < j < out@.len() implies entry_le(
                entry_view(#[trigger] out@[i]),
                entry_view(#[trigger] out@[j]),
            ) by {
                if j == before_out.len() {
                    assert(out@[j] == before_rest[k as int]);
                } else {
                    assert(out@[i] == before_out[i] && out@[j] == before_out[j]);
                }
            }
            assert(out@.to_multiset().add(rest@.to_multiset()) =~= entries@.to_multiset());
        }
    }
    assert(rest@.to_multiset().len() == 0);
    assert(rest@.to_multiset() =~= Multiset::<(String, bool)>::empty());
    assert(out@.to_multiset().add(rest@.to_multiset()) =~= out@.to_multiset());
    out
}

/// The connector before an entry: a corner for the last one, a tee before
/// the others.
pub open spec fn connector_of(is_last: bool) -> Seq<char> {
    if is_last {
        "└── "@
    } else {
        "├── "@
    }
}

/// The line that shows an entry: the prefix, the connector and the name.
pub fn tree_line(prefix: &str, is_last: bool, name: &str) -> (r: String)
    ensures
        r@ == prefix@ + connector_of(is_last) + name@ + "\n"@,
{
    let head = join2(prefix, if is_last { "└── " } else { "├── " });
    join3(head.as_str(), name, "\n")
}

/// The prefix under an entry: blank below the last one, a bar below the
/// others.
pub fn child_prefix(prefix: &str, is_last: bool) -> (r: String)
    ensures
        r@ == prefix@ + (if is_last {
            "    "@
        } else {
            "│   "@
        }),
{
    if is_last {
        join2(prefix, "    ")
    } else {
        join2(prefix, "│   ")
    }
}

} // verus!
