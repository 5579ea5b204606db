//! Path handling, through `std::path`.

use vstd::prelude::*;

verus! {

/// The last component of a path, when it has one.
pub uninterp spec fn file_name_of(p: Seq<char>) -> Option<Seq<char>>;

/// `rest` joined onto `base`.
pub uninterp spec fn path_join_of(base: Seq<char>, rest: Seq<char>) -> Seq<char>;

/// Whether a path is absolute.
pub uninterp spec fn is_absolute_of(p: Seq<char>) -> bool;

/// `p` relative to `base`, when `base` is a prefix of it.
pub uninterp spec fn stripped_of(p: Seq<char>, base: Seq<char>) -> Option<Seq<char>>;

/// Relies on `Path::strip_prefix`: `p` with the leading components that
/// make up `base` removed, if `base` is a prefix of `p`.
#[verifier::external_body]
pub(crate) fn strip_prefix(p: &str, base: &str) -> (r: Option<String>)
    ensures
        r matches Some(s) ==> stripped_of(p@, base@) == Some(s@),
        r is None ==> stripped_of(p@, base@) is None,
{
    match std::path::Path::new(p).strip_prefix(base) {
        Ok(rel) => Some(rel.to_string_lossy().into_owned()),
        Err(_) => None,
    }
}

/// Relies on `Path::file_name`: the final component of `p`, if any.
#[verifier::external_body]
pub(crate) fn file_name(p: &str) -> (r: Option<String>)
    ensures
        r matches Some(n) ==> file_name_of(p@) == Some(n@),
        r is None ==> file_name_of(p@) is None,
{
    match std::path::Path::new(p).file_name() {
        Some(n) => Some(n.to_string_lossy().into_owned()),
        None => None,
    }
}

/// Relies on `Path::join`: `rest` appended to `base` as a path.
#[verifier::external_body]
pub(crate) fn path_join(base: &str, rest: &str) -> (r: String)
    ensures
        r@ == path_join_of(base@, rest@),
{
    std::path::Path::new(base).join(rest).to_string_lossy().into_owned()
}

/// Relies on `Path::is_absolute`.
#[verifier::external_body]
pub(crate) fn is_absolute(p: &str) -> (r: bool)
    ensures
        r == is_absolute_of(p@),
{
    std::path::Path::new(p).is_absolute()
}

} // verus!
