//! Text primitives of the standard library that matching and parsing are
//! stated over, each with the contract that verified code relies on.

use vstd::prelude::*;

verus! {

/// The lower-case form of a text under the Unicode case mapping of
/// `str::to_lowercase`.
pub uninterp spec fn lowercase(s: Seq<char>) -> Seq<char>;

/// A text without its leading and trailing white space, as `str::trim`
/// returns it.
pub uninterp spec fn trimmed(s: Seq<char>) -> Seq<char>;

/// `needle` stands in `hay` at character index `i`.
pub open spec fn occurs_at(hay: Seq<char>, needle: Seq<char>, i: int) -> bool {
    &&& 0 <= i
    &&& i + needle.len() <= hay.len()
    &&& hay.subrange(i, i + needle.len()) == needle
}

/// `needle` stands somewhere in `hay`.
pub open spec fn occurs_in(hay: Seq<char>, needle: Seq<char>) -> bool {
    exists|i: int| occurs_at(hay, needle, i)
}

/// Calls `str::to_lowercase`. Trusted: the result is the lower-case form of
/// the argument, a function of its characters alone.
#[verifier::external_body]
pub(crate) fn to_lowercase(s: &str) -> (res: String)
    ensures
        res@ == lowercase(s@),
{
    s.to_lowercase()
}

/// Calls `str::trim`. Trusted: the result is the trimmed form of the
/// argument, and it is a contiguous part of the argument.
#[verifier::external_body]
pub(crate) fn trim(s: &str) -> (res: &str)
    ensures
        res@ == trimmed(s@),
        exists|i: int| occurs_at(s@, res@, i),
{
    s.trim()
}

/// Calls `str::contains` with a string pattern. Trusted: the result tells
/// whether the pattern is a contiguous part of the text.
#[verifier::external_body]
pub(crate) fn contains(hay: &str, needle: &str) -> (res: bool)
    ensures
        res == occurs_in(hay@, needle@),
{
    hay.contains(needle)
}

/// Calls `str::split_once` with a string delimiter. Trusted: the text is cut
/// at the first place where the delimiter stands, and the result is `None`
/// exactly when it stands nowhere.
#[verifier::external_body]
pub(crate) fn split_once<'a>(s: &'a str, delimiter: &str) -> (res: Option<(&'a str, &'a str)>)
    ensures
        match res {
            Some((before, after)) => {
                &&& s@ == before@ + delimiter@ + after@
                &&& forall|i: int| 0 <= i < before@.len() ==> !occurs_at(s@, delimiter@, i)
            },
            None => !occurs_in(s@, delimiter@),
        },
{
    s.split_once(delimiter)
}

} // verus!
