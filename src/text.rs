//! Text operations taken from std: lower-casing, substring search and UTF-16
//! decoding.

use vstd::prelude::*;

verus! {

/// `needle` occurs in `hay` as a contiguous run of characters.
pub open spec fn occurs_in(hay: Seq<char>, needle: Seq<char>) -> bool {
    exists|i: int|
        0 <= i && i + needle.len() <= hay.len() && #[trigger] hay.subrange(i, i + needle.len())
            == needle
}

/// What `str::to_lowercase` returns for a string: it depends on the characters alone.
pub uninterp spec fn lower_of(s: Seq<char>) -> Seq<char>;

/// What `String::from_utf16_lossy` returns for a run of UTF-16 code units.
pub uninterp spec fn utf16_lossy(units: Seq<u16>) -> Seq<char>;

/// Relies on `str::to_lowercase`: the lower-case form of `s`, a function of
/// its characters.
#[verifier::external_body]
pub(crate) fn lowercase(s: &str) -> (r: String)
    ensures
        r@ == lower_of(s@),
{
    s.to_lowercase()
}

/// Relies on `str::contains` with a `&str` pattern: true exactly when the
/// pattern matches a sub-slice of `hay`.
#[verifier::external_body]
pub(crate) fn contains_str(hay: &str, needle: &str) -> (r: bool)
    ensures
        r == occurs_in(hay@, needle@),
{
    hay.contains(needle)
}

/// Relies on `String::from_utf16_lossy`: decodes the units, putting the
/// replacement character in place of each invalid sequence.
#[verifier::external_body]
pub(crate) fn from_utf16_lossy(units: &[u16]) -> (r: String)
    ensures
        r@ == utf16_lossy(units@),
{
    String::from_utf16_lossy(units)
}

} // verus!

verus! {

/// `n` is where a string of UTF-16 units ends: no unit before it is the null
/// terminator, and at `n` either the units run out or a terminator stands.
pub open spec fn ends_at(units: Seq<u16>, n: int) -> bool {
    &&& 0 <= n <= units.len()
    &&& forall|i: int| 0 <= i < n ==> units[i] != 0
    &&& (n == units.len() || units[n] == 0)
}

/// Decodes a string value stored as UTF-16 units: the units before the first
/// null terminator (all of them if there is none), with the replacement
/// character in place of each invalid sequence.
pub fn decode_utf16_value(units: &[u16]) -> (r: String)
    ensures
        exists|n: int| #[trigger] ends_at(units@, n) && r@ == utf16_lossy(units@.take(n)),
{
    let mut n: usize = 0;
    while n < units.len() && units[n] != 0
        invariant
            n <= units@.len(),
            forall|i: int| 0 <= i < n ==> units@[i] != 0,
        decreases units.len() - n,
    {
        n = n + 1;
    }
    let body = vstd::slice::slice_subrange(units, 0, n);
    let r = from_utf16_lossy(body);
    assert(ends_at(units@, n as int));
    assert(units@.take(n as int) =~= units@.subrange(0, n as int));
    r
}

} // verus!

verus! {

/// What `str::trim` returns for a string: it depends on the characters alone.
pub uninterp spec fn trim_of(s: Seq<char>) -> Seq<char>;

/// Relies on `str::trim`: `s` without its leading and trailing white space.
#[verifier::external_body]
pub(crate) fn trim(s: &str) -> (r: &str)
    ensures
        r@ == trim_of(s@),
{
    s.trim()
}

/// A filter typed at the prompt: the line without surrounding white space, or
/// no filter at all where nothing else is left.
pub fn filter_from_input(line: &str) -> (r: Option<String>)
    ensures
        r is None <==> trim_of(line@).len() == 0,
        r is Some ==> r.unwrap()@ == trim_of(line@),
{
    let t = trim(line);
    if t.is_empty() {
        None
    } else {
        Some(t.to_owned())
    }
}

} // verus!
