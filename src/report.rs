//! Decisions behind the listing of results: the order in which records are
//! shown and how many of them carry a friendly name.

use vstd::prelude::*;
use core::cmp::Ordering;
use crate::objects::{views_of, ComObjectMap};
use crate::types::{ComObject, ObjectView};

verus! {

/// Lexicographic order of two character sequences, by code point.
pub open spec fn lex_cmp(a: Seq<char>, b: Seq<char>) -> Ordering
    decreases a.len(),
{
    if a.len() == 0 {
        if b.len() == 0 {
            Ordering::Equal
        } else {
            Ordering::Less
        }
    } else if b.len() == 0 {
        Ordering::Greater
    } else if (a[0] as u32) < (b[0] as u32) {
        Ordering::Less
    } else if (a[0] as u32) > (b[0] as u32) {
        Ordering::Greater
    } else {
        lex_cmp(a.drop_first(), b.drop_first())
    }
}

/// Relies on `Ord` for `str`: strings are ordered lexicographically by their
/// UTF-8 bytes, which orders them as their sequences of code points.
#[verifier::external_body]
fn compare_str(a: &str, b: &str) -> (r: Ordering)
    ensures
        r == lex_cmp(a@, b@),
{
    a.cmp(b)
}

/// The listing order: records with a friendly name first, ordered by it;
/// then those without one, ordered by identifier.
pub open spec fn listing_cmp(a: ObjectView, b: ObjectView) -> Ordering {
    match (a.prog_id, b.prog_id) {
        (Some(pa), Some(pb)) => lex_cmp(pa, pb),
        (Some(_), None) => Ordering::Less,
        (None, Some(_)) => Ordering::Greater,
        (None, None) => lex_cmp(a.clsid, b.clsid),
    }
}

/// Compares two records for the listing.
pub fn listing_order(a: &ComObject, b: &ComObject) -> (r: Ordering)
    ensures
        r == listing_cmp(a@, b@),
{
    match (&a.prog_id, &b.prog_id) {
        (Some(pa), Some(pb)) => compare_str(pa.as_str(), pb.as_str()),
        (Some(_), None) => Ordering::Less,
        (None, Some(_)) => Ordering::Greater,
        (None, None) => compare_str(a.clsid.as_str(), b.clsid.as_str()),
    }
}

/// How many records of `s` carry a friendly name.
pub open spec fn count_named(s: Seq<ObjectView>) -> nat
    decreases s.len(),
{
    if s.len() == 0 {
        0
    } else {
        count_named(s.drop_last()) + if s.last().prog_id is Some {
            1nat
        } else {
            0nat
        }
    }
}

/// The number of records of the mapping that carry a friendly name.
pub fn count_with_prog_id(objects: &ComObjectMap) -> (r: usize)
    requires
        objects.wf(),
    ensures
        r == count_named(objects.entries()),
        r <= objects@.len(),
{
    let items = objects.items();
    let ghost s = views_of(items@);
    let mut n: usize = 0;
    let mut i: usize = 0;
    while i < items.len()
        invariant
            i <= items.len(),
            s == views_of(items@),
            n == count_named(s.take(i as int)),
            n <= i,
        decreases items.len() - i,
    {
        proof {
            assert(s.take(i as int + 1).drop_last() =~= s.take(i as int));
        }
        if items[i].prog_id.is_some() {
            n = n + 1;
        }
        i = i + 1;
    }
    proof {
        assert(s.take(i as int) =~= s);
        objects.lemma_len_entries();
    }
    n
}

} // verus!
