//! The registry scanner's decisions. The caller enumerates entries of one
//! registry view in order and hands each, with its resolved fields, to
//! `scan_step`, which admits or rejects it and says whether to go on.
//! `scan_entries` runs the same decisions over entries already in memory.

use vstd::prelude::*;
use crate::filter::{admits, should_include_object};
use crate::objects::{views_of, ComObjectMap};
use crate::types::{Args, ComObject, FilterSet, FilterView, ObjectView};

verus! {

/// One of the two parallel registry address spaces.
#[derive(PartialEq, Eq, Structural, Clone, Copy, Debug)]
pub enum RegistryView {
    Bits32,
    Bits64,
}

/// The views to scan, in order: the 32-bit view unless only the 64-bit one
/// was asked for, then the 64-bit view unless only the 32-bit one was asked
/// for. Asking for neither, or for both, scans both.
pub open spec fn views_spec(scan_32bit: bool, scan_64bit: bool) -> Seq<RegistryView> {
    (if scan_32bit || !scan_64bit {
        seq![RegistryView::Bits32]
    } else {
        Seq::empty()
    }) + (if scan_64bit || !scan_32bit {
        seq![RegistryView::Bits64]
    } else {
        Seq::empty()
    })
}

/// The registry views that the settings ask to scan.
pub fn views_to_scan(args: &Args) -> (r: Vec<RegistryView>)
    ensures
        r@ == views_spec(args.scan_32bit, args.scan_64bit),
{
    let mut r: Vec<RegistryView> = Vec::new();
    if args.scan_32bit || !args.scan_64bit {
        r.push(RegistryView::Bits32);
    }
    if args.scan_64bit || !args.scan_32bit {
        r.push(RegistryView::Bits64);
    }
    assert(r@ =~= views_spec(args.scan_32bit, args.scan_64bit));
    r
}

/// A candidate record passes the filter set.
pub open spec fn admits_record(o: ObjectView, f: FilterView) -> bool {
    admits(o.prog_id, o.description, o.clsid, f.text, f.description, f.clsid, f.app)
}

/// A positive ceiling has been reached.
pub open spec fn ceiling_reached(found: Map<Seq<char>, ObjectView>, limit: nat) -> bool {
    limit > 0 && found.len() >= limit
}

/// The mapping that a scan of `entries`, in order, adds to `found`: each
/// admitted entry is stored under its identifier, and the scan stops as soon
/// as a positive ceiling is reached.
pub open spec fn scan_from(
    found: Map<Seq<char>, ObjectView>,
    entries: Seq<ObjectView>,
    limit: nat,
    f: FilterView,
) -> Map<Seq<char>, ObjectView>
    decreases entries.len(),
{
    if entries.len() == 0 {
        found
    } else if admits_record(entries[0], f) {
        let m = found.insert(entries[0].clsid, entries[0]);
        if ceiling_reached(m, limit) {
            m
        } else {
            scan_from(m, entries.drop_first(), limit, f)
        }
    } else {
        scan_from(found, entries.drop_first(), limit, f)
    }
}

/// The mapping that a whole scan of `entries` produces.
pub open spec fn scan_result(entries: Seq<ObjectView>, limit: nat, f: FilterView) -> Map<
    Seq<char>,
    ObjectView,
> {
    scan_from(Map::empty(), entries, limit, f)
}

proof fn lemma_scan_from_within(
    found: Map<Seq<char>, ObjectView>,
    entries: Seq<ObjectView>,
    limit: nat,
    f: FilterView,
)
    requires
        found.dom().finite(),
        found.len() < limit,
    ensures
        scan_from(found, entries, limit, f).dom().finite(),
        scan_from(found, entries, limit, f).len() <= limit,
    decreases entries.len(),
{
    if entries.len() > 0 {
        if admits_record(entries[0], f) {
            let m = found.insert(entries[0].clsid, entries[0]);
            assert(m.dom() == found.dom().insert(entries[0].clsid));
            if !ceiling_reached(m, limit) {
                lemma_scan_from_within(m, entries.drop_first(), limit, f);
            }
        } else {
            lemma_scan_from_within(found, entries.drop_first(), limit, f);
        }
    }
}

/// A scan under a positive ceiling never yields more records than the ceiling.
pub proof fn lemma_scan_within_ceiling(entries: Seq<ObjectView>, limit: nat, f: FilterView)
    requires
        limit > 0,
    ensures
        scan_result(entries, limit, f).len() <= limit,
{
    lemma_scan_from_within(Map::empty(), entries, limit, f);
}

/// Decides on one enumerated entry: if it passes `filters` it is stored under
/// its identifier, replacing any record there. Returns whether enumeration is
/// to go on: it stops once an admitted entry brings the mapping to a positive
/// `limit`.
pub fn scan_step(found: &mut ComObjectMap, limit: usize, filters: &FilterSet, entry: ComObject) -> (more: bool)
    requires
        old(found).wf(),
    ensures
        final(found).wf(),
        final(found)@ == if admits_record(entry@, filters@) {
            old(found)@.insert(entry@.clsid, entry@)
        } else {
            old(found)@
        },
        more == !(admits_record(entry@, filters@) && ceiling_reached(final(found)@, limit as nat)),
{
    if should_include_object(
        &entry.prog_id,
        &entry.description,
        entry.clsid.as_str(),
        &filters.text,
        &filters.description,
        &filters.clsid,
        &filters.app,
    ) {
        found.insert(entry);
        !(limit > 0 && found.len() >= limit)
    } else {
        true
    }
}

/// Scans entries already in memory, in order, under a ceiling on the number
/// of results (0 = none) and a filter set.
pub fn scan_entries(entries: &Vec<ComObject>, limit: usize, filters: &FilterSet) -> (r:
    ComObjectMap)
    ensures
        r.wf(),
        r@ == scan_result(views_of(entries@), limit as nat, filters@),
        limit > 0 ==> r@.len() <= limit,
{
    let ghost es = views_of(entries@);
    let ghost target = scan_result(es, limit as nat, filters@);
    let mut found = ComObjectMap::new();
    let mut i: usize = 0;
    assert(es.skip(0) =~= es);
    while i < entries.len()
        invariant
            i <= entries.len(),
            es == views_of(entries@),
            target == scan_result(es, limit as nat, filters@),
            found.wf(),
            scan_from(found@, es.skip(i as int), limit as nat, filters@) == target,
        decreases entries.len() - i,
    {
        let entry = entries[i].duplicate();
        proof {
            assert(es.skip(i as int)[0] == es[i as int]);
            assert(entry@ == es[i as int]);
            assert(es.skip(i as int).drop_first() =~= es.skip(i as int + 1));
        }
        let more = scan_step(&mut found, limit, filters, entry);
        if !more {
            proof {
                assert(found@ == target);
                lemma_scan_within_ceiling(es, limit as nat, filters@);
            }
            return found;
        }
        i = i + 1;
    }
    proof {
        assert(es.skip(i as int).len() == 0);
        if limit > 0 {
            lemma_scan_within_ceiling(es, limit as nat, filters@);
        }
    }
    found
}

} // verus!
