//! The view merger: folds the records of one view into those gathered so far,
//! completing absent fields and never overwriting present ones.

use vstd::prelude::*;
use crate::objects::{keyed_by_clsid, keys_unique, lemma_map_of_dom, map_of, views_of, ComObjectMap};
use crate::types::{clone_opt, ComObject, ObjectView};

verus! {

/// An optional field kept if present, else taken from the incoming record.
pub open spec fn first_present(kept: Option<Seq<char>>, incoming: Option<Seq<char>>) -> Option<
    Seq<char>,
> {
    if kept is Some {
        kept
    } else {
        incoming
    }
}

/// The record already held, with each absent field completed from `incoming`.
pub open spec fn fill(existing: ObjectView, incoming: ObjectView) -> ObjectView {
    ObjectView {
        clsid: existing.clsid,
        prog_id: first_present(existing.prog_id, incoming.prog_id),
        description: first_present(existing.description, incoming.description),
    }
}

/// The mapping that results from applying every record of `incoming` to `acc`:
/// a new identifier brings its whole record, a known one only fills gaps.
pub open spec fn merged(
    acc: Map<Seq<char>, ObjectView>,
    incoming: Map<Seq<char>, ObjectView>,
) -> Map<Seq<char>, ObjectView> {
    Map::new(
        |k: Seq<char>| acc.contains_key(k) || incoming.contains_key(k),
        |k: Seq<char>|
            if acc.contains_key(k) {
                if incoming.contains_key(k) {
                    fill(acc[k], incoming[k])
                } else {
                    acc[k]
                }
            } else {
                incoming[k]
            },
    )
}

/// Two optional fields do not hold two different values.
pub open spec fn agree(a: Option<Seq<char>>, b: Option<Seq<char>>) -> bool {
    a is None || b is None || a == b
}

/// Wherever both mappings hold an identifier, their records do not hold
/// different present values for the same field.
pub open spec fn compatible(a: Map<Seq<char>, ObjectView>, b: Map<Seq<char>, ObjectView>) -> bool {
    forall|k: Seq<char>|
        a.contains_key(k) && b.contains_key(k) ==> agree(a[k].prog_id, b[k].prog_id) && agree(
            a[k].description,
            b[k].description,
        )
}

/// The record `existing` with its absent fields taken from `incoming`.
pub fn fill_record(existing: &ComObject, incoming: &ComObject) -> (r: ComObject)
    ensures
        r@ == fill(existing@, incoming@),
{
    ComObject {
        clsid: existing.clsid.clone(),
        prog_id: if existing.prog_id.is_some() {
            clone_opt(&existing.prog_id)
        } else {
            clone_opt(&incoming.prog_id)
        },
        description: if existing.description.is_some() {
            clone_opt(&existing.description)
        } else {
            clone_opt(&incoming.description)
        },
    }
}

impl ComObjectMap {
    /// Applies every record of `incoming`: an identifier not yet held is
    /// inserted with its whole record; for one already held, each absent field
    /// is completed from the incoming record and present fields are kept.
    pub fn merge_from(&mut self, incoming: &ComObjectMap)
        requires
            old(self).wf(),
            incoming.wf(),
        ensures
            final(self).wf(),
            final(self)@ == merged(old(self)@, incoming@),
    {
        let ghost acc0 = self@;
        let items = incoming.items();
        let ghost s = views_of(items@);
        proof {
            self.lemma_view_facts();
        }
        let mut i: usize = 0;
        while i < items.len()
            invariant
                i <= items.len(),
                s == views_of(items@),
                keys_unique(s),
                map_of(s) == incoming@,
                keyed_by_clsid(acc0),
                self.wf(),
                self@ == merged(acc0, map_of(s.take(i as int))),
            decreases items.len() - i,
        {
            let x = &items[i];
            let ghost m = map_of(s.take(i as int));
            proof {
                assert(s.take(i as int + 1).drop_last() =~= s.take(i as int));
                assert(s.take(i as int + 1).last() == x@);
                assert(!m.contains_key(x@.clsid)) by {
                    lemma_take_keys(s, i as int);
                }
            }
            match self.get(&x.clsid) {
                Some(existing) => {
                    let rec = fill_record(existing, x);
                    self.insert(rec);
                },
                None => {
                    let rec = x.duplicate();
                    self.insert(rec);
                },
            }
            proof {
                assert(self@ =~= merged(acc0, map_of(s.take(i as int + 1))));
            }
            i = i + 1;
        }
        proof {
            assert(s.take(i as int) =~= s);
            assert(self@ =~= merged(acc0, incoming@));
        }
    }
}

/// In a sequence with distinct identifiers, the identifier at `i` is not among
/// those before it.
proof fn lemma_take_keys(s: Seq<ObjectView>, i: int)
    requires
        keys_unique(s),
        0 <= i < s.len(),
    ensures
        !map_of(s.take(i)).contains_key(s[i].clsid),
{
    let t = s.take(i);
    lemma_map_of_dom(t);
    if map_of(t).contains_key(s[i].clsid) {
        let j = choose|j: int| 0 <= j < t.len() && t[j].clsid == s[i].clsid;
        assert(s[j].clsid == s[i].clsid);
    }
}

/// Merging is independent of the order of the two views: folding `a` and then
/// `b` into an empty mapping gives the same mapping as folding `b` and then
/// `a`, provided that no identifier carries two different present values for
/// one field.
pub proof fn lemma_merge_commutative(a: &ComObjectMap, b: &ComObjectMap)
    requires
        a.wf(),
        b.wf(),
        compatible(a@, b@),
    ensures
        merged(merged(Map::empty(), a@), b@) == merged(merged(Map::empty(), b@), a@),
{
    a.lemma_view_facts();
    b.lemma_view_facts();
    assert(merged(Map::empty(), a@) =~= a@);
    assert(merged(Map::empty(), b@) =~= b@);
    assert forall|k: Seq<char>| #[trigger] merged(a@, b@).contains_key(k) implies merged(a@, b@)[k]
        == merged(b@, a@)[k] by {
        if a@.contains_key(k) && b@.contains_key(k) {
            assert(a@[k].clsid == k && b@[k].clsid == k);
        }
    }
    assert(merged(a@, b@) =~= merged(b@, a@));
}

/// Merging never loses data: every identifier of either input is present
/// afterwards; a record held in one input only is kept as it is; for one held
/// in both, each field is present exactly when it is present in either input,
/// and a field present in the record already held keeps its value.
pub proof fn lemma_merge_keeps_data(acc: &ComObjectMap, incoming: &ComObjectMap)
    requires
        acc.wf(),
        incoming.wf(),
    ensures
        merged(acc@, incoming@).dom() == acc@.dom().union(incoming@.dom()),
        forall|k: Seq<char>|
            acc@.contains_key(k) && !incoming@.contains_key(k) ==> #[trigger] merged(
                acc@,
                incoming@,
            )[k] == acc@[k],
        forall|k: Seq<char>|
            !acc@.contains_key(k) && incoming@.contains_key(k) ==> #[trigger] merged(
                acc@,
                incoming@,
            )[k] == incoming@[k],
        forall|k: Seq<char>|
            acc@.contains_key(k) && incoming@.contains_key(k) ==> {
                let r = #[trigger] merged(acc@, incoming@)[k];
                &&& r.clsid == k
                &&& (r.prog_id is Some <==> (acc@[k].prog_id is Some
                    || incoming@[k].prog_id is Some))
                &&& (r.description is Some <==> (acc@[k].description is Some
                    || incoming@[k].description is Some))
                &&& (acc@[k].prog_id is Some ==> r.prog_id == acc@[k].prog_id)
                &&& (acc@[k].description is Some ==> r.description == acc@[k].description)
                &&& (acc@[k].prog_id is None ==> r.prog_id == incoming@[k].prog_id)
                &&& (acc@[k].description is None ==> r.description
                    == incoming@[k].description)
            },
{
    acc.lemma_view_facts();
    incoming.lemma_view_facts();
    assert(merged(acc@, incoming@).dom() =~= acc@.dom().union(incoming@.dom()));
}

} // verus!
