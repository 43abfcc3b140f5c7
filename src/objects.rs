//! A mapping from class identifier to record, held as a vector whose
//! identifiers are pairwise distinct and kept in order of first insertion.

use vstd::prelude::*;
use crate::types::{ComObject, ObjectView};

verus! {

/// The mapping that a sequence of records with distinct identifiers denotes.
pub open spec fn map_of(s: Seq<ObjectView>) -> Map<Seq<char>, ObjectView>
    decreases s.len(),
{
    if s.len() == 0 {
        Map::empty()
    } else {
        map_of(s.drop_last()).insert(s.last().clsid, s.last())
    }
}

/// No two records of `s` share an identifier.
pub open spec fn keys_unique(s: Seq<ObjectView>) -> bool {
    forall|i: int, j: int|
        0 <= i < s.len() && 0 <= j < s.len() && i != j ==> s[i].clsid != s[j].clsid
}

/// Every record of a mapping is stored under its own identifier.
pub open spec fn keyed_by_clsid(m: Map<Seq<char>, ObjectView>) -> bool {
    forall|k: Seq<char>| #[trigger] m.contains_key(k) ==> m[k].clsid == k
}

pub open spec fn views_of(v: Seq<ComObject>) -> Seq<ObjectView> {
    v.map_values(|o: ComObject| o@)
}

/// The domain of `map_of(s)`: finite, and the identifiers of `s`.
pub proof fn lemma_map_of_dom(s: Seq<ObjectView>)
    ensures
        map_of(s).dom().finite(),
        forall|k: Seq<char>|
            #[trigger] map_of(s).contains_key(k) <==> exists|i: int|
                0 <= i < s.len() && s[i].clsid == k,
        keyed_by_clsid(map_of(s)),
    decreases s.len(),
{
    if s.len() > 0 {
        let t = s.drop_last();
        lemma_map_of_dom(t);
        assert forall|k: Seq<char>|
            #[trigger] map_of(s).contains_key(k) <==> exists|i: int|
                0 <= i < s.len() && s[i].clsid == k by {
            if map_of(s).contains_key(k) && k != s.last().clsid {
                let i = choose|i: int| 0 <= i < t.len() && t[i].clsid == k;
                assert(s[i].clsid == k);
            }
            if exists|i: int| 0 <= i < s.len() && s[i].clsid == k {
                let i = choose|i: int| 0 <= i < s.len() && s[i].clsid == k;
                if i < t.len() {
                    assert(t[i].clsid == k);
                }
            }
        }
    }
}

proof fn lemma_map_of_get(s: Seq<ObjectView>, i: int)
    requires
        keys_unique(s),
        0 <= i < s.len(),
    ensures
        map_of(s).contains_key(s[i].clsid),
        map_of(s)[s[i].clsid] == s[i],
    decreases s.len(),
{
    if i < s.len() - 1 {
        let t = s.drop_last();
        lemma_map_of_get(t, i);
        assert(t[i] == s[i]);
    }
}

proof fn lemma_map_of_len(s: Seq<ObjectView>)
    requires
        keys_unique(s),
    ensures
        map_of(s).len() == s.len(),
    decreases s.len(),
{
    if s.len() > 0 {
        let t = s.drop_last();
        lemma_map_of_len(t);
        lemma_map_of_dom(t);
        assert(!map_of(t).contains_key(s.last().clsid)) by {
            if map_of(t).contains_key(s.last().clsid) {
                let i = choose|i: int| 0 <= i < t.len() && t[i].clsid == s.last().clsid;
                assert(s[i].clsid == s[s.len() - 1].clsid);
            }
        }
    }
}

proof fn lemma_map_of_update(s: Seq<ObjectView>, i: int, x: ObjectView)
    requires
        0 <= i < s.len(),
        x.clsid == s[i].clsid,
        keys_unique(s),
    ensures
        map_of(s.update(i, x)) == map_of(s).insert(x.clsid, x),
    decreases s.len(),
{
    let u = s.update(i, x);
    let t = s.drop_last();
    if i == s.len() - 1 {
        assert(u.drop_last() =~= t);
        assert(map_of(u) =~= map_of(s).insert(x.clsid, x));
    } else {
        assert(u.drop_last() =~= t.update(i, x));
        lemma_map_of_update(t, i, x);
        assert(s.last().clsid != x.clsid);
        assert(map_of(u) =~= map_of(s).insert(x.clsid, x));
    }
}

/// Records keyed by class identifier; a second record under an identifier
/// that is present replaces or completes the first, never duplicates it.
pub struct ComObjectMap {
    items: Vec<ComObject>,
}

impl View for ComObjectMap {
    type V = Map<Seq<char>, ObjectView>;

    closed spec fn view(&self) -> Map<Seq<char>, ObjectView> {
        map_of(views_of(self.items@))
    }
}

impl ComObjectMap {
    /// The well-formedness of the representation: identifiers are distinct.
    pub closed spec fn wf(&self) -> bool {
        keys_unique(views_of(self.items@))
    }

    /// The records in order of first insertion.
    pub closed spec fn entries(&self) -> Seq<ObjectView> {
        views_of(self.items@)
    }

    /// A well-formed map holds as many records as it has entries.
    pub proof fn lemma_len_entries(&self)
        requires
            self.wf(),
        ensures
            self@.len() == self.entries().len(),
            map_of(self.entries()) == self@,
            keys_unique(self.entries()),
    {
        lemma_map_of_len(views_of(self.items@));
    }

    /// Facts about the view of a well-formed map.
    pub proof fn lemma_view_facts(&self)
        requires
            self.wf(),
        ensures
            self@.dom().finite(),
            keyed_by_clsid(self@),
    {
        lemma_map_of_dom(views_of(self.items@));
    }

    /// An empty mapping.
    pub fn new() -> (r: ComObjectMap)
        ensures
            r.wf(),
            r@ == Map::<Seq<char>, ObjectView>::empty(),
    {
        let r = ComObjectMap { items: Vec::new() };
        assert(views_of(r.items@) =~= Seq::<ObjectView>::empty());
        r
    }

    /// The number of records.
    pub fn len(&self) -> (r: usize)
        requires
            self.wf(),
        ensures
            r == self@.len(),
    {
        proof {
            lemma_map_of_len(views_of(self.items@));
        }
        self.items.len()
    }

    /// Whether the mapping holds no record.
    pub fn is_empty(&self) -> (r: bool)
        requires
            self.wf(),
        ensures
            r == (self@.len() == 0),
    {
        self.len() == 0
    }

    /// The position of the record stored under `clsid`, if any.
    fn position(&self, clsid: &String) -> (r: Option<usize>)
        requires
            self.wf(),
        ensures
            match r {
                Some(i) => i < self.items.len() && self.items@[i as int].clsid@ == clsid@,
                None => !self@.contains_key(clsid@),
            },
    {
        let mut i: usize = 0;
        while i < self.items.len()
            invariant
                i <= self.items.len(),
                forall|j: int| 0 <= j < i ==> self.items@[j].clsid@ != clsid@,
            decreases self.items.len() - i,
        {
            if self.items[i].clsid == *clsid {
                return Some(i);
            }
            i = i + 1;
        }
        proof {
            let s = views_of(self.items@);
            lemma_map_of_dom(s);
            if self@.contains_key(clsid@) {
                let j = choose|j: int| 0 <= j < s.len() && s[j].clsid == clsid@;
                assert(self.items@[j].clsid@ == clsid@);
            }
        }
        None
    }

    /// The record stored under `clsid`, if any.
    pub fn get(&self, clsid: &String) -> (r: Option<&ComObject>)
        requires
            self.wf(),
        ensures
            match r {
                Some(o) => self@.contains_key(clsid@) && o@ == self@[clsid@],
                None => !self@.contains_key(clsid@),
            },
    {
        match self.position(clsid) {
            Some(i) => {
                proof {
                    lemma_map_of_get(views_of(self.items@), i as int);
                }
                Some(&self.items[i])
            },
            None => None,
        }
    }

    /// The records, in order of first insertion.
    pub fn items(&self) -> (r: &Vec<ComObject>)
        requires
            self.wf(),
        ensures
            keys_unique(views_of(r@)),
            map_of(views_of(r@)) == self@,
            views_of(r@) == self.entries(),
    {
        &self.items
    }

    /// Stores `obj` under its identifier, replacing any record stored there.
    pub fn insert(&mut self, obj: ComObject)
        requires
            old(self).wf(),
        ensures
            final(self).wf(),
            final(self)@ == old(self)@.insert(obj.clsid@, obj@),
    {
        let ghost s = views_of(self.items@);
        let ghost x = obj@;
        match self.position(&obj.clsid) {
            Some(i) => {
                self.items.set(i, obj);
                proof {
                    assert(views_of(self.items@) =~= s.update(i as int, x));
                    lemma_map_of_update(s, i as int, x);
                }
            },
            None => {
                self.items.push(obj);
                proof {
                    lemma_map_of_dom(s);
                    assert(views_of(self.items@) =~= s.push(x));
                    assert(views_of(self.items@).drop_last() =~= s);
                    assert forall|i: int| 0 <= i < s.len() implies s[i].clsid != x.clsid by {
                        if s[i].clsid == x.clsid {
                            assert(map_of(s).contains_key(x.clsid));
                        }
                    }
                }
            },
        }
    }
}

} // verus!
