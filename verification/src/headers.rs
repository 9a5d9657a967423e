//! A string-to-string map with unique keys, used for HTTP headers, path
//! parameters and the plugins' keyed configuration tables.

use vstd::prelude::*;
use crate::text::str_eq;

verus! {

/// A map from strings to strings. Keys are compared exactly (case matters),
/// as in a `BTreeMap<String, String>`.
pub struct HeaderMap {
    entries: Vec<(String, String)>,
}

/// Entry `i` of `e` has key `k`.
pub open spec fn key_at(e: Seq<(String, String)>, k: Seq<char>, i: int) -> bool {
    0 <= i < e.len() && e[i].0@ == k
}

/// No two entries share a key.
pub open spec fn distinct_keys(e: Seq<(String, String)>) -> bool {
    forall|i: int, j: int| 0 <= i < e.len() && 0 <= j < e.len() && i != j ==> e[i].0@ != e[j].0@
}

/// The map that a list of entries with distinct keys stands for.
pub open spec fn entries_map(e: Seq<(String, String)>) -> Map<Seq<char>, Seq<char>> {
    Map::new(
        |k: Seq<char>| exists|i: int| key_at(e, k, i),
        |k: Seq<char>| e[choose|i: int| key_at(e, k, i)].1@,
    )
}

/// The optional string as a character sequence.
pub open spec fn opt_view(o: Option<String>) -> Option<Seq<char>> {
    match o {
        Some(s) => Some(s@),
        None => None,
    }
}

/// The value of `k` in `m`, if any.
pub open spec fn map_get(m: Map<Seq<char>, Seq<char>>, k: Seq<char>) -> Option<Seq<char>> {
    if m.contains_key(k) {
        Some(m[k])
    } else {
        None
    }
}

impl View for HeaderMap {
    type V = Map<Seq<char>, Seq<char>>;

    closed spec fn view(&self) -> Map<Seq<char>, Seq<char>> {
        entries_map(self.entries@)
    }
}

pub proof fn lemma_entries_map_at(e: Seq<(String, String)>, i: int)
    requires
        distinct_keys(e),
        0 <= i < e.len(),
    ensures
        entries_map(e).contains_key(e[i].0@),
        entries_map(e)[e[i].0@] == e[i].1@,
{
    assert(key_at(e, e[i].0@, i));
    let j = choose|j: int| key_at(e, e[i].0@, j);
    assert(j == i);
}

proof fn lemma_entries_map_absent(e: Seq<(String, String)>, k: Seq<char>)
    requires
        forall|i: int| 0 <= i < e.len() ==> e[i].0@ != k,
    ensures
        !entries_map(e).contains_key(k),
{
}

impl HeaderMap {
    #[verifier::type_invariant]
    spec fn inv(self) -> bool {
        distinct_keys(self.entries@)
    }

    /// An empty map.
    pub fn new() -> (r: Self)
        ensures
            r@ == Map::<Seq<char>, Seq<char>>::empty(),
    {
        let r = HeaderMap { entries: Vec::new() };
        assert(r@ =~= Map::<Seq<char>, Seq<char>>::empty());
        r
    }

    /// The position of `k`, if present.
    fn find(&self, k: &str) -> (r: Option<usize>)
        ensures
            match r {
                Some(i) => i < self.entries@.len() && self.entries@[i as int].0@ == k@,
                None => forall|i: int| 0 <= i < self.entries@.len() ==> self.entries@[i].0@ != k@,
            },
    {
        let mut i: usize = 0;
        while i < self.entries.len()
            invariant
                i <= self.entries@.len(),
                forall|j: int| 0 <= j < i ==> self.entries@[j].0@ != k@,
            decreases self.entries@.len() - i,
        {
            if str_eq(self.entries[i].0.as_str(), k) {
                return Some(i);
            }
            i = i + 1;
        }
        None
    }

    /// The value stored for `k`, if any.
    pub fn get(&self, k: &str) -> (r: Option<String>)
        ensures
            opt_view(r) == map_get(self@, k@),
    {
        proof { use_type_invariant(self); }
        match self.find(k) {
            Some(i) => {
                proof { lemma_entries_map_at(self.entries@, i as int); }
                Some(self.entries[i].1.clone())
            },
            None => {
                proof { lemma_entries_map_absent(self.entries@, k@); }
                None
            },
        }
    }

    /// Whether `k` is present.
    pub fn contains_key(&self, k: &str) -> (r: bool)
        ensures
            r == self@.contains_key(k@),
    {
        proof { use_type_invariant(self); }
        match self.find(k) {
            Some(i) => {
                proof { lemma_entries_map_at(self.entries@, i as int); }
                true
            },
            None => {
                proof { lemma_entries_map_absent(self.entries@, k@); }
                false
            },
        }
    }

    /// Stores `v` under `k`, replacing any previous value.
    pub fn insert(&mut self, k: String, v: String)
        ensures
            final(self)@ == old(self)@.insert(k@, v@),
    {
        proof { use_type_invariant(&*self); }
        let ghost old_e = self.entries@;
        let pos = self.find(k.as_str());
        let mut e: Vec<(String, String)> = Vec::new();
        let mut i: usize = 0;
        while i < self.entries.len()
            invariant
                old_e == self.entries@,
                distinct_keys(old_e),
                i <= old_e.len(),
                e@.len() == i,
                match pos {
                    Some(p) => p < old_e.len() && old_e[p as int].0@ == k@,
                    None => forall|j: int| 0 <= j < old_e.len() ==> old_e[j].0@ != k@,
                },
                forall|j: int| 0 <= j < i ==> #[trigger] e@[j].0@ == old_e[j].0@,
                forall|j: int| 0 <= j < i ==> #[trigger] e@[j].1@ == (if pos == Some(j as usize) { v@ } else { old_e[j].1@ }),
            decreases old_e.len() - i,
        {
            let key = self.entries[i].0.clone();
            let val = if pos == Some(i) { v.clone() } else { self.entries[i].1.clone() };
            e.push((key, val));
            i = i + 1;
        }
        if pos.is_none() {
            e.push((k, v));
        }
        let ghost ne = e@;
        assert(distinct_keys(ne));
        proof {
            let m_old = entries_map(old_e);
            let m_new = entries_map(ne);
            assert forall|kk: Seq<char>| #[trigger] m_new.contains_key(kk) == m_old.insert(k@, v@).contains_key(kk) by {
                if m_new.contains_key(kk) {
                    let j = choose|j: int| key_at(ne, kk, j);
                    if j < old_e.len() {
                        assert(key_at(old_e, kk, j));
                    }
                } else {
                    if kk != k@ && m_old.contains_key(kk) {
                        let j = choose|j: int| key_at(old_e, kk, j);
                        assert(key_at(ne, kk, j));
                    }
                    if kk == k@ {
                        match pos {
                            Some(p) => { assert(key_at(ne, kk, p as int)); },
                            None => { assert(key_at(ne, kk, old_e.len() as int)); },
                        }
                    }
                }
            }
            assert forall|kk: Seq<char>| m_new.contains_key(kk) implies #[trigger] m_new[kk] == m_old.insert(k@, v@)[kk] by {
                let j = choose|j: int| key_at(ne, kk, j);
                lemma_entries_map_at(ne, j);
                if kk != k@ {
                    assert(j < old_e.len());
                    lemma_entries_map_at(old_e, j);
                }
            }
            assert(m_new =~= m_old.insert(k@, v@));
        }
        *self = HeaderMap { entries: e };
    }

    /// Removes `k`, if present.
    pub fn remove(&mut self, k: &str)
        ensures
            final(self)@ == old(self)@.remove(k@),
    {
        proof { use_type_invariant(&*self); }
        let ghost old_e = self.entries@;
        let mut e: Vec<(String, String)> = Vec::new();
        let ghost mut idx: Seq<int> = Seq::empty();
        let mut i: usize = 0;
        while i < self.entries.len()
            invariant
                old_e == self.entries@,
                distinct_keys(old_e),
                i <= old_e.len(),
                e@.len() == idx.len(),
                forall|j: int| 0 <= j < idx.len() ==> 0 <= #[trigger] idx[j] < i,
                forall|j: int, l: int| 0 <= j < l < idx.len() ==> idx[j] < idx[l],
                forall|j: int| 0 <= j < idx.len() ==> #[trigger] e@[j] == old_e[idx[j]],
                forall|j: int| 0 <= j < idx.len() ==> old_e[#[trigger] idx[j]].0@ != k@,
                forall|m: int| 0 <= m < i && old_e[m].0@ != k@ ==> exists|j: int| 0 <= j < idx.len() && idx[j] == m,
            decreases old_e.len() - i,
        {
            let ghost old_idx = idx;
            if !str_eq(self.entries[i].0.as_str(), k) {
                let key = self.entries[i].0.clone();
                let val = self.entries[i].1.clone();
                e.push((key, val));
                proof {
                    idx = idx.push(i as int);
                    assert(e@[e@.len() - 1].0@ == old_e[i as int].0@);
                }
            }
            proof {
                assert forall|m: int| 0 <= m < i + 1 && old_e[m].0@ != k@ implies exists|j: int| 0 <= j < idx.len() && idx[j] == m by {
                    if m == i {
                        assert(idx[idx.len() - 1] == m);
                    } else {
                        let j = choose|j: int| 0 <= j < old_idx.len() && old_idx[j] == m;
                        assert(idx[j] == m);
                    }
                }
            }
            i = i + 1;
        }
        let ghost ne = e@;
        proof {
            assert forall|a: int, b: int| 0 <= a < ne.len() && 0 <= b < ne.len() && a != b implies ne[a].0@ != ne[b].0@ by {
                assert(ne[a] == old_e[idx[a]]);
                assert(ne[b] == old_e[idx[b]]);
                if a < b { assert(idx[a] < idx[b]); } else { assert(idx[b] < idx[a]); }
            }
            let m_old = entries_map(old_e);
            let m_new = entries_map(ne);
            assert forall|kk: Seq<char>| #[trigger] m_new.contains_key(kk) == m_old.remove(k@).contains_key(kk) by {
                if m_new.contains_key(kk) {
                    let j = choose|j: int| key_at(ne, kk, j);
                    assert(ne[j] == old_e[idx[j]]);
                    assert(key_at(old_e, kk, idx[j]));
                } else if kk != k@ && m_old.contains_key(kk) {
                    let m = choose|m: int| key_at(old_e, kk, m);
                    let j = choose|j: int| 0 <= j < idx.len() && idx[j] == m;
                    assert(ne[j] == old_e[idx[j]]);
                    assert(key_at(ne, kk, j));
                }
            }
            assert forall|kk: Seq<char>| m_new.contains_key(kk) implies #[trigger] m_new[kk] == m_old.remove(k@)[kk] by {
                let j = choose|j: int| key_at(ne, kk, j);
                lemma_entries_map_at(ne, j);
                assert(ne[j] == old_e[idx[j]]);
                lemma_entries_map_at(old_e, idx[j]);
            }
            assert(m_new =~= m_old.remove(k@));
        }
        *self = HeaderMap { entries: e };
    }

    /// Whether the map holds no entry.
    pub fn is_empty(&self) -> (r: bool)
        ensures
            r == (self@ =~= Map::<Seq<char>, Seq<char>>::empty()),
    {
        proof { use_type_invariant(self); }
        if self.entries.len() == 0 {
            assert(self@ =~= Map::<Seq<char>, Seq<char>>::empty());
            true
        } else {
            proof { lemma_entries_map_at(self.entries@, 0); }
            false
        }
    }

    /// The entries in their order: insertion order, an existing key keeping
    /// its place when its value is replaced.
    pub closed spec fn entry_seq(&self) -> Seq<(Seq<char>, Seq<char>)> {
        self.entries@.map_values(|e: (String, String)| (e.0@, e.1@))
    }

    /// The entries as owned pairs, each key once.
    pub fn pairs(&self) -> (r: Vec<(String, String)>)
        ensures
            distinct_keys(r@),
            entries_map(r@) == self@,
            r@.map_values(|e: (String, String)| (e.0@, e.1@)) == self.entry_seq(),
    {
        proof { use_type_invariant(self); }
        let mut e: Vec<(String, String)> = Vec::new();
        let mut i: usize = 0;
        while i < self.entries.len()
            invariant
                distinct_keys(self.entries@),
                i <= self.entries@.len(),
                e@.len() == i,
                forall|j: int| 0 <= j < i ==> #[trigger] e@[j].0@ == self.entries@[j].0@,
                forall|j: int| 0 <= j < i ==> #[trigger] e@[j].1@ == self.entries@[j].1@,
            decreases self.entries@.len() - i,
        {
            let a = self.entries[i].0.clone();
            let b = self.entries[i].1.clone();
            e.push((a, b));
            assert(e@[i as int].0@ == self.entries@[i as int].0@);
            i = i + 1;
        }
        proof {
            assert forall|a: int, b: int| 0 <= a < e@.len() && 0 <= b < e@.len() && a != b implies e@[a].0@ != e@[b].0@ by {
                assert(e@[a].0@ == self.entries@[a].0@);
                assert(e@[b].0@ == self.entries@[b].0@);
            }
            assert forall|kk: Seq<char>| #[trigger] entries_map(e@).contains_key(kk) == self@.contains_key(kk) by {
                if entries_map(e@).contains_key(kk) {
                    let j = choose|j: int| key_at(e@, kk, j);
                    assert(e@[j].0@ == self.entries@[j].0@);
                    assert(key_at(self.entries@, kk, j));
                }
                if self@.contains_key(kk) {
                    let j = choose|j: int| key_at(self.entries@, kk, j);
                    assert(e@[j].0@ == self.entries@[j].0@);
                    assert(key_at(e@, kk, j));
                }
            }
            assert forall|kk: Seq<char>| entries_map(e@).contains_key(kk) implies #[trigger] entries_map(e@)[kk] == self@[kk] by {
                let j = choose|j: int| key_at(e@, kk, j);
                lemma_entries_map_at(e@, j);
                lemma_entries_map_at(self.entries@, j);
            }
            assert(entries_map(e@) =~= self@);
            assert(e@.map_values(|x: (String, String)| (x.0@, x.1@)) =~= self.entries@.map_values(|x: (String, String)| (x.0@, x.1@)));
        }
        e
    }

    /// A copy of this map.
    pub fn copy(&self) -> (r: Self)
        ensures
            r@ == self@,
    {
        let e = self.pairs();
        HeaderMap { entries: e }
    }
}

/// What `get` reads back after `insert` is what was written, and an insert
/// leaves every other key as it was.
pub proof fn law_get_after_insert(m: Map<Seq<char>, Seq<char>>, k: Seq<char>, v: Seq<char>, other: Seq<char>)
    requires
        other != k,
    ensures
        map_get(m.insert(k, v), k) == Some(v),
        map_get(m.insert(k, v), other) == map_get(m, other),
{
}

/// After `remove`, `get` finds nothing under the key, and the other keys
/// are untouched.
pub proof fn law_get_after_remove(m: Map<Seq<char>, Seq<char>>, k: Seq<char>, other: Seq<char>)
    requires
        other != k,
    ensures
        map_get(m.remove(k), k) is None,
        map_get(m.remove(k), other) == map_get(m, other),
{
}

/// No two entries of a list of pairs share a key.
pub open spec fn keys_distinct(es: Seq<(Seq<char>, Seq<char>)>) -> bool {
    forall|i: int, j: int| 0 <= i < es.len() && 0 <= j < es.len() && i != j ==> es[i].0 != es[j].0
}

/// A map's entries, each key once, are exactly its contents: a key is in
/// the map when some entry carries it, with that entry's value.
pub proof fn lemma_entry_seq_view(h: HeaderMap)
    requires
        keys_distinct(h.entry_seq()),
    ensures
        forall|k: Seq<char>| h@.contains_key(k) <==> exists|i: int| 0 <= i < h.entry_seq().len() && #[trigger] h.entry_seq()[i].0 == k,
        forall|i: int| 0 <= i < h.entry_seq().len() ==> h@.contains_key(#[trigger] h.entry_seq()[i].0) && h@[h.entry_seq()[i].0] == h.entry_seq()[i].1,
{
    let e = h.entries@;
    let es = h.entry_seq();
    assert(es.len() == e.len());
    assert forall|i: int| 0 <= i < e.len() implies #[trigger] es[i] == (e[i].0@, e[i].1@) by {}
    assert(distinct_keys(e)) by {
        assert forall|i: int, j: int| 0 <= i < e.len() && 0 <= j < e.len() && i != j implies e[i].0@ != e[j].0@ by {
            assert(es[i].0 != es[j].0);
        }
    }
    assert forall|i: int| 0 <= i < es.len() implies h@.contains_key(#[trigger] es[i].0) && h@[es[i].0] == es[i].1 by {
        lemma_entries_map_at(e, i);
    }
    assert forall|k: Seq<char>| h@.contains_key(k) <==> exists|i: int| 0 <= i < es.len() && #[trigger] es[i].0 == k by {
        if h@.contains_key(k) {
            let i = choose|i: int| key_at(e, k, i);
            assert(es[i].0 == k);
        }
        if exists|i: int| 0 <= i < es.len() && #[trigger] es[i].0 == k {
            let i = choose|i: int| 0 <= i < es.len() && #[trigger] es[i].0 == k;
            assert(key_at(e, k, i));
        }
    }
}

} // verus!
