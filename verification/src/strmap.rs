//! A small string-to-string map that keeps one entry per key, in insertion
//! order.

use vstd::prelude::*;

verus! {

/// Model of a `StrMap`: its entries in order.
pub type MapModel = Seq<(Seq<char>, Seq<char>)>;

/// The first index at or after `i` whose key is `k`.
pub open spec fn key_index_from(m: MapModel, k: Seq<char>, i: int) -> Option<int>
    decreases m.len() - i,
{
    if i < 0 || i >= m.len() {
        None
    } else if m[i].0 == k {
        Some(i)
    } else {
        key_index_from(m, k, i + 1)
    }
}

/// The index of the entry with key `k`, if any.
pub open spec fn key_index(m: MapModel, k: Seq<char>) -> Option<int> {
    key_index_from(m, k, 0)
}

/// The value stored under `k`, if any.
pub open spec fn map_lookup(m: MapModel, k: Seq<char>) -> Option<Seq<char>> {
    match key_index(m, k) {
        Some(i) => Some(m[i].1),
        None => None,
    }
}

/// Inserting `k -> v`: the value of an existing entry is replaced in place,
/// otherwise the entry is appended.
pub open spec fn map_insert(m: MapModel, k: Seq<char>, v: Seq<char>) -> MapModel {
    match key_index(m, k) {
        Some(i) => m.update(i, (k, v)),
        None => m.push((k, v)),
    }
}

/// Inserting all of `pairs` in order.
pub open spec fn map_insert_all(m: MapModel, pairs: MapModel) -> MapModel
    decreases pairs.len(),
{
    if pairs.len() == 0 {
        m
    } else {
        let p = pairs.last();
        map_insert(map_insert_all(m, pairs.drop_last()), p.0, p.1)
    }
}

pub proof fn lemma_key_index_from(m: MapModel, k: Seq<char>, i: int)
    requires
        0 <= i,
    ensures
        match key_index_from(m, k, i) {
            Some(j) => i <= j < m.len() && m[j].0 == k && forall|l: int|
                i <= l < j ==> m[l].0 != k,
            None => forall|l: int| i <= l < m.len() ==> m[l].0 != k,
        },
    decreases m.len() - i,
{
    if i < m.len() && m[i].0 != k {
        lemma_key_index_from(m, k, i + 1);
    }
}

pub proof fn lemma_key_index(m: MapModel, k: Seq<char>)
    ensures
        match key_index(m, k) {
            Some(j) => 0 <= j < m.len() && m[j].0 == k && forall|l: int| 0 <= l < j ==> m[l].0 != k,
            None => forall|l: int| 0 <= l < m.len() ==> m[l].0 != k,
        },
{
    lemma_key_index_from(m, k, 0);
}

pub proof fn lemma_key_index_unique(m: MapModel, k: Seq<char>, j: int)
    requires
        0 <= j < m.len(),
        m[j].0 == k,
        forall|l: int| 0 <= l < j ==> m[l].0 != k,
    ensures
        key_index(m, k) == Some(j),
{
    lemma_key_index(m, k);
}

/// A map from strings to strings with one entry per key.
#[derive(Debug, Clone, PartialEq, Eq)]
pub struct StrMap {
    entries: Vec<(String, String)>,
}

impl View for StrMap {
    type V = MapModel;

    closed spec fn view(&self) -> MapModel {
        self.entries@.map_values(|p: (String, String)| (p.0@, p.1@))
    }
}

impl StrMap {
    /// An empty map.
    pub fn new() -> (r: StrMap)
        ensures
            r@ == Seq::<(Seq<char>, Seq<char>)>::empty(),
    {
        let r = StrMap { entries: Vec::new() };
        assert(r@ =~= Seq::<(Seq<char>, Seq<char>)>::empty());
        r
    }

    /// The entries of the map, in order.
    pub fn entries(&self) -> (r: &Vec<(String, String)>)
        ensures
            r@.map_values(|p: (String, String)| (p.0@, p.1@)) == self@,
    {
        &self.entries
    }

    /// The number of entries.
    pub fn len(&self) -> (r: usize)
        ensures
            r == self@.len(),
    {
        self.entries.len()
    }

    /// Whether the map has no entry.
    pub fn is_empty(&self) -> (r: bool)
        ensures
            r == (self@.len() == 0),
    {
        self.entries.len() == 0
    }

    /// The index of the entry with the given key.
    fn position(&self, key: &str) -> (r: Option<usize>)
        ensures
            match r {
                Some(i) => key_index(self@, key@) == Some(i as int),
                None => key_index(self@, key@) is None,
            },
    {
        let mut i: usize = 0;
        while i < self.entries.len()
            invariant
                i <= self.entries.len(),
                forall|l: int| 0 <= l < i ==> self@[l].0 != key@,
            decreases self.entries.len() - i,
        {
            if crate::text::str_eq(self.entries[i].0.as_str(), key) {
                proof {
                    lemma_key_index_unique(self@, key@, i as int);
                }
                return Some(i);
            }
            i = i + 1;
        }
        proof {
            lemma_key_index(self@, key@);
        }
        None
    }

    /// The value stored under `key`.
    pub fn get(&self, key: &str) -> (r: Option<&String>)
        ensures
            match r {
                Some(v) => map_lookup(self@, key@) == Some(v@),
                None => map_lookup(self@, key@) is None,
            },
    {
        match self.position(key) {
            Some(i) => {
                proof {
                    lemma_key_index(self@, key@);
                }
                Some(&self.entries[i].1)
            },
            None => None,
        }
    }

    /// Whether an entry with `key` exists.
    pub fn contains_key(&self, key: &str) -> (r: bool)
        ensures
            r == (map_lookup(self@, key@) is Some),
    {
        self.position(key).is_some()
    }

    /// Stores `value` under `key`, replacing an existing value in place.
    pub fn insert(&mut self, key: String, value: String)
        ensures
            final(self)@ == map_insert(old(self)@, key@, value@),
    {
        match self.position(key.as_str()) {
            Some(i) => {
                proof {
                    lemma_key_index(self@, key@);
                }
                let ghost k = key@;
                let ghost v = value@;
                self.entries.set(i, (key, value));
                assert(self@ =~= map_insert(old(self)@, k, v));
            },
            None => {
                let ghost k = key@;
                let ghost v = value@;
                self.entries.push((key, value));
                assert(self@ =~= map_insert(old(self)@, k, v));
            },
        }
    }

    /// Inserts all entries of `other`, in its order.
    pub fn extend_from(&mut self, other: &StrMap)
        ensures
            final(self)@ == map_insert_all(old(self)@, other@),
    {
        let mut i: usize = 0;
        while i < other.entries.len()
            invariant
                i <= other@.len(),
                other@.len() == other.entries@.len(),
                self@ == map_insert_all(old(self)@, other@.subrange(0, i as int)),
            decreases other.entries.len() - i,
        {
            let k = other.entries[i].0.clone();
            let v = other.entries[i].1.clone();
            assert(other@.subrange(0, i + 1).drop_last() =~= other@.subrange(0, i as int));
            self.insert(k, v);
            i = i + 1;
        }
        assert(other@.subrange(0, i as int) =~= other@);
    }

    /// A map holding `pairs` inserted in order (later duplicates win).
    pub fn from_pairs(pairs: Vec<(String, String)>) -> (r: StrMap)
        ensures
            r@ == map_insert_all(
                Seq::<(Seq<char>, Seq<char>)>::empty(),
                pairs@.map_values(|p: (String, String)| (p.0@, p.1@)),
            ),
    {
        let ghost pm = pairs@.map_values(|p: (String, String)| (p.0@, p.1@));
        let mut r = StrMap::new();
        let mut i: usize = 0;
        while i < pairs.len()
            invariant
                i <= pairs.len(),
                pm == pairs@.map_values(|p: (String, String)| (p.0@, p.1@)),
                r@ == map_insert_all(Seq::<(Seq<char>, Seq<char>)>::empty(), pm.subrange(0, i as int)),
            decreases pairs.len() - i,
        {
            let k = pairs[i].0.clone();
            let v = pairs[i].1.clone();
            assert(pm.subrange(0, i + 1).drop_last() =~= pm.subrange(0, i as int));
            r.insert(k, v);
            i = i + 1;
        }
        assert(pm.subrange(0, i as int) =~= pm);
        r
    }

    /// A copy of the map.
    pub fn duplicate(&self) -> (r: StrMap)
        ensures
            r@ == self@,
    {
        let mut v: Vec<(String, String)> = Vec::new();
        let mut i: usize = 0;
        while i < self.entries.len()
            invariant
                i <= self.entries.len(),
                v@.len() == i,
                forall|j: int|
                    0 <= j < i ==> (#[trigger] v@[j]).0@ == self.entries@[j].0@ && v@[j].1@
                        == self.entries@[j].1@,
            decreases self.entries.len() - i,
        {
            let k = self.entries[i].0.clone();
            let x = self.entries[i].1.clone();
            v.push((k, x));
            i = i + 1;
        }
        let r = StrMap { entries: v };
        assert(r@ =~= self@);
        r
    }
}

/// After inserting `k -> v`, looking up `k` gives `v`, and every other key
/// keeps its value.
pub proof fn law_lookup_after_insert(m: MapModel, k: Seq<char>, v: Seq<char>, other: Seq<char>)
    ensures
        map_lookup(map_insert(m, k, v), k) == Some(v),
        other != k ==> map_lookup(map_insert(m, k, v), other) == map_lookup(m, other),
{
    lemma_key_index(m, k);
    lemma_key_index(m, other);
    let m2 = map_insert(m, k, v);
    lemma_key_index(m2, k);
    lemma_key_index(m2, other);
    match key_index(m, k) {
        Some(i) => {
            assert(m2[i].0 == k);
            if key_index(m2, k) != Some(i) {
                let j = key_index(m2, k)->Some_0;
                assert(j < i);
                assert(m2[j] == m[j]);
            }
            match key_index(m, other) {
                Some(io) => {
                    if other != k {
                        assert(m2[io] == m[io]);
                        assert(key_index(m2, other) == Some(io));
                    }
                },
                None => {
                    if other != k {
                        assert forall|l: int| 0 <= l < m2.len() implies m2[l].0 != other by {
                            if l != i {
                                assert(m2[l] == m[l]);
                            }
                        }
                    }
                },
            }
        },
        None => {
            assert(m2[m.len() as int].0 == k);
            assert(forall|l: int| 0 <= l < m.len() ==> m2[l] == m[l]);
            assert(key_index(m2, k) == Some(m.len() as int));
        },
    }
}

} // verus!
