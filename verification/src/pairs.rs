//! Ordered lists of string pairs (headers, query parameters): copying,
//! lookup by key and stable ordering by key.

use vstd::prelude::*;
use crate::strmap::{MapModel, key_index, map_lookup, map_insert, lemma_key_index, lemma_key_index_unique};

verus! {

/// Model of a list of string pairs.
pub open spec fn pairs_view(v: Seq<(String, String)>) -> MapModel {
    v.map_values(|p: (String, String)| (p.0@, p.1@))
}

/// Model of a list of strings.
pub open spec fn strings_view(v: Seq<String>) -> Seq<Seq<char>> {
    v.map_values(|s: String| s@)
}

/// A copy of a list of string pairs.
pub fn copy_pairs(v: &Vec<(String, String)>) -> (r: Vec<(String, String)>)
    ensures
        pairs_view(r@) == pairs_view(v@),
{
    let mut out: Vec<(String, String)> = Vec::new();
    let mut i: usize = 0;
    while i < v.len()
        invariant
            i <= v.len(),
            out@.len() == i,
            forall|j: int|
                0 <= j < i ==> (#[trigger] out@[j]).0@ == v@[j].0@ && out@[j].1@ == v@[j].1@,
        decreases v.len() - i,
    {
        let k = v[i].0.clone();
        let x = v[i].1.clone();
        out.push((k, x));
        i = i + 1;
    }
    assert(pairs_view(out@) =~= pairs_view(v@));
    out
}

/// A copy of a list of strings.
pub fn copy_strings(v: &Vec<String>) -> (r: Vec<String>)
    ensures
        strings_view(r@) == strings_view(v@),
{
    let mut out: Vec<String> = Vec::new();
    let mut i: usize = 0;
    while i < v.len()
        invariant
            i <= v.len(),
            out@.len() == i,
            forall|j: int| 0 <= j < i ==> (#[trigger] out@[j])@ == v@[j]@,
        decreases v.len() - i,
    {
        out.push(v[i].clone());
        i = i + 1;
    }
    assert(strings_view(out@) =~= strings_view(v@));
    out
}

/// The value of the first pair whose key is `key`.
pub fn first_value<'a>(v: &'a Vec<(String, String)>, key: &str) -> (r: Option<&'a str>)
    ensures
        match r {
            Some(x) => map_lookup(pairs_view(v@), key@) == Some(x@),
            None => map_lookup(pairs_view(v@), key@) is None,
        },
{
    let ghost m = pairs_view(v@);
    let mut i: usize = 0;
    while i < v.len()
        invariant
            m == pairs_view(v@),
            i <= v.len(),
            forall|l: int| 0 <= l < i ==> m[l].0 != key@,
        decreases v.len() - i,
    {
        if crate::text::str_eq(v[i].0.as_str(), key) {
            proof {
                lemma_key_index_unique(m, key@, i as int);
            }
            return Some(v[i].1.as_str());
        }
        i = i + 1;
    }
    proof {
        lemma_key_index(m, key@);
    }
    None
}

/// The index of the first pair whose key is `key`.
pub fn key_position(v: &Vec<(String, String)>, key: &str) -> (r: Option<usize>)
    ensures
        match r {
            Some(i) => key_index(pairs_view(v@), key@) == Some(i as int),
            None => key_index(pairs_view(v@), key@) is None,
        },
{
    let ghost m = pairs_view(v@);
    let mut i: usize = 0;
    while i < v.len()
        invariant
            m == pairs_view(v@),
            i <= v.len(),
            forall|l: int| 0 <= l < i ==> m[l].0 != key@,
        decreases v.len() - i,
    {
        if crate::text::str_eq(v[i].0.as_str(), key) {
            proof {
                lemma_key_index_unique(m, key@, i as int);
            }
            return Some(i);
        }
        i = i + 1;
    }
    proof {
        lemma_key_index(m, key@);
    }
    None
}

/// Sets the value of the first pair whose key is `key`, or appends the pair.
pub fn set_pair(v: &mut Vec<(String, String)>, key: String, value: String)
    ensures
        pairs_view(final(v)@) == map_insert(pairs_view(old(v)@), key@, value@),
{
    let ghost k = key@;
    let ghost x = value@;
    match key_position(v, key.as_str()) {
        Some(i) => {
            proof {
                lemma_key_index(pairs_view(v@), key@);
            }
            v.set(i, (key, value));
            assert(pairs_view(v@) =~= map_insert(pairs_view(old(v)@), k, x));
        },
        None => {
            v.push((key, value));
            assert(pairs_view(v@) =~= map_insert(pairs_view(old(v)@), k, x));
        },
    }
}

/// The pairs whose key is not `key`, in order.
pub open spec fn without_key(m: MapModel, key: Seq<char>) -> MapModel
    decreases m.len(),
{
    if m.len() == 0 {
        m
    } else {
        let prev = without_key(m.drop_last(), key);
        if m.last().0 != key {
            prev.push(m.last())
        } else {
            prev
        }
    }
}

/// Removes every pair whose key is `key`, keeping the order of the others.
pub fn remove_key(v: Vec<(String, String)>, key: &str) -> (r: Vec<(String, String)>)
    ensures
        pairs_view(r@) == without_key(pairs_view(v@), key@),
{
    let ghost m = pairs_view(v@);
    let mut out: Vec<(String, String)> = Vec::new();
    let mut i: usize = 0;
    assert(pairs_view(out@) =~= without_key(m.subrange(0, 0), key@));
    while i < v.len()
        invariant
            m == pairs_view(v@),
            i <= v.len(),
            pairs_view(out@) == without_key(m.subrange(0, i as int), key@),
        decreases v.len() - i,
    {
        assert(m.subrange(0, i + 1).drop_last() =~= m.subrange(0, i as int));
        let ghost before = pairs_view(out@);
        if !crate::text::str_eq(v[i].0.as_str(), key) {
            let k = v[i].0.clone();
            let x = v[i].1.clone();
            out.push((k, x));
            assert(pairs_view(out@) =~= before.push(m[i as int]));
        }
        i = i + 1;
    }
    assert(m.subrange(0, i as int) =~= m);
    out
}

/// Strict lexicographic order of character sequences (code-point order,
/// the order of std `String`'s comparison).
pub open spec fn seq_lt(a: Seq<char>, b: Seq<char>) -> bool
    decreases a.len(),
{
    if b.len() == 0 {
        false
    } else if a.len() == 0 {
        true
    } else if a[0] != b[0] {
        (a[0] as u32) < (b[0] as u32)
    } else {
        seq_lt(a.drop_first(), b.drop_first())
    }
}

/// Inserts `p` into `s` after every element whose key is not greater than
/// `p`'s key (scanning from the end).
pub open spec fn insert_sorted(s: MapModel, p: (Seq<char>, Seq<char>)) -> MapModel
    decreases s.len(),
{
    if s.len() == 0 {
        seq![p]
    } else if seq_lt(p.0, s.last().0) {
        insert_sorted(s.drop_last(), p).push(s.last())
    } else {
        s.push(p)
    }
}

/// Stable sort by key (insertion of each element in order).
pub open spec fn sort_by_key_spec(s: MapModel) -> MapModel
    decreases s.len(),
{
    if s.len() == 0 {
        s
    } else {
        insert_sorted(sort_by_key_spec(s.drop_last()), s.last())
    }
}

/// Whether `a` is strictly before `b` in code-point lexicographic order.
pub fn str_lt(a: &str, b: &str) -> (r: bool)
    ensures
        r == seq_lt(a@, b@),
{
    let x = crate::text::chars_of(a);
    let y = crate::text::chars_of(b);
    let mut i: usize = 0;
    assert(a@.skip(0) =~= a@);
    assert(b@.skip(0) =~= b@);
    while i < x.len() && i < y.len() && x[i] == y[i]
        invariant
            x@ == a@,
            y@ == b@,
            i <= x.len(),
            i <= y.len(),
            seq_lt(a@, b@) == seq_lt(a@.skip(i as int), b@.skip(i as int)),
        decreases x.len() - i,
    {
        assert(a@.skip(i as int).drop_first() =~= a@.skip(i + 1));
        assert(b@.skip(i as int).drop_first() =~= b@.skip(i + 1));
        i = i + 1;
    }
    let ghost sa = a@.skip(i as int);
    let ghost sb = b@.skip(i as int);
    if i == y.len() {
        assert(sb.len() == 0);
        false
    } else if i == x.len() {
        assert(sa.len() == 0 && sb.len() > 0);
        true
    } else {
        assert(sa[0] == x@[i as int] && sb[0] == y@[i as int]);
        (x[i] as u32) < (y[i] as u32)
    }
}

proof fn lemma_insert_at(s: MapModel, p: (Seq<char>, Seq<char>), j: int)
    requires
        0 <= j <= s.len(),
        forall|k: int| j <= k < s.len() ==> seq_lt(p.0, #[trigger] s[k].0),
        j == 0 || !seq_lt(p.0, s[j - 1].0),
    ensures
        insert_sorted(s, p) == s.insert(j, p),
    decreases s.len(),
{
    if s.len() == 0 {
        assert(s.insert(j, p) =~= seq![p]);
    } else if j == s.len() {
        assert(s.insert(j, p) =~= s.push(p));
    } else {
        assert(seq_lt(p.0, s.last().0));
        lemma_insert_at(s.drop_last(), p, j);
        assert(s.drop_last().insert(j, p).push(s.last()) =~= s.insert(j, p));
    }
}

/// The pairs stably sorted by key in code-point order.
pub fn sort_pairs_by_key(v: Vec<(String, String)>) -> (r: Vec<(String, String)>)
    ensures
        pairs_view(r@) == sort_by_key_spec(pairs_view(v@)),
{
    let ghost pv = pairs_view(v@);
    let mut out: Vec<(String, String)> = Vec::new();
    let mut taken: usize = 0;
    assert(pairs_view(out@) =~= sort_by_key_spec(pv.subrange(0, 0)));
    while taken < v.len()
        invariant
            taken <= v.len(),
            pv == pairs_view(v@),
            pairs_view(out@) == sort_by_key_spec(pv.subrange(0, taken as int)),
        decreases v.len() - taken,
    {
        let p = (v[taken].0.clone(), v[taken].1.clone());
        let ghost pp = (p.0@, p.1@);
        assert(pp == pv[taken as int]);
        let mut j = out.len();
        while j > 0 && str_lt(p.0.as_str(), out[j - 1].0.as_str())
            invariant
                j <= out.len(),
                forall|k: int| j <= k < out@.len() ==> seq_lt(pp.0, #[trigger] out@[k].0@),
                pp == (p.0@, p.1@),
            decreases j,
        {
            j = j - 1;
        }
        let ghost before = pairs_view(out@);
        proof {
            assert forall|k: int| j <= k < before.len() implies seq_lt(
                pp.0,
                #[trigger] before[k].0,
            ) by {
                assert(before[k].0 == out@[k].0@);
            }
            if j > 0 {
                assert(before[j - 1].0 == out@[j - 1].0@);
            }
            lemma_insert_at(before, pp, j as int);
        }
        out.insert(j, p);
        assert(pairs_view(out@) =~= before.insert(j as int, pp));
        assert(pv.subrange(0, taken + 1).drop_last() =~= pv.subrange(0, taken as int));
        taken = taken + 1;
    }
    assert(pv.subrange(0, taken as int) =~= pv);
    out
}

} // verus!
