//! Header matcher: keys compared ignoring ASCII case; an empty expected
//! value only requires the header to exist.

use vstd::prelude::*;
use super::{Matcher, MatcherResult, MatchModel, match_model, no_match_model};
use crate::request::{RequestData, RequestModel};
use crate::strmap::{StrMap, MapModel, map_insert_all};
use crate::pairs::pairs_view;
use crate::text::{eq_ignore_ascii_case, eq_ignore_ascii_case_spec};

verus! {

/// The first request header at or after `i` whose key equals `key` ignoring
/// ASCII case.
pub open spec fn ci_key_index_from(hs: MapModel, key: Seq<char>, i: int) -> Option<int>
    decreases hs.len() - i,
{
    if i < 0 || i >= hs.len() {
        None
    } else if eq_ignore_ascii_case_spec(hs[i].0, key) {
        Some(i)
    } else {
        ci_key_index_from(hs, key, i + 1)
    }
}

pub proof fn lemma_ci_key_index_range(hs: MapModel, key: Seq<char>, i: int)
    ensures
        ci_key_index_from(hs, key, i) matches Some(j) ==> i <= j < hs.len() && eq_ignore_ascii_case_spec(hs[j].0, key),
    decreases hs.len() - i,
{
    if 0 <= i < hs.len() && !eq_ignore_ascii_case_spec(hs[i].0, key) {
        lemma_ci_key_index_range(hs, key, i + 1);
    }
}

/// An expected header `e` is met when the first request header with its key
/// (ignoring ASCII case) exists and, unless `e`'s value is empty, has the
/// same value ignoring ASCII case.
pub open spec fn header_entry_ok(hs: MapModel, e: (Seq<char>, Seq<char>)) -> bool {
    match ci_key_index_from(hs, e.0, 0) {
        None => false,
        Some(j) => e.1.len() == 0 || eq_ignore_ascii_case_spec(hs[j].1, e.1),
    }
}

/// Matches HTTP request headers.
#[derive(Debug, Clone, PartialEq)]
pub struct HeaderMatcher {
    /// Expected headers: key to value (empty value: existence only).
    pub headers: StrMap,
}

/// A header matcher matches when every expected header is met; it scores
/// 10 per expected header and extracts no parameters.
pub open spec fn header_spec(m: HeaderMatcher, req: RequestModel) -> MatchModel {
    if forall|i: int| 0 <= i < m.headers@.len() ==> header_entry_ok(req.headers, #[trigger] m.headers@[i]) {
        match_model(Seq::empty(), 10 * (m.headers@.len() as int))
    } else {
        no_match_model()
    }
}

impl HeaderMatcher {
    /// A matcher for the given expected headers.
    pub fn new(headers: StrMap) -> (r: HeaderMatcher)
        ensures
            r.headers@ == headers@,
    {
        HeaderMatcher { headers }
    }

    /// A matcher for the given (key, value) pairs; a later pair with the same
    /// key replaces the value.
    pub fn from_iter(pairs: Vec<(String, String)>) -> (r: HeaderMatcher)
        ensures
            r.headers@ == map_insert_all(Seq::empty(), pairs_view(pairs@)),
    {
        HeaderMatcher { headers: StrMap::from_pairs(pairs) }
    }
}

/// The first request header whose key equals `key` ignoring ASCII case.
fn find_header_ci(headers: &Vec<(String, String)>, key: &str) -> (r: Option<usize>)
    ensures
        match r {
            Some(j) => ci_key_index_from(pairs_view(headers@), key@, 0) == Some(j as int),
            None => ci_key_index_from(pairs_view(headers@), key@, 0) is None,
        },
{
    let ghost hs = pairs_view(headers@);
    let mut i: usize = 0;
    while i < headers.len()
        invariant
            hs == pairs_view(headers@),
            i <= headers.len(),
            ci_key_index_from(hs, key@, 0) == ci_key_index_from(hs, key@, i as int),
        decreases headers.len() - i,
    {
        if eq_ignore_ascii_case(headers[i].0.as_str(), key) {
            return Some(i);
        }
        i = i + 1;
    }
    None
}

impl Matcher for HeaderMatcher {
    open spec fn spec_match(&self, request: RequestModel) -> MatchModel {
        header_spec(*self, request)
    }

    open spec fn score_bound(&self) -> int {
        10 * (self.headers@.len() as int)
    }

    open spec fn spec_name(&self) -> Seq<char> {
        "HeaderMatcher"@
    }

    fn match_request(&self, request: &RequestData) -> (r: MatcherResult) {
        let entries = self.headers.entries();
        let ghost em = self.headers@;
        let mut score: u32 = 0;
        let mut i: usize = 0;
        while i < entries.len()
            invariant
                entries@.map_values(|p: (String, String)| (p.0@, p.1@)) == em,
                em == self.headers@,
                10 * em.len() <= u32::MAX,
                i <= entries.len(),
                score == 10 * i,
                forall|l: int| 0 <= l < i ==> header_entry_ok(request@.headers, #[trigger] em[l]),
            decreases entries.len() - i,
        {
            let key = entries[i].0.as_str();
            let expected = entries[i].1.as_str();
            assert(em[i as int] == (key@, expected@));
            match find_header_ci(&request.headers, key) {
                Some(j) => {
                    proof {
                        lemma_ci_key_index_range(pairs_view(request.headers@), key@, 0);
                    }
                    let actual = request.headers[j].1.as_str();
                    assert(request@.headers[j as int].1 == actual@);
                    if expected.unicode_len() == 0 || eq_ignore_ascii_case(actual, expected) {
                        score = score + 10;
                    } else {
                        assert(!header_entry_ok(request@.headers, em[i as int]));
                        return MatcherResult::no_match();
                    }
                },
                None => {
                    return MatcherResult::no_match();
                },
            }
            i = i + 1;
        }
        MatcherResult::match_with(StrMap::new(), score)
    }

    fn name(&self) -> (r: &str) {
        "HeaderMatcher"
    }
}

} // verus!
