//! Query matcher: exact key and value; an empty expected value only
//! requires the parameter to exist.

use vstd::prelude::*;
use super::{Matcher, MatcherResult, MatchModel, match_model, no_match_model};
use crate::request::{RequestData, RequestModel};
use crate::strmap::{StrMap, MapModel, map_lookup, map_insert_all};
use crate::pairs::{pairs_view, first_value};
use crate::text::str_eq;

verus! {

/// An expected parameter `e` is met when the first query parameter with its
/// key exists and, unless `e`'s value is empty, has the same value.
pub open spec fn query_entry_ok(q: MapModel, e: (Seq<char>, Seq<char>)) -> bool {
    match map_lookup(q, e.0) {
        None => false,
        Some(v) => e.1.len() == 0 || v == e.1,
    }
}

/// Matches URL query parameters.
#[derive(Debug, Clone, PartialEq)]
pub struct QueryMatcher {
    /// Expected parameters: key to value (empty value: existence only).
    pub query: StrMap,
}

/// A query matcher matches when every expected parameter is met; it scores
/// 10 per expected parameter and extracts no parameters.
pub open spec fn query_spec(m: QueryMatcher, req: RequestModel) -> MatchModel {
    if forall|i: int| 0 <= i < m.query@.len() ==> query_entry_ok(req.query, #[trigger] m.query@[i]) {
        match_model(Seq::empty(), 10 * (m.query@.len() as int))
    } else {
        no_match_model()
    }
}

impl QueryMatcher {
    /// A matcher for the given expected parameters.
    pub fn new(query: StrMap) -> (r: QueryMatcher)
        ensures
            r.query@ == query@,
    {
        QueryMatcher { query }
    }

    /// A matcher for the given (key, value) pairs; a later pair with the same
    /// key replaces the value.
    pub fn from_iter(pairs: Vec<(String, String)>) -> (r: QueryMatcher)
        ensures
            r.query@ == map_insert_all(Seq::empty(), pairs_view(pairs@)),
    {
        QueryMatcher { query: StrMap::from_pairs(pairs) }
    }
}

impl Matcher for QueryMatcher {
    open spec fn spec_match(&self, request: RequestModel) -> MatchModel {
        query_spec(*self, request)
    }

    open spec fn score_bound(&self) -> int {
        10 * (self.query@.len() as int)
    }

    open spec fn spec_name(&self) -> Seq<char> {
        "QueryMatcher"@
    }

    fn match_request(&self, request: &RequestData) -> (r: MatcherResult) {
        if self.query.is_empty() {
            return MatcherResult::match_with(StrMap::new(), 0);
        }
        let entries = self.query.entries();
        let ghost em = self.query@;
        let mut score: u32 = 0;
        let mut i: usize = 0;
        while i < entries.len()
            invariant
                entries@.map_values(|p: (String, String)| (p.0@, p.1@)) == em,
                em == self.query@,
                10 * em.len() <= u32::MAX,
                i <= entries.len(),
                score == 10 * i,
                forall|l: int| 0 <= l < i ==> query_entry_ok(request@.query, #[trigger] em[l]),
            decreases entries.len() - i,
        {
            let key = entries[i].0.as_str();
            let expected = entries[i].1.as_str();
            assert(em[i as int] == (key@, expected@));
            match first_value(&request.query, key) {
                Some(actual) => {
                    if expected.unicode_len() == 0 || str_eq(actual, expected) {
                        score = score + 10;
                    } else {
                        return MatcherResult::no_match();
                    }
                },
                None => {
                    return MatcherResult::no_match();
                },
            }
            i = i + 1;
        }
        MatcherResult::match_with(StrMap::new(), score)
    }

    fn name(&self) -> (r: &str) {
        "QueryMatcher"
    }
}

} // verus!
