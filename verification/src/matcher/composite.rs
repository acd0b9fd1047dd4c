//! Composite matcher: all sub-matchers must match (AND); parameters are
//! merged and scores summed.

use vstd::prelude::*;
use super::{AnyMatcher, IntoMatcher, MatchModel, MatcherResult, Matcher, any_spec_match, any_score_bound, match_model, no_match_model};
use crate::request::{RequestData, RequestModel};
use crate::strmap::{StrMap, map_insert_all};

verus! {

/// Combines matchers with AND logic.
#[derive(Debug, PartialEq)]
pub struct CompositeMatcher {
    /// The sub-matchers, evaluated in order.
    pub matchers: Vec<AnyMatcher>,
}

/// What a list of matchers gives together: no match as soon as one fails;
/// otherwise parameters merged in order (a later value replaces an earlier
/// one) and scores summed. An empty list matches with score 0.
pub open spec fn fold_spec(ms: Seq<AnyMatcher>, req: RequestModel) -> MatchModel
    decreases ms,
{
    if ms.len() == 0 {
        match_model(Seq::empty(), 0)
    } else {
        let prev = fold_spec(ms.drop_last(), req);
        let r = any_spec_match(ms.last(), req);
        if prev.matches && r.matches {
            match_model(map_insert_all(prev.path_params, r.path_params), prev.score + r.score)
        } else {
            no_match_model()
        }
    }
}

/// The sum of the score bounds of a list of matchers.
pub open spec fn bound_sum(ms: Seq<AnyMatcher>) -> int
    decreases ms,
{
    if ms.len() == 0 {
        0
    } else {
        bound_sum(ms.drop_last()) + any_score_bound(ms.last())
    }
}

/// Every matcher's score lies between 0 and its bound.
pub proof fn lemma_score_bounded(m: AnyMatcher, req: RequestModel)
    ensures
        0 <= any_score_bound(m),
        0 <= any_spec_match(m, req).score <= any_score_bound(m),
    decreases m,
{
    match m {
        AnyMatcher::Path(x) => {
            super::path::lemma_path_score_nonneg(x);
        },
        AnyMatcher::Composite(c) => {
            lemma_fold_bounded(c.matchers@, req);
        },
        _ => {},
    }
}

/// The score of a list of matchers lies between 0 and the sum of bounds.
pub proof fn lemma_fold_bounded(ms: Seq<AnyMatcher>, req: RequestModel)
    ensures
        0 <= bound_sum(ms),
        0 <= fold_spec(ms, req).score <= bound_sum(ms),
    decreases ms,
{
    if ms.len() > 0 {
        lemma_fold_bounded(ms.drop_last(), req);
        lemma_score_bounded(ms.last(), req);
    }
}

proof fn lemma_bound_prefix(ms: Seq<AnyMatcher>, i: int)
    requires
        0 <= i < ms.len(),
    ensures
        bound_sum(ms.subrange(0, i + 1)) == bound_sum(ms.subrange(0, i)) + any_score_bound(ms[i]),
{
    assert(ms.subrange(0, i + 1).drop_last() =~= ms.subrange(0, i));
}

proof fn lemma_bound_monotone(ms: Seq<AnyMatcher>, i: int)
    requires
        0 <= i <= ms.len(),
    ensures
        bound_sum(ms.subrange(0, i)) <= bound_sum(ms),
        forall|j: int| i <= j < ms.len() ==> any_score_bound(#[trigger] ms[j]) <= bound_sum(ms) - bound_sum(ms.subrange(0, i)),
    decreases ms.len() - i,
{
    if i < ms.len() {
        lemma_bound_prefix(ms, i);
        lemma_bound_monotone(ms, i + 1);
        lemma_score_bounded(ms[i], arbitrary());
        assert forall|j: int| i <= j < ms.len() implies any_score_bound(#[trigger] ms[j]) <= bound_sum(ms) - bound_sum(ms.subrange(0, i)) by {
            if j > i {
                lemma_score_bounded(ms[i], arbitrary());
            }
        }
    } else {
        assert(ms.subrange(0, i) =~= ms);
    }
}

/// A sum of score bounds is never negative.
pub proof fn lemma_bound_sum_nonneg(ms: Seq<AnyMatcher>)
    ensures
        bound_sum(ms) >= 0,
    decreases ms.len(),
{
    if ms.len() > 0 {
        lemma_bound_sum_nonneg(ms.drop_last());
        lemma_score_bounded(ms.last(), arbitrary());
    }
}

/// The bound sum of a prefix is at most that of the whole list.
pub proof fn lemma_bound_sum_prefix_le(ms: Seq<AnyMatcher>, i: int)
    requires
        0 <= i <= ms.len(),
    ensures
        bound_sum(ms.subrange(0, i)) <= bound_sum(ms),
{
    lemma_bound_monotone(ms, i);
}

impl CompositeMatcher {
    /// An empty composite: it always matches.
    pub fn new() -> (r: CompositeMatcher)
        ensures
            r.matchers@ == Seq::<AnyMatcher>::empty(),
    {
        CompositeMatcher { matchers: Vec::new() }
    }

    /// A composite of the given matchers.
    pub fn from_matchers(matchers: Vec<AnyMatcher>) -> (r: CompositeMatcher)
        ensures
            r.matchers@ == matchers@,
    {
        CompositeMatcher { matchers }
    }

    /// Adds a matcher at the end.
    pub fn add_matcher<M: IntoMatcher>(self, matcher: M) -> (r: CompositeMatcher)
        ensures
            r.matchers@ == self.matchers@.push(matcher.spec_into()),
    {
        let mut s = self;
        s.matchers.push(matcher.into_matcher());
        s
    }

    /// The number of sub-matchers.
    pub fn len(&self) -> (r: usize)
        ensures
            r == self.matchers@.len(),
    {
        self.matchers.len()
    }

    /// Whether there is no sub-matcher.
    pub fn is_empty(&self) -> (r: bool)
        ensures
            r == (self.matchers@.len() == 0),
    {
        self.matchers.len() == 0
    }

    /// Evaluates all sub-matchers in order.
    pub fn eval_all(&self, request: &RequestData) -> (r: MatcherResult)
        requires
            bound_sum(self.matchers@) <= u32::MAX,
        ensures
            r@ == fold_spec(self.matchers@, request@),
        decreases self,
    {
        let ghost ms = self.matchers@;
        if self.matchers.len() == 0 {
            return MatcherResult::match_with(StrMap::new(), 0);
        }
        let mut all_params = StrMap::new();
        let mut total: u32 = 0;
        let mut i: usize = 0;
        assert(ms.subrange(0, 0) =~= Seq::<AnyMatcher>::empty());
        while i < self.matchers.len()
            invariant
                ms == self.matchers@,
                bound_sum(ms) <= u32::MAX,
                i <= ms.len(),
                fold_spec(ms.subrange(0, i as int), request@) == match_model(all_params@, total as int),
                total <= bound_sum(ms.subrange(0, i as int)),
            decreases ms.len() - i,
        {
            proof {
                lemma_bound_monotone(ms, i as int);
                lemma_bound_prefix(ms, i as int);
                lemma_score_bounded(ms[i as int], request@);
            }
            assert(decreases_to!(*self => self.matchers));
            assert(decreases_to!(self.matchers => self.matchers@));
            assert(decreases_to!(self.matchers@ => self.matchers@[i as int]));
            let res = self.matchers[i].eval(request);
            assert(ms.subrange(0, i + 1).drop_last() =~= ms.subrange(0, i as int));
            assert(ms.subrange(0, i + 1).last() == ms[i as int]);
            if !res.matches {
                proof {
                    lemma_no_match_stays(ms, i as int + 1, request@);
                }
                return MatcherResult::no_match();
            }
            total = total + res.score;
            all_params.extend_from(&res.path_params);
            i = i + 1;
        }
        assert(ms.subrange(0, i as int) =~= ms);
        MatcherResult::match_with(all_params, total)
    }
}

/// Once a prefix fails, every longer prefix fails.
proof fn lemma_no_match_stays(ms: Seq<AnyMatcher>, i: int, req: RequestModel)
    requires
        0 < i <= ms.len(),
        !fold_spec(ms.subrange(0, i), req).matches,
    ensures
        !fold_spec(ms, req).matches,
    decreases ms.len() - i,
{
    if i < ms.len() {
        assert(ms.subrange(0, i + 1).drop_last() =~= ms.subrange(0, i));
        lemma_no_match_stays(ms, i + 1, req);
    } else {
        assert(ms.subrange(0, i) =~= ms);
    }
}

impl Default for CompositeMatcher {
    /// An empty composite.
    fn default() -> (r: CompositeMatcher)
        ensures
            r.matchers@ == Seq::<AnyMatcher>::empty(),
    {
        CompositeMatcher::new()
    }
}

impl Matcher for CompositeMatcher {
    open spec fn spec_match(&self, request: RequestModel) -> MatchModel {
        fold_spec(self.matchers@, request)
    }

    open spec fn score_bound(&self) -> int {
        bound_sum(self.matchers@)
    }

    open spec fn spec_name(&self) -> Seq<char> {
        "CompositeMatcher"@
    }

    fn match_request(&self, request: &RequestData) -> (r: MatcherResult) {
        self.eval_all(request)
    }

    fn name(&self) -> (r: &str) {
        "CompositeMatcher"
    }
}

} // verus!
