//! Matchers: decide whether a request meets a route's rule, extract path
//! parameters and score how specific the match is.

use vstd::prelude::*;
use crate::request::{RequestData, RequestModel};
use crate::strmap::{StrMap, MapModel};

pub mod composite;
pub mod header;
pub mod method;
pub mod path;
pub mod query;

pub use composite::CompositeMatcher;
pub use header::HeaderMatcher;
pub use method::MethodMatcher;
pub use path::PathMatcher;
pub use query::QueryMatcher;

verus! {

/// The result of evaluating a matcher.
#[derive(Debug, Clone, PartialEq)]
pub struct MatcherResult {
    /// Whether the request matched.
    pub matches: bool,
    /// Path parameters extracted from the request path.
    pub path_params: StrMap,
    /// Specificity score: higher is more specific.
    pub score: u32,
}

/// Model of a matcher result.
pub struct MatchModel {
    pub matches: bool,
    pub path_params: MapModel,
    pub score: int,
}

impl View for MatcherResult {
    type V = MatchModel;

    open spec fn view(&self) -> MatchModel {
        MatchModel { matches: self.matches, path_params: self.path_params@, score: self.score as int }
    }
}

/// The model of a failed match.
pub open spec fn no_match_model() -> MatchModel {
    MatchModel { matches: false, path_params: Seq::empty(), score: 0 }
}

/// The model of a successful match.
pub open spec fn match_model(params: MapModel, score: int) -> MatchModel {
    MatchModel { matches: true, path_params: params, score }
}

impl MatcherResult {
    /// A failed match, without parameters.
    pub fn no_match() -> (r: MatcherResult)
        ensures
            r@ == no_match_model(),
    {
        MatcherResult { matches: false, path_params: StrMap::new(), score: 0 }
    }

    /// A successful match with the given parameters and score.
    pub fn match_with(path_params: StrMap, score: u32) -> (r: MatcherResult)
        ensures
            r@ == match_model(path_params@, score as int),
    {
        MatcherResult { matches: true, path_params, score }
    }
}

/// A matcher of incoming requests.
pub trait Matcher {
    /// What `match_request` returns for a request.
    spec fn spec_match(&self, request: RequestModel) -> MatchModel;

    /// An upper bound of the score this matcher can give.
    spec fn score_bound(&self) -> int;

    /// The matcher's name.
    spec fn spec_name(&self) -> Seq<char>;

    /// Evaluates whether the request matches this matcher's rule.
    fn match_request(&self, request: &RequestData) -> (r: MatcherResult)
        requires
            self.score_bound() <= u32::MAX,
        ensures
            r@ == self.spec_match(request@),
    ;

    /// A human-readable name for diagnostics.
    fn name(&self) -> (r: &str)
        ensures
            r@ == self.spec_name(),
    ;
}

/// Any of the matchers of this library.
#[derive(Debug, PartialEq)]
pub enum AnyMatcher {
    Method(MethodMatcher),
    Path(PathMatcher),
    Header(HeaderMatcher),
    Query(QueryMatcher),
    Composite(CompositeMatcher),
}

/// What a matcher of any kind gives for a request.
pub open spec fn any_spec_match(m: AnyMatcher, req: RequestModel) -> MatchModel
    decreases m,
{
    match m {
        AnyMatcher::Method(x) => method::method_spec(x, req),
        AnyMatcher::Path(x) => path::path_spec(x, req),
        AnyMatcher::Header(x) => header::header_spec(x, req),
        AnyMatcher::Query(x) => query::query_spec(x, req),
        AnyMatcher::Composite(c) => composite::fold_spec(c.matchers@, req),
    }
}

/// An upper bound of the score of a matcher of any kind.
pub open spec fn any_score_bound(m: AnyMatcher) -> int
    decreases m,
{
    match m {
        AnyMatcher::Method(_) => 10,
        AnyMatcher::Path(x) => path::path_score_bound(x),
        AnyMatcher::Header(x) => 10 * (x.headers@.len() as int),
        AnyMatcher::Query(x) => 10 * (x.query@.len() as int),
        AnyMatcher::Composite(c) => composite::bound_sum(c.matchers@),
    }
}

/// The name of a matcher of any kind.
pub open spec fn any_spec_name(m: AnyMatcher) -> Seq<char> {
    match m {
        AnyMatcher::Method(_) => "MethodMatcher"@,
        AnyMatcher::Path(_) => "PathMatcher"@,
        AnyMatcher::Header(_) => "HeaderMatcher"@,
        AnyMatcher::Query(_) => "QueryMatcher"@,
        AnyMatcher::Composite(_) => "CompositeMatcher"@,
    }
}

impl AnyMatcher {
    /// Evaluates the matcher against a request.
    pub fn eval(&self, request: &RequestData) -> (r: MatcherResult)
        requires
            any_score_bound(*self) <= u32::MAX,
        ensures
            r@ == any_spec_match(*self, request@),
        decreases self,
    {
        match self {
            AnyMatcher::Method(x) => x.match_request(request),
            AnyMatcher::Path(x) => x.match_request(request),
            AnyMatcher::Header(x) => x.match_request(request),
            AnyMatcher::Query(x) => x.match_request(request),
            AnyMatcher::Composite(c) => c.eval_all(request),
        }
    }
}

impl AnyMatcher {
    /// The matcher's score bound when it fits in a `u32`.
    pub fn checked_score_bound(&self) -> (r: Option<u32>)
        ensures
            match r {
                Some(b) => b == any_score_bound(*self),
                None => any_score_bound(*self) > u32::MAX,
            },
        decreases self,
    {
        match self {
            AnyMatcher::Method(_) => Some(10),
            AnyMatcher::Path(x) => x.checked_score_bound(),
            AnyMatcher::Header(x) => {
                let n = x.headers.len();
                if n > 429496729 {
                    None
                } else {
                    Some(10 * (n as u32))
                }
            },
            AnyMatcher::Query(x) => {
                let n = x.query.len();
                if n > 429496729 {
                    None
                } else {
                    Some(10 * (n as u32))
                }
            },
            AnyMatcher::Composite(c) => {
                let ghost ms = c.matchers@;
                let mut total: u32 = 0;
                let mut i: usize = 0;
                while i < c.matchers.len()
                    invariant
                        ms == c.matchers@,
                        *self is Composite,
                        self->Composite_0 == *c,
                        i <= ms.len(),
                        total == composite::bound_sum(ms.subrange(0, i as int)),
                    decreases ms.len() - i,
                {
                    assert(decreases_to!(*self => self->Composite_0));
                    assert(decreases_to!(*c => c.matchers));
                    assert(decreases_to!(c.matchers => c.matchers@));
                    assert(decreases_to!(c.matchers@ => c.matchers@[i as int]));
                    assert(ms.subrange(0, i + 1).drop_last() =~= ms.subrange(0, i as int));
                    match c.matchers[i].checked_score_bound() {
                        Some(b) => {
                            if b > 4294967295u32 - total {
                                proof {
                                    composite::lemma_bound_sum_prefix_le(ms, i as int + 1);
                                }
                                return None;
                            }
                            total = total + b;
                        },
                        None => {
                            proof {
                                composite::lemma_bound_sum_prefix_le(ms, i as int + 1);
                                composite::lemma_bound_sum_nonneg(ms.subrange(0, i as int));
                            }
                            return None;
                        },
                    }
                    i = i + 1;
                }
                assert(ms.subrange(0, i as int) =~= ms);
                Some(total)
            },
        }
    }
}

impl Matcher for AnyMatcher {
    open spec fn spec_match(&self, request: RequestModel) -> MatchModel {
        any_spec_match(*self, request)
    }

    open spec fn score_bound(&self) -> int {
        any_score_bound(*self)
    }

    open spec fn spec_name(&self) -> Seq<char> {
        any_spec_name(*self)
    }

    fn match_request(&self, request: &RequestData) -> (r: MatcherResult) {
        self.eval(request)
    }

    fn name(&self) -> (r: &str) {
        match self {
            AnyMatcher::Method(x) => x.name(),
            AnyMatcher::Path(x) => x.name(),
            AnyMatcher::Header(x) => x.name(),
            AnyMatcher::Query(x) => x.name(),
            AnyMatcher::Composite(x) => x.name(),
        }
    }
}

/// Conversion of a concrete matcher into `AnyMatcher`.
pub trait IntoMatcher: Sized {
    /// The `AnyMatcher` this value becomes.
    spec fn spec_into(self) -> AnyMatcher;

    /// Wraps this matcher.
    fn into_matcher(self) -> (r: AnyMatcher)
        ensures
            r == self.spec_into(),
    ;
}

impl IntoMatcher for AnyMatcher {
    open spec fn spec_into(self) -> AnyMatcher {
        self
    }

    fn into_matcher(self) -> (r: AnyMatcher) {
        self
    }
}

impl IntoMatcher for MethodMatcher {
    open spec fn spec_into(self) -> AnyMatcher {
        AnyMatcher::Method(self)
    }

    fn into_matcher(self) -> (r: AnyMatcher) {
        AnyMatcher::Method(self)
    }
}

impl IntoMatcher for PathMatcher {
    open spec fn spec_into(self) -> AnyMatcher {
        AnyMatcher::Path(self)
    }

    fn into_matcher(self) -> (r: AnyMatcher) {
        AnyMatcher::Path(self)
    }
}

impl IntoMatcher for HeaderMatcher {
    open spec fn spec_into(self) -> AnyMatcher {
        AnyMatcher::Header(self)
    }

    fn into_matcher(self) -> (r: AnyMatcher) {
        AnyMatcher::Header(self)
    }
}

impl IntoMatcher for QueryMatcher {
    open spec fn spec_into(self) -> AnyMatcher {
        AnyMatcher::Query(self)
    }

    fn into_matcher(self) -> (r: AnyMatcher) {
        AnyMatcher::Query(self)
    }
}

impl IntoMatcher for CompositeMatcher {
    open spec fn spec_into(self) -> AnyMatcher {
        AnyMatcher::Composite(self)
    }

    fn into_matcher(self) -> (r: AnyMatcher) {
        AnyMatcher::Composite(self)
    }
}

} // verus!
