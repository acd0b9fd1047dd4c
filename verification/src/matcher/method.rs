//! Method matcher: exact method (ignoring ASCII case) or `*` for any.

use vstd::prelude::*;
use super::{Matcher, MatcherResult, MatchModel, match_model, no_match_model};
use crate::request::{RequestData, RequestModel};
use crate::strmap::StrMap;
use crate::text::{eq_ignore_ascii_case, eq_ignore_ascii_case_spec, str_eq};

verus! {

/// Matches HTTP request methods.
#[derive(Debug, Clone, PartialEq)]
pub struct MethodMatcher {
    /// The expected method, or `*` for any method.
    pub method: String,
}

/// The score of a method matcher: 5 for the wildcard, 10 for an exact method.
pub open spec fn method_score(m: MethodMatcher) -> int {
    if m.method@ == "*"@ { 5 } else { 10 }
}

/// A method matcher matches when its method is `*` or equals the request's
/// method ignoring ASCII case; it never extracts parameters.
pub open spec fn method_spec(m: MethodMatcher, req: RequestModel) -> MatchModel {
    if m.method@ == "*"@ || eq_ignore_ascii_case_spec(req.method, m.method@) {
        match_model(Seq::empty(), method_score(m))
    } else {
        no_match_model()
    }
}

impl MethodMatcher {
    /// A matcher for `method` (`*` matches any method).
    pub fn new(method: &str) -> (r: MethodMatcher)
        ensures
            r.method@ == method@,
    {
        MethodMatcher { method: String::from_str(method) }
    }

    /// The expected method.
    pub fn method(&self) -> (r: &str)
        ensures
            r@ == self.method@,
    {
        self.method.as_str()
    }

    fn score(&self) -> (r: u32)
        ensures
            r == method_score(*self),
    {
        if str_eq(self.method.as_str(), "*") {
            5
        } else {
            10
        }
    }
}

impl Matcher for MethodMatcher {
    open spec fn spec_match(&self, request: RequestModel) -> MatchModel {
        method_spec(*self, request)
    }

    open spec fn score_bound(&self) -> int {
        10
    }

    open spec fn spec_name(&self) -> Seq<char> {
        "MethodMatcher"@
    }

    fn match_request(&self, request: &RequestData) -> (r: MatcherResult) {
        if str_eq(self.method.as_str(), "*") || eq_ignore_ascii_case(
            request.method.as_str(),
            self.method.as_str(),
        ) {
            MatcherResult::match_with(StrMap::new(), self.score())
        } else {
            MatcherResult::no_match()
        }
    }

    fn name(&self) -> (r: &str) {
        "MethodMatcher"
    }
}

} // verus!
