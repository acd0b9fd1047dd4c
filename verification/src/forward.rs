//! Plans for forwarding a request upstream.

use vstd::prelude::*;
use crate::body::{BodyData, BodyModel};
use crate::pairs::{pairs_view, copy_pairs};
use crate::request::{MatchedRequestContext, ContextModel};
use crate::strmap::MapModel;

verus! {

/// Plan for forwarding a request to an upstream service.
#[derive(Debug, PartialEq)]
pub struct ForwardPlan {
    /// The full URL to forward to.
    pub url: String,
    /// HTTP method of the upstream request.
    pub method: String,
    /// Headers sent upstream.
    pub headers: Vec<(String, String)>,
    /// Body sent upstream.
    pub body: BodyData,
    /// Timeout of the upstream request in milliseconds.
    pub timeout_ms: Option<u64>,
    /// Context from route matching.
    pub context: MatchedRequestContext,
}

/// Model of a forward plan.
pub struct PlanModel {
    pub url: Seq<char>,
    pub method: Seq<char>,
    pub headers: MapModel,
    pub body: BodyModel,
    pub timeout_ms: Option<u64>,
    pub context: ContextModel,
}

impl View for ForwardPlan {
    type V = PlanModel;

    open spec fn view(&self) -> PlanModel {
        PlanModel {
            url: self.url@,
            method: self.method@,
            headers: pairs_view(self.headers@),
            body: self.body@,
            timeout_ms: self.timeout_ms,
            context: self.context@,
        }
    }
}

/// The model of `ForwardPlan::new(url, method)`.
pub open spec fn plan_new(url: Seq<char>, method: Seq<char>) -> PlanModel {
    PlanModel {
        url,
        method,
        headers: Seq::empty(),
        body: BodyModel::Empty,
        timeout_ms: None,
        context: ContextModel {
            route_id: Seq::empty(),
            path_params: Seq::empty(),
            matched_rules: Seq::empty(),
        },
    }
}

impl ForwardPlan {
    /// A plan for `method` to `url` with nothing else.
    pub fn new(url: &str, method: &str) -> (r: ForwardPlan)
        ensures
            r@ == plan_new(url@, method@),
    {
        proof {
            reveal_strlit("");
        }
        let r = ForwardPlan {
            url: String::from_str(url),
            method: String::from_str(method),
            headers: Vec::new(),
            body: BodyData::Empty,
            timeout_ms: None,
            context: MatchedRequestContext::new(""),
        };
        assert(r@.headers =~= Seq::<(Seq<char>, Seq<char>)>::empty());
        assert(r@.context.route_id =~= Seq::<char>::empty());
        r
    }

    /// Sets the headers.
    pub fn with_headers(self, headers: Vec<(String, String)>) -> (r: ForwardPlan)
        ensures
            r@ == (PlanModel { headers: pairs_view(headers@), ..self@ }),
    {
        ForwardPlan { headers, ..self }
    }

    /// Sets the body.
    pub fn with_body(self, body: BodyData) -> (r: ForwardPlan)
        ensures
            r@ == (PlanModel { body: body@, ..self@ }),
    {
        ForwardPlan { body, ..self }
    }

    /// Sets the timeout in milliseconds.
    pub fn with_timeout(self, timeout_ms: u64) -> (r: ForwardPlan)
        ensures
            r@ == (PlanModel { timeout_ms: Some(timeout_ms), ..self@ }),
    {
        ForwardPlan { timeout_ms: Some(timeout_ms), ..self }
    }

    /// Sets the matched-route context.
    pub fn with_context(self, context: MatchedRequestContext) -> (r: ForwardPlan)
        ensures
            r@ == (PlanModel { context: context@, ..self@ }),
    {
        ForwardPlan { context, ..self }
    }

    /// A deep copy of the plan.
    pub fn duplicate(&self) -> (r: ForwardPlan)
        ensures
            r@ == self@,
    {
        ForwardPlan {
            url: self.url.clone(),
            method: self.method.clone(),
            headers: copy_pairs(&self.headers),
            body: self.body.duplicate(),
            timeout_ms: self.timeout_ms,
            context: self.context.duplicate(),
        }
    }
}

} // verus!
