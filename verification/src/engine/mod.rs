//! The mock engine: compiled rules, tried in priority order; the first rule
//! whose matchers all match decides the request.

use vstd::prelude::*;
use crate::body::{BodyData, BodyModel};
use crate::decision::{Decision, DecisionModel, decision_metadata};
use crate::error::{EngineError, EErrModel};
use crate::forward::{ForwardPlan, PlanModel};
use crate::matcher::{AnyMatcher, Matcher, MatcherResult, any_spec_match, any_score_bound, any_spec_name};
use crate::metadata::{DecisionMetadata, MetadataModel, metadata_new};
use crate::pairs::{pairs_view, copy_pairs};
use crate::request::{ContextModel, MatchedRequestContext, RequestData, RequestModel};
use crate::response::{ResponseData, ResponseModel, response_new};
use crate::strmap::{MapModel, StrMap, map_insert_all};
use crate::text::{concat, decimal, fmt_u64, str_eq};
use crate::transform::{CompiledTransform, Transform, TransformModel, TErrModel, apply_request, apply_response, transform_error_message};

pub mod compile;



verus! {

/// The action of a compiled rule.
#[derive(Debug, PartialEq)]
pub enum CompiledAction {
    /// Return a locally defined mock response.
    Mock { response: ResponseData },
    /// Forward the request to an upstream service.
    Forward { upstream: String },
}

/// Model of a rule's action.
pub enum ActionModel {
    Mock { response: ResponseModel },
    Forward { upstream: Seq<char> },
}

impl View for CompiledAction {
    type V = ActionModel;

    open spec fn view(&self) -> ActionModel {
        match self {
            CompiledAction::Mock { response } => ActionModel::Mock { response: response@ },
            CompiledAction::Forward { upstream } => ActionModel::Forward { upstream: upstream@ },
        }
    }
}

/// A compiled route: its matchers, transforms and action.
#[derive(Debug, PartialEq)]
pub struct CompiledRule {
    /// The route ID.
    pub id: String,
    /// Priority: higher is tried first.
    pub priority: i32,
    /// Matchers that must all match (AND).
    pub matchers: Vec<AnyMatcher>,
    /// Transforms applied to the request before it is forwarded.
    pub request_transforms: Vec<CompiledTransform>,
    /// Transforms applied to the upstream response.
    pub response_transforms: Vec<CompiledTransform>,
    /// What to do when the rule matches.
    pub action: CompiledAction,
}

/// Model of a list of transforms.
pub open spec fn transforms_view(v: Seq<CompiledTransform>) -> Seq<TransformModel> {
    v.map_values(|t: CompiledTransform| t@)
}

/// Model of a compiled rule.
pub struct RuleModel {
    pub id: Seq<char>,
    pub priority: i32,
    pub matchers: Seq<AnyMatcher>,
    pub request_transforms: Seq<TransformModel>,
    pub response_transforms: Seq<TransformModel>,
    pub action: ActionModel,
}

impl View for CompiledRule {
    type V = RuleModel;

    open spec fn view(&self) -> RuleModel {
        RuleModel {
            id: self.id@,
            priority: self.priority,
            matchers: self.matchers@,
            request_transforms: transforms_view(self.request_transforms@),
            response_transforms: transforms_view(self.response_transforms@),
            action: self.action@,
        }
    }
}

/// Model of a list of rules.
pub open spec fn rules_view(v: Seq<CompiledRule>) -> Seq<RuleModel> {
    v.map_values(|r: CompiledRule| r@)
}

/// What to do when no rule matches.
#[derive(Debug, PartialEq)]
pub enum UnmatchedAction {
    /// Answer with a fixed response.
    Mock { status: u16, body: BodyData, headers: Vec<(String, String)>, delay_ms: u64 },
    /// Forward the request.
    Forward { upstream: String },
}

/// Model of the unmatched action.
pub enum UnmatchedModel {
    Mock { status: u16, body: BodyModel, headers: MapModel, delay_ms: u64 },
    Forward { upstream: Seq<char> },
}

impl View for UnmatchedAction {
    type V = UnmatchedModel;

    open spec fn view(&self) -> UnmatchedModel {
        match self {
            UnmatchedAction::Mock { status, body, headers, delay_ms } => UnmatchedModel::Mock {
                status: *status,
                body: body@,
                headers: pairs_view(headers@),
                delay_ms: *delay_ms,
            },
            UnmatchedAction::Forward { upstream } => UnmatchedModel::Forward { upstream: upstream@ },
        }
    }
}

/// The engine: rules sorted by priority (highest first, then declaration
/// order), defaults and the unmatched action.
#[derive(Debug, PartialEq)]
pub struct Engine {
    rules: Vec<CompiledRule>,
    upstream_timeout_ms: u64,
    max_body_bytes: usize,
    unmatched: Option<UnmatchedAction>,
}

/// Model of an engine.
pub struct EngineModel {
    pub rules: Seq<RuleModel>,
    pub upstream_timeout_ms: u64,
    pub max_body_bytes: usize,
    pub unmatched: Option<UnmatchedModel>,
}

impl View for Engine {
    type V = EngineModel;

    closed spec fn view(&self) -> EngineModel {
        EngineModel {
            rules: rules_view(self.rules@),
            upstream_timeout_ms: self.upstream_timeout_ms,
            max_body_bytes: self.max_body_bytes,
            unmatched: match self.unmatched {
                Some(u) => Some(u@),
                None => None,
            },
        }
    }
}

/// Every matcher of a rule can report its score in a `u32`.
pub open spec fn rule_scores_fit(r: RuleModel) -> bool {
    forall|j: int| 0 <= j < r.matchers.len() ==> any_score_bound(#[trigger] r.matchers[j]) <= u32::MAX
}

/// Every rule's scores fit in a `u32`.
pub open spec fn engine_scores_fit(rules: Seq<RuleModel>) -> bool {
    forall|i: int| 0 <= i < rules.len() ==> rule_scores_fit(#[trigger] rules[i])
}

/// Whether every matcher of `r` matches the request.
pub open spec fn rule_matches(r: RuleModel, req: RequestModel) -> bool {
    forall|j: int| 0 <= j < r.matchers.len() ==> (#[trigger] any_spec_match(r.matchers[j], req)).matches
}

/// The first rule at or after `i` that matches.
pub open spec fn first_match_from(rules: Seq<RuleModel>, req: RequestModel, i: int) -> Option<int>
    decreases rules.len() - i,
{
    if i < 0 || i >= rules.len() {
        None
    } else if rule_matches(rules[i], req) {
        Some(i)
    } else {
        first_match_from(rules, req, i + 1)
    }
}

/// The first rule that matches.
pub open spec fn first_match(rules: Seq<RuleModel>, req: RequestModel) -> Option<int> {
    first_match_from(rules, req, 0)
}

/// The parameters of matchers, merged in order (a later value replaces an
/// earlier one).
pub open spec fn params_fold(ms: Seq<AnyMatcher>, req: RequestModel) -> MapModel
    decreases ms.len(),
{
    if ms.len() == 0 {
        Seq::empty()
    } else {
        map_insert_all(params_fold(ms.drop_last(), req), any_spec_match(ms.last(), req).path_params)
    }
}

/// The description of a matcher's result: `"{name}: score={score}"`.
pub open spec fn matcher_description(m: AnyMatcher, req: RequestModel) -> Seq<char> {
    any_spec_name(m) + ": score="@ + decimal(any_spec_match(m, req).score as nat)
}

/// The descriptions of all matchers' results.
pub open spec fn matcher_descriptions(ms: Seq<AnyMatcher>, req: RequestModel) -> Seq<Seq<char>> {
    Seq::new(ms.len(), |j: int| matcher_description(ms[j], req))
}

/// The metadata of a matched rule.
pub open spec fn matched_metadata(r: RuleModel, req: RequestModel) -> MetadataModel {
    MetadataModel {
        route_id: Some(r.id),
        matcher_results: matcher_descriptions(r.matchers, req),
        transforms_applied: Seq::empty(),
        elapsed_us: 0,
    }
}

/// The decision of a matched rule.
pub open spec fn matched_decision(e: EngineModel, r: RuleModel, req: RequestModel) -> DecisionModel {
    let params = params_fold(r.matchers, req);
    match r.action {
        ActionModel::Mock { response } => DecisionModel::Mock {
            response: ResponseModel { path_params: params, ..response },
            metadata: matched_metadata(r, req),
        },
        ActionModel::Forward { upstream } => DecisionModel::Forward {
            plan: PlanModel {
                url: upstream,
                method: req.method,
                headers: req.headers,
                body: req.body,
                timeout_ms: Some(e.upstream_timeout_ms),
                context: ContextModel {
                    route_id: r.id,
                    path_params: params,
                    matched_rules: Seq::empty(),
                },
            },
            metadata: matched_metadata(r, req),
        },
    }
}

/// The decision when no rule matches. Like a matched decision, it records no
/// elapsed time, so that the same request always gets the same decision.
pub open spec fn unmatched_decision(e: EngineModel, req: RequestModel) -> DecisionModel {
    let md = metadata_new();
    match e.unmatched {
        Some(UnmatchedModel::Mock { status, body, headers, delay_ms }) => DecisionModel::Mock {
            response: ResponseModel {
                status,
                headers,
                body,
                delay_ms: Some(delay_ms),
                path_params: Seq::empty(),
            },
            metadata: md,
        },
        Some(UnmatchedModel::Forward { upstream }) => DecisionModel::Forward {
            plan: PlanModel {
                url: upstream,
                method: req.method,
                headers: req.headers,
                body: req.body,
                timeout_ms: Some(e.upstream_timeout_ms),
                context: ContextModel {
                    route_id: "__unmatched__"@,
                    path_params: Seq::empty(),
                    matched_rules: Seq::empty(),
                },
            },
            metadata: md,
        },
        None => DecisionModel::Reject {
            response: ResponseModel { body: BodyModel::Text("No route matched"@), ..response_new(404) },
            metadata: md,
        },
    }
}

/// The engine's decision for a request: the first matching rule's decision,
/// or the unmatched decision.
pub open spec fn decide_spec(e: EngineModel, req: RequestModel) -> DecisionModel {
    match first_match(e.rules, req) {
        Some(i) => matched_decision(e, e.rules[i], req),
        None => unmatched_decision(e, req),
    }
}

/// `d` is the engine's decision for the request.
pub open spec fn decide_outcome(e: EngineModel, req: RequestModel, d: DecisionModel) -> bool {
    d == decide_spec(e, req)
}

/// The first rule at or after `i` with the given ID.
pub open spec fn rule_index_from(rules: Seq<RuleModel>, id: Seq<char>, i: int) -> Option<int>
    decreases rules.len() - i,
{
    if i < 0 || i >= rules.len() {
        None
    } else if rules[i].id == id {
        Some(i)
    } else {
        rule_index_from(rules, id, i + 1)
    }
}

/// Applying request transforms in order; the first failure stops.
pub open spec fn apply_all_request(ts: Seq<TransformModel>, req: RequestModel) -> Result<RequestModel, TErrModel>
    decreases ts.len(),
{
    if ts.len() == 0 {
        Ok(req)
    } else {
        match apply_all_request(ts.drop_last(), req) {
            Ok(r) => apply_request(ts.last(), r),
            Err(e) => Err(e),
        }
    }
}

/// Applying response transforms in order; the first failure stops.
pub open spec fn apply_all_response(ts: Seq<TransformModel>, resp: ResponseModel) -> Result<ResponseModel, TErrModel>
    decreases ts.len(),
{
    if ts.len() == 0 {
        Ok(resp)
    } else {
        match apply_all_response(ts.drop_last(), resp) {
            Ok(r) => apply_response(ts.last(), r),
            Err(e) => Err(e),
        }
    }
}

/// The result of transforming a request for a matched route.
pub open spec fn transform_request_spec(e: EngineModel, req: RequestModel, ctx: ContextModel) -> Result<RequestModel, EErrModel> {
    match rule_index_from(e.rules, ctx.route_id, 0) {
        None => Err(EErrModel::MatchError("unknown route_id: "@ + ctx.route_id)),
        Some(i) => match apply_all_request(
            e.rules[i].request_transforms,
            RequestModel { path_params: ctx.path_params, ..req },
        ) {
            Ok(r) => Ok(r),
            Err(t) => Err(EErrModel::TransformError(transform_error_message(t))),
        },
    }
}

/// The result of transforming an upstream response for a matched route.
pub open spec fn transform_response_spec(e: EngineModel, resp: ResponseModel, ctx: ContextModel) -> Result<ResponseModel, EErrModel> {
    match rule_index_from(e.rules, ctx.route_id, 0) {
        None => Err(EErrModel::MatchError("unknown route_id: "@ + ctx.route_id)),
        Some(i) => match apply_all_response(
            e.rules[i].response_transforms,
            ResponseModel { path_params: ctx.path_params, ..resp },
        ) {
            Ok(r) => Ok(r),
            Err(t) => Err(EErrModel::TransformError(transform_error_message(t))),
        },
    }
}

/// `std::time::Instant`, carried opaquely.
#[verifier::external_type_specification]
#[verifier::external_body]
pub struct ExInstant(std::time::Instant);

/// The current instant (std `Instant::now`).
#[verifier::external_body]
pub(crate) fn clock_now() -> std::time::Instant {
    std::time::Instant::now()
}


impl Engine {
    #[verifier::type_invariant]
    spec fn scores_fit(self) -> bool {
        engine_scores_fit(rules_view(self.rules@))
    }

    /// Builds an engine from its parts; the rules are taken in the given
    /// order.
    pub(crate) fn from_parts(
        rules: Vec<CompiledRule>,
        upstream_timeout_ms: u64,
        max_body_bytes: usize,
        unmatched: Option<UnmatchedAction>,
    ) -> (r: Engine)
        requires
            engine_scores_fit(rules_view(rules@)),
        ensures
            r@ == (EngineModel {
                rules: rules_view(rules@),
                upstream_timeout_ms,
                max_body_bytes,
                unmatched: match unmatched {
                    Some(u) => Some(u@),
                    None => None,
                },
            }),
    {
        Engine { rules, upstream_timeout_ms, max_body_bytes, unmatched }
    }

    /// The number of rules.
    pub fn rule_count(&self) -> (r: usize)
        ensures
            r == self@.rules.len(),
    {
        self.rules.len()
    }

    /// The rules, in the order they are tried.
    pub fn rules(&self) -> (r: &Vec<CompiledRule>)
        ensures
            rules_view(r@) == self@.rules,
    {
        &self.rules
    }

    /// The timeout for upstream requests, in milliseconds.
    pub fn upstream_timeout_ms(&self) -> (r: u64)
        ensures
            r == self@.upstream_timeout_ms,
    {
        self.upstream_timeout_ms
    }

    /// The largest accepted body, in bytes.
    pub fn max_body_bytes(&self) -> (r: usize)
        ensures
            r == self@.max_body_bytes,
    {
        self.max_body_bytes
    }

    /// Tries one rule: its decision when all its matchers match.
    fn try_rule(&self, rule: &CompiledRule, request: &RequestData) -> (r: Option<Decision>)
        requires
            rule_scores_fit(rule@),
        ensures
            match r {
                Some(d) => rule_matches(rule@, request@) && d@ == matched_decision(self@, rule@, request@),
                None => !rule_matches(rule@, request@),
            },
    {
        let ghost ms = rule.matchers@;
        let mut all_params = StrMap::new();
        let mut results: Vec<String> = Vec::new();
        let mut i: usize = 0;
        while i < rule.matchers.len()
            invariant
                ms == rule.matchers@,
                rule_scores_fit(rule@),
                i <= ms.len(),
                forall|j: int| 0 <= j < i ==> (#[trigger] any_spec_match(ms[j], request@)).matches,
                all_params@ == params_fold(ms.subrange(0, i as int), request@),
                results@.len() == i,
                forall|j: int| 0 <= j < i ==> (#[trigger] results@[j])@ == matcher_description(ms[j], request@),
            decreases ms.len() - i,
        {
            assert(any_score_bound(ms[i as int]) <= u32::MAX);
            let m = &rule.matchers[i];
            let res = m.eval(request);
            if !res.matches {
                return None;
            }
            let d0 = concat(m.name(), ": score=");
            let sc = fmt_u64(res.score as u64);
            let d = concat(d0.as_str(), sc.as_str());
            results.push(d);
            all_params.extend_from(&res.path_params);
            assert(ms.subrange(0, i + 1).drop_last() =~= ms.subrange(0, i as int));
            i = i + 1;
        }
        assert(ms.subrange(0, i as int) =~= ms);
        let ghost params = all_params@;
        let mut metadata = DecisionMetadata::new();
        metadata.route_id = Some(rule.id.clone());
        metadata.matcher_results = results;
        assert(metadata@.matcher_results =~= matcher_descriptions(ms, request@));
        match &rule.action {
            CompiledAction::Mock { response } => {
                let mut response = response.duplicate();
                response.path_params = all_params;
                Some(Decision::Mock { response, metadata })
            },
            CompiledAction::Forward { upstream } => {
                let mut ctx = MatchedRequestContext::new(rule.id.as_str());
                ctx.path_params = all_params;
                let plan = ForwardPlan::new(upstream.as_str(), request.method.as_str())
                    .with_headers(copy_pairs(&request.headers))
                    .with_body(request.body.duplicate())
                    .with_context(ctx)
                    .with_timeout(self.upstream_timeout_ms);
                Some(Decision::Forward { plan, metadata })
            },
        }
    }

    /// The decision when no rule matched.
    fn handle_unmatched(&self, request: &RequestData) -> (r: Decision)
        ensures
            r@ == unmatched_decision(self@, request@),
    {
        let metadata = DecisionMetadata::new();
        match &self.unmatched {
            Some(UnmatchedAction::Mock { status, body, headers, delay_ms }) => {
                let response = ResponseData::new(*status).with_headers(copy_pairs(headers)).with_body(
                    body.duplicate(),
                ).with_delay(*delay_ms);
                Decision::Mock { response, metadata }
            },
            Some(UnmatchedAction::Forward { upstream }) => {
                proof {
                    reveal_strlit("__unmatched__");
                }
                let plan = ForwardPlan::new(upstream.as_str(), request.method.as_str())
                    .with_headers(copy_pairs(&request.headers))
                    .with_body(request.body.duplicate())
                    .with_context(MatchedRequestContext::new("__unmatched__"))
                    .with_timeout(self.upstream_timeout_ms);
                Decision::Forward { plan, metadata }
            },
            None => {
                let response = ResponseData::new(404).with_body(
                    BodyData::Text(String::from_str("No route matched")),
                );
                Decision::Reject { response, metadata }
            },
        }
    }

    /// Decides what to do with a request: the rules are tried in order and
    /// the first whose matchers all match decides; otherwise the unmatched
    /// action applies. The same request always gets the same decision.
    pub fn decide(&self, request: RequestData) -> (r: Result<Decision, EngineError>)
        ensures
            r is Ok,
            r matches Ok(d) && decide_outcome(self@, request@, d@),
    {
        proof {
            use_type_invariant(self);
        }
        let ghost rs = self@.rules;
        let mut i: usize = 0;
        while i < self.rules.len()
            invariant
                rs == self@.rules,
                rs == rules_view(self.rules@),
                engine_scores_fit(rs),
                i <= rs.len(),
                first_match(rs, request@) == first_match_from(rs, request@, i as int),
            decreases rs.len() - i,
        {
            assert(rs[i as int] == self.rules@[i as int]@);
            assert(rule_scores_fit(rs[i as int]));
            match self.try_rule(&self.rules[i], &request) {
                Some(d) => {
                    return Ok(d);
                },
                None => {},
            }
            i = i + 1;
        }
        Ok(self.handle_unmatched(&request))
    }

    /// The index of the first rule with the given ID.
    fn find_rule(&self, id: &str) -> (r: Option<usize>)
        ensures
            match r {
                Some(i) => rule_index_from(self@.rules, id@, 0) == Some(i as int) && i < self.rules@.len(),
                None => rule_index_from(self@.rules, id@, 0) is None,
            },
    {
        let ghost rs = self@.rules;
        let mut i: usize = 0;
        while i < self.rules.len()
            invariant
                rs == self@.rules,
                rs == rules_view(self.rules@),
                i <= rs.len(),
                rule_index_from(rs, id@, 0) == rule_index_from(rs, id@, i as int),
            decreases rs.len() - i,
        {
            if str_eq(self.rules[i].id.as_str(), id) {
                return Some(i);
            }
            i = i + 1;
        }
        None
    }

    /// Applies the matched route's request transforms, in order, to a request
    /// before it is forwarded; the route's path parameters are available to
    /// template values.
    pub fn transform_request(&self, request: RequestData, plan: &ForwardPlan) -> (r: Result<RequestData, EngineError>)
        ensures
            match r {
                Ok(x) => transform_request_spec(self@, request@, plan@.context) == Ok::<RequestModel, EErrModel>(x@),
                Err(e) => transform_request_spec(self@, request@, plan@.context) == Err::<RequestModel, EErrModel>(e@),
            },
    {
        let ghost orig = request@;
        let mut cur = request;
        cur.path_params = plan.context.path_params.duplicate();
        let idx = match self.find_rule(plan.context.route_id.as_str()) {
            Some(i) => i,
            None => {
                return Err(EngineError::MatchError(concat("unknown route_id: ", plan.context.route_id.as_str())));
            },
        };
        let rule = &self.rules[idx];
        let ghost ts = rule@.request_transforms;
        let ghost start = cur@;
        assert(ts == self@.rules[idx as int].request_transforms);
        let mut k: usize = 0;
        assert(ts.subrange(0, 0) =~= Seq::<TransformModel>::empty());
        while k < rule.request_transforms.len()
            invariant
                ts == transforms_view(rule.request_transforms@),
                orig == request@,
                rule_index_from(self@.rules, plan@.context.route_id, 0) == Some(idx as int),
                idx < self@.rules.len(),
                ts == self@.rules[idx as int].request_transforms,
                start == (RequestModel { path_params: plan@.context.path_params, ..orig }),
                k <= ts.len(),
                apply_all_request(ts.subrange(0, k as int), start) == Ok::<RequestModel, TErrModel>(cur@),
            decreases ts.len() - k,
        {
            assert(ts.subrange(0, k + 1).drop_last() =~= ts.subrange(0, k as int));
            assert(ts[k as int] == rule.request_transforms@[k as int]@);
            match rule.request_transforms[k].transform_request(cur) {
                Ok(x) => {
                    cur = x;
                },
                Err(e) => {
                    assert(apply_all_request(ts.subrange(0, k + 1), start) == Err::<RequestModel, TErrModel>(e@));
                    proof {
                        lemma_request_error_stays(ts, k as int + 1, start);
                    }
                    assert(apply_all_request(ts, start) == Err::<RequestModel, TErrModel>(e@));
                    assert(transform_request_spec(self@, orig, plan@.context) == Err::<RequestModel, EErrModel>(EErrModel::TransformError(transform_error_message(e@))));
                    return Err(EngineError::TransformError(e.message()));
                },
            }
            k = k + 1;
        }
        assert(ts.subrange(0, k as int) =~= ts);
        Ok(cur)
    }

    /// Applies the matched route's response transforms, in order, to an
    /// upstream response; the route's path parameters are available to
    /// template values.
    pub fn transform_upstream_response(&self, context: &MatchedRequestContext, response: ResponseData) -> (r: Result<ResponseData, EngineError>)
        ensures
            match r {
                Ok(x) => transform_response_spec(self@, response@, context@) == Ok::<ResponseModel, EErrModel>(x@),
                Err(e) => transform_response_spec(self@, response@, context@) == Err::<ResponseModel, EErrModel>(e@),
            },
    {
        let idx = match self.find_rule(context.route_id.as_str()) {
            Some(i) => i,
            None => {
                return Err(EngineError::MatchError(concat("unknown route_id: ", context.route_id.as_str())));
            },
        };
        let ghost orig = response@;
        let mut cur = response;
        cur.path_params = context.path_params.duplicate();
        let rule = &self.rules[idx];
        let ghost ts = rule@.response_transforms;
        let ghost start = cur@;
        assert(ts == self@.rules[idx as int].response_transforms);
        let mut k: usize = 0;
        assert(ts.subrange(0, 0) =~= Seq::<TransformModel>::empty());
        while k < rule.response_transforms.len()
            invariant
                ts == transforms_view(rule.response_transforms@),
                orig == response@,
                rule_index_from(self@.rules, context@.route_id, 0) == Some(idx as int),
                idx < self@.rules.len(),
                ts == self@.rules[idx as int].response_transforms,
                start == (ResponseModel { path_params: context@.path_params, ..orig }),
                k <= ts.len(),
                apply_all_response(ts.subrange(0, k as int), start) == Ok::<ResponseModel, TErrModel>(cur@),
            decreases ts.len() - k,
        {
            assert(ts.subrange(0, k + 1).drop_last() =~= ts.subrange(0, k as int));
            assert(ts[k as int] == rule.response_transforms@[k as int]@);
            match rule.response_transforms[k].transform_response(cur) {
                Ok(x) => {
                    cur = x;
                },
                Err(e) => {
                    proof {
                        lemma_response_error_stays(ts, k as int + 1, start);
                    }
                    return Err(EngineError::TransformError(e.message()));
                },
            }
            k = k + 1;
        }
        assert(ts.subrange(0, k as int) =~= ts);
        Ok(cur)
    }
}

/// Once a prefix of the request transforms fails, the whole list fails with
/// the same error.
proof fn lemma_request_error_stays(ts: Seq<TransformModel>, i: int, req: RequestModel)
    requires
        0 < i <= ts.len(),
        apply_all_request(ts.subrange(0, i), req) is Err,
    ensures
        apply_all_request(ts, req) == apply_all_request(ts.subrange(0, i), req),
    decreases ts.len() - i,
{
    if i < ts.len() {
        assert(ts.subrange(0, i + 1).drop_last() =~= ts.subrange(0, i));
        lemma_request_error_stays(ts, i + 1, req);
    } else {
        assert(ts.subrange(0, i) =~= ts);
    }
}

/// Once a prefix of the response transforms fails, the whole list fails with
/// the same error.
proof fn lemma_response_error_stays(ts: Seq<TransformModel>, i: int, resp: ResponseModel)
    requires
        0 < i <= ts.len(),
        apply_all_response(ts.subrange(0, i), resp) is Err,
    ensures
        apply_all_response(ts, resp) == apply_all_response(ts.subrange(0, i), resp),
    decreases ts.len() - i,
{
    if i < ts.len() {
        assert(ts.subrange(0, i + 1).drop_last() =~= ts.subrange(0, i));
        lemma_response_error_stays(ts, i + 1, resp);
    } else {
        assert(ts.subrange(0, i) =~= ts);
    }
}

/// Determinism: for the same engine and request, any two decisions are
/// equal.
pub proof fn law_decide_deterministic(e: EngineModel, req: RequestModel, d1: DecisionModel, d2: DecisionModel)
    requires
        decide_outcome(e, req, d1),
        decide_outcome(e, req, d2),
    ensures
        d1 == d2,
{
}

proof fn lemma_first_match_from(rules: Seq<RuleModel>, req: RequestModel, i: int)
    requires
        0 <= i,
    ensures
        match first_match_from(rules, req, i) {
            Some(k) => i <= k < rules.len() && rule_matches(rules[k], req) && forall|l: int|
                i <= l < k ==> !rule_matches(#[trigger] rules[l], req),
            None => forall|l: int| i <= l < rules.len() ==> !rule_matches(#[trigger] rules[l], req),
        },
    decreases rules.len() - i,
{
    if i < rules.len() && !rule_matches(rules[i], req) {
        lemma_first_match_from(rules, req, i + 1);
    }
}

/// First match wins: when rule `k` matches and no earlier rule does, the
/// decision is rule `k`'s; when no rule matches, the unmatched action
/// decides.
pub proof fn law_first_match_wins(e: EngineModel, req: RequestModel, d: DecisionModel, k: int)
    requires
        decide_outcome(e, req, d),
        0 <= k < e.rules.len(),
        rule_matches(e.rules[k], req),
        forall|l: int| 0 <= l < k ==> !rule_matches(#[trigger] e.rules[l], req),
    ensures
        d == matched_decision(e, e.rules[k], req),
        decision_metadata(d).route_id == Some(e.rules[k].id),
{
    lemma_first_match_from(e.rules, req, 0);
}

/// With no matching rule and no unmatched action, the request is rejected
/// with status 404 and the text "No route matched".
pub proof fn law_unmatched_default_reject(e: EngineModel, req: RequestModel, d: DecisionModel)
    requires
        decide_outcome(e, req, d),
        forall|l: int| 0 <= l < e.rules.len() ==> !rule_matches(#[trigger] e.rules[l], req),
        e.unmatched is None,
    ensures
        d matches DecisionModel::Reject { response, metadata } && response.status == 404
            && response.body == BodyModel::Text("No route matched"@) && metadata.route_id is None,
{
    lemma_first_match_from(e.rules, req, 0);
}

} // verus!
