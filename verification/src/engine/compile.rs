//! Compiling a configuration (as a JSON value) into an engine.

use vstd::prelude::*;
use super::{Engine, EngineModel, CompiledRule, CompiledAction, RuleModel, ActionModel, UnmatchedAction, UnmatchedModel, rules_view, transforms_view, rule_scores_fit, engine_scores_fit};
use crate::body::{BodyData, BodyModel};
use crate::error::{EngineError, EErrModel};
use crate::json::{JsonValue, JsonModel, NumberModel, json_get, json_as_str, json_as_u64, json_as_i64, model_of, model_members, model_array, lemma_model_members_len, lemma_model_array_len, parse_json_text, spec_json_parse};
use crate::matcher::{AnyMatcher, CompositeMatcher, HeaderMatcher, MethodMatcher, PathMatcher, QueryMatcher, any_score_bound};
use crate::matcher::composite::bound_sum;
use crate::matcher::path::{segs_view, pattern_segments, path_parts, path_score};
use crate::pairs::{pairs_view, sort_by_key_spec, sort_pairs_by_key};
use crate::response::{ResponseData, ResponseModel};
use crate::strmap::{MapModel, StrMap, map_insert_all};
use crate::text::{concat, decimal, fmt_u64, spec_to_lowercase, str_eq, to_lowercase};
use crate::transform::{CompiledTransform, TransformModel, SetHeader, RemoveHeader, SetQuery, RemoveQuery, SetJsonPointer, RemoveJsonPointer, ReplaceBody, SetStatus};
use crate::transform::template::template_of;
use crate::validate::{validate_value, validate_value_spec};

verus! {

/// The member `key` of `v`, when it is a string.
pub open spec fn get_str(v: JsonModel, key: Seq<char>) -> Option<Seq<char>> {
    match json_get(v, key) {
        Some(x) => json_as_str(x),
        None => None,
    }
}

/// The member `key` of `v`, when it is a non-negative integer.
pub open spec fn get_u64(v: JsonModel, key: Seq<char>) -> Option<u64> {
    match json_get(v, key) {
        Some(x) => json_as_u64(x),
        None => None,
    }
}

/// The member `key` of `v`, when it is an integer fitting in `i64`.
pub open spec fn get_i64(v: JsonModel, key: Seq<char>) -> Option<i64> {
    match json_get(v, key) {
        Some(x) => json_as_i64(x),
        None => None,
    }
}

/// The member `key` of `v`, when it is present and not `null`.
pub open spec fn get_non_null(v: JsonModel, key: Seq<char>) -> Option<JsonModel> {
    match json_get(v, key) {
        Some(x) => if x is Null { None } else { Some(x) },
        None => None,
    }
}

/// The text of a string value; the empty text for other values.
pub open spec fn str_or_empty(v: JsonModel) -> Seq<char> {
    match v {
        JsonModel::String(s) => s,
        _ => Seq::empty(),
    }
}

/// A matcher as a configuration describes it.
pub enum MatcherSpec {
    Method(Seq<char>),
    Path(Seq<char>),
    Header(MapModel),
    Query(MapModel),
    Composite(Seq<MatcherSpec>),
}

/// `m` is the matcher that `d` describes.
pub open spec fn realizes(m: AnyMatcher, d: MatcherSpec) -> bool
    decreases m,
{
    match (m, d) {
        (AnyMatcher::Method(x), MatcherSpec::Method(s)) => x.method@ == s,
        (AnyMatcher::Path(x), MatcherSpec::Path(s)) => x.pattern@ == s && segs_view(x.segments@)
            == pattern_segments(path_parts(s)),
        (AnyMatcher::Header(x), MatcherSpec::Header(h)) => x.headers@ == h,
        (AnyMatcher::Query(x), MatcherSpec::Query(q)) => x.query@ == q,
        (AnyMatcher::Composite(c), MatcherSpec::Composite(ds)) => c.matchers@.len() == ds.len() && (
        forall|j: int| 0 <= j < ds.len() ==> realizes(#[trigger] c.matchers@[j], ds[j])),
        _ => false,
    }
}

/// The matchers `ms` are those that `ds` describe.
pub open spec fn all_realize(ms: Seq<AnyMatcher>, ds: Seq<MatcherSpec>) -> bool {
    ms.len() == ds.len() && forall|j: int| 0 <= j < ds.len() ==> realizes(#[trigger] ms[j], ds[j])
}

/// The score bound of the matcher a pattern describes.
pub open spec fn pattern_bound(s: Seq<char>) -> int {
    let sc = path_score(pattern_segments(path_parts(s)));
    if sc < 10 { 10 } else { sc }
}

/// The score bound of a described matcher.
pub open spec fn desc_bound(d: MatcherSpec) -> int
    decreases d,
{
    match d {
        MatcherSpec::Method(_) => 10,
        MatcherSpec::Path(s) => pattern_bound(s),
        MatcherSpec::Header(h) => 10 * (h.len() as int),
        MatcherSpec::Query(q) => 10 * (q.len() as int),
        MatcherSpec::Composite(ds) => desc_bound_sum(ds),
    }
}

/// The sum of the score bounds of described matchers.
pub open spec fn desc_bound_sum(ds: Seq<MatcherSpec>) -> int
    decreases ds,
{
    if ds.len() == 0 {
        0
    } else {
        desc_bound_sum(ds.drop_last()) + desc_bound(ds.last())
    }
}

/// Every described matcher's score bound fits in a `u32`.
pub open spec fn descs_fit(ds: Seq<MatcherSpec>) -> bool {
    forall|j: int| 0 <= j < ds.len() ==> desc_bound(#[trigger] ds[j]) <= u32::MAX
}

/// A matcher has the score bound of its description.
pub proof fn lemma_realizes_bound(m: AnyMatcher, d: MatcherSpec)
    requires
        realizes(m, d),
    ensures
        any_score_bound(m) == desc_bound(d),
    decreases m,
{
    match (m, d) {
        (AnyMatcher::Composite(c), MatcherSpec::Composite(ds)) => {
            lemma_realizes_bound_sum(c.matchers@, ds);
        },
        _ => {},
    }
}

proof fn lemma_realizes_bound_sum(ms: Seq<AnyMatcher>, ds: Seq<MatcherSpec>)
    requires
        all_realize(ms, ds),
    ensures
        bound_sum(ms) == desc_bound_sum(ds),
    decreases ms,
{
    if ms.len() > 0 {
        assert(all_realize(ms.drop_last(), ds.drop_last()));
        assert(realizes(ms.last(), ds.last()));
        lemma_realizes_bound_sum(ms.drop_last(), ds.drop_last());
        lemma_realizes_bound(ms.last(), ds.last());
    }
}

/// The index of the first member at or after `i` whose value is not a string.
pub open spec fn first_non_string_from(ms: Seq<(Seq<char>, JsonModel)>, i: int) -> Option<int>
    decreases ms.len() - i,
{
    if i < 0 || i >= ms.len() {
        None
    } else if !(ms[i].1 is String) {
        Some(i)
    } else {
        first_non_string_from(ms, i + 1)
    }
}

/// The members as (key, text) pairs, keys lower-cased when `lower`.
pub open spec fn member_texts(ms: Seq<(Seq<char>, JsonModel)>, lower: bool) -> MapModel {
    ms.map_values(
        |p: (Seq<char>, JsonModel)|
            (if lower { spec_to_lowercase(p.0) } else { p.0 }, str_or_empty(p.1)),
    )
}

/// The matchers the member `key` of a match rule adds: an object of string
/// values gives a header (keys lower-cased) or query matcher; an empty object
/// or any other value adds nothing.
pub open spec fn map_part(r: JsonModel, key: Seq<char>, header: bool) -> Result<Seq<MatcherSpec>, Seq<char>> {
    match json_get(r, key) {
        Some(JsonModel::Object(ms)) => if ms.len() == 0 {
            Ok(Seq::empty())
        } else {
            match first_non_string_from(ms, 0) {
                Some(i) => Err("match_rule."@ + key + "."@ + ms[i].0 + ": expected string"@),
                None => {
                    let m = map_insert_all(Seq::empty(), member_texts(ms, header));
                    Ok(seq![if header { MatcherSpec::Header(m) } else { MatcherSpec::Query(m) }])
                },
            }
        },
        _ => Ok(Seq::empty()),
    }
}

/// The matcher the member `key` (`method` or `path`) adds: a string gives a
/// matcher, `null` or absence nothing, anything else an error.
pub open spec fn str_part(r: JsonModel, key: Seq<char>, method: bool) -> Result<Seq<MatcherSpec>, Seq<char>> {
    match get_non_null(r, key) {
        None => Ok(Seq::empty()),
        Some(v) => match json_as_str(v) {
            Some(s) => Ok(seq![if method { MatcherSpec::Method(s) } else { MatcherSpec::Path(s) }]),
            None => Err("match_rule."@ + key + ": expected string"@),
        },
    }
}

/// Several matchers are combined into one composite; none gives an empty
/// composite, which matches everything.
pub open spec fn wrap_matchers(ds: Seq<MatcherSpec>) -> Seq<MatcherSpec> {
    if ds.len() == 1 {
        ds
    } else {
        seq![MatcherSpec::Composite(ds)]
    }
}

/// The matchers of a match rule: method, path, headers and query, in that
/// order; the first error wins.
pub open spec fn match_rule_spec(r: JsonModel) -> Result<Seq<MatcherSpec>, Seq<char>> {
    if !(r is Object) {
        Err("match_rule: must be an object"@)
    } else {
        match str_part(r, "method"@, true) {
            Err(e) => Err(e),
            Ok(a) => match str_part(r, "path"@, false) {
                Err(e) => Err(e),
                Ok(b) => match map_part(r, "headers"@, true) {
                    Err(e) => Err(e),
                    Ok(c) => match map_part(r, "query"@, false) {
                        Err(e) => Err(e),
                        Ok(d) => Ok(wrap_matchers(a + b + c + d)),
                    },
                },
            },
        }
    }
}

/// The member `key` of `v` when it is present and not `null`.
fn get_non_null_exec<'a>(v: &'a JsonValue, key: &str) -> (r: Option<&'a JsonValue>)
    ensures
        match r {
            Some(x) => get_non_null(v@, key@) == Some(x@),
            None => get_non_null(v@, key@) is None,
        },
{
    match v.get(key) {
        Some(x) => if x.is_null() {
            None
        } else {
            Some(x)
        },
        None => None,
    }
}

/// The method or path matcher of a match rule.
fn str_matcher(r: &JsonValue, key: &str, method: bool) -> (res: Result<Vec<AnyMatcher>, String>)
    ensures
        match str_part(r@, key@, method) {
            Ok(ds) => res matches Ok(v) && all_realize(v@, ds),
            Err(e) => res matches Err(x) && x@ == e,
        },
{
    match get_non_null_exec(r, key) {
        None => {
            let v: Vec<AnyMatcher> = Vec::new();
            assert(all_realize(v@, Seq::<MatcherSpec>::empty()));
            Ok(v)
        },
        Some(x) => match x.as_str() {
            Some(s) => {
                let m = if method {
                    AnyMatcher::Method(MethodMatcher::new(s))
                } else {
                    AnyMatcher::Path(PathMatcher::new(s))
                };
                let mut v: Vec<AnyMatcher> = Vec::new();
                v.push(m);
                let ghost d = if method { MatcherSpec::Method(s@) } else { MatcherSpec::Path(s@) };
                assert(realizes(v@[0], d));
                assert(all_realize(v@, seq![d]));
                Ok(v)
            },
            None => {
                let a = concat("match_rule.", key);
                Err(concat(a.as_str(), ": expected string"))
            },
        },
    }
}

/// The header or query matcher of a match rule.
fn map_matcher(r: &JsonValue, key: &str, header: bool) -> (res: Result<Vec<AnyMatcher>, String>)
    ensures
        match map_part(r@, key@, header) {
            Ok(ds) => res matches Ok(v) && all_realize(v@, ds),
            Err(e) => res matches Err(x) && x@ == e,
        },
{
    let empty: Vec<AnyMatcher> = Vec::new();
    assert(all_realize(empty@, Seq::<MatcherSpec>::empty()));
    let x = match r.get(key) {
        Some(x) => x,
        None => {
            return Ok(empty);
        },
    };
    let ms = match x.as_object() {
        Some(ms) => ms,
        None => {
            return Ok(empty);
        },
    };
    if ms.len() == 0 {
        proof {
            lemma_model_members_len(ms@);
        }
        return Ok(empty);
    }
    let ghost msm = model_members(ms@);
    let ghost texts = member_texts(msm, header);
    proof {
        lemma_model_members_len(ms@);
    }
    let mut m = StrMap::new();
    let mut i: usize = 0;
    assert(texts.subrange(0, 0) =~= Seq::<(Seq<char>, Seq<char>)>::empty());
    while i < ms.len()
        invariant
            msm == model_members(ms@),
            json_get(r@, key@) == Some(JsonModel::Object(msm)),
            msm.len() > 0,
            texts == member_texts(msm, header),
            msm.len() == ms@.len(),
            forall|j: int| 0 <= j < ms@.len() ==> #[trigger] msm[j] == (ms@[j].0@, model_of(ms@[j].1)),
            i <= ms.len(),
            first_non_string_from(msm, 0) == first_non_string_from(msm, i as int),
            m@ == map_insert_all(Seq::empty(), texts.subrange(0, i as int)),
        decreases ms.len() - i,
    {
        assert(msm[i as int] == (ms@[i as int].0@, model_of(ms@[i as int].1)));
        match ms[i].1.as_str() {
            None => {
                assert(first_non_string_from(msm, i as int) == Some(i as int));
                let a = concat("match_rule.", key);
                let b = concat(a.as_str(), ".");
                let c = concat(b.as_str(), ms[i].0.as_str());
                return Err(concat(c.as_str(), ": expected string"));
            },
            Some(v) => {
                let k = if header {
                    to_lowercase(ms[i].0.as_str())
                } else {
                    ms[i].0.clone()
                };
                assert(texts[i as int] == (k@, v@));
                assert(texts.subrange(0, i + 1).drop_last() =~= texts.subrange(0, i as int));
                m.insert(k, String::from_str(v));
            },
        }
        i = i + 1;
    }
    assert(texts.subrange(0, i as int) =~= texts);
    let ghost mm = m@;
    let am = if header {
        AnyMatcher::Header(HeaderMatcher::new(m))
    } else {
        AnyMatcher::Query(QueryMatcher::new(m))
    };
    let mut v: Vec<AnyMatcher> = Vec::new();
    v.push(am);
    let ghost d = if header { MatcherSpec::Header(mm) } else { MatcherSpec::Query(mm) };
    assert(realizes(v@[0], d));
    assert(all_realize(v@, seq![d]));
    Ok(v)
}

/// Appends the matchers of `b` to `a`.
fn append_matchers(a: &mut Vec<AnyMatcher>, b: Vec<AnyMatcher>, Ghost(da): Ghost<Seq<MatcherSpec>>, Ghost(db): Ghost<Seq<MatcherSpec>>)
    requires
        all_realize(old(a)@, da),
        all_realize(b@, db),
    ensures
        all_realize(final(a)@, da + db),
{
    let ghost bv = b@;
    let mut b = b;
    a.append(&mut b);
    assert(a@ == old(a)@ + bv);
    assert forall|j: int| 0 <= j < (da + db).len() implies realizes(#[trigger] a@[j], (da + db)[j]) by {
        if j < da.len() {
            assert(a@[j] == old(a)@[j]);
        } else {
            assert(a@[j] == bv[j - da.len()]);
        }
    }
}

/// The matchers of a match rule.
fn compile_match_rule(r: &JsonValue) -> (res: Result<Vec<AnyMatcher>, String>)
    ensures
        match match_rule_spec(r@) {
            Ok(ds) => res matches Ok(v) && all_realize(v@, ds),
            Err(e) => res matches Err(x) && x@ == e,
        },
{
    if r.as_object().is_none() {
        return Err(String::from_str("match_rule: must be an object"));
    }
    let a = str_matcher(r, "method", true)?;
    let b = str_matcher(r, "path", false)?;
    let c = map_matcher(r, "headers", true)?;
    let d = map_matcher(r, "query", false)?;
    let ghost da = str_part(r@, "method"@, true)->Ok_0;
    let ghost db = str_part(r@, "path"@, false)->Ok_0;
    let ghost dc = map_part(r@, "headers"@, true)->Ok_0;
    let ghost dd = map_part(r@, "query"@, false)->Ok_0;
    let mut all = a;
    append_matchers(&mut all, b, Ghost(da), Ghost(db));
    append_matchers(&mut all, c, Ghost(da + db), Ghost(dc));
    append_matchers(&mut all, d, Ghost(da + db + dc), Ghost(dd));
    let ghost ds = da + db + dc + dd;
    if all.len() == 1 {
        Ok(all)
    } else {
        let comp = AnyMatcher::Composite(CompositeMatcher::from_matchers(all));
        let mut v: Vec<AnyMatcher> = Vec::new();
        v.push(comp);
        assert(realizes(v@[0], MatcherSpec::Composite(ds)));
        assert(all_realize(v@, wrap_matchers(ds)));
        Ok(v)
    }
}

/// The body a `ReplaceBody` transform description gives: the `json` member
/// of its `body`, else its `text` member, else an empty body.
pub open spec fn replace_body_spec(b: Option<JsonModel>) -> BodyModel {
    match b {
        Some(v) => match json_get(v, "json"@) {
            Some(j) => BodyModel::Json(j),
            None => match json_get(v, "text"@) {
                Some(x) => BodyModel::Text(str_or_empty(x)),
                None => BodyModel::Empty,
            },
        },
        None => BodyModel::Empty,
    }
}

/// The transform a JSON description gives; `None` for an invalid
/// description.
pub open spec fn convert_transform_spec(t: JsonModel) -> Option<TransformModel> {
    if !(t is Object) {
        None
    } else {
        match get_str(t, "type"@) {
            None => None,
            Some(ty) => if ty == "SetHeader"@ {
                match (get_str(t, "name"@), get_str(t, "value"@)) {
                    (Some(n), Some(v)) => Some(TransformModel::SetHeader { name: n, template: template_of(v) }),
                    _ => None,
                }
            } else if ty == "RemoveHeader"@ {
                match get_str(t, "name"@) {
                    Some(n) => Some(TransformModel::RemoveHeader { name: spec_to_lowercase(n) }),
                    None => None,
                }
            } else if ty == "SetQuery"@ {
                match (get_str(t, "name"@), get_str(t, "value"@)) {
                    (Some(n), Some(v)) => Some(TransformModel::SetQuery { name: n, template: template_of(v) }),
                    _ => None,
                }
            } else if ty == "RemoveQuery"@ {
                match get_str(t, "name"@) {
                    Some(n) => Some(TransformModel::RemoveQuery { name: n }),
                    None => None,
                }
            } else if ty == "SetJsonPointer"@ {
                match (get_str(t, "path"@), json_get(t, "value"@)) {
                    (Some(p), Some(v)) => Some(TransformModel::SetJsonPointer { path: p, value: v }),
                    _ => None,
                }
            } else if ty == "RemoveJsonPointer"@ {
                match get_str(t, "path"@) {
                    Some(p) => Some(TransformModel::RemoveJsonPointer { path: p }),
                    None => None,
                }
            } else if ty == "ReplaceBody"@ {
                Some(TransformModel::ReplaceBody { body: replace_body_spec(json_get(t, "body"@)) })
            } else if ty == "SetStatus"@ {
                match get_u64(t, "status"@) {
                    Some(s) => Some(TransformModel::SetStatus { status: s as u16 }),
                    None => None,
                }
            } else {
                None
            },
        }
    }
}

/// The valid transforms of a list of descriptions, in order; invalid ones
/// are skipped.
pub open spec fn converted(xs: Seq<JsonModel>) -> Seq<TransformModel>
    decreases xs.len(),
{
    if xs.len() == 0 {
        Seq::empty()
    } else {
        match convert_transform_spec(xs.last()) {
            Some(t) => converted(xs.drop_last()).push(t),
            None => converted(xs.drop_last()),
        }
    }
}

/// The transforms listed under `key` of an action.
pub open spec fn transform_list(a: JsonModel, key: Seq<char>) -> Seq<TransformModel> {
    match json_get(a, key) {
        Some(JsonModel::Array(xs)) => converted(xs),
        _ => Seq::empty(),
    }
}

/// The (request, response) transforms of an action: only forward actions
/// have any.
pub open spec fn transforms_spec(a: JsonModel) -> (Seq<TransformModel>, Seq<TransformModel>) {
    if get_str(a, "type"@) == Some("forward"@) {
        (transform_list(a, "request_transforms"@), transform_list(a, "response_transforms"@))
    } else {
        (Seq::empty(), Seq::empty())
    }
}

/// The string member `key` of an object, as a string.
fn get_str_exec<'a>(v: &'a JsonValue, key: &str) -> (r: Option<&'a str>)
    ensures
        match r {
            Some(s) => get_str(v@, key@) == Some(s@),
            None => get_str(v@, key@) is None,
        },
{
    match v.get(key) {
        Some(x) => x.as_str(),
        None => None,
    }
}

/// The non-negative integer member `key` of an object.
fn get_u64_exec(v: &JsonValue, key: &str) -> (r: Option<u64>)
    ensures
        r == get_u64(v@, key@),
{
    match v.get(key) {
        Some(x) => x.as_u64(),
        None => None,
    }
}

/// The text of a string value, or the empty text.
fn str_or_empty_exec(v: &JsonValue) -> (r: String)
    ensures
        r@ == str_or_empty(v@),
{
    match v.as_str() {
        Some(s) => String::from_str(s),
        None => {
            proof {
                reveal_strlit("");
            }
            String::from_str("")
        },
    }
}

/// Builds the transform a JSON description gives.
fn convert_transform(t: &JsonValue) -> (r: Option<CompiledTransform>)
    ensures
        match convert_transform_spec(t@) {
            Some(m) => r matches Some(c) && c@ == m,
            None => r is None,
        },
{
    if t.as_object().is_none() {
        return None;
    }
    let ty = match get_str_exec(t, "type") {
        Some(ty) => ty,
        None => {
            return None;
        },
    };
    if str_eq(ty, "SetHeader") {
        match (get_str_exec(t, "name"), get_str_exec(t, "value")) {
            (Some(n), Some(v)) => Some(CompiledTransform::SetHeader(SetHeader::new(n, v))),
            _ => None,
        }
    } else if str_eq(ty, "RemoveHeader") {
        match get_str_exec(t, "name") {
            Some(n) => Some(CompiledTransform::RemoveHeader(RemoveHeader::new(n))),
            None => None,
        }
    } else if str_eq(ty, "SetQuery") {
        match (get_str_exec(t, "name"), get_str_exec(t, "value")) {
            (Some(n), Some(v)) => Some(CompiledTransform::SetQuery(SetQuery::new(n, v))),
            _ => None,
        }
    } else if str_eq(ty, "RemoveQuery") {
        match get_str_exec(t, "name") {
            Some(n) => Some(CompiledTransform::RemoveQuery(RemoveQuery::new(n))),
            None => None,
        }
    } else if str_eq(ty, "SetJsonPointer") {
        match (get_str_exec(t, "path"), t.get("value")) {
            (Some(p), Some(v)) => Some(
                CompiledTransform::SetJsonPointer(SetJsonPointer::new(p, v.duplicate())),
            ),
            _ => None,
        }
    } else if str_eq(ty, "RemoveJsonPointer") {
        match get_str_exec(t, "path") {
            Some(p) => Some(CompiledTransform::RemoveJsonPointer(RemoveJsonPointer::new(p))),
            None => None,
        }
    } else if str_eq(ty, "ReplaceBody") {
        let body = match t.get("body") {
            Some(v) => match v.get("json") {
                Some(j) => BodyData::Json(j.duplicate()),
                None => match v.get("text") {
                    Some(x) => BodyData::Text(str_or_empty_exec(x)),
                    None => BodyData::Empty,
                },
            },
            None => BodyData::Empty,
        };
        Some(CompiledTransform::ReplaceBody(ReplaceBody::new(body)))
    } else if str_eq(ty, "SetStatus") {
        match get_u64_exec(t, "status") {
            Some(s) => Some(CompiledTransform::SetStatus(SetStatus::new(s as u16))),
            None => None,
        }
    } else {
        None
    }
}

/// The valid transforms listed under `key` of an action.
fn compile_transform_list(a: &JsonValue, key: &str) -> (r: Vec<CompiledTransform>)
    ensures
        transforms_view(r@) == transform_list(a@, key@),
{
    let mut out: Vec<CompiledTransform> = Vec::new();
    let xs = match a.get(key) {
        Some(x) => match x.as_array() {
            Some(xs) => xs,
            None => {
                assert(transforms_view(out@) =~= Seq::<TransformModel>::empty());
                return out;
            },
        },
        None => {
            assert(transforms_view(out@) =~= Seq::<TransformModel>::empty());
            return out;
        },
    };
    let ghost xm = model_array(xs@);
    proof {
        lemma_model_array_len(xs@);
    }
    let mut i: usize = 0;
    assert(transforms_view(out@) =~= converted(xm.subrange(0, 0)));
    while i < xs.len()
        invariant
            xm == model_array(xs@),
            xm.len() == xs@.len(),
            forall|j: int| 0 <= j < xs@.len() ==> #[trigger] xm[j] == model_of(xs@[j]),
            i <= xs.len(),
            transforms_view(out@) == converted(xm.subrange(0, i as int)),
        decreases xs.len() - i,
    {
        assert(xm.subrange(0, i + 1).drop_last() =~= xm.subrange(0, i as int));
        assert(xm.subrange(0, i + 1).last() == xs@[i as int]@);
        let ghost before = transforms_view(out@);
        match convert_transform(&xs[i]) {
            Some(t) => {
                out.push(t);
                assert(transforms_view(out@) =~= before.push(out@.last()@));
            },
            None => {},
        }
        i = i + 1;
    }
    assert(xm.subrange(0, i as int) =~= xm);
    out
}

/// The (request, response) transforms of an action.
fn compile_transforms(a: &JsonValue) -> (r: (Vec<CompiledTransform>, Vec<CompiledTransform>))
    ensures
        (transforms_view(r.0@), transforms_view(r.1@)) == transforms_spec(a@),
{
    proof {
        reveal_strlit("forward");
    }
    let is_forward = match get_str_exec(a, "type") {
        Some(ty) => str_eq(ty, "forward"),
        None => false,
    };
    if is_forward {
        (compile_transform_list(a, "request_transforms"), compile_transform_list(a, "response_transforms"))
    } else {
        let x: Vec<CompiledTransform> = Vec::new();
        let y: Vec<CompiledTransform> = Vec::new();
        assert(transforms_view(x@) =~= Seq::<TransformModel>::empty());
        assert(transforms_view(y@) =~= Seq::<TransformModel>::empty());
        (x, y)
    }
}

/// A response as a configuration describes it: status, body, headers and
/// delay.
pub struct ResponseParts {
    pub status: u16,
    pub body: BodyModel,
    pub headers: MapModel,
    pub delay_ms: u64,
}

/// The parts of a response description: status (default 200, truncated to
/// 16 bits), delay (default 0), headers (non-string values as empty text,
/// sorted by name) and body (`json_body`, else `text_body`, else empty).
pub open spec fn parse_response_spec(v: JsonModel) -> Result<ResponseParts, Seq<char>> {
    match v {
        JsonModel::Object(_) => Ok(
            ResponseParts {
                status: match get_u64(v, "status"@) {
                    Some(u) => u as u16,
                    None => 200,
                },
                body: match get_non_null(v, "json_body"@) {
                    Some(j) => BodyModel::Json(j),
                    None => match get_non_null(v, "text_body"@) {
                        Some(x) => BodyModel::Text(str_or_empty(x)),
                        None => BodyModel::Empty,
                    },
                },
                headers: match json_get(v, "headers"@) {
                    Some(JsonModel::Object(ms)) => sort_by_key_spec(member_texts(ms, false)),
                    _ => Seq::empty(),
                },
                delay_ms: match get_u64(v, "delay_ms"@) {
                    Some(d) => d,
                    None => 0,
                },
            },
        ),
        _ => Err("response: must be an object"@),
    }
}

/// The action of a rule.
pub open spec fn action_spec(a: JsonModel) -> Result<ActionModel, Seq<char>> {
    match get_str(a, "type"@) {
        None => Err("action: missing 'type' field"@),
        Some(ty) => if ty == "mock"@ {
            match json_get(a, "response"@) {
                None => Err("mock action: missing 'response' field"@),
                Some(rv) => match parse_response_spec(rv) {
                    Err(e) => Err(e),
                    Ok(p) => Ok(
                        ActionModel::Mock {
                            response: ResponseModel {
                                status: p.status,
                                headers: p.headers,
                                body: p.body,
                                delay_ms: Some(p.delay_ms),
                                path_params: Seq::empty(),
                            },
                        },
                    ),
                },
            }
        } else if ty == "forward"@ {
            match get_str(a, "upstream"@) {
                None => Err("forward action: missing 'upstream' field"@),
                Some(u) => Ok(ActionModel::Forward { upstream: u }),
            }
        } else {
            Err("unknown action type: "@ + ty)
        },
    }
}

/// The action taken when no rule matches.
pub open spec fn unmatched_action_spec(a: JsonModel) -> Result<UnmatchedModel, Seq<char>> {
    match get_str(a, "type"@) {
        None => Err("action: missing 'type' field"@),
        Some(ty) => if ty == "mock"@ {
            match json_get(a, "response"@) {
                None => Err("mock action: missing 'response' field"@),
                Some(rv) => match parse_response_spec(rv) {
                    Err(e) => Err(e),
                    Ok(p) => Ok(
                        UnmatchedModel::Mock {
                            status: p.status,
                            body: p.body,
                            headers: p.headers,
                            delay_ms: p.delay_ms,
                        },
                    ),
                },
            }
        } else if ty == "forward"@ {
            match get_str(a, "upstream"@) {
                None => Err("forward action: missing 'upstream' field"@),
                Some(u) => Ok(UnmatchedModel::Forward { upstream: u }),
            }
        } else {
            Err("unknown action type: "@ + ty)
        },
    }
}

/// The unmatched action of a configuration, if it has one.
pub open spec fn unmatched_spec(config: JsonModel) -> Result<Option<UnmatchedModel>, Seq<char>> {
    match json_get(config, "unmatched"@) {
        None => Ok(None),
        Some(u) => match json_get(u, "action"@) {
            None => Err("unmatched: missing 'action' field"@),
            Some(a) => match unmatched_action_spec(a) {
                Ok(x) => Ok(Some(x)),
                Err(e) => Err(e),
            },
        },
    }
}

/// The parts of a response description.
fn parse_response(v: &JsonValue) -> (r: Result<(u16, BodyData, Vec<(String, String)>, u64), String>)
    ensures
        match parse_response_spec(v@) {
            Ok(p) => r matches Ok(x) && x.0 == p.status && x.1@ == p.body && pairs_view(x.2@)
                == p.headers && x.3 == p.delay_ms,
            Err(e) => r matches Err(x) && x@ == e,
        },
{
    if v.as_object().is_none() {
        return Err(String::from_str("response: must be an object"));
    }
    let status: u16 = match get_u64_exec(v, "status") {
        Some(u) => u as u16,
        None => 200,
    };
    let delay_ms: u64 = match get_u64_exec(v, "delay_ms") {
        Some(d) => d,
        None => 0,
    };
    let mut headers: Vec<(String, String)> = Vec::new();
    match v.get("headers") {
        Some(h) => match h.as_object() {
            Some(ms) => {
                let ghost msm = model_members(ms@);
                let ghost texts = member_texts(msm, false);
                proof {
                    lemma_model_members_len(ms@);
                }
                let mut i: usize = 0;
                while i < ms.len()
                    invariant
                        msm == model_members(ms@),
                        texts == member_texts(msm, false),
                        msm.len() == ms@.len(),
                        forall|j: int| 0 <= j < ms@.len() ==> #[trigger] msm[j] == (ms@[j].0@, model_of(ms@[j].1)),
                        i <= ms.len(),
                        pairs_view(headers@) == texts.subrange(0, i as int),
                    decreases ms.len() - i,
                {
                    let k = ms[i].0.clone();
                    let x = str_or_empty_exec(&ms[i].1);
                    let ghost before = pairs_view(headers@);
                    headers.push((k, x));
                    assert(pairs_view(headers@) =~= before.push(texts[i as int]));
                    assert(texts.subrange(0, i + 1) =~= texts.subrange(0, i as int).push(texts[i as int]));
                    i = i + 1;
                }
                assert(texts.subrange(0, i as int) =~= texts);
                headers = sort_pairs_by_key(headers);
            },
            None => {
                assert(pairs_view(headers@) =~= Seq::<(Seq<char>, Seq<char>)>::empty());
            },
        },
        None => {
            assert(pairs_view(headers@) =~= Seq::<(Seq<char>, Seq<char>)>::empty());
        },
    }
    let body = match get_non_null_exec(v, "json_body") {
        Some(j) => BodyData::Json(j.duplicate()),
        None => match get_non_null_exec(v, "text_body") {
            Some(x) => BodyData::Text(str_or_empty_exec(x)),
            None => BodyData::Empty,
        },
    };
    Ok((status, body, headers, delay_ms))
}

/// The action of a rule.
fn compile_action(a: &JsonValue) -> (r: Result<CompiledAction, String>)
    ensures
        match action_spec(a@) {
            Ok(m) => r matches Ok(x) && x@ == m,
            Err(e) => r matches Err(x) && x@ == e,
        },
{
    proof {
        reveal_strlit("mock");
        reveal_strlit("forward");
    }
    let ty = match get_str_exec(a, "type") {
        Some(ty) => ty,
        None => {
            return Err(String::from_str("action: missing 'type' field"));
        },
    };
    if str_eq(ty, "mock") {
        let rv = match a.get("response") {
            Some(rv) => rv,
            None => {
                return Err(String::from_str("mock action: missing 'response' field"));
            },
        };
        let (status, body, headers, delay_ms) = parse_response(rv)?;
        let response = ResponseData::new(status).with_headers(headers).with_body(body).with_delay(
            delay_ms,
        );
        Ok(CompiledAction::Mock { response })
    } else if str_eq(ty, "forward") {
        match get_str_exec(a, "upstream") {
            Some(u) => Ok(CompiledAction::Forward { upstream: String::from_str(u) }),
            None => Err(String::from_str("forward action: missing 'upstream' field")),
        }
    } else {
        Err(concat("unknown action type: ", ty))
    }
}

/// The action taken when no rule matches.
fn parse_action(a: &JsonValue) -> (r: Result<UnmatchedAction, String>)
    ensures
        match unmatched_action_spec(a@) {
            Ok(m) => r matches Ok(x) && x@ == m,
            Err(e) => r matches Err(x) && x@ == e,
        },
{
    proof {
        reveal_strlit("mock");
        reveal_strlit("forward");
    }
    let ty = match get_str_exec(a, "type") {
        Some(ty) => ty,
        None => {
            return Err(String::from_str("action: missing 'type' field"));
        },
    };
    if str_eq(ty, "mock") {
        let rv = match a.get("response") {
            Some(rv) => rv,
            None => {
                return Err(String::from_str("mock action: missing 'response' field"));
            },
        };
        let (status, body, headers, delay_ms) = parse_response(rv)?;
        Ok(UnmatchedAction::Mock { status, body, headers, delay_ms })
    } else if str_eq(ty, "forward") {
        match get_str_exec(a, "upstream") {
            Some(u) => Ok(UnmatchedAction::Forward { upstream: String::from_str(u) }),
            None => Err(String::from_str("forward action: missing 'upstream' field")),
        }
    } else {
        Err(concat("unknown action type: ", ty))
    }
}

/// The unmatched action of a configuration.
fn parse_unmatched(config: &JsonValue) -> (r: Result<Option<UnmatchedAction>, String>)
    ensures
        match unmatched_spec(config@) {
            Ok(Some(m)) => r matches Ok(Some(x)) && x@ == m,
            Ok(None) => r matches Ok(None),
            Err(e) => r matches Err(x) && x@ == e,
        },
{
    let u = match config.get("unmatched") {
        Some(u) => u,
        None => {
            return Ok(None);
        },
    };
    let a = match u.get("action") {
        Some(a) => a,
        None => {
            return Err(String::from_str("unmatched: missing 'action' field"));
        },
    };
    let action = parse_action(a)?;
    Ok(Some(action))
}

/// A rule as a configuration describes it.
pub struct RuleSpec {
    pub id: Seq<char>,
    pub priority: i32,
    pub matchers: Seq<MatcherSpec>,
    pub request_transforms: Seq<TransformModel>,
    pub response_transforms: Seq<TransformModel>,
    pub action: ActionModel,
}

/// `r` is the rule that `s` describes.
pub open spec fn rule_realizes(r: RuleModel, s: RuleSpec) -> bool {
    &&& r.id == s.id
    &&& r.priority == s.priority
    &&& all_realize(r.matchers, s.matchers)
    &&& r.request_transforms == s.request_transforms
    &&& r.response_transforms == s.response_transforms
    &&& r.action == s.action
}

/// The rule a route object describes. A rule whose scores could exceed the
/// `u32` range is refused.
pub open spec fn rule_spec(route: JsonModel) -> Result<RuleSpec, Seq<char>> {
    match get_str(route, "id"@) {
        None => Err("route: missing 'id' field"@),
        Some(id) => match json_get(route, "match_rule"@) {
            None => Err("route: missing 'match_rule' field"@),
            Some(mr) => match match_rule_spec(mr) {
                Err(e) => Err(e),
                Ok(ds) => match json_get(route, "action"@) {
                    None => Err("route: missing 'action' field"@),
                    Some(a) => match action_spec(a) {
                        Err(e) => Err(e),
                        Ok(act) => if !descs_fit(ds) {
                            Err("route: match rule scores exceed the u32 range"@)
                        } else {
                            Ok(
                                RuleSpec {
                                    id,
                                    priority: match get_i64(route, "priority"@) {
                                        Some(p) => p as i32,
                                        None => 0,
                                    },
                                    matchers: ds,
                                    request_transforms: transforms_spec(a).0,
                                    response_transforms: transforms_spec(a).1,
                                    action: act,
                                },
                            )
                        },
                    },
                },
            },
        },
    }
}

/// The rules of a list of routes, in declaration order; the first failing
/// route gives the error.
pub open spec fn routes_spec(xs: Seq<JsonModel>) -> Result<Seq<RuleSpec>, Seq<char>>
    decreases xs.len(),
{
    if xs.len() == 0 {
        Ok(Seq::empty())
    } else {
        match routes_spec(xs.drop_last()) {
            Err(e) => Err(e),
            Ok(rs) => if !(xs.last() is Object) {
                Err("route "@ + decimal((xs.len() - 1) as nat) + ": not an object"@)
            } else {
                match rule_spec(xs.last()) {
                    Err(e) => Err(e),
                    Ok(r) => Ok(rs.push(r)),
                }
            },
        }
    }
}

/// Inserts index `k` into `order` after every index whose priority is not
/// lower than `k`'s.
pub open spec fn insert_index(order: Seq<int>, prios: Seq<i32>, k: int) -> Seq<int>
    decreases order.len(),
{
    if order.len() == 0 {
        seq![k]
    } else if prios[order.last()] < prios[k] {
        insert_index(order.drop_last(), prios, k).push(order.last())
    } else {
        order.push(k)
    }
}

/// The order in which the first `n` rules are tried: by priority, highest
/// first, and by declaration order among equal priorities.
pub open spec fn priority_order(prios: Seq<i32>, n: nat) -> Seq<int>
    decreases n,
{
    if n == 0 {
        Seq::empty()
    } else {
        insert_index(priority_order(prios, (n - 1) as nat), prios, n - 1)
    }
}

/// The elements of `s` at the positions `order`.
pub open spec fn pick<A>(s: Seq<A>, order: Seq<int>) -> Seq<A> {
    Seq::new(order.len(), |i: int| s[order[i]])
}

/// The priorities of rules.
pub open spec fn model_prios(rs: Seq<RuleModel>) -> Seq<i32> {
    rs.map_values(|r: RuleModel| r.priority)
}

/// The priorities of described rules.
pub open spec fn spec_prios(rs: Seq<RuleSpec>) -> Seq<i32> {
    rs.map_values(|r: RuleSpec| r.priority)
}

/// An engine as a configuration describes it.
pub struct EngineSpec {
    pub rules: Seq<RuleSpec>,
    pub upstream_timeout_ms: u64,
    pub max_body_bytes: usize,
    pub unmatched: Option<UnmatchedModel>,
}

/// `e` is the engine that `s` describes.
pub open spec fn engine_realizes(e: EngineModel, s: EngineSpec) -> bool {
    &&& e.rules.len() == s.rules.len()
    &&& forall|i: int| 0 <= i < s.rules.len() ==> rule_realizes(#[trigger] e.rules[i], s.rules[i])
    &&& e.upstream_timeout_ms == s.upstream_timeout_ms
    &&& e.max_body_bytes == s.max_body_bytes
    &&& e.unmatched == s.unmatched
}

/// The upstream timeout of a configuration (default 10000 ms).
pub open spec fn defaults_timeout(config: JsonModel) -> u64 {
    match json_get(config, "defaults"@) {
        Some(d) => match get_u64(d, "upstream_timeout_ms"@) {
            Some(x) => x,
            None => 10000,
        },
        None => 10000,
    }
}

/// The body size limit of a configuration (default 1 MiB).
pub open spec fn defaults_max_body(config: JsonModel) -> u64 {
    match json_get(config, "defaults"@) {
        Some(d) => match get_u64(d, "max_body_bytes"@) {
            Some(x) => x,
            None => 1048576,
        },
        None => 1048576,
    }
}

/// The engine a configuration value describes.
pub open spec fn compile_value_spec(config: JsonModel) -> Result<EngineSpec, Seq<char>> {
    match json_get(config, "routes"@) {
        Some(JsonModel::Array(xs)) => match routes_spec(xs) {
            Err(e) => Err(e),
            Ok(rs) => match unmatched_spec(config) {
                Err(e) => Err(e),
                Ok(u) => Ok(
                    EngineSpec {
                        rules: pick(rs, priority_order(spec_prios(rs), rs.len())),
                        upstream_timeout_ms: defaults_timeout(config),
                        max_body_bytes: defaults_max_body(config) as usize,
                        unmatched: u,
                    },
                ),
            },
        },
        _ => Err("missing or invalid 'routes' field"@),
    }
}

/// Where `insert_index` puts the new index: after the last index whose
/// priority is not lower, before indices of lower priority.
pub proof fn lemma_insert_index_shape(order: Seq<int>, prios: Seq<i32>, k: int) -> (j: int)
    ensures
        0 <= j <= order.len(),
        insert_index(order, prios, k) == order.insert(j, k),
        forall|l: int| j <= l < order.len() ==> prios[#[trigger] order[l]] < prios[k],
        j > 0 ==> prios[order[j - 1]] >= prios[k],
    decreases order.len(),
{
    if order.len() == 0 {
        assert(order.insert(0, k) =~= seq![k]);
        0
    } else if prios[order.last()] < prios[k] {
        let j = lemma_insert_index_shape(order.drop_last(), prios, k);
        assert(order.drop_last().insert(j, k).push(order.last()) =~= order.insert(j, k));
        assert forall|l: int| j <= l < order.len() implies prios[#[trigger] order[l]] < prios[k] by {
            if l < order.len() - 1 {
                assert(order[l] == order.drop_last()[l]);
            }
        }
        if j > 0 {
            assert(order[j - 1] == order.drop_last()[j - 1]);
        }
        j
    } else {
        assert(order.insert(order.len() as int, k) =~= order.push(k));
        order.len() as int
    }
}

/// The order in which rules are tried is a permutation of the rules, sorted
/// by priority (highest first), and rules of equal priority keep their
/// declaration order.
pub proof fn lemma_priority_order(prios: Seq<i32>, n: nat)
    requires
        n <= prios.len(),
    ensures
        priority_order(prios, n).len() == n,
        forall|i: int| 0 <= i < n ==> 0 <= #[trigger] priority_order(prios, n)[i] < n,
        forall|i: int, j: int|
            0 <= i < j < n ==> priority_order(prios, n)[i] != priority_order(prios, n)[j],
        forall|i: int, j: int|
            0 <= i < j < n ==> prios[priority_order(prios, n)[i]] >= prios[priority_order(
                prios,
                n,
            )[j]],
        forall|i: int, j: int|
            0 <= i < j < n && prios[priority_order(prios, n)[i]] == prios[priority_order(
                prios,
                n,
            )[j]] ==> priority_order(prios, n)[i] < priority_order(prios, n)[j],
    decreases n,
{
    if n > 0 {
        let m = (n - 1) as nat;
        lemma_priority_order(prios, m);
        let o = priority_order(prios, m);
        let k = m as int;
        let j = lemma_insert_index_shape(o, prios, k);
        let r = o.insert(j, k);
        assert(priority_order(prios, n) == r);
        assert forall|a: int| 0 <= a < n implies 0 <= #[trigger] r[a] < n by {
            if a < j {
                assert(r[a] == o[a]);
            } else if a > j {
                assert(r[a] == o[a - 1]);
            }
        }
        assert forall|a: int, b: int| 0 <= a < b < n implies r[a] != r[b] && prios[r[a]] >= prios[r[b]]
            && (prios[r[a]] == prios[r[b]] ==> r[a] < r[b]) by {
            if a < j && b < j {
                assert(r[a] == o[a] && r[b] == o[b]);
            } else if a < j && b == j {
                assert(r[a] == o[a]);
                if a < j - 1 {
                    assert(prios[o[a]] >= prios[o[j - 1]]);
                }
            } else if a < j && b > j {
                assert(r[a] == o[a] && r[b] == o[b - 1]);
            } else if a == j {
                assert(r[b] == o[b - 1]);
            } else {
                assert(r[a] == o[a - 1] && r[b] == o[b - 1]);
            }
        }
    }
}

/// Compiles one route object.
fn compile_rule(route: &JsonValue) -> (r: Result<CompiledRule, String>)
    ensures
        match rule_spec(route@) {
            Ok(sp) => r matches Ok(x) && rule_realizes(x@, sp) && rule_scores_fit(x@),
            Err(e) => r matches Err(x) && x@ == e,
        },
{
    let id = match get_str_exec(route, "id") {
        Some(id) => String::from_str(id),
        None => {
            return Err(String::from_str("route: missing 'id' field"));
        },
    };
    let priority: i32 = match route.get("priority") {
        Some(p) => match p.as_i64() {
            Some(p) => p as i32,
            None => 0,
        },
        None => 0,
    };
    let mr = match route.get("match_rule") {
        Some(mr) => mr,
        None => {
            return Err(String::from_str("route: missing 'match_rule' field"));
        },
    };
    let matchers = compile_match_rule(mr)?;
    let ghost ds = match_rule_spec(mr@)->Ok_0;
    let a = match route.get("action") {
        Some(a) => a,
        None => {
            return Err(String::from_str("route: missing 'action' field"));
        },
    };
    let (request_transforms, response_transforms) = compile_transforms(a);
    let action = compile_action(a)?;
    let mut j: usize = 0;
    while j < matchers.len()
        invariant
            all_realize(matchers@, ds),
            get_str(route@, "id"@) == Some(id@),
            json_get(route@, "match_rule"@) == Some(mr@),
            match_rule_spec(mr@) == Ok::<Seq<MatcherSpec>, Seq<char>>(ds),
            json_get(route@, "action"@) == Some(a@),
            action_spec(a@) is Ok,
            j <= matchers.len(),
            forall|l: int| 0 <= l < j ==> desc_bound(#[trigger] ds[l]) <= u32::MAX,
        decreases matchers.len() - j,
    {
        proof {
            lemma_realizes_bound(matchers@[j as int], ds[j as int]);
        }
        if matchers[j].checked_score_bound().is_none() {
            return Err(String::from_str("route: match rule scores exceed the u32 range"));
        }
        j = j + 1;
    }
    let rule = CompiledRule {
        id,
        priority,
        matchers,
        request_transforms,
        response_transforms,
        action,
    };
    assert forall|l: int| 0 <= l < rule@.matchers.len() implies any_score_bound(#[trigger] rule@.matchers[l]) <= u32::MAX by {
        lemma_realizes_bound(rule@.matchers[l], ds[l]);
    }
    Ok(rule)
}

/// Once a prefix of the routes fails, the whole list fails with the same
/// error.
proof fn lemma_routes_error_stays(xs: Seq<JsonModel>, i: int)
    requires
        0 < i <= xs.len(),
        routes_spec(xs.subrange(0, i)) is Err,
    ensures
        routes_spec(xs) == routes_spec(xs.subrange(0, i)),
    decreases xs.len() - i,
{
    if i < xs.len() {
        assert(xs.subrange(0, i + 1).drop_last() =~= xs.subrange(0, i));
        lemma_routes_error_stays(xs, i + 1);
    } else {
        assert(xs.subrange(0, i) =~= xs);
    }
}

/// Compiles the routes in declaration order.
fn compile_routes(xs: &Vec<JsonValue>) -> (r: Result<Vec<CompiledRule>, String>)
    ensures
        match routes_spec(model_array(xs@)) {
            Ok(rs) => r matches Ok(v) && v@.len() == rs.len() && (forall|i: int|
                0 <= i < rs.len() ==> rule_realizes(#[trigger] v@[i]@, rs[i])) && engine_scores_fit(
                rules_view(v@),
            ),
            Err(e) => r matches Err(x) && x@ == e,
        },
{
    let ghost xm = model_array(xs@);
    proof {
        lemma_model_array_len(xs@);
    }
    let mut out: Vec<CompiledRule> = Vec::new();
    let mut i: usize = 0;
    assert(xm.subrange(0, 0) =~= Seq::<JsonModel>::empty());
    while i < xs.len()
        invariant
            xm == model_array(xs@),
            xm.len() == xs@.len(),
            forall|j: int| 0 <= j < xs@.len() ==> #[trigger] xm[j] == model_of(xs@[j]),
            i <= xs.len(),
            routes_spec(xm.subrange(0, i as int)) is Ok,
            out@.len() == i,
            forall|l: int|
                0 <= l < i ==> rule_realizes(
                    #[trigger] out@[l]@,
                    routes_spec(xm.subrange(0, i as int))->Ok_0[l],
                ),
            routes_spec(xm.subrange(0, i as int))->Ok_0.len() == i,
            engine_scores_fit(rules_view(out@)),
        decreases xs.len() - i,
    {
        let ghost prev = routes_spec(xm.subrange(0, i as int))->Ok_0;
        assert(xm.subrange(0, i + 1).drop_last() =~= xm.subrange(0, i as int));
        assert(xm.subrange(0, i + 1).last() == xs@[i as int]@);
        if xs[i].as_object().is_none() {
            proof {
                lemma_routes_error_stays(xm, i as int + 1);
            }
            let a = concat("route ", fmt_u64(i as u64).as_str());
            return Err(concat(a.as_str(), ": not an object"));
        }
        match compile_rule(&xs[i]) {
            Err(e) => {
                proof {
                    lemma_routes_error_stays(xm, i as int + 1);
                }
                return Err(e);
            },
            Ok(rule) => {
                let ghost rv = rule@;
                let ghost before = out@;
                out.push(rule);
                assert(routes_spec(xm.subrange(0, i + 1))->Ok_0 == prev.push(rule_spec(xs@[i as int]@)->Ok_0));
                assert forall|l: int| 0 <= l < i + 1 implies rule_realizes(
                    #[trigger] out@[l]@,
                    routes_spec(xm.subrange(0, i + 1))->Ok_0[l],
                ) by {
                    if l < i {
                        assert(out@[l] == before[l]);
                    }
                }
                assert(rules_view(out@)[i as int] == rv);
                assert forall|l: int| 0 <= l < rules_view(out@).len() implies rule_scores_fit(
                    #[trigger] rules_view(out@)[l],
                ) by {
                    if l < i {
                        assert(rules_view(out@)[l] == rules_view(before)[l]);
                    }
                }
            },
        }
        i = i + 1;
    }
    assert(xm.subrange(0, i as int) =~= xm);
    Ok(out)
}

/// The rules in the order they are tried: by priority, highest first, and in
/// declaration order among equal priorities.
fn sort_rules(rules: Vec<CompiledRule>) -> (r: Vec<CompiledRule>)
    ensures
        rules_view(r@) == pick(
            rules_view(rules@),
            priority_order(model_prios(rules_view(rules@)), rules@.len()),
        ),
{
    let ghost iv = rules_view(rules@);
    let ghost prios = model_prios(iv);
    let n = rules.len();
    let mut input = rules;
    let mut out: Vec<CompiledRule> = Vec::new();
    let mut taken: usize = 0;
    let ghost mut order: Seq<int> = Seq::empty();
    assert(rules_view(input@) =~= iv.subrange(0, n as int));
    assert(rules_view(out@) =~= pick(iv, order));
    while taken < n
        invariant
            iv.len() == n,
            prios == model_prios(iv),
            taken <= n,
            input@.len() == n - taken,
            rules_view(input@) == iv.subrange(taken as int, n as int),
            order == priority_order(prios, taken as nat),
            rules_view(out@) == pick(iv, order),
            order.len() == taken,
            forall|l: int| 0 <= l < taken ==> 0 <= #[trigger] order[l] < taken,
        decreases n - taken,
    {
        proof {
            lemma_priority_order(prios, taken as nat);
        }
        let ghost before_in = rules_view(input@);
        let ghost old_input = input@;
        let rule = input.remove(0);
        assert(before_in[0] == old_input[0]@);
        assert(before_in[0] == iv[taken as int]);
        assert(rule@ == iv[taken as int]);
        assert(input@ == old_input.remove(0));
        assert(rules_view(input@) =~= iv.subrange(taken + 1, n as int)) by {
            assert forall|l: int| 0 <= l < input@.len() implies #[trigger] rules_view(input@)[l] == iv.subrange(taken + 1, n as int)[l] by {
                assert(input@[l] == old_input[l + 1]);
                assert(before_in[l + 1] == old_input[l + 1]@);
            }
        }
        let mut j = out.len();
        while j > 0 && out[j - 1].priority < rule.priority
            invariant
                j <= out@.len(),
                forall|l: int| j <= l < out@.len() ==> (#[trigger] out@[l]).priority < rule.priority,
            decreases j,
        {
            j = j - 1;
        }
        let ghost before_out = rules_view(out@);
        proof {
            assert(before_out.len() == order.len());
            assert(out@.len() == order.len());
            let jj = lemma_insert_index_shape(order, prios, taken as int);
            assert forall|l: int| j <= l < order.len() implies prios[#[trigger] order[l]] < prios[taken as int] by {
                assert(before_out[l] == iv[order[l]]);
                assert(out@[l]@ == before_out[l]);
            }
            if j > 0 {
                assert(before_out[j - 1] == iv[order[j - 1]]);
                assert(out@[j - 1]@ == before_out[j - 1]);
            }
            if jj < j {
                assert(prios[order[jj]] < prios[taken as int]);
                assert(prios[order[j - 1]] >= prios[taken as int]);
                assert(false);
            }
            if jj > j {
                assert(prios[order[j as int]] < prios[taken as int]);
                assert(prios[order[jj - 1]] >= prios[taken as int]);
                assert(false);
            }
        }
        out.insert(j, rule);
        proof {
            order = order.insert(j as int, taken as int);
        }
        assert(rules_view(out@) =~= pick(iv, order)) by {
            assert forall|l: int| 0 <= l < order.len() implies #[trigger] rules_view(out@)[l] == iv[order[l]] by {
                if l < j {
                    assert(rules_view(out@)[l] == before_out[l]);
                } else if l > j {
                    assert(rules_view(out@)[l] == before_out[l - 1]);
                }
            }
        }
        taken = taken + 1;
    }
    out
}

impl Engine {
    /// Compiles a configuration value: routes in declaration order, sorted
    /// by priority (highest first, ties in declaration order), defaults and
    /// the unmatched action.
    pub fn compile_value(config: &JsonValue) -> (r: Result<Engine, EngineError>)
        ensures
            match compile_value_spec(config@) {
                Ok(sp) => r matches Ok(e) && engine_realizes(e@, sp),
                Err(m) => r matches Err(x) && x@ == EErrModel::CompileError(m),
            },
    {
        let xs = match config.get("routes") {
            Some(v) => match v.as_array() {
                Some(xs) => xs,
                None => {
                    return Err(EngineError::CompileError(String::from_str("missing or invalid 'routes' field")));
                },
            },
            None => {
                return Err(EngineError::CompileError(String::from_str("missing or invalid 'routes' field")));
            },
        };
        let rules = match compile_routes(xs) {
            Ok(rules) => rules,
            Err(e) => {
                return Err(EngineError::CompileError(e));
            },
        };
        let ghost rs = routes_spec(model_array(xs@))->Ok_0;
        let ghost unsorted = rules_view(rules@);
        assert(model_prios(unsorted) =~= spec_prios(rs)) by {
            assert forall|l: int| 0 <= l < rs.len() implies #[trigger] model_prios(unsorted)[l] == spec_prios(rs)[l] by {
                assert(unsorted[l] == rules@[l]@);
                assert(rule_realizes(rules@[l]@, rs[l]));
            }
        }
        let sorted = sort_rules(rules);
        let (timeout, max_body) = match config.get("defaults") {
            Some(d) => (
                match get_u64_exec(d, "upstream_timeout_ms") {
                    Some(x) => x,
                    None => 10000u64,
                },
                match get_u64_exec(d, "max_body_bytes") {
                    Some(x) => x,
                    None => 1048576u64,
                },
            ),
            None => (10000u64, 1048576u64),
        };
        let unmatched = match parse_unmatched(config) {
            Ok(u) => u,
            Err(e) => {
                return Err(EngineError::CompileError(e));
            },
        };
        proof {
            lemma_priority_order(spec_prios(rs), rs.len());
            let o = priority_order(spec_prios(rs), rs.len());
            assert forall|l: int| 0 <= l < rules_view(sorted@).len() implies rule_scores_fit(
                #[trigger] rules_view(sorted@)[l],
            ) by {
                assert(rules_view(sorted@)[l] == unsorted[o[l]]);
            }
            assert forall|l: int| 0 <= l < o.len() implies rule_realizes(
                #[trigger] rules_view(sorted@)[l],
                pick(rs, o)[l],
            ) by {
                assert(rules_view(sorted@)[l] == unsorted[o[l]]);
                assert(unsorted[o[l]] == rules@[o[l]]@);
            }
        }
        let e = Engine::from_parts(sorted, timeout, max_body as usize, unmatched);
        Ok(e)
    }
}

/// The engine configuration text describes: the text must parse as JSON and
/// pass the configuration check; then the value is compiled.
pub open spec fn compile_spec(text: Seq<char>) -> Result<EngineSpec, Seq<char>> {
    match spec_json_parse(text) {
        Err(e) => Err("invalid JSON: "@ + e),
        Ok(v) => match validate_value_spec(v) {
            Err(e) => Err(e),
            Ok(_) => compile_value_spec(v),
        },
    }
}

impl Engine {
    /// Compiles configuration text into an engine. Rules are sorted by
    /// priority, highest first; among equal priorities the rule declared
    /// first comes first.
    pub fn compile(config_json: &str) -> (r: Result<Engine, EngineError>)
        ensures
            match compile_spec(config_json@) {
                Ok(sp) => r matches Ok(e) && engine_realizes(e@, sp),
                Err(m) => r matches Err(x) && x@ == EErrModel::CompileError(m),
            },
    {
        let v = match parse_json_text(config_json) {
            Ok(v) => v,
            Err(e) => {
                return Err(EngineError::CompileError(concat("invalid JSON: ", e.as_str())));
            },
        };
        match validate_value(&v) {
            Ok(()) => {},
            Err(e) => {
                return Err(EngineError::CompileError(e));
            },
        }
        Engine::compile_value(&v)
    }
}

/// Rule order: the compiled rules are the routes' rules, each exactly once,
/// sorted by priority (highest first), with rules of equal priority in
/// declaration order.
pub proof fn law_compiled_rule_order(config: JsonModel, sp: EngineSpec)
    requires
        compile_value_spec(config) == Ok::<EngineSpec, Seq<char>>(sp),
    ensures
        json_get(config, "routes"@) matches Some(JsonModel::Array(xs)) && routes_spec(xs) matches Ok(
            rs,
        ) && ({
            let o = priority_order(spec_prios(rs), rs.len());
            &&& sp.rules.len() == rs.len()
            &&& forall|i: int| 0 <= i < rs.len() ==> 0 <= #[trigger] o[i] < rs.len() && sp.rules[i] == rs[o[i]]
            &&& forall|i: int, j: int| 0 <= i < j < rs.len() ==> o[i] != o[j]
            &&& forall|i: int, j: int|
                0 <= i < j < rs.len() ==> sp.rules[i].priority >= sp.rules[j].priority
            &&& forall|i: int, j: int|
                0 <= i < j < rs.len() && sp.rules[i].priority == sp.rules[j].priority ==> o[i] < o[j]
        }),
{
    let xs = json_get(config, "routes"@)->Some_0->Array_0;
    let rs = routes_spec(xs)->Ok_0;
    let o = priority_order(spec_prios(rs), rs.len());
    lemma_priority_order(spec_prios(rs), rs.len());
    assert forall|i: int, j: int| 0 <= i < j < rs.len() implies sp.rules[i].priority >= sp.rules[j].priority by {
        assert(spec_prios(rs)[o[i]] == rs[o[i]].priority);
        assert(spec_prios(rs)[o[j]] == rs[o[j]].priority);
    }
    assert forall|i: int, j: int|
        0 <= i < j < rs.len() && sp.rules[i].priority == sp.rules[j].priority implies o[i] < o[j] by {
        assert(spec_prios(rs)[o[i]] == rs[o[i]].priority);
        assert(spec_prios(rs)[o[j]] == rs[o[j]].priority);
    }
}

/// Mock responses: a mock action whose response object has no `json_body`
/// (or a null one) and a string `text_body` answers with that text; one with
/// a non-null `json_body` answers with that JSON, whatever `text_body` holds.
/// The status is the given one (200 when absent) and the delay the given one
/// (0 when absent).
pub proof fn law_mock_response_body(a: JsonModel, rv: JsonModel)
    requires
        json_get(a, "type"@) == Some(JsonModel::String("mock"@)),
        json_get(a, "response"@) == Some(rv),
        rv is Object,
    ensures
        forall|t: Seq<char>|
            (json_get(rv, "json_body"@) is None || json_get(rv, "json_body"@) == Some(JsonModel::Null))
                && #[trigger] json_get(rv, "text_body"@) == Some(JsonModel::String(t)) ==> (action_spec(
                a,
            ) matches Ok(ActionModel::Mock { response }) && response.body == BodyModel::Text(t)),
        forall|j: JsonModel|
            #[trigger] json_get(rv, "json_body"@) == Some(j) && !(j is Null) ==> (action_spec(a) matches Ok(
                ActionModel::Mock { response },
            ) && response.body == BodyModel::Json(j)),
        forall|u: u64|
            #[trigger] json_get(rv, "status"@) == Some(JsonModel::Number(NumberModel::PosInt(u))) && u <= 65535
                ==> (action_spec(a) matches Ok(ActionModel::Mock { response }) && response.status == u),
        json_get(rv, "status"@) is None ==> (action_spec(a) matches Ok(ActionModel::Mock { response })
            && response.status == 200),
        forall|d: u64|
            #[trigger] json_get(rv, "delay_ms"@) == Some(JsonModel::Number(NumberModel::PosInt(d))) ==> (action_spec(
                a,
            ) matches Ok(ActionModel::Mock { response }) && response.delay_ms == Some(d)),
        json_get(rv, "delay_ms"@) is None ==> (action_spec(a) matches Ok(ActionModel::Mock { response })
            && response.delay_ms == Some(0u64)),
{
}

/// A route whose action is such a mock compiles to a rule answering with
/// the `text_body`.
pub proof fn law_rule_mock_text_body(route: JsonModel, a: JsonModel, rv: JsonModel, t: Seq<char>, r: RuleSpec)
    requires
        rule_spec(route) == Ok::<RuleSpec, Seq<char>>(r),
        json_get(route, "action"@) == Some(a),
        json_get(a, "type"@) == Some(JsonModel::String("mock"@)),
        json_get(a, "response"@) == Some(rv),
        rv is Object,
        json_get(rv, "json_body"@) is None || json_get(rv, "json_body"@) == Some(JsonModel::Null),
        json_get(rv, "text_body"@) == Some(JsonModel::String(t)),
    ensures
        r.action matches ActionModel::Mock { response } && response.body == BodyModel::Text(t),
{
    law_mock_response_body(a, rv);
}

} // verus!
