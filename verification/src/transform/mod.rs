//! Transforms: rules that rewrite requests before they are forwarded and
//! upstream responses before they are returned.

use vstd::prelude::*;
use crate::body::BodyModel;
use crate::json::JsonModel;
use crate::pairs::{without_key, sort_by_key_spec};
use crate::request::{RequestData, RequestModel};
use crate::response::{ResponseData, ResponseModel};
use crate::strmap::{MapModel, key_index, map_insert, map_lookup, law_lookup_after_insert};
use crate::text::{concat, spec_to_lowercase};
use crate::json::{spec_pointer_assign, spec_pointer_delete, delete_past_end};

pub mod template;
pub mod headers;
pub mod query;
pub mod body;
pub mod json;
pub mod from_spec;

pub use template::TemplateSubst;
pub use headers::{RemoveHeader, SetHeader};
pub use query::{RemoveQuery, SetQuery};
pub use body::{ReplaceBody, SetStatus};
pub use json::{RemoveJsonPointer, SetJsonPointer};
pub use from_spec::{CompiledTransform, TransformDef, transform_from_spec};

use template::{TemplateModel, template_text};

verus! {

/// Why a transform failed.
#[derive(Debug, Clone, PartialEq)]
pub enum TransformError {
    /// The JSON Pointer could not be parsed or applied.
    JsonPointer(String),
    /// A JSON transform met a body that is not JSON.
    BodyTypeMismatch,
    /// A header was not found.
    HeaderNotFound(String),
    /// A query parameter was not found.
    QueryNotFound(String),
    /// The transform cannot be applied here.
    TemplateError(String),
}

/// Model of a transform error.
pub enum TErrModel {
    JsonPointer(Seq<char>),
    BodyTypeMismatch,
    HeaderNotFound(Seq<char>),
    QueryNotFound(Seq<char>),
    TemplateError(Seq<char>),
}

impl View for TransformError {
    type V = TErrModel;

    open spec fn view(&self) -> TErrModel {
        match self {
            TransformError::JsonPointer(s) => TErrModel::JsonPointer(s@),
            TransformError::BodyTypeMismatch => TErrModel::BodyTypeMismatch,
            TransformError::HeaderNotFound(s) => TErrModel::HeaderNotFound(s@),
            TransformError::QueryNotFound(s) => TErrModel::QueryNotFound(s@),
            TransformError::TemplateError(s) => TErrModel::TemplateError(s@),
        }
    }
}

/// The text of a transform error.
pub open spec fn transform_error_message(e: TErrModel) -> Seq<char> {
    match e {
        TErrModel::JsonPointer(s) => "invalid JSON Pointer: "@ + s,
        TErrModel::BodyTypeMismatch => "body type mismatch: JSON transform requires JSON body"@,
        TErrModel::HeaderNotFound(s) => "header not found: "@ + s,
        TErrModel::QueryNotFound(s) => "query parameter not found: "@ + s,
        TErrModel::TemplateError(s) => "template error: "@ + s,
    }
}

impl TransformError {
    /// Whether the transform does not apply (a JSON transform on a body that
    /// is not JSON).
    pub fn is_not_applicable(&self) -> (r: bool)
        ensures
            r == (self@ is BodyTypeMismatch),
    {
        match self {
            TransformError::BodyTypeMismatch => true,
            _ => false,
        }
    }

    /// The text of the error.
    pub fn message(&self) -> (r: String)
        ensures
            r@ == transform_error_message(self@),
    {
        match self {
            TransformError::JsonPointer(s) => concat("invalid JSON Pointer: ", s.as_str()),
            TransformError::BodyTypeMismatch => String::from_str(
                "body type mismatch: JSON transform requires JSON body",
            ),
            TransformError::HeaderNotFound(s) => concat("header not found: ", s.as_str()),
            TransformError::QueryNotFound(s) => concat("query parameter not found: ", s.as_str()),
            TransformError::TemplateError(s) => concat("template error: ", s.as_str()),
        }
    }
}

/// Model of a compiled transform.
pub enum TransformModel {
    SetHeader { name: Seq<char>, template: TemplateModel },
    /// `name` is already lower-cased.
    RemoveHeader { name: Seq<char> },
    SetQuery { name: Seq<char>, template: TemplateModel },
    RemoveQuery { name: Seq<char> },
    SetJsonPointer { path: Seq<char>, value: JsonModel },
    RemoveJsonPointer { path: Seq<char> },
    ReplaceBody { body: BodyModel },
    SetStatus { status: u16 },
}

/// The headers whose key, lower-cased, differs from `lower`, in order.
pub open spec fn without_lower_key(m: MapModel, lower: Seq<char>) -> MapModel
    decreases m.len(),
{
    if m.len() == 0 {
        m
    } else {
        let prev = without_lower_key(m.drop_last(), lower);
        if spec_to_lowercase(m.last().0) != lower {
            prev.push(m.last())
        } else {
            prev
        }
    }
}

/// Setting a query parameter: an existing value is replaced in place;
/// otherwise the parameter is appended and the list stably sorted by key.
pub open spec fn set_query_spec(q: MapModel, name: Seq<char>, value: Seq<char>) -> MapModel {
    if key_index(q, name) is Some {
        map_insert(q, name, value)
    } else {
        sort_by_key_spec(q.push((name, value)))
    }
}

/// What a JSON transform does to a body: `Ok(None)` when the body is not JSON.
pub open spec fn json_body_spec(t: TransformModel, b: BodyModel) -> Result<BodyModel, TErrModel> {
    match b {
        BodyModel::Json(doc) => match t {
            TransformModel::SetJsonPointer { path, value } => if path == "/"@ {
                Ok(BodyModel::Json(value))
            } else {
                match spec_pointer_assign(path, doc, value) {
                    Ok(d) => Ok(BodyModel::Json(d)),
                    Err(e) => Err(TErrModel::JsonPointer(e)),
                }
            },
            TransformModel::RemoveJsonPointer { path } => if path == "/"@ {
                Ok(BodyModel::Json(JsonModel::Object(Seq::empty())))
            } else if delete_past_end(path, doc) {
                Err(TErrModel::JsonPointer("path not found: "@ + path))
            } else {
                match spec_pointer_delete(path, doc) {
                    Ok(Some(d)) => Ok(BodyModel::Json(d)),
                    Ok(None) => Err(TErrModel::JsonPointer("path not found: "@ + path)),
                    Err(e) => Err(TErrModel::JsonPointer(e)),
                }
            },
            _ => Ok(b),
        },
        _ => Err(TErrModel::BodyTypeMismatch),
    }
}

/// What a transform does to a request.
pub open spec fn apply_request(t: TransformModel, req: RequestModel) -> Result<RequestModel, TErrModel> {
    match t {
        TransformModel::SetHeader { name, template } => Ok(
            RequestModel {
                headers: map_insert(req.headers, name, template_text(template, req.path_params)),
                ..req
            },
        ),
        TransformModel::RemoveHeader { name } => Ok(
            RequestModel { headers: without_lower_key(req.headers, spec_to_lowercase(name)), ..req },
        ),
        TransformModel::SetQuery { name, template } => Ok(
            RequestModel {
                query: set_query_spec(req.query, name, template_text(template, req.path_params)),
                ..req
            },
        ),
        TransformModel::RemoveQuery { name } => if without_key(req.query, name).len()
            == req.query.len() {
            Err(TErrModel::QueryNotFound(name))
        } else {
            Ok(RequestModel { query: without_key(req.query, name), ..req })
        },
        TransformModel::SetJsonPointer { .. } => match json_body_spec(t, req.body) {
            Ok(b) => Ok(RequestModel { body: b, ..req }),
            Err(e) => Err(e),
        },
        TransformModel::RemoveJsonPointer { .. } => match json_body_spec(t, req.body) {
            Ok(b) => Ok(RequestModel { body: b, ..req }),
            Err(e) => Err(e),
        },
        TransformModel::ReplaceBody { body } => Ok(RequestModel { body, ..req }),
        TransformModel::SetStatus { .. } => Err(
            TErrModel::TemplateError("SetStatus cannot be applied to requests"@),
        ),
    }
}

/// What a transform does to a response.
pub open spec fn apply_response(t: TransformModel, resp: ResponseModel) -> Result<ResponseModel, TErrModel> {
    match t {
        TransformModel::SetHeader { name, template } => Ok(
            ResponseModel {
                headers: map_insert(resp.headers, name, template_text(template, resp.path_params)),
                ..resp
            },
        ),
        TransformModel::RemoveHeader { name } => Ok(
            ResponseModel {
                headers: without_lower_key(resp.headers, spec_to_lowercase(name)),
                ..resp
            },
        ),
        TransformModel::SetQuery { name, .. } => Err(TErrModel::QueryNotFound(name)),
        TransformModel::RemoveQuery { name } => Err(TErrModel::QueryNotFound(name)),
        TransformModel::SetJsonPointer { .. } => match json_body_spec(t, resp.body) {
            Ok(b) => Ok(ResponseModel { body: b, ..resp }),
            Err(e) => Err(e),
        },
        TransformModel::RemoveJsonPointer { .. } => match json_body_spec(t, resp.body) {
            Ok(b) => Ok(ResponseModel { body: b, ..resp }),
            Err(e) => Err(e),
        },
        TransformModel::ReplaceBody { body } => Ok(ResponseModel { body, ..resp }),
        TransformModel::SetStatus { status } => Ok(ResponseModel { status, ..resp }),
    }
}

/// The name of a transform.
pub open spec fn transform_name(t: TransformModel) -> Seq<char> {
    match t {
        TransformModel::SetHeader { .. } => "SetHeader"@,
        TransformModel::RemoveHeader { .. } => "RemoveHeader"@,
        TransformModel::SetQuery { .. } => "SetQuery"@,
        TransformModel::RemoveQuery { .. } => "RemoveQuery"@,
        TransformModel::SetJsonPointer { .. } => "SetJsonPointer"@,
        TransformModel::RemoveJsonPointer { .. } => "RemoveJsonPointer"@,
        TransformModel::ReplaceBody { .. } => "ReplaceBody"@,
        TransformModel::SetStatus { .. } => "SetStatus"@,
    }
}

/// A rule that rewrites requests and responses.
pub trait Transform {
    /// The transform's model.
    spec fn model(&self) -> TransformModel;

    /// Transforms a request.
    fn transform_request(&self, request: RequestData) -> (r: Result<RequestData, TransformError>)
        ensures
            match r {
                Ok(x) => apply_request(self.model(), request@) == Ok::<RequestModel, TErrModel>(x@),
                Err(e) => apply_request(self.model(), request@) == Err::<RequestModel, TErrModel>(e@),
            },
    ;

    /// Transforms a response.
    fn transform_response(&self, response: ResponseData) -> (r: Result<ResponseData, TransformError>)
        ensures
            match r {
                Ok(x) => apply_response(self.model(), response@) == Ok::<ResponseModel, TErrModel>(x@),
                Err(e) => apply_response(self.model(), response@) == Err::<ResponseModel, TErrModel>(e@),
            },
    ;

    /// The transform's name, for diagnostics.
    fn name(&self) -> (r: &str)
        ensures
            r@ == transform_name(self.model()),
    ;
}

/// Setting a header: afterwards the header has the (template-filled) value
/// and every other header name keeps its value.
pub proof fn law_set_header(name: Seq<char>, template: TemplateModel, req: RequestModel, other: Seq<char>)
    ensures
        apply_request(TransformModel::SetHeader { name, template }, req) matches Ok(r)
            && map_lookup(r.headers, name) == Some(template_text(template, req.path_params))
            && (other != name ==> map_lookup(r.headers, other) == map_lookup(req.headers, other)),
{
    law_lookup_after_insert(req.headers, name, template_text(template, req.path_params), other);
}

proof fn lemma_without_lower_key(m: MapModel, lower: Seq<char>)
    ensures
        forall|i: int| 0 <= i < without_lower_key(m, lower).len() ==> spec_to_lowercase(
            (#[trigger] without_lower_key(m, lower)[i]).0,
        ) != lower,
        forall|i: int| 0 <= i < without_lower_key(m, lower).len() ==> m.contains(
            #[trigger] without_lower_key(m, lower)[i],
        ),
        (forall|i: int| 0 <= i < m.len() ==> spec_to_lowercase((#[trigger] m[i]).0) != lower)
            ==> without_lower_key(m, lower) == m,
    decreases m.len(),
{
    if m.len() > 0 {
        lemma_without_lower_key(m.drop_last(), lower);
        let prev = without_lower_key(m.drop_last(), lower);
        assert forall|i: int| 0 <= i < without_lower_key(m, lower).len() implies m.contains(
            #[trigger] without_lower_key(m, lower)[i],
        ) by {
            if i < prev.len() {
                let x = prev[i];
                assert(m.drop_last().contains(x));
                let j = choose|j: int| 0 <= j < m.drop_last().len() && m.drop_last()[j] == x;
                assert(m[j] == x);
            } else {
                assert(m[m.len() - 1] == m.last());
            }
        }
        if forall|i: int| 0 <= i < m.len() ==> spec_to_lowercase((#[trigger] m[i]).0) != lower {
            assert(forall|i: int| 0 <= i < m.drop_last().len() ==> #[trigger] m.drop_last()[i] == m[i]);
            assert(m.drop_last().push(m.last()) =~= m);
        }
    }
}

/// Removing a header: afterwards no header's lower-cased name equals the
/// lower-cased name to remove, every remaining header was there before, and
/// headers are untouched when none has that name.
pub proof fn law_remove_header(name: Seq<char>, req: RequestModel)
    ensures
        apply_request(TransformModel::RemoveHeader { name }, req) matches Ok(r) && (forall|i: int|
            0 <= i < r.headers.len() ==> spec_to_lowercase((#[trigger] r.headers[i]).0)
                != spec_to_lowercase(name)) && (forall|i: int|
            0 <= i < r.headers.len() ==> req.headers.contains(#[trigger] r.headers[i])),
        (forall|i: int|
            0 <= i < req.headers.len() ==> spec_to_lowercase((#[trigger] req.headers[i]).0)
                != spec_to_lowercase(name)) ==> apply_request(
            TransformModel::RemoveHeader { name },
            req,
        ) == Ok::<RequestModel, TErrModel>(req),
{
    lemma_without_lower_key(req.headers, spec_to_lowercase(name));
}

proof fn lemma_without_key(m: MapModel, key: Seq<char>)
    ensures
        without_key(m, key).len() <= m.len(),
        without_key(m, key).len() == m.len() <==> forall|i: int| 0 <= i < m.len() ==> (#[trigger] m[i]).0 != key,
        forall|i: int| 0 <= i < without_key(m, key).len() ==> (#[trigger] without_key(m, key)[i]).0 != key,
    decreases m.len(),
{
    if m.len() > 0 {
        lemma_without_key(m.drop_last(), key);
        if without_key(m, key).len() == m.len() {
            assert forall|i: int| 0 <= i < m.len() implies (#[trigger] m[i]).0 != key by {
                if i < m.len() - 1 {
                    assert(m[i] == m.drop_last()[i]);
                }
            }
        }
        if forall|i: int| 0 <= i < m.len() ==> (#[trigger] m[i]).0 != key {
            assert(forall|i: int| 0 <= i < m.drop_last().len() ==> #[trigger] m.drop_last()[i] == m[i]);
            assert(m[m.len() - 1].0 != key);
        }
    }
}

/// Removing a query parameter fails exactly when the request has no
/// parameter of that name; otherwise none is left.
pub proof fn law_remove_query(name: Seq<char>, req: RequestModel)
    ensures
        apply_request(TransformModel::RemoveQuery { name }, req) is Err <==> forall|i: int|
            0 <= i < req.query.len() ==> (#[trigger] req.query[i]).0 != name,
        apply_request(TransformModel::RemoveQuery { name }, req) matches Ok(r) ==> forall|i: int|
            0 <= i < r.query.len() ==> (#[trigger] r.query[i]).0 != name,
{
    lemma_without_key(req.query, name);
}

} // verus!
