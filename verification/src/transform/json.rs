//! JSON Pointer (RFC 6901) transforms; they apply to JSON bodies only.

use vstd::prelude::*;
use super::{Transform, TransformError, TransformModel, TErrModel, apply_request, apply_response, transform_name, json_body_spec};
use crate::body::{BodyData, BodyModel};
use crate::json::{JsonValue, JsonModel, json_pointer_assign, json_pointer_delete, json_pointer_parent, names_index, lemma_model_array_len};
use crate::request::{RequestData, RequestModel};
use crate::response::{ResponseData, ResponseModel};
use crate::text::{concat, str_eq};

verus! {

/// Sets the value at a JSON Pointer; the path `/` replaces the whole document.
#[derive(Debug, PartialEq)]
pub struct SetJsonPointer {
    path: String,
    value: JsonValue,
}

impl View for SetJsonPointer {
    type V = TransformModel;

    closed spec fn view(&self) -> TransformModel {
        TransformModel::SetJsonPointer { path: self.path@, value: self.value@ }
    }
}

impl SetJsonPointer {
    /// A transform that sets `value` at `path`.
    pub fn new(path: &str, value: JsonValue) -> (r: SetJsonPointer)
        ensures
            r@ == (TransformModel::SetJsonPointer { path: path@, value: value@ }),
    {
        SetJsonPointer { path: String::from_str(path), value }
    }

    /// The new body for `body`.
    fn apply(&self, body: &BodyData) -> (r: Result<BodyData, TransformError>)
        ensures
            match r {
                Ok(b) => json_body_spec(self@, body@) == Ok::<BodyModel, TErrModel>(b@),
                Err(e) => json_body_spec(self@, body@) == Err::<BodyModel, TErrModel>(e@),
            },
    {
        match body {
            BodyData::Json(doc) => {
                if str_eq(self.path.as_str(), "/") {
                    return Ok(BodyData::Json(self.value.duplicate()));
                }
                match json_pointer_assign(self.path.as_str(), doc, &self.value) {
                    Ok(d) => Ok(BodyData::Json(d)),
                    Err(e) => Err(TransformError::JsonPointer(e)),
                }
            },
            _ => Err(TransformError::BodyTypeMismatch),
        }
    }
}

impl Transform for SetJsonPointer {
    open spec fn model(&self) -> TransformModel {
        self@
    }

    fn transform_request(&self, request: RequestData) -> (r: Result<RequestData, TransformError>) {
        match self.apply(&request.body) {
            Ok(body) => Ok(RequestData { body, ..request }),
            Err(e) => Err(e),
        }
    }

    fn transform_response(&self, response: ResponseData) -> (r: Result<ResponseData, TransformError>) {
        match self.apply(&response.body) {
            Ok(body) => Ok(ResponseData { body, ..response }),
            Err(e) => Err(e),
        }
    }

    fn name(&self) -> (r: &str) {
        "SetJsonPointer"
    }
}

/// Removes the value at a JSON Pointer; the path `/` empties the document to
/// `{}`. Fails when nothing is at the path.
#[derive(Debug, Clone, PartialEq)]
pub struct RemoveJsonPointer {
    path: String,
}

impl View for RemoveJsonPointer {
    type V = TransformModel;

    closed spec fn view(&self) -> TransformModel {
        TransformModel::RemoveJsonPointer { path: self.path@ }
    }
}

impl RemoveJsonPointer {
    /// A transform that removes the value at `path`.
    pub fn new(path: &str) -> (r: RemoveJsonPointer)
        ensures
            r@ == (TransformModel::RemoveJsonPointer { path: path@ }),
    {
        RemoveJsonPointer { path: String::from_str(path) }
    }

    /// The new body for `body`.
    fn apply(&self, body: &BodyData) -> (r: Result<BodyData, TransformError>)
        ensures
            match r {
                Ok(b) => json_body_spec(self@, body@) == Ok::<BodyModel, TErrModel>(b@),
                Err(e) => json_body_spec(self@, body@) == Err::<BodyModel, TErrModel>(e@),
            },
    {
        match body {
            BodyData::Json(doc) => {
                if str_eq(self.path.as_str(), "/") {
                    let empty = JsonValue::Object(Vec::new());
                    assert(empty@ == JsonModel::Object(Seq::empty()));
                    return Ok(BodyData::Json(empty));
                }
                // The position just past the end of an array holds nothing.
                if let Ok(Some((Some(JsonValue::Array(xs)), t))) = json_pointer_parent(self.path.as_str(), doc) {
                    proof {
                        lemma_model_array_len(xs@);
                    }
                    if names_index(t.as_str(), xs.len()) {
                        return Err(
                            TransformError::JsonPointer(concat("path not found: ", self.path.as_str())),
                        );
                    }
                }
                match json_pointer_delete(self.path.as_str(), doc) {
                    Ok(Some(d)) => Ok(BodyData::Json(d)),
                    Ok(None) => Err(
                        TransformError::JsonPointer(concat("path not found: ", self.path.as_str())),
                    ),
                    Err(e) => Err(TransformError::JsonPointer(e)),
                }
            },
            _ => Err(TransformError::BodyTypeMismatch),
        }
    }
}

impl Transform for RemoveJsonPointer {
    open spec fn model(&self) -> TransformModel {
        self@
    }

    fn transform_request(&self, request: RequestData) -> (r: Result<RequestData, TransformError>) {
        match self.apply(&request.body) {
            Ok(body) => Ok(RequestData { body, ..request }),
            Err(e) => Err(e),
        }
    }

    fn transform_response(&self, response: ResponseData) -> (r: Result<ResponseData, TransformError>) {
        match self.apply(&response.body) {
            Ok(body) => Ok(ResponseData { body, ..response }),
            Err(e) => Err(e),
        }
    }

    fn name(&self) -> (r: &str) {
        "RemoveJsonPointer"
    }
}

} // verus!
