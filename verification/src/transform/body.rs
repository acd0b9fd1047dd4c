//! Body and status transforms.

use vstd::prelude::*;
use super::{Transform, TransformError, TransformModel, TErrModel, apply_request, apply_response, transform_name};
use crate::body::BodyData;
use crate::request::{RequestData, RequestModel};
use crate::response::{ResponseData, ResponseModel};

verus! {

/// Replaces the whole body.
#[derive(Debug, PartialEq)]
pub struct ReplaceBody {
    body: BodyData,
}

impl View for ReplaceBody {
    type V = TransformModel;

    closed spec fn view(&self) -> TransformModel {
        TransformModel::ReplaceBody { body: self.body@ }
    }
}

impl ReplaceBody {
    /// A transform that replaces the body with `body`.
    pub fn new(body: BodyData) -> (r: ReplaceBody)
        ensures
            r@ == (TransformModel::ReplaceBody { body: body@ }),
    {
        ReplaceBody { body }
    }

    /// A transform that replaces the body with a text body.
    pub fn text(content: &str) -> (r: ReplaceBody)
        ensures
            r@ == (TransformModel::ReplaceBody { body: crate::body::BodyModel::Text(content@) }),
    {
        ReplaceBody { body: BodyData::Text(String::from_str(content)) }
    }

    /// A transform that replaces the body with a JSON body.
    pub fn json(value: crate::json::JsonValue) -> (r: ReplaceBody)
        ensures
            r@ == (TransformModel::ReplaceBody { body: crate::body::BodyModel::Json(value@) }),
    {
        ReplaceBody { body: BodyData::Json(value) }
    }

    /// A copy of the transform.
    pub fn duplicate(&self) -> (r: ReplaceBody)
        ensures
            r@ == self@,
    {
        ReplaceBody { body: self.body.duplicate() }
    }
}

impl Transform for ReplaceBody {
    open spec fn model(&self) -> TransformModel {
        self@
    }

    fn transform_request(&self, request: RequestData) -> (r: Result<RequestData, TransformError>) {
        Ok(RequestData { body: self.body.duplicate(), ..request })
    }

    fn transform_response(&self, response: ResponseData) -> (r: Result<ResponseData, TransformError>) {
        Ok(ResponseData { body: self.body.duplicate(), ..response })
    }

    fn name(&self) -> (r: &str) {
        "ReplaceBody"
    }
}

/// Sets the response status; it cannot be applied to requests.
#[derive(Debug, Clone, PartialEq)]
pub struct SetStatus {
    status: u16,
}

impl View for SetStatus {
    type V = TransformModel;

    closed spec fn view(&self) -> TransformModel {
        TransformModel::SetStatus { status: self.status }
    }
}

impl SetStatus {
    /// A transform that sets the response status to `status`.
    pub fn new(status: u16) -> (r: SetStatus)
        ensures
            r@ == (TransformModel::SetStatus { status }),
    {
        SetStatus { status }
    }
}

impl Transform for SetStatus {
    open spec fn model(&self) -> TransformModel {
        self@
    }

    fn transform_request(&self, request: RequestData) -> (r: Result<RequestData, TransformError>) {
        Err(TransformError::TemplateError(String::from_str("SetStatus cannot be applied to requests")))
    }

    fn transform_response(&self, response: ResponseData) -> (r: Result<ResponseData, TransformError>) {
        Ok(ResponseData { status: self.status, ..response })
    }

    fn name(&self) -> (r: &str) {
        "SetStatus"
    }
}

} // verus!
