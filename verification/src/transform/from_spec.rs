//! Typed transform descriptions and the transforms built from them.

use vstd::prelude::*;
use super::{Transform, TransformError, TransformModel, TErrModel, apply_request, apply_response, transform_name};
use super::{SetHeader, RemoveHeader, SetQuery, RemoveQuery, SetJsonPointer, RemoveJsonPointer, ReplaceBody, SetStatus};
use super::template::template_of;
use crate::body::{BodyData, BodyModel};
use crate::json::{JsonValue, JsonModel};
use crate::request::{RequestData, RequestModel};
use crate::response::{ResponseData, ResponseModel};
use crate::text::spec_to_lowercase;

verus! {

/// A transform as written in a configuration.
#[derive(Debug, PartialEq)]
pub enum TransformDef {
    SetHeader { name: String, value: String },
    RemoveHeader { name: String },
    SetQuery { name: String, value: String },
    RemoveQuery { name: String },
    SetJsonPointer { path: String, value: JsonValue },
    RemoveJsonPointer { path: String },
    ReplaceBody { body: BodyData },
    SetStatus { status: u16 },
}

/// Model of a transform description.
pub enum DefModel {
    SetHeader { name: Seq<char>, value: Seq<char> },
    RemoveHeader { name: Seq<char> },
    SetQuery { name: Seq<char>, value: Seq<char> },
    RemoveQuery { name: Seq<char> },
    SetJsonPointer { path: Seq<char>, value: JsonModel },
    RemoveJsonPointer { path: Seq<char> },
    ReplaceBody { body: BodyModel },
    SetStatus { status: u16 },
}

impl View for TransformDef {
    type V = DefModel;

    open spec fn view(&self) -> DefModel {
        match self {
            TransformDef::SetHeader { name, value } => DefModel::SetHeader { name: name@, value: value@ },
            TransformDef::RemoveHeader { name } => DefModel::RemoveHeader { name: name@ },
            TransformDef::SetQuery { name, value } => DefModel::SetQuery { name: name@, value: value@ },
            TransformDef::RemoveQuery { name } => DefModel::RemoveQuery { name: name@ },
            TransformDef::SetJsonPointer { path, value } => DefModel::SetJsonPointer {
                path: path@,
                value: value@,
            },
            TransformDef::RemoveJsonPointer { path } => DefModel::RemoveJsonPointer { path: path@ },
            TransformDef::ReplaceBody { body } => DefModel::ReplaceBody { body: body@ },
            TransformDef::SetStatus { status } => DefModel::SetStatus { status: *status },
        }
    }
}

/// The transform a description compiles to.
pub open spec fn compile_def(d: DefModel) -> TransformModel {
    match d {
        DefModel::SetHeader { name, value } => TransformModel::SetHeader {
            name,
            template: template_of(value),
        },
        DefModel::RemoveHeader { name } => TransformModel::RemoveHeader {
            name: spec_to_lowercase(name),
        },
        DefModel::SetQuery { name, value } => TransformModel::SetQuery {
            name,
            template: template_of(value),
        },
        DefModel::RemoveQuery { name } => TransformModel::RemoveQuery { name },
        DefModel::SetJsonPointer { path, value } => TransformModel::SetJsonPointer { path, value },
        DefModel::RemoveJsonPointer { path } => TransformModel::RemoveJsonPointer { path },
        DefModel::ReplaceBody { body } => TransformModel::ReplaceBody { body },
        DefModel::SetStatus { status } => TransformModel::SetStatus { status },
    }
}

/// A transform of any kind.
#[derive(Debug, PartialEq)]
pub enum CompiledTransform {
    SetHeader(SetHeader),
    RemoveHeader(RemoveHeader),
    SetQuery(SetQuery),
    RemoveQuery(RemoveQuery),
    SetJsonPointer(SetJsonPointer),
    RemoveJsonPointer(RemoveJsonPointer),
    ReplaceBody(ReplaceBody),
    SetStatus(SetStatus),
}

impl View for CompiledTransform {
    type V = TransformModel;

    open spec fn view(&self) -> TransformModel {
        match self {
            CompiledTransform::SetHeader(t) => t@,
            CompiledTransform::RemoveHeader(t) => t@,
            CompiledTransform::SetQuery(t) => t@,
            CompiledTransform::RemoveQuery(t) => t@,
            CompiledTransform::SetJsonPointer(t) => t@,
            CompiledTransform::RemoveJsonPointer(t) => t@,
            CompiledTransform::ReplaceBody(t) => t@,
            CompiledTransform::SetStatus(t) => t@,
        }
    }
}

impl Transform for CompiledTransform {
    open spec fn model(&self) -> TransformModel {
        self@
    }

    fn transform_request(&self, request: RequestData) -> (r: Result<RequestData, TransformError>) {
        match self {
            CompiledTransform::SetHeader(t) => t.transform_request(request),
            CompiledTransform::RemoveHeader(t) => t.transform_request(request),
            CompiledTransform::SetQuery(t) => t.transform_request(request),
            CompiledTransform::RemoveQuery(t) => t.transform_request(request),
            CompiledTransform::SetJsonPointer(t) => t.transform_request(request),
            CompiledTransform::RemoveJsonPointer(t) => t.transform_request(request),
            CompiledTransform::ReplaceBody(t) => t.transform_request(request),
            CompiledTransform::SetStatus(t) => t.transform_request(request),
        }
    }

    fn transform_response(&self, response: ResponseData) -> (r: Result<ResponseData, TransformError>) {
        match self {
            CompiledTransform::SetHeader(t) => t.transform_response(response),
            CompiledTransform::RemoveHeader(t) => t.transform_response(response),
            CompiledTransform::SetQuery(t) => t.transform_response(response),
            CompiledTransform::RemoveQuery(t) => t.transform_response(response),
            CompiledTransform::SetJsonPointer(t) => t.transform_response(response),
            CompiledTransform::RemoveJsonPointer(t) => t.transform_response(response),
            CompiledTransform::ReplaceBody(t) => t.transform_response(response),
            CompiledTransform::SetStatus(t) => t.transform_response(response),
        }
    }

    fn name(&self) -> (r: &str) {
        match self {
            CompiledTransform::SetHeader(t) => t.name(),
            CompiledTransform::RemoveHeader(t) => t.name(),
            CompiledTransform::SetQuery(t) => t.name(),
            CompiledTransform::RemoveQuery(t) => t.name(),
            CompiledTransform::SetJsonPointer(t) => t.name(),
            CompiledTransform::RemoveJsonPointer(t) => t.name(),
            CompiledTransform::ReplaceBody(t) => t.name(),
            CompiledTransform::SetStatus(t) => t.name(),
        }
    }
}

/// Builds the transform described by `spec`.
pub fn transform_from_spec(spec: &TransformDef) -> (r: CompiledTransform)
    ensures
        r@ == compile_def(spec@),
{
    match spec {
        TransformDef::SetHeader { name, value } => CompiledTransform::SetHeader(
            SetHeader::new(name.as_str(), value.as_str()),
        ),
        TransformDef::RemoveHeader { name } => CompiledTransform::RemoveHeader(
            RemoveHeader::new(name.as_str()),
        ),
        TransformDef::SetQuery { name, value } => CompiledTransform::SetQuery(
            SetQuery::new(name.as_str(), value.as_str()),
        ),
        TransformDef::RemoveQuery { name } => CompiledTransform::RemoveQuery(
            RemoveQuery::new(name.as_str()),
        ),
        TransformDef::SetJsonPointer { path, value } => CompiledTransform::SetJsonPointer(
            SetJsonPointer::new(path.as_str(), value.duplicate()),
        ),
        TransformDef::RemoveJsonPointer { path } => CompiledTransform::RemoveJsonPointer(
            RemoveJsonPointer::new(path.as_str()),
        ),
        TransformDef::ReplaceBody { body } => CompiledTransform::ReplaceBody(
            ReplaceBody::new(body.duplicate()),
        ),
        TransformDef::SetStatus { status } => CompiledTransform::SetStatus(SetStatus::new(*status)),
    }
}

} // verus!
