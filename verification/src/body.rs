//! Request and response bodies.

use vstd::prelude::*;
use crate::json::{JsonValue, JsonModel};

verus! {

/// A request or response body.
#[derive(Debug, PartialEq)]
pub enum BodyData {
    /// No body.
    Empty,
    /// A UTF-8 text body.
    Text(String),
    /// A JSON body.
    Json(JsonValue),
    /// Raw bytes.
    Binary(Vec<u8>),
}

/// Model of a body.
pub enum BodyModel {
    Empty,
    Text(Seq<char>),
    Json(JsonModel),
    Binary(Seq<u8>),
}

impl View for BodyData {
    type V = BodyModel;

    open spec fn view(&self) -> BodyModel {
        match self {
            BodyData::Empty => BodyModel::Empty,
            BodyData::Text(s) => BodyModel::Text(s@),
            BodyData::Json(v) => BodyModel::Json(v@),
            BodyData::Binary(b) => BodyModel::Binary(b@),
        }
    }
}

/// A body is empty when it is `Empty`, or text or bytes of length zero.
pub open spec fn body_is_empty(b: BodyModel) -> bool {
    match b {
        BodyModel::Empty => true,
        BodyModel::Text(s) => s.len() == 0,
        BodyModel::Json(_) => false,
        BodyModel::Binary(v) => v.len() == 0,
    }
}

/// The media type that goes with each kind of body (none for `Empty`).
pub open spec fn body_content_type(b: BodyModel) -> Option<Seq<char>> {
    match b {
        BodyModel::Empty => None,
        BodyModel::Text(_) => Some("text/plain; charset=utf-8"@),
        BodyModel::Json(_) => Some("application/json"@),
        BodyModel::Binary(_) => Some("application/octet-stream"@),
    }
}

impl BodyData {
    /// Whether the body carries no content.
    pub fn is_empty(&self) -> (r: bool)
        ensures
            r == body_is_empty(self@),
    {
        match self {
            BodyData::Empty => true,
            BodyData::Text(s) => s.as_str().unicode_len() == 0,
            BodyData::Json(_) => false,
            BodyData::Binary(b) => b.len() == 0,
        }
    }

    /// The `Content-Type` value for this body.
    pub fn content_type(&self) -> (r: Option<&'static str>)
        ensures
            match r {
                Some(t) => body_content_type(self@) == Some(t@),
                None => body_content_type(self@) is None,
            },
    {
        proof {
            reveal_strlit("text/plain; charset=utf-8");
            reveal_strlit("application/json");
            reveal_strlit("application/octet-stream");
        }
        match self {
            BodyData::Empty => None,
            BodyData::Text(_) => Some("text/plain; charset=utf-8"),
            BodyData::Json(_) => Some("application/json"),
            BodyData::Binary(_) => Some("application/octet-stream"),
        }
    }

    /// A deep copy of the body.
    pub fn duplicate(&self) -> (r: BodyData)
        ensures
            r@ == self@,
    {
        match self {
            BodyData::Empty => BodyData::Empty,
            BodyData::Text(s) => BodyData::Text(s.clone()),
            BodyData::Json(v) => BodyData::Json(v.duplicate()),
            BodyData::Binary(b) => {
                let c = b.clone();
                assert(c@ =~= b@);
                BodyData::Binary(c)
            },
        }
    }
}

} // verus!
