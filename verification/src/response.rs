//! Responses.

use vstd::prelude::*;
use crate::body::{BodyData, BodyModel};
use crate::pairs::{pairs_view, copy_pairs};
use crate::strmap::{StrMap, MapModel};
use crate::text::{spec_to_lowercase, to_lowercase};

verus! {

/// An HTTP response.
#[derive(Debug, PartialEq)]
pub struct ResponseData {
    /// HTTP status code.
    pub status: u16,
    /// Response headers.
    pub headers: Vec<(String, String)>,
    /// Response body.
    pub body: BodyData,
    /// Delay in milliseconds before the response is sent.
    pub delay_ms: Option<u64>,
    /// Path parameters of the matched route (used by template values).
    pub path_params: StrMap,
}

/// Model of a response.
pub struct ResponseModel {
    pub status: u16,
    pub headers: MapModel,
    pub body: BodyModel,
    pub delay_ms: Option<u64>,
    pub path_params: MapModel,
}

impl View for ResponseData {
    type V = ResponseModel;

    open spec fn view(&self) -> ResponseModel {
        ResponseModel {
            status: self.status,
            headers: pairs_view(self.headers@),
            body: self.body@,
            delay_ms: self.delay_ms,
            path_params: self.path_params@,
        }
    }
}

/// The model of `ResponseData::new(status)`.
pub open spec fn response_new(status: u16) -> ResponseModel {
    ResponseModel {
        status,
        headers: Seq::empty(),
        body: BodyModel::Empty,
        delay_ms: None,
        path_params: Seq::empty(),
    }
}

/// The first index at or after `i` whose key lower-cases to `key_lower`.
pub open spec fn lower_key_index_from(m: MapModel, key_lower: Seq<char>, i: int) -> Option<int>
    decreases m.len() - i,
{
    if i < 0 || i >= m.len() {
        None
    } else if spec_to_lowercase(m[i].0) == key_lower {
        Some(i)
    } else {
        lower_key_index_from(m, key_lower, i + 1)
    }
}

/// The value of the first header whose key equals `key` after Unicode
/// lower-casing of both.
pub open spec fn header_ci(m: MapModel, key: Seq<char>) -> Option<Seq<char>> {
    match lower_key_index_from(m, spec_to_lowercase(key), 0) {
        Some(i) => Some(m[i].1),
        None => None,
    }
}

impl ResponseData {
    /// A response with the given status and nothing else.
    pub fn new(status: u16) -> (r: ResponseData)
        ensures
            r@ == response_new(status),
    {
        let r = ResponseData {
            status,
            headers: Vec::new(),
            body: BodyData::Empty,
            delay_ms: None,
            path_params: StrMap::new(),
        };
        assert(r@.headers =~= Seq::<(Seq<char>, Seq<char>)>::empty());
        r
    }

    /// Sets the headers.
    pub fn with_headers(self, headers: Vec<(String, String)>) -> (r: ResponseData)
        ensures
            r@ == (ResponseModel { headers: pairs_view(headers@), ..self@ }),
    {
        ResponseData { headers, ..self }
    }

    /// Sets the body.
    pub fn with_body(self, body: BodyData) -> (r: ResponseData)
        ensures
            r@ == (ResponseModel { body: body@, ..self@ }),
    {
        ResponseData { body, ..self }
    }

    /// Sets the delay in milliseconds.
    pub fn with_delay(self, delay_ms: u64) -> (r: ResponseData)
        ensures
            r@ == (ResponseModel { delay_ms: Some(delay_ms), ..self@ }),
    {
        ResponseData { delay_ms: Some(delay_ms), ..self }
    }

    /// Sets the path parameters.
    pub fn with_path_params(self, path_params: StrMap) -> (r: ResponseData)
        ensures
            r@ == (ResponseModel { path_params: path_params@, ..self@ }),
    {
        ResponseData { path_params, ..self }
    }

    /// The value of the first header whose key matches `key` ignoring case.
    pub fn header(&self, key: &str) -> (r: Option<&str>)
        ensures
            match r {
                Some(v) => header_ci(self@.headers, key@) == Some(v@),
                None => header_ci(self@.headers, key@) is None,
            },
    {
        let ghost m = self@.headers;
        let key_lower = to_lowercase(key);
        let mut i: usize = 0;
        while i < self.headers.len()
            invariant
                m == pairs_view(self.headers@),
                key_lower@ == spec_to_lowercase(key@),
                i <= self.headers.len(),
                lower_key_index_from(m, key_lower@, 0) == lower_key_index_from(m, key_lower@, i as int),
            decreases self.headers.len() - i,
        {
            let k = to_lowercase(self.headers[i].0.as_str());
            if k == key_lower {
                return Some(self.headers[i].1.as_str());
            }
            i = i + 1;
        }
        None
    }

    /// A deep copy of the response.
    pub fn duplicate(&self) -> (r: ResponseData)
        ensures
            r@ == self@,
    {
        ResponseData {
            status: self.status,
            headers: copy_pairs(&self.headers),
            body: self.body.duplicate(),
            delay_ms: self.delay_ms,
            path_params: self.path_params.duplicate(),
        }
    }
}

impl Default for ResponseData {
    /// A `200` response with nothing else.
    fn default() -> (r: ResponseData)
        ensures
            r@ == response_new(200),
    {
        ResponseData::new(200)
    }
}

} // verus!
