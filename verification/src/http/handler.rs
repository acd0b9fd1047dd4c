//! Conversions between the wire and the engine: reading bodies, building
//! requests, shaping mock responses and filtering forwarded headers.

use vstd::prelude::*;
use super::{HttpError, UpstreamError, upstream_error_message};
use crate::body::{BodyData, BodyModel, body_content_type};
use crate::error::{EngineError, engine_error_message};
use crate::forward::ForwardPlan;
use crate::json::{JsonValue, JsonModel, value_from_serde_slice, spec_json_parse_bytes, spec_json_text, json_text};
use crate::pairs::{pairs_view, sort_by_key_spec};
use crate::request::{RequestData, RequestModel};
use crate::response::{ResponseData, ResponseModel, response_new, lower_key_index_from};
use crate::strmap::MapModel;
use crate::text::{concat, spec_to_lowercase, to_lowercase, str_eq};

verus! {

/// The result of std `String::from_utf8` on bytes: the text, or `None` for
/// invalid UTF-8.
pub uninterp spec fn spec_utf8_decode(bytes: Seq<u8>) -> Option<Seq<char>>;

/// Decodes bytes as UTF-8 with std `String::from_utf8`; the result is the
/// named `spec_utf8_decode` of the bytes.
#[verifier::external_body]
fn utf8_decode(bytes: &Vec<u8>) -> (r: Option<String>)
    ensures
        match r {
            Some(s) => spec_utf8_decode(bytes@) == Some(s@),
            None => spec_utf8_decode(bytes@) is None,
        },
{
    match String::from_utf8(bytes.clone()) {
        Ok(s) => Some(s),
        Err(_) => None,
    }
}

/// The body that bytes read from the wire make: none for no bytes; JSON
/// when they parse as JSON; text when they are UTF-8; raw bytes otherwise.
pub open spec fn body_from_bytes_spec(b: Seq<u8>) -> BodyModel {
    if b.len() == 0 {
        BodyModel::Empty
    } else {
        match spec_utf8_decode(b) {
            None => BodyModel::Binary(b),
            Some(t) => match spec_json_parse_bytes(b) {
                Ok(j) => BodyModel::Json(j),
                Err(_) => BodyModel::Text(t),
            },
        }
    }
}

/// Classifies body bytes.
pub fn body_from_bytes(bytes: Vec<u8>) -> (r: BodyData)
    ensures
        r@ == body_from_bytes_spec(bytes@),
{
    if bytes.len() == 0 {
        return BodyData::Empty;
    }
    match utf8_decode(&bytes) {
        None => BodyData::Binary(bytes),
        Some(text) => match value_from_serde_slice(&bytes) {
            Ok(j) => BodyData::Json(j),
            Err(_) => BodyData::Text(text),
        },
    }
}

/// Adds a chunk's length to the bytes read so far; more than `limit` bytes
/// in all is refused.
pub fn add_body_chunk(total: usize, chunk_len: usize, limit: usize) -> (r: Result<usize, HttpError>)
    requires
        total + chunk_len <= usize::MAX,
    ensures
        total + chunk_len > limit ==> r == Err::<usize, HttpError>(
            HttpError::BodyTooLarge { size: (total + chunk_len) as usize, limit },
        ),
        total + chunk_len <= limit ==> r == Ok::<usize, HttpError>((total + chunk_len) as usize),
{
    let t = total + chunk_len;
    if t > limit {
        Err(HttpError::BodyTooLarge { size: t, limit })
    } else {
        Ok(t)
    }
}

/// The (name, value) pairs of an `application/x-www-form-urlencoded` query,
/// as `form_urlencoded::parse` decodes them, in order.
pub uninterp spec fn spec_form_parse(q: Seq<char>) -> MapModel;

/// Parses a query string with `form_urlencoded::parse`; the pairs are the
/// named `spec_form_parse` of the text.
#[verifier::external_body]
fn parse_query_string(q: &str) -> (r: Vec<(String, String)>)
    ensures
        pairs_view(r@) == spec_form_parse(q@),
{
    form_urlencoded::parse(q.as_bytes()).map(|(k, v)| (k.into_owned(), v.into_owned())).collect()
}

/// The headers with lower-cased names.
pub open spec fn lower_names(hs: MapModel) -> MapModel {
    hs.map_values(|p: (Seq<char>, Seq<char>)| (spec_to_lowercase(p.0), p.1))
}

/// The request the server hands to the engine: the query parsed and sorted
/// by name, header names lower-cased.
pub open spec fn convert_request_spec(method: Seq<char>, path: Seq<char>, query: Option<Seq<char>>, headers: MapModel, body: BodyModel) -> RequestModel {
    RequestModel {
        method,
        path,
        query: match query {
            Some(q) => sort_by_key_spec(spec_form_parse(q)),
            None => Seq::empty(),
        },
        headers: lower_names(headers),
        body,
        path_params: Seq::empty(),
    }
}

/// Builds the engine's request from the parts of an HTTP request.
pub fn convert_request(method: &str, path: &str, query: Option<&str>, headers: Vec<(String, String)>, body: BodyData) -> (r: RequestData)
    ensures
        r@ == convert_request_spec(method@, path@, match query {
            Some(q) => Some(q@),
            None => None,
        }, pairs_view(headers@), body@),
{
    let pairs = match query {
        Some(q) => parse_query_string(q),
        None => Vec::new(),
    };
    let ghost hv = pairs_view(headers@);
    let mut lowered: Vec<(String, String)> = Vec::new();
    let mut i: usize = 0;
    while i < headers.len()
        invariant
            hv == pairs_view(headers@),
            i <= headers.len(),
            pairs_view(lowered@) == lower_names(hv).subrange(0, i as int),
        decreases headers.len() - i,
    {
        let k = to_lowercase(headers[i].0.as_str());
        let v = headers[i].1.clone();
        let ghost before = pairs_view(lowered@);
        let ghost kv = (k@, v@);
        assert(lower_names(hv)[i as int] == kv);
        lowered.push((k, v));
        assert(pairs_view(lowered@) =~= before.push(kv));
        assert(lower_names(hv).subrange(0, i + 1) =~= lower_names(hv).subrange(0, i as int).push(kv));
        i = i + 1;
    }
    assert(lower_names(hv).subrange(0, i as int) =~= lower_names(hv));
    let r = RequestData::new(method, path).with_query(pairs).with_headers(lowered).with_body(body);
    proof {
        if query is None {
            assert(sort_by_key_spec(pairs_view(pairs@)) =~= Seq::<(Seq<char>, Seq<char>)>::empty());
        }
    }
    r
}

/// The status a response is sent with: a code outside 100-999 is not a
/// valid HTTP status and becomes 200.
pub open spec fn effective_status_spec(s: u16) -> u16 {
    if 100 <= s <= 999 { s } else { 200 }
}

/// The status a response is sent with.
pub fn effective_status(status: u16) -> (r: u16)
    ensures
        r == effective_status_spec(status),
{
    if 100 <= status && status <= 999 {
        status
    } else {
        200
    }
}

/// The headers a mock response is sent with: its own, plus
/// `Content-Type` for its body when no header is named `content-type`
/// (after lower-casing).
pub open spec fn mock_headers_spec(r: ResponseModel) -> MapModel {
    match lower_key_index_from(r.headers, "content-type"@, 0) {
        Some(_) => r.headers,
        None => match body_content_type(r.body) {
            Some(ct) => r.headers.push(("Content-Type"@, ct)),
            None => r.headers,
        },
    }
}

/// The headers a mock response is sent with.
pub fn mock_headers(response: &ResponseData) -> (r: Vec<(String, String)>)
    ensures
        pairs_view(r@) == mock_headers_spec(response@),
{
    let mut out = crate::pairs::copy_pairs(&response.headers);
    if !has_content_type(&response.headers) {
        match response.body.content_type() {
            Some(ct) => {
                let ghost before = pairs_view(out@);
                out.push((String::from_str("Content-Type"), String::from_str(ct)));
                assert(pairs_view(out@) =~= before.push(("Content-Type"@, ct@)));
            },
            None => {},
        }
    }
    out
}

/// Whether some header's lower-cased name is `content-type`.
fn has_content_type(headers: &Vec<(String, String)>) -> (r: bool)
    ensures
        r == (lower_key_index_from(pairs_view(headers@), "content-type"@, 0) is Some),
{
    let ghost m = pairs_view(headers@);
    let mut i: usize = 0;
    while i < headers.len()
        invariant
            m == pairs_view(headers@),
            i <= headers.len(),
            lower_key_index_from(m, "content-type"@, 0) == lower_key_index_from(m, "content-type"@, i as int),
        decreases headers.len() - i,
    {
        let k = to_lowercase(headers[i].0.as_str());
        if str_eq(k.as_str(), "content-type") {
            return true;
        }
        i = i + 1;
    }
    false
}

/// The payload of a body on the wire.
#[derive(Debug, PartialEq)]
pub enum Payload {
    /// Nothing.
    Empty,
    /// Text (JSON as its compact text).
    Text(String),
    /// Raw bytes.
    Bytes(Vec<u8>),
}

/// The payload a body is sent as.
pub fn body_payload(body: &BodyData) -> (r: Payload)
    ensures
        match body@ {
            BodyModel::Empty => r == Payload::Empty,
            BodyModel::Text(s) => r matches Payload::Text(t) && t@ == s,
            BodyModel::Json(j) => r matches Payload::Text(t) && t@ == spec_json_text(j),
            BodyModel::Binary(b) => r matches Payload::Bytes(v) && v@ == b,
        },
{
    match body {
        BodyData::Empty => Payload::Empty,
        BodyData::Text(s) => Payload::Text(s.clone()),
        BodyData::Json(v) => Payload::Text(json_text(v)),
        BodyData::Binary(b) => {
            let c = b.clone();
            assert(c@ =~= b@);
            Payload::Bytes(c)
        },
    }
}

/// Headers that are not forwarded between hops.
pub open spec fn is_hop_by_hop_spec(name: Seq<char>) -> bool {
    name == "connection"@ || name == "keep-alive"@ || name == "proxy-authenticate"@ || name
        == "proxy-authorization"@ || name == "te"@ || name == "trailers"@ || name
        == "transfer-encoding"@ || name == "upgrade"@ || name == "host"@
}

/// Whether a (lower-case) header name is hop-by-hop.
pub fn is_hop_by_hop_header(name: &str) -> (r: bool)
    ensures
        r == is_hop_by_hop_spec(name@),
{
    str_eq(name, "connection") || str_eq(name, "keep-alive") || str_eq(name, "proxy-authenticate")
        || str_eq(name, "proxy-authorization") || str_eq(name, "te") || str_eq(name, "trailers")
        || str_eq(name, "transfer-encoding") || str_eq(name, "upgrade") || str_eq(name, "host")
}

/// The headers whose lower-cased name is not hop-by-hop, in order.
pub open spec fn end_to_end(hs: MapModel) -> MapModel
    decreases hs.len(),
{
    if hs.len() == 0 {
        hs
    } else if is_hop_by_hop_spec(spec_to_lowercase(hs.last().0)) {
        end_to_end(hs.drop_last())
    } else {
        end_to_end(hs.drop_last()).push(hs.last())
    }
}

/// The headers that are passed on between the client and the upstream.
pub fn end_to_end_headers(headers: &Vec<(String, String)>) -> (r: Vec<(String, String)>)
    ensures
        pairs_view(r@) == end_to_end(pairs_view(headers@)),
{
    let ghost m = pairs_view(headers@);
    let mut out: Vec<(String, String)> = Vec::new();
    let mut i: usize = 0;
    assert(pairs_view(out@) =~= end_to_end(m.subrange(0, 0)));
    while i < headers.len()
        invariant
            m == pairs_view(headers@),
            i <= headers.len(),
            pairs_view(out@) == end_to_end(m.subrange(0, i as int)),
        decreases headers.len() - i,
    {
        assert(m.subrange(0, i + 1).drop_last() =~= m.subrange(0, i as int));
        let ghost before = pairs_view(out@);
        let k = to_lowercase(headers[i].0.as_str());
        if !is_hop_by_hop_header(k.as_str()) {
            out.push((headers[i].0.clone(), headers[i].1.clone()));
            assert(pairs_view(out@) =~= before.push(m[i as int]));
        }
        i = i + 1;
    }
    assert(m.subrange(0, i as int) =~= m);
    out
}

/// The timeout of an upstream request: the plan's, else 30 s.
pub fn upstream_timeout_ms(plan: &ForwardPlan) -> (r: u64)
    ensures
        r == match plan@.timeout_ms {
            Some(t) => t,
            None => 30000u64,
        },
{
    match plan.timeout_ms {
        Some(t) => t,
        None => 30000,
    }
}

/// Whether a status is a success (200-299).
pub fn is_success_status(status: u16) -> (r: bool)
    ensures
        r == (200 <= status <= 299),
{
    200 <= status && status <= 299
}

/// The response built from an upstream answer: its status, its end-to-end
/// headers and its body classified from the bytes.
pub fn upstream_response(status: u16, headers: &Vec<(String, String)>, body: Vec<u8>) -> (r: ResponseData)
    ensures
        r@ == (ResponseModel {
            headers: end_to_end(pairs_view(headers@)),
            body: body_from_bytes_spec(body@),
            ..response_new(status)
        }),
{
    let b = body_from_bytes(body);
    let mut r = ResponseData::new(status).with_body(b);
    r.headers = end_to_end_headers(headers);
    r
}

/// The error of a failed request transform before forwarding.
pub fn request_transform_failure(e: &EngineError) -> (r: UpstreamError)
    ensures
        r == UpstreamError::InvalidResponse(r->InvalidResponse_0),
        r->InvalidResponse_0@ == "request transform failed: "@ + engine_error_message(e@),
{
    UpstreamError::InvalidResponse(concat("request transform failed: ", e.message().as_str()))
}

/// The body text of the `500` answer for a failed request.
pub fn internal_error_text(e: &HttpError) -> (r: String)
    ensures
        r@ == "Internal server error: "@ + super::http_error_message(*e),
{
    concat("Internal server error: ", e.message().as_str())
}

proof fn lemma_lower_key_index(m: MapModel, key: Seq<char>, i: int)
    requires
        0 <= i,
    ensures
        lower_key_index_from(m, key, i) is Some <==> exists|k: int| i <= k < m.len() && spec_to_lowercase(#[trigger] m[k].0) == key,
    decreases m.len() - i,
{
    if i < m.len() {
        lemma_lower_key_index(m, key, i + 1);
        if spec_to_lowercase(m[i].0) != key {
            assert((exists|k: int| i <= k < m.len() && spec_to_lowercase(#[trigger] m[k].0) == key) ==> (exists|k: int|
                i + 1 <= k < m.len() && spec_to_lowercase(#[trigger] m[k].0) == key));
        }
    }
}

/// Content-Type of mock responses: when some header's name, lower-cased, is
/// `content-type`, the headers sent are exactly the response's own; when
/// none is, a text body adds `Content-Type: text/plain; charset=utf-8`, a
/// JSON body `Content-Type: application/json`, bytes
/// `Content-Type: application/octet-stream`, and an empty body nothing.
pub proof fn law_mock_content_type(r: ResponseModel)
    ensures
        (exists|i: int| 0 <= i < r.headers.len() && spec_to_lowercase(#[trigger] r.headers[i].0) == "content-type"@)
            ==> mock_headers_spec(r) == r.headers,
        (forall|i: int| 0 <= i < r.headers.len() ==> spec_to_lowercase(#[trigger] r.headers[i].0) != "content-type"@)
            ==> mock_headers_spec(r) == match r.body {
            BodyModel::Empty => r.headers,
            BodyModel::Text(_) => r.headers.push(("Content-Type"@, "text/plain; charset=utf-8"@)),
            BodyModel::Json(_) => r.headers.push(("Content-Type"@, "application/json"@)),
            BodyModel::Binary(_) => r.headers.push(("Content-Type"@, "application/octet-stream"@)),
        },
{
    lemma_lower_key_index(r.headers, "content-type"@, 0);
}

} // verus!
