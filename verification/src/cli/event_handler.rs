//! Display helpers for the terminal view: sensitive header masking and body
//! previews.

use vstd::prelude::*;
use crate::pairs::pairs_view;
use crate::strmap::MapModel;
use crate::text::{spec_to_lowercase, to_lowercase, str_eq};

verus! {

/// The text shown in place of a sensitive header's value.
pub open spec fn masked_value() -> Seq<char> {
    "***MASKED***"@
}

/// Whether a header, by its lower-cased name, is sensitive.
pub open spec fn is_sensitive_spec(name: Seq<char>) -> bool {
    let l = spec_to_lowercase(name);
    l == "authorization"@ || l == "cookie"@ || l == "proxy-authorization"@
}

/// Whether a header is sensitive (its value is hidden in the view).
pub fn is_sensitive_header(name: &str) -> (r: bool)
    ensures
        r == is_sensitive_spec(name@),
{
    let l = to_lowercase(name);
    str_eq(l.as_str(), "authorization") || str_eq(l.as_str(), "cookie") || str_eq(
        l.as_str(),
        "proxy-authorization",
    )
}

/// The value shown for a header: masked when the header is sensitive.
pub fn mask_header_value(name: &str, value: &str) -> (r: String)
    ensures
        r@ == if is_sensitive_spec(name@) { masked_value() } else { value@ },
{
    proof {
        reveal_strlit("***MASKED***");
    }
    if is_sensitive_header(name) {
        String::from_str("***MASKED***")
    } else {
        String::from_str(value)
    }
}

/// The headers as shown: names kept, sensitive values masked.
pub open spec fn masked_headers(hs: MapModel) -> MapModel {
    hs.map_values(
        |p: (Seq<char>, Seq<char>)|
            (p.0, if is_sensitive_spec(p.0) { masked_value() } else { p.1 }),
    )
}

/// The headers with sensitive values masked.
pub fn mask_sensitive_headers(headers: &[(String, String)]) -> (r: Vec<(String, String)>)
    ensures
        pairs_view(r@) == masked_headers(pairs_view(headers@)),
{
    let ghost hv = pairs_view(headers@);
    let mut out: Vec<(String, String)> = Vec::new();
    let mut i: usize = 0;
    while i < headers.len()
        invariant
            hv == pairs_view(headers@),
            i <= headers.len(),
            pairs_view(out@) == masked_headers(hv).subrange(0, i as int),
        decreases headers.len() - i,
    {
        let name = headers[i].0.clone();
        let value = mask_header_value(headers[i].0.as_str(), headers[i].1.as_str());
        let ghost item = (name@, value@);
        let ghost before = pairs_view(out@);
        assert(masked_headers(hv)[i as int] == item);
        out.push((name, value));
        assert(pairs_view(out@) =~= before.push(item));
        assert(masked_headers(hv).subrange(0, i + 1) =~= masked_headers(hv).subrange(0, i as int).push(item));
        i = i + 1;
    }
    assert(masked_headers(hv).subrange(0, i as int) =~= masked_headers(hv));
    out
}

/// The largest body preview, in bytes (32 KiB).
pub const MAX_BODY_PREVIEW: usize = 32768;

/// The body preview: at most the first `MAX_BODY_PREVIEW` bytes.
pub fn truncate_body(body: &[u8]) -> (r: &[u8])
    ensures
        body@.len() > MAX_BODY_PREVIEW ==> r@ == body@.subrange(0, MAX_BODY_PREVIEW as int),
        body@.len() <= MAX_BODY_PREVIEW ==> r@ == body@,
{
    if body.len() > MAX_BODY_PREVIEW {
        vstd::slice::slice_subrange(body, 0, MAX_BODY_PREVIEW)
    } else {
        body
    }
}

} // verus!
