//! Header transforms.

use vstd::prelude::*;
use super::{Transform, TransformError, TransformModel, TErrModel, apply_request, apply_response, transform_name, without_lower_key};
use super::template::{TemplateSubst, template_of};
use crate::pairs::{pairs_view, set_pair};
use crate::request::{RequestData, RequestModel};
use crate::response::{ResponseData, ResponseModel};
use crate::strmap::MapModel;
use crate::text::{spec_to_lowercase, to_lowercase};

verus! {

/// Sets a header: the first header with exactly this name gets the value,
/// otherwise the header is appended. The value may hold `{{path.name}}`
/// placeholders.
#[derive(Debug, Clone, PartialEq)]
pub struct SetHeader {
    name: String,
    template: TemplateSubst,
}

impl View for SetHeader {
    type V = TransformModel;

    closed spec fn view(&self) -> TransformModel {
        TransformModel::SetHeader { name: self.name@, template: self.template@ }
    }
}

impl SetHeader {
    /// A transform that sets header `name` to `value`.
    pub fn new(name: &str, value: &str) -> (r: SetHeader)
        ensures
            r@ == (TransformModel::SetHeader { name: name@, template: template_of(value@) }),
    {
        SetHeader {
            name: String::from_str(name),
            template: TemplateSubst::new(value),
        }
    }
}

impl Transform for SetHeader {
    open spec fn model(&self) -> TransformModel {
        self@
    }

    fn transform_request(&self, request: RequestData) -> (r: Result<RequestData, TransformError>) {
        let mut request = request;
        let value = self.template.substitute(&request.path_params);
        set_pair(&mut request.headers, self.name.clone(), value);
        Ok(request)
    }

    fn transform_response(&self, response: ResponseData) -> (r: Result<ResponseData, TransformError>) {
        let mut response = response;
        let value = self.template.substitute(&response.path_params);
        set_pair(&mut response.headers, self.name.clone(), value);
        Ok(response)
    }

    fn name(&self) -> (r: &str) {
        "SetHeader"
    }
}

/// Removes every header whose name equals the given one after lower-casing.
#[derive(Debug, Clone, PartialEq)]
pub struct RemoveHeader {
    name: String,
}

impl View for RemoveHeader {
    type V = TransformModel;

    closed spec fn view(&self) -> TransformModel {
        TransformModel::RemoveHeader { name: self.name@ }
    }
}

/// Removes every pair whose key, lower-cased, equals `lower`.
fn remove_lower_key(v: Vec<(String, String)>, lower: &str) -> (r: Vec<(String, String)>)
    ensures
        pairs_view(r@) == without_lower_key(pairs_view(v@), lower@),
{
    let ghost m = pairs_view(v@);
    let mut out: Vec<(String, String)> = Vec::new();
    let mut i: usize = 0;
    assert(pairs_view(out@) =~= without_lower_key(m.subrange(0, 0), lower@));
    while i < v.len()
        invariant
            m == pairs_view(v@),
            i <= v.len(),
            pairs_view(out@) == without_lower_key(m.subrange(0, i as int), lower@),
        decreases v.len() - i,
    {
        assert(m.subrange(0, i + 1).drop_last() =~= m.subrange(0, i as int));
        let ghost before = pairs_view(out@);
        let k = to_lowercase(v[i].0.as_str());
        if !crate::text::str_eq(k.as_str(), lower) {
            let key = v[i].0.clone();
            let x = v[i].1.clone();
            out.push((key, x));
            assert(pairs_view(out@) =~= before.push(m[i as int]));
        }
        i = i + 1;
    }
    assert(m.subrange(0, i as int) =~= m);
    out
}

impl RemoveHeader {
    /// A transform that removes header `name` (compared after lower-casing).
    pub fn new(name: &str) -> (r: RemoveHeader)
        ensures
            r@ == (TransformModel::RemoveHeader { name: spec_to_lowercase(name@) }),
    {
        RemoveHeader { name: to_lowercase(name) }
    }
}

impl Transform for RemoveHeader {
    open spec fn model(&self) -> TransformModel {
        self@
    }

    fn transform_request(&self, request: RequestData) -> (r: Result<RequestData, TransformError>) {
        let lower = to_lowercase(self.name.as_str());
        let headers = remove_lower_key(request.headers, lower.as_str());
        Ok(RequestData { headers, ..request })
    }

    fn transform_response(&self, response: ResponseData) -> (r: Result<ResponseData, TransformError>) {
        let lower = to_lowercase(self.name.as_str());
        let headers = remove_lower_key(response.headers, lower.as_str());
        Ok(ResponseData { headers, ..response })
    }

    fn name(&self) -> (r: &str) {
        "RemoveHeader"
    }
}

} // verus!
