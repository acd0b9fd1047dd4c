//! Query-parameter transforms (requests only).

use vstd::prelude::*;
use super::{Transform, TransformError, TransformModel, TErrModel, apply_request, apply_response, transform_name, set_query_spec};
use super::template::{TemplateSubst, template_of};
use crate::pairs::{pairs_view, key_position, set_pair, remove_key, sort_pairs_by_key, without_key};
use crate::request::{RequestData, RequestModel};
use crate::response::{ResponseData, ResponseModel};
use crate::strmap::{key_index, map_insert};

verus! {

/// Sets a query parameter: an existing parameter gets the value in place;
/// otherwise the parameter is appended and the list sorted by key. The value
/// may hold `{{path.name}}` placeholders.
#[derive(Debug, Clone, PartialEq)]
pub struct SetQuery {
    name: String,
    template: TemplateSubst,
}

impl View for SetQuery {
    type V = TransformModel;

    closed spec fn view(&self) -> TransformModel {
        TransformModel::SetQuery { name: self.name@, template: self.template@ }
    }
}

impl SetQuery {
    /// A transform that sets query parameter `name` to `value`.
    pub fn new(name: &str, value: &str) -> (r: SetQuery)
        ensures
            r@ == (TransformModel::SetQuery { name: name@, template: template_of(value@) }),
    {
        SetQuery {
            name: String::from_str(name),
            template: TemplateSubst::new(value),
        }
    }
}

impl Transform for SetQuery {
    open spec fn model(&self) -> TransformModel {
        self@
    }

    fn transform_request(&self, request: RequestData) -> (r: Result<RequestData, TransformError>) {
        let value = self.template.substitute(&request.path_params);
        let mut query = request.query;
        match key_position(&query, self.name.as_str()) {
            Some(_) => {
                set_pair(&mut query, self.name.clone(), value);
            },
            None => {
                let ghost before = pairs_view(query@);
                let ghost vv = value@;
                query.push((self.name.clone(), value));
                assert(pairs_view(query@) =~= before.push((self.name@, vv)));
                query = sort_pairs_by_key(query);
            },
        }
        Ok(RequestData { query, ..request })
    }

    fn transform_response(&self, response: ResponseData) -> (r: Result<ResponseData, TransformError>) {
        Err(TransformError::QueryNotFound(self.name.clone()))
    }

    fn name(&self) -> (r: &str) {
        "SetQuery"
    }
}

/// Removes every query parameter with the given name; fails when there is
/// none.
#[derive(Debug, Clone, PartialEq)]
pub struct RemoveQuery {
    name: String,
}

impl View for RemoveQuery {
    type V = TransformModel;

    closed spec fn view(&self) -> TransformModel {
        TransformModel::RemoveQuery { name: self.name@ }
    }
}

impl RemoveQuery {
    /// A transform that removes query parameter `name`.
    pub fn new(name: &str) -> (r: RemoveQuery)
        ensures
            r@ == (TransformModel::RemoveQuery { name: name@ }),
    {
        RemoveQuery { name: String::from_str(name) }
    }
}

impl Transform for RemoveQuery {
    open spec fn model(&self) -> TransformModel {
        self@
    }

    fn transform_request(&self, request: RequestData) -> (r: Result<RequestData, TransformError>) {
        let original_len = request.query.len();
        let query = remove_key(request.query, self.name.as_str());
        if query.len() == original_len {
            return Err(TransformError::QueryNotFound(self.name.clone()));
        }
        Ok(RequestData { query, ..request })
    }

    fn transform_response(&self, response: ResponseData) -> (r: Result<ResponseData, TransformError>) {
        Err(TransformError::QueryNotFound(self.name.clone()))
    }

    fn name(&self) -> (r: &str) {
        "RemoveQuery"
    }
}

} // verus!
