//! Incoming requests and the context of a matched route.

use vstd::prelude::*;
use crate::body::{BodyData, BodyModel};
use crate::pairs::{pairs_view, strings_view, copy_pairs, copy_strings, first_value, sort_pairs_by_key, sort_by_key_spec};
use crate::strmap::{StrMap, MapModel, map_lookup, map_insert};

verus! {

/// An incoming HTTP request, independent of any server library.
#[derive(Debug, PartialEq)]
pub struct RequestData {
    /// HTTP method (e.g. "GET").
    pub method: String,
    /// Request path (e.g. "/users/123").
    pub path: String,
    /// Query parameters, sorted by key.
    pub query: Vec<(String, String)>,
    /// Request headers, keys in lower case.
    pub headers: Vec<(String, String)>,
    /// Request body.
    pub body: BodyData,
    /// Path parameters of the matched route (used by template values).
    pub path_params: StrMap,
}

/// Model of a request.
pub struct RequestModel {
    pub method: Seq<char>,
    pub path: Seq<char>,
    pub query: MapModel,
    pub headers: MapModel,
    pub body: BodyModel,
    pub path_params: MapModel,
}

impl View for RequestData {
    type V = RequestModel;

    open spec fn view(&self) -> RequestModel {
        RequestModel {
            method: self.method@,
            path: self.path@,
            query: pairs_view(self.query@),
            headers: pairs_view(self.headers@),
            body: self.body@,
            path_params: self.path_params@,
        }
    }
}

impl RequestData {
    /// A request with the given method and path and nothing else.
    pub fn new(method: &str, path: &str) -> (r: RequestData)
        ensures
            r@ == (RequestModel {
                method: method@,
                path: path@,
                query: Seq::empty(),
                headers: Seq::empty(),
                body: BodyModel::Empty,
                path_params: Seq::empty(),
            }),
    {
        let r = RequestData {
            method: String::from_str(method),
            path: String::from_str(path),
            query: Vec::new(),
            headers: Vec::new(),
            body: BodyData::Empty,
            path_params: StrMap::new(),
        };
        assert(r@.query =~= Seq::<(Seq<char>, Seq<char>)>::empty());
        assert(r@.headers =~= Seq::<(Seq<char>, Seq<char>)>::empty());
        r
    }

    /// Sets the query parameters, stably sorted by key.
    pub fn with_query(self, query: Vec<(String, String)>) -> (r: RequestData)
        ensures
            r@ == (RequestModel { query: sort_by_key_spec(pairs_view(query@)), ..self@ }),
    {
        let sorted = sort_pairs_by_key(query);
        RequestData { query: sorted, ..self }
    }

    /// Sets the headers.
    pub fn with_headers(self, headers: Vec<(String, String)>) -> (r: RequestData)
        ensures
            r@ == (RequestModel { headers: pairs_view(headers@), ..self@ }),
    {
        RequestData { headers, ..self }
    }

    /// Sets the body.
    pub fn with_body(self, body: BodyData) -> (r: RequestData)
        ensures
            r@ == (RequestModel { body: body@, ..self@ }),
    {
        RequestData { body, ..self }
    }

    /// The value of the first header whose key is exactly `key`.
    pub fn header(&self, key: &str) -> (r: Option<&str>)
        ensures
            match r {
                Some(v) => map_lookup(self@.headers, key@) == Some(v@),
                None => map_lookup(self@.headers, key@) is None,
            },
    {
        first_value(&self.headers, key)
    }

    /// The value of the first query parameter whose key is exactly `key`.
    pub fn query_param(&self, key: &str) -> (r: Option<&str>)
        ensures
            match r {
                Some(v) => map_lookup(self@.query, key@) == Some(v@),
                None => map_lookup(self@.query, key@) is None,
            },
    {
        first_value(&self.query, key)
    }

    /// A deep copy of the request.
    pub fn duplicate(&self) -> (r: RequestData)
        ensures
            r@ == self@,
    {
        RequestData {
            method: self.method.clone(),
            path: self.path.clone(),
            query: copy_pairs(&self.query),
            headers: copy_pairs(&self.headers),
            body: self.body.duplicate(),
            path_params: self.path_params.duplicate(),
        }
    }
}

/// Context of a matched route, carried through the request's life.
#[derive(Debug, Clone, PartialEq)]
pub struct MatchedRequestContext {
    /// The matched route ID.
    pub route_id: String,
    /// Path parameters extracted by the route's pattern.
    pub path_params: StrMap,
    /// Descriptions of the matchers that matched.
    pub matched_rules: Vec<String>,
}

/// Model of a matched-route context.
pub struct ContextModel {
    pub route_id: Seq<char>,
    pub path_params: MapModel,
    pub matched_rules: Seq<Seq<char>>,
}

impl View for MatchedRequestContext {
    type V = ContextModel;

    open spec fn view(&self) -> ContextModel {
        ContextModel {
            route_id: self.route_id@,
            path_params: self.path_params@,
            matched_rules: strings_view(self.matched_rules@),
        }
    }
}

impl MatchedRequestContext {
    /// A context for `route_id` with no parameters and no matched rules.
    pub fn new(route_id: &str) -> (r: MatchedRequestContext)
        ensures
            r@ == (ContextModel {
                route_id: route_id@,
                path_params: Seq::empty(),
                matched_rules: Seq::empty(),
            }),
    {
        let r = MatchedRequestContext {
            route_id: String::from_str(route_id),
            path_params: StrMap::new(),
            matched_rules: Vec::new(),
        };
        assert(r@.matched_rules =~= Seq::<Seq<char>>::empty());
        r
    }

    /// Adds (or replaces) a path parameter.
    pub fn with_path_param(self, name: &str, value: &str) -> (r: MatchedRequestContext)
        ensures
            r@ == (ContextModel {
                path_params: map_insert(self@.path_params, name@, value@),
                ..self@
            }),
    {
        let mut s = self;
        s.path_params.insert(String::from_str(name), String::from_str(value));
        s
    }

    /// Adds a matched-rule description.
    pub fn with_matched_rule(self, rule: &str) -> (r: MatchedRequestContext)
        ensures
            r@ == (ContextModel { matched_rules: self@.matched_rules.push(rule@), ..self@ }),
    {
        let mut s = self;
        s.matched_rules.push(String::from_str(rule));
        assert(strings_view(s.matched_rules@) =~= strings_view(self.matched_rules@).push(rule@));
        s
    }

    /// A copy of the context.
    pub fn duplicate(&self) -> (r: MatchedRequestContext)
        ensures
            r@ == self@,
    {
        MatchedRequestContext {
            route_id: self.route_id.clone(),
            path_params: self.path_params.duplicate(),
            matched_rules: copy_strings(&self.matched_rules),
        }
    }
}

} // verus!
