//! A quick check of a configuration before an engine is compiled from it:
//! version, unique route IDs and forward URLs.

use vstd::prelude::*;
use crate::json::{JsonValue, JsonModel, json_get, json_as_u64, model_of, model_array, lemma_model_array_len, parse_json_text, spec_json_parse, spec_json_debug, json_debug_text};
use crate::engine::compile::get_str;
use crate::text::{concat, decimal, fmt_u64, starts_with, starts_with_spec, str_eq};

verus! {

/// The ID of a route object (empty when missing).
pub open spec fn route_id(r: JsonModel) -> Seq<char> {
    match get_str(r, "id"@) {
        Some(s) => s,
        None => Seq::empty(),
    }
}

/// Whether an earlier route has the same ID as route `i`.
pub open spec fn id_seen_before(xs: Seq<JsonModel>, i: int) -> bool {
    exists|j: int| 0 <= j < i && route_id(#[trigger] xs[j]) == route_id(xs[i])
}

/// The problem of a forward action whose upstream URL has no HTTP scheme.
pub open spec fn upstream_problem(r: JsonModel) -> Option<Seq<char>> {
    match json_get(r, "action"@) {
        Some(a) => if get_str(a, "type"@) == Some("forward"@) {
            let u = match get_str(a, "upstream"@) {
                Some(u) => u,
                None => Seq::empty(),
            };
            if !(starts_with_spec(u, "http://"@) || starts_with_spec(u, "https://"@)) {
                Some(
                    "INVALID_UPSTREAM_URL: must start with http:// or https:// (got '"@ + u
                        + "')"@,
                )
            } else {
                None
            }
        } else {
            None
        },
        None => None,
    }
}

/// The problem of route `i`: a repeated ID, else a bad upstream URL.
pub open spec fn route_problem(xs: Seq<JsonModel>, i: int) -> Option<Seq<char>> {
    if id_seen_before(xs, i) {
        Some(
            "DUPLICATE_ROUTE_ID: route id '"@ + route_id(xs[i]) + "' appears more than once (at index "@
                + decimal(i as nat) + ")"@,
        )
    } else {
        upstream_problem(xs[i])
    }
}

/// The problem of the first route at or after `i` that has one.
pub open spec fn first_route_problem(xs: Seq<JsonModel>, i: int) -> Option<Seq<char>>
    decreases xs.len() - i,
{
    if i < 0 || i >= xs.len() {
        None
    } else {
        match route_problem(xs, i) {
            Some(e) => Some(e),
            None => first_route_problem(xs, i + 1),
        }
    }
}

/// The check of a configuration value: the version, when present, must be
/// 1; then the routes are checked in order.
pub open spec fn validate_value_spec(v: JsonModel) -> Result<(), Seq<char>> {
    let version_ok = match json_get(v, "version"@) {
        Some(x) => json_as_u64(x) == Some(1u64),
        None => true,
    };
    if !version_ok {
        Err("INVALID_VERSION: version must be 1, got "@ + spec_json_debug(json_get(v, "version"@)->Some_0))
    } else {
        let xs = match json_get(v, "routes"@) {
            Some(JsonModel::Array(xs)) => xs,
            _ => Seq::empty(),
        };
        match first_route_problem(xs, 0) {
            Some(e) => Err(e),
            None => Ok(()),
        }
    }
}

/// The check of configuration text: it must parse, then pass
/// `validate_value_spec`.
pub open spec fn validate_spec(text: Seq<char>) -> Result<(), Seq<char>> {
    match spec_json_parse(text) {
        Err(e) => Err("invalid JSON: "@ + e),
        Ok(v) => validate_value_spec(v),
    }
}

/// The ID of a route object.
fn route_id_exec(r: &JsonValue) -> (s: String)
    ensures
        s@ == route_id(r@),
{
    match r.get("id") {
        Some(x) => match x.as_str() {
            Some(s) => String::from_str(s),
            None => String::new(),
        },
        None => String::new(),
    }
}

/// The problem of a forward action whose upstream URL has no HTTP scheme.
fn upstream_problem_exec(r: &JsonValue) -> (p: Option<String>)
    ensures
        match upstream_problem(r@) {
            Some(e) => p matches Some(x) && x@ == e,
            None => p is None,
        },
{
    proof {
        reveal_strlit("forward");
    }
    let a = match r.get("action") {
        Some(a) => a,
        None => {
            return None;
        },
    };
    let is_forward = match a.get("type") {
        Some(t) => match t.as_str() {
            Some(t) => str_eq(t, "forward"),
            None => false,
        },
        None => false,
    };
    if !is_forward {
        return None;
    }
    let u = match a.get("upstream") {
        Some(x) => match x.as_str() {
            Some(u) => String::from_str(u),
            None => String::new(),
        },
        None => String::new(),
    };
    if !(starts_with(u.as_str(), "http://") || starts_with(u.as_str(), "https://")) {
        let m = concat(
            "INVALID_UPSTREAM_URL: must start with http:// or https:// (got '",
            u.as_str(),
        );
        Some(concat(m.as_str(), "')"))
    } else {
        None
    }
}

/// Checks a configuration value: the version and each route in order.
pub fn validate_value(v: &JsonValue) -> (r: Result<(), String>)
    ensures
        match validate_value_spec(v@) {
            Ok(_) => r is Ok,
            Err(e) => r matches Err(x) && x@ == e,
        },
{
    match v.get("version") {
        Some(x) => {
            if x.as_u64() != Some(1u64) {
                let d = json_debug_text(x);
                return Err(concat("INVALID_VERSION: version must be 1, got ", d.as_str()));
            }
        },
        None => {},
    }
    let empty: Vec<JsonValue> = Vec::new();
    let routes: &Vec<JsonValue> = match v.get("routes") {
        Some(x) => match x.as_array() {
            Some(xs) => xs,
            None => &empty,
        },
        None => &empty,
    };
    let ghost xm = model_array(routes@);
    proof {
        lemma_model_array_len(routes@);
        assert(model_array(empty@) =~= Seq::<JsonModel>::empty());
    }
    assert(xm == match json_get(v@, "routes"@) {
        Some(JsonModel::Array(xs)) => xs,
        _ => Seq::<JsonModel>::empty(),
    });
    let mut seen: Vec<String> = Vec::new();
    let mut i: usize = 0;
    while i < routes.len()
        invariant
            xm == model_array(routes@),
            validate_value_spec(v@) == match first_route_problem(xm, 0) {
                Some(e) => Err::<(), Seq<char>>(e),
                None => Ok::<(), Seq<char>>(()),
            },
            xm.len() == routes@.len(),
            forall|j: int| 0 <= j < routes@.len() ==> #[trigger] xm[j] == model_of(routes@[j]),
            i <= routes.len(),
            first_route_problem(xm, 0) == first_route_problem(xm, i as int),
            seen@.len() == i,
            forall|j: int| 0 <= j < i ==> (#[trigger] seen@[j])@ == route_id(xm[j]),
        decreases routes.len() - i,
    {
        let id = route_id_exec(&routes[i]);
        let mut dup = false;
        let mut k: usize = 0;
        while k < seen.len()
            invariant
                k <= seen@.len(),
                !dup ==> forall|j: int| 0 <= j < k ==> (#[trigger] seen@[j])@ != id@,
                dup ==> exists|j: int| 0 <= j < seen@.len() && (#[trigger] seen@[j])@ == id@,
            decreases seen.len() - k,
        {
            if str_eq(seen[k].as_str(), id.as_str()) {
                dup = true;
            }
            k = k + 1;
        }
        assert(dup == id_seen_before(xm, i as int)) by {
            if dup {
                let j = choose|j: int| 0 <= j < seen@.len() && (#[trigger] seen@[j])@ == id@;
                assert(route_id(xm[j]) == route_id(xm[i as int]));
            } else {
                assert forall|j: int| 0 <= j < i implies route_id(#[trigger] xm[j]) != route_id(xm[i as int]) by {
                    assert(seen@[j]@ == route_id(xm[j]));
                }
            }
        }
        if dup {
            let a = concat("DUPLICATE_ROUTE_ID: route id '", id.as_str());
            let b = concat(a.as_str(), "' appears more than once (at index ");
            let c = concat(b.as_str(), fmt_u64(i as u64).as_str());
            return Err(concat(c.as_str(), ")"));
        }
        match upstream_problem_exec(&routes[i]) {
            Some(e) => {
                return Err(e);
            },
            None => {},
        }
        seen.push(id);
        i = i + 1;
    }
    Ok(())
}

/// Checks configuration text: it must be JSON, with version 1 when a version
/// is given, unique route IDs, and forward URLs that start with `http://` or
/// `https://`.
pub fn validate_for_engine(json: &str) -> (r: Result<(), String>)
    ensures
        match validate_spec(json@) {
            Ok(_) => r is Ok,
            Err(e) => r matches Err(x) && x@ == e,
        },
{
    match parse_json_text(json) {
        Err(e) => Err(concat("invalid JSON: ", e.as_str())),
        Ok(v) => validate_value(&v),
    }
}

} // verus!
