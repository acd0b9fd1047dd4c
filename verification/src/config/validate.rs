//! The semantic check of a configuration: a list of issues, empty when the
//! configuration is valid.

use vstd::prelude::*;
use super::{Config, ConfigModel, RouteModel, ActionSpecModel, ValidationIssue, IssueModel, ValidationSeverity, routes_view};
use crate::transform::from_spec::DefModel;
use crate::text::{concat, decimal, decimal_int, fmt_u64, fmt_i64, push_char, starts_with, starts_with_spec, str_eq, chars_of};

verus! {

/// Model of a list of issues.
pub open spec fn issues_view(v: Seq<ValidationIssue>) -> Seq<IssueModel> {
    v.map_values(|x: ValidationIssue| x@)
}

/// An issue with the given parts.
pub open spec fn issue(code: Seq<char>, path: Seq<char>, message: Seq<char>, severity: ValidationSeverity, suggestion: Seq<char>) -> IssueModel {
    IssueModel { code, path, message, severity, suggestion: Some(suggestion) }
}

/// The version must be 1.
pub open spec fn version_issues(c: ConfigModel) -> Seq<IssueModel> {
    if c.version != 1 {
        seq![
            issue(
                "INVALID_VERSION"@,
                "/version"@,
                "version must be 1, got "@ + decimal(c.version as nat),
                ValidationSeverity::Error,
                "set version to 1"@,
            ),
        ]
    } else {
        Seq::empty()
    }
}

/// TLS passwords need a keystore, and a keystore needs its password.
pub open spec fn tls_issues(c: ConfigModel) -> Seq<IssueModel> {
    let s = c.server;
    if s.keystore_file is None && (s.keystore_password is Some || s.key_password is Some) {
        seq![
            issue(
                "TLS_PASSWORD_WITHOUT_KEYSTORE"@,
                "/server"@,
                "keystore_password/key_password are set but keystore_file is missing"@,
                ValidationSeverity::Error,
                "set server.keystore_file to a JKS file, or remove the TLS passwords"@,
            ),
        ]
    } else if s.keystore_file is Some && s.keystore_password is None {
        seq![
            issue(
                "MISSING_KEYSTORE_PASSWORD"@,
                "/server/keystore_password"@,
                "keystore_password is required when keystore_file is set"@,
                ValidationSeverity::Error,
                "set server.keystore_password to the JKS keystore password"@,
            ),
        ]
    } else {
        Seq::empty()
    }
}

/// Whether an earlier route has the same ID as route `i`.
pub open spec fn id_repeated(rs: Seq<RouteModel>, i: int) -> bool {
    exists|j: int| 0 <= j < i && (#[trigger] rs[j]).id == rs[i].id
}

/// A repeated route ID is an error, reported at each repetition.
pub open spec fn route_id_issues(rs: Seq<RouteModel>, n: int) -> Seq<IssueModel>
    decreases n,
{
    if n <= 0 {
        Seq::empty()
    } else {
        route_id_issues(rs, n - 1) + if id_repeated(rs, n - 1) {
            seq![
                issue(
                    "DUPLICATE_ROUTE_ID"@,
                    "/routes/"@ + decimal((n - 1) as nat) + "/id"@,
                    "duplicate route id: '"@ + rs[n - 1].id + "'"@,
                    ValidationSeverity::Error,
                    "use a unique id for each route"@,
                ),
            ]
        } else {
            Seq::empty()
        }
    }
}

/// A negative priority is a warning.
pub open spec fn priority_issues(rs: Seq<RouteModel>, n: int) -> Seq<IssueModel>
    decreases n,
{
    if n <= 0 {
        Seq::empty()
    } else {
        priority_issues(rs, n - 1) + if rs[n - 1].priority < 0 {
            seq![
                issue(
                    "NEGATIVE_PRIORITY"@,
                    "/routes/"@ + decimal((n - 1) as nat) + "/priority"@,
                    "priority should be positive, got "@ + decimal_int(rs[n - 1].priority as int),
                    ValidationSeverity::Warning,
                    "use a positive priority value"@,
                ),
            ]
        } else {
            Seq::empty()
        }
    }
}

/// The result of `url::Url::parse(url)`: whether the parsed URL has a host,
/// or the parse error's text.
pub uninterp spec fn spec_url_parse(url: Seq<char>) -> Result<bool, Seq<char>>;

/// Parses `url` with `url::Url::parse` and reports whether it has a host
/// (`Url::host` is `Some`), or the error's text; the result is the named
/// `spec_url_parse` of the text.
#[verifier::external_body]
fn url_has_host(url: &str) -> (r: Result<bool, String>)
    ensures
        match r {
            Ok(b) => spec_url_parse(url@) == Ok::<bool, Seq<char>>(b),
            Err(e) => spec_url_parse(url@) == Err::<bool, Seq<char>>(e@),
        },
{
    match url::Url::parse(url) {
        Ok(u) => Ok(u.host().is_some()),
        Err(e) => Err(e.to_string()),
    }
}

/// What is wrong with an upstream URL: no HTTP scheme, a parse error, or no
/// host.
pub open spec fn url_problem(u: Seq<char>) -> Option<Seq<char>> {
    if !starts_with_spec(u, "http://"@) && !starts_with_spec(u, "https://"@) {
        Some("must start with http:// or https://"@)
    } else {
        match spec_url_parse(u) {
            Err(e) => Some("parse error: "@ + e),
            Ok(has_host) => if !has_host {
                Some("must have a host"@)
            } else {
                None
            },
        }
    }
}

/// A forward action's upstream must be a valid HTTP(S) URL with a host.
pub open spec fn forward_url_issues(rs: Seq<RouteModel>, n: int) -> Seq<IssueModel>
    decreases n,
{
    if n <= 0 {
        Seq::empty()
    } else {
        forward_url_issues(rs, n - 1) + match rs[n - 1].action {
            ActionSpecModel::Forward { upstream, .. } => match url_problem(upstream) {
                Some(e) => seq![
                    issue(
                        "INVALID_UPSTREAM_URL"@,
                        "/routes/"@ + decimal((n - 1) as nat) + "/action/upstream"@,
                        "invalid upstream URL '"@ + upstream + "': "@ + e,
                        ValidationSeverity::Error,
                        "provide a valid HTTP/HTTPS URL"@,
                    ),
                ],
                None => Seq::empty(),
            },
            _ => Seq::empty(),
        }
    }
}

/// Characters allowed in a JSON Pointer after its leading `/`.
pub open spec fn pointer_char_ok(c: char) -> bool {
    ('0' <= c <= '9') || ('a' <= c <= 'z') || ('A' <= c <= 'Z') || c == '_' || c == '-' || c == '.'
        || c == '~' || c == '/'
}

/// The first position at or after `i` holding a character not allowed in a
/// JSON Pointer.
pub open spec fn first_bad_char_from(p: Seq<char>, i: int) -> Option<int>
    decreases p.len() - i,
{
    if i < 0 || i >= p.len() {
        None
    } else if !pointer_char_ok(p[i]) {
        Some(i)
    } else {
        first_bad_char_from(p, i + 1)
    }
}

/// What is wrong with a JSON Pointer: no leading `/`, or a character outside
/// ASCII letters, digits and `_ - . ~ /`.
pub open spec fn pointer_problem(p: Seq<char>) -> Option<Seq<char>> {
    if !(p.len() > 0 && p[0] == '/') {
        Some("must start with /"@)
    } else {
        match first_bad_char_from(p, 1) {
            Some(i) => Some("invalid character '"@ + seq![p[i]] + "' at position "@ + decimal(i as nat)),
            None => None,
        }
    }
}

/// The issues of the JSON Pointers among transforms, indexed from 0 within
/// the list.
pub open spec fn pointer_issues(ri: int, ts: Seq<DefModel>, n: int) -> Seq<IssueModel>
    decreases n,
{
    if n <= 0 {
        Seq::empty()
    } else {
        let path = match ts[n - 1] {
            DefModel::SetJsonPointer { path, .. } => Some(path),
            DefModel::RemoveJsonPointer { path } => Some(path),
            _ => None,
        };
        pointer_issues(ri, ts, n - 1) + match path {
            Some(p) => match pointer_problem(p) {
                Some(e) => seq![
                    issue(
                        "INVALID_JSON_POINTER"@,
                        "/routes/"@ + decimal(ri as nat) + "/action/transforms/"@ + decimal(
                            (n - 1) as nat,
                        ),
                        "invalid JSON Pointer '"@ + p + "': "@ + e,
                        ValidationSeverity::Error,
                        "use RFC 6901 JSON Pointer format (e.g., /foo/bar or /a/b/0)"@,
                    ),
                ],
                None => Seq::empty(),
            },
            None => Seq::empty(),
        }
    }
}

/// The pointer issues of a route: its request transforms, then its response
/// transforms.
pub open spec fn route_pointer_issues(ri: int, r: RouteModel) -> Seq<IssueModel> {
    match r.action {
        ActionSpecModel::Forward { request_transforms, response_transforms, .. } => pointer_issues(
            ri,
            request_transforms,
            request_transforms.len() as int,
        ) + pointer_issues(ri, response_transforms, response_transforms.len() as int),
        _ => Seq::empty(),
    }
}

/// Transform JSON Pointers must be valid.
pub open spec fn transform_path_issues(rs: Seq<RouteModel>, n: int) -> Seq<IssueModel>
    decreases n,
{
    if n <= 0 {
        Seq::empty()
    } else {
        transform_path_issues(rs, n - 1) + route_pointer_issues(n - 1, rs[n - 1])
    }
}

/// Whether a match rule has any criterion.
pub open spec fn has_criterion(r: RouteModel) -> bool {
    let m = r.match_rule;
    m.method is Some || m.path is Some || (m.headers matches Some(h) && h.len() > 0) || (
    m.query matches Some(q) && q.len() > 0) || m.body is Some
}

/// A match rule without any criterion is a warning.
pub open spec fn match_rule_issues(rs: Seq<RouteModel>, n: int) -> Seq<IssueModel>
    decreases n,
{
    if n <= 0 {
        Seq::empty()
    } else {
        match_rule_issues(rs, n - 1) + if !has_criterion(rs[n - 1]) {
            seq![
                issue(
                    "EMPTY_MATCH_RULE"@,
                    "/routes/"@ + decimal((n - 1) as nat) + "/match_rule"@,
                    "match rule has no criteria - at least one of method, path, headers, query, or body is required"@,
                    ValidationSeverity::Warning,
                    "add at least one match criterion (method, path, headers, query, or body)"@,
                ),
            ]
        } else {
            Seq::empty()
        }
    }
}

/// All issues of a configuration, by category in this order: version, TLS,
/// route IDs, priorities, forward URLs, transform pointers, match rules.
pub open spec fn validate_spec(c: ConfigModel) -> Seq<IssueModel> {
    let n = c.routes.len() as int;
    version_issues(c) + tls_issues(c) + route_id_issues(c.routes, n) + priority_issues(c.routes, n)
        + forward_url_issues(c.routes, n) + transform_path_issues(c.routes, n) + match_rule_issues(
        c.routes,
        n,
    )
}

/// Builds an issue.
fn make_issue(code: &str, path: String, message: String, severity: ValidationSeverity, suggestion: &str) -> (r: ValidationIssue)
    ensures
        r@ == issue(code@, path@, message@, severity, suggestion@),
{
    ValidationIssue {
        code: String::from_str(code),
        path,
        message,
        severity,
        suggestion: Some(String::from_str(suggestion)),
    }
}

/// `"/routes/{i}{rest}"`.
fn route_path(i: usize, rest: &str) -> (r: String)
    ensures
        r@ == "/routes/"@ + decimal(i as nat) + rest@,
{
    let a = concat("/routes/", fmt_u64(i as u64).as_str());
    concat(a.as_str(), rest)
}

/// Appends `b` to `a` and says how the views relate.
fn push_issue(v: &mut Vec<ValidationIssue>, x: ValidationIssue)
    ensures
        issues_view(final(v)@) == issues_view(old(v)@).push(x@),
{
    let ghost xv = x@;
    v.push(x);
    assert(issues_view(v@) =~= issues_view(old(v)@).push(xv));
}

/// What is wrong with an upstream URL.
fn url_problem_exec(u: &str) -> (r: Option<String>)
    ensures
        match url_problem(u@) {
            Some(e) => r matches Some(x) && x@ == e,
            None => r is None,
        },
{
    if !starts_with(u, "http://") && !starts_with(u, "https://") {
        return Some(String::from_str("must start with http:// or https://"));
    }
    match url_has_host(u) {
        Err(e) => Some(concat("parse error: ", e.as_str())),
        Ok(has_host) => if !has_host {
            Some(String::from_str("must have a host"))
        } else {
            None
        },
    }
}

/// Whether a character may appear in a JSON Pointer.
fn pointer_char_ok_exec(c: char) -> (r: bool)
    ensures
        r == pointer_char_ok(c),
{
    ('0' <= c && c <= '9') || ('a' <= c && c <= 'z') || ('A' <= c && c <= 'Z') || c == '_' || c
        == '-' || c == '.' || c == '~' || c == '/'
}

/// What is wrong with a JSON Pointer.
pub fn validate_json_pointer(path: &str) -> (r: Result<(), String>)
    ensures
        match pointer_problem(path@) {
            Some(e) => r matches Err(x) && x@ == e,
            None => r is Ok,
        },
{
    let cs = chars_of(path);
    if !(cs.len() > 0 && cs[0] == '/') {
        return Err(String::from_str("must start with /"));
    }
    let mut i: usize = 1;
    while i < cs.len()
        invariant
            cs@ == path@,
            path@.len() > 0 && path@[0] == '/',
            1 <= i <= cs.len(),
            first_bad_char_from(path@, 1) == first_bad_char_from(path@, i as int),
        decreases cs.len() - i,
    {
        if !pointer_char_ok_exec(cs[i]) {
            let mut a = String::from_str("invalid character '");
            push_char(&mut a, cs[i]);
            let b = concat(a.as_str(), "' at position ");
            let c = concat(b.as_str(), fmt_u64(i as u64).as_str());
            assert(a@ == "invalid character '"@ + seq![path@[i as int]]);
            return Err(c);
        }
        i = i + 1;
    }
    Ok(())
}

/// Appends the pointer issues of a list of transforms.
fn check_pointers(issues: &mut Vec<ValidationIssue>, ri: usize, ts: &Vec<crate::transform::TransformDef>)
    ensures
        issues_view(final(issues)@) == issues_view(old(issues)@) + pointer_issues(
            ri as int,
            super::defs_view(ts@),
            ts@.len() as int,
        ),
{
    let ghost tv = super::defs_view(ts@);
    let mut k: usize = 0;
    assert(issues_view(issues@) =~= issues_view(old(issues)@) + pointer_issues(ri as int, tv, 0));
    while k < ts.len()
        invariant
            tv == super::defs_view(ts@),
            k <= ts.len(),
            issues_view(issues@) == issues_view(old(issues)@) + pointer_issues(ri as int, tv, k as int),
        decreases ts.len() - k,
    {
        let ghost before = issues_view(issues@);
        let path: Option<&str> = match &ts[k] {
            crate::transform::TransformDef::SetJsonPointer { path, .. } => Some(path.as_str()),
            crate::transform::TransformDef::RemoveJsonPointer { path } => Some(path.as_str()),
            _ => None,
        };
        assert(tv[k as int] == ts@[k as int]@);
        match path {
            Some(p) => match validate_json_pointer(p) {
                Err(e) => {
                    let ps = route_path(ri, "/action/transforms/");
                    let ps = concat(ps.as_str(), fmt_u64(k as u64).as_str());
                    let m0 = concat("invalid JSON Pointer '", p);
                    let m1 = concat(m0.as_str(), "': ");
                    let m = concat(m1.as_str(), e.as_str());
                    push_issue(
                        issues,
                        make_issue(
                            "INVALID_JSON_POINTER",
                            ps,
                            m,
                            ValidationSeverity::Error,
                            "use RFC 6901 JSON Pointer format (e.g., /foo/bar or /a/b/0)",
                        ),
                    );
                },
                Ok(()) => {},
            },
            None => {},
        }
        assert(issues_view(issues@) =~= issues_view(old(issues)@) + pointer_issues(ri as int, tv, k + 1));
        k = k + 1;
    }
}

/// Checks a configuration; the result lists every issue found, errors and
/// warnings, and is empty for a valid configuration.
pub fn validate(config: &Config) -> (r: Vec<ValidationIssue>)
    ensures
        issues_view(r@) == validate_spec(config@),
{
    let ghost c = config@;
    let ghost rs = c.routes;
    let n = config.routes.len();
    let mut issues: Vec<ValidationIssue> = Vec::new();
    assert(issues_view(issues@) =~= Seq::<IssueModel>::empty());
    if config.version != 1 {
        let m = concat("version must be 1, got ", fmt_u64(config.version as u64).as_str());
        push_issue(
            &mut issues,
            make_issue(
                "INVALID_VERSION",
                String::from_str("/version"),
                m,
                ValidationSeverity::Error,
                "set version to 1",
            ),
        );
    }
    assert(issues_view(issues@) =~= version_issues(c));
    let server = &config.server;
    if server.keystore_file.is_none() && (server.keystore_password.is_some()
        || server.key_password.is_some()) {
        push_issue(
            &mut issues,
            make_issue(
                "TLS_PASSWORD_WITHOUT_KEYSTORE",
                String::from_str("/server"),
                String::from_str("keystore_password/key_password are set but keystore_file is missing"),
                ValidationSeverity::Error,
                "set server.keystore_file to a JKS file, or remove the TLS passwords",
            ),
        );
    } else if server.keystore_file.is_some() && server.keystore_password.is_none() {
        push_issue(
            &mut issues,
            make_issue(
                "MISSING_KEYSTORE_PASSWORD",
                String::from_str("/server/keystore_password"),
                String::from_str("keystore_password is required when keystore_file is set"),
                ValidationSeverity::Error,
                "set server.keystore_password to the JKS keystore password",
            ),
        );
    }
    let ghost base1 = version_issues(c) + tls_issues(c);
    assert(issues_view(issues@) =~= base1);
    let mut i: usize = 0;
    assert(issues_view(issues@) =~= base1 + route_id_issues(rs, 0));
    while i < n
        invariant
            c == config@,
            rs == c.routes,
            n == rs.len(),
            i <= n,
            issues_view(issues@) == base1 + route_id_issues(rs, i as int),
        decreases n - i,
    {
        let mut dup = false;
        let mut j: usize = 0;
        while j < i
            invariant
                rs == routes_view(config.routes@),
                i < n,
                n == rs.len(),
                j <= i,
                dup == exists|l: int| 0 <= l < j && (#[trigger] rs[l]).id == rs[i as int].id,
            decreases i - j,
        {
            assert(rs[j as int] == config.routes@[j as int]@);
            assert(rs[i as int] == config.routes@[i as int]@);
            if str_eq(config.routes[j].id.as_str(), config.routes[i].id.as_str()) {
                dup = true;
            }
            j = j + 1;
        }
        if dup {
            let m0 = concat("duplicate route id: '", config.routes[i].id.as_str());
            let m = concat(m0.as_str(), "'");
            push_issue(
                &mut issues,
                make_issue(
                    "DUPLICATE_ROUTE_ID",
                    route_path(i, "/id"),
                    m,
                    ValidationSeverity::Error,
                    "use a unique id for each route",
                ),
            );
        }
        assert(rs[i as int] == config.routes@[i as int]@);
        assert(issues_view(issues@) =~= base1 + route_id_issues(rs, i + 1));
        i = i + 1;
    }
    let ghost base2 = base1 + route_id_issues(rs, n as int);
    i = 0;
    assert(issues_view(issues@) =~= base2 + priority_issues(rs, 0));
    while i < n
        invariant
            c == config@,
            rs == c.routes,
            n == rs.len(),
            i <= n,
            issues_view(issues@) == base2 + priority_issues(rs, i as int),
        decreases n - i,
    {
        assert(rs[i as int] == config.routes@[i as int]@);
        if config.routes[i].priority < 0 {
            let m = concat(
                "priority should be positive, got ",
                fmt_i64(config.routes[i].priority as i64).as_str(),
            );
            push_issue(
                &mut issues,
                make_issue(
                    "NEGATIVE_PRIORITY",
                    route_path(i, "/priority"),
                    m,
                    ValidationSeverity::Warning,
                    "use a positive priority value",
                ),
            );
        }
        assert(issues_view(issues@) =~= base2 + priority_issues(rs, i + 1));
        i = i + 1;
    }
    let ghost base3 = base2 + priority_issues(rs, n as int);
    i = 0;
    assert(issues_view(issues@) =~= base3 + forward_url_issues(rs, 0));
    while i < n
        invariant
            c == config@,
            rs == c.routes,
            n == rs.len(),
            i <= n,
            issues_view(issues@) == base3 + forward_url_issues(rs, i as int),
        decreases n - i,
    {
        assert(rs[i as int] == config.routes@[i as int]@);
        match &config.routes[i].action {
            super::Action::Forward { upstream, .. } => match url_problem_exec(upstream.as_str()) {
                Some(e) => {
                    let m0 = concat("invalid upstream URL '", upstream.as_str());
                    let m1 = concat(m0.as_str(), "': ");
                    let m = concat(m1.as_str(), e.as_str());
                    push_issue(
                        &mut issues,
                        make_issue(
                            "INVALID_UPSTREAM_URL",
                            route_path(i, "/action/upstream"),
                            m,
                            ValidationSeverity::Error,
                            "provide a valid HTTP/HTTPS URL",
                        ),
                    );
                },
                None => {},
            },
            _ => {},
        }
        assert(issues_view(issues@) =~= base3 + forward_url_issues(rs, i + 1));
        i = i + 1;
    }
    let ghost base4 = base3 + forward_url_issues(rs, n as int);
    i = 0;
    assert(issues_view(issues@) =~= base4 + transform_path_issues(rs, 0));
    while i < n
        invariant
            c == config@,
            rs == c.routes,
            n == rs.len(),
            i <= n,
            issues_view(issues@) == base4 + transform_path_issues(rs, i as int),
        decreases n - i,
    {
        assert(rs[i as int] == config.routes@[i as int]@);
        let ghost before = issues_view(issues@);
        match &config.routes[i].action {
            super::Action::Forward { request_transforms, response_transforms, .. } => {
                check_pointers(&mut issues, i, request_transforms);
                check_pointers(&mut issues, i, response_transforms);
            },
            _ => {},
        }
        assert(issues_view(issues@) =~= before + route_pointer_issues(i as int, rs[i as int]));
        assert(issues_view(issues@) =~= base4 + transform_path_issues(rs, i + 1));
        i = i + 1;
    }
    let ghost base5 = base4 + transform_path_issues(rs, n as int);
    i = 0;
    assert(issues_view(issues@) =~= base5 + match_rule_issues(rs, 0));
    while i < n
        invariant
            c == config@,
            rs == c.routes,
            n == rs.len(),
            i <= n,
            issues_view(issues@) == base5 + match_rule_issues(rs, i as int),
        decreases n - i,
    {
        assert(rs[i as int] == config.routes@[i as int]@);
        let mr = &config.routes[i].match_rule;
        let has_headers = match &mr.headers {
            Some(h) => !h.is_empty(),
            None => false,
        };
        let has_query = match &mr.query {
            Some(q) => !q.is_empty(),
            None => false,
        };
        if !(mr.method.is_some() || mr.path.is_some() || has_headers || has_query || mr.body.is_some()) {
            push_issue(
                &mut issues,
                make_issue(
                    "EMPTY_MATCH_RULE",
                    route_path(i, "/match_rule"),
                    String::from_str(
                        "match rule has no criteria - at least one of method, path, headers, query, or body is required",
                    ),
                    ValidationSeverity::Warning,
                    "add at least one match criterion (method, path, headers, query, or body)",
                ),
            );
        }
        assert(issues_view(issues@) =~= base5 + match_rule_issues(rs, i + 1));
        i = i + 1;
    }
    issues
}

/// The issues joined as `"{path}: {message}"` with `"; "`, as reported by a
/// failed configuration check.
pub open spec fn join_issues(is: Seq<IssueModel>) -> Seq<char>
    decreases is.len(),
{
    if is.len() == 0 {
        Seq::empty()
    } else if is.len() == 1 {
        is[0].path + ": "@ + is[0].message
    } else {
        join_issues(is.drop_last()) + "; "@ + is.last().path + ": "@ + is.last().message
    }
}

/// The message of a failed configuration check: `None` when there is no
/// issue, else every issue as `"{path}: {message}"`, joined with `"; "`
/// (warnings included).
pub fn validation_failure(config: &Config) -> (r: Option<String>)
    ensures
        match r {
            None => validate_spec(config@).len() == 0,
            Some(m) => validate_spec(config@).len() > 0 && m@ == join_issues(validate_spec(config@)),
        },
{
    let issues = validate(config);
    if issues.len() == 0 {
        return None;
    }
    let ghost iv = issues_view(issues@);
    let mut out = String::new();
    let mut i: usize = 0;
    while i < issues.len()
        invariant
            iv == issues_view(issues@),
            i <= issues.len(),
            out@ == join_issues(iv.subrange(0, i as int)),
        decreases issues.len() - i,
    {
        assert(iv.subrange(0, i + 1).drop_last() =~= iv.subrange(0, i as int));
        if i > 0 {
            crate::text::push_str(&mut out, "; ");
        }
        crate::text::push_str(&mut out, issues[i].path.as_str());
        crate::text::push_str(&mut out, ": ");
        crate::text::push_str(&mut out, issues[i].message.as_str());
        proof {
            if i == 0 {
                assert(out@ =~= join_issues(iv.subrange(0, 1)));
            } else {
                assert(out@ =~= join_issues(iv.subrange(0, i + 1)));
            }
        }
        i = i + 1;
    }
    assert(iv.subrange(0, i as int) =~= iv);
    Some(out)
}

proof fn lemma_first_bad_char(p: Seq<char>, i: int)
    requires
        0 <= i,
    ensures
        first_bad_char_from(p, i) is None <==> forall|k: int| i <= k < p.len() ==> pointer_char_ok(#[trigger] p[k]),
        first_bad_char_from(p, i) matches Some(k) ==> i <= k < p.len() && !pointer_char_ok(p[k]),
    decreases p.len() - i,
{
    if i < p.len() {
        lemma_first_bad_char(p, i + 1);
    }
}

/// JSON Pointer characters: a pointer that starts with `/` and otherwise
/// holds only ASCII letters, ASCII digits and `_ - . ~ /` has no problem;
/// one that starts with `/` and holds any other character after it has one.
pub proof fn law_json_pointer_chars(p: Seq<char>)
    requires
        p.len() > 0,
        p[0] == '/',
    ensures
        (forall|i: int|
            1 <= i < p.len() ==> ('0' <= #[trigger] p[i] <= '9') || ('a' <= p[i] <= 'z') || ('A' <= p[i] <= 'Z')
                || p[i] == '_' || p[i] == '-' || p[i] == '.' || p[i] == '~' || p[i] == '/') ==> pointer_problem(p) is None,
        (exists|i: int|
            1 <= i < p.len() && !(('0' <= #[trigger] p[i] <= '9') || ('a' <= p[i] <= 'z') || ('A' <= p[i] <= 'Z')
                || p[i] == '_' || p[i] == '-' || p[i] == '.' || p[i] == '~' || p[i] == '/')) ==> pointer_problem(p) is Some,
{
    lemma_first_bad_char(p, 1);
}

proof fn lemma_first_bad_at(p: Seq<char>, i: int, k: int)
    requires
        1 <= i <= k < p.len(),
        !pointer_char_ok(p[k]),
        forall|l: int| i <= l < k ==> pointer_char_ok(#[trigger] p[l]),
    ensures
        first_bad_char_from(p, i) == Some(k),
    decreases k - i,
{
    if i < k {
        lemma_first_bad_at(p, i + 1, k);
    }
}

/// The reported JSON Pointer problem: without a leading `/` the pointer
/// "must start with /"; otherwise the first character after it that is not
/// an ASCII letter, ASCII digit or one of `_ - . ~ /` is named with its
/// position.
pub proof fn law_json_pointer_message(p: Seq<char>, k: int)
    ensures
        !(p.len() > 0 && p[0] == '/') ==> pointer_problem(p) == Some("must start with /"@),
        (p.len() > 0 && p[0] == '/' && 1 <= k < p.len() && !(('0' <= p[k] <= '9') || ('a' <= p[k] <= 'z') || ('A'
            <= p[k] <= 'Z') || p[k] == '_' || p[k] == '-' || p[k] == '.' || p[k] == '~' || p[k] == '/') && (forall|l: int|
            1 <= l < k ==> ('0' <= #[trigger] p[l] <= '9') || ('a' <= p[l] <= 'z') || ('A' <= p[l] <= 'Z') || p[l] == '_'
                || p[l] == '-' || p[l] == '.' || p[l] == '~' || p[l] == '/')) ==> pointer_problem(p) == Some(
            "invalid character '"@ + seq![p[k]] + "' at position "@ + decimal(k as nat),
        ),
{
    if p.len() > 0 && p[0] == '/' && 1 <= k < p.len() && !pointer_char_ok(p[k]) && (forall|l: int|
        1 <= l < k ==> pointer_char_ok(#[trigger] p[l])) {
        lemma_first_bad_at(p, 1, k);
    }
}

} // verus!
