//! Path matcher: literal segments, `:param` captures and a trailing `*`.

use vstd::prelude::*;
use super::{Matcher, MatcherResult, MatchModel, match_model, no_match_model};
use crate::request::{RequestData, RequestModel};
use crate::strmap::{StrMap, MapModel, map_insert, map_lookup, law_lookup_after_insert};
use crate::text::{chars_of, string_of, str_eq};

verus! {

/// The non-empty pieces of `s` between `/` characters, from position `i`
/// on, with `cur` the piece read so far.
pub open spec fn parts_acc(s: Seq<char>, i: int, cur: Seq<char>) -> Seq<Seq<char>>
    decreases s.len() - i,
{
    if i < 0 || i >= s.len() {
        if cur.len() > 0 { seq![cur] } else { Seq::empty() }
    } else if s[i] == '/' {
        (if cur.len() > 0 { seq![cur] } else { Seq::empty() }) + parts_acc(s, i + 1, Seq::empty())
    } else {
        parts_acc(s, i + 1, cur.push(s[i]))
    }
}

/// The non-empty pieces of a path between `/` characters, in order.
pub open spec fn path_parts(s: Seq<char>) -> Seq<Seq<char>> {
    parts_acc(s, 0, Seq::empty())
}

/// A segment of a path pattern.
#[derive(Debug, Clone, PartialEq)]
pub enum PathSegment {
    /// A literal segment (e.g. "users").
    Literal(String),
    /// A parameter segment (e.g. "id" from ":id").
    Param(String),
    /// A `*` segment.
    Wildcard,
}

/// Model of a pattern segment.
pub enum SegModel {
    Literal(Seq<char>),
    Param(Seq<char>),
    Wildcard,
}

impl View for PathSegment {
    type V = SegModel;

    open spec fn view(&self) -> SegModel {
        match self {
            PathSegment::Literal(s) => SegModel::Literal(s@),
            PathSegment::Param(s) => SegModel::Param(s@),
            PathSegment::Wildcard => SegModel::Wildcard,
        }
    }
}

/// Model of a list of segments.
pub open spec fn segs_view(v: Seq<PathSegment>) -> Seq<SegModel> {
    v.map_values(|s: PathSegment| s@)
}

/// The segments of a pattern with the given pieces: `*` is a wildcard,
/// `:name` a parameter (a bare `:` is dropped), anything else a literal.
pub open spec fn pattern_segments(parts: Seq<Seq<char>>) -> Seq<SegModel>
    decreases parts.len(),
{
    if parts.len() == 0 {
        Seq::empty()
    } else {
        let prev = pattern_segments(parts.drop_last());
        let p = parts.last();
        if p == "*"@ {
            prev.push(SegModel::Wildcard)
        } else if p.len() > 0 && p[0] == ':' {
            if p.len() > 1 {
                prev.push(SegModel::Param(p.drop_first()))
            } else {
                prev
            }
        } else {
            prev.push(SegModel::Literal(p))
        }
    }
}

/// Whether the last segment is a wildcard.
pub open spec fn has_wildcard(segs: Seq<SegModel>) -> bool {
    segs.len() > 0 && segs.last() is Wildcard
}

/// The number of segments that a path must match one for one.
pub open spec fn fixed_count(segs: Seq<SegModel>) -> int {
    if has_wildcard(segs) { segs.len() - 1 } else { segs.len() as int }
}

/// The first wildcard position in `[j, n)`, or `n`.
pub open spec fn wildcard_from(segs: Seq<SegModel>, j: int, n: int) -> int
    decreases n - j,
{
    if j >= n {
        n
    } else if segs[j] is Wildcard {
        j
    } else {
        wildcard_from(segs, j + 1, n)
    }
}

/// The number of leading segments that are compared with the path: up to the
/// first wildcard among the fixed segments.
pub open spec fn checked_count(segs: Seq<SegModel>) -> int {
    wildcard_from(segs, 0, fixed_count(segs))
}

/// Every literal among the first `k` segments equals the path piece at its
/// position.
pub open spec fn literals_agree(segs: Seq<SegModel>, parts: Seq<Seq<char>>, k: int) -> bool {
    forall|j: int|
        0 <= j < k ==> (#[trigger] segs[j] matches SegModel::Literal(l) ==> l == parts[j])
}

/// The parameters captured by the first `k` segments (a later capture of the
/// same name replaces the value).
pub open spec fn params_of(segs: Seq<SegModel>, parts: Seq<Seq<char>>, k: int) -> MapModel
    decreases k,
{
    if k <= 0 {
        Seq::empty()
    } else {
        match segs[k - 1] {
            SegModel::Param(n) => map_insert(params_of(segs, parts, k - 1), n, parts[k - 1]),
            _ => params_of(segs, parts, k - 1),
        }
    }
}

/// The number of literal segments.
pub open spec fn count_literals(segs: Seq<SegModel>) -> int
    decreases segs.len(),
{
    if segs.len() == 0 {
        0
    } else {
        count_literals(segs.drop_last()) + if segs.last() is Literal { 1int } else { 0int }
    }
}

/// The number of parameter segments.
pub open spec fn count_params(segs: Seq<SegModel>) -> int
    decreases segs.len(),
{
    if segs.len() == 0 {
        0
    } else {
        count_params(segs.drop_last()) + if segs.last() is Param { 1int } else { 0int }
    }
}

/// The score of a pattern: 10 per literal, 15 per parameter, and 20 more
/// when there is a parameter; wildcards add nothing.
pub open spec fn path_score(segs: Seq<SegModel>) -> int {
    10 * count_literals(segs) + 15 * count_params(segs) + if count_params(segs) > 0 {
        20int
    } else {
        0int
    }
}

/// What a path pattern with these segments gives for a request path.
pub open spec fn path_match(segs: Seq<SegModel>, path: Seq<char>) -> MatchModel {
    let parts = path_parts(path);
    if segs.len() == 0 && (path == "/"@ || parts.len() == 0) {
        match_model(Seq::empty(), 10)
    } else if (has_wildcard(segs) && parts.len() < fixed_count(segs)) || (!has_wildcard(segs)
        && parts.len() != fixed_count(segs)) {
        no_match_model()
    } else if literals_agree(segs, parts, checked_count(segs)) {
        match_model(params_of(segs, parts, checked_count(segs)), path_score(segs))
    } else {
        no_match_model()
    }
}

/// Matches request paths against a pattern, capturing parameters.
#[derive(Debug, Clone, PartialEq)]
pub struct PathMatcher {
    /// The pattern, e.g. `/users/:id` or `/users/*`.
    pub pattern: String,
    /// The pattern's segments.
    pub segments: Vec<PathSegment>,
}

/// What a path matcher gives for a request.
pub open spec fn path_spec(m: PathMatcher, req: RequestModel) -> MatchModel {
    path_match(segs_view(m.segments@), req.path)
}

/// An upper bound of a path matcher's score.
pub open spec fn path_score_bound(m: PathMatcher) -> int {
    if path_score(segs_view(m.segments@)) < 10 { 10 } else { path_score(segs_view(m.segments@)) }
}

/// The non-empty pieces of `s` between `/` characters.
pub fn split_path(s: &str) -> (r: Vec<String>)
    ensures
        r@.map_values(|x: String| x@) == path_parts(s@),
{
    let cs = chars_of(s);
    let mut out: Vec<String> = Vec::new();
    let mut cur: Vec<char> = Vec::new();
    let mut i: usize = 0;
    assert(out@.map_values(|x: String| x@) =~= Seq::<Seq<char>>::empty());
    while i < cs.len()
        invariant
            cs@ == s@,
            i <= cs.len(),
            out@.map_values(|x: String| x@) + parts_acc(s@, i as int, cur@) == path_parts(s@),
        decreases cs.len() - i,
    {
        let ghost before = out@.map_values(|x: String| x@);
        let ghost old_cur = cur@;
        if cs[i] == '/' {
            if cur.len() > 0 {
                let piece = string_of(cur.as_slice());
                out.push(piece);
                assert(out@.map_values(|x: String| x@) =~= before + seq![old_cur]);
            } else {
                assert(out@.map_values(|x: String| x@) =~= before + Seq::<Seq<char>>::empty());
            }
            cur = Vec::new();
            assert(cur@ =~= Seq::<char>::empty());
            assert(out@.map_values(|x: String| x@) + parts_acc(s@, i + 1, cur@) =~= before
                + parts_acc(s@, i as int, old_cur));
        } else {
            cur.push(cs[i]);
        }
        i = i + 1;
    }
    let ghost before = out@.map_values(|x: String| x@);
    if cur.len() > 0 {
        let piece = string_of(cur.as_slice());
        out.push(piece);
        assert(out@.map_values(|x: String| x@) =~= before + parts_acc(s@, i as int, cur@));
    } else {
        assert(out@.map_values(|x: String| x@) =~= before + parts_acc(s@, i as int, cur@));
    }
    out
}

proof fn lemma_wildcard_skip(segs: Seq<SegModel>, j: int, i: int, n: int)
    requires
        0 <= j <= i <= n,
        n <= segs.len(),
        forall|l: int| j <= l < i ==> !(#[trigger] segs[l] is Wildcard),
    ensures
        wildcard_from(segs, j, n) == wildcard_from(segs, i, n),
    decreases i - j,
{
    if j < i {
        lemma_wildcard_skip(segs, j + 1, i, n);
    }
}

proof fn lemma_counts_prefix(segs: Seq<SegModel>, i: int)
    requires
        0 <= i < segs.len(),
    ensures
        count_literals(segs.subrange(0, i + 1)) == count_literals(segs.subrange(0, i)) + if segs[i] is Literal {
            1int
        } else {
            0int
        },
        count_params(segs.subrange(0, i + 1)) == count_params(segs.subrange(0, i)) + if segs[i] is Param {
            1int
        } else {
            0int
        },
{
    assert(segs.subrange(0, i + 1).drop_last() =~= segs.subrange(0, i));
}

proof fn lemma_counts_bounded(segs: Seq<SegModel>)
    ensures
        0 <= count_literals(segs) <= segs.len(),
        0 <= count_params(segs) <= segs.len(),
    decreases segs.len(),
{
    if segs.len() > 0 {
        lemma_counts_bounded(segs.drop_last());
    }
}

impl PathMatcher {
    /// A matcher for `pattern`: `:name` pieces capture parameters and `*`
    /// matches any remaining path.
    pub fn new(pattern: &str) -> (r: PathMatcher)
        ensures
            r.pattern@ == pattern@,
            segs_view(r.segments@) == pattern_segments(path_parts(pattern@)),
    {
        let segments = Self::parse_segments(pattern);
        PathMatcher { pattern: String::from_str(pattern), segments }
    }

    /// The pattern.
    pub fn pattern(&self) -> (r: &str)
        ensures
            r@ == self.pattern@,
    {
        self.pattern.as_str()
    }

    fn parse_segments(pattern: &str) -> (r: Vec<PathSegment>)
        ensures
            segs_view(r@) == pattern_segments(path_parts(pattern@)),
    {
        let parts = split_path(pattern);
        let ghost pv = parts@.map_values(|x: String| x@);
        let mut segments: Vec<PathSegment> = Vec::new();
        let mut i: usize = 0;
        proof {
            reveal_strlit("*");
        }
        assert(segs_view(segments@) =~= pattern_segments(pv.subrange(0, 0)));
        while i < parts.len()
            invariant
                pv == parts@.map_values(|x: String| x@),
                pv == path_parts(pattern@),
                i <= parts.len(),
                segs_view(segments@) == pattern_segments(pv.subrange(0, i as int)),
            decreases parts.len() - i,
        {
            let part = parts[i].as_str();
            let cs = chars_of(part);
            let ghost before = segs_view(segments@);
            assert(pv.subrange(0, i + 1).drop_last() =~= pv.subrange(0, i as int));
            assert(pv.subrange(0, i + 1).last() == part@);
            if str_eq(part, "*") {
                segments.push(PathSegment::Wildcard);
                assert(segs_view(segments@) =~= before.push(SegModel::Wildcard));
            } else if cs.len() > 0 && cs[0] == ':' {
                if cs.len() > 1 {
                    let name = crate::text::string_of_range(cs.as_slice(), 1, cs.len());
                    assert(cs@.subrange(1, cs@.len() as int) =~= part@.drop_first());
                    let ghost nv = name@;
                    segments.push(PathSegment::Param(name));
                    assert(segs_view(segments@) =~= before.push(SegModel::Param(nv)));
                }
            } else {
                let lit = parts[i].clone();
                segments.push(PathSegment::Literal(lit));
                assert(segs_view(segments@) =~= before.push(SegModel::Literal(part@)));
            }
            i = i + 1;
        }
        assert(pv.subrange(0, i as int) =~= pv);
        segments
    }

    /// The matcher's score bound when it fits in a `u32`.
    pub fn checked_score_bound(&self) -> (r: Option<u32>)
        ensures
            match r {
                Some(b) => b == path_score_bound(*self),
                None => path_score_bound(*self) > u32::MAX,
            },
    {
        let ghost sv = segs_view(self.segments@);
        let mut lits: usize = 0;
        let mut params: usize = 0;
        let mut i: usize = 0;
        while i < self.segments.len()
            invariant
                sv == segs_view(self.segments@),
                i <= self.segments.len(),
                lits == count_literals(sv.subrange(0, i as int)),
                params == count_params(sv.subrange(0, i as int)),
                lits + params <= i,
            decreases self.segments.len() - i,
        {
            proof {
                lemma_counts_prefix(sv, i as int);
            }
            match &self.segments[i] {
                PathSegment::Literal(_) => {
                    lits = lits + 1;
                },
                PathSegment::Param(_) => {
                    params = params + 1;
                },
                PathSegment::Wildcard => {},
            }
            i = i + 1;
        }
        assert(sv.subrange(0, i as int) =~= sv);
        let mut score: u128 = 10 * (lits as u128) + 15 * (params as u128);
        if params > 0 {
            score = score + 20;
        }
        if score < 10 {
            score = 10;
        }
        if score > 4294967295u128 {
            None
        } else {
            Some(score as u32)
        }
    }

    fn score_for_segments(&self) -> (r: u32)
        requires
            path_score(segs_view(self.segments@)) <= u32::MAX,
        ensures
            r == path_score(segs_view(self.segments@)),
    {
        let ghost sv = segs_view(self.segments@);
        let mut lits: usize = 0;
        let mut params: usize = 0;
        let mut i: usize = 0;
        while i < self.segments.len()
            invariant
                sv == segs_view(self.segments@),
                i <= self.segments.len(),
                lits == count_literals(sv.subrange(0, i as int)),
                params == count_params(sv.subrange(0, i as int)),
                lits + params <= i,
            decreases self.segments.len() - i,
        {
            proof {
                lemma_counts_prefix(sv, i as int);
            }
            match &self.segments[i] {
                PathSegment::Literal(_) => {
                    lits = lits + 1;
                },
                PathSegment::Param(_) => {
                    params = params + 1;
                },
                PathSegment::Wildcard => {},
            }
            i = i + 1;
        }
        assert(sv.subrange(0, i as int) =~= sv);
        let lits32 = lits as u32;
        let params32 = params as u32;
        let mut score: u32 = 10 * lits32 + 15 * params32;
        if params > 0 {
            score = score + 20;
        }
        score
    }
}

impl Matcher for PathMatcher {
    open spec fn spec_match(&self, request: RequestModel) -> MatchModel {
        path_spec(*self, request)
    }

    open spec fn score_bound(&self) -> int {
        path_score_bound(*self)
    }

    open spec fn spec_name(&self) -> Seq<char> {
        "PathMatcher"@
    }

    fn match_request(&self, request: &RequestData) -> (r: MatcherResult) {
        let ghost sv = segs_view(self.segments@);
        let path = request.path.as_str();
        let path_parts_v = split_path(path);
        let ghost parts = path_parts_v@.map_values(|x: String| x@);
        proof {
            reveal_strlit("/");
        }
        if self.segments.len() == 0 && (str_eq(path, "/") || path_parts_v.len() == 0) {
            return MatcherResult::match_with(StrMap::new(), 10);
        }
        let n = self.segments.len();
        let has_wc = n > 0 && match &self.segments[n - 1] {
            PathSegment::Wildcard => true,
            _ => false,
        };
        let fixed = if has_wc { n - 1 } else { n };
        assert(has_wc == has_wildcard(sv));
        assert(fixed == fixed_count(sv));
        if !has_wc && path_parts_v.len() != fixed {
            return MatcherResult::no_match();
        }
        if has_wc && path_parts_v.len() < fixed {
            return MatcherResult::no_match();
        }
        let mut params = StrMap::new();
        let mut i: usize = 0;
        if fixed == 0 {
            assert(wildcard_from(sv, 0, 0) == 0);
        }
        while i < fixed
            invariant
                sv == segs_view(self.segments@),
                parts == path_parts_v@.map_values(|x: String| x@),
                parts == path_parts(request.path@),
                fixed == fixed_count(sv),
                fixed <= n,
                n == self.segments.len(),
                parts.len() >= fixed,
                i <= fixed,
                forall|l: int| 0 <= l < i ==> !(#[trigger] sv[l] is Wildcard),
                literals_agree(sv, parts, i as int),
                params@ == params_of(sv, parts, i as int),
                i == fixed ==> checked_count(sv) == i,
            ensures
                i <= fixed,
                params@ == params_of(sv, parts, i as int),
                literals_agree(sv, parts, i as int),
                checked_count(sv) == i,
            decreases fixed - i,
        {
            if i >= path_parts_v.len() {
                return MatcherResult::no_match();
            }
            match &self.segments[i] {
                PathSegment::Literal(lit) => {
                    if !str_eq(lit.as_str(), path_parts_v[i].as_str()) {
                        assert(!literals_agree(sv, parts, checked_count(sv))) by {
                            lemma_wildcard_skip(sv, 0, i as int, fixed as int);
                            assert(sv[i as int] matches SegModel::Literal(l) && l != parts[i as int]);
                            if i + 1 < fixed {
                                assert(checked_count(sv) >= i + 1) by {
                                    lemma_wildcard_from_ge(sv, i as int + 1, fixed as int);
                                }
                            } else {
                                assert(checked_count(sv) == wildcard_from(sv, i + 1, fixed as int));
                            }
                        }
                        return MatcherResult::no_match();
                    }
                    assert(params_of(sv, parts, i + 1) == params_of(sv, parts, i as int));
                    assert(!(sv[i as int] is Wildcard));
                },
                PathSegment::Param(name) => {
                    params.insert(name.clone(), path_parts_v[i].clone());
                    assert(!(sv[i as int] is Wildcard));
                },
                PathSegment::Wildcard => {
                    proof {
                        assert(sv[i as int] is Wildcard);
                        lemma_wildcard_skip(sv, 0, i as int, fixed as int);
                        assert(wildcard_from(sv, i as int, fixed as int) == i);
                    }
                    break;
                },
            }
            i = i + 1;
            proof {
                assert(forall|l: int| 0 <= l < i ==> !(#[trigger] sv[l] is Wildcard));
                if i == fixed {
                    lemma_wildcard_skip(sv, 0, i as int, fixed as int);
                    assert(wildcard_from(sv, i as int, fixed as int) == fixed);
                }
            }
        }
        let score = self.score_for_segments();
        MatcherResult::match_with(params, score)
    }

    fn name(&self) -> (r: &str) {
        "PathMatcher"
    }
}

proof fn lemma_wildcard_from_ge(segs: Seq<SegModel>, j: int, n: int)
    requires
        j <= n,
    ensures
        wildcard_from(segs, j, n) >= j,
    decreases n - j,
{
    if j < n && !(segs[j] is Wildcard) {
        lemma_wildcard_from_ge(segs, j + 1, n);
    }
}

/// A path pattern's score is never negative.
pub proof fn lemma_path_score_nonneg(m: PathMatcher)
    ensures
        path_score(segs_view(m.segments@)) >= 0,
{
    lemma_counts_bounded(segs_view(m.segments@));
}

/// A parameter segment whose name occurs once is captured with the path
/// piece at its position by every later prefix of the segments.
proof fn lemma_params_lookup(segs: Seq<SegModel>, parts: Seq<Seq<char>>, k: int, j: int, name: Seq<char>)
    requires
        0 <= j < k <= segs.len(),
        segs[j] == SegModel::Param(name),
        forall|l: int| 0 <= l < segs.len() && l != j ==> segs[l] != SegModel::Param(name),
    ensures
        map_lookup(params_of(segs, parts, k), name) == Some(parts[j]),
    decreases k,
{
    if k - 1 == j {
        law_lookup_after_insert(params_of(segs, parts, k - 1), name, parts[j], name);
    } else {
        lemma_params_lookup(segs, parts, k - 1, j, name);
        match segs[k - 1] {
            SegModel::Param(n) => {
                law_lookup_after_insert(params_of(segs, parts, k - 1), n, parts[k - 1], name);
            },
            _ => {},
        }
    }
}

/// Parameter capture: when a pattern matches a path, a `:name` segment at
/// position `j`, with no `*` at or before it and no other segment of that
/// name, captures the `j`-th non-empty piece of the path, whether or not the
/// pattern ends in `*`.
pub proof fn law_path_param_capture(segs: Seq<SegModel>, path: Seq<char>, j: int, name: Seq<char>)
    requires
        path_match(segs, path).matches,
        0 <= j < segs.len(),
        segs[j] == SegModel::Param(name),
        forall|l: int| 0 <= l <= j ==> !(#[trigger] segs[l] is Wildcard),
        forall|l: int| 0 <= l < segs.len() && l != j ==> segs[l] != SegModel::Param(name),
    ensures
        j < path_parts(path).len(),
        map_lookup(path_match(segs, path).path_params, name) == Some(path_parts(path)[j]),
{
    let parts = path_parts(path);
    let fixed = fixed_count(segs);
    assert(j < fixed);
    lemma_wildcard_skip(segs, 0, j + 1, fixed);
    lemma_wildcard_from_ge(segs, j + 1, fixed);
    assert(checked_count(segs) > j);
    assert(checked_count(segs) <= fixed) by {
        lemma_wildcard_le(segs, 0, fixed);
    }
    lemma_params_lookup(segs, parts, checked_count(segs), j, name);
}

proof fn lemma_wildcard_le(segs: Seq<SegModel>, j: int, n: int)
    requires
        j <= n,
    ensures
        wildcard_from(segs, j, n) <= n,
    decreases n - j,
{
    if j < n && !(segs[j] is Wildcard) {
        lemma_wildcard_le(segs, j + 1, n);
    }
}

proof fn lemma_params_from_segments(segs: Seq<SegModel>, parts: Seq<Seq<char>>, k: int)
    requires
        0 <= k <= segs.len(),
        k <= parts.len(),
    ensures
        forall|i: int|
            0 <= i < params_of(segs, parts, k).len() ==> exists|j: int|
                0 <= j < k && segs[j] == SegModel::Param((#[trigger] params_of(segs, parts, k)[i]).0)
                    && params_of(segs, parts, k)[i].1 == parts[j],
    decreases k,
{
    if k > 0 {
        lemma_params_from_segments(segs, parts, k - 1);
        let prev = params_of(segs, parts, k - 1);
        match segs[k - 1] {
            SegModel::Param(n) => {
                let cur = params_of(segs, parts, k);
                assert forall|i: int| 0 <= i < cur.len() implies exists|j: int|
                    0 <= j < k && segs[j] == SegModel::Param((#[trigger] cur[i]).0) && cur[i].1 == parts[j] by {
                    match crate::strmap::key_index(prev, n) {
                        Some(x) => {
                            crate::strmap::lemma_key_index(prev, n);
                            if i == x {
                                assert(segs[k - 1] == SegModel::Param(cur[i].0));
                            } else {
                                assert(cur[i] == prev[i]);
                            }
                        },
                        None => {
                            if i == prev.len() {
                                assert(segs[k - 1] == SegModel::Param(cur[i].0));
                            } else {
                                assert(cur[i] == prev[i]);
                            }
                        },
                    }
                }
            },
            _ => {},
        }
    }
}

/// The shape of a match, for a pattern whose only `*` (if any) is its last
/// segment: the pattern matches exactly when the path has as many non-empty
/// pieces as the pattern has segments (at least as many as the segments
/// before the `*`) and every literal segment equals the piece at its
/// position. Every captured parameter is named by a `:name` segment and holds
/// the piece at that segment's position.
pub proof fn law_path_match_shape(segs: Seq<SegModel>, path: Seq<char>)
    requires
        segs.len() > 0,
        forall|l: int| 0 <= l < segs.len() - 1 ==> !(#[trigger] segs[l] is Wildcard),
    ensures
        path_match(segs, path).matches <==> ({
            let parts = path_parts(path);
            let n = if segs.last() is Wildcard { segs.len() - 1 } else { segs.len() as int };
            &&& if segs.last() is Wildcard { parts.len() >= n } else { parts.len() == n }
            &&& forall|j: int| 0 <= j < n ==> (#[trigger] segs[j] matches SegModel::Literal(l) ==> l == parts[j])
        }),
        path_match(segs, path).matches ==> forall|i: int|
            0 <= i < path_match(segs, path).path_params.len() ==> exists|j: int|
                0 <= j < segs.len() && segs[j] == SegModel::Param(
                    (#[trigger] path_match(segs, path).path_params[i]).0,
                ) && path_match(segs, path).path_params[i].1 == path_parts(path)[j],
{
    let fixed = fixed_count(segs);
    lemma_wildcard_skip(segs, 0, fixed, fixed);
    assert(checked_count(segs) == fixed);
    let parts = path_parts(path);
    if parts.len() >= fixed {
        lemma_params_from_segments(segs, parts, fixed);
    }
}

} // verus!
