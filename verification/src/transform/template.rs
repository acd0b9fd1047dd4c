//! Template values: `{{path.name}}` placeholders filled from path
//! parameters; unknown names are left as they are.

use vstd::prelude::*;
use crate::pairs::pairs_view;
use crate::strmap::{StrMap, MapModel, map_lookup};
use crate::text::{find_from, find_from_exec, chars_of, string_of_range, concat, replace, replace_spec, occurs_at};

verus! {

/// The opening of a placeholder.
pub open spec fn open_mark() -> Seq<char> {
    seq!['{', '{', 'p', 'a', 't', 'h', '.']
}

/// The closing of a placeholder.
pub open spec fn close_mark() -> Seq<char> {
    seq!['}', '}']
}

pub proof fn lemma_find_from_bounds(s: Seq<char>, pat: Seq<char>, from: int)
    ensures
        find_from(s, pat, from) matches Some(k) ==> from <= k && k + pat.len() <= s.len()
            && (pat.len() == 0 || occurs_at(s, pat, k)),
    decreases s.len() - from,
{
    if !(from < 0 || from + pat.len() > s.len()) && !(pat.len() == 0 || occurs_at(s, pat, from)) {
        lemma_find_from_bounds(s, pat, from + 1);
    }
}

/// The placeholder names of `t` found from position `from`: each `{{path.`
/// followed by the next `}}`; empty names are skipped and the search goes on
/// after the `}}`.
pub open spec fn keys_from(t: Seq<char>, from: int) -> Seq<Seq<char>>
    decreases t.len() - from,
{
    match find_from(t, open_mark(), from) {
        None => Seq::empty(),
        Some(a) => match find_from(t, close_mark(), a + 7) {
            None => Seq::empty(),
            Some(e) => {
                proof {
                    lemma_find_from_bounds(t, open_mark(), from);
                    lemma_find_from_bounds(t, close_mark(), a + 7);
                }
                (if e > a + 7 { seq![t.subrange(a + 7, e)] } else { Seq::empty() }) + keys_from(
                    t,
                    e + 2,
                )
            },
        },
    }
}

/// The placeholder for a name.
pub open spec fn placeholder(key: Seq<char>) -> Seq<char> {
    open_mark() + key + close_mark()
}

/// The replacements of a template: (placeholder, name) for each name found.
pub open spec fn template_replacements(t: Seq<char>) -> MapModel {
    keys_from(t, 0).map_values(|k: Seq<char>| (placeholder(k), k))
}

/// Applying replacements in order: each placeholder whose name has a value
/// is replaced everywhere by that value.
pub open spec fn subst_spec(s: Seq<char>, reps: MapModel, params: MapModel) -> Seq<char>
    decreases reps.len(),
{
    if reps.len() == 0 {
        s
    } else {
        let cur = subst_spec(s, reps.drop_last(), params);
        match map_lookup(params, reps.last().1) {
            Some(v) => replace_spec(cur, reps.last().0, v),
            None => cur,
        }
    }
}

/// Template substitution helper.
#[derive(Debug, Clone, PartialEq)]
pub struct TemplateSubst {
    /// The template text.
    original: String,
    /// Replacements to apply: (placeholder, name).
    replacements: Vec<(String, String)>,
}

/// Model of a template: its text and its (placeholder, name) replacements.
pub struct TemplateModel {
    pub original: Seq<char>,
    pub replacements: MapModel,
}

impl View for TemplateSubst {
    type V = TemplateModel;

    closed spec fn view(&self) -> TemplateModel {
        TemplateModel { original: self.original@, replacements: pairs_view(self.replacements@) }
    }
}

/// The model of the template scanned from `t`.
pub open spec fn template_of(t: Seq<char>) -> TemplateModel {
    TemplateModel { original: t, replacements: template_replacements(t) }
}

/// The text a template gives for the given path parameters.
pub open spec fn template_text(m: TemplateModel, params: MapModel) -> Seq<char> {
    subst_spec(m.original, m.replacements, params)
}

impl TemplateSubst {
    /// Scans `template` for `{{path.name}}` placeholders.
    pub fn new(template: &str) -> (r: TemplateSubst)
        ensures
            r@ == template_of(template@),
    {
        let t = chars_of(template);
        let open = chars_of("{{path.");
        let close = chars_of("}}");
        proof {
            reveal_strlit("{{path.");
            reveal_strlit("}}");
            assert(open@ =~= open_mark());
            assert(close@ =~= close_mark());
        }
        let ghost tv = template@;
        let mut replacements: Vec<(String, String)> = Vec::new();
        let mut search: usize = 0;
        let ghost mut found: Seq<Seq<char>> = Seq::empty();
        loop
            invariant
                t@ == tv,
                tv == template@,
                open@ == open_mark(),
                close@ == close_mark(),
                "{{path."@ == open_mark(),
                "}}"@ == close_mark(),
                search <= t.len() + 2,
                found + keys_from(tv, search as int) == keys_from(tv, 0),
                pairs_view(replacements@) == found.map_values(|k: Seq<char>| (placeholder(k), k)),
            ensures
                found + keys_from(tv, search as int) == keys_from(tv, 0),
                keys_from(tv, search as int) == Seq::<Seq<char>>::empty(),
                pairs_view(replacements@) == found.map_values(|k: Seq<char>| (placeholder(k), k)),
            decreases t.len() + 2 - search,
        {
            let a = match find_from_exec(t.as_slice(), open.as_slice(), search) {
                Some(a) => a,
                None => {
                    assert(keys_from(tv, search as int) =~= Seq::<Seq<char>>::empty());
                    break;
                },
            };
            proof {
                lemma_find_from_bounds(tv, open_mark(), search as int);
            }
            let key_start = a + 7;
            let e = match find_from_exec(t.as_slice(), close.as_slice(), key_start) {
                Some(e) => e,
                None => {
                    assert(keys_from(tv, search as int) =~= Seq::<Seq<char>>::empty());
                    break;
                },
            };
            proof {
                lemma_find_from_bounds(tv, close_mark(), key_start as int);
            }
            let ghost before = found;
            if e > key_start {
                let key = string_of_range(t.as_slice(), key_start, e);
                let ph0 = concat("{{path.", key.as_str());
                let ph = concat(ph0.as_str(), "}}");
                let ghost kv = key@;
                let ghost old_reps = pairs_view(replacements@);
                proof {
                    found = found.push(key@);
                }
                replacements.push((ph, key));
                assert(pairs_view(replacements@) =~= old_reps.push((placeholder(kv), kv)));
                assert(pairs_view(replacements@) =~= found.map_values(
                    |k: Seq<char>| (placeholder(k), k),
                ));
            }
            assert(found + keys_from(tv, e + 2) =~= before + keys_from(tv, search as int));
            search = e + 2;
        }
        assert(found =~= found + keys_from(tv, search as int));
        assert(template_replacements(template@) =~= found.map_values(
            |k: Seq<char>| (placeholder(k), k),
        ));
        let r = TemplateSubst { original: String::from_str(template), replacements };
        assert(r@.replacements == template_replacements(template@));
        r
    }

    /// The template with placeholders filled from `path_params`; names
    /// without a value are left as they are.
    pub fn substitute(&self, path_params: &StrMap) -> (r: String)
        ensures
            r@ == template_text(self@, path_params@),
    {
        let ghost reps = pairs_view(self.replacements@);
        let mut result = self.original.clone();
        let mut i: usize = 0;
        while i < self.replacements.len()
            invariant
                reps == pairs_view(self.replacements@),
                i <= self.replacements.len(),
                result@ == subst_spec(self.original@, reps.subrange(0, i as int), path_params@),
            decreases self.replacements.len() - i,
        {
            assert(reps.subrange(0, i + 1).drop_last() =~= reps.subrange(0, i as int));
            let placeholder_text = self.replacements[i].0.as_str();
            let key = self.replacements[i].1.as_str();
            match path_params.get(key) {
                Some(v) => {
                    if placeholder_text.unicode_len() > 0 {
                        result = replace(result.as_str(), placeholder_text, v.as_str());
                    } else {
                        assert(replace_spec(result@, placeholder_text@, v@) =~= result@);
                    }
                },
                None => {},
            }
            i = i + 1;
        }
        assert(reps.subrange(0, i as int) =~= reps);
        result
    }

    /// Whether the template has any placeholder.
    pub fn has_variables(&self) -> (r: bool)
        ensures
            r == (self@.replacements.len() > 0),
    {
        self.replacements.len() > 0
    }
}

/// Names without a value are left as they are: when no placeholder's name
/// has a value, the template text comes out unchanged.
pub proof fn law_template_missing_unchanged(t: TemplateModel, params: MapModel)
    requires
        forall|i: int| 0 <= i < t.replacements.len() ==> map_lookup(params, (#[trigger] t.replacements[i]).1) is None,
    ensures
        template_text(t, params) == t.original,
{
    lemma_subst_unchanged(t.original, t.replacements, params);
}

proof fn lemma_subst_unchanged(s: Seq<char>, reps: MapModel, params: MapModel)
    requires
        forall|i: int| 0 <= i < reps.len() ==> map_lookup(params, (#[trigger] reps[i]).1) is None,
    ensures
        subst_spec(s, reps, params) == s,
    decreases reps.len(),
{
    if reps.len() > 0 {
        assert(map_lookup(params, reps[reps.len() - 1].1) is None);
        lemma_subst_unchanged(s, reps.drop_last(), params);
    }
}

} // verus!
