//! JSON values held as plain data, with a mathematical model.

use vstd::prelude::*;
use crate::text::{chars_of, str_eq};

verus! {

/// A JSON number, kept in the form in which the parser classified it.
#[derive(Debug, Clone, PartialEq, Eq)]
pub enum JsonNumber {
    /// A non-negative integer that fits in `u64`.
    PosInt(u64),
    /// A negative integer that fits in `i64`.
    NegInt(i64),
    /// Any other number, in its decimal text form.
    Float(String),
}

/// A JSON value.
#[derive(Debug, PartialEq)]
pub enum JsonValue {
    Null,
    Bool(bool),
    Number(JsonNumber),
    String(String),
    Array(Vec<JsonValue>),
    Object(Vec<(String, JsonValue)>),
}

/// Model of a JSON number.
pub enum NumberModel {
    PosInt(u64),
    NegInt(i64),
    Float(Seq<char>),
}

/// Model of a JSON value: strings as character sequences, arrays and
/// objects as sequences (object members in document order).
pub enum JsonModel {
    Null,
    Bool(bool),
    Number(NumberModel),
    String(Seq<char>),
    Array(Seq<JsonModel>),
    Object(Seq<(Seq<char>, JsonModel)>),
}

impl View for JsonNumber {
    type V = NumberModel;

    open spec fn view(&self) -> NumberModel {
        match self {
            JsonNumber::PosInt(u) => NumberModel::PosInt(*u),
            JsonNumber::NegInt(i) => NumberModel::NegInt(*i),
            JsonNumber::Float(s) => NumberModel::Float(s@),
        }
    }
}

pub open spec fn model_array(s: Seq<JsonValue>) -> Seq<JsonModel>
    decreases s,
{
    if s.len() == 0 {
        Seq::empty()
    } else {
        model_array(s.drop_last()).push(model_of(s.last()))
    }
}

pub open spec fn model_members(s: Seq<(String, JsonValue)>) -> Seq<(Seq<char>, JsonModel)>
    decreases s,
{
    if s.len() == 0 {
        Seq::empty()
    } else {
        model_members(s.drop_last()).push((s.last().0@, model_of(s.last().1)))
    }
}

pub open spec fn model_of(v: JsonValue) -> JsonModel
    decreases v,
{
    match v {
        JsonValue::Null => JsonModel::Null,
        JsonValue::Bool(b) => JsonModel::Bool(b),
        JsonValue::Number(n) => JsonModel::Number(n@),
        JsonValue::String(s) => JsonModel::String(s@),
        JsonValue::Array(a) => JsonModel::Array(model_array(a@)),
        JsonValue::Object(m) => JsonModel::Object(model_members(m@)),
    }
}


impl View for JsonValue {
    type V = JsonModel;

    open spec fn view(&self) -> JsonModel {
        model_of(*self)
    }
}

pub proof fn lemma_model_array_len(s: Seq<JsonValue>)
    ensures
        model_array(s).len() == s.len(),
        forall|i: int| 0 <= i < s.len() ==> #[trigger] model_array(s)[i] == model_of(s[i]),
    decreases s.len(),
{
    if s.len() > 0 {
        lemma_model_array_len(s.drop_last());
    }
}

pub proof fn lemma_model_members_len(s: Seq<(String, JsonValue)>)
    ensures
        model_members(s).len() == s.len(),
        forall|i: int|
            0 <= i < s.len() ==> #[trigger] model_members(s)[i] == (s[i].0@, model_of(s[i].1)),
    decreases s.len(),
{
    if s.len() > 0 {
        lemma_model_members_len(s.drop_last());
    }
}

/// Two arrays of values with pointwise equal models have equal models.
pub proof fn lemma_model_array_ext(a: Seq<JsonValue>, b: Seq<JsonValue>)
    requires
        a.len() == b.len(),
        forall|i: int| 0 <= i < a.len() ==> model_of(#[trigger] a[i]) == model_of(b[i]),
    ensures
        model_array(a) == model_array(b),
{
    lemma_model_array_len(a);
    lemma_model_array_len(b);
    assert(model_array(a) =~= model_array(b));
}

pub proof fn lemma_model_members_ext(a: Seq<(String, JsonValue)>, b: Seq<(String, JsonValue)>)
    requires
        a.len() == b.len(),
        forall|i: int|
            0 <= i < a.len() ==> (#[trigger] a[i]).0@ == b[i].0@ && model_of(a[i].1) == model_of(
                b[i].1,
            ),
    ensures
        model_members(a) == model_members(b),
{
    lemma_model_members_len(a);
    lemma_model_members_len(b);
    assert(model_members(a) =~= model_members(b));
}

impl JsonNumber {
    /// A copy of this number.
    pub fn duplicate(&self) -> (r: JsonNumber)
        ensures
            r@ == self@,
    {
        match self {
            JsonNumber::PosInt(u) => JsonNumber::PosInt(*u),
            JsonNumber::NegInt(i) => JsonNumber::NegInt(*i),
            JsonNumber::Float(s) => JsonNumber::Float(s.clone()),
        }
    }
}

impl JsonValue {
    /// A deep copy of this value.
    pub fn duplicate(&self) -> (r: JsonValue)
        ensures
            r@ == self@,
        decreases self,
    {
        match self {
            JsonValue::Null => JsonValue::Null,
            JsonValue::Bool(b) => JsonValue::Bool(*b),
            JsonValue::Number(n) => JsonValue::Number(n.duplicate()),
            JsonValue::String(s) => JsonValue::String(s.clone()),
            JsonValue::Array(a) => {
                let mut out: Vec<JsonValue> = Vec::new();
                let mut i: usize = 0;
                while i < a.len()
                    invariant
                        *self is Array,
                        self->Array_0 == *a,
                        i <= a.len(),
                        out.len() == i,
                        forall|j: int| 0 <= j < i ==> model_of(#[trigger] out@[j]) == model_of(a@[j]),
                    decreases a.len() - i,
                {
                    assert(decreases_to!(*self => self->Array_0));
                    assert(decreases_to!(a => a@));
                    assert(decreases_to!(a@ => a@[i as int]));
                    let e = a[i].duplicate();
                    out.push(e);
                    i = i + 1;
                }
                proof {
                    lemma_model_array_ext(out@, a@);
                }
                JsonValue::Array(out)
            },
            JsonValue::Object(m) => {
                let mut out: Vec<(String, JsonValue)> = Vec::new();
                let mut i: usize = 0;
                while i < m.len()
                    invariant
                        *self is Object,
                        self->Object_0 == *m,
                        i <= m.len(),
                        out.len() == i,
                        forall|j: int|
                            0 <= j < i ==> (#[trigger] out@[j]).0@ == m@[j].0@ && model_of(
                                out@[j].1,
                            ) == model_of(m@[j].1),
                    decreases m.len() - i,
                {
                    assert(decreases_to!(*self => self->Object_0));
                    assert(decreases_to!(m => m@));
                    assert(decreases_to!(m@ => m@[i as int]));
                    assert(decreases_to!(m@[i as int] => m@[i as int].1));
                    let k = m[i].0.clone();
                    let e = m[i].1.duplicate();
                    out.push((k, e));
                    i = i + 1;
                }
                proof {
                    lemma_model_members_ext(out@, m@);
                }
                JsonValue::Object(out)
            },
        }
    }
}

/// The first member at or after `i` whose key is `key`.
pub open spec fn member_index_from(ms: Seq<(Seq<char>, JsonModel)>, key: Seq<char>, i: int) -> Option<int>
    decreases ms.len() - i,
{
    if i < 0 || i >= ms.len() {
        None
    } else if ms[i].0 == key {
        Some(i)
    } else {
        member_index_from(ms, key, i + 1)
    }
}

/// The member `key` of an object (the first, should keys repeat); `None`
/// for other values.
pub open spec fn json_get(v: JsonModel, key: Seq<char>) -> Option<JsonModel> {
    match v {
        JsonModel::Object(ms) => match member_index_from(ms, key, 0) {
            Some(i) => Some(ms[i].1),
            None => None,
        },
        _ => None,
    }
}

/// The text of a string value.
pub open spec fn json_as_str(v: JsonModel) -> Option<Seq<char>> {
    match v {
        JsonModel::String(s) => Some(s),
        _ => None,
    }
}

/// The value of a number that is a non-negative integer.
pub open spec fn json_as_u64(v: JsonModel) -> Option<u64> {
    match v {
        JsonModel::Number(NumberModel::PosInt(u)) => Some(u),
        _ => None,
    }
}

/// The value of a number that is an integer fitting in `i64`.
pub open spec fn json_as_i64(v: JsonModel) -> Option<i64> {
    match v {
        JsonModel::Number(NumberModel::PosInt(u)) => if u <= i64::MAX as u64 {
            Some(u as i64)
        } else {
            None
        },
        JsonModel::Number(NumberModel::NegInt(i)) => Some(i),
        _ => None,
    }
}

impl JsonValue {
    /// The member `key` of an object.
    pub fn get(&self, key: &str) -> (r: Option<&JsonValue>)
        ensures
            match r {
                Some(x) => json_get(self@, key@) == Some(x@),
                None => json_get(self@, key@) is None,
            },
    {
        match self {
            JsonValue::Object(m) => {
                let ghost ms = model_members(m@);
                proof {
                    lemma_model_members_len(m@);
                }
                let mut i: usize = 0;
                while i < m.len()
                    invariant
                        ms == model_members(m@),
                        self@ == JsonModel::Object(ms),
                        ms.len() == m@.len(),
                        forall|j: int| 0 <= j < m@.len() ==> #[trigger] ms[j] == (m@[j].0@, model_of(m@[j].1)),
                        i <= m.len(),
                        member_index_from(ms, key@, 0) == member_index_from(ms, key@, i as int),
                    decreases m.len() - i,
                {
                    if crate::text::str_eq(m[i].0.as_str(), key) {
                        assert(ms[i as int].0 == key@);
                        assert(member_index_from(ms, key@, i as int) == Some(i as int));
                        assert(self@ == JsonModel::Object(ms));
                        assert(ms[i as int].1 == m@[i as int].1@);
                        return Some(&m[i].1);
                    }
                    i = i + 1;
                }
                None
            },
            _ => None,
        }
    }

    /// The text of a string value.
    pub fn as_str(&self) -> (r: Option<&str>)
        ensures
            match r {
                Some(s) => json_as_str(self@) == Some(s@),
                None => json_as_str(self@) is None,
            },
    {
        match self {
            JsonValue::String(s) => Some(s.as_str()),
            _ => None,
        }
    }

    /// The value of a non-negative integer number.
    pub fn as_u64(&self) -> (r: Option<u64>)
        ensures
            r == json_as_u64(self@),
    {
        match self {
            JsonValue::Number(JsonNumber::PosInt(u)) => Some(*u),
            _ => None,
        }
    }

    /// The value of an integer number that fits in `i64`.
    pub fn as_i64(&self) -> (r: Option<i64>)
        ensures
            r == json_as_i64(self@),
    {
        match self {
            JsonValue::Number(JsonNumber::PosInt(u)) => if *u <= 9223372036854775807u64 {
                Some(*u as i64)
            } else {
                None
            },
            JsonValue::Number(JsonNumber::NegInt(i)) => Some(*i),
            _ => None,
        }
    }

    /// The elements of an array.
    pub fn as_array(&self) -> (r: Option<&Vec<JsonValue>>)
        ensures
            match r {
                Some(a) => self@ == JsonModel::Array(model_array(a@)),
                None => !(self@ is Array),
            },
    {
        match self {
            JsonValue::Array(a) => Some(a),
            _ => None,
        }
    }

    /// The members of an object.
    pub fn as_object(&self) -> (r: Option<&Vec<(String, JsonValue)>>)
        ensures
            match r {
                Some(m) => self@ == JsonModel::Object(model_members(m@)),
                None => !(self@ is Object),
            },
    {
        match self {
            JsonValue::Object(m) => Some(m),
            _ => None,
        }
    }

    /// Whether the value is `null`.
    pub fn is_null(&self) -> (r: bool)
        ensures
            r == (self@ is Null),
    {
        match self {
            JsonValue::Null => true,
            _ => false,
        }
    }
}


/// `serde_json::Value`, carried opaquely between the conversions below.
#[verifier::external_type_specification]
#[verifier::external_body]
pub struct ExSerdeJsonValue(serde_json::Value);

/// `serde_json::Number`, carried opaquely into its conversion.
#[verifier::external_type_specification]
#[verifier::external_body]
pub struct ExSerdeJsonNumber(serde_json::Number);

/// The result of parsing JSON text with `serde_json::from_str`, over models:
/// the parsed value, or the parser's error message.
pub uninterp spec fn spec_json_parse(text: Seq<char>) -> Result<JsonModel, Seq<char>>;

/// The result of `jsonptr::Pointer::parse(path)` followed by `assign` of
/// `value` into `doc`: the updated document, or the error message.
pub uninterp spec fn spec_pointer_assign(path: Seq<char>, doc: JsonModel, value: JsonModel) -> Result<
    JsonModel,
    Seq<char>,
>;

/// The result of `jsonptr::Pointer::parse(path)` followed by `delete` on
/// `doc`: `Ok(Some(updated))` when a value was removed, `Ok(None)` when
/// nothing was at the path, or the parse error message.
pub uninterp spec fn spec_pointer_delete(path: Seq<char>, doc: JsonModel) -> Result<
    Option<JsonModel>,
    Seq<char>,
>;

/// Converts a `serde_json::Number` by the class it reports: `as_u64`, then
/// `as_i64`, else its text.
#[verifier::external_body]
fn number_from_serde(n: &serde_json::Number) -> JsonNumber {
    match (n.as_u64(), n.as_i64()) {
        (Some(u), _) => JsonNumber::PosInt(u),
        (None, Some(i)) => JsonNumber::NegInt(i),
        (None, None) => JsonNumber::Float(n.to_string()),
    }
}

/// Converts a parsed `serde_json::Value` into a `JsonValue`, node by node:
/// each variant to the variant of the same name.
#[verifier::external_body]
fn value_from_serde(v: serde_json::Value) -> JsonValue {
    match v {
        serde_json::Value::Null => JsonValue::Null,
        serde_json::Value::Bool(b) => JsonValue::Bool(b),
        serde_json::Value::Number(n) => JsonValue::Number(number_from_serde(&n)),
        serde_json::Value::String(s) => JsonValue::String(s),
        serde_json::Value::Array(a) => JsonValue::Array(a.into_iter().map(value_from_serde).collect()),
        serde_json::Value::Object(m) => JsonValue::Object(
            m.into_iter().map(|(k, x)| (k, value_from_serde(x))).collect(),
        ),
    }
}

/// Converts a `JsonNumber` into a `serde_json::Value` number; the text of a
/// number that is not an integer is parsed back by `serde_json`, and text
/// it does not take becomes `Null`.
#[verifier::external_body]
fn number_to_serde(n: &JsonNumber) -> serde_json::Value {
    match n {
        JsonNumber::PosInt(u) => serde_json::Value::from(*u),
        JsonNumber::NegInt(i) => serde_json::Value::from(*i),
        JsonNumber::Float(t) => t.parse::<serde_json::Number>().map(serde_json::Value::Number).unwrap_or(
            serde_json::Value::Null,
        ),
    }
}

/// Converts a `JsonValue` into a `serde_json::Value`, node by node (the
/// inverse of `value_from_serde`).
#[verifier::external_body]
fn value_to_serde(v: &JsonValue) -> serde_json::Value {
    match v {
        JsonValue::Null => serde_json::Value::Null,
        JsonValue::Bool(b) => serde_json::Value::Bool(*b),
        JsonValue::Number(n) => number_to_serde(n),
        JsonValue::String(s) => serde_json::Value::String(s.clone()),
        JsonValue::Array(a) => serde_json::Value::Array(a.iter().map(value_to_serde).collect()),
        JsonValue::Object(m) => serde_json::Value::Object(
            m.iter().map(|(k, x)| (k.clone(), value_to_serde(x))).collect(),
        ),
    }
}

/// Parses JSON text with `serde_json::from_str::<serde_json::Value>`; the
/// result, value or error message, is the named `spec_json_parse` of the text.
#[verifier::external_body]
pub(crate) fn parse_json_text(text: &str) -> (r: Result<JsonValue, String>)
    ensures
        match r {
            Ok(v) => spec_json_parse(text@) == Ok::<JsonModel, Seq<char>>(v@),
            Err(e) => spec_json_parse(text@) == Err::<JsonModel, Seq<char>>(e@),
        },
{
    match serde_json::from_str::<serde_json::Value>(text) {
        Ok(v) => Ok(value_from_serde(v)),
        Err(e) => Err(e.to_string()),
    }
}

/// Parses `path` with `jsonptr::Pointer::parse` and assigns `value` at it in
/// a copy of `doc` with `Pointer::assign`. Per the crate's source, a
/// non-empty path that does not start with `/` fails to parse.
#[verifier::external_body]
pub(crate) fn json_pointer_assign(path: &str, doc: &JsonValue, value: &JsonValue) -> (r: Result<
    JsonValue,
    String,
>)
    ensures
        match r {
            Ok(v) => spec_pointer_assign(path@, doc@, value@) == Ok::<JsonModel, Seq<char>>(v@),
            Err(e) => spec_pointer_assign(path@, doc@, value@) == Err::<JsonModel, Seq<char>>(e@),
        },
        (path@.len() > 0 && path@[0] != '/') ==> r is Err,
{
    let p = jsonptr::Pointer::parse(path).map_err(|e| e.to_string())?;
    let mut d = value_to_serde(doc);
    p.assign(&mut d, value_to_serde(value)).map_err(|e| e.to_string())?;
    Ok(value_from_serde(d))
}

/// The result of `jsonptr::Pointer::parse(path)` followed by `split_back`
/// and, for a pointer with a last token, `resolve` of the front part in
/// `doc`: `Ok(None)` for the root pointer, otherwise the parent value (`None`
/// when it does not resolve) with the last token in its encoded form; or the
/// parse error's text.
pub uninterp spec fn spec_pointer_parent(path: Seq<char>, doc: JsonModel) -> Result<
    Option<(Option<JsonModel>, Seq<char>)>,
    Seq<char>,
>;

/// Whether a character is an ASCII digit.
pub open spec fn is_ascii_digit(c: char) -> bool {
    ('0' as u32) <= (c as u32) && (c as u32) <= ('9' as u32)
}

/// The value of a string of decimal digits.
pub open spec fn digits_value(s: Seq<char>) -> int
    decreases s.len(),
{
    if s.len() == 0 {
        0
    } else {
        digits_value(s.drop_last()) * 10 + ((s.last() as u32) - ('0' as u32))
    }
}

/// The digits part of an unsigned number's text: without one leading `+`.
pub open spec fn unsigned_digits(t: Seq<char>) -> Seq<char> {
    if t.len() > 0 && t[0] == '+' {
        t.drop_first()
    } else {
        t
    }
}

/// `t` is the text of the unsigned number `n`, as `usize::from_str` reads
/// it: an optional `+`, then one or more decimal digits.
pub open spec fn unsigned_text_of(t: Seq<char>, n: int) -> bool {
    let d = unsigned_digits(t);
    &&& d.len() > 0
    &&& forall|i: int| 0 <= i < d.len() ==> is_ascii_digit(#[trigger] d[i])
    &&& digits_value(d) == n
}

/// The encoded token `t`, read as an array index the way jsonptr's
/// `Index::from_str` reads it, names position `n`: `-` names the position
/// just past the end; otherwise a token with a leading zero (other than
/// `0` itself) is no index, and the rest is read by `usize::from_str`.
pub open spec fn index_token_names(t: Seq<char>, n: int) -> bool {
    ||| t == "-"@
    ||| !(t.len() > 0 && t[0] == '0' && t != "0"@) && unsigned_text_of(t, n)
}

/// Deleting at `path` in `doc` would remove the element just past the end of
/// an array: the parent is an array and the last token names its length.
/// jsonptr's `delete` accepts that index (`Index::for_len_incl`) and then
/// panics in `Vec::remove`.
pub open spec fn delete_past_end(path: Seq<char>, doc: JsonModel) -> bool {
    spec_pointer_parent(path, doc) matches Ok(Some((Some(JsonModel::Array(xs)), t)))
        && index_token_names(t, xs.len() as int)
}

/// Parses `path` with `jsonptr::Pointer::parse`, splits off its last token
/// with `Pointer::split_back` and resolves the front part in `doc` with
/// `Pointer::resolve`; the result is the named `spec_pointer_parent`.
#[verifier::external_body]
pub(crate) fn json_pointer_parent(path: &str, doc: &JsonValue) -> (r: Result<
    Option<(Option<JsonValue>, String)>,
    String,
>)
    ensures
        match r {
            Ok(None) => spec_pointer_parent(path@, doc@) == Ok::<
                Option<(Option<JsonModel>, Seq<char>)>,
                Seq<char>,
            >(None),
            Ok(Some((p, t))) => spec_pointer_parent(path@, doc@) == Ok::<
                Option<(Option<JsonModel>, Seq<char>)>,
                Seq<char>,
            >(Some((match p {
                Some(v) => Some(v@),
                None => None,
            }, t@))),
            Err(e) => spec_pointer_parent(path@, doc@) == Err::<
                Option<(Option<JsonModel>, Seq<char>)>,
                Seq<char>,
            >(e@),
        },
{
    let p = jsonptr::Pointer::parse(path).map_err(|e| e.to_string())?;
    let d = value_to_serde(doc);
    match p.split_back() {
        None => Ok(None),
        Some((front, last)) => Ok(Some((
            front.resolve(&d).ok().map(|v| value_from_serde(v.clone())),
            last.encoded().to_string(),
        ))),
    }
}

/// Parses `path` with `jsonptr::Pointer::parse` and deletes the value at it
/// in a copy of `doc` with `Pointer::delete`. Per the crate's source, a
/// non-empty path that does not start with `/` fails to parse. `delete`
/// panics when the path names the position just past the end of an array,
/// so that input is left out.
#[verifier::external_body]
pub(crate) fn json_pointer_delete(path: &str, doc: &JsonValue) -> (r: Result<
    Option<JsonValue>,
    String,
>)
    requires
        !delete_past_end(path@, doc@),
    ensures
        match r {
            Ok(Some(v)) => spec_pointer_delete(path@, doc@) == Ok::<Option<JsonModel>, Seq<char>>(
                Some(v@),
            ),
            Ok(None) => spec_pointer_delete(path@, doc@) == Ok::<Option<JsonModel>, Seq<char>>(
                None,
            ),
            Err(e) => spec_pointer_delete(path@, doc@) == Err::<Option<JsonModel>, Seq<char>>(e@),
        },
        (path@.len() > 0 && path@[0] != '/') ==> r is Err,
{
    let p = jsonptr::Pointer::parse(path).map_err(|e| e.to_string())?;
    let mut d = value_to_serde(doc);
    Ok(p.delete(&mut d).map(|_| value_from_serde(d)))
}

/// Whether the encoded token `t` names array position `n` as jsonptr reads
/// indices.
pub(crate) fn names_index(t: &str, n: usize) -> (r: bool)
    ensures
        r == index_token_names(t@, n as int),
{
    if str_eq(t, "-") {
        return true;
    }
    proof {
        reveal_strlit("-");
        reveal_strlit("0");
    }
    let cs = chars_of(t);
    let len = cs.len();
    if len > 1 && cs[0] == '0' {
        assert(t@.len() != "0"@.len());
        return false;
    }
    let mut start: usize = 0;
    if len > 0 && cs[0] == '+' {
        start = 1;
    }
    let ghost d = unsigned_digits(t@);
    assert(d =~= t@.subrange(start as int, len as int));
    if start >= len {
        return false;
    }
    let mut v: u128 = 0;
    let mut over = false;
    let mut i: usize = start;
    assert(t@.subrange(start as int, start as int) =~= Seq::<char>::empty());
    while i < len
        invariant
            cs@ == t@,
            len == cs.len(),
            start <= i <= len,
            d =~= t@.subrange(start as int, len as int),
            d == unsigned_digits(t@),
            t@ != "-"@,
            forall|j: int| start <= j < i ==> is_ascii_digit(#[trigger] t@[j]),
            !over ==> v == digits_value(t@.subrange(start as int, i as int)) && v <= n,
            over ==> digits_value(t@.subrange(start as int, i as int)) > n,
            digits_value(t@.subrange(start as int, i as int)) >= 0,
        decreases len - i,
    {
        let c = cs[i];
        if !(('0' as u32) <= (c as u32) && (c as u32) <= ('9' as u32)) {
            assert(d[i - start] == c);
            assert(!is_ascii_digit(d[i - start]));
            assert(0 <= i - start < d.len());
            assert(d == unsigned_digits(t@));
            assert(!unsigned_text_of(t@, n as int));
            return false;
        }
        let ghost prev = t@.subrange(start as int, i as int);
        assert(t@.subrange(start as int, i + 1) =~= prev.push(c));
        assert(prev.push(c).drop_last() =~= prev);
        if !over {
            v = v * 10 + ((c as u32) - ('0' as u32)) as u128;
            if v > n as u128 {
                over = true;
            }
        }
        i = i + 1;
    }
    assert(t@.subrange(start as int, len as int) =~= d);
    assert forall|k: int| 0 <= k < d.len() implies is_ascii_digit(#[trigger] d[k]) by {
        assert(d[k] == t@[start + k]);
    }
    proof {
        if len == 1 && cs[0] == '0' {
            assert(t@ =~= "0"@);
        }
    }
    !over && v == n as u128
}

/// The text of std `Debug` formatting of a parsed `serde_json::Value`.
pub uninterp spec fn spec_json_debug(v: JsonModel) -> Seq<char>;

/// Formats a value with `{:?}`, as `serde_json::Value`'s `Debug` does; the
/// text is the named `spec_json_debug` of the value.
#[verifier::external_body]
pub(crate) fn json_debug_text(v: &JsonValue) -> (r: String)
    ensures
        r@ == spec_json_debug(v@),
{
    format!("{:?}", value_to_serde(v))
}

/// The result of parsing bytes with `serde_json::from_slice`, over models:
/// the parsed value, or the parser's error message.
pub uninterp spec fn spec_json_parse_bytes(bytes: Seq<u8>) -> Result<JsonModel, Seq<char>>;

/// Parses JSON bytes with `serde_json::from_slice::<serde_json::Value>`; the
/// result is the named `spec_json_parse_bytes` of the bytes.
#[verifier::external_body]
pub(crate) fn value_from_serde_slice(bytes: &Vec<u8>) -> (r: Result<JsonValue, String>)
    ensures
        match r {
            Ok(v) => spec_json_parse_bytes(bytes@) == Ok::<JsonModel, Seq<char>>(v@),
            Err(e) => spec_json_parse_bytes(bytes@) == Err::<JsonModel, Seq<char>>(e@),
        },
{
    match serde_json::from_slice::<serde_json::Value>(bytes.as_slice()) {
        Ok(v) => Ok(value_from_serde(v)),
        Err(e) => Err(e.to_string()),
    }
}

/// The compact JSON text of a value, as `serde_json::Value`'s `Display`
/// writes it.
pub uninterp spec fn spec_json_text(v: JsonModel) -> Seq<char>;

/// Writes a value as compact JSON text (`serde_json::Value::to_string`);
/// the text is the named `spec_json_text` of the value.
#[verifier::external_body]
pub(crate) fn json_text(v: &JsonValue) -> (r: String)
    ensures
        r@ == spec_json_text(v@),
{
    value_to_serde(v).to_string()
}

/// Parses JSON text into a value; the result, value or error message, is
/// the parse `spec_json_parse` names.
pub fn parse_json(text: &str) -> (r: Result<JsonValue, String>)
    ensures
        match r {
            Ok(v) => spec_json_parse(text@) == Ok::<JsonModel, Seq<char>>(v@),
            Err(e) => spec_json_parse(text@) == Err::<JsonModel, Seq<char>>(e@),
        },
{
    parse_json_text(text)
}

/// The compact JSON text of a value (as `serde_json` writes it).
pub fn to_json_text(v: &JsonValue) -> (r: String)
    ensures
        r@ == spec_json_text(v@),
{
    json_text(v)
}

} // verus!
