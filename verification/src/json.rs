//! A plain JSON tree the verified code can inspect, obtained from
//! `serde_json`, and lookup of an object's fields.

use vstd::prelude::*;

verus! {

/// A JSON number: an exact 64-bit integer where one fits, otherwise the
/// number's canonical rendering.
pub enum JsonNum {
    Int(i64),
    Other(String),
}

/// A decoded JSON document. Object fields carry unique keys (a duplicate
/// key in the source text keeps its last value, as `serde_json` does).
pub enum JsonVal {
    Null,
    Bool(bool),
    Num(JsonNum),
    Str(String),
    Arr(Vec<JsonVal>),
    Obj(Vec<(String, JsonVal)>),
}

/// What parsing a text as JSON yields: `None` exactly when the text is
/// not a valid JSON document.
pub uninterp spec fn json_of(s: Seq<char>) -> Option<JsonVal>;

/// Relies on `serde_json::from_str::<Value>`: decoding is a pure function
/// of the input text and fails exactly on malformed JSON.
#[verifier::external_body]
pub(crate) fn parse_json_text(s: &str) -> (r: Option<JsonVal>)
    ensures
        r == json_of(s@),
{
    match serde_json::from_str::<serde_json::Value>(s) {
        Ok(v) => Some(from_value(v)),
        Err(_) => None,
    }
}

#[verifier::external_type_specification]
#[verifier::external_body]
pub struct ExValue(serde_json::Value);

/// Mirrors a `serde_json::Value` into the library's tree, one arm per
/// variant. Relies on `Number::as_i64` (exact 64-bit integers) and on
/// `Number`'s `Display` (canonical rendering) for the numeric leaves.
#[verifier::external_body]
fn from_value(v: serde_json::Value) -> JsonVal {
    match v {
        serde_json::Value::Null => JsonVal::Null,
        serde_json::Value::Bool(b) => JsonVal::Bool(b),
        serde_json::Value::Number(n) => match n.as_i64() {
            Some(i) => JsonVal::Num(JsonNum::Int(i)),
            None => JsonVal::Num(JsonNum::Other(n.to_string())),
        },
        serde_json::Value::String(t) => JsonVal::Str(t),
        serde_json::Value::Array(a) => JsonVal::Arr(a.into_iter().map(from_value).collect()),
        serde_json::Value::Object(m) => JsonVal::Obj(
            m.into_iter().map(|(k, x)| (k, from_value(x))).collect(),
        ),
    }
}

/// What converting a text to a finite JSON number yields: the number's
/// canonical rendering, or `None` when the text is not numeric.
pub uninterp spec fn float_text_of(s: Seq<char>) -> Option<Seq<char>>;

/// Relies on `serde_json::Number`'s `FromStr` and `Display`: a JSON
/// number literal converts, as a pure function of its text, to a finite
/// value with a canonical rendering; a non-numeric text is rejected.
/// The accepted grammar is JSON's — so `inf`, `NaN` and overflowing
/// values fail, as the finiteness requirement asks, but so do spellings
/// such as `+42.5`, `.5` or `5.` that a general float parse would take;
/// and a value of extreme magnitude renders in exponent form.
#[verifier::external_body]
pub(crate) fn canon_number_text(s: &str) -> (r: Option<String>)
    ensures
        (r is Some) == (float_text_of(s@) is Some),
        r is Some ==> r.unwrap()@ == float_text_of(s@).unwrap(),
{
    match s.parse::<serde_json::Number>() {
        Ok(n) => Some(n.to_string()),
        Err(_) => None,
    }
}

/// The value under the first field named `key`, if any.
pub open spec fn lookup(fields: Seq<(String, JsonVal)>, key: Seq<char>) -> Option<JsonVal>
    decreases fields.len(),
{
    if fields.len() == 0 {
        None
    } else if fields[0].0@ == key {
        Some(fields[0].1)
    } else {
        lookup(fields.drop_first(), key)
    }
}

/// Find the first field named `key` in a decoded object.
pub fn lookup_field<'a>(fields: &'a Vec<(String, JsonVal)>, key: &str) -> (r: Option<
    &'a JsonVal,
>)
    ensures
        (r is Some) == (lookup(fields@, key@) is Some),
        r is Some ==> *r.unwrap() == lookup(fields@, key@).unwrap(),
{
    let n = fields.len();
    let mut i: usize = 0;
    assert(fields@.skip(0) =~= fields@);
    while i < n
        invariant
            n == fields@.len(),
            0 <= i <= n,
            lookup(fields@, key@) == lookup(fields@.skip(i as int), key@),
        decreases n - i,
    {
        assert(fields@.skip(i as int)[0] == fields@[i as int]);
        if crate::strutil::str_eq(fields[i].0.as_str(), key) {
            return Some(&fields[i].1);
        }
        assert(fields@.skip(i as int).drop_first() =~= fields@.skip(i + 1));
        i = i + 1;
    }
    assert(fields@.skip(n as int) =~= Seq::<(String, JsonVal)>::empty());
    None
}

} // verus!
