//! Reading JSON text: what a document holds at a JSON pointer (RFC 6901),
//! the one question the library asks of the JSON parser.

use vstd::prelude::*;
use crate::text::opt_chars;

verus! {

/// What a JSON document holds at a JSON pointer, told apart by kind.
#[derive(Debug)]
pub enum JsonAt {
    /// The text is not JSON; the parser's message.
    Invalid(String),
    /// Nothing is at the pointer.
    Absent,
    /// A number; its value when it is an unsigned integer that fits a `u64`.
    Number(Option<u64>),
    /// A string.
    Text(String),
    /// An array of this length.
    Array(usize),
    /// An object, with its keys in the parser's order.
    Object(Vec<String>),
    /// `null` or a boolean.
    Other,
}

/// What a JSON document holds at a pointer, as a model.
pub enum JsonAtModel {
    /// Not JSON; the parser's message.
    Invalid(Seq<char>),
    Absent,
    Number(Option<u64>),
    Text(Seq<char>),
    Array(usize),
    Object(Seq<Seq<char>>),
    Other,
}

/// The model of a pointer lookup.
pub open spec fn json_at_model(j: JsonAt) -> JsonAtModel {
    match j {
        JsonAt::Invalid(m) => JsonAtModel::Invalid(m@),
        JsonAt::Absent => JsonAtModel::Absent,
        JsonAt::Number(n) => JsonAtModel::Number(n),
        JsonAt::Text(s) => JsonAtModel::Text(s@),
        JsonAt::Array(n) => JsonAtModel::Array(n),
        JsonAt::Object(keys) => JsonAtModel::Object(keys@.map_values(|k: String| k@)),
        JsonAt::Other => JsonAtModel::Other,
    }
}

/// What `serde_json::from_str::<Value>(text)` followed by
/// `Value::pointer(pointer)` gives.
pub uninterp spec fn json_at(text: Seq<char>, pointer: Seq<char>) -> JsonAtModel;

/// `serde_json::from_str::<serde_json::Value>` of `text`, then
/// `Value::pointer(pointer)` (RFC 6901), told apart by the value's kind:
/// `Number::as_u64` of a number, a string's text, an array's length, an
/// object's keys in the order `Map::keys` gives them, and
/// the parser's message when the text is not JSON. JSON's
/// grammar is not restated; the result is named `json_at`, a function of
/// the two texts alone.
#[verifier::external_body]
pub(crate) fn json_value_at(text: &str, pointer: &str) -> (r: JsonAt)
    ensures
        json_at_model(r) == json_at(text@, pointer@),
{
    let v = match serde_json::from_str::<serde_json::Value>(text) {
        Ok(v) => v,
        Err(e) => return JsonAt::Invalid(e.to_string()),
    };
    match v.pointer(pointer) {
        None => JsonAt::Absent,
        Some(serde_json::Value::Number(n)) => JsonAt::Number(n.as_u64()),
        Some(serde_json::Value::String(s)) => JsonAt::Text(s.clone()),
        Some(serde_json::Value::Array(a)) => JsonAt::Array(a.len()),
        Some(serde_json::Value::Object(o)) => JsonAt::Object(o.keys().cloned().collect()),
        Some(_) => JsonAt::Other,
    }
}

/// The keys of the object at a pointer, if that is what is there.
pub open spec fn at_keys(j: JsonAtModel) -> Option<Seq<Seq<char>>> {
    match j {
        JsonAtModel::Object(k) => Some(k),
        _ => None,
    }
}

/// The unsigned integer at a pointer, if that is what is there.
pub open spec fn at_number(j: JsonAtModel) -> Option<u64> {
    match j {
        JsonAtModel::Number(n) => n,
        _ => None,
    }
}

/// The string at a pointer, if that is what is there.
pub open spec fn at_text(j: JsonAtModel) -> Option<Seq<char>> {
    match j {
        JsonAtModel::Text(s) => Some(s),
        _ => None,
    }
}

/// The length of the array at a pointer, if that is what is there.
pub open spec fn at_len(j: JsonAtModel) -> Option<usize> {
    match j {
        JsonAtModel::Array(n) => Some(n),
        _ => None,
    }
}

/// The unsigned integer at `pointer` in the JSON text `text`.
pub fn number_at(text: &str, pointer: &str) -> (r: Option<u64>)
    ensures
        r == at_number(json_at(text@, pointer@)),
{
    match json_value_at(text, pointer) {
        JsonAt::Number(n) => n,
        _ => None,
    }
}

/// The string at `pointer` in the JSON text `text`.
pub fn text_at(text: &str, pointer: &str) -> (r: Option<String>)
    ensures
        opt_chars(r) == at_text(json_at(text@, pointer@)),
{
    match json_value_at(text, pointer) {
        JsonAt::Text(s) => Some(s),
        _ => None,
    }
}

/// The length of the array at `pointer` in the JSON text `text`.
pub fn len_at(text: &str, pointer: &str) -> (r: Option<usize>)
    ensures
        r == at_len(json_at(text@, pointer@)),
{
    match json_value_at(text, pointer) {
        JsonAt::Array(n) => Some(n),
        _ => None,
    }
}

/// The keys of the object at `pointer` in the JSON text `text`.
pub fn keys_at(text: &str, pointer: &str) -> (r: Option<Vec<String>>)
    ensures
        (match r {
            Some(k) => Some(k@.map_values(|s: String| s@)),
            None => None,
        }) == at_keys(json_at(text@, pointer@)),
{
    match json_value_at(text, pointer) {
        JsonAt::Object(k) => Some(k),
        _ => None,
    }
}

/// A key as a JSON pointer reference token: `~` written `~0` and `/`
/// written `~1`.
pub open spec fn pointer_token(k: Seq<char>) -> Seq<char>
    decreases k.len(),
{
    if k.len() == 0 {
        seq![]
    } else {
        let c = k.last();
        pointer_token(k.drop_last()) + (if c == '~' {
            seq!['~', '0']
        } else if c == '/' {
            seq!['~', '1']
        } else {
            seq![c]
        })
    }
}

/// The reference token of the key `k`.
pub fn pointer_token_chars(k: &str) -> (r: Vec<char>)
    ensures
        r@ == pointer_token(k@),
{
    let v = crate::text::chars_of(k);
    let mut out: Vec<char> = Vec::new();
    let mut i: usize = 0;
    while i < v.len()
        invariant
            i <= v.len(),
            v@ == k@,
            out@ == pointer_token(v@.take(i as int)),
        decreases v.len() - i,
    {
        let c = v[i];
        assert(v@.take(i + 1).drop_last() =~= v@.take(i as int));
        assert(v@.take(i + 1).last() == c);
        if c == '~' {
            out.push('~');
            out.push('0');
        } else if c == '/' {
            out.push('~');
            out.push('1');
        } else {
            out.push(c);
        }
        assert(out@ =~= pointer_token(v@.take(i + 1)));
        i = i + 1;
    }
    assert(v@.take(v.len() as int) =~= v@);
    out
}

} // verus!
