//! JSON document model and the trusted text boundary.
//!
//! The protocol logic works on [`JsonValue`], an owned tree.  The only
//! steps taken on trust are the two conversions between a tree and its
//! JSON text, which go through serde_json.

use vstd::prelude::*;

verus! {

/// An owned JSON document.
///
/// Numbers are carried as their literal text: the protocol logic never
/// computes with them, it only routes payloads between the wire and the
/// caller, and the textual form keeps the model free of floating point.
#[derive(Debug, PartialEq, Eq)]
pub enum JsonValue {
    Null,
    Bool(bool),
    Num(String),
    Str(String),
    Arr(Vec<JsonValue>),
    Obj(Vec<(String, JsonValue)>),
}

/// The serialized text of a tree.  Named, not written out: it stands for
/// what serde_json::to_string returns, which is a function of the tree
/// alone.
pub uninterp spec fn json_text_of(v: JsonValue) -> Seq<char>;

/// The tree parsed from a text, or None when the text is not JSON.
/// Named, not written out: it stands for what serde_json::from_str
/// returns, which is a function of the text alone.
pub uninterp spec fn json_parse_of(s: Seq<char>) -> Option<JsonValue>;

/// Trusted conversion from the model to serde_json's tree; used only by
/// the text boundary below.  One arm per variant, moving fields only; a
/// number whose text serde_json does not accept falls back to null.
#[verifier::external_body]
fn value_of_model(v: &JsonValue) -> serde_json::Value {
    match v {
        JsonValue::Null => serde_json::Value::Null,
        JsonValue::Bool(b) => serde_json::Value::Bool(*b),
        JsonValue::Num(s) => match serde_json::from_str::<serde_json::Number>(s) {
            Ok(n) => serde_json::Value::Number(n),
            Err(_) => serde_json::Value::Null,
        },
        JsonValue::Str(s) => serde_json::Value::String(s.clone()),
        JsonValue::Arr(items) => serde_json::Value::Array(items.iter().map(value_of_model).collect()),
        JsonValue::Obj(pairs) => serde_json::Value::Object(
            pairs.iter().map(|p| (p.0.clone(), value_of_model(&p.1))).collect(),
        ),
    }
}

/// Trusted conversion from serde_json's tree to the model; used only by
/// the text boundary below.  One arm per variant; numbers keep their
/// printed text.
#[verifier::external_body]
fn model_of_value(v: &serde_json::Value) -> JsonValue {
    match v {
        serde_json::Value::Null => JsonValue::Null,
        serde_json::Value::Bool(b) => JsonValue::Bool(*b),
        serde_json::Value::Number(n) => JsonValue::Num(n.to_string()),
        serde_json::Value::String(s) => JsonValue::Str(s.clone()),
        serde_json::Value::Array(items) => JsonValue::Arr(items.iter().map(model_of_value).collect()),
        serde_json::Value::Object(m) => JsonValue::Obj(
            m.iter().map(|(k, x)| (k.clone(), model_of_value(x))).collect(),
        ),
    }
}

#[verifier::external_type_specification]
#[verifier::external_body]
pub struct ExValue(serde_json::Value);

/// Relies on serde_json::to_string: the serialized text of a tree is a
/// function of the tree alone.
#[verifier::external_body]
pub(crate) fn to_text(v: &JsonValue) -> (r: String)
    ensures
        r@ == json_text_of(*v),
{
    serde_json::to_string(&value_of_model(v)).unwrap_or_default()
}

/// Relies on serde_json::from_str: the tree parsed from a text is a
/// function of the text alone; malformed text gives None.
#[verifier::external_body]
pub(crate) fn parse_text(s: &str) -> (r: Option<JsonValue>)
    ensures
        r == json_parse_of(s@),
{
    match serde_json::from_str::<serde_json::Value>(s) {
        Ok(v) => Some(model_of_value(&v)),
        Err(_) => None,
    }
}

/// Character-for-character string equality.
pub fn str_eq(a: &str, b: &str) -> (r: bool)
    ensures
        r == (a@ == b@),
{
    let alen = a.unicode_len();
    let blen = b.unicode_len();
    if alen != blen {
        return false;
    }
    let mut i: usize = 0;
    while i < alen
        invariant
            alen == a@.len(),
            alen == b@.len(),
            i <= alen,
            forall|j: int| 0 <= j < i ==> a@[j] == b@[j],
        decreases alen - i,
    {
        if a.get_char(i) != b.get_char(i) {
            return false;
        }
        i = i + 1;
    }
    proof {
        assert(a@ =~= b@);
    }
    true
}

/// The first pair of `pairs` whose key reads `key` stands at `i`.
pub open spec fn is_first_match(pairs: Seq<(String, JsonValue)>, key: Seq<char>, i: int) -> bool {
    &&& 0 <= i < pairs.len()
    &&& pairs[i].0@ == key
    &&& forall|j: int| 0 <= j < i ==> pairs[j].0@ != key
}

/// Some pair of `pairs` is keyed `key`.
pub open spec fn has_key(pairs: Seq<(String, JsonValue)>, key: Seq<char>) -> bool {
    exists|i: int| is_first_match(pairs, key, i)
}

/// Index of the first pair keyed `key`; meaningful only under `has_key`.
pub open spec fn first_index(pairs: Seq<(String, JsonValue)>, key: Seq<char>) -> int {
    choose|i: int| is_first_match(pairs, key, i)
}

/// Value of the first pair keyed `key`; meaningful only under `has_key`.
pub open spec fn first_value(pairs: Seq<(String, JsonValue)>, key: Seq<char>) -> JsonValue {
    pairs[first_index(pairs, key)].1
}

/// A first match is the first match: it pins `first_index` and
/// `first_value`.
pub proof fn lemma_first_match_unique(pairs: Seq<(String, JsonValue)>, key: Seq<char>, i: int)
    requires
        is_first_match(pairs, key, i),
    ensures
        has_key(pairs, key),
        first_index(pairs, key) == i,
        first_value(pairs, key) == pairs[i].1,
{
    let j = first_index(pairs, key);
    assert(is_first_match(pairs, key, j));
    if i < j {
        assert(pairs[i].0@ != key);
    }
    if j < i {
        assert(pairs[j].0@ != key);
    }
}

/// Finds the first pair keyed `key`, if any.
pub fn find_field(pairs: &Vec<(String, JsonValue)>, key: &str) -> (r: Option<usize>)
    ensures
        match r {
            Some(i) => is_first_match(pairs@, key@, i as int),
            None => !has_key(pairs@, key@),
        },
{
    let mut i: usize = 0;
    while i < pairs.len()
        invariant
            i <= pairs@.len(),
            forall|j: int| 0 <= j < i ==> pairs@[j].0@ != key@,
        decreases pairs@.len() - i,
    {
        if str_eq(pairs[i].0.as_str(), key) {
            return Some(i);
        }
        i = i + 1;
    }
    None
}

} // verus!
