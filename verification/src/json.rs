//! JSON values as plain values, for the replies the fetchers inspect, and
//! looking up an object's fields.
use vstd::prelude::*;
use crate::text::{chars_of, eq_str};

verus! {

/// A JSON value; numbers are kept as their text.
#[derive(Debug)]
pub enum JsonValue {
    Null,
    Bool(bool),
    Number(String),
    Str(String),
    Array(Vec<JsonValue>),
    Object(Vec<JsonField>),
}

/// One field of a JSON object.
#[derive(Debug)]
pub struct JsonField {
    pub key: String,
    pub value: JsonValue,
}

/// The value of the first field named `key`, if there is one.
pub open spec fn field_value(fields: Seq<JsonField>, key: Seq<char>) -> Option<JsonValue>
    decreases fields.len(),
{
    if fields.len() == 0 {
        None
    } else if fields[0].key@ == key {
        Some(fields[0].value)
    } else {
        field_value(fields.drop_first(), key)
    }
}

proof fn lemma_field_value_skip(fields: Seq<JsonField>, key: Seq<char>, i: int)
    requires
        0 <= i <= fields.len(),
        forall|q: int| 0 <= q < i ==> (#[trigger] fields[q]).key@ != key,
    ensures
        field_value(fields, key) == field_value(fields.skip(i), key),
    decreases i,
{
    if i > 0 {
        let rest = fields.drop_first();
        assert forall|q: int| 0 <= q < i - 1 implies (#[trigger] rest[q]).key@ != key by {
            assert(rest[q] == fields[q + 1]);
        }
        lemma_field_value_skip(rest, key, i - 1);
        assert(rest.skip(i - 1) =~= fields.skip(i));
    } else {
        assert(fields.skip(0) =~= fields);
    }
}

/// The value of an object's first field named `key`.
pub fn object_field<'a>(fields: &'a Vec<JsonField>, key: &str) -> (r: Option<&'a JsonValue>)
    ensures
        match field_value(fields@, key@) {
            Some(v) => r matches Some(x) && *x == v,
            None => r is None,
        },
{
    let mut i: usize = 0;
    while i < fields.len()
        invariant
            i <= fields@.len(),
            forall|q: int| 0 <= q < i ==> (#[trigger] fields@[q]).key@ != key@,
        decreases fields.len() - i,
    {
        if eq_str(&chars_of(fields[i].key.as_str()), key) {
            proof {
                lemma_field_value_skip(fields@, key@, i as int);
                assert(fields@.skip(i as int)[0] == fields@[i as int]);
            }
            return Some(&fields[i].value);
        }
        i = i + 1;
    }
    proof {
        lemma_field_value_skip(fields@, key@, i as int);
        assert(fields@.skip(i as int).len() == 0);
    }
    None
}

/// serde_json's own JSON value, carried only inside the reader below.
#[verifier::external_type_specification]
#[verifier::external_body]
pub struct ExSerdeValue(serde_json::Value);

/// What `serde_json::from_str::<serde_json::Value>` reads from a text, as
/// the library's value; none when the text is not JSON.
pub uninterp spec fn json_value_of(text: Seq<char>) -> Option<JsonValue>;

/// Turns a `serde_json::Value` into the library's value, variant for
/// variant: numbers as serde_json prints them, strings as they are, object
/// fields in the order the map holds them.
#[verifier::external_body]
fn from_serde(v: &serde_json::Value) -> (r: JsonValue) {
    match v {
        serde_json::Value::Null => JsonValue::Null,
        serde_json::Value::Bool(b) => JsonValue::Bool(*b),
        serde_json::Value::Number(n) => JsonValue::Number(n.to_string()),
        serde_json::Value::String(t) => JsonValue::Str(t.clone()),
        serde_json::Value::Array(items) => JsonValue::Array(items.iter().map(from_serde).collect()),
        serde_json::Value::Object(map) => JsonValue::Object(
            map.iter().map(|(k, x)| JsonField { key: k.clone(), value: from_serde(x) }).collect(),
        ),
    }
}

/// Reads a text as JSON with `serde_json::from_str::<serde_json::Value>`;
/// what it reads is named `json_value_of`, and nothing more is claimed of
/// it here.
#[verifier::external_body]
pub(crate) fn read_json_value(text: &str) -> (r: Option<JsonValue>)
    ensures
        r == json_value_of(text@),
{
    serde_json::from_str::<serde_json::Value>(text).ok().map(|v| from_serde(&v))
}

} // verus!
