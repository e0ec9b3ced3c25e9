use vstd::prelude::*;

verus! {

/// A JSON document as a tree. A number carries its value where that is an
/// integer within 64 bits, and nothing otherwise.
#[derive(Debug, PartialEq, Eq)]
pub enum JsonValue {
    Null,
    Bool(bool),
    Number(Option<i64>),
    Text(String),
    Array(Vec<JsonValue>),
    Object(Vec<(String, JsonValue)>),
}

/// A value of `serde_json`, as its parser returns it.
#[verifier::external_type_specification]
#[verifier::external_body]
pub struct ExValue(serde_json::Value);

/// The tree that `serde_json` reads from `text`, or `None` where it rejects
/// the text.
pub uninterp spec fn json_document(text: Seq<char>) -> Option<JsonValue>;

/// `text` as `serde_json` writes a string: between double quotes, with
/// escapes.
pub uninterp spec fn json_string(text: Seq<char>) -> Option<Seq<char>>;

/// Moves a value of `serde_json` into a tree, variant by variant
/// (`serde_json::Number::as_i64` gives the number's value, the iterators of
/// `Vec` and `serde_json::Map` the items of an array and the members of an
/// object).
#[verifier::external_body]
fn lift(value: serde_json::Value) -> JsonValue {
    match value {
        serde_json::Value::Null => JsonValue::Null,
        serde_json::Value::Bool(flag) => JsonValue::Bool(flag),
        serde_json::Value::Number(number) => JsonValue::Number(number.as_i64()),
        serde_json::Value::String(text) => JsonValue::Text(text),
        serde_json::Value::Array(items) => JsonValue::Array(items.into_iter().map(lift).collect()),
        serde_json::Value::Object(members) => JsonValue::Object(
            members.into_iter().map(|(key, value)| (key, lift(value))).collect(),
        ),
    }
}

/// Calls `serde_json::from_str` for a `serde_json::Value`. The result is the
/// tree of the document that the parser read, and `None` where the parser
/// returned an error.
#[verifier::external_body]
pub(crate) fn parse_document(text: &str) -> (document: Option<JsonValue>)
    ensures
        document == json_document(text@),
{
    match serde_json::from_str::<serde_json::Value>(text) {
        Ok(value) => Some(lift(value)),
        Err(_) => None,
    }
}

/// Calls `serde_json::to_string` on a string slice. The result is the JSON
/// string that the serializer wrote, and `None` where it returned an error.
#[verifier::external_body]
pub(crate) fn quote(text: &str) -> (quoted: Option<String>)
    ensures
        match quoted {
            Some(q) => json_string(text@) == Some(q@),
            None => json_string(text@) is None,
        },
{
    serde_json::to_string(text).ok()
}

/// The value of the first member of `members` that is named `key`.
pub open spec fn member(members: Seq<(String, JsonValue)>, key: Seq<char>) -> Option<JsonValue>
    decreases members.len(),
{
    if members.len() == 0 {
        None
    } else if members[0].0@ == key {
        Some(members[0].1)
    } else {
        member(members.drop_first(), key)
    }
}

/// What a reference that may be absent refers to.
pub open spec fn deref_value(found: Option<&JsonValue>) -> Option<JsonValue> {
    match found {
        Some(value) => Some(*value),
        None => None,
    }
}

/// Finds the value of the first member of `members` that is named `key`.
pub fn find_member<'a>(members: &'a Vec<(String, JsonValue)>, key: &str) -> (found: Option<
    &'a JsonValue,
>)
    ensures
        deref_value(found) == member(members@, key@),
{
    let name = String::from_str(key);
    let mut i: usize = 0;
    assert(members@.skip(0) == members@);
    while i < members.len()
        invariant
            i <= members.len(),
            name@ == key@,
            member(members@, key@) == member(members@.skip(i as int), key@),
        decreases members.len() - i,
    {
        if members[i].0 == name {
            assert(members@.skip(i as int)[0] == members@[i as int]);
            return Some(&members[i].1);
        }
        assert(members@.skip(i as int).drop_first() == members@.skip(i + 1));
        i += 1;
    }
    None
}

} // verus!
