//! JSON text in and out, by way of `serde_json`.

use serde_json::Error as ParseFailure;
use serde_json::Value;
use vstd::prelude::*;

verus! {

/// `serde_json::Value`, any JSON value.
#[verifier::external_type_specification]
#[verifier::external_body]
pub struct ExValue(serde_json::Value);

/// `serde_json::Error`, why a text is not JSON.
#[verifier::external_type_specification]
#[verifier::external_body]
pub struct ExParseFailure(ParseFailure);

/// The members of a JSON object whose values are strings. No other value has
/// any.
pub uninterp spec fn string_members(v: Value) -> Map<Seq<char>, Seq<char>>;

/// The name of what `serde_json::from_str` makes of a text: the string members
/// of the JSON value it denotes, or none where it denotes no JSON value.
pub uninterp spec fn parsed(text: Seq<char>) -> Option<Map<Seq<char>, Seq<char>>>;

/// The name of the text that `serde_json` writes for an object of two members
/// whose values are strings.
pub uninterp spec fn pair_text(
    key1: Seq<char>,
    value1: Seq<char>,
    key2: Seq<char>,
    value2: Seq<char>,
) -> Seq<char>;

/// `serde_json::from_str` to a `Value`: the JSON value that the text denotes,
/// or an error where it denotes none.
#[verifier::external_body]
pub(crate) fn parse(text: &str) -> (r: Result<Value, ParseFailure>)
    ensures
        r matches Ok(v) ==> parsed(text@) == Some(string_members(v)),
        r is Err ==> parsed(text@) is None,
{
    serde_json::from_str::<Value>(text)
}

/// Indexing a `Value` by a key, then `Value::as_str`: the value of the object's
/// member of that name, where there is one and it is a string.
#[verifier::external_body]
pub(crate) fn string_member(v: &Value, key: &str) -> (r: Option<String>)
    ensures
        r is Some <==> string_members(*v).dom().contains(key@),
        r matches Some(s) ==> s@ == string_members(*v)[key@],
{
    v[key].as_str().map(|s| s.to_string())
}

/// `Value::from_iter` on two key-value pairs, then `to_string`: the text of the
/// object with these members. Read back, it is the object with these members.
#[verifier::external_body]
pub(crate) fn write_pair(key1: &str, value1: &str, key2: &str, value2: &str) -> (r: String)
    ensures
        r@ == pair_text(key1@, value1@, key2@, value2@),
        key1@ != key2@ ==> parsed(r@) == Some(
            Map::<Seq<char>, Seq<char>>::empty().insert(key1@, value1@).insert(key2@, value2@),
        ),
{
    Value::from_iter([(key1, value1), (key2, value2)]).to_string()
}

} // verus!
