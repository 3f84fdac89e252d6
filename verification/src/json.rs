use vstd::prelude::*;
use serde_json::Value;

verus! {

/// `serde_json::Value`: a parsed JSON value. It is read through the functions below alone.
#[verifier::external_type_specification]
#[verifier::external_body]
pub struct ExValue(Value);

/// `serde_json::Error`: why a text was refused. Nothing of its inside is seen here.
#[verifier::external_type_specification]
#[verifier::external_body]
pub struct ExJsonError(serde_json::Error);

/// A JSON value, as far as this library reads one.
pub enum JsonTree {
    Null,
    Bool(bool),
    /// A number; what it is as a `u64`, where it is a whole number that fits.
    Number(Option<u64>),
    Text(Seq<char>),
    Array(Seq<JsonTree>),
    Object(Map<Seq<char>, JsonTree>),
}

/// What a parsed JSON value holds.
pub uninterp spec fn json_tree(v: Value) -> JsonTree;

/// What `serde_json::from_str` reads from a text: the value, or nothing where the text is refused.
pub uninterp spec fn json_document(text: Seq<char>) -> Option<JsonTree>;

/// The member of an object under `key`; nothing where the value is no object or has no such member.
pub open spec fn member_of(tree: JsonTree, key: Seq<char>) -> Option<JsonTree> {
    match tree {
        JsonTree::Object(members) => if members.contains_key(key) {
            Some(members[key])
        } else {
            None
        },
        _ => None,
    }
}

/// The text of a value that is a string.
pub open spec fn text_in(tree: Option<JsonTree>) -> Option<Seq<char>> {
    match tree {
        Some(JsonTree::Text(t)) => Some(t),
        _ => None,
    }
}

/// The number of a value that is a whole number in the range of `u64`.
pub open spec fn number_in(tree: Option<JsonTree>) -> Option<u64> {
    match tree {
        Some(JsonTree::Number(n)) => n,
        _ => None,
    }
}

/// The items of a value that is an array.
pub open spec fn items_in(tree: Option<JsonTree>) -> Option<Seq<JsonTree>> {
    match tree {
        Some(JsonTree::Array(items)) => Some(items),
        _ => None,
    }
}

/// What each of the values holds.
pub open spec fn trees(values: Seq<Value>) -> Seq<JsonTree> {
    Seq::new(values.len(), |i: int| json_tree(values[i]))
}

/// `serde_json::from_str` at `Value`: parses a JSON text. What it reads depends on the text alone.
#[verifier::external_body]
pub(crate) fn parse_document(text: &str) -> (r: Result<Value, serde_json::Error>)
    ensures
        match r {
            Ok(v) => json_document(text@) == Some(json_tree(v)),
            Err(_) => json_document(text@) is None,
        },
{
    serde_json::from_str(text)
}

/// `Value::get` with a string: the member of an object under that key; nothing
/// where the value is no object or has no such member.
#[verifier::external_body]
pub(crate) fn member<'a>(v: &'a Value, key: &str) -> (r: Option<&'a Value>)
    ensures
        match r {
            Some(m) => member_of(json_tree(*v), key@) == Some(json_tree(*m)),
            None => member_of(json_tree(*v), key@) is None,
        },
{
    v.get(key)
}

/// `Value::as_str`: the text of a string value; nothing for any other value.
#[verifier::external_body]
pub(crate) fn as_text<'a>(v: &'a Value) -> (r: Option<&'a str>)
    ensures
        match r {
            Some(s) => text_in(Some(json_tree(*v))) == Some(s@),
            None => text_in(Some(json_tree(*v))) is None,
        },
{
    v.as_str()
}

/// `Value::as_u64`: a number that is a whole number in the range of `u64`; nothing for any other value.
#[verifier::external_body]
pub(crate) fn as_number(v: &Value) -> (r: Option<u64>)
    ensures
        r == number_in(Some(json_tree(*v))),
{
    v.as_u64()
}

/// `Value::as_array`: the items of an array; nothing for any other value.
#[verifier::external_body]
pub(crate) fn as_items<'a>(v: &'a Value) -> (r: Option<&'a Vec<Value>>)
    ensures
        match r {
            Some(items) => items_in(Some(json_tree(*v))) == Some(trees(items@)),
            None => items_in(Some(json_tree(*v))) is None,
        },
{
    v.as_array()
}

} // verus!
