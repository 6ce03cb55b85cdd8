use serde_json::{to_vec, Value};
use crate::signature::view_bytes_opt;
use vstd::prelude::*;
use vstd::slice::slice_to_vec;
use vstd::string::StringExecFns;

verus! {

/// The outermost level of a JSON document: a scalar in full, or the members
/// of an array or an object each as its own JSON text.
#[derive(Debug, Clone, PartialEq, Eq)]
pub enum JsonNode {
    Null,
    Bool(bool),
    Number(String),
    Str(String),
    Array(Vec<Vec<u8>>),
    Object(Vec<(String, Vec<u8>)>),
}

/// The outermost level of `text` as `serde_json` reads it, or `None` where
/// `text` is not one JSON document.
pub uninterp spec fn json_node_of(text: Seq<u8>) -> Option<JsonNode>;

/// Relies on `serde_json::from_slice` to parse one JSON document, and on
/// `serde_json::to_vec` to write each member of an array or object back as text.
#[verifier::external_body]
fn parse_json_node(text: &[u8]) -> (r: Option<JsonNode>)
    ensures
        r == json_node_of(text@),
{
    match serde_json::from_slice::<Value>(text) {
        Err(_) => None,
        Ok(Value::Null) => Some(JsonNode::Null),
        Ok(Value::Bool(b)) => Some(JsonNode::Bool(b)),
        Ok(Value::Number(n)) => Some(JsonNode::Number(n.to_string())),
        Ok(Value::String(s)) => Some(JsonNode::Str(s)),
        Ok(Value::Array(a)) => Some(JsonNode::Array(a.iter().map(|v| to_vec(v).unwrap_or_default()).collect())),
        Ok(Value::Object(m)) => Some(JsonNode::Object(m.iter().map(|(k, v)| (k.clone(), to_vec(v).unwrap_or_default())).collect())),
    }
}

/// Text of the first member named `key`.
pub open spec fn member_of(fields: Seq<(String, Vec<u8>)>, key: Seq<char>) -> Option<Seq<u8>>
    decreases fields.len(),
{
    if fields.len() == 0 {
        None
    } else if fields[0].0@ == key {
        Some(fields[0].1@)
    } else {
        member_of(fields.skip(1), key)
    }
}

/// Text of the member `key` of the object in `node`; `None` when `node` is no
/// object or has no such member.
pub open spec fn node_member(node: Option<JsonNode>, key: Seq<char>) -> Option<Seq<u8>> {
    match node {
        Some(JsonNode::Object(fields)) => member_of(fields@, key),
        _ => None,
    }
}

/// Text of the member `key` of the object that `text` holds.
pub open spec fn json_member(text: Seq<u8>, key: Seq<char>) -> Option<Seq<u8>> {
    node_member(json_node_of(text), key)
}

/// The string that `text` holds, if it holds one.
pub open spec fn json_string(text: Seq<u8>) -> Option<Seq<char>> {
    match json_node_of(text) {
        Some(JsonNode::Str(s)) => Some(s@),
        _ => None,
    }
}

/// The boolean that `text` holds, if it holds one.
pub open spec fn json_bool(text: Seq<u8>) -> Option<bool> {
    match json_node_of(text) {
        Some(JsonNode::Bool(b)) => Some(b),
        _ => None,
    }
}

pub open spec fn view_string_opt(o: Option<String>) -> Option<Seq<char>> {
    match o {
        Some(v) => Some(v@),
        None => None,
    }
}

/// Parses the outermost level of `text`.
pub fn parse_node(text: &[u8]) -> (r: Option<JsonNode>)
    ensures
        r == json_node_of(text@),
{
    parse_json_node(text)
}

/// Text of the member `key` of the object in `node`.
pub fn member(node: &Option<JsonNode>, key: &str) -> (r: Option<Vec<u8>>)
    ensures
        view_bytes_opt(r) == node_member(*node, key@),
{
    let fields = match node {
        Some(JsonNode::Object(fields)) => fields,
        _ => {
            return None;
        },
    };
    let k = String::from_str(key);
    let mut i: usize = 0;
    assert(fields@.skip(0) =~= fields@);
    while i < fields.len()
        invariant
            i <= fields@.len(),
            k@ == key@,
            node_member(*node, key@) == member_of(fields@, key@),
            member_of(fields@, key@) == member_of(fields@.skip(i as int), key@),
        decreases fields@.len() - i,
    {
        let ghost rest = fields@.skip(i as int);
        assert(rest[0] == fields@[i as int]);
        let same_key: bool = fields[i].0.eq(&k);
        if same_key {
            let v = slice_to_vec(fields[i].1.as_slice());
            assert(member_of(rest, key@) == Some(v@));
            return Some(v);
        }
        assert(rest.skip(1) =~= fields@.skip(i + 1));
        i = i + 1;
    }
    None
}

/// The string that `text` holds, if it holds one.
pub fn string_value(text: &[u8]) -> (r: Option<String>)
    ensures
        view_string_opt(r) == json_string(text@),
{
    match parse_json_node(text) {
        Some(JsonNode::Str(s)) => Some(s),
        _ => None,
    }
}

/// The boolean that `text` holds, if it holds one.
pub fn bool_value(text: &[u8]) -> (r: Option<bool>)
    ensures
        r == json_bool(text@),
{
    match parse_json_node(text) {
        Some(JsonNode::Bool(b)) => Some(b),
        _ => None,
    }
}

} // verus!
