//! JSON documents as the service sends them, and the reading of them.

use vstd::prelude::*;

use crate::error::ApiError;
use crate::text::str_eq;

verus! {

/// A JSON value.
///
/// A number is kept as the decimal text in which serde_json writes it: an
/// integer as its digits, with a leading `-` when negative; any other number
/// with a fraction or an exponent.
#[derive(Debug)]
pub enum Json {
    Null,
    Bool(bool),
    Number(String),
    Str(String),
    Array(Vec<Json>),
    Object(Vec<(String, Json)>),
}

#[verifier::external_type_specification]
#[verifier::external_body]
pub struct ExValue(serde_json::Value);

/// The document that serde_json reads from `text`, or `None` where `text`
/// holds no JSON document.
pub uninterp spec fn json_of(text: Seq<char>) -> Option<Json>;

/// Relies on `serde_json::from_str` into a `serde_json::Value`: the document
/// that the text holds, or an error where it holds none.
#[verifier::external_body]
fn read_json(text: &str) -> (r: Option<Json>)
    ensures
        r == json_of(text@),
{
    match serde_json::from_str::<serde_json::Value>(text) {
        Ok(value) => Some(tree_of(value)),
        Err(_) => None,
    }
}

/// Moves a `serde_json::Value` into a `Json`, variant by variant; a number
/// goes by its `Display` text. Only the body of `read_json` calls it, whose
/// contract covers both.
#[verifier::external_body]
fn tree_of(value: serde_json::Value) -> Json {
    match value {
        serde_json::Value::Null => Json::Null,
        serde_json::Value::Bool(b) => Json::Bool(b),
        serde_json::Value::Number(n) => Json::Number(n.to_string()),
        serde_json::Value::String(s) => Json::Str(s),
        serde_json::Value::Array(items) => Json::Array(items.into_iter().map(tree_of).collect()),
        serde_json::Value::Object(fields) => Json::Object(
            fields.into_iter().map(|(k, v)| (k, tree_of(v))).collect(),
        ),
    }
}

/// The document that a body of an answer holds.
pub open spec fn document(text: Seq<char>) -> Result<Json, ApiError> {
    match json_of(text) {
        Some(doc) => Ok(doc),
        None => Err(ApiError::Parse),
    }
}

/// Reads the body of an answer as a JSON document.
pub fn parse_document(text: &str) -> (r: Result<Json, ApiError>)
    ensures
        r == document(text@),
{
    match read_json(text) {
        Some(doc) => Ok(doc),
        None => Err(ApiError::Parse),
    }
}

/// The fields of the one record that a detail answer holds: the service
/// wraps it in an array, of which the first element counts.
pub open spec fn singleton_record(doc: Json) -> Result<Seq<(String, Json)>, ApiError> {
    match doc {
        Json::Array(items) => {
            if items@.len() > 0 {
                match items@[0] {
                    Json::Object(fields) => Ok(fields@),
                    _ => Err(ApiError::Shape),
                }
            } else {
                Err(ApiError::Shape)
            }
        },
        _ => Err(ApiError::Shape),
    }
}

/// Takes the record out of a detail answer's array.
pub fn unwrap_singleton(doc: &Json) -> (r: Result<&Vec<(String, Json)>, ApiError>)
    ensures
        match r {
            Ok(fields) => singleton_record(*doc) == Ok::<Seq<(String, Json)>, ApiError>(fields@),
            Err(e) => singleton_record(*doc) == Err::<Seq<(String, Json)>, ApiError>(e),
        },
{
    match doc {
        Json::Array(items) => {
            if items.len() > 0 {
                match &items[0] {
                    Json::Object(fields) => Ok(fields),
                    _ => Err(ApiError::Shape),
                }
            } else {
                Err(ApiError::Shape)
            }
        },
        _ => Err(ApiError::Shape),
    }
}

/// The value of the field named `key`; where the name occurs twice, the
/// later field counts, as it does when serde_json reads an object.
pub open spec fn field_of(fields: Seq<(String, Json)>, key: Seq<char>) -> Option<Json>
    decreases fields.len(),
{
    if fields.len() == 0 {
        None
    } else if fields.last().0@ == key {
        Some(fields.last().1)
    } else {
        field_of(fields.drop_last(), key)
    }
}

/// Finds the value of the field named `key`.
pub fn find_field<'a>(fields: &'a Vec<(String, Json)>, key: &str) -> (r: Option<&'a Json>)
    ensures
        match r {
            Some(v) => field_of(fields@, key@) == Some(*v),
            None => field_of(fields@, key@) is None,
        },
{
    let mut i = fields.len();
    assert(fields@.subrange(0, i as int) =~= fields@);
    while i > 0
        invariant
            i <= fields@.len(),
            field_of(fields@, key@) == field_of(fields@.subrange(0, i as int), key@),
        decreases i,
    {
        assert(fields@.subrange(0, i as int).drop_last() =~= fields@.subrange(0, i - 1));
        if str_eq(fields[i - 1].0.as_str(), key) {
            return Some(&fields[i - 1].1);
        }
        i = i - 1;
    }
    None
}

} // verus!
