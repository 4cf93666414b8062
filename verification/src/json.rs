//! Structured values: their shape, and the calls into serde_json that make
//! and take apart the values themselves.

use vstd::prelude::*;

verus! {

/// `serde_json::Value`, carried as it is: a structured value.
#[verifier::external_type_specification]
#[verifier::external_body]
pub struct ExValue(serde_json::Value);

/// The shape of a structured value: what a `serde_json::Value` holds, as
/// plain data. A number stands as the text that serde_json prints for it.
pub enum Json {
    Null,
    Bool(bool),
    Number(Seq<char>),
    String(Seq<char>),
    Array(Seq<Json>),
    Object(Map<Seq<char>, Json>),
}

/// The shape of `value`.
pub uninterp spec fn json_model(value: serde_json::Value) -> Json;

/// The shape of the value that `text` is JSON for; `None` where `text` is not
/// JSON for any one value.
pub uninterp spec fn json_parse(text: Seq<char>) -> Option<Json>;

/// The object that a list of members stands for: each member in turn is set
/// under its key, so a later member replaces an earlier one of the same key.
pub open spec fn members_map(members: Seq<(String, serde_json::Value)>) -> Map<Seq<char>, Json>
    decreases members.len(),
{
    if members.len() == 0 {
        Map::empty()
    } else {
        members_map(members.drop_last()).insert(
            members.last().0@,
            json_model(members.last().1),
        )
    }
}

/// `serde_json::from_str`, read as one `Value`. It accepts `text` exactly when
/// `text` is JSON for a value, and the value it gives has that shape.
#[verifier::external_body]
pub(crate) fn parse_json(text: &str) -> (parsed: Result<serde_json::Value, serde_json::Error>)
    ensures
        parsed is Ok <==> json_parse(text@) is Some,
        parsed matches Ok(value) ==> json_parse(text@) == Some(json_model(value)),
{
    serde_json::from_str(text)
}

/// `serde_json::Value::String`: the string value that holds `text`.
#[verifier::external_body]
pub(crate) fn string_value(text: String) -> (value: serde_json::Value)
    ensures
        json_model(value) == Json::String(text@),
{
    serde_json::Value::String(text)
}

/// The members of `value` where it is a `serde_json::Value::Object`, as its
/// map hands them out: each key once, with the value that the object holds
/// under it. `None` for a value of any other kind.
#[verifier::external_body]
pub(crate) fn into_members(value: serde_json::Value) -> (members: Option<
    Vec<(String, serde_json::Value)>,
>)
    ensures
        members is Some <==> json_model(value) is Object,
        members matches Some(list) ==> json_model(value) == Json::Object(members_map(list@)),
{
    match value {
        serde_json::Value::Object(map) => Some(map.into_iter().collect()),
        _ => None,
    }
}

} // verus!
