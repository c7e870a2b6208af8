//! JSON documents, as `serde_json` reads them.
//!
//! A document is held as a `serde_json::Value`, which the library cannot
//! look into. What a value holds is told by the functions of this module;
//! each stands for one function of `serde_json` and is taken on trust.
use vstd::prelude::*;

verus! {

/// `serde_json::Value`: a JSON value. The library carries it and learns
/// what it holds from the functions below.
#[verifier::external_type_specification]
#[verifier::external_body]
pub struct ExJsonValue(serde_json::Value);

/// The document that a text writes, if it writes one.
pub uninterp spec fn json_parsed(text: Seq<char>) -> Option<serde_json::Value>;

/// The characters of a value that is a string.
pub uninterp spec fn json_string(v: serde_json::Value) -> Option<Seq<char>>;

/// The elements of a value that is an array, in order.
pub uninterp spec fn json_items(v: serde_json::Value) -> Option<Seq<serde_json::Value>>;

/// The members of a value that is an object, in the order in which its
/// map gives them.
pub uninterp spec fn json_members(v: serde_json::Value) -> Option<Seq<(Seq<char>, serde_json::Value)>>;

/// The value written as JSON text.
pub uninterp spec fn json_text(v: serde_json::Value) -> Seq<char>;

/// The references of a vector, as the values they refer to.
pub open spec fn item_views(items: Seq<&serde_json::Value>) -> Seq<serde_json::Value> {
    Seq::new(items.len(), |i: int| *items[i])
}

/// Names and references, as names and the values referred to.
pub open spec fn member_views(members: Seq<(String, &serde_json::Value)>) -> Seq<
    (Seq<char>, serde_json::Value),
> {
    Seq::new(members.len(), |i: int| (members[i].0@, *members[i].1))
}

/// `serde_json::from_str`, for a `Value`: the document that the text
/// writes, or nothing where the text is no JSON document. The outcome
/// depends on the text alone.
#[verifier::external_body]
pub(crate) fn parse(text: &str) -> (r: Option<serde_json::Value>)
    ensures
        r == json_parsed(text@),
{
    serde_json::from_str(text).ok()
}

/// `Value::as_str`: the string that the value is, or nothing where it is
/// no string.
#[verifier::external_body]
pub(crate) fn string_of(v: &serde_json::Value) -> (r: Option<String>)
    ensures
        match r {
            Some(s) => json_string(*v) == Some(s@),
            None => json_string(*v) is None,
        },
{
    v.as_str().map(|s| s.to_string())
}

/// `Value::as_array`: the elements of the array that the value is, in
/// order, or nothing where it is no array.
#[verifier::external_body]
pub(crate) fn items_of<'a>(v: &'a serde_json::Value) -> (r: Option<Vec<&'a serde_json::Value>>)
    ensures
        match r {
            Some(items) => json_items(*v) == Some(item_views(items@)),
            None => json_items(*v) is None,
        },
{
    v.as_array().map(|a| a.iter().collect())
}

/// `Value::as_object`: the members of the object that the value is, as its
/// map hands them out, or nothing where it is no object.
#[verifier::external_body]
pub(crate) fn members_of<'a>(v: &'a serde_json::Value) -> (r: Option<
    Vec<(String, &'a serde_json::Value)>,
>)
    ensures
        match r {
            Some(members) => json_members(*v) == Some(member_views(members@)),
            None => json_members(*v) is None,
        },
{
    v.as_object().map(|m| m.iter().map(|(k, x)| (k.clone(), x)).collect())
}

/// `Value::to_string`: the value written as JSON text.
#[verifier::external_body]
pub(crate) fn text_of_value(v: &serde_json::Value) -> (r: String)
    ensures
        r@ == json_text(*v),
{
    v.to_string()
}

} // verus!
