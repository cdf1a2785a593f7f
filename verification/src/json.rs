//! JSON as the feeds send it. The text is read by serde_json; what it
//! holds is modelled here, and the adapters read it through the few
//! accessors below.

use vstd::prelude::*;

verus! {

/// What a JSON value holds. A number stands as the text that serde_json
/// writes for it.
pub enum JsonView {
    Null,
    Bool(bool),
    Number(Seq<char>),
    Text(Seq<char>),
    Array(Seq<JsonView>),
    Object(Map<Seq<char>, JsonView>),
}

/// `serde_json::Value`, declared so that it can stand in signatures. What
/// a value holds is known through `json_view` alone.
#[verifier::external_type_specification]
#[verifier::external_body]
pub struct ExValue(serde_json::Value);

/// What a value of serde_json holds.
pub uninterp spec fn json_view(value: serde_json::Value) -> JsonView;

/// What serde_json reads from a text; `None` where it reports an error.
pub uninterp spec fn json_document(text: Seq<char>) -> Option<JsonView>;

/// The JSON string literal that serde_json writes for a text: the text in
/// quotes, with what must be escaped escaped.
pub uninterp spec fn json_quoted(text: Seq<char>) -> Seq<char>;

/// What the values of a vector hold, one by one.
pub open spec fn views_of(items: Seq<serde_json::Value>) -> Seq<JsonView> {
    Seq::new(items.len(), |i: int| json_view(items[i]))
}

/// `serde_json::from_str` at the type `Value`: the value read, or `None`
/// where serde_json returns an error. Which texts it accepts is left to it.
#[verifier::external_body]
pub(crate) fn parse_json(text: &str) -> (r: Option<serde_json::Value>)
    ensures
        match r {
            Some(value) => json_document(text@) == Some(json_view(value)),
            None => json_document(text@) is None,
        },
{
    match serde_json::from_str::<serde_json::Value>(text) {
        Ok(value) => Some(value),
        Err(_) => None,
    }
}

/// `Value::get` with a text as index, asked only whether it finds
/// something: it does when the value is an object that has the key.
#[verifier::external_body]
pub(crate) fn json_has_key(value: &serde_json::Value, key: &str) -> (b: bool)
    ensures
        b == (json_view(*value) matches JsonView::Object(fields) && fields.contains_key(key@)),
{
    value.get(key).is_some()
}

/// `Value::as_array`: the elements if the value is an array.
#[verifier::external_body]
pub(crate) fn json_items(value: &serde_json::Value) -> (r: Option<&Vec<serde_json::Value>>)
    ensures
        match r {
            Some(items) => json_view(*value) == JsonView::Array(views_of(items@)),
            None => !(json_view(*value) is Array),
        },
{
    value.as_array()
}

/// `Value::as_str`: the text if the value is a string.
#[verifier::external_body]
pub(crate) fn json_str(value: &serde_json::Value) -> (r: Option<&str>)
    ensures
        match r {
            Some(text) => json_view(*value) == JsonView::Text(text@),
            None => !(json_view(*value) is Text),
        },
{
    value.as_str()
}

/// `Value::as_number`, and the text that `Number` writes for itself, if
/// the value is a number.
#[verifier::external_body]
pub(crate) fn json_number_text(value: &serde_json::Value) -> (r: Option<String>)
    ensures
        match r {
            Some(text) => json_view(*value) == JsonView::Number(text@),
            None => !(json_view(*value) is Number),
        },
{
    match value.as_number() {
        Some(number) => Some(number.to_string()),
        None => None,
    }
}

/// The text that serde_json writes for the string value that holds `text`.
#[verifier::external_body]
pub(crate) fn json_quote(text: &str) -> (r: String)
    ensures
        r@ == json_quoted(text@),
{
    serde_json::Value::from(text).to_string()
}

} // verus!
