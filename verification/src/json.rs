//! The JSON value type that login parameters and temporary tokens carry.
use vstd::prelude::*;

verus! {

/// `serde_json::Value`, carried through the library without being read.
#[verifier::external_type_specification]
#[verifier::external_body]
pub struct ExJsonValue(serde_json::Value);

/// A copy of a JSON value (`<serde_json::Value as Clone>::clone`): the
/// copy equals the value, the type's `Clone` copying each part.
#[verifier::external_body]
pub(crate) fn clone_json(v: &serde_json::Value) -> (r: serde_json::Value)
    ensures
        r == *v,
{
    v.clone()
}

/// What a JSON value reads as when turned into text: a string's own text,
/// `null`, or the JSON text of any other value.
pub enum JsonText {
    /// A JSON string, with its text.
    Text(String),
    /// JSON `null`.
    Null,
    /// Any other value, as JSON text.
    Other(String),
}

/// What a JSON value reads as, in the library's model.
pub enum JsonTextModel {
    Text(Seq<char>),
    Null,
    Other(Seq<char>),
}

impl View for JsonText {
    type V = JsonTextModel;

    open spec fn view(&self) -> JsonTextModel {
        match self {
            JsonText::Text(s) => JsonTextModel::Text(s@),
            JsonText::Null => JsonTextModel::Null,
            JsonText::Other(s) => JsonTextModel::Other(s@),
        }
    }
}

impl JsonText {
    /// A copy of the reading.
    pub fn copy(&self) -> (r: JsonText)
        ensures
            r == *self,
    {
        match self {
            JsonText::Text(s) => JsonText::Text(s.clone()),
            JsonText::Null => JsonText::Null,
            JsonText::Other(s) => JsonText::Other(s.clone()),
        }
    }
}

/// A JSON value kept together with what it reads as: the reading is taken
/// once, when the value enters the library (see [`JsonValue::new`]), and the
/// rules read that reading.
pub struct JsonValue {
    json: serde_json::Value,
    text: JsonText,
}

impl JsonValue {
    /// The JSON value.
    pub closed spec fn json_view(&self) -> serde_json::Value {
        self.json
    }

    /// What the value reads as.
    pub closed spec fn text_view(&self) -> JsonTextModel {
        self.text@
    }

    /// A JSON value with its reading (see [`json_text`]).
    pub fn new(json: serde_json::Value) -> (r: JsonValue)
        ensures
            r.json_view() == json,
    {
        let text = json_text(&json);
        JsonValue { json, text }
    }

    /// A JSON string holding this text, which reads as the text.
    pub fn string(s: String) -> (r: JsonValue)
        ensures
            r.text_view() == JsonTextModel::Text(s@),
    {
        let text = JsonText::Text(s.clone());
        JsonValue { json: json_string(s), text }
    }

    /// The JSON value.
    pub fn json(&self) -> (r: &serde_json::Value)
        ensures
            *r == self.json_view(),
    {
        &self.json
    }

    /// The JSON value, taken out.
    pub fn into_json(self) -> (r: serde_json::Value)
        ensures
            r == self.json_view(),
    {
        self.json
    }

    /// What the value reads as.
    pub fn text(&self) -> (r: &JsonText)
        ensures
            r@ == self.text_view(),
    {
        &self.text
    }

    /// A copy of the value and its reading.
    pub fn copy(&self) -> (r: JsonValue)
        ensures
            r == *self,
    {
        JsonValue { json: clone_json(&self.json), text: self.text.copy() }
    }
}

/// Which kind of JSON value this is, with its text (a string's own text,
/// `serde_json::Value::to_string` for the others); nothing is stated about
/// the text, which the library does not model.
#[verifier::external_body]
pub(crate) fn json_text(v: &serde_json::Value) -> (r: JsonText) {
    match v {
        serde_json::Value::String(s) => JsonText::Text(s.clone()),
        serde_json::Value::Null => JsonText::Null,
        other => JsonText::Other(other.to_string()),
    }
}

/// A JSON string holding this text (`serde_json::Value::String`); nothing
/// is stated about the value, which the library only hands on.
#[verifier::external_body]
pub(crate) fn json_string(s: String) -> serde_json::Value {
    serde_json::Value::String(s)
}

/// JSON `null` (`serde_json::Value::Null`); nothing is stated about the
/// value, which the library only hands on.
#[verifier::external_body]
pub(crate) fn json_null() -> serde_json::Value {
    serde_json::Value::Null
}

} // verus!
