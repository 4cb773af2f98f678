//! The trusted boundary between JSON text and the `Json` value model.
//!
//! Parsing and serialization are done by serde_json, built with its
//! `preserve_order` and `arbitrary_precision` features, so that object order
//! and number tokens survive a read-modify-write cycle exactly.  Everything
//! in this module is trusted; everything above it is verified against the
//! contracts stated here.

use vstd::prelude::*;

use crate::json::{wf_doc, Json, JsonV};

verus! {

#[verifier::external_type_specification]
#[verifier::external_body]
pub struct ExValue(serde_json::Value);

/// What parsing a text yields: `None` on malformed input, otherwise the
/// document's value.  Parsing is a function of the text alone.
pub uninterp spec fn json_parse(s: Seq<char>) -> Option<JsonV>;

/// The text that the serializer produces for a value.  Serialization is a
/// function of the value alone.
pub uninterp spec fn json_text_of(v: JsonV) -> Seq<char>;

/// Relies on `serde_json::from_str::<serde_json::Value>`: it accepts exactly
/// the well-formed JSON texts, nests at most 127 containers deep, keeps the
/// first position and last value of a repeated object key, and (with
/// `arbitrary_precision`) scans a number token into its normal form, which
/// `num_token` describes.
#[verifier::external_body]
pub(crate) fn parse_json(s: &str) -> (r: Option<Json>)
    ensures
        r is Some <==> json_parse(s@) is Some,
        r matches Some(j) ==> json_parse(s@) == Some(j.deep_view()) && wf_doc(j.deep_view()),
{
    match serde_json::from_str::<serde_json::Value>(s) {
        Ok(v) => Some(value_to_json(v)),
        Err(_) => None,
    }
}

/// The conversion half of `parse_json`: maps a `serde_json::Value` onto the
/// crate's own tree, one variant to one variant, keeping object order and
/// the raw number token text.
#[verifier::external_body]
fn value_to_json(v: serde_json::Value) -> Json {
    match v {
        serde_json::Value::Null => Json::Null,
        serde_json::Value::Bool(b) => Json::Bool(b),
        serde_json::Value::Number(n) => Json::Num(n.to_string()),
        serde_json::Value::String(s) => Json::Str(s),
        serde_json::Value::Array(a) => Json::Arr(a.into_iter().map(value_to_json).collect()),
        serde_json::Value::Object(o) => {
            Json::Obj(o.into_iter().map(|(k, x)| (k, value_to_json(x))).collect())
        },
    }
}

/// The conversion half of `json_to_text`: maps the crate's tree onto a
/// `serde_json::Value`, one variant to one variant.  A number token is
/// rebuilt through `serde_json::Number::from_str`, which keeps a well-formed
/// token verbatim; hence the well-formedness requirement.
#[verifier::external_body]
fn json_to_value(j: &Json) -> serde_json::Value
    requires
        wf_doc(j.deep_view()),
{
    match j {
        Json::Null => serde_json::Value::Null,
        Json::Bool(b) => serde_json::Value::Bool(*b),
        Json::Num(s) => serde_json::Value::Number(s.as_str().parse().unwrap()),
        Json::Str(s) => serde_json::Value::String(s.clone()),
        Json::Arr(a) => serde_json::Value::Array(a.iter().map(json_to_value).collect()),
        Json::Obj(o) => {
            serde_json::Value::Object(o.iter().map(|(k, x)| (k.clone(), json_to_value(x))).collect())
        },
    }
}

/// Relies on `serde_json::to_string`: on a tree whose number tokens are
/// well-formed it cannot fail, its output is compact JSON in document order
/// with number tokens emitted verbatim, and parsing that output (within the
/// depth budget, with distinct keys) restores the same value.
#[verifier::external_body]
pub(crate) fn json_to_text(j: &Json) -> (r: String)
    requires
        wf_doc(j.deep_view()),
    ensures
        r@ == json_text_of(j.deep_view()),
        json_parse(r@) == Some(j.deep_view()),
{
    serde_json::to_string(&json_to_value(j)).unwrap()
}

} // verus!
