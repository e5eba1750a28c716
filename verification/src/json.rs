//! JSON text, read and written by `serde_json`.
use crate::value::{ConfigNumber, ConfigValue, JsonView};
use vstd::prelude::*;

verus! {

/// `serde_json::Value`: a JSON document as `serde_json` holds it. Nothing
/// is known of what is inside.
#[verifier::external_type_specification]
#[verifier::external_body]
pub struct ExJsonTree(serde_json::Value);

/// `serde_json::Number`: a JSON number as `serde_json` holds it. Nothing is
/// known of what is inside.
#[verifier::external_type_specification]
#[verifier::external_body]
pub struct ExJsonNumber(serde_json::Number);

/// The compact JSON text that `serde_json::to_string` writes for a value;
/// `None` where it reports an error.
pub uninterp spec fn compact_text(value: JsonView) -> Option<Seq<char>>;

/// The indented JSON text that `serde_json::to_string_pretty` writes for a
/// value; `None` where it reports an error.
pub uninterp spec fn pretty_text(value: JsonView) -> Option<Seq<char>>;

/// The value that `serde_json::from_str` reads from a text; `None` where
/// the text is not one JSON document.
pub uninterp spec fn parsed_json(text: Seq<char>) -> Option<JsonView>;

/// Builds the `serde_json` number for a number: an integer by
/// `serde_json::Value::from`, a decimal text by `Number`'s `FromStr`, which
/// gives null where the text is no number.
#[verifier::external_body]
fn number_to_serde(n: &ConfigNumber) -> serde_json::Value {
    match n {
        ConfigNumber::PosInt(u) => serde_json::Value::from(*u),
        ConfigNumber::NegInt(i) => serde_json::Value::from(*i),
        ConfigNumber::Float(t) => t.parse::<serde_json::Number>().map_or(
            serde_json::Value::Null,
            serde_json::Value::Number,
        ),
    }
}

/// Builds the `serde_json::Value` for a value, variant by variant; a map's
/// entries go into `serde_json::Map` in their order.
#[verifier::external_body]
fn to_serde(v: &ConfigValue) -> serde_json::Value {
    match v {
        ConfigValue::Null => serde_json::Value::Null,
        ConfigValue::Bool(b) => serde_json::Value::Bool(*b),
        ConfigValue::Number(n) => number_to_serde(n),
        ConfigValue::String(s) => serde_json::Value::String(s.clone()),
        ConfigValue::Array(a) => serde_json::Value::Array(a.iter().map(to_serde).collect()),
        ConfigValue::Object(f) => serde_json::Value::Object(
            f.iter().map(|e| (e.0.clone(), to_serde(&e.1))).collect(),
        ),
    }
}

/// Reads a `serde_json::Number`: by `as_u64` a non-negative integer, else by
/// `as_i64` a negative one, else its `Display` text.
#[verifier::external_body]
fn number_from_serde(n: &serde_json::Number) -> ConfigNumber {
    match (n.as_u64(), n.as_i64()) {
        (Some(u), _) => ConfigNumber::PosInt(u),
        (None, Some(i)) => ConfigNumber::NegInt(i),
        (None, None) => ConfigNumber::Float(n.to_string()),
    }
}

/// Reads a `serde_json::Value`, variant by variant; a map's entries come in
/// the order of `serde_json::Map`.
#[verifier::external_body]
fn from_serde(v: serde_json::Value) -> ConfigValue {
    match v {
        serde_json::Value::Null => ConfigValue::Null,
        serde_json::Value::Bool(b) => ConfigValue::Bool(b),
        serde_json::Value::Number(n) => ConfigValue::Number(number_from_serde(&n)),
        serde_json::Value::String(s) => ConfigValue::String(s),
        serde_json::Value::Array(a) => ConfigValue::Array(a.into_iter().map(from_serde).collect()),
        serde_json::Value::Object(m) => ConfigValue::Object(
            m.into_iter().map(|(k, x)| (k, from_serde(x))).collect(),
        ),
    }
}

/// `serde_json::to_string` on a value: its compact JSON text, or `None`
/// where `serde_json` reports an error.
#[verifier::external_body]
pub(crate) fn json_compact(v: &ConfigValue) -> (r: Option<String>)
    ensures
        r matches Some(t) ==> compact_text(v@) == Some(t@),
        r is None ==> compact_text(v@) is None,
{
    serde_json::to_string(&to_serde(v)).ok()
}

/// `serde_json::to_string_pretty` on a value: its indented JSON text, or
/// the message of the error that `serde_json` reports.
#[verifier::external_body]
pub(crate) fn json_pretty(v: &ConfigValue) -> (r: Result<String, String>)
    ensures
        r matches Ok(t) ==> pretty_text(v@) == Some(t@),
        r is Err ==> pretty_text(v@) is None,
{
    serde_json::to_string_pretty(&to_serde(v)).map_err(|e| e.to_string())
}

/// `serde_json::from_str` for a `serde_json::Value`: the value that the
/// text holds, or the message of the error where the text is not one JSON
/// document.
#[verifier::external_body]
pub(crate) fn json_parse(text: &str) -> (r: Result<ConfigValue, String>)
    ensures
        r matches Ok(v) ==> parsed_json(text@) == Some(v@),
        r is Err ==> parsed_json(text@) is None,
{
    serde_json::from_str::<serde_json::Value>(text).map(from_serde).map_err(|e| e.to_string())
}

} // verus!
