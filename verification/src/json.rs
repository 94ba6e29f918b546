//! JSON values as plain data.

use vstd::prelude::*;

verus! {

/// A JSON number, kept the way it was written: integers exactly, anything
/// else as the bits of a double precision number.
#[derive(Clone, Copy, Debug, PartialEq, Eq, Structural)]
pub enum JsonNumber {
    /// An integer of zero or more.
    PosInt(u64),
    /// An integer below zero.
    NegInt(i64),
    /// A number with a fraction or an exponent, as IEEE 754 binary64 bits.
    Float(u64),
}

/// A JSON value. The members of an object keep the order they are given in.
#[derive(Debug, PartialEq)]
pub enum JsonValue {
    Null,
    Bool(bool),
    Number(JsonNumber),
    String(String),
    Array(Vec<JsonValue>),
    Object(Vec<(String, JsonValue)>),
}

/// The mathematical model of a JSON value.
pub ghost enum JsonModel {
    Null,
    Bool(bool),
    Number(JsonNumber),
    String(Seq<char>),
    Array(Seq<JsonModel>),
    Object(Seq<(Seq<char>, JsonModel)>),
}

impl View for JsonValue {
    type V = JsonModel;

    open spec fn view(&self) -> JsonModel
        decreases self,
    {
        match self {
            JsonValue::Null => JsonModel::Null,
            JsonValue::Bool(b) => JsonModel::Bool(*b),
            JsonValue::Number(n) => JsonModel::Number(*n),
            JsonValue::String(s) => JsonModel::String(s@),
            JsonValue::Array(items) => JsonModel::Array(
                Seq::new(
                    items@.len(),
                    |i: int|
                        if 0 <= i < items@.len() {
                            items@[i].view()
                        } else {
                            JsonModel::Null
                        },
                ),
            ),
            JsonValue::Object(members) => JsonModel::Object(
                Seq::new(
                    members@.len(),
                    |i: int|
                        if 0 <= i < members@.len() {
                            (members@[i].0@, members@[i].1.view())
                        } else {
                            (Seq::empty(), JsonModel::Null)
                        },
                ),
            ),
        }
    }
}

/// The model of a value that may be absent.
pub open spec fn model_of(value: Option<JsonValue>) -> Option<JsonModel> {
    match value {
        Some(v) => Some(v@),
        None => None,
    }
}

/// What `serde_json::from_slice` makes of `bytes` when asked for a
/// `serde_json::Value`: the value the bytes spell as one JSON text, or
/// nothing where they are not one.
pub uninterp spec fn json_parse(bytes: Seq<u8>) -> Option<JsonModel>;

/// The error of `serde_json::from_slice`, carried as it is.
#[verifier::external_type_specification]
#[verifier::external_body]
pub struct ExJsonError(serde_json::Error);

/// A JSON value as `serde_json` holds it.
#[verifier::external_type_specification]
#[verifier::external_body]
pub struct ExOutsideValue(serde_json::Value);

/// A JSON number as `serde_json` holds it.
#[verifier::external_type_specification]
#[verifier::external_body]
pub struct ExOutsideNumber(serde_json::Number);

/// Carries a `serde_json::Number` over: `as_u64` decides for a
/// non-negative integer, `as_i64` for a negative one, and what is left
/// is a double, taken with `as_f64` and kept as its bits.
#[verifier::external_body]
fn number_from_outside(number: &serde_json::Number) -> JsonNumber {
    match (number.as_u64(), number.as_i64()) {
        (Some(n), _) => JsonNumber::PosInt(n),
        (None, Some(n)) => JsonNumber::NegInt(n),
        (None, None) => JsonNumber::Float(number.as_f64().unwrap_or_default().to_bits()),
    }
}

/// Carries a `serde_json::Value` over, variant by variant. The members of
/// an object come in the order in which `serde_json::Map` hands them out.
#[verifier::external_body]
fn value_from_outside(value: serde_json::Value) -> JsonValue {
    match value {
        serde_json::Value::Null => JsonValue::Null,
        serde_json::Value::Bool(b) => JsonValue::Bool(b),
        serde_json::Value::Number(n) => JsonValue::Number(number_from_outside(&n)),
        serde_json::Value::String(s) => JsonValue::String(s),
        serde_json::Value::Array(items) => JsonValue::Array(
            items.into_iter().map(value_from_outside).collect(),
        ),
        serde_json::Value::Object(members) => JsonValue::Object(
            members.into_iter().map(|(k, v)| (k, value_from_outside(v))).collect(),
        ),
    }
}

/// Calls `serde_json::from_slice` for a `serde_json::Value`. The contract
/// claims only that the outcome is a function of the bytes: it succeeds
/// exactly where `json_parse` has a value, and the value is that one.
#[verifier::external_body]
fn parse_json(bytes: &[u8]) -> (parsed: Result<JsonValue, serde_json::Error>)
    ensures
        parsed is Ok <==> json_parse(bytes@) is Some,
        parsed matches Ok(value) ==> json_parse(bytes@) == Some(value@),
{
    serde_json::from_slice::<serde_json::Value>(bytes).map(value_from_outside)
}

/// Reads `bytes` as one JSON text. Gives nothing where they are not
/// valid JSON.
pub fn read_json(bytes: &[u8]) -> (value: Option<JsonValue>)
    ensures
        model_of(value) == json_parse(bytes@),
{
    match parse_json(bytes) {
        Ok(value) => Some(value),
        Err(_) => None,
    }
}

impl JsonValue {
    /// The text of a string value; nothing for every other kind of value.
    pub fn as_text(&self) -> (text: Option<&String>)
        ensures
            match text {
                Some(s) => self@ == JsonModel::String(s@) && *self == JsonValue::String(*s),
                None => !(self@ is String),
            },
    {
        match self {
            JsonValue::String(s) => Some(s),
            _ => None,
        }
    }
}

impl Clone for JsonValue {
    /// A deep copy with the same model.
    fn clone(&self) -> (copy: JsonValue)
        ensures
            copy@ == self@,
        decreases self,
    {
        match self {
            JsonValue::Null => JsonValue::Null,
            JsonValue::Bool(b) => JsonValue::Bool(*b),
            JsonValue::Number(n) => JsonValue::Number(*n),
            JsonValue::String(s) => JsonValue::String(s.clone()),
            JsonValue::Array(items) => {
                let mut copies: Vec<JsonValue> = Vec::new();
                let mut i: usize = 0;
                while i < items.len()
                    invariant
                        i <= items.len(),
                        copies@.len() == i,
                        forall|k: int| 0 <= k < i ==> (#[trigger] copies@[k])@ == items@[k]@,
                        decreases_to!(self => items),
                    decreases items.len() - i,
                {
                    copies.push(items[i].clone());
                    i += 1;
                }
                let copy = JsonValue::Array(copies);
                proof {
                    reveal_with_fuel(<JsonValue as View>::view, 2);
                }
                assert(copy@->Array_0 =~= self@->Array_0);
                copy
            },
            JsonValue::Object(members) => {
                let mut copies: Vec<(String, JsonValue)> = Vec::new();
                let mut i: usize = 0;
                while i < members.len()
                    invariant
                        i <= members.len(),
                        copies@.len() == i,
                        forall|k: int|
                            0 <= k < i ==> (#[trigger] copies@[k]).0@ == members@[k].0@
                                && copies@[k].1@ == members@[k].1@,
                        decreases_to!(self => members),
                    decreases members.len() - i,
                {
                    copies.push((members[i].0.clone(), members[i].1.clone()));
                    i += 1;
                }
                let copy = JsonValue::Object(copies);
                proof {
                    reveal_with_fuel(<JsonValue as View>::view, 2);
                }
                assert(copy@->Object_0 =~= self@->Object_0);
                copy
            },
        }
    }
}

} // verus!
