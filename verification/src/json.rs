//! The crate's JSON value model.
//!
//! JSON payloads (test inputs, expected outputs, configurations) are held as
//! plain values: a number written as an integer in 64-bit range is held
//! exactly, and any other number as the decimal rendering the parser
//! reports. Nothing in this model uses machine floating point; see
//! [`crate::validation`] for how numbers are compared.

use vstd::prelude::*;

verus! {

broadcast use vstd::std_specs::vec::group_vec_axioms;

/// A JSON number, as plain values.
///
/// A number written as an integer within the signed or unsigned 64-bit
/// range is held exactly; any other number (a fraction, an exponent, a
/// larger value) is held as the decimal rendering the parser reports for it
/// (a shortest-round-trip rendering, so two equal numbers render alike).
#[derive(Debug, Clone, PartialEq, Eq)]
pub enum JsonNum {
    /// An integer in the signed 64-bit range.
    Int(i64),
    /// An integer above the signed 64-bit range.
    Big(u64),
    /// The decimal rendering of a number that is not such an integer.
    Txt(String),
}

/// The mathematical value of a [`JsonNum`].
#[verifier::ext_equal]
pub enum NumView {
    /// An integer.
    Int(int),
    /// The decimal rendering of a non-integer number.
    Txt(Seq<char>),
}

impl View for JsonNum {
    type V = NumView;

    open spec fn view(&self) -> NumView {
        match self {
            JsonNum::Int(n) => NumView::Int(*n as int),
            JsonNum::Big(n) => NumView::Int(*n as int),
            JsonNum::Txt(t) => NumView::Txt(t@),
        }
    }
}

/// A JSON value.
#[derive(Debug, PartialEq, Eq)]
pub enum Json {
    /// The null value.
    Null,
    /// A boolean.
    Bool(bool),
    /// A number.
    Num(JsonNum),
    /// A string.
    Str(String),
    /// An array.
    Arr(Vec<Json>),
    /// An object: key-value pairs in order. Values handed out by the parser
    /// carry each key once, in the parser's (sorted) order.
    Obj(Vec<(String, Json)>),
}

/// The mathematical value of a [`Json`] tree.
#[verifier::ext_equal]
pub enum JsonView {
    /// The null value.
    Null,
    /// A boolean.
    Bool(bool),
    /// A number.
    Num(NumView),
    /// A string.
    Str(Seq<char>),
    /// An array.
    Arr(Seq<JsonView>),
    /// An object.
    Obj(Seq<(Seq<char>, JsonView)>),
}

/// The mathematical value of a [`Json`] tree.
pub open spec fn json_view(j: Json) -> JsonView
    decreases j,
    via json_view_via
{
    match j {
        Json::Null => JsonView::Null,
        Json::Bool(b) => JsonView::Bool(b),
        Json::Num(n) => JsonView::Num(n@),
        Json::Str(s) => JsonView::Str(s@),
        Json::Arr(a) => JsonView::Arr(
            Seq::new(
                a@.len(),
                |i: int|
                    if 0 <= i < a@.len() {
                        json_view(a@[i])
                    } else {
                        JsonView::Null
                    },
            ),
        ),
        Json::Obj(o) => JsonView::Obj(
            Seq::new(
                o@.len(),
                |i: int|
                    (
                        o@[i].0@,
                        if 0 <= i < o@.len() {
                            json_view(o@[i].1)
                        } else {
                            JsonView::Null
                        },
                    ),
            ),
        ),
    }
}

#[via_fn]
proof fn json_view_via(j: Json) {
    match j {
        Json::Arr(a) => {
            assert forall|i: int| 0 <= i < a@.len() implies decreases_to!(j => a@[i]) by {
                assert(decreases_to!(j => a));
                assert(decreases_to!(a => a@));
                assert(decreases_to!(a@ => a@[i]));
            }
        },
        Json::Obj(o) => {
            assert forall|i: int| 0 <= i < o@.len() implies decreases_to!(j => o@[i].1) by {
                assert(decreases_to!(j => o));
                assert(decreases_to!(o => o@));
                assert(decreases_to!(o@ => o@[i]));
                assert(decreases_to!(o@[i] => o@[i].1));
            }
        },
        _ => {},
    }
}

impl View for Json {
    type V = JsonView;

    open spec fn view(&self) -> JsonView {
        json_view(*self)
    }
}

/// Whether the bytes are a well-formed JSON document in the eyes of the
/// parser this crate relies on.
pub uninterp spec fn json_source_ok(b: Seq<u8>) -> bool;

/// The value that a well-formed JSON document denotes. Parsing depends on
/// the bytes alone, so the same bytes always denote the same value.
pub uninterp spec fn json_value_of(b: Seq<u8>) -> JsonView;

/// The serde_json document type, handled opaquely during conversion.
#[verifier::external_type_specification]
#[verifier::external_body]
pub struct ExValue(serde_json::Value);

/// The serde_json number type, handled opaquely during conversion.
#[verifier::external_type_specification]
#[verifier::external_body]
pub struct ExNumber(serde_json::Number);

/// Relies on serde_json::Number's accessors: the number-conversion piece of
/// [`parse_json`]. An integer-valued number in 64-bit range converts
/// exactly; any other number becomes the parser's decimal rendering.
#[verifier::external_body]
fn num_of_number(n: &serde_json::Number) -> JsonNum {
    match (n.as_i64(), n.as_u64()) {
        (Some(i), _) => JsonNum::Int(i),
        (None, Some(u)) => JsonNum::Big(u),
        (None, None) => JsonNum::Txt(n.to_string()),
    }
}

/// Relies on serde_json::Value's six variants: the conversion half of
/// [`parse_json`], turning a parsed document into this crate's model,
/// variant for variant.
#[verifier::external_body]
fn json_of_value(v: &serde_json::Value) -> Json {
    match v {
        serde_json::Value::Null => Json::Null,
        serde_json::Value::Bool(b) => Json::Bool(*b),
        serde_json::Value::Number(n) => Json::Num(num_of_number(n)),
        serde_json::Value::String(s) => Json::Str(s.clone()),
        serde_json::Value::Array(a) => Json::Arr(a.iter().map(json_of_value).collect()),
        serde_json::Value::Object(o) => Json::Obj(
            o.iter().map(|(k, x)| (k.clone(), json_of_value(x))).collect(),
        ),
    }
}

/// Parses JSON text into the crate's model.
///
/// Relies on serde_json::from_slice: parsing succeeds exactly on a
/// well-formed JSON document and depends on the bytes alone; the error
/// carries the parser's description. The parsed document is converted by
/// [`json_of_value`].
#[verifier::external_body]
pub fn parse_json(b: &Vec<u8>) -> (r: Result<Json, String>)
    ensures
        r is Ok == json_source_ok(b@),
        r matches Ok(j) ==> j@ == json_value_of(b@),
{
    match serde_json::from_slice::<serde_json::Value>(b.as_slice()) {
        Ok(v) => Ok(json_of_value(&v)),
        Err(e) => Err(e.to_string()),
    }
}

} // verus!
