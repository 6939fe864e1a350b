//! The dynamic value that parameters and column values are exchanged in.

use crate::error::{Error, ErrorView};
use vstd::prelude::*;
use vstd::string::StringExecFns;

verus! {

/// A double-precision number, held as the 64 bits of its IEEE 754 encoding: one sign bit,
/// eleven exponent bits, fifty-two fraction bits.
#[derive(Clone, Copy, Debug, PartialEq, Eq, Structural)]
pub struct Double {
    pub bits: u64,
}

impl Double {
    /// The eleven exponent bits as a number.
    pub open spec fn exponent_field(self) -> int {
        (self.bits as int / 0x10_0000_0000_0000) % 0x800
    }

    /// Neither an infinity nor a NaN: the exponent bits are not all set.
    pub open spec fn finite(self) -> bool {
        self.exponent_field() != 0x7ff
    }

    /// The number with this encoding.
    pub fn from_bits(bits: u64) -> (r: Double)
        ensures
            r.bits == bits,
    {
        Double { bits }
    }

    /// The encoding of the number.
    pub fn to_bits(&self) -> (r: u64)
        ensures
            r == self.bits,
    {
        self.bits
    }

    /// Whether the number is neither an infinity nor a NaN.
    pub fn is_finite(&self) -> (r: bool)
        ensures
            r == self.finite(),
    {
        (self.bits / 0x10_0000_0000_0000) % 0x800 != 0x7ff
    }
}

/// The JSON value of `serde_json`. An array or an object is carried as such a value, never
/// looked into.
#[verifier::external_type_specification]
#[verifier::external_body]
pub struct ExJsonValue(serde_json::Value);

/// `clone` of a `serde_json::Value`, which the crate derives: the copy is the value again.
#[verifier::external_body]
pub(crate) fn json_copy(value: &serde_json::Value) -> (r: serde_json::Value)
    ensures
        r == *value,
{
    value.clone()
}

/// The value of one parameter or of one column of one row, whatever the backend. A column
/// gives one of the first five; an array or an object occurs as a parameter only.
#[derive(Debug, PartialEq, Eq)]
pub enum DynValue {
    Null,
    Bool(bool),
    Integer(i64),
    Float(Double),
    String(String),
    /// A JSON array, as it arrived.
    Array(serde_json::Value),
    /// A JSON object, as it arrived.
    Object(serde_json::Value),
}

/// A dynamic value with its text as a character sequence.
pub enum DynValueView {
    Null,
    Bool(bool),
    Integer(i64),
    Float(Double),
    String(Seq<char>),
    Array(serde_json::Value),
    Object(serde_json::Value),
}

impl View for DynValue {
    type V = DynValueView;

    open spec fn view(&self) -> DynValueView {
        match *self {
            DynValue::Null => DynValueView::Null,
            DynValue::Bool(b) => DynValueView::Bool(b),
            DynValue::Integer(i) => DynValueView::Integer(i),
            DynValue::Float(d) => DynValueView::Float(d),
            DynValue::String(s) => DynValueView::String(s@),
            DynValue::Array(v) => DynValueView::Array(v),
            DynValue::Object(v) => DynValueView::Object(v),
        }
    }
}

impl Clone for DynValue {
    fn clone(&self) -> (r: DynValue)
        ensures
            r@ == self@,
    {
        match self {
            DynValue::Null => DynValue::Null,
            DynValue::Bool(b) => DynValue::Bool(*b),
            DynValue::Integer(i) => DynValue::Integer(*i),
            DynValue::Float(d) => DynValue::Float(*d),
            DynValue::String(s) => DynValue::String(s.clone()),
            DynValue::Array(v) => DynValue::Array(json_copy(v)),
            DynValue::Object(v) => DynValue::Object(json_copy(v)),
        }
    }
}

/// A JSON value as it arrives at the boundary, taken apart into plain values.
#[derive(Debug, PartialEq, Eq)]
pub enum JsonInput {
    Null,
    Bool(bool),
    /// A number: as a 64-bit integer where it is one, and as a double where it has one.
    Number { integer: Option<i64>, double: Option<Double> },
    String(String),
    /// An array: the whole value.
    Array(serde_json::Value),
    /// An object: the whole value.
    Object(serde_json::Value),
}

/// The dynamic value of a JSON value, or why it has none: every value is itself, a number
/// being an integer where it is one and a float otherwise; a number that is neither is
/// refused.
pub open spec fn accepted(input: JsonInput) -> Result<DynValueView, ErrorView> {
    match input {
        JsonInput::Null => Ok(DynValueView::Null),
        JsonInput::Bool(b) => Ok(DynValueView::Bool(b)),
        JsonInput::Number { integer: Some(i), double: _ } => Ok(DynValueView::Integer(i)),
        JsonInput::Number { integer: None, double: Some(d) } => Ok(DynValueView::Float(d)),
        JsonInput::Number { integer: None, double: None } => Err(
            ErrorView::UnsupportedDatatype("number"@),
        ),
        JsonInput::String(s) => Ok(DynValueView::String(s@)),
        JsonInput::Array(v) => Ok(DynValueView::Array(v)),
        JsonInput::Object(v) => Ok(DynValueView::Object(v)),
    }
}

/// `values` are the dynamic values of `inputs`, one for one.
pub open spec fn accepts_to(inputs: Seq<JsonInput>, values: Seq<DynValue>) -> bool {
    &&& values.len() == inputs.len()
    &&& forall|i: int|
        0 <= i < inputs.len() ==> accepted(#[trigger] inputs[i]) == Ok::<DynValueView, ErrorView>(
            values[i]@,
        )
}

/// `e` is the error of the first input that has no dynamic value.
pub open spec fn accepting_fails(inputs: Seq<JsonInput>, e: ErrorView) -> bool {
    exists|k: int|
        {
            &&& 0 <= k < inputs.len()
            &&& forall|j: int| 0 <= j < k ==> (#[trigger] accepted(inputs[j])) is Ok
            &&& #[trigger] accepted(inputs[k]) == Err::<DynValueView, ErrorView>(e)
        }
}

impl DynValue {
    /// Takes a JSON value in as a parameter.
    pub fn from_input(input: &JsonInput) -> (r: Result<DynValue, Error>)
        ensures
            match r {
                Ok(v) => accepted(*input) == Ok::<DynValueView, ErrorView>(v@),
                Err(e) => accepted(*input) == Err::<DynValueView, ErrorView>(e@),
            },
    {
        match input {
            JsonInput::Null => Ok(DynValue::Null),
            JsonInput::Bool(b) => Ok(DynValue::Bool(*b)),
            JsonInput::Number { integer: Some(i), double: _ } => Ok(DynValue::Integer(*i)),
            JsonInput::Number { integer: None, double: Some(d) } => Ok(DynValue::Float(*d)),
            JsonInput::Number { integer: None, double: None } => Err(
                Error::UnsupportedDatatype(String::from_str("number")),
            ),
            JsonInput::String(s) => Ok(DynValue::String(s.clone())),
            JsonInput::Array(v) => Ok(DynValue::Array(json_copy(v))),
            JsonInput::Object(v) => Ok(DynValue::Object(json_copy(v))),
        }
    }

    /// Takes the JSON values of one statement in as its parameters, in their order; the
    /// first that is refused gives the error.
    pub fn from_inputs(inputs: &Vec<JsonInput>) -> (r: Result<Vec<DynValue>, Error>)
        ensures
            match r {
                Ok(values) => accepts_to(inputs@, values@),
                Err(e) => accepting_fails(inputs@, e@),
            },
    {
        let mut values: Vec<DynValue> = Vec::new();
        let mut i: usize = 0;
        while i < inputs.len()
            invariant
                i <= inputs.len(),
                values.len() == i,
                forall|j: int|
                    0 <= j < i ==> accepted(#[trigger] inputs[j]) == Ok::<
                        DynValueView,
                        ErrorView,
                    >(values[j]@),
            decreases inputs.len() - i,
        {
            match DynValue::from_input(&inputs[i]) {
                Ok(v) => values.push(v),
                Err(e) => {
                    assert(accepted(inputs[i as int]) == Err::<DynValueView, ErrorView>(e@));
                    return Err(e);
                },
            }
            i = i + 1;
        }
        Ok(values)
    }

    /// Whether this is the null value.
    pub fn is_null(&self) -> (r: bool)
        ensures
            r == (self@ == DynValueView::Null),
    {
        match self {
            DynValue::Null => true,
            _ => false,
        }
    }
}

} // verus!
