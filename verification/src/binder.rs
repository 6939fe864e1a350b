//! How the parameters of a statement are bound.
//!
//! A parameter is bound in one of four ways, tried in this order: a null as a null of the
//! backend's type, a text as text, a number as a double-precision number, anything else in
//! its structured form where the driver has one. Binding every number as a double is a
//! known limitation: an integer above 2^53 in magnitude may not arrive as it was sent.

use crate::backend::Backend;
use crate::error::{Error, ErrorView};
use crate::value::{json_copy, Double, DynValue, DynValueView};
use vstd::prelude::*;
use vstd::string::StringExecFns;

verus! {

/// A number on its way to being bound as a double.
#[derive(Clone, Copy, Debug, PartialEq, Eq, Structural)]
pub enum Numeric {
    Integer(i64),
    Float(Double),
}

/// The largest magnitude up to which every integer is a double: 2^53.
pub const SAFE_INTEGER: u64 = 0x20_0000_0000_0000;

/// A natural number is a double exactly if it is below 2^53 or twice such a number.
pub open spec fn is_double(a: nat) -> bool
    decreases a,
{
    a < SAFE_INTEGER || (a % 2 == 0 && is_double(a / 2))
}

/// The magnitude of an integer.
pub open spec fn magnitude(i: int) -> nat {
    if i < 0 {
        (-i) as nat
    } else {
        i as nat
    }
}

impl Numeric {
    /// Whether binding as a double keeps the number as it is.
    pub open spec fn exact(self) -> bool {
        match self {
            Numeric::Integer(i) => is_double(magnitude(i as int)),
            Numeric::Float(_) => true,
        }
    }

    /// Whether binding as a double keeps the number as it is. A float always is one; an
    /// integer is one where its magnitude, halved as long as it is even, falls below 2^53.
    pub fn is_exact(&self) -> (r: bool)
        ensures
            r == self.exact(),
    {
        match self {
            Numeric::Float(_) => true,
            Numeric::Integer(i) => {
                let mut a: u64 = if *i >= 0 {
                    *i as u64
                } else if *i == i64::MIN {
                    0x8000_0000_0000_0000
                } else {
                    (-*i) as u64
                };
                while a >= SAFE_INTEGER && a % 2 == 0
                    invariant
                        is_double(a as nat) == is_double(magnitude(*i as int)),
                    decreases a,
                {
                    a = a / 2;
                }
                a < SAFE_INTEGER
            },
        }
    }
}

/// Every integer of magnitude up to 2^53 is bound exactly.
pub proof fn lemma_safe_integers_exact(i: i64)
    requires
        magnitude(i as int) <= SAFE_INTEGER,
    ensures
        Numeric::Integer(i).exact(),
{
    let a = magnitude(i as int);
    if a == SAFE_INTEGER {
        assert(is_double(a / 2));
    }
}

/// Above 2^53 the doubles thin out: no odd integer beyond it is bound exactly, the first of
/// them being 2^53 + 1.
pub proof fn lemma_odd_above_safe_inexact(i: i64)
    requires
        magnitude(i as int) > SAFE_INTEGER,
        magnitude(i as int) % 2 == 1,
    ensures
        !Numeric::Integer(i).exact(),
{
}

/// A value that is neither null, text nor a number: it is bound in the structured form that
/// the driver has for JSON.
#[derive(Debug, PartialEq, Eq)]
pub enum Structured {
    Bool(bool),
    Array(serde_json::Value),
    Object(serde_json::Value),
}

impl Structured {
    /// The name under which a driver without a structured form refuses the value.
    pub open spec fn name(self) -> Seq<char> {
        match self {
            Structured::Bool(_) => "boolean"@,
            Structured::Array(_) => "array"@,
            Structured::Object(_) => "object"@,
        }
    }

    /// The error of a driver that has no structured form for the value.
    pub fn refused(&self) -> (e: Error)
        ensures
            e@ == ErrorView::UnsupportedDatatype(self.name()),
    {
        match self {
            Structured::Bool(_) => Error::UnsupportedDatatype(String::from_str("boolean")),
            Structured::Array(_) => Error::UnsupportedDatatype(String::from_str("array")),
            Structured::Object(_) => Error::UnsupportedDatatype(String::from_str("object")),
        }
    }
}

/// How one parameter is bound.
#[derive(Debug, PartialEq, Eq)]
pub enum Binding {
    /// As a null of the backend's type.
    Null,
    /// As text.
    Text(String),
    /// As a double-precision number.
    Double(Numeric),
    /// In the structured form that the driver has for a value that is none of these.
    Structured(Structured),
}

/// A binding with its text as a character sequence.
pub enum BindingView {
    Null,
    Text(Seq<char>),
    Double(Numeric),
    Structured(Structured),
}

impl View for Binding {
    type V = BindingView;

    open spec fn view(&self) -> BindingView {
        match *self {
            Binding::Null => BindingView::Null,
            Binding::Text(s) => BindingView::Text(s@),
            Binding::Double(n) => BindingView::Double(n),
            Binding::Structured(b) => BindingView::Structured(b),
        }
    }
}

/// The structured form of a value that is neither null, text nor a number.
pub open spec fn structured(value: DynValueView) -> Option<Structured> {
    match value {
        DynValueView::Bool(b) => Some(Structured::Bool(b)),
        DynValueView::Array(v) => Some(Structured::Array(v)),
        DynValueView::Object(v) => Some(Structured::Object(v)),
        _ => None,
    }
}

/// How a value is bound for a backend, or why it cannot be: a null as a null, a text as
/// text, a number as a double; a boolean, an array and an object in their structured form
/// on every backend but the one whose driver has none, which refuses them.
pub open spec fn bound(backend: Backend, value: DynValueView) -> Result<BindingView, ErrorView> {
    match value {
        DynValueView::Null => Ok(BindingView::Null),
        DynValueView::String(s) => Ok(BindingView::Text(s)),
        DynValueView::Integer(i) => Ok(BindingView::Double(Numeric::Integer(i))),
        DynValueView::Float(d) => Ok(BindingView::Double(Numeric::Float(d))),
        _ => if backend != Backend::Mssql {
            Ok(BindingView::Structured(structured(value)->0))
        } else {
            Err(ErrorView::UnsupportedDatatype(structured(value)->0.name()))
        },
    }
}

/// Every value before position `n` can be bound.
pub open spec fn all_bound(backend: Backend, values: Seq<DynValue>, n: int) -> bool {
    forall|j: int| 0 <= j < n ==> (#[trigger] bound(backend, values[j]@)) is Ok
}

/// Decides how one parameter is bound for a backend.
pub fn bind_value(backend: Backend, value: &DynValue) -> (r: Result<Binding, Error>)
    ensures
        match r {
            Ok(b) => bound(backend, value@) == Ok::<BindingView, ErrorView>(b@),
            Err(e) => bound(backend, value@) == Err::<BindingView, ErrorView>(e@),
        },
{
    match value {
        DynValue::Null => Ok(Binding::Null),
        DynValue::String(s) => Ok(Binding::Text(s.clone())),
        DynValue::Integer(i) => Ok(Binding::Double(Numeric::Integer(*i))),
        DynValue::Float(d) => Ok(Binding::Double(Numeric::Float(*d))),
        DynValue::Bool(b) => bind_structured(backend, Structured::Bool(*b)),
        DynValue::Array(v) => bind_structured(backend, Structured::Array(json_copy(v))),
        DynValue::Object(v) => bind_structured(backend, Structured::Object(json_copy(v))),
    }
}

/// Binds a structured value where the driver can, and refuses it where it cannot.
fn bind_structured(backend: Backend, value: Structured) -> (r: Result<Binding, Error>)
    ensures
        match r {
            Ok(b) => backend != Backend::Mssql && b@ == BindingView::Structured(value),
            Err(e) => backend == Backend::Mssql && e@ == ErrorView::UnsupportedDatatype(
                value.name(),
            ),
        },
{
    if backend.binds_structured() {
        Ok(Binding::Structured(value))
    } else {
        Err(value.refused())
    }
}

/// `bindings` are the bindings of `values`, one for one.
pub open spec fn binds_to(backend: Backend, values: Seq<DynValue>, bindings: Seq<Binding>) -> bool {
    &&& bindings.len() == values.len()
    &&& forall|i: int|
        0 <= i < values.len() ==> bound(backend, #[trigger] values[i]@) == Ok::<
            BindingView,
            ErrorView,
        >(bindings[i]@)
}

/// `e` is the error of the first value that cannot be bound.
pub open spec fn binding_fails(backend: Backend, values: Seq<DynValue>, e: ErrorView) -> bool {
    exists|k: int|
        {
            &&& 0 <= k < values.len()
            &&& all_bound(backend, values, k)
            &&& #[trigger] bound(backend, values[k]@) == Err::<BindingView, ErrorView>(e)
        }
}

/// Decides how the parameters of one statement are bound, in their order. The statement is
/// bound whole or not at all: the first value that cannot be bound gives the error.
pub fn bind_values(backend: Backend, values: &Vec<DynValue>) -> (r: Result<Vec<Binding>, Error>)
    ensures
        match r {
            Ok(bindings) => binds_to(backend, values@, bindings@),
            Err(e) => binding_fails(backend, values@, e@),
        },
{
    let mut out: Vec<Binding> = Vec::new();
    let mut i: usize = 0;
    while i < values.len()
        invariant
            i <= values.len(),
            out.len() == i,
            forall|j: int|
                0 <= j < i ==> bound(backend, #[trigger] values[j]@) == Ok::<
                    BindingView,
                    ErrorView,
                >(out[j]@),
        decreases values.len() - i,
    {
        match bind_value(backend, &values[i]) {
            Ok(b) => {
                out.push(b);
            },
            Err(e) => {
                assert(all_bound(backend, values@, i as int));
                assert(bound(backend, values[i as int]@) == Err::<BindingView, ErrorView>(e@));
                return Err(e);
            },
        }
        i = i + 1;
    }
    Ok(out)
}

} // verus!
