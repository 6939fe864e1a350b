//! What a value keeps on its way into a statement and out of a column.
//!
//! What lies between the two, the database, is not part of this library: each statement
//! here speaks of the binding that a parameter gets, and of the value that a column gives
//! when the driver hands over what was bound.

use crate::backend::Backend;
use crate::binder::{bound, magnitude, structured, BindingView, Numeric, Structured, SAFE_INTEGER};
use crate::codec::{decoded, family_of, ColumnFamily, RawData, RawValue, ReadAs};
use crate::error::ErrorView;
use crate::value::{Double, DynValueView};
use vstd::prelude::*;

verus! {

/// A null is bound as a null on every backend, and a column that holds SQL NULL gives a
/// null whatever its type.
pub proof fn lemma_null_stays_null(backend: Backend, column: RawValue)
    requires
        column.data == RawData::Null,
    ensures
        bound(backend, DynValueView::Null) == Ok::<BindingView, ErrorView>(BindingView::Null),
        decoded(column) == Ok::<DynValueView, ErrorView>(DynValueView::Null),
{
}

/// A text is bound as that text on every backend, and a column of a type that is read as
/// text gives the text that the driver hands over.
pub proof fn lemma_text_stays_text(backend: Backend, text: Seq<char>, column: RawValue)
    requires
        family_of(column.column_type@) is Some,
        family_of(column.column_type@)->0.reading() == ReadAs::Text,
        column.data matches RawData::Text(s) && s@ == text,
    ensures
        bound(backend, DynValueView::String(text)) == Ok::<BindingView, ErrorView>(
            BindingView::Text(text),
        ),
        decoded(column) == Ok::<DynValueView, ErrorView>(DynValueView::String(text)),
{
}

/// An integer is bound as a double on every backend, which keeps it as it is up to a
/// magnitude of 2^53; a column of the integer family gives the integer that the driver
/// hands over.
pub proof fn lemma_integer_stays_integer(backend: Backend, i: i64, column: RawValue)
    requires
        family_of(column.column_type@) == Some(ColumnFamily::Integer),
        column.data == RawData::Integer(i),
    ensures
        bound(backend, DynValueView::Integer(i)) == Ok::<BindingView, ErrorView>(
            BindingView::Double(Numeric::Integer(i)),
        ),
        magnitude(i as int) <= SAFE_INTEGER ==> Numeric::Integer(i).exact(),
        decoded(column) == Ok::<DynValueView, ErrorView>(DynValueView::Integer(i)),
{
    if magnitude(i as int) <= SAFE_INTEGER {
        crate::binder::lemma_safe_integers_exact(i);
    }
}

/// A finite number is bound as it is on every backend, and a column of the float family
/// gives the finite number that the driver hands over; a number that is not finite is
/// refused.
pub proof fn lemma_float_stays_float(backend: Backend, d: Double, column: RawValue)
    requires
        family_of(column.column_type@) == Some(ColumnFamily::Float),
        column.data == RawData::Float(d),
    ensures
        bound(backend, DynValueView::Float(d)) == Ok::<BindingView, ErrorView>(
            BindingView::Double(Numeric::Float(d)),
        ),
        decoded(column) == if d.finite() {
            Ok::<DynValueView, ErrorView>(DynValueView::Float(d))
        } else {
            Err::<DynValueView, ErrorView>(
                ErrorView::UnsupportedDatatype("Invalid float conversion"@),
            )
        },
{
}

/// A column of a type of no family that holds a value is refused under the name of its
/// type.
pub proof fn lemma_unknown_type_refused(column: RawValue)
    requires
        family_of(column.column_type@) is None,
        column.data != RawData::Null,
    ensures
        decoded(column) == Err::<DynValueView, ErrorView>(
            ErrorView::UnsupportedDatatype(column.column_type@),
        ),
{
}

/// A column gives a null only where it holds SQL NULL, and a text only where the driver
/// handed a text over: no value is made up for a column that cannot be decoded.
pub proof fn lemma_nothing_made_up(column: RawValue)
    ensures
        decoded(column) == Ok::<DynValueView, ErrorView>(DynValueView::Null) ==> column.data
            == RawData::Null,
        decoded(column) matches Ok(DynValueView::String(s)) ==> column.data matches RawData::Text(
            t,
        ) && t@ == s,
{
}

/// A boolean, an array and an object are bound in their structured form on every backend
/// whose driver has one, as they are and never as a number or a text; on the one backend
/// without, they are refused and nothing is bound.
pub proof fn lemma_structured_stays_structured(backend: Backend, value: DynValueView)
    requires
        value is Bool || value is Array || value is Object,
    ensures
        backend != Backend::Mssql ==> bound(backend, value) == Ok::<BindingView, ErrorView>(
            BindingView::Structured(structured(value)->0),
        ),
        backend == Backend::Mssql ==> bound(backend, value) is Err && bound(
            backend,
            value,
        )->Err_0 is UnsupportedDatatype,
        value matches DynValueView::Bool(b) ==> structured(value) == Some(Structured::Bool(b)),
        value matches DynValueView::Array(v) ==> structured(value) == Some(Structured::Array(v)),
        value matches DynValueView::Object(v) ==> structured(value) == Some(
            Structured::Object(v),
        ),
{
}

/// A column gives a scalar: an array or an object is a parameter only.
pub proof fn lemma_columns_give_scalars(column: RawValue)
    ensures
        decoded(column) matches Ok(v) ==> !(v is Array) && !(v is Object),
{
}

} // verus!
