//! From what a driver hands over for one column to a dynamic value.
//!
//! Which value a column gives depends on the name of its declared type, read without regard
//! to case. A name of no family is an error: nothing is decoded on a guess.

use crate::error::{Error, ErrorView};
use crate::text::{chars_of, eq_ignoring_case, same_ignoring_case};
use crate::value::{Double, DynValue, DynValueView};
use vstd::prelude::*;
use vstd::string::StringExecFns;

verus! {

/// The families of column types. Each family is read from the driver in one way and gives one
/// kind of dynamic value.
#[derive(Clone, Copy, Debug, PartialEq, Eq, Structural)]
pub enum ColumnFamily {
    Integer,
    Float,
    Boolean,
    Text,
    Temporal,
    Uuid,
}

/// The type names of the integer family.
pub open spec fn names_integer(name: Seq<char>) -> bool {
    ||| same_ignoring_case(name, "INT"@)
    ||| same_ignoring_case(name, "BIGINT"@)
    ||| same_ignoring_case(name, "SMALLINT"@)
    ||| same_ignoring_case(name, "TINYINT"@)
    ||| same_ignoring_case(name, "INTEGER"@)
}

/// The type names of the floating-point and exact-decimal family.
pub open spec fn names_float(name: Seq<char>) -> bool {
    ||| same_ignoring_case(name, "FLOAT"@)
    ||| same_ignoring_case(name, "REAL"@)
    ||| same_ignoring_case(name, "DOUBLE"@)
    ||| same_ignoring_case(name, "DOUBLE PRECISION"@)
    ||| same_ignoring_case(name, "DECIMAL"@)
    ||| same_ignoring_case(name, "NUMERIC"@)
    ||| same_ignoring_case(name, "MONEY"@)
    ||| same_ignoring_case(name, "SMALLMONEY"@)
}

/// The type names of the boolean family.
pub open spec fn names_boolean(name: Seq<char>) -> bool {
    ||| same_ignoring_case(name, "BIT"@)
    ||| same_ignoring_case(name, "BOOLEAN"@)
}

/// The type names of the text family, national-character variants included.
pub open spec fn names_text(name: Seq<char>) -> bool {
    ||| same_ignoring_case(name, "CHAR"@)
    ||| same_ignoring_case(name, "NCHAR"@)
    ||| same_ignoring_case(name, "VARCHAR"@)
    ||| same_ignoring_case(name, "NVARCHAR"@)
    ||| same_ignoring_case(name, "TEXT"@)
    ||| same_ignoring_case(name, "NTEXT"@)
    ||| same_ignoring_case(name, "STRING"@)
}

/// The type names of the date and time family.
pub open spec fn names_temporal(name: Seq<char>) -> bool {
    ||| same_ignoring_case(name, "DATE"@)
    ||| same_ignoring_case(name, "DATETIME"@)
    ||| same_ignoring_case(name, "DATETIME2"@)
    ||| same_ignoring_case(name, "SMALLDATETIME"@)
    ||| same_ignoring_case(name, "TIMESTAMP"@)
    ||| same_ignoring_case(name, "TIME"@)
}

/// The type names of the unique-identifier family.
pub open spec fn names_uuid(name: Seq<char>) -> bool {
    ||| same_ignoring_case(name, "UNIQUEIDENTIFIER"@)
    ||| same_ignoring_case(name, "UUID"@)
}

/// The family of a type name, if it has one.
pub open spec fn family_of(name: Seq<char>) -> Option<ColumnFamily> {
    if names_integer(name) {
        Some(ColumnFamily::Integer)
    } else if names_float(name) {
        Some(ColumnFamily::Float)
    } else if names_boolean(name) {
        Some(ColumnFamily::Boolean)
    } else if names_text(name) {
        Some(ColumnFamily::Text)
    } else if names_temporal(name) {
        Some(ColumnFamily::Temporal)
    } else if names_uuid(name) {
        Some(ColumnFamily::Uuid)
    } else {
        None
    }
}

/// Whether a type name is this word, whatever the case of either.
fn named(name: &Vec<char>, word: &str) -> (r: bool)
    ensures
        r == same_ignoring_case(name@, word@),
{
    let w = chars_of(word);
    eq_ignoring_case(name, &w)
}

/// The form in which a column's value is asked of the driver.
#[derive(Clone, Copy, Debug, PartialEq, Eq, Structural)]
pub enum ReadAs {
    Integer,
    Float,
    Bool,
    Text,
}

impl ColumnFamily {
    /// The family of a column's declared type, by its name.
    pub fn of(column_type: &str) -> (r: Option<ColumnFamily>)
        ensures
            r == family_of(column_type@),
    {
        let n = chars_of(column_type);
        if named(&n, "INT") || named(&n, "BIGINT") || named(&n, "SMALLINT") || named(
            &n,
            "TINYINT",
        ) || named(&n, "INTEGER") {
            Some(ColumnFamily::Integer)
        } else if named(&n, "FLOAT") || named(&n, "REAL") || named(&n, "DOUBLE") || named(
            &n,
            "DOUBLE PRECISION",
        ) || named(&n, "DECIMAL") || named(&n, "NUMERIC") || named(&n, "MONEY") || named(
            &n,
            "SMALLMONEY",
        ) {
            Some(ColumnFamily::Float)
        } else if named(&n, "BIT") || named(&n, "BOOLEAN") {
            Some(ColumnFamily::Boolean)
        } else if named(&n, "CHAR") || named(&n, "NCHAR") || named(&n, "VARCHAR") || named(
            &n,
            "NVARCHAR",
        ) || named(&n, "TEXT") || named(&n, "NTEXT") || named(&n, "STRING") {
            Some(ColumnFamily::Text)
        } else if named(&n, "DATE") || named(&n, "DATETIME") || named(&n, "DATETIME2") || named(
            &n,
            "SMALLDATETIME",
        ) || named(&n, "TIMESTAMP") || named(&n, "TIME") {
            Some(ColumnFamily::Temporal)
        } else if named(&n, "UNIQUEIDENTIFIER") || named(&n, "UUID") {
            Some(ColumnFamily::Uuid)
        } else {
            None
        }
    }

    /// The form in which a value of this family is asked of the driver: dates, times and
    /// unique identifiers come as the text that the driver renders them in.
    pub open spec fn reading(self) -> ReadAs {
        match self {
            ColumnFamily::Integer => ReadAs::Integer,
            ColumnFamily::Float => ReadAs::Float,
            ColumnFamily::Boolean => ReadAs::Bool,
            ColumnFamily::Text => ReadAs::Text,
            ColumnFamily::Temporal => ReadAs::Text,
            ColumnFamily::Uuid => ReadAs::Text,
        }
    }

    /// The form in which a value of this family is asked of the driver.
    pub fn read_as(&self) -> (r: ReadAs)
        ensures
            r == self.reading(),
    {
        match self {
            ColumnFamily::Integer => ReadAs::Integer,
            ColumnFamily::Float => ReadAs::Float,
            ColumnFamily::Boolean => ReadAs::Bool,
            ColumnFamily::Text => ReadAs::Text,
            ColumnFamily::Temporal => ReadAs::Text,
            ColumnFamily::Uuid => ReadAs::Text,
        }
    }
}

/// What is asked of the driver for one column of one row.
#[derive(Clone, Copy, Debug, PartialEq, Eq, Structural)]
pub enum Fetch {
    /// Nothing: the column holds SQL NULL.
    Null,
    /// Nothing: the column's type is of no family.
    Unread,
    /// The value, in this form.
    As(ReadAs),
}

/// What is asked of the driver for a column of a type, given whether it holds SQL NULL.
/// NULL is looked for first, whatever the type.
pub open spec fn fetch_of(column_type: Seq<char>, is_null: bool) -> Fetch {
    if is_null {
        Fetch::Null
    } else {
        match family_of(column_type) {
            Some(family) => Fetch::As(family.reading()),
            None => Fetch::Unread,
        }
    }
}

/// Decides what is asked of the driver for one column of one row.
pub fn fetch(column_type: &str, is_null: bool) -> (r: Fetch)
    ensures
        r == fetch_of(column_type@, is_null),
{
    if is_null {
        return Fetch::Null;
    }
    match ColumnFamily::of(column_type) {
        Some(family) => Fetch::As(family.read_as()),
        None => Fetch::Unread,
    }
}

impl RawData {
    /// This is what the driver hands over when it is asked for `fetch`.
    pub open spec fn answers(self, fetch: Fetch) -> bool {
        match fetch {
            Fetch::Null => self is Null,
            Fetch::Unread => self is Unread,
            Fetch::As(ReadAs::Integer) => self is Integer,
            Fetch::As(ReadAs::Float) => self is Float,
            Fetch::As(ReadAs::Bool) => self is Bool,
            Fetch::As(ReadAs::Text) => self is Text,
        }
    }
}

/// What the driver handed over for one column of one row.
#[derive(Debug, PartialEq, Eq)]
pub enum RawData {
    /// The column holds SQL NULL.
    Null,
    /// The column holds a value that was not read, its type being of no family.
    Unread,
    Integer(i64),
    Float(Double),
    Bool(bool),
    Text(String),
}

/// One column of one row as it comes from the driver: the name of the column's declared type
/// and what was read.
#[derive(Debug, PartialEq, Eq)]
pub struct RawValue {
    pub column_type: String,
    pub data: RawData,
}

/// The text of the error for a number that is an infinity or a NaN.
pub open spec fn invalid_float() -> Seq<char> {
    "Invalid float conversion"@
}

/// The dynamic value of a column, or why it has none.
///
/// SQL NULL is null whatever the type. Otherwise the type's family decides: what was read in
/// the family's form is the value, but a number that is not finite is refused; a type of no
/// family, and a value that was read in another form than its family's, is refused under the
/// type's name.
pub open spec fn decoded(value: RawValue) -> Result<DynValueView, ErrorView> {
    let unsupported = Err::<DynValueView, ErrorView>(
        ErrorView::UnsupportedDatatype(value.column_type@),
    );
    match value.data {
        RawData::Null => Ok(DynValueView::Null),
        RawData::Unread => unsupported,
        RawData::Integer(i) => if family_of(value.column_type@) == Some(ColumnFamily::Integer) {
            Ok(DynValueView::Integer(i))
        } else {
            unsupported
        },
        RawData::Float(d) => if family_of(value.column_type@) == Some(ColumnFamily::Float) {
            if d.finite() {
                Ok(DynValueView::Float(d))
            } else {
                Err(ErrorView::UnsupportedDatatype(invalid_float()))
            }
        } else {
            unsupported
        },
        RawData::Bool(b) => if family_of(value.column_type@) == Some(ColumnFamily::Boolean) {
            Ok(DynValueView::Bool(b))
        } else {
            unsupported
        },
        RawData::Text(s) => match family_of(value.column_type@) {
            Some(family) => if family.reading() == ReadAs::Text {
                Ok(DynValueView::String(s@))
            } else {
                unsupported
            },
            None => unsupported,
        },
    }
}

/// The error for a number that is an infinity or a NaN.
pub fn not_finite() -> (e: Error)
    ensures
        e@ == ErrorView::UnsupportedDatatype(invalid_float()),
{
    Error::UnsupportedDatatype(String::from_str("Invalid float conversion"))
}

/// Decodes one column of one row.
pub fn to_json(value: &RawValue) -> (r: Result<DynValue, Error>)
    ensures
        match r {
            Ok(v) => decoded(*value) == Ok::<DynValueView, ErrorView>(v@),
            Err(e) => decoded(*value) == Err::<DynValueView, ErrorView>(e@),
        },
{
    if let RawData::Null = value.data {
        return Ok(DynValue::Null);
    }
    let family = ColumnFamily::of(value.column_type.as_str());
    let reading = match family {
        Some(f) => Some(f.read_as()),
        None => None,
    };
    match (&value.data, reading) {
        (RawData::Integer(i), Some(ReadAs::Integer)) => Ok(DynValue::Integer(*i)),
        (RawData::Float(d), Some(ReadAs::Float)) => {
            if d.is_finite() {
                Ok(DynValue::Float(*d))
            } else {
                Err(not_finite())
            }
        },
        (RawData::Bool(b), Some(ReadAs::Bool)) => Ok(DynValue::Bool(*b)),
        (RawData::Text(s), Some(ReadAs::Text)) => Ok(DynValue::String(s.clone())),
        _ => Err(Error::UnsupportedDatatype(value.column_type.clone())),
    }
}

/// Where the driver hands over what it was asked for, the column has a dynamic value,
/// unless its type is of no family or its number is not finite; those two are refused.
pub proof fn lemma_fetched_decodes(value: RawValue, is_null: bool)
    requires
        value.data.answers(fetch_of(value.column_type@, is_null)),
    ensures
        decoded(value) is Ok <==> !(value.data is Unread) && !(value.data matches RawData::Float(d)
            && !d.finite()),
        value.data is Unread ==> decoded(value) == Err::<DynValueView, ErrorView>(
            ErrorView::UnsupportedDatatype(value.column_type@),
        ),
{
}

} // verus!
