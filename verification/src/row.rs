//! Result rows: from the columns that a driver hands over to a map from column name to
//! dynamic value that keeps the columns' order.

use crate::codec::{decoded, family_of, to_json, RawData, RawValue};
use crate::error::{Error, ErrorView};
use crate::value::{DynValue, DynValueView};
use indexmap::IndexMap;
use vstd::prelude::*;

verus! {

/// The order-preserving hash map of the `indexmap` crate. Nothing of its inside is known
/// here; what a row holds is told by `row_entries`.
#[verifier::external_type_specification]
#[verifier::external_body]
#[verifier::reject_recursive_types(K)]
#[verifier::reject_recursive_types(V)]
#[verifier::reject_recursive_types(S)]
pub struct ExIndexMap<K, V, S>(IndexMap<K, V, S>);

/// The entries of a row in their order: each a column name and the value under it.
pub uninterp spec fn row_entries(row: IndexMap<String, DynValue>) -> Seq<
    (Seq<char>, DynValueView),
>;

/// The entries after a value is put under a name: where an entry has the name, the first
/// such entry keeps its place and takes the value; where none has, the new entry comes last.
pub open spec fn put(
    entries: Seq<(Seq<char>, DynValueView)>,
    name: Seq<char>,
    value: DynValueView,
) -> Seq<(Seq<char>, DynValueView)>
    decreases entries.len(),
{
    if entries.len() == 0 {
        seq![(name, value)]
    } else if entries[0].0 == name {
        seq![(name, value)] + entries.skip(1)
    } else {
        seq![entries[0]] + put(entries.skip(1), name, value)
    }
}

/// `IndexMap::new`: a map without entries.
#[verifier::external_body]
fn row_new() -> (row: IndexMap<String, DynValue>)
    ensures
        row_entries(row) == Seq::<(Seq<char>, DynValueView)>::empty(),
{
    IndexMap::new()
}

/// `IndexMap::insert`: an entry with an equal key keeps its key and its place and takes the
/// new value; without one, the pair becomes the last entry. The value that was replaced is
/// dropped.
#[verifier::external_body]
fn row_insert(row: &mut IndexMap<String, DynValue>, name: String, value: DynValue)
    ensures
        row_entries(*final(row)) == put(row_entries(*old(row)), name@, value@),
{
    row.insert(name, value);
}

/// One column of one row as it comes from the driver.
#[derive(Debug, PartialEq, Eq)]
pub struct RawColumn {
    /// The column's name.
    pub name: String,
    /// The column's declared type and what was read of it.
    pub value: RawValue,
}

/// Every one of the first `n` columns has a dynamic value.
pub open spec fn decodes(columns: Seq<RawColumn>, n: int) -> bool {
    forall|j: int| 0 <= j < n ==> (#[trigger] decoded(columns[j].value)) is Ok
}

/// `e` is the error of the first column that has no dynamic value.
pub open spec fn fails_with(columns: Seq<RawColumn>, e: ErrorView) -> bool {
    exists|k: int|
        {
            &&& 0 <= k < columns.len()
            &&& decodes(columns, k)
            &&& #[trigger] decoded(columns[k].value) == Err::<DynValueView, ErrorView>(e)
        }
}

/// The entries of the row that columns give: each column's value is put under the column's
/// name, in the columns' order.
pub open spec fn row_of(columns: Seq<RawColumn>) -> Seq<(Seq<char>, DynValueView)>
    decreases columns.len(),
{
    if columns.len() == 0 {
        Seq::empty()
    } else {
        put(
            row_of(columns.drop_last()),
            columns.last().name@,
            decoded(columns.last().value)->Ok_0,
        )
    }
}

/// Decodes the columns of one row into a map from column name to value, in the columns'
/// order. The row is decoded whole or not at all: the first column without a dynamic value
/// gives the error.
pub fn decode_row(columns: &Vec<RawColumn>) -> (r: Result<IndexMap<String, DynValue>, Error>)
    ensures
        match r {
            Ok(row) => decodes(columns@, columns.len() as int) && row_entries(row) == row_of(
                columns@,
            ),
            Err(e) => fails_with(columns@, e@),
        },
{
    let mut row = row_new();
    let mut i: usize = 0;
    while i < columns.len()
        invariant
            i <= columns.len(),
            decodes(columns@, i as int),
            row_entries(row) == row_of(columns@.take(i as int)),
        decreases columns.len() - i,
    {
        match to_json(&columns[i].value) {
            Ok(v) => {
                proof {
                    let next = columns@.take(i + 1);
                    assert(next.drop_last() =~= columns@.take(i as int));
                    assert(next.last() == columns@[i as int]);
                }
                row_insert(&mut row, columns[i].name.clone(), v);
            },
            Err(e) => {
                assert(decoded(columns@[i as int].value) == Err::<DynValueView, ErrorView>(e@));
                return Err(e);
            },
        }
        i = i + 1;
    }
    assert(columns@.take(columns.len() as int) =~= columns@);
    Ok(row)
}

/// Row `k` is the first that cannot be decoded, and `e` is its error.
pub open spec fn rows_fail_with(rows: Seq<Vec<RawColumn>>, e: ErrorView) -> bool {
    exists|k: int|
        {
            &&& 0 <= k < rows.len()
            &&& forall|j: int| 0 <= j < k ==> decodes(#[trigger] rows[j]@, rows[j].len() as int)
            &&& fails_with(#[trigger] rows[k]@, e)
        }
}

/// Decodes the rows of a result, in their order. The result is decoded whole or not at all:
/// the first column of the first row without a dynamic value gives the error.
pub fn decode_rows(rows: &Vec<Vec<RawColumn>>) -> (r: Result<
    Vec<IndexMap<String, DynValue>>,
    Error,
>)
    ensures
        match r {
            Ok(out) => {
                &&& out.len() == rows.len()
                &&& forall|i: int|
                    0 <= i < rows.len() ==> {
                        &&& decodes(#[trigger] rows[i]@, rows[i].len() as int)
                        &&& row_entries(out[i]) == row_of(rows[i]@)
                    }
            },
            Err(e) => rows_fail_with(rows@, e@),
        },
{
    let mut out: Vec<IndexMap<String, DynValue>> = Vec::new();
    let mut i: usize = 0;
    while i < rows.len()
        invariant
            i <= rows.len(),
            out.len() == i,
            forall|j: int|
                0 <= j < i ==> {
                    &&& decodes(#[trigger] rows[j]@, rows[j].len() as int)
                    &&& row_entries(out[j]) == row_of(rows[j]@)
                },
        decreases rows.len() - i,
    {
        match decode_row(&rows[i]) {
            Ok(row) => {
                out.push(row);
            },
            Err(e) => {
                assert(fails_with(rows@[i as int]@, e@));
                return Err(e);
            },
        }
        i = i + 1;
    }
    Ok(out)
}

/// The value under a name: that of the first entry with the name.
pub open spec fn value_of(entries: Seq<(Seq<char>, DynValueView)>, name: Seq<char>) -> Option<
    DynValueView,
>
    decreases entries.len(),
{
    if entries.len() == 0 {
        None
    } else if entries[0].0 == name {
        Some(entries[0].1)
    } else {
        value_of(entries.skip(1), name)
    }
}

/// No two entries have the same name.
pub open spec fn distinct_names(entries: Seq<(Seq<char>, DynValueView)>) -> bool {
    forall|i: int, j: int| 0 <= i < j < entries.len() ==> entries[i].0 != entries[j].0
}

/// A value put under a name is the value under that name afterwards, and the values under
/// the other names are what they were: a later column of a name overwrites an earlier one.
pub proof fn lemma_put_value(
    entries: Seq<(Seq<char>, DynValueView)>,
    name: Seq<char>,
    value: DynValueView,
    other: Seq<char>,
)
    ensures
        value_of(put(entries, name, value), name) == Some(value),
        other != name ==> value_of(put(entries, name, value), other) == value_of(entries, other),
    decreases entries.len(),
{
    let after = put(entries, name, value);
    if entries.len() == 0 {
        assert(after[0] == (name, value));
        assert(after.skip(1) =~= Seq::empty());
        assert(value_of(after.skip(1), other) == None::<DynValueView>);
    } else if entries[0].0 == name {
        assert(after[0] == (name, value));
        assert(after.skip(1) =~= entries.skip(1));
    } else {
        lemma_put_value(entries.skip(1), name, value, other);
        assert(after[0] == entries[0]);
        assert(after.skip(1) =~= put(entries.skip(1), name, value));
    }
}

/// Under a name that no entry has, a value becomes the last entry.
pub proof fn lemma_put_new(
    entries: Seq<(Seq<char>, DynValueView)>,
    name: Seq<char>,
    value: DynValueView,
)
    requires
        forall|i: int| 0 <= i < entries.len() ==> entries[i].0 != name,
    ensures
        put(entries, name, value) == entries.push((name, value)),
    decreases entries.len(),
{
    if entries.len() == 0 {
        assert(put(entries, name, value) =~= entries.push((name, value)));
    } else {
        lemma_put_new(entries.skip(1), name, value);
        assert(seq![entries[0]] + entries.skip(1).push((name, value)) =~= entries.push(
            (name, value),
        ));
    }
}

/// Putting a value under a name keeps the number of entries or adds one, and keeps the names
/// apart where they were apart.
pub proof fn lemma_put_distinct(
    entries: Seq<(Seq<char>, DynValueView)>,
    name: Seq<char>,
    value: DynValueView,
)
    requires
        distinct_names(entries),
    ensures
        distinct_names(put(entries, name, value)),
        forall|i: int|
            0 <= i < put(entries, name, value).len() ==> (#[trigger] put(entries, name, value)[i]).0
                == name || exists|j: int|
                0 <= j < entries.len() && entries[j].0 == put(entries, name, value)[i].0,
    decreases entries.len(),
{
    let after = put(entries, name, value);
    if entries.len() == 0 {
    } else if entries[0].0 == name {
        assert forall|i: int| 0 <= i < after.len() implies (#[trigger] after[i]).0 == name
            || exists|j: int| 0 <= j < entries.len() && entries[j].0 == after[i].0 by {
            if i > 0 {
                assert(after[i] == entries[i]);
            }
        }
        assert forall|i: int, j: int| 0 <= i < j < after.len() implies after[i].0
            != after[j].0 by {
            assert(after[j] == entries[j]);
            if i > 0 {
                assert(after[i] == entries[i]);
            }
        }
    } else {
        let rest = entries.skip(1);
        assert(distinct_names(rest)) by {
            assert forall|i: int, j: int| 0 <= i < j < rest.len() implies rest[i].0
                != rest[j].0 by {
                assert(rest[i] == entries[i + 1]);
                assert(rest[j] == entries[j + 1]);
            }
        }
        lemma_put_distinct(rest, name, value);
        let tail = put(rest, name, value);
        assert forall|i: int| 0 <= i < after.len() implies (#[trigger] after[i]).0 == name
            || exists|j: int| 0 <= j < entries.len() && entries[j].0 == after[i].0 by {
            if i == 0 {
                assert(entries[0].0 == after[0].0);
            } else {
                assert(after[i] == tail[i - 1]);
                if tail[i - 1].0 != name {
                    let j = choose|j: int| 0 <= j < rest.len() && rest[j].0 == tail[i - 1].0;
                    assert(entries[j + 1].0 == after[i].0);
                }
            }
        }
        assert forall|i: int, j: int| 0 <= i < j < after.len() implies after[i].0
            != after[j].0 by {
            assert(after[j] == tail[j - 1]);
            if i == 0 {
                if tail[j - 1].0 != name {
                    let k = choose|k: int| 0 <= k < rest.len() && rest[k].0 == tail[j - 1].0;
                    assert(rest[k] == entries[k + 1]);
                }
            } else {
                assert(after[i] == tail[i - 1]);
            }
        }
    }
}

/// The names of a row are apart, however often a column's name occurs.
pub proof fn lemma_row_names_distinct(columns: Seq<RawColumn>)
    ensures
        distinct_names(row_of(columns)),
    decreases columns.len(),
{
    if columns.len() > 0 {
        lemma_row_names_distinct(columns.drop_last());
        lemma_put_distinct(
            row_of(columns.drop_last()),
            columns.last().name@,
            decoded(columns.last().value)->Ok_0,
        );
    }
}

/// Where the columns' names are apart, the row has one entry for each column, in the
/// columns' order: the column's name and the column's value.
pub proof fn lemma_row_keeps_columns(columns: Seq<RawColumn>)
    requires
        forall|i: int, j: int| 0 <= i < j < columns.len() ==> columns[i].name@ != columns[j].name@,
    ensures
        row_of(columns).len() == columns.len(),
        forall|i: int|
            0 <= i < columns.len() ==> #[trigger] row_of(columns)[i] == (
                columns[i].name@,
                decoded(columns[i].value)->Ok_0,
            ),
    decreases columns.len(),
{
    if columns.len() > 0 {
        let before = columns.drop_last();
        lemma_row_keeps_columns(before);
        let last = columns.last();
        assert forall|i: int| 0 <= i < row_of(before).len() implies row_of(before)[i].0
            != last.name@ by {
            assert(row_of(before)[i].0 == before[i].name@);
            assert(before[i] == columns[i]);
        }
        lemma_put_new(row_of(before), last.name@, decoded(last.value)->Ok_0);
        assert forall|i: int| 0 <= i < columns.len() implies #[trigger] row_of(columns)[i] == (
            columns[i].name@,
            decoded(columns[i].value)->Ok_0,
        ) by {
            if i < before.len() {
                assert(row_of(columns)[i] == row_of(before)[i]);
                assert(before[i] == columns[i]);
            }
        }
    }
}

/// A result with a column of a type of no family that holds a value is not decoded: no
/// row of it is handed out, and what comes back is `UnsupportedDatatype`, as is every error
/// of decoding.
pub proof fn lemma_unknown_type_fails_result(
    rows: Seq<Vec<RawColumn>>,
    i: int,
    k: int,
    e: ErrorView,
)
    requires
        0 <= i < rows.len(),
        0 <= k < rows[i].len(),
        family_of(rows[i][k].value.column_type@) is None,
        rows[i][k].value.data != RawData::Null,
    ensures
        !decodes(rows[i]@, rows[i].len() as int),
        rows_fail_with(rows, e) ==> e is UnsupportedDatatype,
{
    assert(decoded(rows[i]@[k].value) is Err);
    if rows_fail_with(rows, e) {
        let r = choose|r: int|
            {
                &&& 0 <= r < rows.len()
                &&& forall|j: int| 0 <= j < r ==> decodes(#[trigger] rows[j]@, rows[j].len() as int)
                &&& fails_with(#[trigger] rows[r]@, e)
            };
        let c = choose|c: int|
            {
                &&& 0 <= c < rows[r]@.len()
                &&& decodes(rows[r]@, c)
                &&& #[trigger] decoded(rows[r]@[c].value) == Err::<DynValueView, ErrorView>(e)
            };
    }
}

} // verus!
