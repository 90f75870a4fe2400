//! The run over a whole table: listing its columns as references, checking
//! a transform list against its headers, and emitting the new rows.
use crate::column_ref::ColumnRef;
use crate::text::cells;
use crate::transform::original::Original;
use crate::transform::{TransformError, TransformKind, TransformedColumns};
use vstd::prelude::*;

verus! {

/// Every entry is valid against `headers`.
pub open spec fn all_valid(columns: Seq<TransformedColumns>, headers: Seq<Seq<char>>) -> bool {
    forall|i: int| 0 <= i < columns.len() ==> (#[trigger] columns[i]).is_valid(headers)
}

/// Every entry reads only positions below `width`.
pub open spec fn all_fit(columns: Seq<TransformedColumns>, width: int) -> bool {
    forall|i: int| 0 <= i < columns.len() ==> (#[trigger] columns[i]).fits(width)
}

/// The output header row: each entry's headers, in order.
pub open spec fn header_row_spec(columns: Seq<TransformedColumns>) -> Seq<Seq<char>>
    decreases columns.len(),
{
    if columns.len() == 0 {
        seq![]
    } else {
        header_row_spec(columns.drop_last()) + columns.last().header_spec()
    }
}

/// The output row for `record`: each entry's cells, in order; `None` where
/// an entry refuses the record.
pub open spec fn row_spec(columns: Seq<TransformedColumns>, record: Seq<Seq<char>>) -> Option<
    Seq<Seq<char>>,
>
    decreases columns.len(),
{
    if columns.len() == 0 {
        Some(seq![])
    } else {
        match (row_spec(columns.drop_last(), record), columns.last().fields_spec(record)) {
            (Some(a), Some(b)) => Some(a + b),
            _ => None,
        }
    }
}

/// `refs` lists the columns of a table with headers `headers`, in order.
pub open spec fn lists_columns(refs: Seq<ColumnRef>, headers: Seq<Seq<char>>) -> bool {
    refs.len() == headers.len() && forall|i: int|
        0 <= i < refs.len() ==> (#[trigger] refs[i]).index == i && refs[i].header@ == headers[i]
}

/// Each reference passed through as it is.
pub open spec fn originals(refs: Seq<ColumnRef>) -> Seq<TransformedColumns> {
    refs.map_values(|c: ColumnRef| TransformedColumns { kind: TransformKind::Original(Original(c)) })
}

/// The references of a table's columns, in order.
pub fn extract(headers: &Vec<String>) -> (r: Vec<ColumnRef>)
    ensures
        lists_columns(r@, cells(headers@)),
{
    let mut r: Vec<ColumnRef> = Vec::new();
    let mut i: usize = 0;
    while i < headers.len()
        invariant
            i <= headers@.len(),
            r@.len() == i,
            forall|j: int|
                0 <= j < i ==> (#[trigger] r@[j]).index == j && r@[j].header@ == headers@[j]@,
        decreases headers@.len() - i,
    {
        r.push(ColumnRef { index: i, header: headers[i].clone() });
        i = i + 1;
    }
    r
}

/// Checks every entry against the table's headers, in order, and reports
/// the first refusal.
pub fn validate_columns(columns: &Vec<TransformedColumns>, headers: &Vec<String>) -> (r: Result<
    (),
    TransformError,
>)
    ensures
        r is Ok <==> all_valid(columns@, cells(headers@)),
        r is Ok ==> all_fit(columns@, headers@.len() as int),
        r matches Err(e) ==> exists|i: int|
            0 <= i < columns@.len() && !(#[trigger] columns@[i]).is_valid(cells(headers@))
                && columns@[i].reports(e, cells(headers@)) && all_valid(
                columns@.take(i),
                cells(headers@),
            ),
{
    let mut i: usize = 0;
    while i < columns.len()
        invariant
            i <= columns@.len(),
            all_valid(columns@.take(i as int), cells(headers@)),
            all_fit(columns@.take(i as int), headers@.len() as int),
        decreases columns@.len() - i,
    {
        let r = columns[i].validate(headers);
        if r.is_err() {
            assert(!columns@[i as int].is_valid(cells(headers@)));
            assert(columns@[i as int].reports(r->Err_0, cells(headers@)));
            return r;
        }
        proof {
            columns@[i as int].lemma_valid_fits(cells(headers@));
        }
        assert(columns@.take(i + 1) =~= columns@.take(i as int).push(columns@[i as int]));
        i = i + 1;
    }
    assert(columns@.take(i as int) =~= columns@);
    Ok(())
}

/// The output header row.
pub fn header_row(columns: &Vec<TransformedColumns>) -> (r: Vec<String>)
    ensures
        cells(r@) == header_row_spec(columns@),
{
    let mut out: Vec<String> = Vec::new();
    let mut i: usize = 0;
    while i < columns.len()
        invariant
            i <= columns@.len(),
            cells(out@) == header_row_spec(columns@.take(i as int)),
        decreases columns@.len() - i,
    {
        columns[i].write_headers(&mut out);
        assert(columns@.take(i + 1).drop_last() =~= columns@.take(i as int));
        i = i + 1;
    }
    assert(columns@.take(i as int) =~= columns@);
    out
}

/// The output row for one record; fails at the first entry that refuses it.
pub fn record_row(columns: &Vec<TransformedColumns>, record: &Vec<String>) -> (r: Result<
    Vec<String>,
    TransformError,
>)
    requires
        all_fit(columns@, record@.len() as int),
    ensures
        r is Ok <==> row_spec(columns@, cells(record@)) is Some,
        r matches Ok(row) ==> cells(row@) == row_spec(columns@, cells(record@))->Some_0,
        r matches Err(e) ==> exists|i: int|
            0 <= i < columns@.len() && row_spec(columns@.take(i), cells(record@)) is Some
                && (#[trigger] columns@[i]).fields_spec(cells(record@)) is None && columns@[i].refuses(
                e,
                cells(record@),
            ),
{
    let mut out: Vec<String> = Vec::new();
    let mut i: usize = 0;
    while i < columns.len()
        invariant
            i <= columns@.len(),
            all_fit(columns@, record@.len() as int),
            row_spec(columns@.take(i as int), cells(record@)) == Some(cells(out@)),
        decreases columns@.len() - i,
    {
        assert(columns@[i as int].fits(record@.len() as int));
        let r = columns[i].write_fields(record, &mut out);
        assert(columns@.take(i + 1).drop_last() =~= columns@.take(i as int));
        if r.is_err() {
            proof {
                lemma_row_spec_none_extends(columns@, cells(record@), i + 1);
            }
            return Err(r.unwrap_err());
        }
        i = i + 1;
    }
    assert(columns@.take(i as int) =~= columns@);
    Ok(out)
}

/// Once an entry refuses a record, so does every longer list.
proof fn lemma_row_spec_none_extends(
    columns: Seq<TransformedColumns>,
    record: Seq<Seq<char>>,
    n: int,
)
    requires
        0 <= n <= columns.len(),
        row_spec(columns.take(n), record) is None,
    ensures
        row_spec(columns, record) is None,
    decreases columns.len() - n,
{
    if n < columns.len() {
        assert(columns.take(n + 1).drop_last() =~= columns.take(n));
        lemma_row_spec_none_extends(columns, record, n + 1);
    } else {
        assert(columns.take(n) =~= columns);
    }
}

/// Why a table could not be transformed.
#[derive(Debug)]
pub enum TableError {
    /// The transform list was refused before any row was made.
    Invalid(TransformError),
    /// Record `index` has `len` cells where the header row has another count.
    RecordWidth { index: usize, len: usize },
    /// Record `index` was refused by an entry.
    Record { index: usize, error: TransformError },
}

/// Record `i` gives a row under the list: it is as wide as the header row and
/// no entry refuses it.
pub open spec fn record_ok(
    columns: Seq<TransformedColumns>,
    width: int,
    record: Seq<String>,
) -> bool {
    record.len() == width && row_spec(columns, cells(record)) is Some
}

/// Checks the transform list against the headers, then makes the header row
/// and one row for each record, in order. Stops at the first record that
/// cannot be transformed.
pub fn transform_table(
    columns: &Vec<TransformedColumns>,
    headers: &Vec<String>,
    records: &Vec<Vec<String>>,
) -> (r: Result<Vec<Vec<String>>, TableError>)
    ensures
        (r matches Err(TableError::Invalid(_))) <==> !all_valid(columns@, cells(headers@)),
        r matches Err(TableError::Invalid(e)) ==> exists|i: int|
            0 <= i < columns@.len() && !(#[trigger] columns@[i]).is_valid(cells(headers@))
                && columns@[i].reports(e, cells(headers@)) && all_valid(
                columns@.take(i),
                cells(headers@),
            ),
        r matches Err(TableError::RecordWidth { index, len }) ==> index < records@.len() && len
            == records@[index as int]@.len() && len != headers@.len() && forall|j: int|
            0 <= j < index ==> record_ok(columns@, headers@.len() as int, #[trigger] records@[j]@),
        r matches Err(TableError::Record { index, error }) ==> index < records@.len()
            && records@[index as int]@.len() == headers@.len() && !record_ok(
            columns@,
            headers@.len() as int,
            records@[index as int]@,
        ) && (forall|j: int|
            0 <= j < index ==> record_ok(columns@, headers@.len() as int, #[trigger] records@[j]@))
            && exists|k: int|
            0 <= k < columns@.len() && row_spec(columns@.take(k), cells(records@[index as int]@))
                is Some && (#[trigger] columns@[k]).fields_spec(cells(records@[index as int]@)) is None
                && columns@[k].refuses(error, cells(records@[index as int]@)),
        r matches Ok(t) ==> t@.len() == records@.len() + 1 && cells(t@[0]@) == header_row_spec(
            columns@,
        ),
        all_valid(columns@, cells(headers@)) ==> (r is Ok <==> forall|i: int|
            0 <= i < records@.len() ==> record_ok(columns@, headers@.len() as int, #[trigger] records@[i]@)),
        r matches Ok(t) ==> forall|i: int|
            0 <= i < records@.len() ==> cells(#[trigger] t@[i + 1]@) == row_spec(
                columns@,
                cells(records@[i]@),
            )->Some_0,
{
    match validate_columns(columns, headers) {
        Err(e) => {
            return Err(TableError::Invalid(e));
        },
        Ok(()) => {},
    }
    let mut table: Vec<Vec<String>> = Vec::new();
    table.push(header_row(columns));
    let mut i: usize = 0;
    while i < records.len()
        invariant
            i <= records@.len(),
            all_valid(columns@, cells(headers@)),
            all_fit(columns@, headers@.len() as int),
            table@.len() == i + 1,
            cells(table@[0]@) == header_row_spec(columns@),
            forall|j: int|
                0 <= j < i ==> record_ok(columns@, headers@.len() as int, #[trigger] records@[j]@),
            forall|j: int|
                0 <= j < i ==> cells(#[trigger] table@[j + 1]@) == row_spec(
                    columns@,
                    cells(records@[j]@),
                )->Some_0,
        decreases records@.len() - i,
    {
        let record = &records[i];
        if record.len() != headers.len() {
            return Err(TableError::RecordWidth { index: i, len: record.len() });
        }
        match record_row(columns, record) {
            Err(error) => {
                return Err(TableError::Record { index: i, error });
            },
            Ok(row) => {
                table.push(row);
            },
        }
        i = i + 1;
    }
    Ok(table)
}

/// Listing a table's columns and passing each of them through unchanged
/// gives the table back: the list is valid against the table, its header row
/// is the table's header row, and a record as wide as the table comes out as
/// it went in.
pub proof fn lemma_extract_round_trip(
    refs: Seq<ColumnRef>,
    headers: Seq<Seq<char>>,
    record: Seq<Seq<char>>,
)
    requires
        lists_columns(refs, headers),
        record.len() == headers.len(),
    ensures
        all_valid(originals(refs), headers),
        all_fit(originals(refs), record.len() as int),
        header_row_spec(originals(refs)) == headers,
        row_spec(originals(refs), record) == Some(record),
{
    let cols = originals(refs);
    assert forall|i: int| 0 <= i < cols.len() implies (#[trigger] cols[i]).is_valid(headers)
        && cols[i].fits(record.len() as int) by {
        assert(refs[i].index == i);
    }
    lemma_round_trip_prefix(refs, headers, record, refs.len() as int);
    assert(cols.take(cols.len() as int) =~= cols);
    assert(headers.take(headers.len() as int) =~= headers);
    assert(record.take(record.len() as int) =~= record);
}

proof fn lemma_round_trip_prefix(
    refs: Seq<ColumnRef>,
    headers: Seq<Seq<char>>,
    record: Seq<Seq<char>>,
    n: int,
)
    requires
        lists_columns(refs, headers),
        record.len() == headers.len(),
        0 <= n <= refs.len(),
    ensures
        header_row_spec(originals(refs).take(n)) == headers.take(n),
        row_spec(originals(refs).take(n), record) == Some(record.take(n)),
    decreases n,
{
    let cols = originals(refs);
    if n == 0 {
        assert(headers.take(0) =~= seq![]);
        assert(record.take(0) =~= seq![]);
    } else {
        lemma_round_trip_prefix(refs, headers, record, n - 1);
        assert(cols.take(n).drop_last() =~= cols.take(n - 1));
        assert(refs[n - 1].index == n - 1);
        assert(headers.take(n) =~= headers.take(n - 1) + seq![headers[n - 1]]);
        assert(record.take(n) =~= record.take(n - 1) + seq![record[n - 1]]);
    }
}

} // verus!
