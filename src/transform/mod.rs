//! The transform kinds, and what they share: checking a column reference
//! against a table's headers, and appending cells to an output row.
use crate::column_ref::ColumnRef;
use crate::text::cells;
use join::Join;
use original::Original;
use rename::Rename;
use timestamp::Timestamp;
use transpose::Transpose;
use vstd::prelude::*;

pub mod join;
pub mod original;
pub mod rename;
pub mod timestamp;
pub mod transpose;

verus! {

/// Why a transform list was refused, or why a record could not be transformed.
#[derive(Debug)]
pub enum TransformError {
    /// A reference whose header is not the table's header at its position.
    SchemaMismatch { index: usize, header: String },
    /// A transpose column keyed on the empty value.
    EmptyKeyValue { header: String },
    /// Two transpose columns keyed on the same value.
    SharedKeyValue { value: String, first: String, second: String },
    /// A cell that the timestamp's input pattern does not read.
    TimestampParse { value: String },
    /// An output pattern that the timestamp could not be written with.
    TimestampFormat { pattern: String },
    /// A transpose cell that no transpose column is keyed on.
    UnmatchedValue { header: String, value: String },
}

/// The table's header at the reference's position is the reference's header.
pub open spec fn ref_valid(c: ColumnRef, headers: Seq<Seq<char>>) -> bool {
    c.index < headers.len() && headers[c.index as int] == c.header@
}

/// `e` reports reference `c` as not matching the table.
pub open spec fn names_ref(e: TransformError, c: ColumnRef) -> bool {
    match e {
        TransformError::SchemaMismatch { index, header } => index == c.index && header@
            == c.header@,
        _ => false,
    }
}

/// Checks one reference against the table's headers.
pub fn check_ref(c: &ColumnRef, headers: &Vec<String>) -> (r: Result<(), TransformError>)
    ensures
        r is Ok <==> ref_valid(*c, cells(headers@)),
        r matches Err(e) ==> names_ref(e, *c),
{
    if c.index < headers.len() && headers[c.index] == c.header {
        Ok(())
    } else {
        Err(TransformError::SchemaMismatch { index: c.index, header: c.header.clone() })
    }
}

/// Appends one cell to a row.
pub fn push_cell(out: &mut Vec<String>, s: String)
    ensures
        final(out)@.len() == old(out)@.len() + 1,
        cells(final(out)@) == cells(old(out)@).push(s@),
{
    let ghost s_view = s@;
    out.push(s);
    assert(cells(out@) =~= cells(old(out)@).push(s_view));
}

/// The transform kinds.
pub enum TransformKind {
    Original(Original),
    Rename(Rename),
    Timestamp(Timestamp),
    Join(Join),
    Transpose(Transpose),
}

/// One entry of a transform list: the output column(s) it derives.
pub struct TransformedColumns {
    pub kind: TransformKind,
}

impl TransformedColumns {
    pub open spec fn is_valid(&self, headers: Seq<Seq<char>>) -> bool {
        match self.kind {
            TransformKind::Original(o) => o.is_valid(headers),
            TransformKind::Rename(r) => r.is_valid(headers),
            TransformKind::Timestamp(t) => t.is_valid(headers),
            TransformKind::Join(j) => j.is_valid(headers),
            TransformKind::Transpose(t) => t.is_valid(headers),
        }
    }

    /// Every position read lies below `width`.
    pub open spec fn fits(&self, width: int) -> bool {
        match self.kind {
            TransformKind::Original(o) => o.fits(width),
            TransformKind::Rename(r) => r.fits(width),
            TransformKind::Timestamp(t) => t.fits(width),
            TransformKind::Join(j) => j.fits(width),
            TransformKind::Transpose(t) => t.fits(width),
        }
    }

    pub open spec fn header_spec(&self) -> Seq<Seq<char>> {
        match self.kind {
            TransformKind::Original(o) => o.header_spec(),
            TransformKind::Rename(r) => r.header_spec(),
            TransformKind::Timestamp(t) => t.header_spec(),
            TransformKind::Join(j) => j.header_spec(),
            TransformKind::Transpose(t) => t.header_spec(),
        }
    }

    /// The cells emitted for `record`, `None` where the record is refused.
    pub open spec fn fields_spec(&self, record: Seq<Seq<char>>) -> Option<Seq<Seq<char>>> {
        match self.kind {
            TransformKind::Original(o) => Some(o.fields_spec(record)),
            TransformKind::Rename(r) => Some(r.fields_spec(record)),
            TransformKind::Timestamp(t) => t.fields_spec(record),
            TransformKind::Join(j) => Some(j.fields_spec(record)),
            TransformKind::Transpose(t) => if t.all_placed(record) {
                Some(t.fields_spec(record))
            } else {
                None
            },
        }
    }

    /// `e` is what validation reports against `headers`.
    pub open spec fn reports(&self, e: TransformError, headers: Seq<Seq<char>>) -> bool {
        match self.kind {
            TransformKind::Original(o) => names_ref(e, o.0),
            TransformKind::Rename(r) => names_ref(e, r.column),
            TransformKind::Timestamp(t) => names_ref(e, t.column),
            TransformKind::Join(j) => exists|i: int|
                0 <= i < j.columns@.len() && !ref_valid(j.columns@[i].column, headers) && names_ref(
                    e,
                    #[trigger] j.columns@[i].column,
                ) && forall|k: int| 0 <= k < i ==> ref_valid(#[trigger] j.columns@[k].column, headers),
            TransformKind::Transpose(t) => t.reports(e, headers),
        }
    }

    /// `e` is what writing `record` fails with.
    pub open spec fn refuses(&self, e: TransformError, record: Seq<Seq<char>>) -> bool {
        match self.kind {
            TransformKind::Timestamp(t) => t.refuses(e, record),
            TransformKind::Transpose(t) => t.refuses(e, record),
            _ => false,
        }
    }

    /// A valid entry reads only positions that the table has.
    pub proof fn lemma_valid_fits(&self, headers: Seq<Seq<char>>)
        requires
            self.is_valid(headers),
        ensures
            self.fits(headers.len() as int),
    {
        match self.kind {
            TransformKind::Join(j) => {
                assert forall|i: int| 0 <= i < j.columns@.len() implies #[trigger] j.columns@[i].column.index
                    < headers.len() by {
                    assert(ref_valid(j.columns@[i].column, headers));
                }
            },
            TransformKind::Transpose(t) => {
                assert forall|i: int| 0 <= i < t.sources@.len() implies #[trigger] t.sources@[i].0.index
                    < headers.len() by {
                    assert(ref_valid(t.sources@[i].0, headers));
                }
            },
            _ => {},
        }
    }

    pub fn validate(&self, headers: &Vec<String>) -> (r: Result<(), TransformError>)
        ensures
            r is Ok <==> self.is_valid(cells(headers@)),
            r matches Err(e) ==> self.reports(e, cells(headers@)),
    {
        match &self.kind {
            TransformKind::Original(o) => o.validate(headers),
            TransformKind::Rename(r) => r.validate(headers),
            TransformKind::Timestamp(t) => t.validate(headers),
            TransformKind::Join(j) => j.validate(headers),
            TransformKind::Transpose(t) => t.validate(headers),
        }
    }

    pub fn write_headers(&self, out: &mut Vec<String>)
        ensures
            cells(final(out)@) == cells(old(out)@) + self.header_spec(),
    {
        match &self.kind {
            TransformKind::Original(o) => o.write_headers(out),
            TransformKind::Rename(r) => r.write_headers(out),
            TransformKind::Timestamp(t) => t.write_headers(out),
            TransformKind::Join(j) => j.write_headers(out),
            TransformKind::Transpose(t) => t.write_headers(out),
        }
    }

    /// Appends this entry's cells for `record`; fails, appending nothing,
    /// where the record is refused.
    pub fn write_fields(&self, record: &Vec<String>, out: &mut Vec<String>) -> (r: Result<
        (),
        TransformError,
    >)
        requires
            self.fits(record@.len() as int),
        ensures
            r is Ok <==> self.fields_spec(cells(record@)) is Some,
            r is Ok ==> cells(final(out)@) == cells(old(out)@) + self.fields_spec(
                cells(record@),
            )->Some_0,
            r matches Err(e) ==> self.refuses(e, cells(record@)),
            r is Err ==> final(out)@ == old(out)@,
    {
        match &self.kind {
            TransformKind::Original(o) => {
                o.write_fields(record, out);
                Ok(())
            },
            TransformKind::Rename(r) => {
                r.write_fields(record, out);
                Ok(())
            },
            TransformKind::Timestamp(t) => t.write_fields(record, out),
            TransformKind::Join(j) => {
                j.write_fields(record, out);
                Ok(())
            },
            TransformKind::Transpose(t) => {
                t.write_fields(record, out)
            },
        }
    }
}

} // verus!
