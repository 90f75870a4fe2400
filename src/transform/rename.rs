//! A column passed through under a new header.
use crate::column_ref::ColumnRef;
use crate::text::cells;
use crate::transform::{check_ref, names_ref, push_cell, ref_valid, TransformError};
use vstd::prelude::*;

verus! {

/// Passes a column through under a header of its own.
pub struct Rename {
    pub header: String,
    pub column: ColumnRef,
}

impl Rename {
    pub open spec fn is_valid(&self, headers: Seq<Seq<char>>) -> bool {
        ref_valid(self.column, headers)
    }

    /// Every position read lies below `width`.
    pub open spec fn fits(&self, width: int) -> bool {
        self.column.index < width
    }

    pub open spec fn header_spec(&self) -> Seq<Seq<char>> {
        seq![self.header@]
    }

    pub open spec fn fields_spec(&self, record: Seq<Seq<char>>) -> Seq<Seq<char>> {
        seq![record[self.column.index as int]]
    }

    pub fn validate(&self, headers: &Vec<String>) -> (r: Result<(), TransformError>)
        ensures
            r is Ok <==> self.is_valid(cells(headers@)),
            r matches Err(e) ==> names_ref(e, self.column),
    {
        check_ref(&self.column, headers)
    }

    pub fn write_headers(&self, out: &mut Vec<String>)
        ensures
            cells(final(out)@) == cells(old(out)@) + self.header_spec(),
    {
        push_cell(out, self.header.clone());
    }

    pub fn write_fields(&self, record: &Vec<String>, out: &mut Vec<String>)
        requires
            self.fits(record@.len() as int),
        ensures
            cells(final(out)@) == cells(old(out)@) + self.fields_spec(cells(record@)),
    {
        push_cell(out, record[self.column.index].clone());
    }
}

} // verus!
