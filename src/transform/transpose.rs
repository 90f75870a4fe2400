//! Values of several columns redistributed over new columns keyed by value.
use crate::column_ref::ColumnRef;
use crate::text::cells;
use crate::transform::{check_ref, names_ref, push_cell, ref_valid, TransformError};
use vstd::prelude::*;

verus! {

/// Moves values across columns: each source cell that holds a column's key
/// value puts the source's slot label under that column.
///
/// Where a value stands in several source columns of one record, the first
/// source declared wins. A non-empty source cell that no column is keyed on
/// is an error.
pub struct Transpose {
    /// The source columns, each with the slot label it contributes.
    pub sources: Vec<(ColumnRef, String)>,
    /// The new columns: a header and the key value it collects.
    pub columns: Vec<(String, String)>,
}

/// Some column of `columns` is keyed on `v`.
pub open spec fn key_declared(columns: Seq<(String, String)>, v: Seq<char>) -> bool {
    exists|k: int| 0 <= k < columns.len() && (#[trigger] columns[k]).1@ == v
}

/// The slot label of the first source whose cell in `record` is `key`, or
/// the empty text where there is none.
pub open spec fn slot_for(
    sources: Seq<(ColumnRef, String)>,
    key: Seq<char>,
    record: Seq<Seq<char>>,
) -> Seq<char>
    decreases sources.len(),
{
    if sources.len() == 0 {
        seq![]
    } else if record[sources[0].0.index as int] == key {
        sources[0].1@
    } else {
        slot_for(sources.skip(1), key, record)
    }
}

impl Transpose {
    pub open spec fn refs_valid(&self, headers: Seq<Seq<char>>) -> bool {
        forall|i: int| 0 <= i < self.sources@.len() ==> ref_valid(#[trigger] self.sources@[i].0, headers)
    }

    pub open spec fn keys_nonempty(&self) -> bool {
        forall|k: int| 0 <= k < self.columns@.len() ==> (#[trigger] self.columns@[k]).1@.len() > 0
    }

    pub open spec fn keys_distinct(&self) -> bool {
        forall|i: int, j: int|
            0 <= i < j < self.columns@.len() ==> (#[trigger] self.columns@[i]).1@ != (
            #[trigger] self.columns@[j]).1@
    }

    pub open spec fn is_valid(&self, headers: Seq<Seq<char>>) -> bool {
        self.refs_valid(headers) && self.keys_nonempty() && self.keys_distinct()
    }

    /// Every position read lies below `width`.
    pub open spec fn fits(&self, width: int) -> bool {
        forall|i: int| 0 <= i < self.sources@.len() ==> #[trigger] self.sources@[i].0.index < width
    }

    pub open spec fn header_spec(&self) -> Seq<Seq<char>> {
        Seq::new(self.columns@.len(), |k: int| self.columns@[k].0@)
    }

    /// The cell of source `i` in `record` is empty or some column's key.
    pub open spec fn cell_placed(&self, record: Seq<Seq<char>>, i: int) -> bool {
        let v = record[self.sources@[i].0.index as int];
        v.len() == 0 || key_declared(self.columns@, v)
    }

    pub open spec fn all_placed(&self, record: Seq<Seq<char>>) -> bool {
        forall|i: int| 0 <= i < self.sources@.len() ==> #[trigger] self.cell_placed(record, i)
    }

    /// `e` reports a source cell of `record` that no column is keyed on.
    pub open spec fn refuses(&self, e: TransformError, record: Seq<Seq<char>>) -> bool {
        match e {
            TransformError::UnmatchedValue { header, value } => exists|i: int|
                0 <= i < self.sources@.len() && !#[trigger] self.cell_placed(record, i)
                    && header@ == self.sources@[i].0.header@ && value@ == record[self.sources@[i].0.index as int],
            _ => false,
        }
    }

    pub open spec fn fields_spec(&self, record: Seq<Seq<char>>) -> Seq<Seq<char>> {
        Seq::new(
            self.columns@.len(),
            |k: int| slot_for(self.sources@, self.columns@[k].1@, record),
        )
    }

    /// `e` is what validation reports against `headers`: the first of these
    /// that applies, the first source reference that does not match, a column keyed
    /// on the empty value, two columns keyed on one value.
    pub open spec fn reports(&self, e: TransformError, headers: Seq<Seq<char>>) -> bool {
        match e {
            TransformError::SchemaMismatch { .. } => exists|i: int|
                0 <= i < self.sources@.len() && !ref_valid(self.sources@[i].0, headers) && names_ref(
                    e,
                    #[trigger] self.sources@[i].0,
                ) && forall|j: int| 0 <= j < i ==> ref_valid(#[trigger] self.sources@[j].0, headers),
            TransformError::EmptyKeyValue { header } => self.refs_valid(headers) && exists|k: int|
                0 <= k < self.columns@.len() && (#[trigger] self.columns@[k]).1@.len() == 0
                    && header@ == self.columns@[k].0@,
            TransformError::SharedKeyValue { value, first, second } => self.refs_valid(headers)
                && self.keys_nonempty() && exists|i: int, j: int|
                0 <= i < j < self.columns@.len() && (#[trigger] self.columns@[i]).1@ == value@ && (
                #[trigger] self.columns@[j]).1@ == value@ && first@ == self.columns@[i].0@
                    && second@ == self.columns@[j].0@,
            _ => false,
        }
    }

    /// Checks the source references, then that every key value is non-empty,
    /// then that no two columns share a key value.
    pub fn validate(&self, headers: &Vec<String>) -> (r: Result<(), TransformError>)
        ensures
            r is Ok <==> self.is_valid(cells(headers@)),
            r matches Err(e) ==> self.reports(e, cells(headers@)),
    {
        let mut i: usize = 0;
        while i < self.sources.len()
            invariant
                i <= self.sources@.len(),
                forall|j: int| 0 <= j < i ==> ref_valid(#[trigger] self.sources@[j].0, cells(headers@)),
            decreases self.sources@.len() - i,
        {
            let r = check_ref(&self.sources[i].0, headers);
            if r.is_err() {
                return r;
            }
            i = i + 1;
        }
        let mut k: usize = 0;
        while k < self.columns.len()
            invariant
                k <= self.columns@.len(),
                self.refs_valid(cells(headers@)),
                forall|j: int| 0 <= j < k ==> (#[trigger] self.columns@[j]).1@.len() > 0,
            decreases self.columns@.len() - k,
        {
            if self.columns[k].1.as_str().is_empty() {
                assert(self.columns@[k as int].1@.len() == 0);
                return Err(TransformError::EmptyKeyValue { header: self.columns[k].0.clone() });
            }
            k = k + 1;
        }
        let mut j: usize = 0;
        while j < self.columns.len()
            invariant
                j <= self.columns@.len(),
                self.keys_nonempty(),
                self.refs_valid(cells(headers@)),
                forall|a: int, b: int|
                    0 <= a < b < j ==> (#[trigger] self.columns@[a]).1@ != (
                    #[trigger] self.columns@[b]).1@,
            decreases self.columns@.len() - j,
        {
            let mut a: usize = 0;
            while a < j
                invariant
                    a <= j < self.columns@.len(),
                    self.keys_nonempty(),
                    self.refs_valid(cells(headers@)),
                    forall|c: int| 0 <= c < a ==> (#[trigger] self.columns@[c]).1@ != self.columns@[j as int].1@,
                decreases j - a,
            {
                if self.columns[a].1 == self.columns[j].1 {
                    assert(self.columns@[a as int].1@ == self.columns@[j as int].1@);
                    return Err(
                        TransformError::SharedKeyValue {
                            value: self.columns[j].1.clone(),
                            first: self.columns[a].0.clone(),
                            second: self.columns[j].0.clone(),
                        },
                    );
                }
                a = a + 1;
            }
            j = j + 1;
        }
        Ok(())
    }

    pub fn write_headers(&self, out: &mut Vec<String>)
        ensures
            cells(final(out)@) == cells(old(out)@) + self.header_spec(),
    {
        let mut k: usize = 0;
        while k < self.columns.len()
            invariant
                k <= self.columns@.len(),
                cells(out@) == cells(old(out)@) + self.header_spec().take(k as int),
            decreases self.columns@.len() - k,
        {
            push_cell(out, self.columns[k].0.clone());
            k = k + 1;
            assert(self.header_spec().take(k as int) =~= self.header_spec().take(k - 1).push(
                self.columns@[k - 1].0@,
            ));
        }
        assert(self.header_spec().take(k as int) =~= self.header_spec());
    }

    /// Appends, for each column, the slot label of the first source that holds
    /// its key. Fails, appending nothing, where a non-empty source cell is no
    /// column's key.
    pub fn write_fields(&self, record: &Vec<String>, out: &mut Vec<String>) -> (r: Result<
        (),
        TransformError,
    >)
        requires
            self.fits(record@.len() as int),
        ensures
            r is Ok <==> self.all_placed(cells(record@)),
            r is Ok ==> cells(final(out)@) == cells(old(out)@) + self.fields_spec(cells(record@)),
            r matches Err(e) ==> self.refuses(e, cells(record@)),
            r is Err ==> final(out)@ == old(out)@,
    {
        let mut i: usize = 0;
        while i < self.sources.len()
            invariant
                i <= self.sources@.len(),
                self.fits(record@.len() as int),
                forall|j: int| 0 <= j < i ==> #[trigger] self.cell_placed(cells(record@), j),
            decreases self.sources@.len() - i,
        {
            let src = &self.sources[i].0;
            assert(self.sources@[i as int].0.index < record@.len());
            let value = &record[src.index];
            if !value.as_str().is_empty() {
                let mut k: usize = 0;
                while k < self.columns.len() && self.columns[k].1 != *value
                    invariant
                        k <= self.columns@.len(),
                        forall|c: int| 0 <= c < k ==> (#[trigger] self.columns@[c]).1@ != value@,
                    decreases self.columns@.len() - k,
                {
                    k = k + 1;
                }
                if k == self.columns.len() {
                    assert(!key_declared(self.columns@, value@));
                    assert(!self.cell_placed(cells(record@), i as int));
                    return Err(
                        TransformError::UnmatchedValue {
                            header: src.header.clone(),
                            value: value.clone(),
                        },
                    );
                }
                assert(key_declared(self.columns@, value@));
            }
            assert(self.cell_placed(cells(record@), i as int));
            i = i + 1;
        }
        let mut k: usize = 0;
        while k < self.columns.len()
            invariant
                k <= self.columns@.len(),
                self.fits(record@.len() as int),
                cells(out@) == cells(old(out)@) + self.fields_spec(cells(record@)).take(k as int),
            decreases self.columns@.len() - k,
        {
            let key = &self.columns[k].1;
            let mut s: usize = 0;
            assert(self.sources@.skip(0) =~= self.sources@);
            while s < self.sources.len() && record[self.sources[s].0.index] != *key
                invariant
                    s <= self.sources@.len(),
                    self.fits(record@.len() as int),
                    slot_for(self.sources@, key@, cells(record@)) == slot_for(
                        self.sources@.skip(s as int),
                        key@,
                        cells(record@),
                    ),
                decreases self.sources@.len() - s,
            {
                assert(self.sources@.skip(s as int).skip(1) =~= self.sources@.skip(s + 1));
                s = s + 1;
            }
            let cell = if s < self.sources.len() {
                self.sources[s].1.clone()
            } else {
                String::new()
            };
            assert(cell@ == slot_for(self.sources@, key@, cells(record@)));
            push_cell(out, cell);
            k = k + 1;
            assert(self.fields_spec(cells(record@)).take(k as int) =~= self.fields_spec(
                cells(record@),
            ).take(k - 1).push(slot_for(self.sources@, key@, cells(record@))));
        }
        assert(self.fields_spec(cells(record@)).take(k as int) =~= self.fields_spec(cells(record@)));
        Ok(())
    }
}

} // verus!
