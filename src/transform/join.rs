//! Several columns joined into one.
use crate::column_ref::ColumnRef;
use crate::text::{cells, join, joined, replace, replace_all, trim, trimmed};
use crate::transform::{check_ref, names_ref, push_cell, ref_valid, TransformError};
use vstd::prelude::*;
use vstd::string::StringExecFns;

verus! {

/// One column of a join, with the template its value is written into.
pub struct ValueMap {
    pub column: ColumnRef,
    /// A template whose `{}` stands for the column's value.
    pub format: Option<String>,
}

/// Joins several columns into one.
pub struct Join {
    /// The header of the joined column.
    pub header: String,
    pub columns: Vec<ValueMap>,
    /// The text between two values, `", "` where absent.
    pub sep: Option<String>,
}

/// The placeholder of a template.
pub open spec fn placeholder() -> Seq<char> {
    seq!['{', '}']
}

/// The piece that a non-empty trimmed value `t` becomes.
pub open spec fn render(format: Option<String>, t: Seq<char>) -> Seq<char> {
    match format {
        Some(f) => replace_all(f@, placeholder(), t),
        None => t,
    }
}

/// The pieces of `cols` on `record`: each column's trimmed value, rendered,
/// where it is not empty.
pub open spec fn pieces(cols: Seq<ValueMap>, record: Seq<Seq<char>>) -> Seq<Seq<char>>
    decreases cols.len(),
{
    if cols.len() == 0 {
        seq![]
    } else {
        let prev = pieces(cols.drop_last(), record);
        let vm = cols.last();
        let t = trimmed(record[vm.column.index as int]);
        if t.len() == 0 {
            prev
        } else {
            prev.push(render(vm.format, t))
        }
    }
}

impl Join {
    pub open spec fn is_valid(&self, headers: Seq<Seq<char>>) -> bool {
        forall|i: int| 0 <= i < self.columns@.len() ==> ref_valid(#[trigger] self.columns@[i].column, headers)
    }

    /// Every position read lies below `width`.
    pub open spec fn fits(&self, width: int) -> bool {
        forall|i: int| 0 <= i < self.columns@.len() ==> #[trigger] self.columns@[i].column.index < width
    }

    pub open spec fn sep_spec(&self) -> Seq<char> {
        match self.sep {
            Some(s) => s@,
            None => seq![',', ' '],
        }
    }

    pub open spec fn header_spec(&self) -> Seq<Seq<char>> {
        seq![self.header@]
    }

    pub open spec fn fields_spec(&self, record: Seq<Seq<char>>) -> Seq<Seq<char>> {
        seq![joined(pieces(self.columns@, record), self.sep_spec())]
    }

    /// Checks the references in order and reports the first that does not match.
    pub fn validate(&self, headers: &Vec<String>) -> (r: Result<(), TransformError>)
        ensures
            r is Ok <==> self.is_valid(cells(headers@)),
            r matches Err(e) ==> exists|i: int|
                0 <= i < self.columns@.len() && !ref_valid(self.columns@[i].column, cells(headers@))
                    && names_ref(e, #[trigger] self.columns@[i].column) && forall|j: int|
                    0 <= j < i ==> ref_valid(#[trigger] self.columns@[j].column, cells(headers@)),
    {
        let mut i: usize = 0;
        while i < self.columns.len()
            invariant
                i <= self.columns@.len(),
                forall|j: int| 0 <= j < i ==> ref_valid(#[trigger] self.columns@[j].column, cells(headers@)),
            decreases self.columns@.len() - i,
        {
            let r = check_ref(&self.columns[i].column, headers);
            if r.is_err() {
                return r;
            }
            i = i + 1;
        }
        Ok(())
    }

    pub fn write_headers(&self, out: &mut Vec<String>)
        ensures
            cells(final(out)@) == cells(old(out)@) + self.header_spec(),
    {
        push_cell(out, self.header.clone());
    }

    pub fn write_fields(&self, record: &Vec<String>, out: &mut Vec<String>)
        requires
            self.fits(record@.len() as int),
        ensures
            cells(final(out)@) == cells(old(out)@) + self.fields_spec(cells(record@)),
    {
        let mut values: Vec<String> = Vec::new();
        let mut i: usize = 0;
        proof {
            reveal_strlit("{}");
        }
        while i < self.columns.len()
            invariant
                i <= self.columns@.len(),
                self.fits(record@.len() as int),
                cells(values@) == pieces(self.columns@.take(i as int), cells(record@)),
                "{}"@ == placeholder(),
            decreases self.columns@.len() - i,
        {
            let vm = &self.columns[i];
            assert(self.columns@[i as int].column.index < record@.len());
            let value = trim(record[vm.column.index].as_str());
            assert(self.columns@.take(i + 1).drop_last() =~= self.columns@.take(i as int));
            if !value.is_empty() {
                let piece = match &vm.format {
                    Some(f) => replace(f.as_str(), "{}", value),
                    None => String::from_str(value),
                };
                push_cell(&mut values, piece);
            }
            i = i + 1;
        }
        assert(self.columns@.take(self.columns@.len() as int) =~= self.columns@);
        let joined_text = match &self.sep {
            Some(s) => join(&values, s.as_str()),
            None => {
                proof {
                    reveal_strlit(", ");
                }
                assert(", "@ =~= seq![',', ' ']);
                join(&values, ", ")
            },
        };
        assert(joined_text@ == joined(pieces(self.columns@, cells(record@)), self.sep_spec()));
        push_cell(out, joined_text);
        assert(cells(out@) =~= cells(old(out)@) + self.fields_spec(cells(record@)));
    }
}

} // verus!
