//! A column of date-times read with one pattern and written with another.
use crate::column_ref::ColumnRef;
use crate::text::cells;
use crate::transform::{check_ref, names_ref, push_cell, ref_valid, TransformError};
use chrono::{NaiveDate, NaiveDateTime, NaiveTime};
use std::fmt::Write;
use vstd::prelude::*;

verus! {

/// Whether chrono reads `value` as a date-time under the strftime pattern `from`.
pub uninterp spec fn time_parses(value: Seq<char>, from: Seq<char>) -> bool;

/// The text chrono writes, with the strftime pattern `to`, for the date-time
/// it reads from `value` under `from`; `None` where `to` cannot be written.
pub uninterp spec fn time_text(value: Seq<char>, from: Seq<char>, to: Seq<char>) -> Option<
    Seq<char>,
>;

/// Relies on `NaiveDateTime::parse_from_str` and `NaiveDateTime::format`:
/// `None` where the value is not read; else the formatted text, or `None`
/// inside where the output pattern fails. Both depend on the texts alone.
#[verifier::external_body]
fn reformat_time(value: &str, from: &str, to: &str) -> (r: Option<Option<String>>)
    ensures
        r is Some == time_parses(value@, from@),
        r matches Some(o) ==> (o is Some) == (time_text(value@, from@, to@) is Some),
        r matches Some(Some(s)) ==> s@ == time_text(value@, from@, to@)->Some_0,
{
    match NaiveDateTime::parse_from_str(value, from) {
        Ok(t) => {
            let mut s = String::new();
            match write!(s, "{}", t.format(to)) {
                Ok(()) => Some(Some(s)),
                Err(_) => Some(None),
            }
        },
        Err(_) => None,
    }
}

/// Whether chrono reads `value` as a date under the strftime pattern `from`.
pub uninterp spec fn date_parses(value: Seq<char>, from: Seq<char>) -> bool;

/// The text chrono writes, with the strftime pattern `to`, for midnight of
/// the date it reads from `value` under `from`; `None` where `to` cannot be
/// written.
pub uninterp spec fn date_text(value: Seq<char>, from: Seq<char>, to: Seq<char>) -> Option<
    Seq<char>,
>;

/// Relies on `NaiveDate::parse_from_str`, `NaiveDate::and_time` and
/// `NaiveDateTime::format`: as `reformat_time`, for a date taken at midnight.
#[verifier::external_body]
fn reformat_date(value: &str, from: &str, to: &str) -> (r: Option<Option<String>>)
    ensures
        r is Some == date_parses(value@, from@),
        r matches Some(o) ==> (o is Some) == (date_text(value@, from@, to@) is Some),
        r matches Some(Some(s)) ==> s@ == date_text(value@, from@, to@)->Some_0,
{
    match NaiveDate::parse_from_str(value, from) {
        Ok(d) => {
            let mut s = String::new();
            match write!(s, "{}", d.and_time(NaiveTime::MIN).format(to)) {
                Ok(()) => Some(Some(s)),
                Err(_) => Some(None),
            }
        },
        Err(_) => None,
    }
}

/// Rewrites a date-time column from the pattern `from` to the pattern `to`.
pub struct Timestamp {
    pub column: ColumnRef,
    /// The output header; the column's own header where absent.
    pub header: Option<String>,
    /// The strftime pattern that cells are read with.
    pub from: String,
    /// The strftime pattern that cells are written with.
    pub to: String,
}

impl Timestamp {
    pub open spec fn is_valid(&self, headers: Seq<Seq<char>>) -> bool {
        ref_valid(self.column, headers)
    }

    /// Every position read lies below `width`.
    pub open spec fn fits(&self, width: int) -> bool {
        self.column.index < width
    }

    pub open spec fn header_spec(&self) -> Seq<Seq<char>> {
        match self.header {
            Some(h) => seq![h@],
            None => seq![self.column.header@],
        }
    }

    /// The cell of `record` that this transform reads.
    pub open spec fn input(&self, record: Seq<Seq<char>>) -> Seq<char> {
        record[self.column.index as int]
    }

    /// The cell written for `record`, `None` where it cannot be: read as a
    /// date-time, or else as a date at midnight, and written with `to`.
    pub open spec fn fields_spec(&self, record: Seq<Seq<char>>) -> Option<Seq<Seq<char>>> {
        let v = self.input(record);
        let text = if time_parses(v, self.from@) {
            time_text(v, self.from@, self.to@)
        } else if date_parses(v, self.from@) {
            date_text(v, self.from@, self.to@)
        } else {
            None
        };
        match text {
            Some(t) => Some(seq![t]),
            None => None,
        }
    }

    /// `e` is what writing `record` fails with.
    pub open spec fn refuses(&self, e: TransformError, record: Seq<Seq<char>>) -> bool {
        let v = self.input(record);
        match e {
            TransformError::TimestampParse { value } => !time_parses(v, self.from@) && !date_parses(
                v,
                self.from@,
            ) && value@ == v,
            TransformError::TimestampFormat { pattern } => (time_parses(v, self.from@)
                || date_parses(v, self.from@)) && pattern@ == self.to@,
            _ => false,
        }
    }

    pub fn validate(&self, headers: &Vec<String>) -> (r: Result<(), TransformError>)
        ensures
            r is Ok <==> self.is_valid(cells(headers@)),
            r matches Err(e) ==> names_ref(e, self.column),
    {
        check_ref(&self.column, headers)
    }

    pub fn write_headers(&self, out: &mut Vec<String>)
        ensures
            cells(final(out)@) == cells(old(out)@) + self.header_spec(),
    {
        match &self.header {
            Some(h) => push_cell(out, h.clone()),
            None => push_cell(out, self.column.header.clone()),
        }
    }

    /// Appends the cell rewritten to the output pattern. The cell is read as a
    /// date-time, or else as a date at midnight (a pattern that fixes no
    /// minute therefore reads as a date). Fails, appending nothing, where the
    /// input pattern reads it as neither, or where the output pattern cannot
    /// be written.
    pub fn write_fields(&self, record: &Vec<String>, out: &mut Vec<String>) -> (r: Result<
        (),
        TransformError,
    >)
        requires
            self.fits(record@.len() as int),
        ensures
            r is Ok <==> self.fields_spec(cells(record@)) is Some,
            r is Ok ==> cells(final(out)@) == cells(old(out)@) + self.fields_spec(
                cells(record@),
            )->Some_0,
            r matches Err(e) ==> self.refuses(e, cells(record@)),
            r is Err ==> final(out)@ == old(out)@,
    {
        let value = &record[self.column.index];
        let text = match reformat_time(value.as_str(), self.from.as_str(), self.to.as_str()) {
            Some(t) => Some(t),
            None => reformat_date(value.as_str(), self.from.as_str(), self.to.as_str()),
        };
        match text {
            None => Err(TransformError::TimestampParse { value: value.clone() }),
            Some(None) => Err(TransformError::TimestampFormat { pattern: self.to.clone() }),
            Some(Some(s)) => {
                push_cell(out, s);
                Ok(())
            },
        }
    }
}

} // verus!
