//! The failures that stop a conversion, and their messages.

use crate::number::{decimal, decimal_chars};
use crate::text::{append_chars, append_text, chars_of, text_of};
use vstd::prelude::*;

verus! {

/// The two row-oriented tables.
#[derive(Debug, Clone, Copy, PartialEq, Eq, Structural)]
pub enum Table {
    /// The dictionary of known words.
    Lexicon,
    /// The fallback entries for unknown words.
    Unknown,
}

/// The three integer columns of a row.
#[derive(Debug, Clone, Copy, PartialEq, Eq, Structural)]
pub enum IntField {
    /// The left connection id.
    LeftId,
    /// The right connection id.
    RightId,
    /// The cost.
    Cost,
}

/// A failure that stops the conversion of a file.
#[derive(Debug, Clone, PartialEq, Eq)]
pub enum ConvertError {
    /// The row at `line` could not be read as a record; `detail` is what
    /// the reader reported.
    Read { table: Table, line: usize, detail: String },
    /// The row at `line` has `found` columns, fewer than the table needs.
    TooFewColumns { table: Table, line: usize, found: usize },
    /// The column `field` of the row at `line` holds `value`, which is no
    /// 32-bit integer.
    BadInteger { field: IntField, value: String, line: usize },
    /// The converted row for `line` could not be written; `detail` is what
    /// the writer reported.
    Write { table: Table, line: usize, detail: String },
    /// The line at `line` is not valid UTF-8.
    InvalidUtf8 { line: usize },
    /// The counters cannot hold one more row for each record of the input.
    CounterOverflow,
}

/// A failure as plain values.
pub enum Failure {
    Read { table: Table, line: nat, detail: Seq<char> },
    TooFewColumns { table: Table, line: nat, found: nat },
    BadInteger { field: IntField, value: Seq<char>, line: nat },
    Write { table: Table, line: nat, detail: Seq<char> },
    InvalidUtf8 { line: nat },
    CounterOverflow,
}

impl View for ConvertError {
    type V = Failure;

    open spec fn view(&self) -> Failure {
        match *self {
            ConvertError::Read { table, line, detail } => Failure::Read {
                table,
                line: line as nat,
                detail: detail@,
            },
            ConvertError::TooFewColumns { table, line, found } => Failure::TooFewColumns {
                table,
                line: line as nat,
                found: found as nat,
            },
            ConvertError::BadInteger { field, value, line } => Failure::BadInteger {
                field,
                value: value@,
                line: line as nat,
            },
            ConvertError::Write { table, line, detail } => Failure::Write {
                table,
                line: line as nat,
                detail: detail@,
            },
            ConvertError::InvalidUtf8 { line } => Failure::InvalidUtf8 { line: line as nat },
            ConvertError::CounterOverflow => Failure::CounterOverflow,
        }
    }
}

/// The short name of a table, as messages spell it.
pub open spec fn table_name(table: Table) -> Seq<char> {
    match table {
        Table::Lexicon => "lex"@,
        Table::Unknown => "unk"@,
    }
}

/// The least number of columns of a row of `table`.
pub open spec fn min_columns(table: Table) -> nat {
    match table {
        Table::Lexicon => 11,
        Table::Unknown => 10,
    }
}

/// The name of an integer column, as messages spell it.
pub open spec fn field_name(field: IntField) -> Seq<char> {
    match field {
        IntField::LeftId => "left_id"@,
        IntField::RightId => "right_id"@,
        IntField::Cost => "cost"@,
    }
}

/// The message of a failure.
pub open spec fn failure_message(f: Failure) -> Seq<char> {
    match f {
        Failure::Read { table, line, detail } => "failed to read "@ + table_name(table)
            + " row at line "@ + decimal(line),
        Failure::TooFewColumns { table, line, found } => "invalid "@ + table_name(table)
            + " row at line "@ + decimal(line) + ": expected >="@ + decimal(min_columns(table))
            + " columns, got "@ + decimal(found),
        Failure::BadInteger { field, value, line } => "failed to parse "@ + field_name(field)
            + "='"@ + value + "' at line "@ + decimal(line),
        Failure::Write { table, line, detail } => "failed to write "@ + table_name(table)
            + " row at line "@ + decimal(line),
        Failure::InvalidUtf8 { line } => "stream did not contain valid UTF-8"@,
        Failure::CounterOverflow => "too many rows for the counters"@,
    }
}

fn table_text(table: Table) -> (out: &'static str)
    ensures
        out@ == table_name(table),
{
    match table {
        Table::Lexicon => "lex",
        Table::Unknown => "unk",
    }
}

/// The least number of columns of a row of `table`.
pub fn required_columns(table: Table) -> (n: usize)
    ensures
        n == min_columns(table),
{
    match table {
        Table::Lexicon => 11,
        Table::Unknown => 10,
    }
}

fn field_text(field: IntField) -> (out: &'static str)
    ensures
        out@ == field_name(field),
{
    match field {
        IntField::LeftId => "left_id",
        IntField::RightId => "right_id",
        IntField::Cost => "cost",
    }
}

impl ConvertError {
    /// The message of this failure: what went wrong and at which line.
    pub fn message(&self) -> (out: String)
        ensures
            out@ == failure_message(self@),
    {
        let mut v: Vec<char> = Vec::new();
        match self {
            ConvertError::Read { table, line, detail } => {
                append_text(&mut v, "failed to read ");
                append_text(&mut v, table_text(*table));
                append_text(&mut v, " row at line ");
                append_chars(&mut v, &decimal_chars(*line));
            },
            ConvertError::TooFewColumns { table, line, found } => {
                append_text(&mut v, "invalid ");
                append_text(&mut v, table_text(*table));
                append_text(&mut v, " row at line ");
                append_chars(&mut v, &decimal_chars(*line));
                append_text(&mut v, ": expected >=");
                append_chars(&mut v, &decimal_chars(required_columns(*table)));
                append_text(&mut v, " columns, got ");
                append_chars(&mut v, &decimal_chars(*found));
            },
            ConvertError::BadInteger { field, value, line } => {
                append_text(&mut v, "failed to parse ");
                append_text(&mut v, field_text(*field));
                append_text(&mut v, "='");
                append_chars(&mut v, &chars_of(value.as_str()));
                append_text(&mut v, "' at line ");
                append_chars(&mut v, &decimal_chars(*line));
            },
            ConvertError::Write { table, line, detail } => {
                append_text(&mut v, "failed to write ");
                append_text(&mut v, table_text(*table));
                append_text(&mut v, " row at line ");
                append_chars(&mut v, &decimal_chars(*line));
            },
            ConvertError::InvalidUtf8 { line } => {
                append_text(&mut v, "stream did not contain valid UTF-8");
            },
            ConvertError::CounterOverflow => {
                append_text(&mut v, "too many rows for the counters");
            },
        }
        proof {
            assert(v@ =~= failure_message(self@));
        }
        text_of(&v)
    }
}

} // verus!
