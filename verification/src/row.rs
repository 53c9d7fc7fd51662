//! What the conversion of one row can come to, and the integer columns
//! that both tables share.

use crate::error::{ConvertError, Failure, IntField};
use crate::number::{parse_i32_chars, parsed_i32};
use crate::text::{chars_of, text_of, texts, trim, trimmed};
use vstd::prelude::*;

verus! {

/// Why a row was passed over without a failure.
#[derive(Debug, Clone, Copy, PartialEq, Eq, Structural)]
pub enum SkipReason {
    /// The record has no field.
    Blank,
    /// The first field begins with the comment marker.
    Comment,
    /// A connection id is negative.
    NegativeConnectionId,
}

/// The three ways in which the conversion of one row ends.
#[derive(Debug, Clone, PartialEq, Eq)]
pub enum RowOutcome {
    /// The row was converted to these thirteen fields.
    Emitted(Vec<String>),
    /// The row was passed over.
    Skipped(SkipReason),
    /// The row stops the conversion.
    Fatal(ConvertError),
}

/// The end of the conversion of one row, as plain values.
pub enum Outcome {
    Emitted(Seq<Seq<char>>),
    Skipped(SkipReason),
    Fatal(Failure),
}

impl View for RowOutcome {
    type V = Outcome;

    open spec fn view(&self) -> Outcome {
        match *self {
            RowOutcome::Emitted(fields) => Outcome::Emitted(texts(fields@)),
            RowOutcome::Skipped(reason) => Outcome::Skipped(reason),
            RowOutcome::Fatal(e) => Outcome::Fatal(e@),
        }
    }
}

/// The integer that a column holds once it is trimmed, or the failure that
/// names the column, its trimmed text and the line.
pub open spec fn int_column(value: Seq<char>, field: IntField, line: nat) -> Result<i32, Failure> {
    match parsed_i32(trim(value)) {
        Some(n) => Ok(n),
        None => Err(Failure::BadInteger { field, value: trim(value), line }),
    }
}

/// The first failure among the three integer columns of a row, which stand
/// at the indices 1, 2 and 3, in that order.
pub open spec fn int_columns_failure(fields: Seq<Seq<char>>, line: nat) -> Option<Failure>
    recommends
        fields.len() >= 4,
{
    if int_column(fields[1], IntField::LeftId, line) is Err {
        Some(int_column(fields[1], IntField::LeftId, line)->Err_0)
    } else if int_column(fields[2], IntField::RightId, line) is Err {
        Some(int_column(fields[2], IntField::RightId, line)->Err_0)
    } else if int_column(fields[3], IntField::Cost, line) is Err {
        Some(int_column(fields[3], IntField::Cost, line)->Err_0)
    } else {
        None
    }
}

/// Reads the integer of one column.
pub fn parse_i32(value: &str, field: IntField, line: usize) -> (out: Result<i32, ConvertError>)
    ensures
        out is Ok ==> int_column(value@, field, line as nat) == Ok::<i32, Failure>(out->Ok_0),
        out is Err ==> int_column(value@, field, line as nat) == Err::<i32, Failure>(
            out->Err_0@,
        ),
{
    let t = trimmed(&chars_of(value));
    match parse_i32_chars(&t) {
        Some(n) => Ok(n),
        None => Err(ConvertError::BadInteger { field, value: text_of(&t), line }),
    }
}

} // verus!
