//! Conversion of the fallback entries for unknown words.

use crate::error::{ConvertError, Failure, IntField, Table};
use crate::normalize::{
    cform_canonical, ctype_canonical, is_allowed_cform, is_allowed_ctype, normalize_cform,
    normalize_ctype, normalize_pos, normalized_pos,
};
use crate::record_io::{csv_records, read_records, records_view};
use crate::row::{int_columns_failure, parse_i32, Outcome, RowOutcome, SkipReason};
use crate::rows::{convert_rows, run};
use crate::stats::ConversionStats;
use crate::text::{chars_of, is_comment, starts_comment, texts};
use vstd::prelude::*;

verus! {

/// The thirteen fields that a row of unknown words is converted to: the
/// class name, the three integer columns as they were given, the
/// normalized part of speech, inflection type and form, and the
/// sentinel for base form, reading and pronunciation.
pub open spec fn unk_fields(fields: Seq<Seq<char>>) -> Seq<Seq<char>>
    recommends
        fields.len() >= 10,
{
    let pos = normalized_pos(fields[4]);
    seq![
        fields[0],
        fields[1],
        fields[2],
        fields[3],
        pos[0],
        pos[1],
        pos[2],
        pos[3],
        ctype_canonical(fields[8]),
        cform_canonical(fields[9]),
        "*"@,
        "*"@,
        "*"@,
    ]
}

/// How the conversion of one row of unknown words at `line` ends. The sign
/// of a connection id does not matter here.
pub open spec fn unk_outcome(fields: Seq<Seq<char>>, line: nat) -> Outcome {
    if fields.len() == 0 {
        Outcome::Skipped(SkipReason::Blank)
    } else if is_comment(fields[0]) {
        Outcome::Skipped(SkipReason::Comment)
    } else if fields.len() < 10 {
        Outcome::Fatal(Failure::TooFewColumns { table: Table::Unknown, line, found: fields.len() })
    } else if int_columns_failure(fields, line) is Some {
        Outcome::Fatal(int_columns_failure(fields, line)->Some_0)
    } else {
        Outcome::Emitted(unk_fields(fields))
    }
}

/// A converted row of unknown words has thirteen fields: a part of speech
/// of the target taxonomy, an inflection type and form of the target
/// vocabulary, and the sentinel for base form, reading and
/// pronunciation.
pub proof fn lemma_unk_row_shape(fields: Seq<Seq<char>>, line: nat)
    requires
        unk_outcome(fields, line) is Emitted,
    ensures
        ({
            let row = unk_outcome(fields, line)->Emitted_0;
            &&& row.len() == 13
            &&& row.subrange(4, 8) == normalized_pos(fields[4])
            &&& is_allowed_ctype(row[8])
            &&& is_allowed_cform(row[9])
            &&& row[10] == "*"@
            &&& row[11] == "*"@
            &&& row[12] == "*"@
        }),
{
    let row = unk_fields(fields);
    assert(row.subrange(4, 8) =~= normalized_pos(fields[4]));
}

/// Converts one row of unknown words.
pub fn convert_unk_row(record: &Vec<String>, line: usize) -> (out: RowOutcome)
    ensures
        out@ == unk_outcome(texts(record@), line as nat),
{
    let ghost fields = texts(record@);
    if record.len() == 0 {
        return RowOutcome::Skipped(SkipReason::Blank);
    }
    if starts_comment(&chars_of(record[0].as_str())) {
        return RowOutcome::Skipped(SkipReason::Comment);
    }
    if record.len() < 10 {
        return RowOutcome::Fatal(
            ConvertError::TooFewColumns { table: Table::Unknown, line, found: record.len() },
        );
    }
    match parse_i32(record[1].as_str(), IntField::LeftId, line) {
        Ok(_) => {},
        Err(e) => {
            return RowOutcome::Fatal(e);
        },
    }
    match parse_i32(record[2].as_str(), IntField::RightId, line) {
        Ok(_) => {},
        Err(e) => {
            return RowOutcome::Fatal(e);
        },
    }
    match parse_i32(record[3].as_str(), IntField::Cost, line) {
        Ok(_) => {},
        Err(e) => {
            return RowOutcome::Fatal(e);
        },
    }
    let pos = normalize_pos(record[4].as_str());
    proof {
        assert(texts(pos@)[0] == pos@[0]@);
        assert(texts(pos@)[1] == pos@[1]@);
        assert(texts(pos@)[2] == pos@[2]@);
        assert(texts(pos@)[3] == pos@[3]@);
    }
    let (ctype, _) = normalize_ctype(record[8].as_str());
    let (cform, _) = normalize_cform(record[9].as_str());
    let mut row: Vec<String> = Vec::new();
    row.push(record[0].clone());
    row.push(record[1].clone());
    row.push(record[2].clone());
    row.push(record[3].clone());
    row.push(pos[0].clone());
    row.push(pos[1].clone());
    row.push(pos[2].clone());
    row.push(pos[3].clone());
    row.push(ctype);
    row.push(cform);
    row.push("*".to_owned());
    row.push("*".to_owned());
    row.push("*".to_owned());
    proof {
        assert(texts(row@) =~= unk_fields(fields));
    }
    RowOutcome::Emitted(row)
}

/// Converts the table of unknown words held in `input` and appends the
/// converted rows to `output`, in their order. The conversion stops at the
/// first row that fails, with the rows before it written.
pub fn convert_unknown_dictionary(input: &[u8], output: &mut Vec<u8>) -> (out: Result<
    (),
    ConvertError,
>)
    ensures
        ({
            let end = run(Table::Unknown, csv_records(input@), csv_records(input@).len());
            &&& final(output)@ == old(output)@ + end.bytes
            &&& out is Ok <==> end.failure is None
            &&& out is Err ==> end.failure == Some(out->Err_0@)
        }),
{
    let records = read_records(input);
    let mut unused = ConversionStats::default();
    proof {
        assert(records_view(records@).len() == records@.len());
    }
    convert_rows(Table::Unknown, &records, output, &mut unused)
}

} // verus!
