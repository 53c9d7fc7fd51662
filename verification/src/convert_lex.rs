//! Conversion of the dictionary of known words.

use crate::error::{ConvertError, Failure, IntField, Table};
use crate::normalize::{
    cform_canonical, cform_fallback, ctype_canonical, ctype_fallback, is_allowed_cform,
    is_allowed_ctype, normalize_cform, normalize_ctype, normalize_pos, normalize_text_or_star,
    normalized_pos, text_or_star,
};
use crate::number::parsed_i32;
use crate::record_io::{csv_records, read_records, records_view};
use crate::row::{int_column, int_columns_failure, parse_i32, Outcome, RowOutcome, SkipReason};
use crate::rows::{convert_rows, run};
use crate::stats::{ConversionStats, Tally};
use crate::text::{texts, trim};
use vstd::prelude::*;

verus! {

/// The field at `index`, or the empty text where the record is shorter.
pub open spec fn field_or_empty(fields: Seq<Seq<char>>, index: int) -> Seq<char> {
    if 0 <= index < fields.len() {
        fields[index]
    } else {
        Seq::empty()
    }
}

/// Whether a lexicon row is dropped for a negative connection id: it has
/// its columns, all three integers can be read, and the left or the right
/// connection id is below zero.
pub open spec fn lex_drops(fields: Seq<Seq<char>>) -> bool {
    &&& fields.len() >= 11
    &&& int_columns_failure(fields, 0) is None
    &&& (int_column(fields[1], IntField::LeftId, 0)->Ok_0 < 0 || int_column(
        fields[2],
        IntField::RightId,
        0,
    )->Ok_0 < 0)
}

/// Whether a lexicon row is converted: it has its columns, all three
/// integers can be read, and neither connection id is negative.
pub open spec fn lex_converts(fields: Seq<Seq<char>>) -> bool {
    &&& fields.len() >= 11
    &&& int_columns_failure(fields, 0) is None
    &&& !lex_drops(fields)
}

/// The four part-of-speech levels of a lexicon row as they were given,
/// each trimmed or replaced by the sentinel.
pub open spec fn lex_given_pos(fields: Seq<Seq<char>>) -> Seq<Seq<char>>
    recommends
        fields.len() >= 11,
{
    seq![
        text_or_star(fields[5]),
        text_or_star(fields[6]),
        text_or_star(fields[7]),
        text_or_star(fields[8]),
    ]
}

/// The thirteen fields that a lexicon row is converted to: surface, the
/// three integer columns as they were given, the normalized part of speech,
/// inflection type and form, the base form, and the reading twice.
pub open spec fn lex_fields(fields: Seq<Seq<char>>) -> Seq<Seq<char>>
    recommends
        fields.len() >= 11,
{
    let pos = normalized_pos(fields[5]);
    let reading = text_or_star(field_or_empty(fields, 11));
    seq![
        fields[0],
        fields[1],
        fields[2],
        fields[3],
        pos[0],
        pos[1],
        pos[2],
        pos[3],
        ctype_canonical(fields[9]),
        cform_canonical(fields[10]),
        text_or_star(fields[4]),
        reading,
        reading,
    ]
}

/// How the conversion of one lexicon row at `line` ends.
pub open spec fn lex_outcome(fields: Seq<Seq<char>>, line: nat) -> Outcome {
    if fields.len() == 0 {
        Outcome::Skipped(SkipReason::Blank)
    } else if fields.len() < 11 {
        Outcome::Fatal(Failure::TooFewColumns { table: Table::Lexicon, line, found: fields.len() })
    } else if int_columns_failure(fields, line) is Some {
        Outcome::Fatal(int_columns_failure(fields, line)->Some_0)
    } else if lex_drops(fields) {
        Outcome::Skipped(SkipReason::NegativeConnectionId)
    } else {
        Outcome::Emitted(lex_fields(fields))
    }
}

/// What one lexicon row adds to the counters before it is written: one
/// dropped row, or one for each normalization that changed or gave up a
/// value.
pub open spec fn lex_tally(fields: Seq<Seq<char>>) -> Tally {
    if lex_drops(fields) {
        Tally {
            written: 0,
            skipped_negative_conn_ids: 1,
            normalized_pos_rows: 0,
            fallback_ctype_rows: 0,
            fallback_cform_rows: 0,
        }
    } else if lex_converts(fields) {
        Tally {
            written: 0,
            skipped_negative_conn_ids: 0,
            normalized_pos_rows: if lex_given_pos(fields) != normalized_pos(fields[5]) {
                1
            } else {
                0
            },
            fallback_ctype_rows: if ctype_fallback(fields[9]) {
                1
            } else {
                0
            },
            fallback_cform_rows: if cform_fallback(fields[10]) {
                1
            } else {
                0
            },
        }
    } else {
        Tally::zero()
    }
}

/// The failure of an integer column does not depend on the line but for
/// the line that it names.
pub proof fn lemma_int_columns_any_line(fields: Seq<Seq<char>>, a: nat, b: nat)
    ensures
        int_columns_failure(fields, a) is None <==> int_columns_failure(fields, b) is None,
        int_column(fields[1], IntField::LeftId, a) is Ok ==> int_column(
            fields[1],
            IntField::LeftId,
            a,
        ) == int_column(fields[1], IntField::LeftId, b),
        int_column(fields[2], IntField::RightId, a) is Ok ==> int_column(
            fields[2],
            IntField::RightId,
            a,
        ) == int_column(fields[2], IntField::RightId, b),
{
}

/// A converted lexicon row has thirteen fields: connection ids that are
/// not negative, a part of speech of the target taxonomy, an inflection
/// type and form of the target vocabulary, and its reading twice.
pub proof fn lemma_lex_row_shape(fields: Seq<Seq<char>>, line: nat)
    requires
        lex_outcome(fields, line) is Emitted,
    ensures
        ({
            let row = lex_outcome(fields, line)->Emitted_0;
            &&& row.len() == 13
            &&& parsed_i32(trim(row[1])) is Some
            &&& parsed_i32(trim(row[1]))->Some_0 >= 0
            &&& parsed_i32(trim(row[2])) is Some
            &&& parsed_i32(trim(row[2]))->Some_0 >= 0
            &&& row.subrange(4, 8) == normalized_pos(fields[5])
            &&& is_allowed_ctype(row[8])
            &&& is_allowed_cform(row[9])
            &&& row[12] == row[11]
        }),
{
    lemma_int_columns_any_line(fields, line, 0);
    let row = lex_fields(fields);
    assert(row.subrange(4, 8) =~= normalized_pos(fields[5]));
}

/// Converts one lexicon row and counts what its normalization did. The
/// counter of written rows is left to the caller, who writes the row.
pub fn convert_lex_row(record: &Vec<String>, line: usize, stats: &mut ConversionStats) -> (out:
    RowOutcome)
    requires
        old(stats).has_room(1),
    ensures
        out@ == lex_outcome(texts(record@), line as nat),
        final(stats)@ == old(stats)@.plus(lex_tally(texts(record@))),
{
    let ghost fields = texts(record@);
    proof {
        lemma_int_columns_any_line(fields, line as nat, 0);
        assert(old(stats)@.plus(Tally::zero()) == old(stats)@);
    }
    if record.len() == 0 {
        return RowOutcome::Skipped(SkipReason::Blank);
    }
    if record.len() < 11 {
        return RowOutcome::Fatal(
            ConvertError::TooFewColumns { table: Table::Lexicon, line, found: record.len() },
        );
    }
    let left = match parse_i32(record[1].as_str(), IntField::LeftId, line) {
        Ok(n) => n,
        Err(e) => {
            return RowOutcome::Fatal(e);
        },
    };
    let right = match parse_i32(record[2].as_str(), IntField::RightId, line) {
        Ok(n) => n,
        Err(e) => {
            return RowOutcome::Fatal(e);
        },
    };
    match parse_i32(record[3].as_str(), IntField::Cost, line) {
        Ok(_) => {},
        Err(e) => {
            return RowOutcome::Fatal(e);
        },
    }
    if left < 0 || right < 0 {
        stats.skipped_negative_conn_ids += 1;
        return RowOutcome::Skipped(SkipReason::NegativeConnectionId);
    }
    let pos = normalize_pos(record[5].as_str());
    let given0 = normalize_text_or_star(record[5].as_str());
    let given1 = normalize_text_or_star(record[6].as_str());
    let given2 = normalize_text_or_star(record[7].as_str());
    let given3 = normalize_text_or_star(record[8].as_str());
    proof {
        assert(texts(pos@)[0] == pos@[0]@);
        assert(texts(pos@)[1] == pos@[1]@);
        assert(texts(pos@)[2] == pos@[2]@);
        assert(texts(pos@)[3] == pos@[3]@);
        assert(texts(pos@).len() == 4);
    }
    let same_pos = given0 == pos[0] && given1 == pos[1] && given2 == pos[2] && given3 == pos[3];
    proof {
        if same_pos {
            assert(lex_given_pos(fields) =~= normalized_pos(fields[5]));
        }
    }
    if !same_pos {
        stats.normalized_pos_rows += 1;
    }
    let (ctype, ctype_gave_up) = normalize_ctype(record[9].as_str());
    if ctype_gave_up {
        stats.fallback_ctype_rows += 1;
    }
    let (cform, cform_gave_up) = normalize_cform(record[10].as_str());
    if cform_gave_up {
        stats.fallback_cform_rows += 1;
    }
    let base = normalize_text_or_star(record[4].as_str());
    let reading = if record.len() > 11 {
        normalize_text_or_star(record[11].as_str())
    } else {
        normalize_text_or_star("")
    };
    proof {
        reveal_strlit("");
        assert(""@ =~= Seq::<char>::empty());
    }
    let pronunciation = reading.clone();
    let mut row: Vec<String> = Vec::new();
    row.push(record[0].clone());
    row.push(record[1].clone());
    row.push(record[2].clone());
    row.push(record[3].clone());
    row.push(pos[0].clone());
    row.push(pos[1].clone());
    row.push(pos[2].clone());
    row.push(pos[3].clone());
    row.push(ctype);
    row.push(cform);
    row.push(base);
    row.push(reading);
    row.push(pronunciation);
    proof {
        assert(texts(row@) =~= lex_fields(fields));
    }
    RowOutcome::Emitted(row)
}

/// Converts the lexicon held in `input` and appends the converted rows to
/// `output`, in their order; `stats` counts what was written, dropped and
/// normalized. The conversion stops at the first row that fails, with the
/// rows before it written and counted. Where the counters could not hold
/// one more row for every record of the input, nothing is converted.
pub fn convert_lexicon(input: &[u8], output: &mut Vec<u8>, stats: &mut ConversionStats) -> (out:
    Result<(), ConvertError>)
    ensures
        !old(stats).has_room(csv_records(input@).len()) ==> {
            &&& out is Err
            &&& out->Err_0@ == Failure::CounterOverflow
            &&& final(output)@ == old(output)@
            &&& *final(stats) == *old(stats)
        },
        old(stats).has_room(csv_records(input@).len()) ==> {
            let end = run(Table::Lexicon, csv_records(input@), csv_records(input@).len());
            &&& final(output)@ == old(output)@ + end.bytes
            &&& final(stats)@ == old(stats)@.plus(end.tally)
            &&& out is Ok <==> end.failure is None
            &&& out is Err ==> end.failure == Some(out->Err_0@)
        },
{
    let records = read_records(input);
    proof {
        assert(records_view(records@).len() == records@.len());
    }
    if !stats.can_count(records.len()) {
        return Err(ConvertError::CounterOverflow);
    }
    convert_rows(Table::Lexicon, &records, output, stats)
}

} // verus!
