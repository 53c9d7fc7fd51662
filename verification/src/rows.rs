//! The pass over the parsed records of a table: row by row, in order, up
//! to the first failure.

use crate::convert_lex::{convert_lex_row, lemma_int_columns_any_line, lex_outcome, lex_tally};
use crate::convert_unk::{convert_unk_row, unk_outcome};
use crate::error::{ConvertError, Failure, Table};
use crate::number::parsed_i32;
use crate::record_io::{csv_record_bytes, encode_record, record_view, records_view, Record};
use crate::row::{Outcome, RowOutcome, SkipReason};
use crate::stats::{ConversionStats, Tally};
use crate::text::{append_slice, texts, trim};
use vstd::prelude::*;

verus! {

/// What a pass has come to: the bytes written, the rows counted, and the
/// failure that stopped it, if any.
pub struct Pass {
    pub bytes: Seq<u8>,
    pub tally: Tally,
    pub failure: Option<Failure>,
}

/// How the conversion of one row of `table` at `line` ends.
pub open spec fn row_outcome(table: Table, fields: Seq<Seq<char>>, line: nat) -> Outcome {
    match table {
        Table::Lexicon => lex_outcome(fields, line),
        Table::Unknown => unk_outcome(fields, line),
    }
}

/// What one row of `table` adds to the counters before it is written.
/// Rows of unknown words are not counted.
pub open spec fn row_tally(table: Table, fields: Seq<Seq<char>>) -> Tally {
    match table {
        Table::Lexicon => lex_tally(fields),
        Table::Unknown => Tally::zero(),
    }
}

/// One written row.
pub open spec fn one_written() -> Tally {
    Tally {
        written: 1,
        skipped_negative_conn_ids: 0,
        normalized_pos_rows: 0,
        fallback_ctype_rows: 0,
        fallback_cform_rows: 0,
    }
}

/// The pass after one more item, which is the item number `line` of the
/// input. An item that could not be read stops the pass, and so does a
/// fatal row and a row that cannot be written. A skipped row leaves the
/// bytes as they are. A converted row adds its encoding to the bytes and,
/// in the lexicon, one written row to the counters.
pub open spec fn step(
    table: Table,
    before: Pass,
    item: Result<Seq<Seq<char>>, Seq<char>>,
    line: nat,
) -> Pass {
    match item {
        Err(detail) => Pass { failure: Some(Failure::Read { table, line, detail }), ..before },
        Ok(fields) => {
            let counted = before.tally.plus(row_tally(table, fields));
            match row_outcome(table, fields, line) {
                Outcome::Fatal(f) => Pass { failure: Some(f), ..before },
                Outcome::Skipped(_) => Pass { tally: counted, ..before },
                Outcome::Emitted(row) => match csv_record_bytes(row) {
                    Ok(encoded) => Pass {
                        bytes: before.bytes + encoded,
                        tally: match table {
                            Table::Lexicon => counted.plus(one_written()),
                            Table::Unknown => counted,
                        },
                        failure: None,
                    },
                    Err(detail) => Pass {
                        bytes: before.bytes,
                        tally: counted,
                        failure: Some(Failure::Write { table, line, detail }),
                    },
                },
            }
        },
    }
}

/// The pass over the first `k` items: each item is taken in turn, with its
/// position from one as its line, until one stops the pass.
pub open spec fn run(table: Table, items: Seq<Result<Seq<Seq<char>>, Seq<char>>>, k: nat) -> Pass
    recommends
        k <= items.len(),
    decreases k,
{
    if k == 0 {
        Pass { bytes: Seq::empty(), tally: Tally::zero(), failure: None }
    } else {
        let before = run(table, items, (k - 1) as nat);
        if before.failure is Some {
            before
        } else {
            step(table, before, items[k - 1], k)
        }
    }
}

/// A pass that has failed stays as it is.
pub proof fn lemma_run_stays_failed(
    table: Table,
    items: Seq<Result<Seq<Seq<char>>, Seq<char>>>,
    j: nat,
    k: nat,
)
    requires
        j <= k,
        run(table, items, j).failure is Some,
    ensures
        run(table, items, k) == run(table, items, j),
    decreases k,
{
    if j < k {
        lemma_run_stays_failed(table, items, j, (k - 1) as nat);
    }
}

/// A pass over `k` items counts no more than `k` rows of any kind.
pub proof fn lemma_run_tally_bounded(
    table: Table,
    items: Seq<Result<Seq<Seq<char>>, Seq<char>>>,
    k: nat,
)
    ensures
        run(table, items, k).tally.within(k),
    decreases k,
{
    if k > 0 {
        lemma_run_tally_bounded(table, items, (k - 1) as nat);
    }
}

/// Converts one row of `table`.
fn convert_row(table: Table, record: &Vec<String>, line: usize, stats: &mut ConversionStats) -> (out:
    RowOutcome)
    requires
        old(stats).has_room(1),
    ensures
        out@ == row_outcome(table, texts(record@), line as nat),
        final(stats)@ == old(stats)@.plus(row_tally(table, texts(record@))),
{
    match table {
        Table::Lexicon => convert_lex_row(record, line, stats),
        Table::Unknown => {
            proof {
                assert(stats@.plus(Tally::zero()) == stats@);
            }
            convert_unk_row(record, line)
        },
    }
}

/// One row dropped for a negative connection id.
pub open spec fn one_dropped() -> Tally {
    Tally {
        written: 0,
        skipped_negative_conn_ids: 1,
        normalized_pos_rows: 0,
        fallback_ctype_rows: 0,
        fallback_cform_rows: 0,
    }
}

/// A lexicon row whose left or right connection id is negative is not
/// written, does not stop the pass, and adds exactly one to the counter of
/// dropped rows and nothing to the others. This is said of rows that have
/// their eleven columns and three readable integers; any other row stops
/// the pass before the sign is looked at.
pub proof fn lemma_negative_row_is_dropped(before: Pass, fields: Seq<Seq<char>>, line: nat)
    requires
        before.failure is None,
        fields.len() >= 11,
        parsed_i32(trim(fields[1])) is Some,
        parsed_i32(trim(fields[2])) is Some,
        parsed_i32(trim(fields[3])) is Some,
        parsed_i32(trim(fields[1]))->Some_0 < 0 || parsed_i32(trim(fields[2]))->Some_0 < 0,
    ensures
        row_outcome(Table::Lexicon, fields, line) == Outcome::Skipped(
            SkipReason::NegativeConnectionId,
        ),
        step(Table::Lexicon, before, Ok(fields), line).bytes == before.bytes,
        step(Table::Lexicon, before, Ok(fields), line).tally == before.tally.plus(one_dropped()),
        step(Table::Lexicon, before, Ok(fields), line).failure is None,
{
    lemma_int_columns_any_line(fields, line, 0);
}

/// A pass that starts from bytes and counts of its own takes the same
/// step, on top of them.
pub proof fn lemma_step_on_top(
    table: Table,
    bytes: Seq<u8>,
    tally: Tally,
    before: Pass,
    item: Result<Seq<Seq<char>>, Seq<char>>,
    line: nat,
)
    requires
        before.failure is None,
    ensures
        step(
            table,
            Pass { bytes: bytes + before.bytes, tally: tally.plus(before.tally), failure: None },
            item,
            line,
        ) == (Pass {
            bytes: bytes + step(table, before, item, line).bytes,
            tally: tally.plus(step(table, before, item, line).tally),
            failure: step(table, before, item, line).failure,
        }),
{
    let lifted = Pass {
        bytes: bytes + before.bytes,
        tally: tally.plus(before.tally),
        failure: None,
    };
    let low = step(table, before, item, line);
    let high = step(table, lifted, item, line);
    assert(high.failure == low.failure);
    assert(high.tally == tally.plus(low.tally));
    assert(high.bytes =~= bytes + low.bytes);
}

/// Takes one item of the input: converts its row, appends the encoding of
/// a converted row to `output`, and counts.
fn convert_item(
    table: Table,
    item: &Record,
    line: usize,
    output: &mut Vec<u8>,
    stats: &mut ConversionStats,
) -> (out: Result<(), ConvertError>)
    requires
        old(stats).has_room(1),
    ensures
        ({
            let before = Pass { bytes: old(output)@, tally: old(stats)@, failure: None };
            let after = step(table, before, record_view(*item), line as nat);
            &&& final(output)@ == after.bytes
            &&& final(stats)@ == after.tally
            &&& out is Ok <==> after.failure is None
            &&& out is Err ==> after.failure == Some(out->Err_0@)
        }),
{
    match item {
        Err(detail) => Err(ConvertError::Read { table, line, detail: detail.clone() }),
        Ok(record) => {
            let outcome = convert_row(table, record, line, stats);
            match outcome {
                RowOutcome::Fatal(e) => Err(e),
                RowOutcome::Skipped(_) => Ok(()),
                RowOutcome::Emitted(row) => {
                    match encode_record(&row) {
                        Ok(encoded) => {
                            append_slice(output, encoded.as_slice());
                            match table {
                                Table::Lexicon => {
                                    stats.written += 1;
                                },
                                Table::Unknown => {},
                            }
                            Ok(())
                        },
                        Err(detail) => Err(ConvertError::Write { table, line, detail }),
                    }
                },
            }
        },
    }
}

/// Converts the parsed records of `table` in order and appends the
/// encoding of each converted row to `output`. The pass stops at the first
/// item that could not be read, the first fatal row, or the first row that
/// cannot be written; what was written and counted before stays.
pub fn convert_rows(
    table: Table,
    records: &Vec<Record>,
    output: &mut Vec<u8>,
    stats: &mut ConversionStats,
) -> (out: Result<(), ConvertError>)
    requires
        old(stats).has_room(records@.len()),
    ensures
        ({
            let end = run(table, records_view(records@), records@.len());
            &&& final(output)@ == old(output)@ + end.bytes
            &&& final(stats)@ == old(stats)@.plus(end.tally)
            &&& out is Ok <==> end.failure is None
            &&& out is Err ==> end.failure == Some(out->Err_0@)
        }),
{
    let ghost items = records_view(records@);
    let ghost bytes0 = output@;
    let ghost stats0 = stats@;
    let n: usize = records.len();
    let mut i: usize = 0;
    proof {
        assert(bytes0 + Seq::<u8>::empty() =~= bytes0);
        assert(stats0.plus(Tally::zero()) == stats0);
    }
    while i < n
        invariant
            n == records@.len(),
            i <= n,
            items == records_view(records@),
            bytes0 == old(output)@,
            stats0 == old(stats)@,
            old(stats).has_room(n as nat),
            run(table, items, i as nat).failure is None,
            output@ == bytes0 + run(table, items, i as nat).bytes,
            stats@ == stats0.plus(run(table, items, i as nat).tally),
        decreases n - i,
    {
        let ghost before = run(table, items, i as nat);
        let line: usize = i + 1;
        proof {
            lemma_run_tally_bounded(table, items, i as nat);
            assert(items[i as int] == record_view(records@[i as int]));
            assert(run(table, items, (i + 1) as nat) == step(
                table,
                before,
                items[i as int],
                line as nat,
            ));
            lemma_step_on_top(table, bytes0, stats0, before, items[i as int], line as nat);
        }
        match convert_item(table, &records[i], line, output, stats) {
            Ok(()) => {},
            Err(e) => {
                proof {
                    lemma_run_stays_failed(table, items, (i + 1) as nat, n as nat);
                }
                return Err(e);
            },
        }
        i += 1;
    }
    Ok(())
}

} // verus!
