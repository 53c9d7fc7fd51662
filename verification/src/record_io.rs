//! Reading and writing comma-separated records with the `csv` crate.

use crate::text::texts;
use vstd::prelude::*;

verus! {

/// One item of a parsed input: the fields of a record, or what the reader
/// reported in place of one.
pub type Record = Result<Vec<String>, String>;

/// What the `csv` reader yields for `input`, item by item, when it reads
/// without a header row and accepts records of any length: the fields of
/// each record, or the reader's message where it fails on one.
pub uninterp spec fn csv_records(input: Seq<u8>) -> Seq<Result<Seq<Seq<char>>, Seq<char>>>;

/// What the `csv` writer produces for one record written on its own: the
/// bytes of the line, or the writer's message where it fails.
pub uninterp spec fn csv_record_bytes(fields: Seq<Seq<char>>) -> Result<Seq<u8>, Seq<char>>;

/// A parsed item as plain values.
pub open spec fn record_view(record: Record) -> Result<Seq<Seq<char>>, Seq<char>> {
    match record {
        Ok(fields) => Ok(texts(fields@)),
        Err(detail) => Err(detail@),
    }
}

/// Parsed items as plain values.
pub open spec fn records_view(records: Seq<Record>) -> Seq<Result<Seq<Seq<char>>, Seq<char>>> {
    records.map_values(|r: Record| record_view(r))
}

/// An encoded record as plain values.
pub open spec fn encoded_view(encoded: Result<Vec<u8>, String>) -> Result<Seq<u8>, Seq<char>> {
    match encoded {
        Ok(bytes) => Ok(bytes@),
        Err(detail) => Err(detail@),
    }
}

/// Runs `csv::Reader::into_records` over `input`, with `has_headers(false)`
/// and `flexible(true)`, and collects every item. Nothing is claimed of the
/// items but that they are the ones this reader yields for these bytes.
#[verifier::external_body]
pub(crate) fn read_records(input: &[u8]) -> (records: Vec<Record>)
    ensures
        records_view(records@) == csv_records(input@),
{
    csv::ReaderBuilder::new()
        .has_headers(false)
        .flexible(true)
        .from_reader(input)
        .into_records()
        .map(|item| match item {
            Ok(record) => Ok(record.iter().map(String::from).collect()),
            Err(e) => Err(e.to_string()),
        })
        .collect()
}

/// Writes `fields` with `csv::Writer::write_record` into an empty buffer
/// and takes the buffer back with `into_inner`. Nothing is claimed of the
/// bytes but that they are the ones this writer produces for these fields.
#[verifier::external_body]
pub(crate) fn encode_record(fields: &Vec<String>) -> (encoded: Result<Vec<u8>, String>)
    ensures
        encoded_view(encoded) == csv_record_bytes(texts(fields@)),
{
    let mut writer = csv::WriterBuilder::new().has_headers(false).from_writer(Vec::new());
    match writer.write_record(fields) {
        Ok(()) => match writer.into_inner() {
            Ok(bytes) => Ok(bytes),
            Err(e) => Err(e.to_string()),
        },
        Err(e) => Err(e.to_string()),
    }
}

} // verus!
