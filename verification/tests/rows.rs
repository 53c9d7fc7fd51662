use sudachi_vibrato_converter::convert_lex::convert_lex_row;
use sudachi_vibrato_converter::convert_unk::convert_unk_row;
use sudachi_vibrato_converter::error::{IntField, Table};
use sudachi_vibrato_converter::row::{RowOutcome, SkipReason};
use sudachi_vibrato_converter::rows::convert_rows;
use sudachi_vibrato_converter::{
    convert_lexicon, convert_unknown_dictionary, ConversionStats, ConvertError,
};

fn record(fields: &[&str]) -> Vec<String> {
    fields.iter().map(|f| f.to_string()).collect()
}

fn lex(input: &str) -> (Result<(), ConvertError>, String, ConversionStats) {
    let mut output = Vec::new();
    let mut stats = ConversionStats::default();
    let result = convert_lexicon(input.as_bytes(), &mut output, &mut stats);
    (result, String::from_utf8(output).expect("the output is UTF-8"), stats)
}

fn unk(input: &str) -> (Result<(), ConvertError>, String) {
    let mut output = Vec::new();
    let result = convert_unknown_dictionary(input.as_bytes(), &mut output);
    (result, String::from_utf8(output).expect("the output is UTF-8"))
}

#[test]
fn lex_row_is_written_in_the_target_layout() {
    let (result, output, stats) =
        lex("語,1,2,3,原形,動詞,普通,*,*,五段-ワア行,終止形-一般,ヨミ,余剰\n");
    assert_eq!(result, Ok(()));
    assert_eq!(output, "語,1,2,3,動詞,自立,*,*,五段・ワ行ウ音便,基本形,原形,ヨミ,ヨミ\n");
    assert_eq!(
        stats,
        ConversionStats {
            written: 1,
            skipped_negative_conn_ids: 0,
            normalized_pos_rows: 1,
            fallback_ctype_rows: 0,
            fallback_cform_rows: 0,
        }
    );
}

#[test]
fn lex_counts_fallbacks_and_unchanged_pos() {
    let (result, output, stats) = lex(
        "犬,1,1,10,犬,名詞,一般,*,*,*,*,イヌ\n走る,2,2,20,走る,動詞,自立,*,*,謎の型,謎の形,ハシル\n",
    );
    assert_eq!(result, Ok(()));
    assert_eq!(
        output,
        "犬,1,1,10,名詞,一般,*,*,*,*,犬,イヌ,イヌ\n走る,2,2,20,動詞,自立,*,*,*,*,走る,ハシル,ハシル\n"
    );
    assert_eq!(stats.written, 2);
    assert_eq!(stats.normalized_pos_rows, 0);
    assert_eq!(stats.fallback_ctype_rows, 1);
    assert_eq!(stats.fallback_cform_rows, 1);
    assert_eq!(stats.skipped_negative_conn_ids, 0);
}

#[test]
fn lex_quotes_fields_on_the_way_out() {
    let (result, output, _) = lex("\"a,b\",1,2,3,\"q\"\"r\",名詞,一般,*,*,*,*,ヨミ\n");
    assert_eq!(result, Ok(()));
    assert_eq!(output, "\"a,b\",1,2,3,名詞,一般,*,*,*,*,\"q\"\"r\",ヨミ,ヨミ\n");
}

#[test]
fn lex_keeps_integer_columns_as_given() {
    let (result, output, _) = lex("x, 1 ,+2,-3,x,名詞,一般,*,*,*,*,ヨミ\n");
    assert_eq!(result, Ok(()));
    assert_eq!(output, "x, 1 ,+2,-3,名詞,一般,*,*,*,*,x,ヨミ,ヨミ\n");
}

#[test]
fn lex_drops_each_negative_row_and_counts_it() {
    let (result, output, stats) = lex(
        "a,-1,0,1,a,名詞,一般,*,*,*,*\nb,0,-7,1,b,名詞,一般,*,*,*,*\nc,-2147483648,-1,1,c,名詞,一般,*,*,*,*\nd,0,0,-5,d,名詞,一般,*,*,*,*\n",
    );
    assert_eq!(result, Ok(()));
    assert_eq!(output, "d,0,0,-5,名詞,一般,*,*,*,*,d,*,*\n");
    assert_eq!(stats.skipped_negative_conn_ids, 3);
    assert_eq!(stats.written, 1);
    assert_eq!(stats.normalized_pos_rows, 0);
}

#[test]
fn lex_negative_row_with_unreadable_cost_is_fatal() {
    let (result, output, stats) = lex("a,-1,0,abc,a,名詞,一般,*,*,*,*\n");
    assert_eq!(
        result,
        Err(ConvertError::BadInteger { field: IntField::Cost, value: "abc".to_string(), line: 1 })
    );
    assert_eq!(output, "");
    assert_eq!(stats, ConversionStats::default());
}

#[test]
fn lex_row_with_too_few_columns_is_fatal() {
    let (result, output, stats) =
        lex("犬,1,1,10,犬,名詞,一般,*,*,*,*,イヌ\n猫,1,1,10,猫,名詞,一般,*,*,*\n犬,1,1,10,犬,名詞,一般,*,*,*,*,イヌ\n");
    let error = result.expect_err("the second row is short");
    assert_eq!(error, ConvertError::TooFewColumns { table: Table::Lexicon, line: 2, found: 10 });
    assert_eq!(error.message(), "invalid lex row at line 2: expected >=11 columns, got 10");
    assert_eq!(output, "犬,1,1,10,名詞,一般,*,*,*,*,犬,イヌ,イヌ\n");
    assert_eq!(stats.written, 1);
}

#[test]
fn lex_unreadable_integers_are_fatal() {
    let (result, _, _) = lex("x,１,2,3,x,名詞,一般,*,*,*,*\n");
    let error = result.expect_err("a full-width digit is no digit");
    assert_eq!(
        error,
        ConvertError::BadInteger { field: IntField::LeftId, value: "１".to_string(), line: 1 }
    );
    assert_eq!(error.message(), "failed to parse left_id='１' at line 1");

    let (result, _, _) = lex("x,1, 2147483648 ,3,x,名詞,一般,*,*,*,*\n");
    let error = result.expect_err("the value does not fit");
    assert_eq!(error.message(), "failed to parse right_id='2147483648' at line 1");

    let (result, _, _) = lex("x,1,2,,x,名詞,一般,*,*,*,*\n");
    assert_eq!(result.expect_err("empty").message(), "failed to parse cost='' at line 1");

    for bad in ["-", "+", "1_000", "0x10", "1.0", "--1", "1 2", "-2147483649"] {
        let (result, _, _) = lex(&format!("x,{bad},2,3,x,名詞,一般,*,*,*,*\n"));
        assert!(matches!(result, Err(ConvertError::BadInteger { field: IntField::LeftId, .. })));
    }
    for good in ["0", "-0", "+0", "007", "2147483647", "+2147483647"] {
        let (result, _, stats) = lex(&format!("x,{good},2,3,x,名詞,一般,*,*,*,*\n"));
        assert_eq!(result, Ok(()));
        assert_eq!(stats.written, 1);
    }
    let (result, _, stats) = lex("x,-2147483648,2,3,x,名詞,一般,*,*,*,*\n");
    assert_eq!(result, Ok(()));
    assert_eq!(stats.skipped_negative_conn_ids, 1);
}

#[test]
fn lex_row_that_cannot_be_read_is_fatal() {
    let mut input = Vec::new();
    input.extend_from_slice("犬,1,1,10,犬,名詞,一般,*,*,*,*,イヌ\n".as_bytes());
    input.extend_from_slice(b"x,1,2,3,\xff,a,b,c,d,e,f\n");
    let mut output = Vec::new();
    let mut stats = ConversionStats::default();
    let error = convert_lexicon(&input, &mut output, &mut stats).expect_err("not UTF-8");
    assert!(matches!(error, ConvertError::Read { table: Table::Lexicon, line: 2, .. }));
    assert_eq!(error.message(), "failed to read lex row at line 2");
    assert_eq!(stats.written, 1);
    assert_eq!(
        String::from_utf8(output).expect("the output is UTF-8"),
        "犬,1,1,10,名詞,一般,*,*,*,*,犬,イヌ,イヌ\n"
    );
}

#[test]
fn lex_refuses_to_overflow_the_counters() {
    let mut output = Vec::new();
    let mut stats = ConversionStats { written: usize::MAX, ..ConversionStats::default() };
    let before = stats.clone();
    let result =
        convert_lexicon("犬,1,1,10,犬,名詞,一般,*,*,*,*,イヌ\n".as_bytes(), &mut output, &mut stats);
    assert_eq!(result, Err(ConvertError::CounterOverflow));
    assert!(output.is_empty());
    assert_eq!(stats, before);
}

#[test]
fn lex_appends_and_accumulates() {
    let mut output = b"head\n".to_vec();
    let mut stats = ConversionStats { written: 4, ..ConversionStats::default() };
    let result =
        convert_lexicon("犬,1,1,10,犬,名詞,一般,*,*,*,*,イヌ\n".as_bytes(), &mut output, &mut stats);
    assert_eq!(result, Ok(()));
    assert_eq!(stats.written, 5);
    assert_eq!(
        String::from_utf8(output).expect("the output is UTF-8"),
        "head\n犬,1,1,10,名詞,一般,*,*,*,*,犬,イヌ,イヌ\n"
    );
}

#[test]
fn lex_of_nothing_writes_nothing() {
    let (result, output, stats) = lex("");
    assert_eq!(result, Ok(()));
    assert_eq!(output, "");
    assert_eq!(stats, ConversionStats::default());
    let (result, output, _) = lex("\n\n");
    assert_eq!(result, Ok(()));
    assert_eq!(output, "");
}

#[test]
fn lex_row_outcomes() {
    let mut stats = ConversionStats::default();
    assert_eq!(convert_lex_row(&record(&[]), 1, &mut stats), RowOutcome::Skipped(SkipReason::Blank));
    assert_eq!(
        convert_lex_row(&record(&["a", "1"]), 7, &mut stats),
        RowOutcome::Fatal(ConvertError::TooFewColumns {
            table: Table::Lexicon,
            line: 7,
            found: 2
        })
    );
    assert_eq!(
        convert_lex_row(
            &record(&["a", "0", "-1", "0", "a", "名詞", "", "", "", "", ""]),
            1,
            &mut stats
        ),
        RowOutcome::Skipped(SkipReason::NegativeConnectionId)
    );
    assert_eq!(stats.skipped_negative_conn_ids, 1);
    assert_eq!(
        convert_lex_row(
            &record(&["a", "0", "1", "0", " ", "名詞", "", "", "", "", ""]),
            1,
            &mut stats
        ),
        RowOutcome::Emitted(record(&[
            "a", "0", "1", "0", "名詞", "一般", "*", "*", "*", "*", "*", "*", "*"
        ]))
    );
    assert_eq!(stats.normalized_pos_rows, 1);
    assert_eq!(stats.written, 0);
}

#[test]
fn unk_row_with_too_few_columns_is_fatal() {
    let (result, output) = unk("ALPHA,0,0,100,名詞,普通名詞,一般,*,*,*\nKANJI,0,0\n");
    let error = result.expect_err("the second row is short");
    assert_eq!(error, ConvertError::TooFewColumns { table: Table::Unknown, line: 2, found: 3 });
    assert_eq!(error.message(), "invalid unk row at line 2: expected >=10 columns, got 3");
    assert_eq!(output, "ALPHA,0,0,100,名詞,一般,*,*,*,*,*,*,*\n");
}

#[test]
fn unk_skips_comments_and_keeps_negative_ids() {
    let (result, output) = unk(
        "#name,left,right\n  # indented,1\nDEFAULT,-1,-2,-3,補助記号,一般,*,*,五段-ワア行,終止形-一般\n",
    );
    assert_eq!(result, Ok(()));
    assert_eq!(output, "DEFAULT,-1,-2,-3,記号,一般,*,*,五段・ワ行ウ音便,基本形,*,*,*\n");
}

#[test]
fn unk_unreadable_integer_is_fatal() {
    let (result, output) = unk("ALPHA,0,zero,100,名詞,普通名詞,一般,*,*,*\n");
    let error = result.expect_err("the right id is no integer");
    assert_eq!(error.message(), "failed to parse right_id='zero' at line 1");
    assert_eq!(output, "");
}

#[test]
fn unk_row_outcomes() {
    assert_eq!(convert_unk_row(&record(&[]), 1), RowOutcome::Skipped(SkipReason::Blank));
    assert_eq!(convert_unk_row(&record(&[" #x"]), 1), RowOutcome::Skipped(SkipReason::Comment));
    assert_eq!(
        convert_unk_row(&record(&["x#", "1"]), 3),
        RowOutcome::Fatal(ConvertError::TooFewColumns {
            table: Table::Unknown,
            line: 3,
            found: 2
        })
    );
    assert_eq!(
        convert_unk_row(&record(&["K", "1", "2", "3", "動詞", "a", "b", "c", "一段", "連用形-一般", "z"]), 1),
        RowOutcome::Emitted(record(&[
            "K", "1", "2", "3", "動詞", "自立", "*", "*", "一段", "連用形", "*", "*", "*"
        ]))
    );
}

#[test]
fn stats_are_rendered_as_key_value_lines() {
    let stats = ConversionStats {
        written: 1203,
        skipped_negative_conn_ids: 0,
        normalized_pos_rows: 45,
        fallback_ctype_rows: 6,
        fallback_cform_rows: 10,
    };
    assert_eq!(
        stats.env_file_text(),
        "written=1203\nskipped_negative_conn_ids=0\nnormalized_pos_rows=45\nfallback_ctype_rows=6\nfallback_cform_rows=10\n"
    );
    let mut file = b"# counters\n".to_vec();
    stats.write_env_file(&mut file);
    assert_eq!(
        file,
        b"# counters\nwritten=1203\nskipped_negative_conn_ids=0\nnormalized_pos_rows=45\nfallback_ctype_rows=6\nfallback_cform_rows=10\n"
    );
    assert_eq!(
        ConversionStats::default().env_file_text(),
        "written=0\nskipped_negative_conn_ids=0\nnormalized_pos_rows=0\nfallback_ctype_rows=0\nfallback_cform_rows=0\n"
    );
    assert!(stats.can_count(usize::MAX - 1203));
    assert!(!stats.can_count(usize::MAX - 1202));
}

#[test]
fn pass_stops_at_the_first_item_that_was_not_read() {
    let good = record(&["犬", "1", "1", "10", "犬", "名詞", "一般", "*", "*", "*", "*", "イヌ"]);
    let records = vec![Ok(good.clone()), Ok(record(&[])), Err("broken".to_string()), Ok(good)];
    let mut output = Vec::new();
    let mut stats = ConversionStats::default();
    let result = convert_rows(Table::Lexicon, &records, &mut output, &mut stats);
    assert_eq!(
        result,
        Err(ConvertError::Read { table: Table::Lexicon, line: 3, detail: "broken".to_string() })
    );
    assert_eq!(
        String::from_utf8(output).expect("the output is UTF-8"),
        "犬,1,1,10,名詞,一般,*,*,*,*,犬,イヌ,イヌ\n"
    );
    assert_eq!(stats.written, 1);
}

#[test]
fn pass_over_unknown_words_counts_nothing() {
    let records = vec![
        Ok(record(&["# class", "left"])),
        Ok(record(&["KANJI", "-1", "2", "3", "名詞", "", "", "", "xx", "yy"])),
    ];
    let mut output = Vec::new();
    let mut stats = ConversionStats::default();
    assert_eq!(convert_rows(Table::Unknown, &records, &mut output, &mut stats), Ok(()));
    assert_eq!(
        String::from_utf8(output).expect("the output is UTF-8"),
        "KANJI,-1,2,3,名詞,一般,*,*,*,*,*,*,*\n"
    );
    assert_eq!(stats, ConversionStats::default());
}

#[test]
fn pass_writes_a_lone_empty_field_in_quotes() {
    let records =
        vec![Ok(record(&["", "1", "2", "3", "", "名詞", "", "", "", "", "", "line\nbreak"]))];
    let mut output = Vec::new();
    let mut stats = ConversionStats::default();
    assert_eq!(convert_rows(Table::Lexicon, &records, &mut output, &mut stats), Ok(()));
    assert_eq!(
        String::from_utf8(output).expect("the output is UTF-8"),
        ",1,2,3,名詞,一般,*,*,*,*,*,\"line\nbreak\",\"line\nbreak\"\n"
    );
}

#[test]
fn rows_are_written_as_one_writer_writes_them() {
    let input = [
        "\"a,b\",1,2,3,\"q\"\"r\",名詞,一般,*,*,*,*,\"multi\nline\"\n",
        ",0,0,0,,動詞,,,,五段-ワア行,連用形-一般\n",
        " padded ,7,8,9, base ,副詞,x,y,z,一段, 基本形 ,\"tab\there\",extra,more\n",
        "\"\",0,0,0,\"\",,,,,,\n",
    ]
    .concat();
    let (result, output, stats) = lex(&input);
    assert_eq!(result, Ok(()));
    assert_eq!(stats.written, 4);

    let mut reader =
        csv::ReaderBuilder::new().has_headers(false).flexible(true).from_reader(output.as_bytes());
    let mut writer = csv::WriterBuilder::new().has_headers(false).from_writer(Vec::new());
    let mut rows = 0;
    for record in reader.records() {
        let record = record.expect("the output is CSV");
        assert_eq!(record.len(), 13);
        writer.write_record(&record).expect("thirteen fields each");
        rows += 1;
    }
    assert_eq!(rows, 4);
    let rewritten = writer.into_inner().expect("a buffer takes every byte");
    assert_eq!(String::from_utf8(rewritten).expect("the output is UTF-8"), output);
    assert!(output.starts_with("\"a,b\",1,2,3,名詞,一般,*,*,*,*,\"q\"\"r\",\"multi\nline\",\"multi\nline\"\n"));
    assert!(output.contains("\n,0,0,0,動詞,自立,*,*,五段・ワ行ウ音便,連用形,*,*,*\n"));
    assert!(output.contains("\n padded ,7,8,9,副詞,一般,*,*,一段,基本形,base,tab\there,tab\there\n"));
    assert!(output.ends_with("\n,0,0,0,その他,*,*,*,*,*,*,*,*\n"));
}
