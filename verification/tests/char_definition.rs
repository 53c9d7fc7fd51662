use std::io::BufRead;

use sudachi_vibrato_converter::char_line::convert_char_line;
use sudachi_vibrato_converter::{
    append_text_as_lines, append_text_files_as_lines, append_unknown_definitions,
    convert_char_definition, normalize_char_range_line, write_rewrite_definition, ConvertError,
};

fn convert(input: &[u8]) -> (Result<(), ConvertError>, Vec<u8>) {
    let mut output = Vec::new();
    let result = convert_char_definition(input, &mut output);
    (result, output)
}

fn converted(input: &str) -> String {
    let (result, output) = convert(input.as_bytes());
    assert_eq!(result, Ok(()));
    String::from_utf8(output).expect("the output is UTF-8")
}

#[test]
fn char_line_with_only_the_marker_goes() {
    assert_eq!(converted("0x0030..0x0039 NOOOVBOW #DIGIT\n"), "");
    assert_eq!(converted("0x0030..0x0039 NOOOVBOW NOOOVBOW\n"), "");
    assert_eq!(normalize_char_range_line("0x0030..0x0039 NOOOVBOW #DIGIT"), Some(None));
}

#[test]
fn char_line_loses_the_marker_and_keeps_its_comment() {
    assert_eq!(
        converted("0x0041..0x005A ALPHA NOOOVBOW #A-Z\n"),
        "0x0041..0x005A ALPHA #A-Z\n"
    );
    assert_eq!(
        normalize_char_range_line("0x0041..0x005A ALPHA NOOOVBOW #A-Z"),
        Some(Some("0x0041..0x005A ALPHA #A-Z".to_string()))
    );
    assert_eq!(
        normalize_char_range_line("0x0041\t NOOOVBOW  ALPHA\u{3000}NOOOVBOW KANJI#a #b "),
        Some(Some("0x0041 ALPHA KANJI #a #b ".to_string()))
    );
    assert_eq!(
        normalize_char_range_line("  0xff10..0xFF19   NUMERIC  "),
        Some(Some("0xff10..0xFF19 NUMERIC".to_string()))
    );
    assert_eq!(
        normalize_char_range_line("0x0041 ALPHA #"),
        Some(Some("0x0041 ALPHA #".to_string()))
    );
}

#[test]
fn char_line_that_is_no_range_is_kept() {
    for line in [
        "DEFAULT 0 1 0",
        "ALPHA 1 1 0 NOOOVBOW",
        "0x0041",
        "0x ALPHA",
        "0xZZ ALPHA",
        "0X0041 ALPHA",
        "0x0041..  ALPHA",
        "0x0041..0x ALPHA",
        "..0x0041 ALPHA",
        "0x0041...0x005A ALPHA",
        "0x0041..0x005A..0x0060 ALPHA",
        "0x0041-0x005A ALPHA",
        "0x0041 #ALPHA NOOOVBOW",
        "0x００４１ ALPHA",
    ] {
        assert_eq!(normalize_char_range_line(line), None);
        assert_eq!(convert_char_line(line), Some(line.to_string()));
    }
}

#[test]
fn char_blank_lines_and_comments_are_kept() {
    for line in ["", "   ", "# 0x0041 ALPHA NOOOVBOW", "  \t# c", "#"] {
        assert_eq!(convert_char_line(line), Some(line.to_string()));
    }
    assert_eq!(converted("\n  \n#c\n"), "\n  \n#c\n");
}

#[test]
fn char_plain_file_comes_through() {
    let input = "# comment\n\nDEFAULT 0 1 0\nSPACE 0 1 0  # x\n  # 0x0020 SPACE NOOOVBOW\n";
    assert_eq!(converted(input), input);
    let with_crlf = "# comment\r\n\r\nDEFAULT 0 1 0\r\nSPACE 0 1 0  # x";
    assert_eq!(converted(with_crlf), "# comment\n\nDEFAULT 0 1 0\nSPACE 0 1 0  # x\n");
}

#[test]
fn char_line_endings_are_normalized() {
    assert_eq!(converted(""), "");
    assert_eq!(converted("\n"), "\n");
    assert_eq!(converted("a"), "a\n");
    assert_eq!(converted("a\r"), "a\n");
    assert_eq!(converted("a\r\r"), "a\r\n");
    assert_eq!(converted("a\r\n"), "a\n");
    assert_eq!(converted("a\r\r\n"), "a\n");
    assert_eq!(converted("a\r\r\r\n"), "a\r\n");
    assert_eq!(converted("a\n\nb"), "a\n\nb\n");
    assert_eq!(converted("a\rb\n"), "a\rb\n");
    assert_eq!(converted("0x0041 ALPHA NOOOVBOW\r\n0x0042 NOOOVBOW\r\nX\r\n"), "0x0041 ALPHA\nX\n");
}

#[test]
fn char_line_that_is_not_utf8_is_fatal() {
    let (result, output) = convert(b"# ok\n0x0041 ALPHA NOOOVBOW\n\xff\xfe\nDEFAULT 0 1 0\n");
    let error = result.expect_err("the third line is not UTF-8");
    assert_eq!(error, ConvertError::InvalidUtf8 { line: 3 });
    assert_eq!(error.message(), "stream did not contain valid UTF-8");
    assert_eq!(output, b"# ok\n0x0041 ALPHA\n");
}

#[test]
fn text_is_copied_line_by_line() {
    let mut output = b"x".to_vec();
    assert_eq!(
        append_text_as_lines("0x0041 ALPHA NOOOVBOW\r\n\n語 \r".as_bytes(), &mut output),
        Ok(())
    );
    assert_eq!(output, "x0x0041 ALPHA NOOOVBOW\n\n語 \n".as_bytes());

    let mut output = Vec::new();
    assert_eq!(
        append_text_as_lines(b"a\n\xc3\n", &mut output),
        Err(ConvertError::InvalidUtf8 { line: 2 })
    );
    assert_eq!(output, b"a\n");
}

fn lines_of_the_standard_library(input: &[u8]) -> (Vec<u8>, Option<usize>) {
    let mut out = Vec::new();
    for (index, line) in input.lines().enumerate() {
        match line {
            Ok(mut line) => {
                if line.ends_with('\r') {
                    line.pop();
                }
                out.extend_from_slice(line.as_bytes());
                out.push(b'\n');
            }
            Err(_) => return (out, Some(index + 1)),
        }
    }
    (out, None)
}

#[test]
fn lines_are_split_as_the_standard_library_splits_them() {
    let inputs: [&[u8]; 16] = [
        b"",
        b"\n",
        b"\r",
        b"\r\n",
        b"\r\r\n",
        b"\n\r",
        b"a",
        b"a\n",
        b"a\r\nb\r\n",
        b"a\r\r\nb\r\r",
        b"a\n\n\nb",
        b"a\rb\r\n\rc",
        "語\r\n彙\n".as_bytes(),
        b"ok\n\xff\nnever\n",
        b"\xe3\x81\n",
        b"ok\r\n\xc3\x28",
    ];
    for input in inputs {
        let (expected, failed_at) = lines_of_the_standard_library(input);
        let mut output = Vec::new();
        let result = append_text_as_lines(input, &mut output);
        assert_eq!(output, expected);
        match failed_at {
            None => assert_eq!(result, Ok(())),
            Some(line) => assert_eq!(result, Err(ConvertError::InvalidUtf8 { line })),
        }
    }
}

fn is_hex_codepoint_by_bytes(token: &str) -> bool {
    token.len() > 2 && token.starts_with("0x") && token[2..].chars().all(|c| c.is_ascii_hexdigit())
}

fn range_line_by_standard_splitting(line: &str) -> Option<Option<String>> {
    let mut split = line.splitn(2, '#');
    let body = split.next().unwrap_or("");
    let comment = split.next();
    let tokens: Vec<&str> = body.split_whitespace().collect();
    if tokens.len() < 2 {
        return None;
    }
    let is_range = match tokens[0].split_once("..") {
        Some((start, end)) => is_hex_codepoint_by_bytes(start) && is_hex_codepoint_by_bytes(end),
        None => is_hex_codepoint_by_bytes(tokens[0]),
    };
    if !is_range {
        return None;
    }
    let kept: Vec<&str> = tokens[1..].iter().copied().filter(|t| *t != "NOOOVBOW").collect();
    if kept.is_empty() {
        return Some(None);
    }
    let mut out = format!("{} {}", tokens[0], kept.join(" "));
    if let Some(comment) = comment {
        out.push_str(" #");
        out.push_str(comment);
    }
    Some(Some(out))
}

#[test]
fn range_lines_agree_with_standard_splitting() {
    let heads = ["0x0041", "0x0041..0x005A", " 0xff..0xFF", "0x", "0x1..0x", "0x1....0x2", "ALPHA", "0xé", ""];
    let tails = ["", " ", " ALPHA", "\tNOOOVBOW", " NOOOVBOW ALPHA NOOOVBOW", " ALPHA\u{3000}KANJI ", " NOOOVBOWX"];
    let comments = ["", "#", "# c", " #c # d", "#NOOOVBOW"];
    for head in heads {
        for tail in tails {
            for comment in comments {
                let line = format!("{head}{tail}{comment}");
                assert_eq!(normalize_char_range_line(&line), range_line_by_standard_splitting(&line));
            }
        }
    }
}

#[test]
fn fragments_are_appended_in_turn() {
    let fragments = [b"a\r\nb".to_vec(), Vec::new(), b"\n".to_vec(), b"c\n".to_vec()];
    let mut output = b"head\n".to_vec();
    assert_eq!(append_text_files_as_lines(&mut output, &fragments), Ok(()));
    assert_eq!(output, b"head\na\nb\n\nc\n");

    let mut output = Vec::new();
    assert_eq!(append_text_files_as_lines(&mut output, &[]), Ok(()));
    assert!(output.is_empty());

    let fragments = [b"a\n".to_vec(), b"b\n\xff\nc\n".to_vec(), b"d\n".to_vec()];
    let mut output = Vec::new();
    assert_eq!(
        append_text_files_as_lines(&mut output, &fragments),
        Err(ConvertError::InvalidUtf8 { line: 2 })
    );
    assert_eq!(output, b"a\nb\n");
}

#[test]
fn unknown_fragments_are_converted_in_turn() {
    let fragments = [
        "NUMERIC,0,0,100,名詞,数,*,*,*,*\n".as_bytes().to_vec(),
        "#only a comment\n".as_bytes().to_vec(),
        "KANJI,1,1,1,動詞,x,y,z,一段,命令形\nSHORT,1\nLATE,1,1,1,動詞,x,y,z,*,*\n".as_bytes().to_vec(),
        "NEVER,0,0,100,名詞,数,*,*,*,*\n".as_bytes().to_vec(),
    ];
    let mut output = Vec::new();
    let error =
        append_unknown_definitions(&mut output, &fragments).expect_err("a row is short");
    assert_eq!(error.message(), "invalid unk row at line 2: expected >=10 columns, got 2");
    assert_eq!(
        String::from_utf8(output).expect("the output is UTF-8"),
        "NUMERIC,0,0,100,名詞,一般,*,*,*,*,*,*,*\nKANJI,1,1,1,動詞,自立,*,*,一段,命令ｙｏ,*,*,*\n"
    );
}

#[test]
fn rewrite_rules_stop_at_a_broken_head() {
    let mut output = Vec::new();
    assert_eq!(
        write_rewrite_definition(b"[unigram rewrite]\n\xff\n", &mut output, &[b"x\n".to_vec()]),
        Err(ConvertError::InvalidUtf8 { line: 2 })
    );
    assert_eq!(output, b"[unigram rewrite]\n");
}
