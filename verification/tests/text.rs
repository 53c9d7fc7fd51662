use sudachi_vibrato_converter::char_line::{is_codepoint_range, split_words};
use sudachi_vibrato_converter::number::{decimal_chars, parse_i32_chars};
use sudachi_vibrato_converter::text::{
    chars_of, is_blank_text, is_space_char, is_text, leading_spaces, replaced, starts_comment,
    starts_with_text, stripped, text_of, trimmed,
};

fn chars(s: &str) -> Vec<char> {
    s.chars().collect()
}

fn text(v: &[char]) -> String {
    v.iter().collect()
}

const SAMPLES: [&str; 14] = [
    "",
    " ",
    "abc",
    "  abc  ",
    "\t a b \n",
    "\u{3000}全角\u{3000}空白\u{3000}",
    "\u{a0}\u{1680}x\u{2000}\u{200a}y\u{2028}\u{2029}\u{202f}\u{205f}",
    "x\u{200b}\u{feff}y",
    "\u{85}next\u{b}\u{c}\r",
    "# comment",
    "   # comment",
    "サ変・スルサ変・スル",
    "aaa",
    "0x0041..0x005A ALPHA  NOOOVBOW\t#A-Z",
];

#[test]
fn whitespace_is_what_the_standard_library_calls_whitespace() {
    for code in 0..=0x10ffff_u32 {
        if let Some(c) = char::from_u32(code) {
            assert_eq!(is_space_char(c), c.is_whitespace());
        }
    }
}

#[test]
fn characters_and_text_convert_both_ways() {
    for sample in SAMPLES {
        assert_eq!(chars_of(sample), chars(sample));
        assert_eq!(text_of(&chars(sample)), sample);
    }
}

#[test]
fn trimming_agrees_with_the_standard_library() {
    for sample in SAMPLES {
        let v = chars(sample);
        assert_eq!(text(&trimmed(&v)), sample.trim());
        assert_eq!(text(&v[leading_spaces(&v)..]), sample.trim_start());
        assert_eq!(is_blank_text(&v), sample.trim_start().is_empty());
        assert_eq!(starts_comment(&v), sample.trim_start().starts_with('#'));
        let expected: String = sample.chars().filter(|c| !c.is_whitespace()).collect();
        assert_eq!(text(&stripped(&v)), expected);
    }
}

#[test]
fn words_agree_with_the_standard_library() {
    for sample in SAMPLES {
        let v = chars(sample);
        for end in 0..=v.len() {
            let prefix: String = v[..end].iter().collect();
            let expected: Vec<String> = prefix.split_whitespace().map(str::to_string).collect();
            let words: Vec<String> = split_words(&v, end).iter().map(|w| text(w)).collect();
            assert_eq!(words, expected);
        }
    }
}

#[test]
fn replacing_agrees_with_the_standard_library() {
    let patterns = [("a", "bb"), ("aa", "a"), ("サ変・スル", "サ変・−スル"), ("  ", " "), ("abc", ""), ("x", "x")];
    for sample in SAMPLES {
        for (from, to) in patterns {
            let got = replaced(&chars(sample), &chars(from), &chars(to));
            assert_eq!(text(&got), sample.replace(from, to));
        }
        assert_eq!(text(&replaced(&chars(sample), &chars(""), &chars("x"))), sample);
    }
    assert_eq!(text(&replaced(&chars("aaaa"), &chars("aa"), &chars("b"))), "bb");
    assert_eq!(text(&replaced(&chars("aaa"), &chars("aa"), &chars("b"))), "ba");
    assert_eq!(text(&replaced(&chars("abab"), &chars("ab"), &chars("abab"))), "abababab");
}

#[test]
fn literal_comparison_is_exact() {
    for sample in SAMPLES {
        for other in SAMPLES {
            assert_eq!(is_text(&chars(sample), other), sample == other);
            assert_eq!(starts_with_text(&chars(sample), other), sample.starts_with(other));
        }
    }
    assert!(starts_with_text(&chars("連用形-促音便"), "連用形"));
    assert!(!starts_with_text(&chars("連用"), "連用形"));
    assert!(!is_text(&chars("連用形-促音便"), "連用形"));
}

#[test]
fn integers_are_read_as_the_standard_library_reads_them() {
    for sample in [
        "", "0", "-0", "+0", "1", "-1", "+1", "42", "0042", "-0042", "2147483647", "2147483648",
        "-2147483648", "-2147483649", "+2147483647", "99999999999999999999", "-", "+", "+-1",
        "1-", " 1", "1 ", "1_0", "0x1", "１", "1e3", "1.0", "--1", "٣",
    ] {
        assert_eq!(parse_i32_chars(&chars(sample)), sample.parse::<i32>().ok());
    }
    for n in -1200..1200_i32 {
        assert_eq!(parse_i32_chars(&chars(&n.to_string())), Some(n));
    }
}

#[test]
fn counts_are_written_in_decimal() {
    for n in [0_usize, 1, 9, 10, 11, 99, 100, 101, 12345, 4294967295, usize::MAX] {
        assert_eq!(text(&decimal_chars(n)), n.to_string());
    }
}

#[test]
fn codepoint_ranges_are_recognized() {
    for good in ["0x0", "0xFFfe", "0x0041..0x005A", "0xa..0xB", "0x10FFFFFFFF"] {
        assert!(is_codepoint_range(&chars(good)));
    }
    for bad in ["", "0x", "x0", "0x..0x", "0x1..", "..0x1", "0x1.0x2", "0x1...0x2", "0x1..0x2..0x3", "0xG", "0x1 ", "０x1", "0x1..0X2"] {
        assert!(!is_codepoint_range(&chars(bad)));
    }
}
