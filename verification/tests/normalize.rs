use sudachi_vibrato_converter::normalize::{
    normalize_cform, normalize_ctype, normalize_pos, normalize_text_or_star, strip_spaces,
};

fn ctype(value: &str) -> (String, bool) {
    normalize_ctype(value)
}

fn cform(value: &str) -> (String, bool) {
    normalize_cform(value)
}

fn pos(value: &str) -> Vec<String> {
    normalize_pos(value).to_vec()
}

#[test]
fn text_or_star_trims_and_fills() {
    assert_eq!(normalize_text_or_star("  abc  "), "abc");
    assert_eq!(normalize_text_or_star("a b"), "a b");
    assert_eq!(normalize_text_or_star(""), "*");
    assert_eq!(normalize_text_or_star(" \t\n"), "*");
    assert_eq!(normalize_text_or_star("\u{3000}読み\u{3000}"), "読み");
    assert_eq!(normalize_text_or_star("\u{a0}x\u{2003}"), "x");
    assert_eq!(normalize_text_or_star("*"), "*");
}

#[test]
fn strip_spaces_removes_every_space() {
    assert_eq!(strip_spaces("a b\u{3000}c\t"), "abc");
    assert_eq!(strip_spaces("  "), "");
    assert_eq!(strip_spaces("五段 - ワア行"), "五段-ワア行");
    assert_eq!(strip_spaces("x\u{200b}y"), "x\u{200b}y");
}

#[test]
fn ctype_rewrites_dashes_and_historical_spelling() {
    assert_eq!(ctype("五段-ワア行"), ("五段・ワ行ウ音便".to_string(), false));
    assert_eq!(ctype("五段－ワア行"), ("五段・ワ行ウ音便".to_string(), false));
    assert_eq!(ctype("五段−カ行イ音便"), ("五段・カ行イ音便".to_string(), false));
    assert_eq!(ctype(" 下二 - ア行 "), ("下二・ア行".to_string(), false));
    assert_eq!(ctype("一段"), ("一段".to_string(), false));
}

#[test]
fn ctype_canonicalizes_irregular_verb_classes() {
    for spelling in [
        "サ変・スル",
        "サ変-スル",
        "サ変・ｰスル",
        "サ変・ースル",
        "サ変・・スル",
        "サ変・−スル",
        "サ変・-スル",
        "サ変・－スル",
        "サ変--スル",
    ] {
        assert_eq!(ctype(spelling), ("サ変・−スル".to_string(), false));
    }
    for spelling in ["サ変・ズル", "サ変-ズル", "サ変・ｰズル", "サ変・ーズル", "サ変・・ズル", "サ変・−ズル"] {
        assert_eq!(ctype(spelling), ("サ変・−ズル".to_string(), false));
    }
}

#[test]
fn ctype_falls_back_to_star() {
    assert_eq!(ctype("五段-ワア行-特殊"), ("*".to_string(), true));
    assert_eq!(ctype("unknown"), ("*".to_string(), true));
    assert_eq!(ctype("*"), ("*".to_string(), false));
    assert_eq!(ctype(" * "), ("*".to_string(), false));
    assert_eq!(ctype(""), ("*".to_string(), false));
    assert_eq!(ctype("   "), ("*".to_string(), false));
    assert_eq!(ctype("* *"), ("*".to_string(), true));
}

#[test]
fn ctype_is_idempotent_on_allowed_values() {
    for value in [
        "*",
        "ラ変",
        "カ変・クル",
        "サ変・スル",
        "サ変-スル",
        "一段・病メル",
        "下二-得",
        "形容詞・アウオ段",
        "五段・ワ行促音便",
        "四段 ・ ハ行",
        "特殊・ジャ",
        "文語・ゴトシ",
    ] {
        let (once, gave_up) = ctype(value);
        assert!(!gave_up);
        let (twice, gave_up_again) = ctype(&once);
        assert_eq!(twice, once);
        assert!(!gave_up_again);
    }
}

#[test]
fn ctype_and_cform_stay_in_the_vocabulary() {
    for value in ["", "x", "サ変", "サ変・スルスル", "五段", "終止", "基本形-促音便", "命令ｅ", "- -"] {
        let (t, _) = ctype(value);
        assert!(t == "*" || ctype(&t) == (t.clone(), false));
        let (f, _) = cform(value);
        assert!(f == "*" || f == "基本形-促音便" || f == "命令ｅ");
    }
    assert_eq!(ctype("サ変・スルスル"), ("*".to_string(), true));
    assert_eq!(cform("基本形-促音便"), ("基本形-促音便".to_string(), false));
}

#[test]
fn cform_collapses_by_prefix() {
    assert_eq!(cform("終止形-一般"), ("基本形".to_string(), false));
    assert_eq!(cform("終止形"), ("基本形".to_string(), false));
    assert_eq!(cform("連体形-撥音便"), ("基本形".to_string(), false));
    assert_eq!(cform("終止連体形"), ("基本形".to_string(), false));
    assert_eq!(cform("連用形-促音便"), ("連用形".to_string(), false));
    assert_eq!(cform("未然形-サ"), ("未然形".to_string(), false));
    assert_eq!(cform("仮定形-融合"), ("仮定形".to_string(), false));
    assert_eq!(cform("命令形"), ("命令ｙｏ".to_string(), false));
    assert_eq!(cform("意志推量形"), ("未然ウ接続".to_string(), false));
    assert_eq!(cform(" 連用 タ接続 "), ("連用タ接続".to_string(), false));
    assert_eq!(cform("ガル接続"), ("ガル接続".to_string(), false));
}

#[test]
fn cform_falls_back_to_star() {
    assert_eq!(cform("意志推量形-一般"), ("*".to_string(), true));
    assert_eq!(cform("終止連体形-一般"), ("*".to_string(), true));
    assert_eq!(cform("語幹-一般"), ("*".to_string(), true));
    assert_eq!(cform("*"), ("*".to_string(), false));
    assert_eq!(cform(""), ("*".to_string(), false));
}

#[test]
fn pos_table_is_total() {
    for label in ["名詞", "代名詞", "形状詞", "接尾辞", " 名詞 "] {
        assert_eq!(pos(label), vec!["名詞", "一般", "*", "*"]);
    }
    assert_eq!(pos("動詞"), vec!["動詞", "自立", "*", "*"]);
    assert_eq!(pos("形容詞"), vec!["形容詞", "自立", "*", "*"]);
    assert_eq!(pos("助詞"), vec!["助詞", "格助詞", "一般", "*"]);
    assert_eq!(pos("助動詞"), vec!["助動詞", "*", "*", "*"]);
    assert_eq!(pos("副詞"), vec!["副詞", "一般", "*", "*"]);
    assert_eq!(pos("接続詞"), vec!["接続詞", "*", "*", "*"]);
    assert_eq!(pos("連体詞"), vec!["連体詞", "*", "*", "*"]);
    assert_eq!(pos("感動詞"), vec!["感動詞", "*", "*", "*"]);
    assert_eq!(pos("接頭辞"), vec!["接頭詞", "名詞接続", "*", "*"]);
    assert_eq!(pos("接頭詞"), vec!["接頭詞", "名詞接続", "*", "*"]);
    for label in ["記号", "補助記号", "空白"] {
        assert_eq!(pos(label), vec!["記号", "一般", "*", "*"]);
    }
    assert_eq!(pos("フィラー"), vec!["フィラー", "*", "*", "*"]);
    for label in ["", "*", "noun", "名 詞", "その他"] {
        assert_eq!(pos(label), vec!["その他", "*", "*", "*"]);
    }
}
