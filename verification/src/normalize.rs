//! Canonical vocabularies of the target schema and the rules that map
//! part-of-speech labels, inflection types and inflection forms onto them.

use crate::text::{
    chars_of, is_text, replace_all, replaced, starts_with_text, stripped, text_of, texts, trim,
    trimmed, without_spaces,
};
use vstd::prelude::*;

verus! {

/// The trimmed text, or the sentinel `*` where nothing but whitespace
/// is left.
pub open spec fn text_or_star(s: Seq<char>) -> Seq<char> {
    if trim(s).len() == 0 {
        "*"@
    } else {
        trim(s)
    }
}

/// The three dash-like characters that stand for the separator of the
/// target vocabulary.
pub open spec fn is_dash(c: char) -> bool {
    c == '-' || c == '－' || c == '−'
}

/// `s` with every dash-like character replaced by the middle dot.
pub open spec fn dashes_to_dots(s: Seq<char>) -> Seq<char> {
    s.map_values(
        |c: char|
            if is_dash(c) {
                '・'
            } else {
                c
            },
    )
}

/// The rewrites of the alternate renderings of the two irregular verb
/// classes: a pattern and what replaces it, in the order in which they are
/// applied.
pub open spec fn ctype_rules() -> Seq<(Seq<char>, Seq<char>)> {
    seq![
        ("サ変・スル"@, "サ変・−スル"@),
        ("サ変・ズル"@, "サ変・−ズル"@),
        ("サ変・ｰスル"@, "サ変・−スル"@),
        ("サ変・ｰズル"@, "サ変・−ズル"@),
        ("サ変・ースル"@, "サ変・−スル"@),
        ("サ変・ーズル"@, "サ変・−ズル"@),
        ("サ変・・スル"@, "サ変・−スル"@),
        ("サ変・・ズル"@, "サ変・−ズル"@),
    ]
}

/// `s` after the rules from the one at `k` on have been applied, each to
/// the result of the one before.
pub open spec fn rewritten_from(s: Seq<char>, rules: Seq<(Seq<char>, Seq<char>)>, k: nat) -> Seq<
    char,
>
    decreases rules.len() - k,
{
    if k < rules.len() {
        rewritten_from(replace_all(s, rules[k as int].0, rules[k as int].1), rules, k + 1)
    } else {
        s
    }
}

/// The literal rewrites of inflection types: the historical spelling of
/// one verb class becomes its canonical spelling, and then the rules of the
/// irregular verb classes are applied in order.
pub open spec fn ctype_rewritten(s: Seq<char>) -> Seq<char> {
    rewritten_from(
        if s == "五段・ワア行"@ {
            "五段・ワ行ウ音便"@
        } else {
            s
        },
        ctype_rules(),
        0,
    )
}

/// The views of a table of rewrites.
pub open spec fn rule_views(rules: Seq<(&str, &str)>) -> Seq<(Seq<char>, Seq<char>)> {
    rules.map_values(|r: (&str, &str)| (r.0@, r.1@))
}

/// The inflection type that is tested against the allowed set: trimmed,
/// freed of whitespace, with dots for dashes, and rewritten.
pub open spec fn ctype_candidate(value: Seq<char>) -> Seq<char> {
    ctype_rewritten(dashes_to_dots(without_spaces(text_or_star(value))))
}

/// The inflection types of the target vocabulary.
pub open spec fn is_allowed_ctype(s: Seq<char>) -> bool {
    s == "*"@
        || s == "ラ変"@
        || s == "不変化型"@
        || s == "カ変・クル"@
        || s == "カ変・来ル"@
        || s == "サ変・スル"@
        || s == "サ変・−スル"@
        || s == "サ変・−ズル"@
        || s == "一段"@
        || s == "一段・病メル"@
        || s == "一段・クレル"@
        || s == "一段・得ル"@
        || s == "一段・ル"@
        || s == "下二・ア行"@
        || s == "下二・カ行"@
        || s == "下二・ガ行"@
        || s == "下二・サ行"@
        || s == "下二・ザ行"@
        || s == "下二・タ行"@
        || s == "下二・ダ行"@
        || s == "下二・ナ行"@
        || s == "下二・ハ行"@
        || s == "下二・バ行"@
        || s == "下二・マ行"@
        || s == "下二・ヤ行"@
        || s == "下二・ラ行"@
        || s == "下二・ワ行"@
        || s == "下二・得"@
        || s == "形容詞・アウオ段"@
        || s == "形容詞・イ段"@
        || s == "形容詞・イイ"@
        || s == "五段・カ行イ音便"@
        || s == "五段・カ行促音便"@
        || s == "五段・カ行促音便ユク"@
        || s == "五段・ガ行"@
        || s == "五段・サ行"@
        || s == "五段・タ行"@
        || s == "五段・ナ行"@
        || s == "五段・バ行"@
        || s == "五段・マ行"@
        || s == "五段・ラ行"@
        || s == "五段・ラ行アル"@
        || s == "五段・ラ行特殊"@
        || s == "五段・ワ行ウ音便"@
        || s == "五段・ワ行促音便"@
        || s == "四段・カ行"@
        || s == "四段・ガ行"@
        || s == "四段・サ行"@
        || s == "四段・タ行"@
        || s == "四段・バ行"@
        || s == "四段・マ行"@
        || s == "四段・ラ行"@
        || s == "四段・ハ行"@
        || s == "上二・ダ行"@
        || s == "上二・ハ行"@
        || s == "特殊・ナイ"@
        || s == "特殊・タイ"@
        || s == "特殊・タ"@
        || s == "特殊・ダ"@
        || s == "特殊・デス"@
        || s == "特殊・ドス"@
        || s == "特殊・ジャ"@
        || s == "特殊・マス"@
        || s == "特殊・ヌ"@
        || s == "特殊・ヤ"@
        || s == "文語・ベシ"@
        || s == "文語・ゴトシ"@
        || s == "文語・ナリ"@
        || s == "文語・マジ"@
        || s == "文語・シム"@
        || s == "文語・キ"@
        || s == "文語・ケリ"@
        || s == "文語・ル"@
        || s == "文語・リ"@
}

/// The canonical inflection type of `value`: the candidate where it is
/// allowed, else the sentinel.
pub open spec fn ctype_canonical(value: Seq<char>) -> Seq<char> {
    if is_allowed_ctype(ctype_candidate(value)) {
        ctype_candidate(value)
    } else {
        "*"@
    }
}

/// Whether the inflection type of `value` was given up: the candidate is
/// not allowed and the trimmed value was not the sentinel already.
pub open spec fn ctype_fallback(value: Seq<char>) -> bool {
    !is_allowed_ctype(ctype_candidate(value)) && text_or_star(value) != "*"@
}

/// An inflection form collapsed by its prefix: the terminal and the
/// attributive forms become the basic form, the continuative, irrealis
/// and conditional forms lose what follows their name, the imperative
/// becomes one chosen imperative, and the volitional becomes the irrealis
/// before the volitional ending. Any other text stays as it is.
pub open spec fn cform_collapsed(c: Seq<char>) -> Seq<char> {
    if c == "終止連体形"@ || "終止形"@.is_prefix_of(c) || "連体形"@.is_prefix_of(c) {
        "基本形"@
    } else if "連用形"@.is_prefix_of(c) {
        "連用形"@
    } else if "未然形"@.is_prefix_of(c) {
        "未然形"@
    } else if "仮定形"@.is_prefix_of(c) {
        "仮定形"@
    } else if "命令形"@.is_prefix_of(c) {
        "命令ｙｏ"@
    } else if c == "意志推量形"@ {
        "未然ウ接続"@
    } else {
        c
    }
}

/// The inflection form that is tested against the allowed set: trimmed,
/// freed of whitespace, and collapsed by its prefix.
pub open spec fn cform_candidate(value: Seq<char>) -> Seq<char> {
    cform_collapsed(without_spaces(text_or_star(value)))
}

/// The inflection forms of the target vocabulary.
pub open spec fn is_allowed_cform(s: Seq<char>) -> bool {
    s == "*"@
        || s == "ガル接続"@
        || s == "音便基本形"@
        || s == "仮定形"@
        || s == "仮定縮約１"@
        || s == "仮定縮約２"@
        || s == "基本形"@
        || s == "基本形-促音便"@
        || s == "現代基本形"@
        || s == "体言接続"@
        || s == "体言接続特殊"@
        || s == "体言接続特殊２"@
        || s == "文語基本形"@
        || s == "未然ウ接続"@
        || s == "未然ヌ接続"@
        || s == "未然レル接続"@
        || s == "未然形"@
        || s == "未然特殊"@
        || s == "命令ｅ"@
        || s == "命令ｉ"@
        || s == "命令ｒｏ"@
        || s == "命令ｙｏ"@
        || s == "連用ゴザイ接続"@
        || s == "連用タ接続"@
        || s == "連用テ接続"@
        || s == "連用デ接続"@
        || s == "連用ニ接続"@
        || s == "連用形"@
}

/// The canonical inflection form of `value`: the candidate where it is
/// allowed, else the sentinel.
pub open spec fn cform_canonical(value: Seq<char>) -> Seq<char> {
    if is_allowed_cform(cform_candidate(value)) {
        cform_candidate(value)
    } else {
        "*"@
    }
}

/// Whether the inflection form of `value` was given up.
pub open spec fn cform_fallback(value: Seq<char>) -> bool {
    !is_allowed_cform(cform_candidate(value)) && text_or_star(value) != "*"@
}

/// The four part-of-speech levels of the target taxonomy for a coarse
/// label; a label outside the table belongs to the class of the others.
pub open spec fn normalized_pos(label: Seq<char>) -> Seq<Seq<char>> {
    let t = trim(label);
    if t == "名詞"@ || t == "代名詞"@ || t == "形状詞"@ || t == "接尾辞"@ {
        seq!["名詞"@, "一般"@, "*"@, "*"@]
    } else if t == "動詞"@ {
        seq!["動詞"@, "自立"@, "*"@, "*"@]
    } else if t == "形容詞"@ {
        seq!["形容詞"@, "自立"@, "*"@, "*"@]
    } else if t == "助詞"@ {
        seq!["助詞"@, "格助詞"@, "一般"@, "*"@]
    } else if t == "助動詞"@ {
        seq!["助動詞"@, "*"@, "*"@, "*"@]
    } else if t == "副詞"@ {
        seq!["副詞"@, "一般"@, "*"@, "*"@]
    } else if t == "接続詞"@ {
        seq!["接続詞"@, "*"@, "*"@, "*"@]
    } else if t == "連体詞"@ {
        seq!["連体詞"@, "*"@, "*"@, "*"@]
    } else if t == "感動詞"@ {
        seq!["感動詞"@, "*"@, "*"@, "*"@]
    } else if t == "接頭辞"@ || t == "接頭詞"@ {
        seq!["接頭詞"@, "名詞接続"@, "*"@, "*"@]
    } else if t == "記号"@ || t == "補助記号"@ || t == "空白"@ {
        seq!["記号"@, "一般"@, "*"@, "*"@]
    } else if t == "フィラー"@ {
        seq!["フィラー"@, "*"@, "*"@, "*"@]
    } else {
        seq!["その他"@, "*"@, "*"@, "*"@]
    }
}

/// Whether `v` is an inflection type of the target vocabulary.
pub fn allows_ctype(v: &Vec<char>) -> (b: bool)
    ensures
        b == is_allowed_ctype(v@),
{
    is_text(v, "*")
        || is_text(v, "ラ変")
        || is_text(v, "不変化型")
        || is_text(v, "カ変・クル")
        || is_text(v, "カ変・来ル")
        || is_text(v, "サ変・スル")
        || is_text(v, "サ変・−スル")
        || is_text(v, "サ変・−ズル")
        || is_text(v, "一段")
        || is_text(v, "一段・病メル")
        || is_text(v, "一段・クレル")
        || is_text(v, "一段・得ル")
        || is_text(v, "一段・ル")
        || is_text(v, "下二・ア行")
        || is_text(v, "下二・カ行")
        || is_text(v, "下二・ガ行")
        || is_text(v, "下二・サ行")
        || is_text(v, "下二・ザ行")
        || is_text(v, "下二・タ行")
        || is_text(v, "下二・ダ行")
        || is_text(v, "下二・ナ行")
        || is_text(v, "下二・ハ行")
        || is_text(v, "下二・バ行")
        || is_text(v, "下二・マ行")
        || is_text(v, "下二・ヤ行")
        || is_text(v, "下二・ラ行")
        || is_text(v, "下二・ワ行")
        || is_text(v, "下二・得")
        || is_text(v, "形容詞・アウオ段")
        || is_text(v, "形容詞・イ段")
        || is_text(v, "形容詞・イイ")
        || is_text(v, "五段・カ行イ音便")
        || is_text(v, "五段・カ行促音便")
        || is_text(v, "五段・カ行促音便ユク")
        || is_text(v, "五段・ガ行")
        || is_text(v, "五段・サ行")
        || is_text(v, "五段・タ行")
        || is_text(v, "五段・ナ行")
        || is_text(v, "五段・バ行")
        || is_text(v, "五段・マ行")
        || is_text(v, "五段・ラ行")
        || is_text(v, "五段・ラ行アル")
        || is_text(v, "五段・ラ行特殊")
        || is_text(v, "五段・ワ行ウ音便")
        || is_text(v, "五段・ワ行促音便")
        || is_text(v, "四段・カ行")
        || is_text(v, "四段・ガ行")
        || is_text(v, "四段・サ行")
        || is_text(v, "四段・タ行")
        || is_text(v, "四段・バ行")
        || is_text(v, "四段・マ行")
        || is_text(v, "四段・ラ行")
        || is_text(v, "四段・ハ行")
        || is_text(v, "上二・ダ行")
        || is_text(v, "上二・ハ行")
        || is_text(v, "特殊・ナイ")
        || is_text(v, "特殊・タイ")
        || is_text(v, "特殊・タ")
        || is_text(v, "特殊・ダ")
        || is_text(v, "特殊・デス")
        || is_text(v, "特殊・ドス")
        || is_text(v, "特殊・ジャ")
        || is_text(v, "特殊・マス")
        || is_text(v, "特殊・ヌ")
        || is_text(v, "特殊・ヤ")
        || is_text(v, "文語・ベシ")
        || is_text(v, "文語・ゴトシ")
        || is_text(v, "文語・ナリ")
        || is_text(v, "文語・マジ")
        || is_text(v, "文語・シム")
        || is_text(v, "文語・キ")
        || is_text(v, "文語・ケリ")
        || is_text(v, "文語・ル")
        || is_text(v, "文語・リ")
}

/// Whether `v` is an inflection form of the target vocabulary.
pub fn allows_cform(v: &Vec<char>) -> (b: bool)
    ensures
        b == is_allowed_cform(v@),
{
    is_text(v, "*")
        || is_text(v, "ガル接続")
        || is_text(v, "音便基本形")
        || is_text(v, "仮定形")
        || is_text(v, "仮定縮約１")
        || is_text(v, "仮定縮約２")
        || is_text(v, "基本形")
        || is_text(v, "基本形-促音便")
        || is_text(v, "現代基本形")
        || is_text(v, "体言接続")
        || is_text(v, "体言接続特殊")
        || is_text(v, "体言接続特殊２")
        || is_text(v, "文語基本形")
        || is_text(v, "未然ウ接続")
        || is_text(v, "未然ヌ接続")
        || is_text(v, "未然レル接続")
        || is_text(v, "未然形")
        || is_text(v, "未然特殊")
        || is_text(v, "命令ｅ")
        || is_text(v, "命令ｉ")
        || is_text(v, "命令ｒｏ")
        || is_text(v, "命令ｙｏ")
        || is_text(v, "連用ゴザイ接続")
        || is_text(v, "連用タ接続")
        || is_text(v, "連用テ接続")
        || is_text(v, "連用デ接続")
        || is_text(v, "連用ニ接続")
        || is_text(v, "連用形")
}

/// The trimmed characters of `value`, or the sentinel.
pub fn chars_or_star(value: &str) -> (out: Vec<char>)
    ensures
        out@ == text_or_star(value@),
{
    let t = trimmed(&chars_of(value));
    if t.len() == 0 {
        chars_of("*")
    } else {
        t
    }
}

/// Trims `value`; what is empty after trimming becomes the sentinel `*`.
pub fn normalize_text_or_star(value: &str) -> (out: String)
    ensures
        out@ == text_or_star(value@),
{
    text_of(&chars_or_star(value))
}

/// Removes every whitespace character from `value`, the full-width space
/// among them, and changes nothing else.
pub fn strip_spaces(value: &str) -> (out: String)
    ensures
        out@ == without_spaces(value@),
{
    text_of(&stripped(&chars_of(value)))
}

/// A copy of `v` with the middle dot in place of each dash-like character.
pub fn with_dots(v: &Vec<char>) -> (out: Vec<char>)
    ensures
        out@ == dashes_to_dots(v@),
{
    let mut out: Vec<char> = Vec::new();
    let mut i: usize = 0;
    while i < v.len()
        invariant
            i <= v.len(),
            out@ == dashes_to_dots(v@.take(i as int)),
        decreases v.len() - i,
    {
        let c = v[i];
        proof {
            assert(dashes_to_dots(v@.take(i + 1)) =~= dashes_to_dots(v@.take(i as int)).push(
                if is_dash(c) {
                    '・'
                } else {
                    c
                },
            ));
        }
        if c == '-' || c == '－' || c == '−' {
            out.push('・');
        } else {
            out.push(c);
        }
        i += 1;
    }
    proof {
        assert(v@.take(v.len() as int) =~= v@);
    }
    out
}

/// The table of the rewrites of the irregular verb classes.
pub fn ctype_rule_table() -> (rules: [(&'static str, &'static str); 8])
    ensures
        rule_views(rules@) == ctype_rules(),
{
    let rules = [
        ("サ変・スル", "サ変・−スル"),
        ("サ変・ズル", "サ変・−ズル"),
        ("サ変・ｰスル", "サ変・−スル"),
        ("サ変・ｰズル", "サ変・−ズル"),
        ("サ変・ースル", "サ変・−スル"),
        ("サ変・ーズル", "サ変・−ズル"),
        ("サ変・・スル", "サ変・−スル"),
        ("サ変・・ズル", "サ変・−ズル"),
    ];
    proof {
        assert(rule_views(rules@) =~= ctype_rules());
    }
    rules
}

/// Applies the literal rewrites of inflection types to `v`.
pub fn rewrite_ctype(v: Vec<char>) -> (out: Vec<char>)
    ensures
        out@ == ctype_rewritten(v@),
{
    let rules = ctype_rule_table();
    let mut current = if is_text(&v, "五段・ワア行") {
        chars_of("五段・ワ行ウ音便")
    } else {
        v
    };
    let ghost start = current@;
    let mut k: usize = 0;
    while k < 8
        invariant
            k <= 8,
            ctype_rules().len() == 8,
            rule_views(rules@) == ctype_rules(),
            rewritten_from(current@, ctype_rules(), k as nat) == rewritten_from(
                start,
                ctype_rules(),
                0,
            ),
        decreases 8 - k,
    {
        let from = chars_of(rules[k].0);
        let to = chars_of(rules[k].1);
        proof {
            assert(rule_views(rules@)[k as int] == (rules@[k as int].0@, rules@[k as int].1@));
        }
        current = replaced(&current, &from, &to);
        k += 1;
    }
    current
}

/// Maps an inflection type to the target vocabulary. The result is the
/// canonical spelling and whether the value had to be given up for the
/// sentinel.
pub fn normalize_ctype(value: &str) -> (out: (String, bool))
    ensures
        out.0@ == ctype_canonical(value@),
        out.1 == ctype_fallback(value@),
        is_allowed_ctype(out.0@),
{
    let src = chars_or_star(value);
    let candidate = rewrite_ctype(with_dots(&stripped(&src)));
    if allows_ctype(&candidate) {
        (text_of(&candidate), false)
    } else {
        ("*".to_owned(), !is_text(&src, "*"))
    }
}

/// Collapses an inflection form by its prefix.
pub fn collapse_cform(c: Vec<char>) -> (out: Vec<char>)
    ensures
        out@ == cform_collapsed(c@),
{
    if is_text(&c, "終止連体形") || starts_with_text(&c, "終止形") || starts_with_text(&c, "連体形") {
        chars_of("基本形")
    } else if starts_with_text(&c, "連用形") {
        chars_of("連用形")
    } else if starts_with_text(&c, "未然形") {
        chars_of("未然形")
    } else if starts_with_text(&c, "仮定形") {
        chars_of("仮定形")
    } else if starts_with_text(&c, "命令形") {
        chars_of("命令ｙｏ")
    } else if is_text(&c, "意志推量形") {
        chars_of("未然ウ接続")
    } else {
        c
    }
}

/// Maps an inflection form to the target vocabulary. The result is the
/// canonical spelling and whether the value had to be given up for the
/// sentinel.
pub fn normalize_cform(value: &str) -> (out: (String, bool))
    ensures
        out.0@ == cform_canonical(value@),
        out.1 == cform_fallback(value@),
        is_allowed_cform(out.0@),
{
    let src = chars_or_star(value);
    let candidate = collapse_cform(stripped(&src));
    if allows_cform(&candidate) {
        (text_of(&candidate), false)
    } else {
        ("*".to_owned(), !is_text(&src, "*"))
    }
}

/// Four owned part-of-speech levels.
fn levels(a: &str, b: &str, c: &str, d: &str) -> (out: [String; 4])
    ensures
        texts(out@) == seq![a@, b@, c@, d@],
{
    let out = [a.to_owned(), b.to_owned(), c.to_owned(), d.to_owned()];
    proof {
        assert(texts(out@) =~= seq![a@, b@, c@, d@]);
    }
    out
}

/// Maps a coarse part-of-speech label to the four levels of the target
/// taxonomy. Every label has a result.
pub fn normalize_pos(pos0: &str) -> (out: [String; 4])
    ensures
        texts(out@) == normalized_pos(pos0@),
{
    let t = trimmed(&chars_of(pos0));
    if is_text(&t, "名詞") || is_text(&t, "代名詞") || is_text(&t, "形状詞") || is_text(&t, "接尾辞") {
        levels("名詞", "一般", "*", "*")
    } else if is_text(&t, "動詞") {
        levels("動詞", "自立", "*", "*")
    } else if is_text(&t, "形容詞") {
        levels("形容詞", "自立", "*", "*")
    } else if is_text(&t, "助詞") {
        levels("助詞", "格助詞", "一般", "*")
    } else if is_text(&t, "助動詞") {
        levels("助動詞", "*", "*", "*")
    } else if is_text(&t, "副詞") {
        levels("副詞", "一般", "*", "*")
    } else if is_text(&t, "接続詞") {
        levels("接続詞", "*", "*", "*")
    } else if is_text(&t, "連体詞") {
        levels("連体詞", "*", "*", "*")
    } else if is_text(&t, "感動詞") {
        levels("感動詞", "*", "*", "*")
    } else if is_text(&t, "接頭辞") || is_text(&t, "接頭詞") {
        levels("接頭詞", "名詞接続", "*", "*")
    } else if is_text(&t, "記号") || is_text(&t, "補助記号") || is_text(&t, "空白") {
        levels("記号", "一般", "*", "*")
    } else if is_text(&t, "フィラー") {
        levels("フィラー", "*", "*", "*")
    } else {
        levels("その他", "*", "*", "*")
    }
}

} // verus!
