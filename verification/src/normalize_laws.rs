//! What holds of the normalization of inflection types and forms whatever
//! the input: the result is in the target vocabulary, a value of the
//! vocabulary is kept, and normalizing twice gives what normalizing once
//! gives.

use crate::normalize::{
    cform_candidate, cform_canonical, cform_fallback, ctype_candidate, ctype_canonical,
    ctype_fallback, ctype_rewritten, ctype_rules, dashes_to_dots, is_allowed_cform,
    is_allowed_ctype, is_dash, rewritten_from, text_or_star,
};
use crate::text::{is_space, replace_all, trim_end, trim_start, without_spaces};
use vstd::prelude::*;

verus! {

/// The canonical inflection type of any value is in the allowed set, of
/// which the sentinel is a member.
pub proof fn lemma_ctype_canonical_is_allowed(value: Seq<char>)
    ensures
        is_allowed_ctype(ctype_canonical(value)),
{
}

/// The canonical inflection form of any value is in the allowed set, of
/// which the sentinel is a member.
pub proof fn lemma_cform_canonical_is_allowed(value: Seq<char>)
    ensures
        is_allowed_cform(cform_canonical(value)),
{
}

/// Whether the two characters that begin the name of the irregular verb
/// class stand at `i` in `s`.
pub open spec fn class_name_at(s: Seq<char>, i: int) -> bool {
    0 <= i && i + 1 < s.len() && s[i] == 'サ' && s[i + 1] == '変'
}

/// Whether the character at `i` in `s` is no whitespace and no dash, and
/// the name of the irregular verb class does not begin there.
pub open spec fn is_quiet_at(s: Seq<char>, i: int) -> bool {
    !is_space(s[i]) && !is_dash(s[i]) && !class_name_at(s, i)
}

/// Whether no step of the normalization changes `s`: it is not empty,
/// holds no whitespace and no dash, does not name the irregular verb
/// class, and is not the historical spelling.
pub open spec fn is_untouched(s: Seq<char>) -> bool {
    &&& s.len() > 0
    &&& forall|i: int| 0 <= i < s.len() ==> #[trigger] is_quiet_at(s, i)
    &&& s != "五段・ワア行"@
}

/// A text that no step changes holds no whitespace, no dash and no name of
/// the irregular verb class.
pub proof fn lemma_untouched_chars(s: Seq<char>)
    requires
        is_untouched(s),
    ensures
        forall|i: int| 0 <= i < s.len() ==> !is_space(#[trigger] s[i]) && !is_dash(s[i]),
        forall|i: int| !#[trigger] class_name_at(s, i),
{
    assert forall|i: int| 0 <= i < s.len() implies !is_space(#[trigger] s[i]) && !is_dash(
        s[i],
    ) by {
        assert(is_quiet_at(s, i));
    }
    assert forall|i: int| !#[trigger] class_name_at(s, i) by {
        if 0 <= i < s.len() {
            assert(is_quiet_at(s, i));
        }
    }
}

/// The inflection type before the literal rewrites: trimmed, freed of
/// whitespace, with dots for dashes.
pub open spec fn ctype_prepared(value: Seq<char>) -> Seq<char> {
    dashes_to_dots(without_spaces(text_or_star(value)))
}

/// A text without whitespace is its own trimmed text and loses nothing
/// when whitespace is removed.
pub proof fn lemma_settled_text(s: Seq<char>)
    requires
        s.len() > 0,
        forall|i: int| 0 <= i < s.len() ==> !is_space(#[trigger] s[i]),
    ensures
        text_or_star(s) == s,
        without_spaces(s) == s,
{
    assert(trim_start(s) == s);
    assert(trim_end(s) == s);
    lemma_filter_keeps(s);
}

/// Removing whitespace keeps a text that holds none.
pub proof fn lemma_filter_keeps(s: Seq<char>)
    requires
        forall|i: int| 0 <= i < s.len() ==> !is_space(#[trigger] s[i]),
    ensures
        without_spaces(s) == s,
    decreases s.len(),
{
    let keep = |c: char| !is_space(c);
    if s.len() == 0 {
        s.lemma_filter_len(keep);
        assert(s.filter(keep) =~= s);
    } else {
        let init = s.drop_last();
        assert forall|i: int| 0 <= i < init.len() implies !is_space(#[trigger] init[i]) by {
            assert(init[i] == s[i]);
        }
        lemma_filter_keeps(init);
        init.lemma_filter_push(s.last(), keep);
        assert(init.push(s.last()) =~= s);
    }
}

/// After dashes are replaced by dots no dash is left.
pub proof fn lemma_dots_have_no_dash(s: Seq<char>)
    ensures
        forall|i: int| 0 <= i < dashes_to_dots(s).len() ==> !is_dash(#[trigger] dashes_to_dots(s)[i]),
{
}

/// A rewrite whose pattern begins with the name of the irregular verb
/// class keeps a text in which that name does not occur.
pub proof fn lemma_replace_without_class_name(s: Seq<char>, from: Seq<char>, to: Seq<char>)
    requires
        from.len() >= 2,
        from[0] == 'サ',
        from[1] == '変',
        forall|i: int| !#[trigger] class_name_at(s, i),
    ensures
        replace_all(s, from, to) == s,
    decreases s.len(),
{
    if s.len() >= from.len() {
        assert(!class_name_at(s, 0));
        if from.is_prefix_of(s) {
            assert(s.subrange(0, from.len() as int)[0] == from[0]);
            assert(s.subrange(0, from.len() as int)[1] == from[1]);
        }
        let rest = s.skip(1);
        assert forall|i: int| !#[trigger] class_name_at(rest, i) by {
            assert(!class_name_at(s, i + 1));
        }
        lemma_replace_without_class_name(rest, from, to);
        assert(seq![s[0]] + rest =~= s);
    }
}

/// A rewrite whose pattern begins with the name of the irregular verb
/// class keeps a text that begins with that name, differs from the pattern
/// at `j`, and does not hold the name a second time.
pub proof fn lemma_replace_mismatch(s: Seq<char>, from: Seq<char>, to: Seq<char>, j: int)
    requires
        from.len() >= 2,
        from[0] == 'サ',
        from[1] == '変',
        forall|i: int| i != 0 ==> !#[trigger] class_name_at(s, i),
        0 <= j < from.len(),
        j < s.len(),
        s[j] != from[j],
    ensures
        replace_all(s, from, to) == s,
{
    if s.len() >= from.len() {
        if from.is_prefix_of(s) {
            assert(s.subrange(0, from.len() as int)[j] == from[j]);
        }
        let rest = s.skip(1);
        assert forall|i: int| !#[trigger] class_name_at(rest, i) by {
            if i >= 0 {
                assert(!class_name_at(s, i + 1));
            }
        }
        lemma_replace_without_class_name(rest, from, to);
        assert(seq![s[0]] + rest =~= s);
    }
}

/// A rewrite replaces a text that is its pattern by the replacement.
pub proof fn lemma_replace_whole(from: Seq<char>, to: Seq<char>)
    requires
        from.len() > 0,
    ensures
        replace_all(from, from, to) == to,
{
    assert(from.subrange(0, from.len() as int) =~= from);
    let rest = from.skip(from.len() as int);
    assert(rest.len() == 0);
    assert(replace_all(rest, from, to) == rest);
    assert(to + rest =~= to);
}

/// Whether every pattern of `rules` begins with the name of the irregular
/// verb class.
pub open spec fn patterns_name_the_class(rules: Seq<(Seq<char>, Seq<char>)>) -> bool {
    forall|k: int|
        0 <= k < rules.len() ==> (#[trigger] rules[k]).0.len() >= 2 && rules[k].0[0] == 'サ'
            && rules[k].0[1] == '変'
}

/// The patterns of the rewrites all begin with the name of the irregular
/// verb class.
pub proof fn lemma_rules_name_the_class()
    ensures
        patterns_name_the_class(ctype_rules()),
{
    reveal_strlit("サ変・スル");
    reveal_strlit("サ変・ズル");
    reveal_strlit("サ変・ｰスル");
    reveal_strlit("サ変・ｰズル");
    reveal_strlit("サ変・ースル");
    reveal_strlit("サ変・ーズル");
    reveal_strlit("サ変・・スル");
    reveal_strlit("サ変・・ズル");
    let rules = ctype_rules();
    assert forall|k: int| 0 <= k < rules.len() implies (#[trigger] rules[k]).0.len() >= 2
        && rules[k].0[0] == 'サ' && rules[k].0[1] == '変' by {
        if k == 0 {} else if k == 1 {} else if k == 2 {} else if k == 3 {} else if k == 4 {} else if k == 5 {} else if k == 6 {} else if k == 7 {}
    }
}

/// Rules whose patterns begin with the name of the irregular verb class
/// keep a text in which that name does not occur.
pub proof fn lemma_rules_keep(s: Seq<char>, rules: Seq<(Seq<char>, Seq<char>)>, k: nat)
    requires
        patterns_name_the_class(rules),
        forall|i: int| !#[trigger] class_name_at(s, i),
    ensures
        rewritten_from(s, rules, k) == s,
    decreases rules.len() - k,
{
    if k < rules.len() {
        assert(rules[k as int].0.len() >= 2);
        lemma_replace_without_class_name(s, rules[k as int].0, rules[k as int].1);
        lemma_rules_keep(s, rules, k + 1);
    }
}

/// The literal rewrites keep a text that none of them applies to.
pub proof fn lemma_rewrite_keeps_untouched(s: Seq<char>)
    requires
        is_untouched(s),
    ensures
        ctype_rewritten(s) == s,
{
    lemma_untouched_chars(s);
    lemma_rules_name_the_class();
    lemma_rules_keep(s, ctype_rules(), 0);
}

/// A text that no rewrite applies to is its own candidate.
pub proof fn lemma_untouched_is_its_candidate(s: Seq<char>)
    requires
        is_untouched(s),
    ensures
        ctype_candidate(s) == s,
{
    lemma_untouched_chars(s);
    lemma_settled_text(s);
    assert(dashes_to_dots(s) =~= s);
    lemma_rewrite_keeps_untouched(s);
}

/// The plain spelling of the first irregular verb class is rewritten to
/// its canonical spelling.
pub proof fn lemma_rewrite_plain_spelling()
    ensures
        ctype_rewritten("サ変・スル"@) == "サ変・−スル"@,
{
    reveal_strlit("サ変・−スル");
    reveal_strlit("サ変・−ズル");
    reveal_strlit("サ変・スル");
    reveal_strlit("サ変・ズル");
    reveal_strlit("サ変・・スル");
    reveal_strlit("サ変・・ズル");
    reveal_strlit("サ変・ースル");
    reveal_strlit("サ変・ーズル");
    reveal_strlit("サ変・ｰスル");
    reveal_strlit("サ変・ｰズル");
    reveal_strlit("五段・ワア行");
    assert("サ変・スル"@[0] != "五段・ワア行"@[0]);
    let r = ctype_rules();
    lemma_replace_whole("サ変・スル"@, "サ変・−スル"@);
    lemma_replace_mismatch("サ変・−スル"@, "サ変・ズル"@, "サ変・−ズル"@, 3);
    lemma_replace_mismatch("サ変・−スル"@, "サ変・ｰスル"@, "サ変・−スル"@, 3);
    lemma_replace_mismatch("サ変・−スル"@, "サ変・ｰズル"@, "サ変・−ズル"@, 3);
    lemma_replace_mismatch("サ変・−スル"@, "サ変・ースル"@, "サ変・−スル"@, 3);
    lemma_replace_mismatch("サ変・−スル"@, "サ変・ーズル"@, "サ変・−ズル"@, 3);
    lemma_replace_mismatch("サ変・−スル"@, "サ変・・スル"@, "サ変・−スル"@, 3);
    lemma_replace_mismatch("サ変・−スル"@, "サ変・・ズル"@, "サ変・−ズル"@, 3);
    assert(rewritten_from("サ変・−スル"@, r, 8) == "サ変・−スル"@);
    assert(r[7] == ("サ変・・ズル"@, "サ変・−ズル"@));
    assert(rewritten_from("サ変・−スル"@, r, 7) == "サ変・−スル"@);
    assert(r[6] == ("サ変・・スル"@, "サ変・−スル"@));
    assert(rewritten_from("サ変・−スル"@, r, 6) == "サ変・−スル"@);
    assert(r[5] == ("サ変・ーズル"@, "サ変・−ズル"@));
    assert(rewritten_from("サ変・−スル"@, r, 5) == "サ変・−スル"@);
    assert(r[4] == ("サ変・ースル"@, "サ変・−スル"@));
    assert(rewritten_from("サ変・−スル"@, r, 4) == "サ変・−スル"@);
    assert(r[3] == ("サ変・ｰズル"@, "サ変・−ズル"@));
    assert(rewritten_from("サ変・−スル"@, r, 3) == "サ変・−スル"@);
    assert(r[2] == ("サ変・ｰスル"@, "サ変・−スル"@));
    assert(rewritten_from("サ変・−スル"@, r, 2) == "サ変・−スル"@);
    assert(r[1] == ("サ変・ズル"@, "サ変・−ズル"@));
    assert(rewritten_from("サ変・−スル"@, r, 1) == "サ変・−スル"@);
    assert(r[0] == ("サ変・スル"@, "サ変・−スル"@));
    assert(rewritten_from("サ変・スル"@, r, 0) == "サ変・−スル"@);
}

/// The canonical spelling of the first irregular verb class is its own
/// candidate: its minus sign becomes a dot, and the rewrite of the doubled
/// dot brings the minus sign back.
pub proof fn lemma_canonical_spelling_is_its_candidate()
    ensures
        ctype_candidate("サ変・−スル"@) == "サ変・−スル"@,
{
    reveal_strlit("サ変・−スル");
    reveal_strlit("サ変・−ズル");
    reveal_strlit("サ変・スル");
    reveal_strlit("サ変・ズル");
    reveal_strlit("サ変・・スル");
    reveal_strlit("サ変・・ズル");
    reveal_strlit("サ変・ースル");
    reveal_strlit("サ変・ーズル");
    reveal_strlit("サ変・ｰスル");
    reveal_strlit("サ変・ｰズル");
    reveal_strlit("五段・ワア行");
    let m = "サ変・−スル"@;
    let d = "サ変・・スル"@;
    assert forall|i: int| 0 <= i < m.len() implies !is_space(#[trigger] m[i]) by {}
    lemma_settled_text(m);
    assert(dashes_to_dots(m) =~= d);
    assert(d[0] != "五段・ワア行"@[0]);
    let r = ctype_rules();
    lemma_replace_mismatch("サ変・・スル"@, "サ変・スル"@, "サ変・−スル"@, 3);
    lemma_replace_mismatch("サ変・・スル"@, "サ変・ズル"@, "サ変・−ズル"@, 3);
    lemma_replace_mismatch("サ変・・スル"@, "サ変・ｰスル"@, "サ変・−スル"@, 3);
    lemma_replace_mismatch("サ変・・スル"@, "サ変・ｰズル"@, "サ変・−ズル"@, 3);
    lemma_replace_mismatch("サ変・・スル"@, "サ変・ースル"@, "サ変・−スル"@, 3);
    lemma_replace_mismatch("サ変・・スル"@, "サ変・ーズル"@, "サ変・−ズル"@, 3);
    lemma_replace_whole("サ変・・スル"@, "サ変・−スル"@);
    lemma_replace_mismatch("サ変・−スル"@, "サ変・・ズル"@, "サ変・−ズル"@, 3);
    assert(rewritten_from("サ変・−スル"@, r, 8) == "サ変・−スル"@);
    assert(r[7] == ("サ変・・ズル"@, "サ変・−ズル"@));
    assert(rewritten_from("サ変・−スル"@, r, 7) == "サ変・−スル"@);
    assert(r[6] == ("サ変・・スル"@, "サ変・−スル"@));
    assert(rewritten_from("サ変・・スル"@, r, 6) == "サ変・−スル"@);
    assert(r[5] == ("サ変・ーズル"@, "サ変・−ズル"@));
    assert(rewritten_from("サ変・・スル"@, r, 5) == "サ変・−スル"@);
    assert(r[4] == ("サ変・ースル"@, "サ変・−スル"@));
    assert(rewritten_from("サ変・・スル"@, r, 4) == "サ変・−スル"@);
    assert(r[3] == ("サ変・ｰズル"@, "サ変・−ズル"@));
    assert(rewritten_from("サ変・・スル"@, r, 3) == "サ変・−スル"@);
    assert(r[2] == ("サ変・ｰスル"@, "サ変・−スル"@));
    assert(rewritten_from("サ変・・スル"@, r, 2) == "サ変・−スル"@);
    assert(r[1] == ("サ変・ズル"@, "サ変・−ズル"@));
    assert(rewritten_from("サ変・・スル"@, r, 1) == "サ変・−スル"@);
    assert(r[0] == ("サ変・スル"@, "サ変・−スル"@));
    assert(rewritten_from("サ変・・スル"@, r, 0) == "サ変・−スル"@);
}

proof fn lemma_untouched_values_0(s: Seq<char>)
    requires
        s == "*"@
            || s == "ラ変"@
            || s == "不変化型"@
            || s == "カ変・クル"@
            || s == "カ変・来ル"@
            || s == "一段"@,
    ensures
        is_untouched(s),
{
    reveal_strlit("五段・ワア行");
    if s == "*"@ {
        reveal_strlit("*");
        assert(s.len() == 1);
        assert forall|i: int| 0 <= i < s.len() implies #[trigger] is_quiet_at(s, i) by {
            if i == 0 {}
        }
        assert(s.len() != "五段・ワア行"@.len());
    }
    if s == "ラ変"@ {
        reveal_strlit("ラ変");
        assert(s.len() == 2);
        assert forall|i: int| 0 <= i < s.len() implies #[trigger] is_quiet_at(s, i) by {
            if i == 0 {} else if i == 1 {}
        }
        assert(s.len() != "五段・ワア行"@.len());
    }
    if s == "不変化型"@ {
        reveal_strlit("不変化型");
        assert(s.len() == 4);
        assert forall|i: int| 0 <= i < s.len() implies #[trigger] is_quiet_at(s, i) by {
            if i == 0 {} else if i == 1 {} else if i == 2 {} else if i == 3 {}
        }
        assert(s.len() != "五段・ワア行"@.len());
    }
    if s == "カ変・クル"@ {
        reveal_strlit("カ変・クル");
        assert(s.len() == 5);
        assert forall|i: int| 0 <= i < s.len() implies #[trigger] is_quiet_at(s, i) by {
            if i == 0 {} else if i == 1 {} else if i == 2 {} else if i == 3 {} else if i == 4 {}
        }
        assert(s.len() != "五段・ワア行"@.len());
    }
    if s == "カ変・来ル"@ {
        reveal_strlit("カ変・来ル");
        assert(s.len() == 5);
        assert forall|i: int| 0 <= i < s.len() implies #[trigger] is_quiet_at(s, i) by {
            if i == 0 {} else if i == 1 {} else if i == 2 {} else if i == 3 {} else if i == 4 {}
        }
        assert(s.len() != "五段・ワア行"@.len());
    }
    if s == "一段"@ {
        reveal_strlit("一段");
        assert(s.len() == 2);
        assert forall|i: int| 0 <= i < s.len() implies #[trigger] is_quiet_at(s, i) by {
            if i == 0 {} else if i == 1 {}
        }
        assert(s.len() != "五段・ワア行"@.len());
    }
}

proof fn lemma_untouched_values_1(s: Seq<char>)
    requires
        s == "一段・病メル"@
            || s == "一段・クレル"@
            || s == "一段・得ル"@
            || s == "一段・ル"@
            || s == "下二・ア行"@
            || s == "下二・カ行"@,
    ensures
        is_untouched(s),
{
    reveal_strlit("五段・ワア行");
    if s == "一段・病メル"@ {
        reveal_strlit("一段・病メル");
        assert(s.len() == 6);
        assert forall|i: int| 0 <= i < s.len() implies #[trigger] is_quiet_at(s, i) by {
            if i == 0 {} else if i == 1 {} else if i == 2 {} else if i == 3 {} else if i == 4 {} else if i == 5 {}
        }
        assert(s[0] != "五段・ワア行"@[0]);
    }
    if s == "一段・クレル"@ {
        reveal_strlit("一段・クレル");
        assert(s.len() == 6);
        assert forall|i: int| 0 <= i < s.len() implies #[trigger] is_quiet_at(s, i) by {
            if i == 0 {} else if i == 1 {} else if i == 2 {} else if i == 3 {} else if i == 4 {} else if i == 5 {}
        }
        assert(s[0] != "五段・ワア行"@[0]);
    }
    if s == "一段・得ル"@ {
        reveal_strlit("一段・得ル");
        assert(s.len() == 5);
        assert forall|i: int| 0 <= i < s.len() implies #[trigger] is_quiet_at(s, i) by {
            if i == 0 {} else if i == 1 {} else if i == 2 {} else if i == 3 {} else if i == 4 {}
        }
        assert(s.len() != "五段・ワア行"@.len());
    }
    if s == "一段・ル"@ {
        reveal_strlit("一段・ル");
        assert(s.len() == 4);
        assert forall|i: int| 0 <= i < s.len() implies #[trigger] is_quiet_at(s, i) by {
            if i == 0 {} else if i == 1 {} else if i == 2 {} else if i == 3 {}
        }
        assert(s.len() != "五段・ワア行"@.len());
    }
    if s == "下二・ア行"@ {
        reveal_strlit("下二・ア行");
        assert(s.len() == 5);
        assert forall|i: int| 0 <= i < s.len() implies #[trigger] is_quiet_at(s, i) by {
            if i == 0 {} else if i == 1 {} else if i == 2 {} else if i == 3 {} else if i == 4 {}
        }
        assert(s.len() != "五段・ワア行"@.len());
    }
    if s == "下二・カ行"@ {
        reveal_strlit("下二・カ行");
        assert(s.len() == 5);
        assert forall|i: int| 0 <= i < s.len() implies #[trigger] is_quiet_at(s, i) by {
            if i == 0 {} else if i == 1 {} else if i == 2 {} else if i == 3 {} else if i == 4 {}
        }
        assert(s.len() != "五段・ワア行"@.len());
    }
}

proof fn lemma_untouched_values_2(s: Seq<char>)
    requires
        s == "下二・ガ行"@
            || s == "下二・サ行"@
            || s == "下二・ザ行"@
            || s == "下二・タ行"@
            || s == "下二・ダ行"@
            || s == "下二・ナ行"@,
    ensures
        is_untouched(s),
{
    reveal_strlit("五段・ワア行");
    if s == "下二・ガ行"@ {
        reveal_strlit("下二・ガ行");
        assert(s.len() == 5);
        assert forall|i: int| 0 <= i < s.len() implies #[trigger] is_quiet_at(s, i) by {
            if i == 0 {} else if i == 1 {} else if i == 2 {} else if i == 3 {} else if i == 4 {}
        }
        assert(s.len() != "五段・ワア行"@.len());
    }
    if s == "下二・サ行"@ {
        reveal_strlit("下二・サ行");
        assert(s.len() == 5);
        assert forall|i: int| 0 <= i < s.len() implies #[trigger] is_quiet_at(s, i) by {
            if i == 0 {} else if i == 1 {} else if i == 2 {} else if i == 3 {} else if i == 4 {}
        }
        assert(s.len() != "五段・ワア行"@.len());
    }
    if s == "下二・ザ行"@ {
        reveal_strlit("下二・ザ行");
        assert(s.len() == 5);
        assert forall|i: int| 0 <= i < s.len() implies #[trigger] is_quiet_at(s, i) by {
            if i == 0 {} else if i == 1 {} else if i == 2 {} else if i == 3 {} else if i == 4 {}
        }
        assert(s.len() != "五段・ワア行"@.len());
    }
    if s == "下二・タ行"@ {
        reveal_strlit("下二・タ行");
        assert(s.len() == 5);
        assert forall|i: int| 0 <= i < s.len() implies #[trigger] is_quiet_at(s, i) by {
            if i == 0 {} else if i == 1 {} else if i == 2 {} else if i == 3 {} else if i == 4 {}
        }
        assert(s.len() != "五段・ワア行"@.len());
    }
    if s == "下二・ダ行"@ {
        reveal_strlit("下二・ダ行");
        assert(s.len() == 5);
        assert forall|i: int| 0 <= i < s.len() implies #[trigger] is_quiet_at(s, i) by {
            if i == 0 {} else if i == 1 {} else if i == 2 {} else if i == 3 {} else if i == 4 {}
        }
        assert(s.len() != "五段・ワア行"@.len());
    }
    if s == "下二・ナ行"@ {
        reveal_strlit("下二・ナ行");
        assert(s.len() == 5);
        assert forall|i: int| 0 <= i < s.len() implies #[trigger] is_quiet_at(s, i) by {
            if i == 0 {} else if i == 1 {} else if i == 2 {} else if i == 3 {} else if i == 4 {}
        }
        assert(s.len() != "五段・ワア行"@.len());
    }
}

proof fn lemma_untouched_values_3(s: Seq<char>)
    requires
        s == "下二・ハ行"@
            || s == "下二・バ行"@
            || s == "下二・マ行"@
            || s == "下二・ヤ行"@
            || s == "下二・ラ行"@
            || s == "下二・ワ行"@,
    ensures
        is_untouched(s),
{
    reveal_strlit("五段・ワア行");
    if s == "下二・ハ行"@ {
        reveal_strlit("下二・ハ行");
        assert(s.len() == 5);
        assert forall|i: int| 0 <= i < s.len() implies #[trigger] is_quiet_at(s, i) by {
            if i == 0 {} else if i == 1 {} else if i == 2 {} else if i == 3 {} else if i == 4 {}
        }
        assert(s.len() != "五段・ワア行"@.len());
    }
    if s == "下二・バ行"@ {
        reveal_strlit("下二・バ行");
        assert(s.len() == 5);
        assert forall|i: int| 0 <= i < s.len() implies #[trigger] is_quiet_at(s, i) by {
            if i == 0 {} else if i == 1 {} else if i == 2 {} else if i == 3 {} else if i == 4 {}
        }
        assert(s.len() != "五段・ワア行"@.len());
    }
    if s == "下二・マ行"@ {
        reveal_strlit("下二・マ行");
        assert(s.len() == 5);
        assert forall|i: int| 0 <= i < s.len() implies #[trigger] is_quiet_at(s, i) by {
            if i == 0 {} else if i == 1 {} else if i == 2 {} else if i == 3 {} else if i == 4 {}
        }
        assert(s.len() != "五段・ワア行"@.len());
    }
    if s == "下二・ヤ行"@ {
        reveal_strlit("下二・ヤ行");
        assert(s.len() == 5);
        assert forall|i: int| 0 <= i < s.len() implies #[trigger] is_quiet_at(s, i) by {
            if i == 0 {} else if i == 1 {} else if i == 2 {} else if i == 3 {} else if i == 4 {}
        }
        assert(s.len() != "五段・ワア行"@.len());
    }
    if s == "下二・ラ行"@ {
        reveal_strlit("下二・ラ行");
        assert(s.len() == 5);
        assert forall|i: int| 0 <= i < s.len() implies #[trigger] is_quiet_at(s, i) by {
            if i == 0 {} else if i == 1 {} else if i == 2 {} else if i == 3 {} else if i == 4 {}
        }
        assert(s.len() != "五段・ワア行"@.len());
    }
    if s == "下二・ワ行"@ {
        reveal_strlit("下二・ワ行");
        assert(s.len() == 5);
        assert forall|i: int| 0 <= i < s.len() implies #[trigger] is_quiet_at(s, i) by {
            if i == 0 {} else if i == 1 {} else if i == 2 {} else if i == 3 {} else if i == 4 {}
        }
        assert(s.len() != "五段・ワア行"@.len());
    }
}

proof fn lemma_untouched_values_4(s: Seq<char>)
    requires
        s == "下二・得"@
            || s == "形容詞・アウオ段"@
            || s == "形容詞・イ段"@
            || s == "形容詞・イイ"@
            || s == "五段・カ行イ音便"@
            || s == "五段・カ行促音便"@,
    ensures
        is_untouched(s),
{
    reveal_strlit("五段・ワア行");
    if s == "下二・得"@ {
        reveal_strlit("下二・得");
        assert(s.len() == 4);
        assert forall|i: int| 0 <= i < s.len() implies #[trigger] is_quiet_at(s, i) by {
            if i == 0 {} else if i == 1 {} else if i == 2 {} else if i == 3 {}
        }
        assert(s.len() != "五段・ワア行"@.len());
    }
    if s == "形容詞・アウオ段"@ {
        reveal_strlit("形容詞・アウオ段");
        assert(s.len() == 8);
        assert forall|i: int| 0 <= i < s.len() implies #[trigger] is_quiet_at(s, i) by {
            if i == 0 {} else if i == 1 {} else if i == 2 {} else if i == 3 {} else if i == 4 {} else if i == 5 {} else if i == 6 {} else if i == 7 {}
        }
        assert(s.len() != "五段・ワア行"@.len());
    }
    if s == "形容詞・イ段"@ {
        reveal_strlit("形容詞・イ段");
        assert(s.len() == 6);
        assert forall|i: int| 0 <= i < s.len() implies #[trigger] is_quiet_at(s, i) by {
            if i == 0 {} else if i == 1 {} else if i == 2 {} else if i == 3 {} else if i == 4 {} else if i == 5 {}
        }
        assert(s[0] != "五段・ワア行"@[0]);
    }
    if s == "形容詞・イイ"@ {
        reveal_strlit("形容詞・イイ");
        assert(s.len() == 6);
        assert forall|i: int| 0 <= i < s.len() implies #[trigger] is_quiet_at(s, i) by {
            if i == 0 {} else if i == 1 {} else if i == 2 {} else if i == 3 {} else if i == 4 {} else if i == 5 {}
        }
        assert(s[0] != "五段・ワア行"@[0]);
    }
    if s == "五段・カ行イ音便"@ {
        reveal_strlit("五段・カ行イ音便");
        assert(s.len() == 8);
        assert forall|i: int| 0 <= i < s.len() implies #[trigger] is_quiet_at(s, i) by {
            if i == 0 {} else if i == 1 {} else if i == 2 {} else if i == 3 {} else if i == 4 {} else if i == 5 {} else if i == 6 {} else if i == 7 {}
        }
        assert(s.len() != "五段・ワア行"@.len());
    }
    if s == "五段・カ行促音便"@ {
        reveal_strlit("五段・カ行促音便");
        assert(s.len() == 8);
        assert forall|i: int| 0 <= i < s.len() implies #[trigger] is_quiet_at(s, i) by {
            if i == 0 {} else if i == 1 {} else if i == 2 {} else if i == 3 {} else if i == 4 {} else if i == 5 {} else if i == 6 {} else if i == 7 {}
        }
        assert(s.len() != "五段・ワア行"@.len());
    }
}

proof fn lemma_untouched_values_5(s: Seq<char>)
    requires
        s == "五段・カ行促音便ユク"@
            || s == "五段・ガ行"@
            || s == "五段・サ行"@
            || s == "五段・タ行"@
            || s == "五段・ナ行"@
            || s == "五段・バ行"@,
    ensures
        is_untouched(s),
{
    reveal_strlit("五段・ワア行");
    if s == "五段・カ行促音便ユク"@ {
        reveal_strlit("五段・カ行促音便ユク");
        assert(s.len() == 10);
        assert forall|i: int| 0 <= i < s.len() implies #[trigger] is_quiet_at(s, i) by {
            if i == 0 {} else if i == 1 {} else if i == 2 {} else if i == 3 {} else if i == 4 {} else if i == 5 {} else if i == 6 {} else if i == 7 {} else if i == 8 {} else if i == 9 {}
        }
        assert(s.len() != "五段・ワア行"@.len());
    }
    if s == "五段・ガ行"@ {
        reveal_strlit("五段・ガ行");
        assert(s.len() == 5);
        assert forall|i: int| 0 <= i < s.len() implies #[trigger] is_quiet_at(s, i) by {
            if i == 0 {} else if i == 1 {} else if i == 2 {} else if i == 3 {} else if i == 4 {}
        }
        assert(s.len() != "五段・ワア行"@.len());
    }
    if s == "五段・サ行"@ {
        reveal_strlit("五段・サ行");
        assert(s.len() == 5);
        assert forall|i: int| 0 <= i < s.len() implies #[trigger] is_quiet_at(s, i) by {
            if i == 0 {} else if i == 1 {} else if i == 2 {} else if i == 3 {} else if i == 4 {}
        }
        assert(s.len() != "五段・ワア行"@.len());
    }
    if s == "五段・タ行"@ {
        reveal_strlit("五段・タ行");
        assert(s.len() == 5);
        assert forall|i: int| 0 <= i < s.len() implies #[trigger] is_quiet_at(s, i) by {
            if i == 0 {} else if i == 1 {} else if i == 2 {} else if i == 3 {} else if i == 4 {}
        }
        assert(s.len() != "五段・ワア行"@.len());
    }
    if s == "五段・ナ行"@ {
        reveal_strlit("五段・ナ行");
        assert(s.len() == 5);
        assert forall|i: int| 0 <= i < s.len() implies #[trigger] is_quiet_at(s, i) by {
            if i == 0 {} else if i == 1 {} else if i == 2 {} else if i == 3 {} else if i == 4 {}
        }
        assert(s.len() != "五段・ワア行"@.len());
    }
    if s == "五段・バ行"@ {
        reveal_strlit("五段・バ行");
        assert(s.len() == 5);
        assert forall|i: int| 0 <= i < s.len() implies #[trigger] is_quiet_at(s, i) by {
            if i == 0 {} else if i == 1 {} else if i == 2 {} else if i == 3 {} else if i == 4 {}
        }
        assert(s.len() != "五段・ワア行"@.len());
    }
}

proof fn lemma_untouched_values_6(s: Seq<char>)
    requires
        s == "五段・マ行"@
            || s == "五段・ラ行"@
            || s == "五段・ラ行アル"@
            || s == "五段・ラ行特殊"@
            || s == "五段・ワ行ウ音便"@
            || s == "五段・ワ行促音便"@,
    ensures
        is_untouched(s),
{
    reveal_strlit("五段・ワア行");
    if s == "五段・マ行"@ {
        reveal_strlit("五段・マ行");
        assert(s.len() == 5);
        assert forall|i: int| 0 <= i < s.len() implies #[trigger] is_quiet_at(s, i) by {
            if i == 0 {} else if i == 1 {} else if i == 2 {} else if i == 3 {} else if i == 4 {}
        }
        assert(s.len() != "五段・ワア行"@.len());
    }
    if s == "五段・ラ行"@ {
        reveal_strlit("五段・ラ行");
        assert(s.len() == 5);
        assert forall|i: int| 0 <= i < s.len() implies #[trigger] is_quiet_at(s, i) by {
            if i == 0 {} else if i == 1 {} else if i == 2 {} else if i == 3 {} else if i == 4 {}
        }
        assert(s.len() != "五段・ワア行"@.len());
    }
    if s == "五段・ラ行アル"@ {
        reveal_strlit("五段・ラ行アル");
        assert(s.len() == 7);
        assert forall|i: int| 0 <= i < s.len() implies #[trigger] is_quiet_at(s, i) by {
            if i == 0 {} else if i == 1 {} else if i == 2 {} else if i == 3 {} else if i == 4 {} else if i == 5 {} else if i == 6 {}
        }
        assert(s.len() != "五段・ワア行"@.len());
    }
    if s == "五段・ラ行特殊"@ {
        reveal_strlit("五段・ラ行特殊");
        assert(s.len() == 7);
        assert forall|i: int| 0 <= i < s.len() implies #[trigger] is_quiet_at(s, i) by {
            if i == 0 {} else if i == 1 {} else if i == 2 {} else if i == 3 {} else if i == 4 {} else if i == 5 {} else if i == 6 {}
        }
        assert(s.len() != "五段・ワア行"@.len());
    }
    if s == "五段・ワ行ウ音便"@ {
        reveal_strlit("五段・ワ行ウ音便");
        assert(s.len() == 8);
        assert forall|i: int| 0 <= i < s.len() implies #[trigger] is_quiet_at(s, i) by {
            if i == 0 {} else if i == 1 {} else if i == 2 {} else if i == 3 {} else if i == 4 {} else if i == 5 {} else if i == 6 {} else if i == 7 {}
        }
        assert(s.len() != "五段・ワア行"@.len());
    }
    if s == "五段・ワ行促音便"@ {
        reveal_strlit("五段・ワ行促音便");
        assert(s.len() == 8);
        assert forall|i: int| 0 <= i < s.len() implies #[trigger] is_quiet_at(s, i) by {
            if i == 0 {} else if i == 1 {} else if i == 2 {} else if i == 3 {} else if i == 4 {} else if i == 5 {} else if i == 6 {} else if i == 7 {}
        }
        assert(s.len() != "五段・ワア行"@.len());
    }
}

proof fn lemma_untouched_values_7(s: Seq<char>)
    requires
        s == "四段・カ行"@
            || s == "四段・ガ行"@
            || s == "四段・サ行"@
            || s == "四段・タ行"@
            || s == "四段・バ行"@
            || s == "四段・マ行"@,
    ensures
        is_untouched(s),
{
    reveal_strlit("五段・ワア行");
    if s == "四段・カ行"@ {
        reveal_strlit("四段・カ行");
        assert(s.len() == 5);
        assert forall|i: int| 0 <= i < s.len() implies #[trigger] is_quiet_at(s, i) by {
            if i == 0 {} else if i == 1 {} else if i == 2 {} else if i == 3 {} else if i == 4 {}
        }
        assert(s.len() != "五段・ワア行"@.len());
    }
    if s == "四段・ガ行"@ {
        reveal_strlit("四段・ガ行");
        assert(s.len() == 5);
        assert forall|i: int| 0 <= i < s.len() implies #[trigger] is_quiet_at(s, i) by {
            if i == 0 {} else if i == 1 {} else if i == 2 {} else if i == 3 {} else if i == 4 {}
        }
        assert(s.len() != "五段・ワア行"@.len());
    }
    if s == "四段・サ行"@ {
        reveal_strlit("四段・サ行");
        assert(s.len() == 5);
        assert forall|i: int| 0 <= i < s.len() implies #[trigger] is_quiet_at(s, i) by {
            if i == 0 {} else if i == 1 {} else if i == 2 {} else if i == 3 {} else if i == 4 {}
        }
        assert(s.len() != "五段・ワア行"@.len());
    }
    if s == "四段・タ行"@ {
        reveal_strlit("四段・タ行");
        assert(s.len() == 5);
        assert forall|i: int| 0 <= i < s.len() implies #[trigger] is_quiet_at(s, i) by {
            if i == 0 {} else if i == 1 {} else if i == 2 {} else if i == 3 {} else if i == 4 {}
        }
        assert(s.len() != "五段・ワア行"@.len());
    }
    if s == "四段・バ行"@ {
        reveal_strlit("四段・バ行");
        assert(s.len() == 5);
        assert forall|i: int| 0 <= i < s.len() implies #[trigger] is_quiet_at(s, i) by {
            if i == 0 {} else if i == 1 {} else if i == 2 {} else if i == 3 {} else if i == 4 {}
        }
        assert(s.len() != "五段・ワア行"@.len());
    }
    if s == "四段・マ行"@ {
        reveal_strlit("四段・マ行");
        assert(s.len() == 5);
        assert forall|i: int| 0 <= i < s.len() implies #[trigger] is_quiet_at(s, i) by {
            if i == 0 {} else if i == 1 {} else if i == 2 {} else if i == 3 {} else if i == 4 {}
        }
        assert(s.len() != "五段・ワア行"@.len());
    }
}

proof fn lemma_untouched_values_8(s: Seq<char>)
    requires
        s == "四段・ラ行"@
            || s == "四段・ハ行"@
            || s == "上二・ダ行"@
            || s == "上二・ハ行"@
            || s == "特殊・ナイ"@
            || s == "特殊・タイ"@,
    ensures
        is_untouched(s),
{
    reveal_strlit("五段・ワア行");
    if s == "四段・ラ行"@ {
        reveal_strlit("四段・ラ行");
        assert(s.len() == 5);
        assert forall|i: int| 0 <= i < s.len() implies #[trigger] is_quiet_at(s, i) by {
            if i == 0 {} else if i == 1 {} else if i == 2 {} else if i == 3 {} else if i == 4 {}
        }
        assert(s.len() != "五段・ワア行"@.len());
    }
    if s == "四段・ハ行"@ {
        reveal_strlit("四段・ハ行");
        assert(s.len() == 5);
        assert forall|i: int| 0 <= i < s.len() implies #[trigger] is_quiet_at(s, i) by {
            if i == 0 {} else if i == 1 {} else if i == 2 {} else if i == 3 {} else if i == 4 {}
        }
        assert(s.len() != "五段・ワア行"@.len());
    }
    if s == "上二・ダ行"@ {
        reveal_strlit("上二・ダ行");
        assert(s.len() == 5);
        assert forall|i: int| 0 <= i < s.len() implies #[trigger] is_quiet_at(s, i) by {
            if i == 0 {} else if i == 1 {} else if i == 2 {} else if i == 3 {} else if i == 4 {}
        }
        assert(s.len() != "五段・ワア行"@.len());
    }
    if s == "上二・ハ行"@ {
        reveal_strlit("上二・ハ行");
        assert(s.len() == 5);
        assert forall|i: int| 0 <= i < s.len() implies #[trigger] is_quiet_at(s, i) by {
            if i == 0 {} else if i == 1 {} else if i == 2 {} else if i == 3 {} else if i == 4 {}
        }
        assert(s.len() != "五段・ワア行"@.len());
    }
    if s == "特殊・ナイ"@ {
        reveal_strlit("特殊・ナイ");
        assert(s.len() == 5);
        assert forall|i: int| 0 <= i < s.len() implies #[trigger] is_quiet_at(s, i) by {
            if i == 0 {} else if i == 1 {} else if i == 2 {} else if i == 3 {} else if i == 4 {}
        }
        assert(s.len() != "五段・ワア行"@.len());
    }
    if s == "特殊・タイ"@ {
        reveal_strlit("特殊・タイ");
        assert(s.len() == 5);
        assert forall|i: int| 0 <= i < s.len() implies #[trigger] is_quiet_at(s, i) by {
            if i == 0 {} else if i == 1 {} else if i == 2 {} else if i == 3 {} else if i == 4 {}
        }
        assert(s.len() != "五段・ワア行"@.len());
    }
}

proof fn lemma_untouched_values_9(s: Seq<char>)
    requires
        s == "特殊・タ"@
            || s == "特殊・ダ"@
            || s == "特殊・デス"@
            || s == "特殊・ドス"@
            || s == "特殊・ジャ"@
            || s == "特殊・マス"@,
    ensures
        is_untouched(s),
{
    reveal_strlit("五段・ワア行");
    if s == "特殊・タ"@ {
        reveal_strlit("特殊・タ");
        assert(s.len() == 4);
        assert forall|i: int| 0 <= i < s.len() implies #[trigger] is_quiet_at(s, i) by {
            if i == 0 {} else if i == 1 {} else if i == 2 {} else if i == 3 {}
        }
        assert(s.len() != "五段・ワア行"@.len());
    }
    if s == "特殊・ダ"@ {
        reveal_strlit("特殊・ダ");
        assert(s.len() == 4);
        assert forall|i: int| 0 <= i < s.len() implies #[trigger] is_quiet_at(s, i) by {
            if i == 0 {} else if i == 1 {} else if i == 2 {} else if i == 3 {}
        }
        assert(s.len() != "五段・ワア行"@.len());
    }
    if s == "特殊・デス"@ {
        reveal_strlit("特殊・デス");
        assert(s.len() == 5);
        assert forall|i: int| 0 <= i < s.len() implies #[trigger] is_quiet_at(s, i) by {
            if i == 0 {} else if i == 1 {} else if i == 2 {} else if i == 3 {} else if i == 4 {}
        }
        assert(s.len() != "五段・ワア行"@.len());
    }
    if s == "特殊・ドス"@ {
        reveal_strlit("特殊・ドス");
        assert(s.len() == 5);
        assert forall|i: int| 0 <= i < s.len() implies #[trigger] is_quiet_at(s, i) by {
            if i == 0 {} else if i == 1 {} else if i == 2 {} else if i == 3 {} else if i == 4 {}
        }
        assert(s.len() != "五段・ワア行"@.len());
    }
    if s == "特殊・ジャ"@ {
        reveal_strlit("特殊・ジャ");
        assert(s.len() == 5);
        assert forall|i: int| 0 <= i < s.len() implies #[trigger] is_quiet_at(s, i) by {
            if i == 0 {} else if i == 1 {} else if i == 2 {} else if i == 3 {} else if i == 4 {}
        }
        assert(s.len() != "五段・ワア行"@.len());
    }
    if s == "特殊・マス"@ {
        reveal_strlit("特殊・マス");
        assert(s.len() == 5);
        assert forall|i: int| 0 <= i < s.len() implies #[trigger] is_quiet_at(s, i) by {
            if i == 0 {} else if i == 1 {} else if i == 2 {} else if i == 3 {} else if i == 4 {}
        }
        assert(s.len() != "五段・ワア行"@.len());
    }
}

proof fn lemma_untouched_values_10(s: Seq<char>)
    requires
        s == "特殊・ヌ"@
            || s == "特殊・ヤ"@
            || s == "文語・ベシ"@
            || s == "文語・ゴトシ"@
            || s == "文語・ナリ"@
            || s == "文語・マジ"@,
    ensures
        is_untouched(s),
{
    reveal_strlit("五段・ワア行");
    if s == "特殊・ヌ"@ {
        reveal_strlit("特殊・ヌ");
        assert(s.len() == 4);
        assert forall|i: int| 0 <= i < s.len() implies #[trigger] is_quiet_at(s, i) by {
            if i == 0 {} else if i == 1 {} else if i == 2 {} else if i == 3 {}
        }
        assert(s.len() != "五段・ワア行"@.len());
    }
    if s == "特殊・ヤ"@ {
        reveal_strlit("特殊・ヤ");
        assert(s.len() == 4);
        assert forall|i: int| 0 <= i < s.len() implies #[trigger] is_quiet_at(s, i) by {
            if i == 0 {} else if i == 1 {} else if i == 2 {} else if i == 3 {}
        }
        assert(s.len() != "五段・ワア行"@.len());
    }
    if s == "文語・ベシ"@ {
        reveal_strlit("文語・ベシ");
        assert(s.len() == 5);
        assert forall|i: int| 0 <= i < s.len() implies #[trigger] is_quiet_at(s, i) by {
            if i == 0 {} else if i == 1 {} else if i == 2 {} else if i == 3 {} else if i == 4 {}
        }
        assert(s.len() != "五段・ワア行"@.len());
    }
    if s == "文語・ゴトシ"@ {
        reveal_strlit("文語・ゴトシ");
        assert(s.len() == 6);
        assert forall|i: int| 0 <= i < s.len() implies #[trigger] is_quiet_at(s, i) by {
            if i == 0 {} else if i == 1 {} else if i == 2 {} else if i == 3 {} else if i == 4 {} else if i == 5 {}
        }
        assert(s[0] != "五段・ワア行"@[0]);
    }
    if s == "文語・ナリ"@ {
        reveal_strlit("文語・ナリ");
        assert(s.len() == 5);
        assert forall|i: int| 0 <= i < s.len() implies #[trigger] is_quiet_at(s, i) by {
            if i == 0 {} else if i == 1 {} else if i == 2 {} else if i == 3 {} else if i == 4 {}
        }
        assert(s.len() != "五段・ワア行"@.len());
    }
    if s == "文語・マジ"@ {
        reveal_strlit("文語・マジ");
        assert(s.len() == 5);
        assert forall|i: int| 0 <= i < s.len() implies #[trigger] is_quiet_at(s, i) by {
            if i == 0 {} else if i == 1 {} else if i == 2 {} else if i == 3 {} else if i == 4 {}
        }
        assert(s.len() != "五段・ワア行"@.len());
    }
}

proof fn lemma_untouched_values_11(s: Seq<char>)
    requires
        s == "文語・シム"@
            || s == "文語・キ"@
            || s == "文語・ケリ"@
            || s == "文語・ル"@
            || s == "文語・リ"@,
    ensures
        is_untouched(s),
{
    reveal_strlit("五段・ワア行");
    if s == "文語・シム"@ {
        reveal_strlit("文語・シム");
        assert(s.len() == 5);
        assert forall|i: int| 0 <= i < s.len() implies #[trigger] is_quiet_at(s, i) by {
            if i == 0 {} else if i == 1 {} else if i == 2 {} else if i == 3 {} else if i == 4 {}
        }
        assert(s.len() != "五段・ワア行"@.len());
    }
    if s == "文語・キ"@ {
        reveal_strlit("文語・キ");
        assert(s.len() == 4);
        assert forall|i: int| 0 <= i < s.len() implies #[trigger] is_quiet_at(s, i) by {
            if i == 0 {} else if i == 1 {} else if i == 2 {} else if i == 3 {}
        }
        assert(s.len() != "五段・ワア行"@.len());
    }
    if s == "文語・ケリ"@ {
        reveal_strlit("文語・ケリ");
        assert(s.len() == 5);
        assert forall|i: int| 0 <= i < s.len() implies #[trigger] is_quiet_at(s, i) by {
            if i == 0 {} else if i == 1 {} else if i == 2 {} else if i == 3 {} else if i == 4 {}
        }
        assert(s.len() != "五段・ワア行"@.len());
    }
    if s == "文語・ル"@ {
        reveal_strlit("文語・ル");
        assert(s.len() == 4);
        assert forall|i: int| 0 <= i < s.len() implies #[trigger] is_quiet_at(s, i) by {
            if i == 0 {} else if i == 1 {} else if i == 2 {} else if i == 3 {}
        }
        assert(s.len() != "五段・ワア行"@.len());
    }
    if s == "文語・リ"@ {
        reveal_strlit("文語・リ");
        assert(s.len() == 4);
        assert forall|i: int| 0 <= i < s.len() implies #[trigger] is_quiet_at(s, i) by {
            if i == 0 {} else if i == 1 {} else if i == 2 {} else if i == 3 {}
        }
        assert(s.len() != "五段・ワア行"@.len());
    }
}

/// Every allowed inflection type is one of the three spellings of the
/// irregular verb classes or a text that no rewrite applies to.
pub proof fn lemma_allowed_values(s: Seq<char>)
    requires
        is_allowed_ctype(s),
    ensures
        s == "サ変・スル"@ || s == "サ変・−スル"@ || s == "サ変・−ズル"@ || is_untouched(s),
{
    if s == "*"@ || s == "ラ変"@ || s == "不変化型"@ || s == "カ変・クル"@ || s == "カ変・来ル"@ || s == "一段"@ {
        lemma_untouched_values_0(s);
    }
    if s == "一段・病メル"@ || s == "一段・クレル"@ || s == "一段・得ル"@ || s == "一段・ル"@ || s == "下二・ア行"@ || s == "下二・カ行"@ {
        lemma_untouched_values_1(s);
    }
    if s == "下二・ガ行"@ || s == "下二・サ行"@ || s == "下二・ザ行"@ || s == "下二・タ行"@ || s == "下二・ダ行"@ || s == "下二・ナ行"@ {
        lemma_untouched_values_2(s);
    }
    if s == "下二・ハ行"@ || s == "下二・バ行"@ || s == "下二・マ行"@ || s == "下二・ヤ行"@ || s == "下二・ラ行"@ || s == "下二・ワ行"@ {
        lemma_untouched_values_3(s);
    }
    if s == "下二・得"@ || s == "形容詞・アウオ段"@ || s == "形容詞・イ段"@ || s == "形容詞・イイ"@ || s == "五段・カ行イ音便"@ || s == "五段・カ行促音便"@ {
        lemma_untouched_values_4(s);
    }
    if s == "五段・カ行促音便ユク"@ || s == "五段・ガ行"@ || s == "五段・サ行"@ || s == "五段・タ行"@ || s == "五段・ナ行"@ || s == "五段・バ行"@ {
        lemma_untouched_values_5(s);
    }
    if s == "五段・マ行"@ || s == "五段・ラ行"@ || s == "五段・ラ行アル"@ || s == "五段・ラ行特殊"@ || s == "五段・ワ行ウ音便"@ || s == "五段・ワ行促音便"@ {
        lemma_untouched_values_6(s);
    }
    if s == "四段・カ行"@ || s == "四段・ガ行"@ || s == "四段・サ行"@ || s == "四段・タ行"@ || s == "四段・バ行"@ || s == "四段・マ行"@ {
        lemma_untouched_values_7(s);
    }
    if s == "四段・ラ行"@ || s == "四段・ハ行"@ || s == "上二・ダ行"@ || s == "上二・ハ行"@ || s == "特殊・ナイ"@ || s == "特殊・タイ"@ {
        lemma_untouched_values_8(s);
    }
    if s == "特殊・タ"@ || s == "特殊・ダ"@ || s == "特殊・デス"@ || s == "特殊・ドス"@ || s == "特殊・ジャ"@ || s == "特殊・マス"@ {
        lemma_untouched_values_9(s);
    }
    if s == "特殊・ヌ"@ || s == "特殊・ヤ"@ || s == "文語・ベシ"@ || s == "文語・ゴトシ"@ || s == "文語・ナリ"@ || s == "文語・マジ"@ {
        lemma_untouched_values_10(s);
    }
    if s == "文語・シム"@ || s == "文語・キ"@ || s == "文語・ケリ"@ || s == "文語・ル"@ || s == "文語・リ"@ {
        lemma_untouched_values_11(s);
    }
}

/// An inflection type that is in the allowed set once it is trimmed, freed
/// of whitespace and has dots for dashes is not given up, and normalizing
/// its canonical spelling again gives the same spelling and gives up
/// nothing either.
pub proof fn lemma_normalize_ctype_idempotent(value: Seq<char>)
    requires
        is_allowed_ctype(ctype_prepared(value)),
    ensures
        !ctype_fallback(value),
        is_allowed_ctype(ctype_canonical(value)),
        ctype_canonical(ctype_canonical(value)) == ctype_canonical(value),
        !ctype_fallback(ctype_canonical(value)),
{
    let p = ctype_prepared(value);
    lemma_dots_have_no_dash(without_spaces(text_or_star(value)));
    lemma_allowed_values(p);
    reveal_strlit("サ変・−スル");
    reveal_strlit("サ変・−ズル");
    if p == "サ変・−スル"@ || p == "サ変・−ズル"@ {
        assert(is_dash(p[3]));
    } else if p == "サ変・スル"@ {
        lemma_rewrite_plain_spelling();
        lemma_canonical_spelling_is_its_candidate();
    } else {
        lemma_rewrite_keeps_untouched(p);
        lemma_untouched_is_its_candidate(p);
    }
}

/// A text is not begun by a pattern that is longer than it or differs
/// from it at `k`.
pub proof fn lemma_not_prefix(pattern: Seq<char>, s: Seq<char>, k: int)
    requires
        0 <= k < pattern.len(),
        k >= s.len() || s[k] != pattern[k],
    ensures
        !pattern.is_prefix_of(s),
{
    if pattern.is_prefix_of(s) {
        assert(s.subrange(0, pattern.len() as int)[k] == s[k]);
    }
}

proof fn lemma_cform_values_0(c: Seq<char>)
    requires
        c == "*"@
            || c == "ガル接続"@
            || c == "音便基本形"@
            || c == "仮定形"@,
    ensures
        cform_candidate(c) == c,
{
    reveal_strlit("終止形");
    reveal_strlit("連体形");
    reveal_strlit("連用形");
    reveal_strlit("未然形");
    reveal_strlit("仮定形");
    reveal_strlit("命令形");
    reveal_strlit("終止連体形");
    reveal_strlit("意志推量形");
    if c == "*"@ {
        reveal_strlit("*");
        assert(c.len() == 1);
        assert forall|i: int| 0 <= i < c.len() implies !is_space(#[trigger] c[i]) by {
            if i == 0 {}
        }
        assert(c.len() != "終止連体形"@.len());
        assert(c.len() != "意志推量形"@.len());
        lemma_not_prefix("終止形"@, c, 0);
        lemma_not_prefix("連体形"@, c, 0);
        lemma_not_prefix("連用形"@, c, 0);
        lemma_not_prefix("未然形"@, c, 0);
        lemma_not_prefix("仮定形"@, c, 0);
        lemma_not_prefix("命令形"@, c, 0);
    }
    if c == "ガル接続"@ {
        reveal_strlit("ガル接続");
        assert(c.len() == 4);
        assert forall|i: int| 0 <= i < c.len() implies !is_space(#[trigger] c[i]) by {
            if i == 0 {} else if i == 1 {} else if i == 2 {} else if i == 3 {}
        }
        assert(c.len() != "終止連体形"@.len());
        assert(c.len() != "意志推量形"@.len());
        lemma_not_prefix("終止形"@, c, 0);
        lemma_not_prefix("連体形"@, c, 0);
        lemma_not_prefix("連用形"@, c, 0);
        lemma_not_prefix("未然形"@, c, 0);
        lemma_not_prefix("仮定形"@, c, 0);
        lemma_not_prefix("命令形"@, c, 0);
    }
    if c == "音便基本形"@ {
        reveal_strlit("音便基本形");
        assert(c.len() == 5);
        assert forall|i: int| 0 <= i < c.len() implies !is_space(#[trigger] c[i]) by {
            if i == 0 {} else if i == 1 {} else if i == 2 {} else if i == 3 {} else if i == 4 {}
        }
        assert(c[0] != "終止連体形"@[0]);
        assert(c[0] != "意志推量形"@[0]);
        lemma_not_prefix("終止形"@, c, 0);
        lemma_not_prefix("連体形"@, c, 0);
        lemma_not_prefix("連用形"@, c, 0);
        lemma_not_prefix("未然形"@, c, 0);
        lemma_not_prefix("仮定形"@, c, 0);
        lemma_not_prefix("命令形"@, c, 0);
    }
    if c == "仮定形"@ {
        reveal_strlit("仮定形");
        assert(c.len() == 3);
        assert forall|i: int| 0 <= i < c.len() implies !is_space(#[trigger] c[i]) by {
            if i == 0 {} else if i == 1 {} else if i == 2 {}
        }
        assert(c.len() != "終止連体形"@.len());
        assert(c.len() != "意志推量形"@.len());
        lemma_not_prefix("終止形"@, c, 0);
        lemma_not_prefix("連体形"@, c, 0);
        lemma_not_prefix("連用形"@, c, 0);
        lemma_not_prefix("未然形"@, c, 0);
        lemma_not_prefix("命令形"@, c, 0);
        assert(c.subrange(0, c.len() as int) =~= c);
    }
    lemma_settled_text(c);
}

proof fn lemma_cform_values_1(c: Seq<char>)
    requires
        c == "仮定縮約１"@
            || c == "仮定縮約２"@
            || c == "基本形"@
            || c == "基本形-促音便"@,
    ensures
        cform_candidate(c) == c,
{
    reveal_strlit("終止形");
    reveal_strlit("連体形");
    reveal_strlit("連用形");
    reveal_strlit("未然形");
    reveal_strlit("仮定形");
    reveal_strlit("命令形");
    reveal_strlit("終止連体形");
    reveal_strlit("意志推量形");
    if c == "仮定縮約１"@ {
        reveal_strlit("仮定縮約１");
        assert(c.len() == 5);
        assert forall|i: int| 0 <= i < c.len() implies !is_space(#[trigger] c[i]) by {
            if i == 0 {} else if i == 1 {} else if i == 2 {} else if i == 3 {} else if i == 4 {}
        }
        assert(c[0] != "終止連体形"@[0]);
        assert(c[0] != "意志推量形"@[0]);
        lemma_not_prefix("終止形"@, c, 0);
        lemma_not_prefix("連体形"@, c, 0);
        lemma_not_prefix("連用形"@, c, 0);
        lemma_not_prefix("未然形"@, c, 0);
        lemma_not_prefix("仮定形"@, c, 2);
        lemma_not_prefix("命令形"@, c, 0);
    }
    if c == "仮定縮約２"@ {
        reveal_strlit("仮定縮約２");
        assert(c.len() == 5);
        assert forall|i: int| 0 <= i < c.len() implies !is_space(#[trigger] c[i]) by {
            if i == 0 {} else if i == 1 {} else if i == 2 {} else if i == 3 {} else if i == 4 {}
        }
        assert(c[0] != "終止連体形"@[0]);
        assert(c[0] != "意志推量形"@[0]);
        lemma_not_prefix("終止形"@, c, 0);
        lemma_not_prefix("連体形"@, c, 0);
        lemma_not_prefix("連用形"@, c, 0);
        lemma_not_prefix("未然形"@, c, 0);
        lemma_not_prefix("仮定形"@, c, 2);
        lemma_not_prefix("命令形"@, c, 0);
    }
    if c == "基本形"@ {
        reveal_strlit("基本形");
        assert(c.len() == 3);
        assert forall|i: int| 0 <= i < c.len() implies !is_space(#[trigger] c[i]) by {
            if i == 0 {} else if i == 1 {} else if i == 2 {}
        }
        assert(c.len() != "終止連体形"@.len());
        assert(c.len() != "意志推量形"@.len());
        lemma_not_prefix("終止形"@, c, 0);
        lemma_not_prefix("連体形"@, c, 0);
        lemma_not_prefix("連用形"@, c, 0);
        lemma_not_prefix("未然形"@, c, 0);
        lemma_not_prefix("仮定形"@, c, 0);
        lemma_not_prefix("命令形"@, c, 0);
    }
    if c == "基本形-促音便"@ {
        reveal_strlit("基本形-促音便");
        assert(c.len() == 7);
        assert forall|i: int| 0 <= i < c.len() implies !is_space(#[trigger] c[i]) by {
            if i == 0 {} else if i == 1 {} else if i == 2 {} else if i == 3 {} else if i == 4 {} else if i == 5 {} else if i == 6 {}
        }
        assert(c.len() != "終止連体形"@.len());
        assert(c.len() != "意志推量形"@.len());
        lemma_not_prefix("終止形"@, c, 0);
        lemma_not_prefix("連体形"@, c, 0);
        lemma_not_prefix("連用形"@, c, 0);
        lemma_not_prefix("未然形"@, c, 0);
        lemma_not_prefix("仮定形"@, c, 0);
        lemma_not_prefix("命令形"@, c, 0);
    }
    lemma_settled_text(c);
}

proof fn lemma_cform_values_2(c: Seq<char>)
    requires
        c == "現代基本形"@
            || c == "体言接続"@
            || c == "体言接続特殊"@
            || c == "体言接続特殊２"@,
    ensures
        cform_candidate(c) == c,
{
    reveal_strlit("終止形");
    reveal_strlit("連体形");
    reveal_strlit("連用形");
    reveal_strlit("未然形");
    reveal_strlit("仮定形");
    reveal_strlit("命令形");
    reveal_strlit("終止連体形");
    reveal_strlit("意志推量形");
    if c == "現代基本形"@ {
        reveal_strlit("現代基本形");
        assert(c.len() == 5);
        assert forall|i: int| 0 <= i < c.len() implies !is_space(#[trigger] c[i]) by {
            if i == 0 {} else if i == 1 {} else if i == 2 {} else if i == 3 {} else if i == 4 {}
        }
        assert(c[0] != "終止連体形"@[0]);
        assert(c[0] != "意志推量形"@[0]);
        lemma_not_prefix("終止形"@, c, 0);
        lemma_not_prefix("連体形"@, c, 0);
        lemma_not_prefix("連用形"@, c, 0);
        lemma_not_prefix("未然形"@, c, 0);
        lemma_not_prefix("仮定形"@, c, 0);
        lemma_not_prefix("命令形"@, c, 0);
    }
    if c == "体言接続"@ {
        reveal_strlit("体言接続");
        assert(c.len() == 4);
        assert forall|i: int| 0 <= i < c.len() implies !is_space(#[trigger] c[i]) by {
            if i == 0 {} else if i == 1 {} else if i == 2 {} else if i == 3 {}
        }
        assert(c.len() != "終止連体形"@.len());
        assert(c.len() != "意志推量形"@.len());
        lemma_not_prefix("終止形"@, c, 0);
        lemma_not_prefix("連体形"@, c, 0);
        lemma_not_prefix("連用形"@, c, 0);
        lemma_not_prefix("未然形"@, c, 0);
        lemma_not_prefix("仮定形"@, c, 0);
        lemma_not_prefix("命令形"@, c, 0);
    }
    if c == "体言接続特殊"@ {
        reveal_strlit("体言接続特殊");
        assert(c.len() == 6);
        assert forall|i: int| 0 <= i < c.len() implies !is_space(#[trigger] c[i]) by {
            if i == 0 {} else if i == 1 {} else if i == 2 {} else if i == 3 {} else if i == 4 {} else if i == 5 {}
        }
        assert(c.len() != "終止連体形"@.len());
        assert(c.len() != "意志推量形"@.len());
        lemma_not_prefix("終止形"@, c, 0);
        lemma_not_prefix("連体形"@, c, 0);
        lemma_not_prefix("連用形"@, c, 0);
        lemma_not_prefix("未然形"@, c, 0);
        lemma_not_prefix("仮定形"@, c, 0);
        lemma_not_prefix("命令形"@, c, 0);
    }
    if c == "体言接続特殊２"@ {
        reveal_strlit("体言接続特殊２");
        assert(c.len() == 7);
        assert forall|i: int| 0 <= i < c.len() implies !is_space(#[trigger] c[i]) by {
            if i == 0 {} else if i == 1 {} else if i == 2 {} else if i == 3 {} else if i == 4 {} else if i == 5 {} else if i == 6 {}
        }
        assert(c.len() != "終止連体形"@.len());
        assert(c.len() != "意志推量形"@.len());
        lemma_not_prefix("終止形"@, c, 0);
        lemma_not_prefix("連体形"@, c, 0);
        lemma_not_prefix("連用形"@, c, 0);
        lemma_not_prefix("未然形"@, c, 0);
        lemma_not_prefix("仮定形"@, c, 0);
        lemma_not_prefix("命令形"@, c, 0);
    }
    lemma_settled_text(c);
}

proof fn lemma_cform_values_3(c: Seq<char>)
    requires
        c == "文語基本形"@
            || c == "未然ウ接続"@
            || c == "未然ヌ接続"@
            || c == "未然レル接続"@,
    ensures
        cform_candidate(c) == c,
{
    reveal_strlit("終止形");
    reveal_strlit("連体形");
    reveal_strlit("連用形");
    reveal_strlit("未然形");
    reveal_strlit("仮定形");
    reveal_strlit("命令形");
    reveal_strlit("終止連体形");
    reveal_strlit("意志推量形");
    if c == "文語基本形"@ {
        reveal_strlit("文語基本形");
        assert(c.len() == 5);
        assert forall|i: int| 0 <= i < c.len() implies !is_space(#[trigger] c[i]) by {
            if i == 0 {} else if i == 1 {} else if i == 2 {} else if i == 3 {} else if i == 4 {}
        }
        assert(c[0] != "終止連体形"@[0]);
        assert(c[0] != "意志推量形"@[0]);
        lemma_not_prefix("終止形"@, c, 0);
        lemma_not_prefix("連体形"@, c, 0);
        lemma_not_prefix("連用形"@, c, 0);
        lemma_not_prefix("未然形"@, c, 0);
        lemma_not_prefix("仮定形"@, c, 0);
        lemma_not_prefix("命令形"@, c, 0);
    }
    if c == "未然ウ接続"@ {
        reveal_strlit("未然ウ接続");
        assert(c.len() == 5);
        assert forall|i: int| 0 <= i < c.len() implies !is_space(#[trigger] c[i]) by {
            if i == 0 {} else if i == 1 {} else if i == 2 {} else if i == 3 {} else if i == 4 {}
        }
        assert(c[0] != "終止連体形"@[0]);
        assert(c[0] != "意志推量形"@[0]);
        lemma_not_prefix("終止形"@, c, 0);
        lemma_not_prefix("連体形"@, c, 0);
        lemma_not_prefix("連用形"@, c, 0);
        lemma_not_prefix("未然形"@, c, 2);
        lemma_not_prefix("仮定形"@, c, 0);
        lemma_not_prefix("命令形"@, c, 0);
    }
    if c == "未然ヌ接続"@ {
        reveal_strlit("未然ヌ接続");
        assert(c.len() == 5);
        assert forall|i: int| 0 <= i < c.len() implies !is_space(#[trigger] c[i]) by {
            if i == 0 {} else if i == 1 {} else if i == 2 {} else if i == 3 {} else if i == 4 {}
        }
        assert(c[0] != "終止連体形"@[0]);
        assert(c[0] != "意志推量形"@[0]);
        lemma_not_prefix("終止形"@, c, 0);
        lemma_not_prefix("連体形"@, c, 0);
        lemma_not_prefix("連用形"@, c, 0);
        lemma_not_prefix("未然形"@, c, 2);
        lemma_not_prefix("仮定形"@, c, 0);
        lemma_not_prefix("命令形"@, c, 0);
    }
    if c == "未然レル接続"@ {
        reveal_strlit("未然レル接続");
        assert(c.len() == 6);
        assert forall|i: int| 0 <= i < c.len() implies !is_space(#[trigger] c[i]) by {
            if i == 0 {} else if i == 1 {} else if i == 2 {} else if i == 3 {} else if i == 4 {} else if i == 5 {}
        }
        assert(c.len() != "終止連体形"@.len());
        assert(c.len() != "意志推量形"@.len());
        lemma_not_prefix("終止形"@, c, 0);
        lemma_not_prefix("連体形"@, c, 0);
        lemma_not_prefix("連用形"@, c, 0);
        lemma_not_prefix("未然形"@, c, 2);
        lemma_not_prefix("仮定形"@, c, 0);
        lemma_not_prefix("命令形"@, c, 0);
    }
    lemma_settled_text(c);
}

proof fn lemma_cform_values_4(c: Seq<char>)
    requires
        c == "未然形"@
            || c == "未然特殊"@
            || c == "命令ｅ"@
            || c == "命令ｉ"@,
    ensures
        cform_candidate(c) == c,
{
    reveal_strlit("終止形");
    reveal_strlit("連体形");
    reveal_strlit("連用形");
    reveal_strlit("未然形");
    reveal_strlit("仮定形");
    reveal_strlit("命令形");
    reveal_strlit("終止連体形");
    reveal_strlit("意志推量形");
    if c == "未然形"@ {
        reveal_strlit("未然形");
        assert(c.len() == 3);
        assert forall|i: int| 0 <= i < c.len() implies !is_space(#[trigger] c[i]) by {
            if i == 0 {} else if i == 1 {} else if i == 2 {}
        }
        assert(c.len() != "終止連体形"@.len());
        assert(c.len() != "意志推量形"@.len());
        lemma_not_prefix("終止形"@, c, 0);
        lemma_not_prefix("連体形"@, c, 0);
        lemma_not_prefix("連用形"@, c, 0);
        lemma_not_prefix("仮定形"@, c, 0);
        lemma_not_prefix("命令形"@, c, 0);
        assert(c.subrange(0, c.len() as int) =~= c);
    }
    if c == "未然特殊"@ {
        reveal_strlit("未然特殊");
        assert(c.len() == 4);
        assert forall|i: int| 0 <= i < c.len() implies !is_space(#[trigger] c[i]) by {
            if i == 0 {} else if i == 1 {} else if i == 2 {} else if i == 3 {}
        }
        assert(c.len() != "終止連体形"@.len());
        assert(c.len() != "意志推量形"@.len());
        lemma_not_prefix("終止形"@, c, 0);
        lemma_not_prefix("連体形"@, c, 0);
        lemma_not_prefix("連用形"@, c, 0);
        lemma_not_prefix("未然形"@, c, 2);
        lemma_not_prefix("仮定形"@, c, 0);
        lemma_not_prefix("命令形"@, c, 0);
    }
    if c == "命令ｅ"@ {
        reveal_strlit("命令ｅ");
        assert(c.len() == 3);
        assert forall|i: int| 0 <= i < c.len() implies !is_space(#[trigger] c[i]) by {
            if i == 0 {} else if i == 1 {} else if i == 2 {}
        }
        assert(c.len() != "終止連体形"@.len());
        assert(c.len() != "意志推量形"@.len());
        lemma_not_prefix("終止形"@, c, 0);
        lemma_not_prefix("連体形"@, c, 0);
        lemma_not_prefix("連用形"@, c, 0);
        lemma_not_prefix("未然形"@, c, 0);
        lemma_not_prefix("仮定形"@, c, 0);
        lemma_not_prefix("命令形"@, c, 2);
    }
    if c == "命令ｉ"@ {
        reveal_strlit("命令ｉ");
        assert(c.len() == 3);
        assert forall|i: int| 0 <= i < c.len() implies !is_space(#[trigger] c[i]) by {
            if i == 0 {} else if i == 1 {} else if i == 2 {}
        }
        assert(c.len() != "終止連体形"@.len());
        assert(c.len() != "意志推量形"@.len());
        lemma_not_prefix("終止形"@, c, 0);
        lemma_not_prefix("連体形"@, c, 0);
        lemma_not_prefix("連用形"@, c, 0);
        lemma_not_prefix("未然形"@, c, 0);
        lemma_not_prefix("仮定形"@, c, 0);
        lemma_not_prefix("命令形"@, c, 2);
    }
    lemma_settled_text(c);
}

proof fn lemma_cform_values_5(c: Seq<char>)
    requires
        c == "命令ｒｏ"@
            || c == "命令ｙｏ"@
            || c == "連用ゴザイ接続"@
            || c == "連用タ接続"@,
    ensures
        cform_candidate(c) == c,
{
    reveal_strlit("終止形");
    reveal_strlit("連体形");
    reveal_strlit("連用形");
    reveal_strlit("未然形");
    reveal_strlit("仮定形");
    reveal_strlit("命令形");
    reveal_strlit("終止連体形");
    reveal_strlit("意志推量形");
    if c == "命令ｒｏ"@ {
        reveal_strlit("命令ｒｏ");
        assert(c.len() == 4);
        assert forall|i: int| 0 <= i < c.len() implies !is_space(#[trigger] c[i]) by {
            if i == 0 {} else if i == 1 {} else if i == 2 {} else if i == 3 {}
        }
        assert(c.len() != "終止連体形"@.len());
        assert(c.len() != "意志推量形"@.len());
        lemma_not_prefix("終止形"@, c, 0);
        lemma_not_prefix("連体形"@, c, 0);
        lemma_not_prefix("連用形"@, c, 0);
        lemma_not_prefix("未然形"@, c, 0);
        lemma_not_prefix("仮定形"@, c, 0);
        lemma_not_prefix("命令形"@, c, 2);
    }
    if c == "命令ｙｏ"@ {
        reveal_strlit("命令ｙｏ");
        assert(c.len() == 4);
        assert forall|i: int| 0 <= i < c.len() implies !is_space(#[trigger] c[i]) by {
            if i == 0 {} else if i == 1 {} else if i == 2 {} else if i == 3 {}
        }
        assert(c.len() != "終止連体形"@.len());
        assert(c.len() != "意志推量形"@.len());
        lemma_not_prefix("終止形"@, c, 0);
        lemma_not_prefix("連体形"@, c, 0);
        lemma_not_prefix("連用形"@, c, 0);
        lemma_not_prefix("未然形"@, c, 0);
        lemma_not_prefix("仮定形"@, c, 0);
        lemma_not_prefix("命令形"@, c, 2);
    }
    if c == "連用ゴザイ接続"@ {
        reveal_strlit("連用ゴザイ接続");
        assert(c.len() == 7);
        assert forall|i: int| 0 <= i < c.len() implies !is_space(#[trigger] c[i]) by {
            if i == 0 {} else if i == 1 {} else if i == 2 {} else if i == 3 {} else if i == 4 {} else if i == 5 {} else if i == 6 {}
        }
        assert(c.len() != "終止連体形"@.len());
        assert(c.len() != "意志推量形"@.len());
        lemma_not_prefix("終止形"@, c, 0);
        lemma_not_prefix("連体形"@, c, 1);
        lemma_not_prefix("連用形"@, c, 2);
        lemma_not_prefix("未然形"@, c, 0);
        lemma_not_prefix("仮定形"@, c, 0);
        lemma_not_prefix("命令形"@, c, 0);
    }
    if c == "連用タ接続"@ {
        reveal_strlit("連用タ接続");
        assert(c.len() == 5);
        assert forall|i: int| 0 <= i < c.len() implies !is_space(#[trigger] c[i]) by {
            if i == 0 {} else if i == 1 {} else if i == 2 {} else if i == 3 {} else if i == 4 {}
        }
        assert(c[0] != "終止連体形"@[0]);
        assert(c[0] != "意志推量形"@[0]);
        lemma_not_prefix("終止形"@, c, 0);
        lemma_not_prefix("連体形"@, c, 1);
        lemma_not_prefix("連用形"@, c, 2);
        lemma_not_prefix("未然形"@, c, 0);
        lemma_not_prefix("仮定形"@, c, 0);
        lemma_not_prefix("命令形"@, c, 0);
    }
    lemma_settled_text(c);
}

proof fn lemma_cform_values_6(c: Seq<char>)
    requires
        c == "連用テ接続"@
            || c == "連用デ接続"@
            || c == "連用ニ接続"@
            || c == "連用形"@,
    ensures
        cform_candidate(c) == c,
{
    reveal_strlit("終止形");
    reveal_strlit("連体形");
    reveal_strlit("連用形");
    reveal_strlit("未然形");
    reveal_strlit("仮定形");
    reveal_strlit("命令形");
    reveal_strlit("終止連体形");
    reveal_strlit("意志推量形");
    if c == "連用テ接続"@ {
        reveal_strlit("連用テ接続");
        assert(c.len() == 5);
        assert forall|i: int| 0 <= i < c.len() implies !is_space(#[trigger] c[i]) by {
            if i == 0 {} else if i == 1 {} else if i == 2 {} else if i == 3 {} else if i == 4 {}
        }
        assert(c[0] != "終止連体形"@[0]);
        assert(c[0] != "意志推量形"@[0]);
        lemma_not_prefix("終止形"@, c, 0);
        lemma_not_prefix("連体形"@, c, 1);
        lemma_not_prefix("連用形"@, c, 2);
        lemma_not_prefix("未然形"@, c, 0);
        lemma_not_prefix("仮定形"@, c, 0);
        lemma_not_prefix("命令形"@, c, 0);
    }
    if c == "連用デ接続"@ {
        reveal_strlit("連用デ接続");
        assert(c.len() == 5);
        assert forall|i: int| 0 <= i < c.len() implies !is_space(#[trigger] c[i]) by {
            if i == 0 {} else if i == 1 {} else if i == 2 {} else if i == 3 {} else if i == 4 {}
        }
        assert(c[0] != "終止連体形"@[0]);
        assert(c[0] != "意志推量形"@[0]);
        lemma_not_prefix("終止形"@, c, 0);
        lemma_not_prefix("連体形"@, c, 1);
        lemma_not_prefix("連用形"@, c, 2);
        lemma_not_prefix("未然形"@, c, 0);
        lemma_not_prefix("仮定形"@, c, 0);
        lemma_not_prefix("命令形"@, c, 0);
    }
    if c == "連用ニ接続"@ {
        reveal_strlit("連用ニ接続");
        assert(c.len() == 5);
        assert forall|i: int| 0 <= i < c.len() implies !is_space(#[trigger] c[i]) by {
            if i == 0 {} else if i == 1 {} else if i == 2 {} else if i == 3 {} else if i == 4 {}
        }
        assert(c[0] != "終止連体形"@[0]);
        assert(c[0] != "意志推量形"@[0]);
        lemma_not_prefix("終止形"@, c, 0);
        lemma_not_prefix("連体形"@, c, 1);
        lemma_not_prefix("連用形"@, c, 2);
        lemma_not_prefix("未然形"@, c, 0);
        lemma_not_prefix("仮定形"@, c, 0);
        lemma_not_prefix("命令形"@, c, 0);
    }
    if c == "連用形"@ {
        reveal_strlit("連用形");
        assert(c.len() == 3);
        assert forall|i: int| 0 <= i < c.len() implies !is_space(#[trigger] c[i]) by {
            if i == 0 {} else if i == 1 {} else if i == 2 {}
        }
        assert(c.len() != "終止連体形"@.len());
        assert(c.len() != "意志推量形"@.len());
        lemma_not_prefix("終止形"@, c, 0);
        lemma_not_prefix("連体形"@, c, 1);
        lemma_not_prefix("未然形"@, c, 0);
        lemma_not_prefix("仮定形"@, c, 0);
        lemma_not_prefix("命令形"@, c, 0);
        assert(c.subrange(0, c.len() as int) =~= c);
    }
    lemma_settled_text(c);
}

/// An inflection form of the target vocabulary is its own candidate:
/// nothing is trimmed or removed from it, and no prefix collapses it to
/// another form.
pub proof fn lemma_allowed_cform_is_its_candidate(c: Seq<char>)
    requires
        is_allowed_cform(c),
    ensures
        cform_candidate(c) == c,
{
    if c == "*"@ || c == "ガル接続"@ || c == "音便基本形"@ || c == "仮定形"@ {
        lemma_cform_values_0(c);
    }
    if c == "仮定縮約１"@ || c == "仮定縮約２"@ || c == "基本形"@ || c == "基本形-促音便"@ {
        lemma_cform_values_1(c);
    }
    if c == "現代基本形"@ || c == "体言接続"@ || c == "体言接続特殊"@ || c == "体言接続特殊２"@ {
        lemma_cform_values_2(c);
    }
    if c == "文語基本形"@ || c == "未然ウ接続"@ || c == "未然ヌ接続"@ || c == "未然レル接続"@ {
        lemma_cform_values_3(c);
    }
    if c == "未然形"@ || c == "未然特殊"@ || c == "命令ｅ"@ || c == "命令ｉ"@ {
        lemma_cform_values_4(c);
    }
    if c == "命令ｒｏ"@ || c == "命令ｙｏ"@ || c == "連用ゴザイ接続"@ || c == "連用タ接続"@ {
        lemma_cform_values_5(c);
    }
    if c == "連用テ接続"@ || c == "連用デ接続"@ || c == "連用ニ接続"@ || c == "連用形"@ {
        lemma_cform_values_6(c);
    }
}

/// Normalizing an inflection form twice gives what normalizing once gives,
/// and the second time nothing is given up.
pub proof fn lemma_normalize_cform_idempotent(value: Seq<char>)
    ensures
        cform_canonical(cform_canonical(value)) == cform_canonical(value),
        !cform_fallback(cform_canonical(value)),
{
    lemma_allowed_cform_is_its_candidate(cform_canonical(value));
}

} // verus!
