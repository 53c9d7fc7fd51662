//! One line of a character-definition file: recognizing a codepoint-range
//! line and removing the obsolete category marker from it.

use crate::text::{
    append_chars, chars_of, is_blank, is_blank_text, is_comment, is_space, is_space_char, is_text,
    starts_comment, text_of,
};
use vstd::prelude::*;

verus! {

/// The views of a sequence of words.
pub open spec fn word_views(words: Seq<Vec<char>>) -> Seq<Seq<char>> {
    words.map_values(|w: Vec<char>| w@)
}

/// The maximal runs of characters of `s` that are not whitespace, in
/// order.
pub open spec fn words(s: Seq<char>) -> Seq<Seq<char>>
    decreases s.len(),
{
    if s.len() == 0 {
        Seq::empty()
    } else {
        let before = words(s.drop_last());
        if is_space(s.last()) {
            before
        } else if s.len() > 1 && !is_space(s[s.len() - 2]) {
            before.drop_last().push(before.last().push(s.last()))
        } else {
            before.push(seq![s.last()])
        }
    }
}

/// The position of the first comment marker in `s`, or the length of `s`
/// where it has none.
pub open spec fn comment_start(s: Seq<char>) -> nat
    decreases s.len(),
{
    if s.len() == 0 || s[0] == '#' {
        0
    } else {
        1 + comment_start(s.drop_first())
    }
}

/// Whether `c` is an ASCII hexadecimal digit.
pub open spec fn is_hex_digit(c: char) -> bool {
    let n = c as u32;
    (0x30 <= n <= 0x39) || (0x41 <= n <= 0x46) || (0x61 <= n <= 0x66)
}

/// Whether `t` is `0x` followed by at least one hexadecimal digit and
/// nothing else.
pub open spec fn hex_codepoint(t: Seq<char>) -> bool {
    &&& t.len() > 2
    &&& t[0] == '0'
    &&& t[1] == 'x'
    &&& forall|i: int| 2 <= i < t.len() ==> is_hex_digit(#[trigger] t[i])
}

/// Whether two dots stand at `i` in `t`.
pub open spec fn dots_at(t: Seq<char>, i: int) -> bool {
    0 <= i && i + 1 < t.len() && t[i] == '.' && t[i + 1] == '.'
}

/// Whether `t` is one codepoint, or two codepoints with two dots between
/// them.
pub open spec fn codepoint_range(t: Seq<char>) -> bool {
    hex_codepoint(t) || exists|i: int|
        #![trigger dots_at(t, i)]
        dots_at(t, i) && hex_codepoint(t.take(i)) && hex_codepoint(t.skip(i + 2))
}

/// The marker that no longer means anything to the target runtime.
pub open spec fn is_obsolete_marker(w: Seq<char>) -> bool {
    w == "NOOOVBOW"@
}

/// The words joined by single spaces.
pub open spec fn joined(ws: Seq<Seq<char>>) -> Seq<char>
    decreases ws.len(),
{
    if ws.len() == 0 {
        Seq::empty()
    } else if ws.len() == 1 {
        ws[0]
    } else {
        joined(ws.drop_last()) + seq![' '] + ws.last()
    }
}

/// The comment of a line put back behind its rewritten body: a space, the
/// marker and what followed the marker; nothing where the line had no
/// marker.
pub open spec fn comment_tail(line: Seq<char>) -> Seq<char> {
    if comment_start(line) < line.len() {
        seq![' ', '#'] + line.skip(comment_start(line) as int + 1)
    } else {
        Seq::empty()
    }
}

/// What becomes of a line that is neither blank nor a comment. `None`: it
/// is no codepoint-range line. `Some(None)`: it is one, and nothing but the
/// obsolete marker stood behind the range, so the line goes. `Some(Some(..))`:
/// it is one, and this is the line without the obsolete marker.
pub open spec fn range_line(line: Seq<char>) -> Option<Option<Seq<char>>> {
    let tokens = words(line.take(comment_start(line) as int));
    if tokens.len() < 2 || !codepoint_range(tokens[0]) {
        None
    } else {
        let kept = tokens.skip(1).filter(|w: Seq<char>| !is_obsolete_marker(w));
        if kept.len() == 0 {
            Some(None)
        } else {
            Some(Some(joined(seq![tokens[0]] + kept) + comment_tail(line)))
        }
    }
}

/// A codepoint-range line that is rewritten keeps its range and at least
/// one category, and none of the categories that it keeps is the obsolete
/// marker: a bare range is never written.
pub proof fn lemma_rewritten_line_keeps_a_category(line: Seq<char>)
    requires
        range_line(line) is Some,
        range_line(line)->Some_0 is Some,
    ensures
        ({
            let tokens = words(line.take(comment_start(line) as int));
            let kept = tokens.skip(1).filter(|w: Seq<char>| !is_obsolete_marker(w));
            &&& codepoint_range(tokens[0])
            &&& kept.len() > 0
            &&& forall|i: int| 0 <= i < kept.len() ==> !is_obsolete_marker(#[trigger] kept[i])
            &&& range_line(line) == Some(
                Some(joined(seq![tokens[0]] + kept) + comment_tail(line)),
            )
        }),
{
    let tokens = words(line.take(comment_start(line) as int));
    let keep = |w: Seq<char>| !is_obsolete_marker(w);
    let kept = tokens.skip(1).filter(keep);
    assert forall|i: int| 0 <= i < kept.len() implies !is_obsolete_marker(#[trigger] kept[i]) by {
        tokens.skip(1).lemma_filter_pred(keep, i);
    }
}

/// The comment marker is found at `k` once no marker stands before `k`.
pub proof fn lemma_comment_start(s: Seq<char>, k: int)
    requires
        0 <= k <= s.len(),
        forall|i: int| 0 <= i < k ==> #[trigger] s[i] != '#',
        k < s.len() ==> s[k] == '#',
    ensures
        comment_start(s) == k,
    decreases k,
{
    if k > 0 {
        let t = s.drop_first();
        assert forall|i: int| 0 <= i < k - 1 implies #[trigger] t[i] != '#' by {
            assert(t[i] == s[i + 1]);
        }
        lemma_comment_start(t, k - 1);
    }
}

/// Splits `v[..end]` into its words.
pub fn split_words(v: &Vec<char>, end: usize) -> (out: Vec<Vec<char>>)
    requires
        end <= v.len(),
    ensures
        word_views(out@) == words(v@.take(end as int)),
{
    let ghost s = v@.take(end as int);
    let mut out: Vec<Vec<char>> = Vec::new();
    let mut current: Vec<char> = Vec::new();
    let mut i: usize = 0;
    proof {
        assert(word_views(out@) =~= words(s.take(0)));
    }
    while i < end
        invariant
            i <= end <= v.len(),
            s == v@.take(end as int),
            current.len() > 0 ==> i > 0 && !is_space(s[i - 1]) && words(s.take(i as int))
                == word_views(out@).push(current@),
            current.len() == 0 ==> (i == 0 || is_space(s[i - 1])) && words(s.take(i as int))
                == word_views(out@),
        decreases end - i,
    {
        let c = v[i];
        let ghost prefix = s.take(i + 1);
        let ghost done = word_views(out@);
        proof {
            assert(prefix.drop_last() =~= s.take(i as int));
            assert(prefix.last() == c);
            if i > 0 {
                assert(prefix[prefix.len() - 2] == s[i - 1]);
            }
        }
        if is_space_char(c) {
            if current.len() > 0 {
                out.push(current);
                current = Vec::new();
                proof {
                    assert(word_views(out@) =~= done.push(out@.last()@));
                }
            }
        } else {
            proof {
                if current.len() > 0 {
                    let before = done.push(current@);
                    assert(before.drop_last() =~= done);
                    assert(before.last() == current@);
                }
            }
            current.push(c);
            proof {
                if current.len() == 1 {
                    assert(current@ =~= seq![c]);
                }
            }
        }
        i += 1;
    }
    proof {
        assert(s.take(end as int) =~= s);
    }
    if current.len() > 0 {
        let ghost done = word_views(out@);
        out.push(current);
        proof {
            assert(word_views(out@) =~= done.push(out@.last()@));
        }
    }
    out
}

/// Whether the characters of `v` from `from` up to `to` are `0x` followed
/// by at least one hexadecimal digit.
pub fn is_hex_codepoint(v: &Vec<char>, from: usize, to: usize) -> (b: bool)
    requires
        from <= to <= v.len(),
    ensures
        b == hex_codepoint(v@.subrange(from as int, to as int)),
{
    let ghost t = v@.subrange(from as int, to as int);
    if to - from <= 2 || v[from] != '0' || v[from + 1] != 'x' {
        proof {
            if to - from > 2 {
                assert(t[0] == v@[from as int] && t[1] == v@[from + 1]);
            }
        }
        return false;
    }
    proof {
        assert(t[0] == v@[from as int] && t[1] == v@[from + 1]);
    }
    let mut i: usize = from + 2;
    while i < to
        invariant
            from + 2 <= i <= to,
            to <= v.len(),
            t == v@.subrange(from as int, to as int),
            forall|k: int| 2 <= k < i - from ==> is_hex_digit(#[trigger] t[k]),
        decreases to - i,
    {
        let n: u32 = v[i] as u32;
        let hex = (0x30 <= n && n <= 0x39) || (0x41 <= n && n <= 0x46) || (0x61 <= n && n <= 0x66);
        proof {
            assert(t[i - from] == v@[i as int]);
        }
        if !hex {
            return false;
        }
        i += 1;
    }
    true
}

/// A codepoint holds no dot.
pub proof fn lemma_hex_codepoint_has_no_dot(t: Seq<char>, i: int)
    requires
        0 <= i < t.len(),
        t[i] == '.',
    ensures
        !hex_codepoint(t),
{
    if hex_codepoint(t) {
        if i >= 2 {
            assert(is_hex_digit(t[i]));
        }
    }
}

/// Whether `v` is one codepoint, or two codepoints with two dots between
/// them.
pub fn is_codepoint_range(v: &Vec<char>) -> (b: bool)
    ensures
        b == codepoint_range(v@),
{
    let n: usize = v.len();
    let ghost t = v@;
    let mut i: usize = 0;
    while n - i > 1 && !(v[i] == '.' && v[i + 1] == '.')
        invariant
            n == v.len(),
            t == v@,
            i <= n,
            forall|k: int| 0 <= k < i ==> !dots_at(t, k),
        decreases n - i,
    {
        i += 1;
    }
    proof {
        assert(t.subrange(0, n as int) =~= t);
    }
    if n - i > 1 {
        let b = is_hex_codepoint(v, 0, i) && is_hex_codepoint(v, i + 2, n);
        proof {
            assert(dots_at(t, i as int));
            assert(t.take(i as int) =~= t.subrange(0, i as int));
            assert(t.skip(i + 2) =~= t.subrange(i + 2, n as int));
            lemma_hex_codepoint_has_no_dot(t, i as int);
            if !b && codepoint_range(t) {
                let k = choose|k: int|
                    #![trigger dots_at(t, k)]
                    dots_at(t, k) && hex_codepoint(t.take(k)) && hex_codepoint(t.skip(k + 2));
                if k > i {
                    assert(t.take(k)[i as int] == '.');
                    lemma_hex_codepoint_has_no_dot(t.take(k), i as int);
                }
            }
        }
        b
    } else {
        proof {
            assert forall|k: int| !dots_at(t, k) by {
                if 0 <= k < i {
                    assert(!dots_at(t, k));
                }
            }
        }
        is_hex_codepoint(v, 0, n)
    }
}

/// What a line of the file becomes. `None`: the line goes. `Some(..)`: the
/// line that is written. A blank line, a comment and a line that is no
/// codepoint-range line are written as they are.
pub open spec fn char_line(line: Seq<char>) -> Option<Seq<char>> {
    if is_blank(line) || is_comment(line) {
        Some(line)
    } else {
        match range_line(line) {
            None => Some(line),
            Some(rewritten) => rewritten,
        }
    }
}

/// The result of `normalize_char_range_line` as plain values.
pub open spec fn range_line_view(out: Option<Option<String>>) -> Option<Option<Seq<char>>> {
    match out {
        None => None,
        Some(None) => Some(None),
        Some(Some(s)) => Some(Some(s@)),
    }
}

/// Recognizes a codepoint-range line and removes every obsolete marker
/// from its categories. `None`: the line is no codepoint-range line.
/// `Some(None)`: no category is left, so the line goes. `Some(Some(..))`:
/// the range, the categories that are left, and the comment if there was
/// one.
pub fn normalize_char_range_line(line: &str) -> (out: Option<Option<String>>)
    ensures
        range_line_view(out) == range_line(line@),
{
    let v = chars_of(line);
    let n: usize = v.len();
    let mut k: usize = 0;
    while k < n && v[k] != '#'
        invariant
            n == v.len(),
            k <= n,
            forall|i: int| 0 <= i < k ==> #[trigger] v@[i] != '#',
        decreases n - k,
    {
        k += 1;
    }
    proof {
        lemma_comment_start(v@, k as int);
    }
    let tokens = split_words(&v, k);
    let ghost all = word_views(tokens@);
    if tokens.len() < 2 {
        return None;
    }
    proof {
        assert(all[0] == tokens@[0]@);
    }
    if !is_codepoint_range(&tokens[0]) {
        return None;
    }
    let ghost keep = |w: Seq<char>| !is_obsolete_marker(w);
    let mut text: Vec<char> = Vec::new();
    append_chars(&mut text, &tokens[0]);
    let mut kept: usize = 0;
    let mut j: usize = 1;
    proof {
        assert(all.subrange(1, 1) =~= Seq::<Seq<char>>::empty());
        assert(seq![all[0]] + Seq::<Seq<char>>::empty() =~= seq![all[0]]);
        assert(text@ =~= all[0]);
    }
    while j < tokens.len()
        invariant
            1 <= j <= tokens.len(),
            all == word_views(tokens@),
            keep == (|w: Seq<char>| !is_obsolete_marker(w)),
            kept == all.subrange(1, j as int).filter(keep).len(),
            kept < j,
            text@ == joined(seq![all[0]] + all.subrange(1, j as int).filter(keep)),
        decreases tokens.len() - j,
    {
        let ghost before = all.subrange(1, j as int);
        proof {
            assert(all[j as int] == tokens@[j as int]@);
            assert(all.subrange(1, j + 1) =~= before.push(all[j as int]));
            before.lemma_filter_push(all[j as int], keep);
        }
        if !is_text(&tokens[j], "NOOOVBOW") {
            text.push(' ');
            append_chars(&mut text, &tokens[j]);
            kept += 1;
            proof {
                let head = seq![all[0]] + before.filter(keep);
                let grown = seq![all[0]] + before.filter(keep).push(all[j as int]);
                assert(grown.drop_last() =~= head);
                assert(grown.last() == all[j as int]);
                assert(text@ =~= joined(head) + seq![' '] + all[j as int]);
            }
        }
        j += 1;
    }
    proof {
        assert(all.subrange(1, tokens.len() as int) =~= all.skip(1));
    }
    if kept == 0 {
        return Some(None);
    }
    if k < n {
        let ghost body = text@;
        text.push(' ');
        text.push('#');
        let mut i: usize = k + 1;
        proof {
            assert(v@.subrange(k + 1, k + 1) =~= Seq::<char>::empty());
            assert(text@ =~= body + seq![' ', '#'] + v@.subrange(k + 1, i as int));
        }
        while i < n
            invariant
                n == v.len(),
                k < i <= n,
                text@ == body + seq![' ', '#'] + v@.subrange(k + 1, i as int),
            decreases n - i,
        {
            text.push(v[i]);
            proof {
                assert(v@.subrange(k + 1, i + 1) =~= v@.subrange(k + 1, i as int).push(
                    v@[i as int],
                ));
                assert(text@ =~= body + seq![' ', '#'] + v@.subrange(k + 1, i + 1));
            }
            i += 1;
        }
        proof {
            assert(v@.subrange(k + 1, n as int) =~= v@.skip(k + 1));
            assert(text@ =~= body + comment_tail(v@));
        }
    } else {
        proof {
            assert(text@ + Seq::<char>::empty() =~= text@);
        }
    }
    Some(Some(text_of(&text)))
}

/// Converts one line of the file. `None`: the line goes. `Some(..)`: the
/// line that is written.
pub fn convert_char_line(line: &str) -> (out: Option<String>)
    ensures
        out is Some <==> char_line(line@) is Some,
        out is Some ==> out->Some_0@ == char_line(line@)->Some_0,
{
    let v = chars_of(line);
    if is_blank_text(&v) || starts_comment(&v) {
        return Some(line.to_owned());
    }
    match normalize_char_range_line(line) {
        None => Some(line.to_owned()),
        Some(rewritten) => rewritten,
    }
}

} // verus!
