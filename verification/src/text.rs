//! Primitives shared by the converters: whitespace, trimming, literal
//! comparison, substring replacement, and appending to a buffer.

use vstd::prelude::*;

verus! {

/// `String::push` appends the given character: the text afterwards is the
/// text before, followed by `c`.
pub assume_specification[ String::push ](s: &mut String, c: char)
    ensures
        final(s)@ == old(s)@.push(c),
;

/// The views of a sequence of texts.
pub open spec fn texts(v: Seq<String>) -> Seq<Seq<char>> {
    v.map_values(|s: String| s@)
}

/// The characters with the Unicode `White_Space` property.
pub open spec fn is_space(c: char) -> bool {
    let n = c as u32;
    (0x09 <= n <= 0x0D) || n == 0x20 || n == 0x85 || n == 0xA0 || n == 0x1680 || (0x2000 <= n
        <= 0x200A) || n == 0x2028 || n == 0x2029 || n == 0x202F || n == 0x205F || n == 0x3000
}

/// `s` without its leading whitespace.
pub open spec fn trim_start(s: Seq<char>) -> Seq<char>
    decreases s.len(),
{
    if s.len() > 0 && is_space(s[0]) {
        trim_start(s.drop_first())
    } else {
        s
    }
}

/// `s` without its trailing whitespace.
pub open spec fn trim_end(s: Seq<char>) -> Seq<char>
    decreases s.len(),
{
    if s.len() > 0 && is_space(s.last()) {
        trim_end(s.drop_last())
    } else {
        s
    }
}

/// `s` without leading and trailing whitespace.
pub open spec fn trim(s: Seq<char>) -> Seq<char> {
    trim_end(trim_start(s))
}

/// Whether `s` holds nothing but whitespace.
pub open spec fn is_blank(s: Seq<char>) -> bool {
    trim_start(s).len() == 0
}

/// Whether `s` begins, after its leading whitespace, with the comment
/// marker `#`.
pub open spec fn is_comment(s: Seq<char>) -> bool {
    trim_start(s).len() > 0 && trim_start(s)[0] == '#'
}

/// `s` with every whitespace character removed.
pub open spec fn without_spaces(s: Seq<char>) -> Seq<char> {
    s.filter(|c: char| !is_space(c))
}

/// `s` with every non-overlapping occurrence of `from`, found left to
/// right, replaced by `to`. An empty pattern occurs nowhere.
pub open spec fn replace_all(s: Seq<char>, from: Seq<char>, to: Seq<char>) -> Seq<char>
    decreases s.len(),
{
    if from.len() == 0 || s.len() < from.len() {
        s
    } else if from.is_prefix_of(s) {
        to + replace_all(s.skip(from.len() as int), from, to)
    } else {
        seq![s[0]] + replace_all(s.skip(1), from, to)
    }
}

/// Dropping `a` leading whitespace characters does not change the result
/// of `trim_start`.
pub proof fn lemma_trim_start_skip(s: Seq<char>, a: int)
    requires
        0 <= a <= s.len(),
        forall|i: int| 0 <= i < a ==> is_space(#[trigger] s[i]),
    ensures
        trim_start(s) == trim_start(s.skip(a)),
    decreases a,
{
    if a == 0 {
        assert(s.skip(0) =~= s);
    } else {
        assert(is_space(s[0]));
        let t = s.drop_first();
        assert forall|i: int| 0 <= i < a - 1 implies is_space(#[trigger] t[i]) by {
            assert(t[i] == s[i + 1]);
        }
        lemma_trim_start_skip(t, a - 1);
        assert(t.skip(a - 1) =~= s.skip(a));
    }
}

/// Dropping trailing whitespace down to length `b` does not change the
/// result of `trim_end`.
pub proof fn lemma_trim_end_take(s: Seq<char>, b: int)
    requires
        0 <= b <= s.len(),
        forall|i: int| b <= i < s.len() ==> is_space(#[trigger] s[i]),
    ensures
        trim_end(s) == trim_end(s.take(b)),
    decreases s.len() - b,
{
    if b == s.len() {
        assert(s.take(b) =~= s);
    } else {
        assert(is_space(s.last()));
        let t = s.drop_last();
        lemma_trim_end_take(t, b);
        assert(t.take(b) =~= s.take(b));
    }
}

/// Whether `c` is a whitespace character.
pub fn is_space_char(c: char) -> (b: bool)
    ensures
        b == is_space(c),
{
    let n: u32 = c as u32;
    (0x09 <= n && n <= 0x0D) || n == 0x20 || n == 0x85 || n == 0xA0 || n == 0x1680 || (0x2000 <= n
        && n <= 0x200A) || n == 0x2028 || n == 0x2029 || n == 0x202F || n == 0x205F || n
        == 0x3000
}

/// The characters of `s`, in order.
pub fn chars_of(s: &str) -> (v: Vec<char>)
    ensures
        v@ == s@,
{
    let mut v: Vec<char> = Vec::new();
    for c in it: s.chars()
        invariant
            it.seq() == s@,
            v@ == it.seq().take(it.index() as int),
    {
        proof {
            assert(it.seq().take(it.index() as int).push(c) =~= it.seq().take(it.index() + 1));
        }
        v.push(c);
    }
    proof {
        assert(s@.take(s@.len() as int) =~= s@);
    }
    v
}

/// The text made of the characters of `v`.
pub fn text_of(v: &Vec<char>) -> (s: String)
    ensures
        s@ == v@,
{
    let mut s = String::new();
    let mut i: usize = 0;
    while i < v.len()
        invariant
            i <= v.len(),
            s@ == v@.take(i as int),
        decreases v.len() - i,
    {
        s.push(v[i]);
        proof {
            assert(v@.take(i as int).push(v@[i as int]) =~= v@.take(i + 1));
        }
        i += 1;
    }
    proof {
        assert(v@.take(v.len() as int) =~= v@);
    }
    s
}

/// Whether `v` begins with the characters of `prefix`.
pub fn starts_with_text(v: &Vec<char>, prefix: &str) -> (b: bool)
    ensures
        b == prefix@.is_prefix_of(v@),
{
    let mut matched = true;
    let mut n: usize = 0;
    for c in it: prefix.chars()
        invariant
            it.seq() == prefix@,
            matched ==> n == it.index() && n <= v.len(),
            matched == (it.index() <= v.len() && v@.take(it.index() as int) =~= prefix@.take(
                it.index() as int,
            )),
    {
        let ghost k = it.index() as int;
        if matched {
            if n < v.len() && v[n] == c {
                proof {
                    assert(v@.take(k + 1) =~= v@.take(k).push(v@[k]));
                    assert(prefix@.take(k + 1) =~= prefix@.take(k).push(prefix@[k]));
                }
                n += 1;
            } else {
                proof {
                    if k + 1 <= v.len() {
                        assert(v@.take(k + 1)[k] == v@[k]);
                        assert(prefix@.take(k + 1)[k] == prefix@[k]);
                    }
                }
                matched = false;
            }
        } else {
            proof {
                if k + 1 <= v.len() && v@.take(k + 1) == prefix@.take(k + 1) {
                    assert(v@.take(k) =~= v@.take(k + 1).take(k));
                    assert(prefix@.take(k) =~= prefix@.take(k + 1).take(k));
                }
            }
        }
    }
    proof {
        assert(prefix@.take(prefix@.len() as int) =~= prefix@);
        if prefix@.len() <= v.len() {
            assert(v@.take(prefix@.len() as int) =~= v@.subrange(0, prefix@.len() as int));
        }
    }
    matched
}

/// Whether `v` holds exactly the characters of `literal`.
pub fn is_text(v: &Vec<char>, literal: &str) -> (b: bool)
    ensures
        b == (v@ == literal@),
{
    let b = starts_with_text(v, literal) && v.len() == literal.unicode_len();
    proof {
        if b {
            assert(v@.subrange(0, literal@.len() as int) =~= v@);
        }
        if v@ == literal@ {
            assert(v@.subrange(0, literal@.len() as int) =~= v@);
        }
    }
    b
}

/// A copy of `v` without leading and trailing whitespace.
pub fn trimmed(v: &Vec<char>) -> (out: Vec<char>)
    ensures
        out@ == trim(v@),
{
    let n: usize = v.len();
    let mut a: usize = 0;
    while a < n && is_space_char(v[a])
        invariant
            n == v.len(),
            a <= n,
            forall|i: int| 0 <= i < a ==> is_space(#[trigger] v@[i]),
        decreases n - a,
    {
        a += 1;
    }
    let mut b: usize = n;
    while b > a && is_space_char(v[b - 1])
        invariant
            n == v.len(),
            a <= b <= n,
            forall|i: int| b <= i < n ==> is_space(#[trigger] v@[i]),
        decreases b,
    {
        b -= 1;
    }
    let mut out: Vec<char> = Vec::new();
    let mut i: usize = a;
    while i < b
        invariant
            a <= i <= b,
            b <= v.len(),
            out@ == v@.subrange(a as int, i as int),
        decreases b - i,
    {
        out.push(v[i]);
        proof {
            assert(v@.subrange(a as int, i as int).push(v@[i as int]) =~= v@.subrange(
                a as int,
                i + 1,
            ));
        }
        i += 1;
    }
    proof {
        let s = v@;
        let t = s.skip(a as int);
        lemma_trim_start_skip(s, a as int);
        assert(trim_start(t) == t);
        assert forall|i: int| b - a <= i < t.len() implies is_space(#[trigger] t[i]) by {
            assert(t[i] == s[i + a]);
        }
        lemma_trim_end_take(t, b - a);
        let u = t.take(b - a);
        assert(u =~= s.subrange(a as int, b as int));
        if u.len() > 0 {
            assert(u.last() == s[b - 1]);
        }
        assert(trim_end(u) == u);
    }
    out
}

/// A copy of `v` without any whitespace character.
pub fn stripped(v: &Vec<char>) -> (out: Vec<char>)
    ensures
        out@ == without_spaces(v@),
{
    let ghost keep = |c: char| !is_space(c);
    let mut out: Vec<char> = Vec::new();
    let mut i: usize = 0;
    while i < v.len()
        invariant
            i <= v.len(),
            keep == (|c: char| !is_space(c)),
            out@ == v@.take(i as int).filter(keep),
        decreases v.len() - i,
    {
        proof {
            assert(v@.take(i as int).push(v@[i as int]) =~= v@.take(i + 1));
            v@.take(i as int).lemma_filter_push(v@[i as int], keep);
        }
        if !is_space_char(v[i]) {
            out.push(v[i]);
        }
        i += 1;
    }
    proof {
        assert(v@.take(v.len() as int) =~= v@);
    }
    out
}

/// A copy of `v` in which every non-overlapping occurrence of `from`,
/// found left to right, is replaced by `to`. An empty pattern occurs
/// nowhere.
pub fn replaced(v: &Vec<char>, from: &Vec<char>, to: &Vec<char>) -> (out: Vec<char>)
    ensures
        out@ == replace_all(v@, from@, to@),
{
    let n: usize = v.len();
    let m: usize = from.len();
    let mut out: Vec<char> = Vec::new();
    if m == 0 {
        append_chars(&mut out, v);
        proof {
            assert(out@ =~= v@);
        }
        return out;
    }
    let mut i: usize = 0;
    proof {
        assert(v@.skip(0) =~= v@);
        assert(out@ + replace_all(v@, from@, to@) =~= replace_all(v@, from@, to@));
    }
    while i < n
        invariant
            n == v.len(),
            m == from.len(),
            m > 0,
            i <= n,
            out@ + replace_all(v@.skip(i as int), from@, to@) == replace_all(v@, from@, to@),
        decreases n - i,
    {
        let ghost rest = v@.skip(i as int);
        let mut hit = n - i >= m;
        let mut k: usize = 0;
        while hit && k < m
            invariant
                n == v.len(),
                m == from.len(),
                i < n,
                k <= m,
                hit ==> i + m <= n,
                hit ==> v@.subrange(i as int, i + k) == from@.take(k as int),
                !hit ==> !from@.is_prefix_of(v@.skip(i as int)),
            decreases (if hit { m - k + 1 } else { 0int }),
        {
            if v[i + k] == from[k] {
                proof {
                    assert(v@.subrange(i as int, i + k + 1) =~= v@.subrange(i as int, i + k).push(
                        v@[i + k],
                    ));
                    assert(from@.take(k + 1) =~= from@.take(k as int).push(from@[k as int]));
                }
                k += 1;
            } else {
                proof {
                    if from@.is_prefix_of(rest) {
                        assert(rest.subrange(0, m as int)[k as int] == from@[k as int]);
                    }
                }
                hit = false;
            }
        }
        proof {
            if hit {
                assert(from@.take(m as int) =~= from@);
                assert(rest.subrange(0, m as int) =~= v@.subrange(i as int, i + m));
            }
            assert(hit == from@.is_prefix_of(rest));
        }
        if hit {
            let mut j: usize = 0;
            let ghost before = out@;
            while j < to.len()
                invariant
                    j <= to.len(),
                    out@ == before + to@.take(j as int),
                decreases to.len() - j,
            {
                out.push(to[j]);
                proof {
                    assert(to@.take(j + 1) =~= to@.take(j as int).push(to@[j as int]));
                    assert(before + to@.take(j + 1) =~= (before + to@.take(j as int)).push(
                        to@[j as int],
                    ));
                }
                j += 1;
            }
            proof {
                assert(to@.take(to.len() as int) =~= to@);
                assert(rest.skip(m as int) =~= v@.skip(i + m));
                assert(out@ + replace_all(v@.skip(i + m), from@, to@) =~= before + replace_all(
                    rest,
                    from@,
                    to@,
                ));
            }
            i += m;
        } else {
            let ghost before = out@;
            out.push(v[i]);
            proof {
                let next = v@.skip(i + 1);
                assert(rest.skip(1) =~= next);
                assert(rest =~= seq![rest[0]] + next);
                assert(replace_all(rest, from@, to@) == seq![rest[0]] + replace_all(
                    next,
                    from@,
                    to@,
                ));
                assert(out@ + replace_all(next, from@, to@) =~= before + replace_all(
                    rest,
                    from@,
                    to@,
                ));
            }
            i += 1;
        }
    }
    proof {
        assert(out@ + Seq::<char>::empty() =~= out@);
    }
    out
}

/// Appends the characters of `v` to `out`.
pub fn append_chars(out: &mut Vec<char>, v: &Vec<char>)
    ensures
        final(out)@ == old(out)@ + v@,
{
    let ghost before = out@;
    let mut i: usize = 0;
    proof {
        assert(before + v@.take(0) =~= before);
    }
    while i < v.len()
        invariant
            i <= v.len(),
            out@ == before + v@.take(i as int),
        decreases v.len() - i,
    {
        out.push(v[i]);
        proof {
            assert(before + v@.take(i + 1) =~= (before + v@.take(i as int)).push(v@[i as int]));
        }
        i += 1;
    }
    proof {
        assert(v@.take(v.len() as int) =~= v@);
    }
}

/// Appends the characters of `s` to `out`.
pub fn append_text(out: &mut Vec<char>, s: &str)
    ensures
        final(out)@ == old(out)@ + s@,
{
    let v = chars_of(s);
    append_chars(out, &v);
}

/// The number of whitespace characters at the head of `v`.
pub fn leading_spaces(v: &Vec<char>) -> (a: usize)
    ensures
        a <= v.len(),
        trim_start(v@) == v@.skip(a as int),
        a < v.len() ==> !is_space(v@[a as int]),
{
    let n: usize = v.len();
    let mut a: usize = 0;
    while a < n && is_space_char(v[a])
        invariant
            n == v.len(),
            a <= n,
            forall|i: int| 0 <= i < a ==> is_space(#[trigger] v@[i]),
        decreases n - a,
    {
        a += 1;
    }
    proof {
        lemma_trim_start_skip(v@, a as int);
        let t = v@.skip(a as int);
        if a < n {
            assert(t[0] == v@[a as int]);
        }
        assert(trim_start(t) == t);
    }
    a
}

/// Whether `v` holds nothing but whitespace.
pub fn is_blank_text(v: &Vec<char>) -> (b: bool)
    ensures
        b == is_blank(v@),
{
    leading_spaces(v) == v.len()
}

/// Whether `v` begins, after its leading whitespace, with the comment
/// marker.
pub fn starts_comment(v: &Vec<char>) -> (b: bool)
    ensures
        b == is_comment(v@),
{
    let a = leading_spaces(v);
    proof {
        if a < v.len() {
            assert(v@.skip(a as int)[0] == v@[a as int]);
        }
    }
    a < v.len() && v[a] == '#'
}

/// Appends `bytes` to `output`.
pub fn append_slice(output: &mut Vec<u8>, bytes: &[u8])
    ensures
        final(output)@ == old(output)@ + bytes@,
{
    let ghost before = output@;
    let mut i: usize = 0;
    proof {
        assert(before + bytes@.take(0) =~= before);
    }
    while i < bytes.len()
        invariant
            i <= bytes.len(),
            output@ == before + bytes@.take(i as int),
        decreases bytes.len() - i,
    {
        output.push(bytes[i]);
        proof {
            assert(before + bytes@.take(i + 1) =~= (before + bytes@.take(i as int)).push(
                bytes@[i as int],
            ));
        }
        i += 1;
    }
    proof {
        assert(bytes@.take(bytes.len() as int) =~= bytes@);
    }
}

} // verus!
