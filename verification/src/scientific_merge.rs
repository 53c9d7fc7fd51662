//! Joining the three tokens of a number in scientific notation, such as
//! `1e`, `-`, `3`, back into one token.

use crate::number::{is_digit, is_digits};
use crate::text::{chars_of, texts};
use vstd::prelude::*;
use vstd::string::StringExecFns;

verus! {

/// The views of a sequence of borrowed texts.
pub open spec fn token_texts(tokens: Seq<&str>) -> Seq<Seq<char>> {
    tokens.map_values(|s: &str| s@)
}

/// Whether `s` is a run of digits followed by the exponent letter.
pub open spec fn is_mantissa(s: Seq<char>) -> bool {
    s.len() >= 2 && (s.last() == 'e' || s.last() == 'E') && is_digits(s.drop_last())
}

/// Whether `s` is a single plus or minus sign.
pub open spec fn is_sign(s: Seq<char>) -> bool {
    s.len() == 1 && (s[0] == '+' || s[0] == '-')
}

/// Whether the three tokens at the head of `tokens` spell one number.
pub open spec fn head_is_number(tokens: Seq<Seq<char>>) -> bool {
    tokens.len() > 2 && is_mantissa(tokens[0]) && is_sign(tokens[1]) && is_digits(tokens[2])
}

/// The tokens with every mantissa, sign and exponent joined, scanning left
/// to right; all other tokens are kept as they are.
pub open spec fn merged(tokens: Seq<Seq<char>>) -> Seq<Seq<char>>
    decreases tokens.len(),
{
    if tokens.len() == 0 {
        Seq::empty()
    } else if head_is_number(tokens) {
        seq![tokens[0] + tokens[1] + tokens[2]] + merged(tokens.skip(3))
    } else {
        seq![tokens[0]] + merged(tokens.skip(1))
    }
}

/// Whether the characters of `v` from `from` up to `to` are a non-empty
/// run of ASCII digits.
fn digits_between(v: &Vec<char>, from: usize, to: usize) -> (b: bool)
    requires
        from <= to <= v.len(),
    ensures
        b == is_digits(v@.subrange(from as int, to as int)),
{
    if from == to {
        return false;
    }
    let mut i: usize = from;
    while i < to
        invariant
            from <= i <= to,
            to <= v.len(),
            forall|k: int| from <= k < i ==> is_digit(#[trigger] v@[k]),
        decreases to - i,
    {
        let n: u32 = v[i] as u32;
        if !(0x30 <= n && n <= 0x39) {
            proof {
                assert(v@.subrange(from as int, to as int)[i - from] == v@[i as int]);
            }
            return false;
        }
        i += 1;
    }
    proof {
        let s = v@.subrange(from as int, to as int);
        assert forall|k: int| 0 <= k < s.len() implies is_digit(#[trigger] s[k]) by {
            assert(s[k] == v@[k + from]);
        }
    }
    true
}

/// Whether `token` is a run of digits followed by `e` or `E`.
fn is_scientific_lhs(token: &str) -> (b: bool)
    ensures
        b == is_mantissa(token@),
{
    let v = chars_of(token);
    let n: usize = v.len();
    if n < 2 {
        return false;
    }
    let last = v[n - 1];
    proof {
        assert(v@.drop_last() =~= v@.subrange(0, n - 1));
    }
    (last == 'e' || last == 'E') && digits_between(&v, 0, n - 1)
}

/// Whether `token` is a non-empty run of ASCII digits.
fn is_ascii_digits(token: &str) -> (b: bool)
    ensures
        b == is_digits(token@),
{
    let v = chars_of(token);
    proof {
        assert(v@.subrange(0, v.len() as int) =~= v@);
    }
    digits_between(&v, 0, v.len())
}

/// Whether `token` is `+` or `-`.
fn is_sign_token(token: &str) -> (b: bool)
    ensures
        b == is_sign(token@),
{
    let v = chars_of(token);
    v.len() == 1 && (v[0] == '+' || v[0] == '-')
}

/// Joins each run of three tokens that spells a number in scientific
/// notation (digits and exponent letter, a sign, digits) into one token,
/// scanning left to right, and keeps every other token.
pub fn merge_scientific_notation_tokens(tokens: &[&str]) -> (out: Vec<String>)
    ensures
        texts(out@) == merged(token_texts(tokens@)),
{
    let ghost all = token_texts(tokens@);
    let mut out: Vec<String> = Vec::new();
    let mut i: usize = 0;
    proof {
        assert(all.skip(0) =~= all);
        assert(texts(out@) + merged(all) =~= merged(all));
    }
    while i < tokens.len()
        invariant
            i <= tokens.len(),
            all == token_texts(tokens@),
            texts(out@) + merged(all.skip(i as int)) == merged(all),
        decreases tokens.len() - i,
    {
        let ghost rest = all.skip(i as int);
        let ghost before = texts(out@);
        let mut joined = false;
        if tokens.len() - i > 2 {
            let lhs = tokens[i];
            let sign = tokens[i + 1];
            let rhs = tokens[i + 2];
            proof {
                assert(rest[0] == lhs@ && rest[1] == sign@ && rest[2] == rhs@);
            }
            if is_scientific_lhs(lhs) && is_sign_token(sign) && is_ascii_digits(rhs) {
                let mut s = lhs.to_owned();
                s.append(sign);
                s.append(rhs);
                out.push(s);
                joined = true;
            }
        }
        if joined {
            proof {
                assert(head_is_number(rest));
                assert(rest.skip(3) =~= all.skip(i + 3));
                assert(texts(out@) =~= before + seq![rest[0] + rest[1] + rest[2]]);
                assert(texts(out@) + merged(all.skip(i + 3)) =~= before + merged(rest));
            }
            i += 3;
        } else {
            out.push(tokens[i].to_owned());
            proof {
                assert(rest[0] == tokens@[i as int]@);
                assert(!head_is_number(rest));
                assert(rest.skip(1) =~= all.skip(i + 1));
                assert(texts(out@) =~= before + seq![rest[0]]);
                assert(texts(out@) + merged(all.skip(i + 1)) =~= before + merged(rest));
            }
            i += 1;
        }
    }
    proof {
        assert(texts(out@) + Seq::<Seq<char>>::empty() =~= texts(out@));
    }
    out
}

} // verus!
