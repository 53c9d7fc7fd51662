//! Conversion of a character-definition file, and the plain copying of a
//! text file line by line.

use crate::char_line::{char_line, convert_char_line};
use crate::error::{ConvertError, Failure};
use crate::text::append_slice;
use vstd::prelude::*;
use vstd::string::StringSliceAdditionalSpecFns;
use vstd::utf8::{decode_utf8, encode_utf8, valid_utf8};

verus! {

/// The error of `core::str::from_utf8`. Nothing is read from it.
#[verifier::external_type_specification]
#[verifier::external_body]
pub struct ExUtf8Error(core::str::Utf8Error);

/// `core::str::from_utf8` succeeds on the byte sequences that are valid
/// UTF-8 and on no others, and the text that it returns is made of the
/// characters that the bytes encode.
pub assume_specification[ core::str::from_utf8 ](v: &[u8]) -> (out: Result<
    &str,
    core::str::Utf8Error,
>)
    ensures
        out is Ok <==> valid_utf8(v@),
        out is Ok ==> out->Ok_0@ == decode_utf8(v@),
;

/// The position of the first line feed in `b`, or the length of `b` where
/// it has none.
pub open spec fn line_break(b: Seq<u8>) -> nat
    decreases b.len(),
{
    if b.len() == 0 || b[0] == 0x0A {
        0
    } else {
        1 + line_break(b.drop_first())
    }
}

/// `b` without one trailing carriage return.
pub open spec fn without_cr(b: Seq<u8>) -> Seq<u8> {
    if b.len() > 0 && b.last() == 0x0D {
        b.drop_last()
    } else {
        b
    }
}

/// The content of a line. A line that ended in a line feed loses the
/// carriage return of its line ending; after that, any line loses one
/// trailing carriage return.
pub open spec fn line_content(segment: Seq<u8>, terminated: bool) -> Seq<u8> {
    if terminated {
        without_cr(without_cr(segment))
    } else {
        without_cr(segment)
    }
}

/// The lines of `b`, each without its line ending. What follows the last
/// line feed is a line unless it is empty.
pub open spec fn lines(b: Seq<u8>) -> Seq<Seq<u8>>
    decreases b.len(),
{
    if b.len() == 0 {
        Seq::empty()
    } else {
        let e = line_break(b) as int;
        if e < b.len() {
            seq![line_content(b.take(e), true)] + lines(b.skip(e + 1))
        } else {
            seq![line_content(b, false)]
        }
    }
}

/// What is written for one line that is valid UTF-8. In a copy, the line
/// and a line feed. In a conversion, the converted line and a line feed,
/// or nothing where the line goes.
pub open spec fn emitted(line: Seq<u8>, rewrite: bool) -> Seq<u8> {
    if rewrite {
        match char_line(decode_utf8(line)) {
            Some(text) => encode_utf8(text) + seq![0x0Au8],
            None => Seq::empty(),
        }
    } else {
        line + seq![0x0Au8]
    }
}

/// What a pass over lines has come to: the bytes written and the failure
/// that stopped it, if any.
pub struct LinePass {
    pub bytes: Seq<u8>,
    pub failure: Option<Failure>,
}

/// The pass over `ls`: each line is taken in turn, with its position from
/// one as its number, until one is not valid UTF-8.
pub open spec fn line_run(ls: Seq<Seq<u8>>, rewrite: bool) -> LinePass
    decreases ls.len(),
{
    if ls.len() == 0 {
        LinePass { bytes: Seq::empty(), failure: None }
    } else {
        let before = line_run(ls.drop_last(), rewrite);
        if before.failure is Some {
            before
        } else if !valid_utf8(ls.last()) {
            LinePass { bytes: before.bytes, failure: Some(Failure::InvalidUtf8 { line: ls.len() }) }
        } else {
            LinePass { bytes: before.bytes + emitted(ls.last(), rewrite), failure: None }
        }
    }
}

/// The line feed is found at `k` once no line feed stands before `k`.
pub proof fn lemma_line_break(b: Seq<u8>, k: int)
    requires
        0 <= k <= b.len(),
        forall|i: int| 0 <= i < k ==> #[trigger] b[i] != 0x0A,
        k < b.len() ==> b[k] == 0x0A,
    ensures
        line_break(b) == k,
    decreases k,
{
    if k > 0 {
        let t = b.drop_first();
        assert forall|i: int| 0 <= i < k - 1 implies #[trigger] t[i] != 0x0A by {
            assert(t[i] == b[i + 1]);
        }
        lemma_line_break(t, k - 1);
    }
}

/// A pass that has failed stays as it is, whatever lines follow.
pub proof fn lemma_line_run_stays_failed(a: Seq<Seq<u8>>, b: Seq<Seq<u8>>, rewrite: bool)
    requires
        line_run(a, rewrite).failure is Some,
    ensures
        line_run(a + b, rewrite) == line_run(a, rewrite),
    decreases b.len(),
{
    if b.len() == 0 {
        assert(a + b =~= a);
    } else {
        lemma_line_run_stays_failed(a, b.drop_last(), rewrite);
        assert((a + b).drop_last() =~= a + b.drop_last());
    }
}

/// Whether a line is written as it is: it is blank, a comment, or no
/// codepoint-range line.
pub open spec fn is_plain_line(line: Seq<char>) -> bool {
    char_line(line) == Some(line)
}

/// A file that holds nothing but blank lines, comments and lines that are
/// no codepoint-range lines is converted to what copying it line by line
/// gives: every line as it was, ended by a line feed.
pub proof fn lemma_plain_lines_are_copied(ls: Seq<Seq<u8>>)
    requires
        forall|i: int|
            0 <= i < ls.len() && valid_utf8(#[trigger] ls[i]) ==> is_plain_line(decode_utf8(ls[i])),
    ensures
        line_run(ls, true) == line_run(ls, false),
    decreases ls.len(),
{
    if ls.len() > 0 {
        let init = ls.drop_last();
        assert forall|i: int| 0 <= i < init.len() && valid_utf8(#[trigger] init[i]) implies is_plain_line(
            decode_utf8(init[i]),
        ) by {
            assert(init[i] == ls[i]);
        }
        lemma_plain_lines_are_copied(init);
        if valid_utf8(ls.last()) {
            assert(is_plain_line(decode_utf8(ls.last())));
            vstd::utf8::decode_utf8_encode_utf8(ls.last());
        }
    }
}

/// The lines, each followed by a line feed.
pub open spec fn relined(ls: Seq<Seq<u8>>) -> Seq<u8>
    decreases ls.len(),
{
    if ls.len() == 0 {
        Seq::empty()
    } else {
        relined(ls.drop_last()) + ls.last() + seq![0x0Au8]
    }
}

/// Copying lines that are all valid UTF-8 writes each line followed by a
/// line feed and does not fail.
pub proof fn lemma_copy_relines(ls: Seq<Seq<u8>>)
    requires
        forall|i: int| 0 <= i < ls.len() ==> valid_utf8(#[trigger] ls[i]),
    ensures
        line_run(ls, false).failure is None,
        line_run(ls, false).bytes == relined(ls),
    decreases ls.len(),
{
    if ls.len() > 0 {
        let init = ls.drop_last();
        assert forall|i: int| 0 <= i < init.len() implies valid_utf8(#[trigger] init[i]) by {
            assert(init[i] == ls[i]);
        }
        lemma_copy_relines(init);
        assert(relined(init) + (ls.last() + seq![0x0Au8]) =~= relined(init) + ls.last() + seq![
            0x0Au8,
        ]);
    }
}

/// A file of valid UTF-8 that holds nothing but blank lines, comments and
/// lines that are no codepoint-range lines comes through its conversion
/// byte for byte but for its line endings: what is written is every line
/// of the file followed by a line feed.
pub proof fn lemma_plain_file_is_kept(input: Seq<u8>)
    requires
        forall|i: int|
            0 <= i < lines(input).len() ==> valid_utf8(#[trigger] lines(input)[i])
                && is_plain_line(decode_utf8(lines(input)[i])),
    ensures
        line_run(lines(input), true).failure is None,
        line_run(lines(input), true).bytes == relined(lines(input)),
{
    lemma_plain_lines_are_copied(lines(input));
    lemma_copy_relines(lines(input));
}

/// Takes the line that begins at `pos`: its content, and the position
/// behind its line ending.
fn next_line(input: &[u8], pos: usize) -> (out: (Vec<u8>, usize))
    requires
        pos < input.len(),
    ensures
        pos < out.1 <= input.len(),
        lines(input@.skip(pos as int)) == seq![out.0@] + lines(input@.skip(out.1 as int)),
{
    let n: usize = input.len();
    let ghost rest = input@.skip(pos as int);
    let mut e: usize = pos;
    while e < n && input[e] != 0x0A
        invariant
            n == input.len(),
            pos <= e <= n,
            forall|i: int| pos <= i < e ==> #[trigger] input@[i] != 0x0A,
        decreases n - e,
    {
        e += 1;
    }
    proof {
        assert forall|i: int| 0 <= i < e - pos implies #[trigger] rest[i] != 0x0A by {
            assert(rest[i] == input@[i + pos]);
        }
        lemma_line_break(rest, e - pos);
    }
    let terminated = e < n;
    let mut hi: usize = e;
    if terminated && hi > pos && input[hi - 1] == 0x0D {
        hi -= 1;
    }
    if hi > pos && input[hi - 1] == 0x0D {
        hi -= 1;
    }
    let mut line: Vec<u8> = Vec::new();
    let mut i: usize = pos;
    while i < hi
        invariant
            pos <= i <= hi <= input.len(),
            line@ == input@.subrange(pos as int, i as int),
        decreases hi - i,
    {
        line.push(input[i]);
        proof {
            assert(input@.subrange(pos as int, i + 1) =~= input@.subrange(pos as int, i as int).push(
                input@[i as int],
            ));
        }
        i += 1;
    }
    let next: usize = if terminated {
        e + 1
    } else {
        e
    };
    proof {
        let segment = rest.take(e - pos);
        assert(segment =~= input@.subrange(pos as int, e as int));
        if segment.len() > 0 {
            assert(segment.last() == input@[e - 1]);
        }
        let once = without_cr(segment);
        if terminated {
            assert(once =~= input@.subrange(
                pos as int,
                if e > pos && input@[e - 1] == 0x0D {
                    e - 1
                } else {
                    e as int
                },
            ));
            if once.len() > 0 {
                assert(once.last() == input@[pos + once.len() - 1]);
            }
            assert(line@ =~= without_cr(once));
            assert(rest.skip(e - pos + 1) =~= input@.skip(e + 1));
        } else {
            assert(segment =~= rest);
            assert(line@ =~= once);
            assert(input@.skip(n as int) =~= Seq::<u8>::empty());
            assert(seq![line@] + Seq::<Seq<u8>>::empty() =~= seq![line@]);
        }
    }
    (line, next)
}

/// Writes what one line comes to, or fails where the line is not valid
/// UTF-8.
fn emit_line(line: &Vec<u8>, number: usize, rewrite: bool, output: &mut Vec<u8>) -> (out: Result<
    (),
    ConvertError,
>)
    ensures
        out is Ok <==> valid_utf8(line@),
        out is Ok ==> final(output)@ == old(output)@ + emitted(line@, rewrite),
        out is Err ==> final(output)@ == old(output)@ && out->Err_0@ == (Failure::InvalidUtf8 {
            line: number as nat,
        }),
{
    let ghost before = output@;
    match core::str::from_utf8(line.as_slice()) {
        Err(_) => Err(ConvertError::InvalidUtf8 { line: number }),
        Ok(text) => {
            if rewrite {
                match convert_char_line(text) {
                    Some(converted) => {
                        append_slice(output, converted.as_str().as_bytes());
                        output.push(0x0A);
                        proof {
                            assert(output@ =~= before + emitted(line@, rewrite));
                        }
                    },
                    None => {
                        proof {
                            assert(before + Seq::<u8>::empty() =~= before);
                        }
                    },
                }
            } else {
                append_slice(output, line.as_slice());
                output.push(0x0A);
                proof {
                    assert(output@ =~= before + emitted(line@, rewrite));
                }
            }
            Ok(())
        },
    }
}

/// Takes the lines of `input` in turn and appends to `output` what each
/// comes to, up to the first line that is not valid UTF-8.
fn pass_lines(input: &[u8], output: &mut Vec<u8>, rewrite: bool) -> (out: Result<(), ConvertError>)
    ensures
        ({
            let end = line_run(lines(input@), rewrite);
            &&& final(output)@ == old(output)@ + end.bytes
            &&& out is Ok <==> end.failure is None
            &&& out is Err ==> end.failure == Some(out->Err_0@)
        }),
{
    let ghost bytes0 = output@;
    let ghost mut done: Seq<Seq<u8>> = Seq::empty();
    let n: usize = input.len();
    let mut pos: usize = 0;
    let mut count: usize = 0;
    proof {
        assert(input@.skip(0) =~= input@);
        assert(done + lines(input@) =~= lines(input@));
        assert(bytes0 + Seq::<u8>::empty() =~= bytes0);
    }
    while pos < n
        invariant
            n == input.len(),
            pos <= n,
            count <= pos,
            count == done.len(),
            bytes0 == old(output)@,
            done + lines(input@.skip(pos as int)) == lines(input@),
            line_run(done, rewrite).failure is None,
            output@ == bytes0 + line_run(done, rewrite).bytes,
        decreases n - pos,
    {
        let (line, next) = next_line(input, pos);
        count += 1;
        let ghost grown = done.push(line@);
        proof {
            assert(grown.drop_last() =~= done);
            assert(grown + lines(input@.skip(next as int)) =~= done + (seq![line@] + lines(
                input@.skip(next as int),
            )));
        }
        match emit_line(&line, count, rewrite, output) {
            Ok(()) => {
                proof {
                    assert(output@ =~= bytes0 + line_run(grown, rewrite).bytes);
                }
            },
            Err(e) => {
                proof {
                    lemma_line_run_stays_failed(grown, lines(input@.skip(next as int)), rewrite);
                }
                return Err(e);
            },
        }
        proof {
            done = grown;
        }
        pos = next;
    }
    proof {
        assert(input@.skip(n as int) =~= Seq::<u8>::empty());
        assert(done + Seq::<Seq<u8>>::empty() =~= done);
    }
    Ok(())
}

/// Converts the character-definition file held in `input` and appends the
/// result to `output`, line by line and each line ended by a line feed.
/// Blank lines, comments and lines that are no codepoint-range lines are
/// written as they are; a codepoint-range line loses the obsolete marker,
/// and goes where no category is left. The conversion stops at the first
/// line that is not valid UTF-8, with the lines before it written.
pub fn convert_char_definition(input: &[u8], output: &mut Vec<u8>) -> (out: Result<
    (),
    ConvertError,
>)
    ensures
        ({
            let end = line_run(lines(input@), true);
            &&& final(output)@ == old(output)@ + end.bytes
            &&& out is Ok <==> end.failure is None
            &&& out is Err ==> end.failure == Some(out->Err_0@)
        }),
{
    pass_lines(input, output, true)
}

/// Appends the lines of `input` to `output`, each ended by a line feed. The
/// copy stops at the first line that is not valid UTF-8, with the lines
/// before it written.
pub fn append_text_as_lines(input: &[u8], output: &mut Vec<u8>) -> (out: Result<(), ConvertError>)
    ensures
        ({
            let end = line_run(lines(input@), false);
            &&& final(output)@ == old(output)@ + end.bytes
            &&& out is Ok <==> end.failure is None
            &&& out is Err ==> end.failure == Some(out->Err_0@)
        }),
{
    pass_lines(input, output, false)
}

} // verus!
