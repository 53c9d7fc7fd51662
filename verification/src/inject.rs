//! Supplementary fragments that are appended behind converted content:
//! text fragments copied line by line, and fragments of the table of
//! unknown words converted like the table itself.

use crate::convert_char::{append_text_as_lines, line_run, lines};
use crate::convert_unk::convert_unknown_dictionary;
use crate::error::{ConvertError, Failure, Table};
use crate::record_io::csv_records;
use crate::rows::run;
use vstd::prelude::*;

verus! {

/// What one fragment comes to: the bytes written for it and the failure
/// that stopped it, if any.
pub type FragmentPass = (Seq<u8>, Option<Failure>);

/// What copying a text fragment line by line comes to.
pub open spec fn text_pass(fragment: Seq<u8>) -> FragmentPass {
    (line_run(lines(fragment), false).bytes, line_run(lines(fragment), false).failure)
}

/// What converting a fragment of the table of unknown words comes to.
pub open spec fn unknown_pass(fragment: Seq<u8>) -> FragmentPass {
    let end = run(Table::Unknown, csv_records(fragment), csv_records(fragment).len());
    (end.bytes, end.failure)
}

/// What the text fragments come to, each on its own.
pub open spec fn text_passes(fragments: Seq<Vec<u8>>) -> Seq<FragmentPass> {
    fragments.map_values(|f: Vec<u8>| text_pass(f@))
}

/// What the fragments of the table of unknown words come to, each on its
/// own.
pub open spec fn unknown_passes(fragments: Seq<Vec<u8>>) -> Seq<FragmentPass> {
    fragments.map_values(|f: Vec<u8>| unknown_pass(f@))
}

/// The first `k` fragments taken in turn: the bytes of each are written
/// behind those of the one before, up to and with the first fragment that
/// fails.
pub open spec fn in_turn(passes: Seq<FragmentPass>, k: nat) -> FragmentPass
    recommends
        k <= passes.len(),
    decreases k,
{
    if k == 0 {
        (Seq::empty(), None)
    } else {
        let before = in_turn(passes, (k - 1) as nat);
        if before.1 is Some {
            before
        } else {
            (before.0 + passes[k - 1].0, passes[k - 1].1)
        }
    }
}

/// Once a fragment has failed, the fragments behind it change nothing.
pub proof fn lemma_in_turn_stays_failed(passes: Seq<FragmentPass>, j: nat, k: nat)
    requires
        j <= k,
        in_turn(passes, j).1 is Some,
    ensures
        in_turn(passes, k) == in_turn(passes, j),
    decreases k,
{
    if j < k {
        lemma_in_turn_stays_failed(passes, j, (k - 1) as nat);
    }
}

/// Appends the lines of each fragment to `output`, every line ended by a
/// line feed, fragment after fragment. The copy stops at the first line
/// that is not valid UTF-8, with everything before it written.
pub fn append_text_files_as_lines(output: &mut Vec<u8>, files: &[Vec<u8>]) -> (out: Result<
    (),
    ConvertError,
>)
    ensures
        ({
            let end = in_turn(text_passes(files@), files@.len());
            &&& final(output)@ == old(output)@ + end.0
            &&& out is Ok <==> end.1 is None
            &&& out is Err ==> end.1 == Some(out->Err_0@)
        }),
{
    let ghost passes = text_passes(files@);
    let ghost bytes0 = output@;
    let n: usize = files.len();
    let mut i: usize = 0;
    proof {
        assert(bytes0 + Seq::<u8>::empty() =~= bytes0);
    }
    while i < n
        invariant
            n == files@.len(),
            i <= n,
            passes == text_passes(files@),
            bytes0 == old(output)@,
            in_turn(passes, i as nat).1 is None,
            output@ == bytes0 + in_turn(passes, i as nat).0,
        decreases n - i,
    {
        proof {
            assert(passes[i as int] == text_pass(files@[i as int]@));
        }
        let outcome = append_text_as_lines(files[i].as_slice(), output);
        proof {
            assert(output@ =~= bytes0 + in_turn(passes, (i + 1) as nat).0);
        }
        match outcome {
            Ok(()) => {},
            Err(e) => {
                proof {
                    lemma_in_turn_stays_failed(passes, (i + 1) as nat, n as nat);
                }
                return Err(e);
            },
        }
        i += 1;
    }
    Ok(())
}

/// Converts each fragment of the table of unknown words and appends the
/// converted rows to `output`, fragment after fragment. The conversion
/// stops at the first row that fails, with everything before it written.
/// The lines of a failure are counted within its fragment.
pub fn append_unknown_definitions(output: &mut Vec<u8>, files: &[Vec<u8>]) -> (out: Result<
    (),
    ConvertError,
>)
    ensures
        ({
            let end = in_turn(unknown_passes(files@), files@.len());
            &&& final(output)@ == old(output)@ + end.0
            &&& out is Ok <==> end.1 is None
            &&& out is Err ==> end.1 == Some(out->Err_0@)
        }),
{
    let ghost passes = unknown_passes(files@);
    let ghost bytes0 = output@;
    let n: usize = files.len();
    let mut i: usize = 0;
    proof {
        assert(bytes0 + Seq::<u8>::empty() =~= bytes0);
    }
    while i < n
        invariant
            n == files@.len(),
            i <= n,
            passes == unknown_passes(files@),
            bytes0 == old(output)@,
            in_turn(passes, i as nat).1 is None,
            output@ == bytes0 + in_turn(passes, i as nat).0,
        decreases n - i,
    {
        proof {
            assert(passes[i as int] == unknown_pass(files@[i as int]@));
        }
        let outcome = convert_unknown_dictionary(files[i].as_slice(), output);
        proof {
            assert(output@ =~= bytes0 + in_turn(passes, (i + 1) as nat).0);
        }
        match outcome {
            Ok(()) => {},
            Err(e) => {
                proof {
                    lemma_in_turn_stays_failed(passes, (i + 1) as nat, n as nat);
                }
                return Err(e);
            },
        }
        i += 1;
    }
    Ok(())
}

/// What a file of rewrite rules with its fragments comes to: the file
/// first, then the fragments in turn.
pub open spec fn rewrite_definition(rewrite_in: Seq<u8>, fragments: Seq<Vec<u8>>) -> FragmentPass {
    let head = text_pass(rewrite_in);
    let tail = in_turn(text_passes(fragments), fragments.len());
    if head.1 is Some {
        head
    } else {
        (head.0 + tail.0, tail.1)
    }
}

/// Writes a file of rewrite rules: the lines of `rewrite_in`, then the
/// lines of each fragment, every line ended by a line feed. Nothing of the
/// file is interpreted. The copy stops at the first line that is not valid
/// UTF-8, with everything before it written.
pub fn write_rewrite_definition(
    rewrite_in: &[u8],
    rewrite_out: &mut Vec<u8>,
    rewrite_append: &[Vec<u8>],
) -> (out: Result<(), ConvertError>)
    ensures
        ({
            let end = rewrite_definition(rewrite_in@, rewrite_append@);
            &&& final(rewrite_out)@ == old(rewrite_out)@ + end.0
            &&& out is Ok <==> end.1 is None
            &&& out is Err ==> end.1 == Some(out->Err_0@)
        }),
{
    let ghost bytes0 = rewrite_out@;
    match append_text_as_lines(rewrite_in, rewrite_out) {
        Ok(()) => {},
        Err(e) => {
            return Err(e);
        },
    }
    let outcome = append_text_files_as_lines(rewrite_out, rewrite_append);
    proof {
        let head = text_pass(rewrite_in@);
        let tail = in_turn(text_passes(rewrite_append@), rewrite_append@.len());
        assert(rewrite_out@ =~= bytes0 + (head.0 + tail.0));
    }
    outcome
}

} // verus!
