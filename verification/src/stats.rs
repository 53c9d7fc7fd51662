//! Counters of one lexicon conversion and their `key=value` rendering.

use crate::number::{decimal, decimal_chars};
use crate::text::{append_chars, append_slice, append_text, text_of};
use vstd::prelude::*;
use vstd::string::StringSliceAdditionalSpecFns;
use vstd::utf8::encode_utf8;

verus! {

/// How much a lexicon conversion wrote, dropped and normalized.
#[derive(Debug, Clone, PartialEq, Eq)]
pub struct ConversionStats {
    /// Rows written to the output.
    pub written: usize,
    /// Rows dropped because a connection id was negative.
    pub skipped_negative_conn_ids: usize,
    /// Rows whose part of speech was changed by normalization.
    pub normalized_pos_rows: usize,
    /// Rows whose inflection type was given up for the sentinel.
    pub fallback_ctype_rows: usize,
    /// Rows whose inflection form was given up for the sentinel.
    pub fallback_cform_rows: usize,
}

/// Counts of rows as plain numbers.
pub struct Tally {
    pub written: nat,
    pub skipped_negative_conn_ids: nat,
    pub normalized_pos_rows: nat,
    pub fallback_ctype_rows: nat,
    pub fallback_cform_rows: nat,
}

impl Tally {
    /// No row of any kind.
    pub open spec fn zero() -> Tally {
        Tally {
            written: 0,
            skipped_negative_conn_ids: 0,
            normalized_pos_rows: 0,
            fallback_ctype_rows: 0,
            fallback_cform_rows: 0,
        }
    }

    /// The sum of two tallies, counter by counter.
    pub open spec fn plus(self, other: Tally) -> Tally {
        Tally {
            written: self.written + other.written,
            skipped_negative_conn_ids: self.skipped_negative_conn_ids
                + other.skipped_negative_conn_ids,
            normalized_pos_rows: self.normalized_pos_rows + other.normalized_pos_rows,
            fallback_ctype_rows: self.fallback_ctype_rows + other.fallback_ctype_rows,
            fallback_cform_rows: self.fallback_cform_rows + other.fallback_cform_rows,
        }
    }

    /// Whether no counter exceeds `n`.
    pub open spec fn within(self, n: nat) -> bool {
        &&& self.written <= n
        &&& self.skipped_negative_conn_ids <= n
        &&& self.normalized_pos_rows <= n
        &&& self.fallback_ctype_rows <= n
        &&& self.fallback_cform_rows <= n
    }
}

impl View for ConversionStats {
    type V = Tally;

    open spec fn view(&self) -> Tally {
        Tally {
            written: self.written as nat,
            skipped_negative_conn_ids: self.skipped_negative_conn_ids as nat,
            normalized_pos_rows: self.normalized_pos_rows as nat,
            fallback_ctype_rows: self.fallback_ctype_rows as nat,
            fallback_cform_rows: self.fallback_cform_rows as nat,
        }
    }
}

impl Default for ConversionStats {
    fn default() -> (stats: Self)
        ensures
            stats.written == 0,
            stats.skipped_negative_conn_ids == 0,
            stats.normalized_pos_rows == 0,
            stats.fallback_ctype_rows == 0,
            stats.fallback_cform_rows == 0,
    {
        ConversionStats {
            written: 0,
            skipped_negative_conn_ids: 0,
            normalized_pos_rows: 0,
            fallback_ctype_rows: 0,
            fallback_cform_rows: 0,
        }
    }
}

/// One `key=value` line.
pub open spec fn env_line(key: Seq<char>, value: nat) -> Seq<char> {
    (key + seq!['=']) + decimal(value) + seq!['\n']
}

/// Appends one `key=value` line to `out`.
fn append_env_line(out: &mut Vec<char>, key: &str, value: usize)
    ensures
        final(out)@ == old(out)@ + env_line(key@, value as nat),
{
    let ghost before = out@;
    append_text(out, key);
    out.push('=');
    append_chars(out, &decimal_chars(value));
    out.push('\n');
    proof {
        assert(out@ =~= before + env_line(key@, value as nat));
    }
}

impl ConversionStats {
    /// Whether every counter can still grow by `n`.
    pub open spec fn has_room(&self, n: nat) -> bool {
        &&& self.written + n <= usize::MAX
        &&& self.skipped_negative_conn_ids + n <= usize::MAX
        &&& self.normalized_pos_rows + n <= usize::MAX
        &&& self.fallback_ctype_rows + n <= usize::MAX
        &&& self.fallback_cform_rows + n <= usize::MAX
    }

    /// The five counters as `key=value` lines, in their fixed order.
    pub open spec fn env_text(&self) -> Seq<char> {
        env_line("written"@, self.written as nat) + env_line(
            "skipped_negative_conn_ids"@,
            self.skipped_negative_conn_ids as nat,
        ) + env_line("normalized_pos_rows"@, self.normalized_pos_rows as nat) + env_line(
            "fallback_ctype_rows"@,
            self.fallback_ctype_rows as nat,
        ) + env_line("fallback_cform_rows"@, self.fallback_cform_rows as nat)
    }

    /// Whether every counter can still grow by `n`.
    pub fn can_count(&self, n: usize) -> (b: bool)
        ensures
            b == self.has_room(n as nat),
    {
        let limit: usize = usize::MAX - n;
        self.written <= limit && self.skipped_negative_conn_ids <= limit
            && self.normalized_pos_rows <= limit && self.fallback_ctype_rows <= limit
            && self.fallback_cform_rows <= limit
    }

    /// Appends the five `key=value` lines of the counters to `output`.
    pub fn write_env_file(&self, output: &mut Vec<u8>)
        ensures
            final(output)@ == old(output)@ + encode_utf8(self.env_text()),
    {
        let text = self.env_file_text();
        append_slice(output, text.as_str().as_bytes());
    }

    /// Renders the counters as five `key=value` lines.
    pub fn env_file_text(&self) -> (out: String)
        ensures
            out@ == self.env_text(),
    {
        let mut v: Vec<char> = Vec::new();
        append_env_line(&mut v, "written", self.written);
        append_env_line(&mut v, "skipped_negative_conn_ids", self.skipped_negative_conn_ids);
        append_env_line(&mut v, "normalized_pos_rows", self.normalized_pos_rows);
        append_env_line(&mut v, "fallback_ctype_rows", self.fallback_ctype_rows);
        append_env_line(&mut v, "fallback_cform_rows", self.fallback_cform_rows);
        proof {
            assert(v@ =~= self.env_text());
        }
        text_of(&v)
    }
}

} // verus!
