//! Conversion of a morphological dictionary from the SudachiDict column
//! layout to the layout of an IPADIC-style tokenizer runtime.
//!
//! Every function states its behaviour over sequences of characters and
//! bytes; the conversions work on whole inputs held in memory.

pub mod char_line;
pub mod convert_char;
pub mod convert_lex;
pub mod convert_unk;
pub mod error;
pub mod inject;
pub mod normalize;
pub mod normalize_laws;
pub mod number;
pub mod record_io;
pub mod row;
pub mod rows;
pub mod scientific_merge;
pub mod stats;
pub mod text;

pub use char_line::normalize_char_range_line;
pub use convert_char::{append_text_as_lines, convert_char_definition};
pub use convert_lex::convert_lexicon;
pub use convert_unk::convert_unknown_dictionary;
pub use error::ConvertError;
pub use inject::{
    append_text_files_as_lines, append_unknown_definitions, write_rewrite_definition,
};
pub use scientific_merge::merge_scientific_notation_tokens;
pub use stats::ConversionStats;
