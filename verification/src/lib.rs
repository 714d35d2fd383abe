//! Core of an editor helper for ".env"-style configuration files.
//!
//! The crate builds a line index over raw text, resolves byte offsets to
//! 1-based line numbers by binary search, turns tokenizer output into
//! position-annotated entries, and renders masked versions of secret values.

use vstd::prelude::*;

pub mod line_index;
pub mod masker;
pub mod parse;
pub mod types;

verus! {

/// The library's version string. The value is process-wide and immutable;
/// callers must not attempt to release it.
pub fn version() -> (v: &'static str)
    ensures
        v@ == "0.1.0"@,
{
    "0.1.0"
}

} // verus!
