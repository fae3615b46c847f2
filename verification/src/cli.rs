//! The command line of the tool, as plain data.

use vstd::prelude::*;

verus! {

/// The parsed command line.
#[derive(Debug)]
pub struct Cli {
    pub command: Command,
}

/// The subcommands.
#[derive(Debug)]
pub enum Command {
    /// Match anchor, compute and return scope_hash and matched content.
    Read {
        /// Path to the target file.
        file: String,
        /// Anchor string (exact, multi-line allowed via escape sequences).
        anchor: Option<String>,
        /// Path to a file containing the anchor string.
        anchor_file: Option<String>,
    },
    /// Verify hash, apply replacement.
    Write {
        /// Path to the target file.
        file: String,
        /// Anchor string — must match exactly.
        anchor: Option<String>,
        /// Path to a file containing the anchor string.
        anchor_file: Option<String>,
        /// Expected xxh3_64 hash (hex) of the matched scope.
        expected_hash: String,
        /// Replacement string (replaces the entire anchor scope).
        replacement: Option<String>,
        /// Path to a file containing the replacement content.
        replacement_file: Option<String>,
    },
}

} // verus!
