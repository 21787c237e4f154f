//! Verified core of a trace-log report tool.
//!
//! The library interprets structured, line-oriented compilation trace logs
//! into keyed output artifacts, and compares the signatures derived from
//! several such logs ("ranks") to detect behavioral divergence.

pub mod strutil;
pub mod intern;
pub mod analysis;
pub mod divergence;
pub mod ingest;
pub mod json;
pub mod envelope;
pub mod directory;
pub mod output;
pub mod parsers;
pub mod stack;
pub mod symexpr;
pub mod interp;
pub mod multirank;

use vstd::prelude::*;

verus! {

/// Configuration of one interpreter pass.
///
/// In strict mode any accumulated failure turns the whole pass into a
/// hard error at pass end; strict-compile-id mode independently fails a
/// pass in which a record landed in an unknown-compile-id bucket.
pub struct ParseConfig {
    pub strict: bool,
    pub strict_compile_id: bool,
    /// Additional handler registrations supplied by the caller.
    pub custom_parsers: Vec<crate::parsers::LogParser>,
    pub custom_header_html: String,
    pub verbose: bool,
    pub plain_text: bool,
    pub export: bool,
    pub inductor_provenance: bool,
}

impl Default for ParseConfig {
    /// The default configuration: nothing strict, no custom parsers,
    /// rendered output.
    fn default() -> (r: ParseConfig)
        ensures
            !r.strict,
            !r.strict_compile_id,
            r.custom_parsers@.len() == 0,
            r.custom_header_html@ == Seq::<char>::empty(),
            !r.verbose,
            !r.plain_text,
            !r.export,
            !r.inductor_provenance,
    {
        ParseConfig {
            strict: false,
            strict_compile_id: false,
            custom_parsers: Vec::new(),
            custom_header_html: String::new(),
            verbose: false,
            plain_text: false,
            export: false,
            inductor_provenance: false,
        }
    }
}

/// The command-line surface of the tool.  The library only carries the
/// decoded flags; reading the command line is the caller's business.
pub struct Cli {
    pub path: String,
    /// Parse the most recent log of a directory.
    pub latest: bool,
    /// Output directory.
    pub out: String,
    /// Delete the output directory if it already exists.
    pub overwrite: bool,
    /// Fail on unrecognized log lines.
    pub strict: bool,
    /// Fail on records without a compile id.
    pub strict_compile_id: bool,
    /// Do not open a browser at the end.
    pub no_browser: bool,
    /// Custom HTML for the top of the report.
    pub custom_header_html: String,
    pub verbose: bool,
    /// Plain text outputs instead of rendered HTML.
    pub plain_text: bool,
    /// Export-specific handling.
    pub export: bool,
    /// Provenance-tracking highlighter pages.
    pub inductor_provenance: bool,
    /// Parse all ranks and build one multi-rank report.
    pub all_ranks_html: bool,
}

} // verus!
