//! The resolved configuration of one run: inputs, output format, what to count,
//! how to display it, and the optional limits.
use vstd::prelude::*;

verus! {

/// Options of one run, as the command line resolved them.
pub struct Cli {
    /// Paths of the documents to count, in the order given.
    pub input: Vec<String>,
    /// Encoding of the report.
    pub format: OutputFormat,
    /// What to count and show.
    pub mode: CountMode,
    /// File that receives the report instead of standard output.
    pub output: Option<String>,
    /// How much detail the report shows.
    pub display: DisplayMode,
    /// Count only text that comes from each input file itself.
    pub exclude_imports: bool,
    /// Largest word count that passes.
    pub max_words: Option<usize>,
    /// Smallest word count that passes.
    pub min_words: Option<usize>,
    /// Largest character count that passes.
    pub max_characters: Option<usize>,
    /// Smallest character count that passes.
    pub min_characters: Option<usize>,
}

/// Encoding of the report.
#[derive(Clone, Copy, Debug, PartialEq, Eq, Structural)]
pub enum OutputFormat {
    /// Labelled lines or an aligned table.
    Human,
    /// A JSON object or array.
    Json,
    /// Comma-separated rows under a header.
    Csv,
}

/// What is counted and shown.
#[derive(Clone, Copy, Debug, PartialEq, Eq, Structural)]
pub enum CountMode {
    /// Words and characters.
    Both,
    /// Words only.
    Words,
    /// Characters only.
    Characters,
}

/// How much detail the report shows.
#[derive(Clone, Copy, Debug, PartialEq, Eq, Structural)]
pub enum DisplayMode {
    /// One line per file when there are several files, the total otherwise.
    Auto,
    /// Only the total.
    Total,
    /// Bare numbers, without labels.
    Quiet,
    /// One line per file, always.
    Detailed,
}

} // verus!
