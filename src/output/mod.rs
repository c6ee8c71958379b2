//! Totals across files and rendering of the results as human-readable text,
//! JSON or CSV.
pub mod csv;
pub mod human;
pub mod json;

use crate::cli::{CountMode, DisplayMode, OutputFormat};
use crate::counter::Count;
use vstd::prelude::*;

use self::csv::csv_text;
use self::human::{human_text, name_width};
use self::json::json_text;

verus! {

/// Words over all results, field-wise.
pub open spec fn total_words(results: Seq<(String, Count)>) -> nat
    decreases results.len(),
{
    if results.len() == 0 {
        0
    } else {
        total_words(results.drop_last()) + results.last().1.words as nat
    }
}

/// Characters over all results, field-wise.
pub open spec fn total_characters(results: Seq<(String, Count)>) -> nat
    decreases results.len(),
{
    if results.len() == 0 {
        0
    } else {
        total_characters(results.drop_last()) + results.last().1.characters as nat
    }
}

/// Whether both totals fit in a `usize`.
pub open spec fn totals_fit(results: Seq<(String, Count)>) -> bool {
    total_words(results) <= usize::MAX && total_characters(results) <= usize::MAX
}

/// Whether the per-file breakdown is shown for `n` files.
pub open spec fn shows_breakdown(display: DisplayMode, n: nat) -> bool {
    display == DisplayMode::Detailed || (display == DisplayMode::Auto && n > 1)
}

/// Whether rendering `n` results in `format` under `display` computes their total.
pub open spec fn needs_total(format: OutputFormat, n: nat, display: DisplayMode) -> bool {
    match format {
        OutputFormat::Human => true,
        OutputFormat::Json => n == 1 || display == DisplayMode::Total,
        OutputFormat::Csv => display == DisplayMode::Total && n > 1,
    }
}

/// Totals of a prefix are at most the totals of the whole.
pub proof fn lemma_total_prefix(results: Seq<(String, Count)>, i: int)
    requires
        0 <= i <= results.len(),
    ensures
        total_words(results.take(i)) <= total_words(results),
        total_characters(results.take(i)) <= total_characters(results),
    decreases results.len(),
{
    if i == results.len() {
        assert(results.take(i) =~= results);
    } else {
        assert(results.drop_last().take(i) =~= results.take(i));
        lemma_total_prefix(results.drop_last(), i);
    }
}

/// Sums words and characters over all results, field-wise; no results give zero.
pub fn calculate_total(results: &[(String, Count)]) -> (r: Count)
    requires
        totals_fit(results@),
    ensures
        r.words == total_words(results@),
        r.characters == total_characters(results@),
        results@.len() == 0 ==> r.words == 0 && r.characters == 0,
{
    let n = results.len();
    let mut words: usize = 0;
    let mut characters: usize = 0;
    let mut i: usize = 0;
    while i < n
        invariant
            i <= n,
            n == results@.len(),
            totals_fit(results@),
            words == total_words(results@.take(i as int)),
            characters == total_characters(results@.take(i as int)),
        decreases n - i,
    {
        let ghost next = results@.take(i + 1);
        assert(next.drop_last() =~= results@.take(i as int));
        proof {
            lemma_total_prefix(results@, i + 1);
        }
        words = words + results[i].1.words;
        characters = characters + results[i].1.characters;
        i = i + 1;
    }
    assert(results@.take(n as int) =~= results@);
    Count { words, characters }
}

/// The report for `results` in `format`, under `display` and `mode`.
pub open spec fn rendered(
    format: OutputFormat,
    results: Seq<(String, Count)>,
    display: DisplayMode,
    mode: CountMode,
) -> Seq<char> {
    match format {
        OutputFormat::Human => human_text(results, display, mode),
        OutputFormat::Json => json_text(results, display, mode),
        OutputFormat::Csv => csv_text(results, display, mode),
    }
}

/// A report format together with what is counted.
pub struct OutputFormatter {
    /// Encoding of the report.
    pub format: OutputFormat,
    /// What is counted and shown.
    pub mode: CountMode,
}

impl OutputFormatter {
    /// A formatter for `format` that shows what `mode` selects.
    pub fn new(format: OutputFormat, mode: CountMode) -> (r: Self)
        ensures
            r.format == format,
            r.mode == mode,
    {
        OutputFormatter { format, mode }
    }

    /// Renders the results in this formatter's format.
    pub fn format_output(&self, results: &[(String, Count)], display: DisplayMode) -> (r: String)
        requires
            needs_total(self.format, results@.len(), display) ==> totals_fit(results@),
            self.format == OutputFormat::Human && shows_breakdown(display, results@.len())
                ==> name_width(results@) + 26 <= usize::MAX,
        ensures
            r@ == rendered(self.format, results@, display, self.mode),
    {
        match self.format {
            OutputFormat::Human => human::format(results, display, self.mode),
            OutputFormat::Json => json::format(results, display, self.mode),
            OutputFormat::Csv => csv::format(results, display, self.mode),
        }
    }
}

/// Rendering depends on nothing but its inputs: the same results, formatter and
/// display mode give the same report, character for character.
pub proof fn lemma_rendering_is_deterministic(
    formatter: OutputFormatter,
    results: Seq<(String, Count)>,
    display: DisplayMode,
    first: Seq<char>,
    second: Seq<char>,
)
    requires
        first == rendered(formatter.format, results, display, formatter.mode),
        second == rendered(formatter.format, results, display, formatter.mode),
    ensures
        first == second,
{
}

} // verus!
