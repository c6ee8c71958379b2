//! Human-readable rendering: labelled totals, bare numbers, or an aligned table
//! with one row per file and a total row.
use crate::cli::{CountMode, DisplayMode};
use crate::counter::Count;
use crate::output::{calculate_total, shows_breakdown, total_characters, total_words};
use crate::text::{
    decimal, decimal_string, pad_left, pad_right, push_char, push_decimal, push_padded_left,
    push_padded_right, push_repeated, repeated,
};
use vstd::prelude::*;
use vstd::utf8::encode_utf8;

verus! {

/// Width of each numeric column.
pub const NUMBER_WIDTH: usize = 12;

/// The line-drawing character of the separators.
pub const RULE: char = '\u{2500}';

/// The counts that `mode` selects as bare numbers, separated by a space.
pub open spec fn bare_numbers(words: nat, characters: nat, mode: CountMode) -> Seq<char> {
    match mode {
        CountMode::Both => decimal(words) + seq![' '] + decimal(characters),
        CountMode::Words => decimal(words),
        CountMode::Characters => decimal(characters),
    }
}

/// The total on its own: labelled lines, or bare numbers when `quiet`.
pub open spec fn single_text(words: nat, characters: nat, quiet: bool, mode: CountMode) -> Seq<
    char,
> {
    if quiet {
        bare_numbers(words, characters, mode)
    } else {
        match mode {
            CountMode::Both => " Words:      "@ + decimal(words) + "\n Characters: "@ + decimal(
                characters,
            ),
            CountMode::Words => " Words:      "@ + decimal(words),
            CountMode::Characters => " Characters: "@ + decimal(characters),
        }
    }
}

/// The numeric columns that `mode` selects, each a space and a right-aligned cell.
pub open spec fn number_columns(mode: CountMode, words_cell: Seq<char>, characters_cell: Seq<char>) -> Seq<
    char,
> {
    match mode {
        CountMode::Both => seq![' '] + pad_left(words_cell, NUMBER_WIDTH as nat) + seq![' ']
            + pad_left(characters_cell, NUMBER_WIDTH as nat),
        CountMode::Words => seq![' '] + pad_left(words_cell, NUMBER_WIDTH as nat),
        CountMode::Characters => seq![' '] + pad_left(characters_cell, NUMBER_WIDTH as nat),
    }
}

/// The header row of the table.
pub open spec fn header_text(name_width: nat, mode: CountMode) -> Seq<char> {
    pad_right("File"@, name_width) + number_columns(mode, "Words"@, "Characters"@)
}

/// Length of the separator: the name column and the numeric columns.
pub open spec fn separator_width(name_width: nat, mode: CountMode) -> nat {
    match mode {
        CountMode::Both => name_width + 26,
        _ => name_width + 13,
    }
}

/// A separator line of the table.
pub open spec fn separator_text(name_width: nat, mode: CountMode) -> Seq<char> {
    repeated(RULE, separator_width(name_width, mode))
}

/// One row of the table: bare numbers when `quiet`, else the left-aligned name
/// and the right-aligned counts.
pub open spec fn row_text(
    name: Seq<char>,
    words: nat,
    characters: nat,
    name_width: nat,
    quiet: bool,
    mode: CountMode,
) -> Seq<char> {
    if quiet {
        bare_numbers(words, characters, mode)
    } else {
        pad_right(name, name_width) + number_columns(mode, decimal(words), decimal(characters))
    }
}

/// Length of `s` in UTF-8 bytes.
pub open spec fn byte_length(s: Seq<char>) -> nat {
    encode_utf8(s).len()
}

/// The longest name among the results, in bytes; zero without results.
pub open spec fn longest_name(results: Seq<(String, Count)>) -> nat
    decreases results.len(),
{
    if results.len() == 0 {
        0
    } else {
        let rest = longest_name(results.drop_last());
        let last = byte_length(results.last().0@);
        if last > rest {
            last
        } else {
            rest
        }
    }
}

/// Every name is at most as long as the longest one, and the longest of a
/// prefix is at most the longest of the whole.
pub proof fn lemma_longest_name(results: Seq<(String, Count)>, i: int)
    requires
        0 <= i < results.len(),
    ensures
        byte_length(results[i].0@) <= longest_name(results),
        longest_name(results.take(i)) <= longest_name(results),
    decreases results.len(),
{
    if i < results.len() - 1 {
        lemma_longest_name(results.drop_last(), i);
        assert(results.drop_last().take(i) =~= results.take(i));
    } else {
        assert(results.take(i) =~= results.drop_last());
    }
}

/// Width of the name column: the longest name, and at least four.
pub open spec fn name_width(results: Seq<(String, Count)>) -> nat {
    if longest_name(results) > 4 {
        longest_name(results)
    } else {
        4
    }
}

/// One row per result, each with its line end.
pub open spec fn table_rows(
    results: Seq<(String, Count)>,
    name_width: nat,
    quiet: bool,
    mode: CountMode,
) -> Seq<char>
    decreases results.len(),
{
    if results.len() == 0 {
        Seq::empty()
    } else {
        table_rows(results.drop_last(), name_width, quiet, mode) + row_text(
            results.last().0@,
            results.last().1.words as nat,
            results.last().1.characters as nat,
            name_width,
            quiet,
            mode,
        ) + seq!['\n']
    }
}

/// The table: when `quiet`, only the rows; else the header, a separator, the
/// rows, a separator and the total row, which ends without a line end.
pub open spec fn table_text(results: Seq<(String, Count)>, quiet: bool, mode: CountMode) -> Seq<
    char,
> {
    let w = name_width(results);
    if quiet {
        table_rows(results, w, true, mode)
    } else {
        header_text(w, mode) + seq!['\n'] + separator_text(w, mode) + seq!['\n'] + table_rows(
            results,
            w,
            false,
            mode,
        ) + separator_text(w, mode) + seq!['\n'] + row_text(
            "Total"@,
            total_words(results),
            total_characters(results),
            w,
            false,
            mode,
        )
    }
}

/// The whole human-readable report: the table when the breakdown is shown,
/// else the total on its own.
pub open spec fn human_text(results: Seq<(String, Count)>, display: DisplayMode, mode: CountMode) -> Seq<
    char,
> {
    if shows_breakdown(display, results.len()) {
        table_text(results, display == DisplayMode::Quiet, mode)
    } else {
        single_text(
            total_words(results),
            total_characters(results),
            display == DisplayMode::Quiet,
            mode,
        )
    }
}

/// Renders the results for a reader: a table when the breakdown is shown, else
/// the total on its own.
pub fn format(results: &[(String, Count)], display: DisplayMode, mode: CountMode) -> (r: String)
    requires
        crate::output::totals_fit(results@),
        shows_breakdown(display, results@.len()) ==> name_width(results@) + 26 <= usize::MAX,
    ensures
        r@ == human_text(results@, display, mode),
{
    let show_breakdown = match display {
        DisplayMode::Auto => results.len() > 1,
        DisplayMode::Detailed => true,
        DisplayMode::Total | DisplayMode::Quiet => false,
    };
    if show_breakdown {
        format_table(results, display == DisplayMode::Quiet, mode)
    } else {
        let total = calculate_total(results);
        format_single(&total, display == DisplayMode::Quiet, mode)
    }
}

fn push_bare_numbers(output: &mut String, count: &Count, mode: CountMode)
    ensures
        final(output)@ == old(output)@ + bare_numbers(
            count.words as nat,
            count.characters as nat,
            mode,
        ),
{
    match mode {
        CountMode::Both => {
            push_decimal(output, count.words);
            push_char(output, ' ');
            push_decimal(output, count.characters);
        },
        CountMode::Words => {
            push_decimal(output, count.words);
        },
        CountMode::Characters => {
            push_decimal(output, count.characters);
        },
    }
    assert(output@ =~= old(output)@ + bare_numbers(
        count.words as nat,
        count.characters as nat,
        mode,
    ));
}

/// The total on its own: labelled lines, or bare numbers when `quiet`.
pub fn format_single(count: &Count, quiet: bool, mode: CountMode) -> (r: String)
    ensures
        r@ == single_text(count.words as nat, count.characters as nat, quiet, mode),
{
    let mut output = String::new();
    if quiet {
        push_bare_numbers(&mut output, count, mode);
    } else {
        match mode {
            CountMode::Both => {
                output.append(" Words:      ");
                push_decimal(&mut output, count.words);
                output.append("\n Characters: ");
                push_decimal(&mut output, count.characters);
            },
            CountMode::Words => {
                output.append(" Words:      ");
                push_decimal(&mut output, count.words);
            },
            CountMode::Characters => {
                output.append(" Characters: ");
                push_decimal(&mut output, count.characters);
            },
        }
    }
    assert(output@ =~= single_text(count.words as nat, count.characters as nat, quiet, mode));
    output
}

fn push_number_columns(output: &mut String, mode: CountMode, words_cell: &str, characters_cell: &str)
    ensures
        final(output)@ == old(output)@ + number_columns(mode, words_cell@, characters_cell@),
{
    match mode {
        CountMode::Both => {
            push_char(output, ' ');
            push_padded_left(output, words_cell, NUMBER_WIDTH);
            push_char(output, ' ');
            push_padded_left(output, characters_cell, NUMBER_WIDTH);
        },
        CountMode::Words => {
            push_char(output, ' ');
            push_padded_left(output, words_cell, NUMBER_WIDTH);
        },
        CountMode::Characters => {
            push_char(output, ' ');
            push_padded_left(output, characters_cell, NUMBER_WIDTH);
        },
    }
    assert(output@ =~= old(output)@ + number_columns(mode, words_cell@, characters_cell@));
}

/// The table for the results: when `quiet`, only bare numbers per file; else a
/// header, separators, one row per file and the total row.
pub fn format_table(results: &[(String, Count)], quiet: bool, mode: CountMode) -> (r: String)
    requires
        !quiet ==> crate::output::totals_fit(results@),
        name_width(results@) + 26 <= usize::MAX,
    ensures
        r@ == table_text(results@, quiet, mode),
{
    let n = results.len();
    let mut max_name_len: usize = 0;
    let mut i: usize = 0;
    while i < n
        invariant
            i <= n,
            n == results@.len(),
            max_name_len == longest_name(results@.take(i as int)),
            name_width(results@) + 26 <= usize::MAX,
        decreases n - i,
    {
        let ghost next = results@.take(i + 1);
        assert(next.drop_last() =~= results@.take(i as int));
        proof {
            lemma_longest_name(results@, i as int);
        }
        let len = results[i].0.as_str().len();
        if len > max_name_len {
            max_name_len = len;
        }
        i = i + 1;
    }
    assert(results@.take(n as int) =~= results@);
    let name_width = if max_name_len > 4 {
        max_name_len
    } else {
        4
    };
    let mut output = String::new();
    if !quiet {
        let header = format_header(name_width, mode);
        output.append(header.as_str());
        push_char(&mut output, '\n');
        let separator = format_separator(name_width, mode);
        output.append(separator.as_str());
        push_char(&mut output, '\n');
    }
    let ghost head = output@;
    let mut i: usize = 0;
    while i < n
        invariant
            i <= n,
            n == results@.len(),
            output@ == head + table_rows(results@.take(i as int), name_width as nat, quiet, mode),
        decreases n - i,
    {
        let ghost next = results@.take(i + 1);
        assert(next.drop_last() =~= results@.take(i as int));
        let row = format_row(results[i].0.as_str(), &results[i].1, name_width, quiet, mode);
        output.append(row.as_str());
        push_char(&mut output, '\n');
        i = i + 1;
        assert(output@ =~= head + table_rows(results@.take(i as int), name_width as nat, quiet, mode));
    }
    if !quiet {
        let separator = format_separator(name_width, mode);
        output.append(separator.as_str());
        push_char(&mut output, '\n');
        let total = calculate_total(results);
        let row = format_row("Total", &total, name_width, false, mode);
        output.append(row.as_str());
    }
    assert(output@ =~= table_text(results@, quiet, mode));
    output
}

/// The header row of the table.
pub fn format_header(name_width: usize, mode: CountMode) -> (r: String)
    ensures
        r@ == header_text(name_width as nat, mode),
{
    let mut output = String::new();
    push_padded_right(&mut output, "File", name_width);
    push_number_columns(&mut output, mode, "Words", "Characters");
    assert(output@ =~= header_text(name_width as nat, mode));
    output
}

/// A separator line: `name_width + 26` rule characters for both counts,
/// `name_width + 13` for one.
pub fn format_separator(name_width: usize, mode: CountMode) -> (r: String)
    requires
        name_width + 26 <= usize::MAX,
    ensures
        r@ == separator_text(name_width as nat, mode),
{
    let total_width = match mode {
        CountMode::Both => name_width + 26,
        _ => name_width + 13,
    };
    let mut output = String::new();
    push_repeated(&mut output, RULE, total_width);
    assert(output@ =~= separator_text(name_width as nat, mode));
    output
}

/// One row of the table: bare numbers when `quiet`, else the name left-aligned
/// in `name_width` characters and each count right-aligned in its column.
pub fn format_row(name: &str, count: &Count, name_width: usize, quiet: bool, mode: CountMode) -> (r:
    String)
    ensures
        r@ == row_text(
            name@,
            count.words as nat,
            count.characters as nat,
            name_width as nat,
            quiet,
            mode,
        ),
{
    let mut output = String::new();
    if quiet {
        push_bare_numbers(&mut output, count, mode);
    } else {
        push_padded_right(&mut output, name, name_width);
        let words = decimal_string(count.words);
        let characters = decimal_string(count.characters);
        push_number_columns(&mut output, mode, words.as_str(), characters.as_str());
    }
    assert(output@ =~= row_text(
        name@,
        count.words as nat,
        count.characters as nat,
        name_width as nat,
        quiet,
        mode,
    ));
    output
}

} // verus!
