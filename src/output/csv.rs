//! CSV rendering: a header row, then one row per file or a single total row.
use crate::cli::{CountMode, DisplayMode};
use crate::counter::Count;
use crate::output::{calculate_total, total_characters, total_words};
use crate::text::{decimal, push_char, push_decimal};
use vstd::prelude::*;

verus! {

/// The header row for `mode`, without its line end.
pub open spec fn csv_header(mode: CountMode) -> Seq<char> {
    match mode {
        CountMode::Both => "file,words,characters"@,
        CountMode::Words => "file,words"@,
        CountMode::Characters => "file,characters"@,
    }
}

/// One data row with its line end: the name, then the values that `mode` selects.
pub open spec fn csv_row(name: Seq<char>, words: nat, characters: nat, mode: CountMode) -> Seq<
    char,
> {
    match mode {
        CountMode::Both => name + seq![','] + decimal(words) + seq![','] + decimal(characters)
            + seq!['\n'],
        CountMode::Words => name + seq![','] + decimal(words) + seq!['\n'],
        CountMode::Characters => name + seq![','] + decimal(characters) + seq!['\n'],
    }
}

/// One row per result, in order.
pub open spec fn csv_rows(results: Seq<(String, Count)>, mode: CountMode) -> Seq<char>
    decreases results.len(),
{
    if results.len() == 0 {
        Seq::empty()
    } else {
        csv_rows(results.drop_last(), mode) + csv_row(
            results.last().0@,
            results.last().1.words as nat,
            results.last().1.characters as nat,
            mode,
        )
    }
}

/// The whole CSV document: the header, then a single `total` row when only
/// the total is asked for and there are several files, else one row per file.
pub open spec fn csv_text(results: Seq<(String, Count)>, display: DisplayMode, mode: CountMode) -> Seq<
    char,
> {
    csv_header(mode) + seq!['\n'] + if display == DisplayMode::Total && results.len() > 1 {
        csv_row("total"@, total_words(results), total_characters(results), mode)
    } else {
        csv_rows(results, mode)
    }
}

/// Renders the results as CSV.
pub fn format(results: &[(String, Count)], display: DisplayMode, mode: CountMode) -> (r: String)
    requires
        display == DisplayMode::Total && results@.len() > 1 ==> crate::output::totals_fit(
            results@,
        ),
    ensures
        r@ == csv_text(results@, display, mode),
{
    let mut output = String::new();
    output.append(format_header(mode));
    push_char(&mut output, '\n');
    let ghost head = output@;
    if display == DisplayMode::Total && results.len() > 1 {
        let total = calculate_total(results);
        write_row(&mut output, "total", &total, mode);
    } else {
        let n = results.len();
        let mut i: usize = 0;
        while i < n
            invariant
                i <= n,
                n == results@.len(),
                output@ == head + csv_rows(results@.take(i as int), mode),
            decreases n - i,
        {
            let ghost next = results@.take(i + 1);
            assert(next.drop_last() =~= results@.take(i as int));
            write_row(&mut output, results[i].0.as_str(), &results[i].1, mode);
            i = i + 1;
            assert(output@ =~= head + csv_rows(results@.take(i as int), mode));
        }
        assert(results@.take(n as int) =~= results@);
    }
    assert(output@ =~= csv_text(results@, display, mode));
    output
}

/// The header row for `mode`.
pub fn format_header(mode: CountMode) -> (r: &'static str)
    ensures
        r@ == csv_header(mode),
{
    match mode {
        CountMode::Both => "file,words,characters",
        CountMode::Words => "file,words",
        CountMode::Characters => "file,characters",
    }
}

/// Appends one data row, with its line end.
pub fn write_row(output: &mut String, name: &str, count: &Count, mode: CountMode)
    ensures
        final(output)@ == old(output)@ + csv_row(
            name@,
            count.words as nat,
            count.characters as nat,
            mode,
        ),
{
    output.append(name);
    match mode {
        CountMode::Both => {
            push_char(output, ',');
            push_decimal(output, count.words);
            push_char(output, ',');
            push_decimal(output, count.characters);
        },
        CountMode::Words => {
            push_char(output, ',');
            push_decimal(output, count.words);
        },
        CountMode::Characters => {
            push_char(output, ',');
            push_decimal(output, count.characters);
        },
    }
    push_char(output, '\n');
    assert(output@ =~= old(output)@ + csv_row(
        name@,
        count.words as nat,
        count.characters as nat,
        mode,
    ));
}

} // verus!
