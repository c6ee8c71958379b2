//! JSON rendering: one flat object for a single file or for the total, else an
//! array with one object per file.
use crate::cli::{CountMode, DisplayMode};
use crate::counter::Count;
use crate::output::{calculate_total, total_characters, total_words};
use crate::text::{decimal, push_char, push_decimal};
use vstd::prelude::*;

verus! {

/// The members that `mode` selects, each led by a comma: `,"words":N` and
/// `,"characters":M`.
pub open spec fn json_members(words: nat, characters: nat, mode: CountMode) -> Seq<char> {
    match mode {
        CountMode::Both => ",\"words\":"@ + decimal(words) + ",\"characters\":"@ + decimal(
            characters,
        ),
        CountMode::Words => ",\"words\":"@ + decimal(words),
        CountMode::Characters => ",\"characters\":"@ + decimal(characters),
    }
}

/// A flat object with the counts that `mode` selects, words before characters.
pub open spec fn json_object(words: nat, characters: nat, mode: CountMode) -> Seq<char> {
    seq!['{'] + json_members(words, characters, mode).drop_first() + seq!['}']
}

/// One indented array entry: the file name first, then the counts, then `comma`.
pub open spec fn json_entry(
    name: Seq<char>,
    words: nat,
    characters: nat,
    mode: CountMode,
    comma: Seq<char>,
) -> Seq<char> {
    "  {\"file\":\""@ + name + seq!['"'] + json_members(words, characters, mode) + seq!['}']
        + comma
}

/// The first `k` entries of the array, each on its own line; all but the last
/// entry of `results` carry a comma.
pub open spec fn json_entries(results: Seq<(String, Count)>, mode: CountMode, k: nat) -> Seq<char>
    decreases k,
{
    if k == 0 {
        Seq::empty()
    } else {
        let i = k - 1;
        json_entries(results, mode, i as nat) + json_entry(
            results[i].0@,
            results[i].1.words as nat,
            results[i].1.characters as nat,
            mode,
            if k < results.len() {
                ","@
            } else {
                ""@
            },
        ) + seq!['\n']
    }
}

/// The array of all results.
pub open spec fn json_array(results: Seq<(String, Count)>, mode: CountMode) -> Seq<char> {
    seq!['[', '\n'] + json_entries(results, mode, results.len()) + seq![']']
}

/// The whole JSON document: a flat object with the total when there is exactly
/// one file or only the total is asked for, else the array.
pub open spec fn json_text(results: Seq<(String, Count)>, display: DisplayMode, mode: CountMode) -> Seq<
    char,
> {
    if results.len() == 1 || display == DisplayMode::Total {
        json_object(total_words(results), total_characters(results), mode)
    } else {
        json_array(results, mode)
    }
}

/// Renders the results as JSON.
pub fn format(results: &[(String, Count)], display: DisplayMode, mode: CountMode) -> (r: String)
    requires
        results@.len() == 1 || display == DisplayMode::Total ==> crate::output::totals_fit(
            results@,
        ),
    ensures
        r@ == json_text(results@, display, mode),
{
    if results.len() == 1 || display == DisplayMode::Total {
        let total = calculate_total(results);
        format_single(&total, mode)
    } else {
        format_array(results, mode)
    }
}

fn push_members(output: &mut String, count: &Count, mode: CountMode)
    ensures
        final(output)@ == old(output)@ + json_members(
            count.words as nat,
            count.characters as nat,
            mode,
        ),
{
    match mode {
        CountMode::Both => {
            output.append(",\"words\":");
            push_decimal(output, count.words);
            output.append(",\"characters\":");
            push_decimal(output, count.characters);
        },
        CountMode::Words => {
            output.append(",\"words\":");
            push_decimal(output, count.words);
        },
        CountMode::Characters => {
            output.append(",\"characters\":");
            push_decimal(output, count.characters);
        },
    }
    assert(output@ =~= old(output)@ + json_members(
        count.words as nat,
        count.characters as nat,
        mode,
    ));
}

/// A flat object with the counts that `mode` selects.
pub fn format_single(count: &Count, mode: CountMode) -> (r: String)
    ensures
        r@ == json_object(count.words as nat, count.characters as nat, mode),
{
    let mut output = String::new();
    match mode {
        CountMode::Both => {
            output.append("{\"words\":");
            push_decimal(&mut output, count.words);
            output.append(",\"characters\":");
            push_decimal(&mut output, count.characters);
        },
        CountMode::Words => {
            output.append("{\"words\":");
            push_decimal(&mut output, count.words);
        },
        CountMode::Characters => {
            output.append("{\"characters\":");
            push_decimal(&mut output, count.characters);
        },
    }
    push_char(&mut output, '}');
    proof {
        reveal_strlit("{\"words\":");
        reveal_strlit(",\"words\":");
        reveal_strlit(",\"characters\":");
        reveal_strlit("{\"characters\":");
    }
    assert(output@ =~= json_object(count.words as nat, count.characters as nat, mode));
    output
}

/// The array of all results, one entry per line, in order.
pub fn format_array(results: &[(String, Count)], mode: CountMode) -> (r: String)
    ensures
        r@ == json_array(results@, mode),
{
    let mut output = String::new();
    push_char(&mut output, '[');
    push_char(&mut output, '\n');
    let n = results.len();
    let mut i: usize = 0;
    while i < n
        invariant
            i <= n,
            n == results@.len(),
            output@ == seq!['[', '\n'] + json_entries(results@, mode, i as nat),
        decreases n - i,
    {
        let comma = if i < n - 1 {
            ","
        } else {
            ""
        };
        let entry = format_entry(results[i].0.as_str(), &results[i].1, mode, comma);
        output.append(entry.as_str());
        push_char(&mut output, '\n');
        i = i + 1;
        assert(output@ =~= seq!['[', '\n'] + json_entries(results@, mode, i as nat));
    }
    push_char(&mut output, ']');
    output
}

/// One indented array entry, followed by `comma`.
pub fn format_entry(name: &str, count: &Count, mode: CountMode, comma: &str) -> (r: String)
    ensures
        r@ == json_entry(name@, count.words as nat, count.characters as nat, mode, comma@),
{
    let mut output = String::new();
    output.append("  {\"file\":\"");
    output.append(name);
    push_char(&mut output, '"');
    push_members(&mut output, count, mode);
    push_char(&mut output, '}');
    output.append(comma);
    assert(output@ =~= json_entry(
        name@,
        count.words as nat,
        count.characters as nat,
        mode,
        comma@,
    ));
    output
}

} // verus!
