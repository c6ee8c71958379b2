//! Word and character counts of compiled documents: counting over a stream of
//! elements, totals across files, rendering as text, JSON or CSV, and limits.
pub mod cli;
pub mod counter;
pub mod output;
pub mod text;

use crate::cli::Cli;
use crate::counter::{count_document, document_characters, document_words, Count, Document};
use crate::text::{decimal, push_char, push_decimal};
use vstd::prelude::*;

verus! {

/// Counts each compiled document, pairing it with the path it was compiled
/// from; documents and paths correspond one to one, in input order.
pub fn process_files(args: &Cli, documents: &[Document]) -> (r: Vec<(String, Count)>)
    requires
        documents@.len() == args.input@.len(),
        forall|i: int|
            0 <= i < documents@.len() ==> document_characters(
                #[trigger] documents@[i].elements@,
                args.exclude_imports,
                documents@[i].main_file,
            ) <= usize::MAX,
    ensures
        r@.len() == args.input@.len(),
        forall|i: int|
            0 <= i < r@.len() ==> {
                &&& (#[trigger] r@[i]).0@ == args.input@[i]@
                &&& r@[i].1.words == document_words(
                    documents@[i].elements@,
                    args.exclude_imports,
                    documents@[i].main_file,
                )
                &&& r@[i].1.characters == document_characters(
                    documents@[i].elements@,
                    args.exclude_imports,
                    documents@[i].main_file,
                )
            },
{
    let n = documents.len();
    let mut results: Vec<(String, Count)> = Vec::new();
    let mut i: usize = 0;
    while i < n
        invariant
            i <= n,
            n == documents@.len(),
            n == args.input@.len(),
            forall|j: int|
                0 <= j < documents@.len() ==> document_characters(
                    #[trigger] documents@[j].elements@,
                    args.exclude_imports,
                    documents@[j].main_file,
                ) <= usize::MAX,
            results@.len() == i,
            forall|j: int|
                0 <= j < i ==> {
                    &&& (#[trigger] results@[j]).0@ == args.input@[j]@
                    &&& results@[j].1.words == document_words(
                        documents@[j].elements@,
                        args.exclude_imports,
                        documents@[j].main_file,
                    )
                    &&& results@[j].1.characters == document_characters(
                        documents@[j].elements@,
                        args.exclude_imports,
                        documents@[j].main_file,
                    )
                },
        decreases n - i,
    {
        let document = &documents[i];
        let count = count_document(
            document.elements.as_slice(),
            args.exclude_imports,
            document.main_file,
        );
        let name = args.input[i].clone();
        results.push((name, count));
        i = i + 1;
    }
    results
}

/// A limit message: `subject` and `verdict`, then the count and the limit in
/// parentheses around `relation`, as in `Word count exceeds maximum (120 > 100)`.
pub open spec fn limit_message(
    subject: Seq<char>,
    verdict: Seq<char>,
    value: nat,
    relation: char,
    bound: nat,
) -> Seq<char> {
    subject + verdict + seq![' ', '('] + decimal(value) + seq![' ', relation, ' '] + decimal(bound)
        + seq![')']
}

/// The message for `value` above the maximum `limit`, if it is set and exceeded.
pub open spec fn above_maximum(subject: Seq<char>, value: nat, limit: Option<usize>) -> Seq<
    Seq<char>,
> {
    if limit is Some && value > limit->0 {
        seq![limit_message(subject, " count exceeds maximum"@, value, '>', limit->0 as nat)]
    } else {
        Seq::empty()
    }
}

/// The message for `value` below the minimum `limit`, if it is set and not met.
pub open spec fn below_minimum(subject: Seq<char>, value: nat, limit: Option<usize>) -> Seq<
    Seq<char>,
> {
    if limit is Some && value < limit->0 {
        seq![limit_message(subject, " count below minimum"@, value, '<', limit->0 as nat)]
    } else {
        Seq::empty()
    }
}

/// Every violated limit's message, in the order maximum words, minimum words,
/// maximum characters, minimum characters.
pub open spec fn limit_violations(args: Cli, total: Count) -> Seq<Seq<char>> {
    above_maximum("Word"@, total.words as nat, args.max_words) + below_minimum(
        "Word"@,
        total.words as nat,
        args.min_words,
    ) + above_maximum("Character"@, total.characters as nat, args.max_characters)
        + below_minimum("Character"@, total.characters as nat, args.min_characters)
}

fn limit_text(subject: &str, verdict: &str, value: usize, relation: char, bound: usize) -> (r:
    String)
    ensures
        r@ == limit_message(subject@, verdict@, value as nat, relation, bound as nat),
{
    let mut message = String::new();
    message.append(subject);
    message.append(verdict);
    push_char(&mut message, ' ');
    push_char(&mut message, '(');
    push_decimal(&mut message, value);
    push_char(&mut message, ' ');
    push_char(&mut message, relation);
    push_char(&mut message, ' ');
    push_decimal(&mut message, bound);
    push_char(&mut message, ')');
    assert(message@ =~= limit_message(subject@, verdict@, value as nat, relation, bound as nat));
    message
}

/// Checks the total against every limit that is set. All limits are checked;
/// a count equal to a limit passes. `Ok` exactly when no limit is violated,
/// else every violation's message, in order.
pub fn check_limits(args: &Cli, total: &Count) -> (r: Result<(), Vec<String>>)
    ensures
        r is Ok <==> limit_violations(*args, *total).len() == 0,
        r matches Err(errors) ==> errors@.map_values(|s: String| s@) == limit_violations(
            *args,
            *total,
        ),
{
    let mut errors: Vec<String> = Vec::new();
    if let Some(max) = args.max_words {
        if total.words > max {
            errors.push(limit_text("Word", " count exceeds maximum", total.words, '>', max));
        }
    }
    let ghost after_max_words = errors@.map_values(|s: String| s@);
    assert(after_max_words =~= above_maximum("Word"@, total.words as nat, args.max_words));
    if let Some(min) = args.min_words {
        if total.words < min {
            errors.push(limit_text("Word", " count below minimum", total.words, '<', min));
        }
    }
    let ghost after_min_words = errors@.map_values(|s: String| s@);
    assert(after_min_words =~= after_max_words + below_minimum(
        "Word"@,
        total.words as nat,
        args.min_words,
    ));
    if let Some(max) = args.max_characters {
        if total.characters > max {
            errors.push(
                limit_text("Character", " count exceeds maximum", total.characters, '>', max),
            );
        }
    }
    let ghost after_max_characters = errors@.map_values(|s: String| s@);
    assert(after_max_characters =~= after_min_words + above_maximum(
        "Character"@,
        total.characters as nat,
        args.max_characters,
    ));
    if let Some(min) = args.min_characters {
        if total.characters < min {
            errors.push(
                limit_text("Character", " count below minimum", total.characters, '<', min),
            );
        }
    }
    assert(errors@.map_values(|s: String| s@) =~= after_max_characters + below_minimum(
        "Character"@,
        total.characters as nat,
        args.min_characters,
    ));
    if errors.len() == 0 {
        Ok(())
    } else {
        Err(errors)
    }
}

/// Counts equal to the word limits pass: with the minimum and the maximum both
/// at the word count, and no character limit, nothing is violated.
pub proof fn lemma_word_limits_at_count_pass(args: Cli, total: Count)
    requires
        args.max_words == Some(total.words),
        args.min_words == Some(total.words),
        args.max_characters is None,
        args.min_characters is None,
    ensures
        limit_violations(args, total).len() == 0,
{
}

/// A minimum one above the word count, alone, gives exactly one violation: the
/// word count below the minimum.
pub proof fn lemma_minimum_one_above_count_fails(args: Cli, total: Count)
    requires
        args.min_words == Some((total.words + 1) as usize),
        total.words < usize::MAX,
        args.max_words is None,
        args.max_characters is None,
        args.min_characters is None,
    ensures
        limit_violations(args, total) == seq![
            limit_message(
                "Word"@,
                " count below minimum"@,
                total.words as nat,
                '<',
                total.words as nat + 1,
            ),
        ],
{
    assert(limit_violations(args, total) =~= seq![
        limit_message("Word"@, " count below minimum"@, total.words as nat, '<', total.words as nat + 1),
    ]);
}

} // verus!
