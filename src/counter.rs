//! Counting words and characters over the element stream of a compiled document.
use vstd::prelude::*;

verus! {

/// Words and characters of a document, or of several together.
#[derive(Clone, Copy, Debug, PartialEq, Eq, Structural)]
pub struct Count {
    /// Maximal runs of non-whitespace characters.
    pub words: usize,
    /// Unicode scalar values.
    pub characters: usize,
}

/// The kind of an element, as far as counting cares.
///
/// All kinds but `Other` are styling or markup wrappers: their text is already
/// part of an enclosing element, so counting it again would count it twice.
#[derive(Clone, Copy, Debug, PartialEq, Eq, Structural)]
pub enum ElementKind {
    /// Strong emphasis (bold).
    Strong,
    /// Emphasis (italic).
    Emph,
    /// Underlined text.
    Underline,
    /// Struck-through text.
    Strike,
    /// Overlined text.
    Overline,
    /// Subscript.
    Sub,
    /// Superscript.
    Super,
    /// Highlighted text.
    Highlight,
    /// A math equation.
    Equation,
    /// Raw text or a code block.
    Raw,
    /// Any element that holds content of its own.
    Other,
}

/// One element of a compiled document, as plain values.
pub struct Element {
    /// The element's rendered plain text (possibly empty).
    pub text: String,
    /// The file the element comes from, where known.
    pub file: Option<u16>,
    /// What kind of element it is.
    pub kind: ElementKind,
}

/// The element stream of one compiled document.
pub struct Document {
    /// The document's elements, in stream order.
    pub elements: Vec<Element>,
    /// The file that was compiled as the document's root.
    pub main_file: u16,
}

/// The element kind that an element function's name stands for.
pub open spec fn kind_of_name(name: Seq<char>) -> ElementKind {
    if name == "strong"@ {
        ElementKind::Strong
    } else if name == "emph"@ {
        ElementKind::Emph
    } else if name == "underline"@ {
        ElementKind::Underline
    } else if name == "strike"@ {
        ElementKind::Strike
    } else if name == "overline"@ {
        ElementKind::Overline
    } else if name == "sub"@ {
        ElementKind::Sub
    } else if name == "super"@ {
        ElementKind::Super
    } else if name == "highlight"@ {
        ElementKind::Highlight
    } else if name == "equation"@ {
        ElementKind::Equation
    } else if name == "raw"@ {
        ElementKind::Raw
    } else {
        ElementKind::Other
    }
}

impl ElementKind {
    /// Whether the kind wraps text that an enclosing element already holds.
    pub open spec fn is_styling(self) -> bool {
        !(self is Other)
    }

    /// The kind of an element whose function is named `name` (`"strong"`,
    /// `"emph"`, ...); every name outside the wrapper kinds is `Other`.
    pub fn from_name(name: &str) -> (k: ElementKind)
        ensures
            k == kind_of_name(name@),
    {
        if same_text(name, "strong") {
            ElementKind::Strong
        } else if same_text(name, "emph") {
            ElementKind::Emph
        } else if same_text(name, "underline") {
            ElementKind::Underline
        } else if same_text(name, "strike") {
            ElementKind::Strike
        } else if same_text(name, "overline") {
            ElementKind::Overline
        } else if same_text(name, "sub") {
            ElementKind::Sub
        } else if same_text(name, "super") {
            ElementKind::Super
        } else if same_text(name, "highlight") {
            ElementKind::Highlight
        } else if same_text(name, "equation") {
            ElementKind::Equation
        } else if same_text(name, "raw") {
            ElementKind::Raw
        } else {
            ElementKind::Other
        }
    }
}

/// Whether `a` and `b` hold the same characters.
fn same_text(a: &str, b: &str) -> (r: bool)
    ensures
        r == (a@ == b@),
{
    let n = a.unicode_len();
    if n != b.unicode_len() {
        return false;
    }
    let mut i: usize = 0;
    while i < n
        invariant
            i <= n,
            n == a@.len(),
            n == b@.len(),
            forall|j: int| 0 <= j < i ==> a@[j] == b@[j],
        decreases n - i,
    {
        if a.get_char(i) != b.get_char(i) {
            return false;
        }
        i = i + 1;
    }
    assert(a@ =~= b@);
    true
}

/// Unicode's White_Space property: the characters for which `char::is_whitespace`
/// holds, and which separate words.
pub open spec fn is_white_space(c: char) -> bool {
    let v = c as u32;
    (0x9 <= v <= 0xd) || v == 0x20 || v == 0x85 || v == 0xa0 || v == 0x1680 || (0x2000 <= v
        <= 0x200a) || v == 0x2028 || v == 0x2029 || v == 0x202f || v == 0x205f || v == 0x3000
}

/// Whether a word (a maximal run of non-whitespace) begins at position `i` of `s`.
pub open spec fn starts_word(s: Seq<char>, i: int) -> bool {
    !is_white_space(s[i]) && (i == 0 || is_white_space(s[i - 1]))
}

/// The number of maximal runs of non-whitespace characters in `s`.
pub open spec fn word_count(s: Seq<char>) -> nat
    decreases s.len(),
{
    if s.len() == 0 {
        0
    } else {
        word_count(s.drop_last()) + if starts_word(s, s.len() - 1) {
            1nat
        } else {
            0nat
        }
    }
}

fn is_whitespace_char(c: char) -> (r: bool)
    ensures
        r == is_white_space(c),
{
    let v = c as u32;
    (0x9 <= v && v <= 0xd) || v == 0x20 || v == 0x85 || v == 0xa0 || v == 0x1680 || (0x2000 <= v
        && v <= 0x200a) || v == 0x2028 || v == 0x2029 || v == 0x202f || v == 0x205f || v == 0x3000
}

/// A text has no more words than characters.
pub proof fn lemma_words_at_most_characters(s: Seq<char>)
    ensures
        word_count(s) <= s.len(),
    decreases s.len(),
{
    if s.len() > 0 {
        lemma_words_at_most_characters(s.drop_last());
    }
}

/// The number of words in `text`: its maximal runs of non-whitespace.
pub fn count_words(text: &str) -> (r: usize)
    ensures
        r == word_count(text@),
{
    // the length bounds the count, which therefore fits
    let n = text.unicode_len();
    let mut words: usize = 0;
    let mut after_white = true;
    for c in it: text.chars()
        invariant
            it.seq() == text@,
            it.index() <= text@.len(),
            n == text@.len(),
            words == word_count(text@.take(it.index() as int)),
            words <= it.index(),
            after_white == (it.index() == 0 || is_white_space(text@[it.index() - 1])),
    {
        let ghost i = it.index();
        let white = is_whitespace_char(c);
        let ghost s = text@.take(i + 1);
        assert(s.drop_last() =~= text@.take(i as int));
        if !white && after_white {
            words = words + 1;
        }
        after_white = white;
    }
    assert(text@.take(text@.len() as int) =~= text@);
    words
}

/// Whether the classifier leaves `e` out of the count: it comes from another
/// file than `main_file_id` while imports are excluded, or it is a styling wrapper.
pub open spec fn is_skipped(e: Element, exclude_imports: bool, main_file_id: u16) -> bool {
    (exclude_imports && e.file is Some && e.file->0 != main_file_id) || e.kind.is_styling()
}

/// Words that `e` adds to the count of its document.
pub open spec fn element_words(e: Element, exclude_imports: bool, main_file_id: u16) -> nat {
    if is_skipped(e, exclude_imports, main_file_id) {
        0
    } else {
        word_count(e.text@)
    }
}

/// Characters that `e` adds to the count of its document.
pub open spec fn element_characters(e: Element, exclude_imports: bool, main_file_id: u16) -> nat {
    if is_skipped(e, exclude_imports, main_file_id) {
        0
    } else {
        e.text@.len()
    }
}

/// Words of a whole element stream.
pub open spec fn document_words(elements: Seq<Element>, exclude_imports: bool, main_file_id: u16) -> nat
    decreases elements.len(),
{
    if elements.len() == 0 {
        0
    } else {
        document_words(elements.drop_last(), exclude_imports, main_file_id) + element_words(
            elements.last(),
            exclude_imports,
            main_file_id,
        )
    }
}

/// Characters of a whole element stream.
pub open spec fn document_characters(
    elements: Seq<Element>,
    exclude_imports: bool,
    main_file_id: u16,
) -> nat
    decreases elements.len(),
{
    if elements.len() == 0 {
        0
    } else {
        document_characters(elements.drop_last(), exclude_imports, main_file_id)
            + element_characters(elements.last(), exclude_imports, main_file_id)
    }
}

/// Whether `element` is a styling or markup wrapper, whose text an enclosing
/// element already holds.
pub fn is_styling_element(element: &Element) -> (r: bool)
    ensures
        r == element.kind.is_styling(),
{
    match element.kind {
        ElementKind::Other => false,
        _ => true,
    }
}

/// The classifier: whether `element` contributes nothing to the count.
pub fn is_skipped_element(element: &Element, exclude_imports: bool, main_file_id: u16) -> (r: bool)
    ensures
        r == is_skipped(*element, exclude_imports, main_file_id),
{
    if exclude_imports {
        if let Some(file) = element.file {
            if file != main_file_id {
                return true;
            }
        }
    }
    is_styling_element(element)
}

/// Counts of a stream grow with the stream: a prefix counts no more.
pub proof fn lemma_document_prefix(
    elements: Seq<Element>,
    exclude_imports: bool,
    main_file_id: u16,
    i: int,
)
    requires
        0 <= i <= elements.len(),
    ensures
        document_characters(elements.take(i), exclude_imports, main_file_id)
            <= document_characters(elements, exclude_imports, main_file_id),
        document_words(elements, exclude_imports, main_file_id) <= document_characters(
            elements,
            exclude_imports,
            main_file_id,
        ),
    decreases elements.len(),
{
    if elements.len() > 0 {
        lemma_words_at_most_characters(elements.last().text@);
        if i == elements.len() {
            assert(elements.take(i) =~= elements);
            lemma_document_prefix(elements.drop_last(), exclude_imports, main_file_id, i - 1);
        } else {
            assert(elements.drop_last().take(i) =~= elements.take(i));
            lemma_document_prefix(elements.drop_last(), exclude_imports, main_file_id, i);
        }
    } else {
        assert(elements.take(i) =~= elements);
    }
}

/// Counts words and characters over a document's element stream, in stream
/// order, leaving out what the classifier skips.
pub fn count_document(elements: &[Element], exclude_imports: bool, main_file_id: u16) -> (r: Count)
    requires
        document_characters(elements@, exclude_imports, main_file_id) <= usize::MAX,
    ensures
        r.words == document_words(elements@, exclude_imports, main_file_id),
        r.characters == document_characters(elements@, exclude_imports, main_file_id),
{
    let mut words: usize = 0;
    let mut characters: usize = 0;
    let n = elements.len();
    let mut i: usize = 0;
    while i < n
        invariant
            i <= n,
            n == elements@.len(),
            document_characters(elements@, exclude_imports, main_file_id) <= usize::MAX,
            words == document_words(elements@.take(i as int), exclude_imports, main_file_id),
            characters == document_characters(
                elements@.take(i as int),
                exclude_imports,
                main_file_id,
            ),
        decreases n - i,
    {
        let element = &elements[i];
        let ghost next = elements@.take(i + 1);
        assert(next.drop_last() =~= elements@.take(i as int));
        proof {
            lemma_document_prefix(elements@, exclude_imports, main_file_id, i + 1);
            lemma_document_prefix(next, exclude_imports, main_file_id, i + 1);
        }
        if !is_skipped_element(element, exclude_imports, main_file_id) {
            let text = element.text.as_str();
            characters = characters + text.unicode_len();
            words = words + count_words(text);
        }
        i = i + 1;
    }
    assert(elements@.take(n as int) =~= elements@);
    Count { words, characters }
}

/// Counts of a concatenation are the sums of the counts of its parts.
pub proof fn lemma_document_concat(
    a: Seq<Element>,
    b: Seq<Element>,
    exclude_imports: bool,
    main_file_id: u16,
)
    ensures
        document_words(a + b, exclude_imports, main_file_id) == document_words(
            a,
            exclude_imports,
            main_file_id,
        ) + document_words(b, exclude_imports, main_file_id),
        document_characters(a + b, exclude_imports, main_file_id) == document_characters(
            a,
            exclude_imports,
            main_file_id,
        ) + document_characters(b, exclude_imports, main_file_id),
    decreases b.len(),
{
    if b.len() == 0 {
        assert(a + b =~= a);
    } else {
        assert((a + b).drop_last() =~= a + b.drop_last());
        lemma_document_concat(a, b.drop_last(), exclude_imports, main_file_id);
    }
}

/// Sum of the lengths, in Unicode scalar values, of the texts of `elements`.
pub open spec fn total_text_length(elements: Seq<Element>) -> nat
    decreases elements.len(),
{
    if elements.len() == 0 {
        0
    } else {
        total_text_length(elements.drop_last()) + elements.last().text@.len()
    }
}

/// With imports counted, the characters of a document are the Unicode scalar
/// values of the plain text of all its elements that are not styling wrappers.
pub proof fn lemma_characters_of_unstyled_elements(elements: Seq<Element>, main_file_id: u16)
    ensures
        document_characters(elements, false, main_file_id) == total_text_length(
            elements.filter(|e: Element| !e.kind.is_styling()),
        ),
    decreases elements.len(),
{
    let keep = |e: Element| !e.kind.is_styling();
    if elements.len() == 0 {
        reveal(Seq::filter);
    } else {
        let rest = elements.drop_last();
        lemma_characters_of_unstyled_elements(rest, main_file_id);
        assert(rest.push(elements.last()) =~= elements);
        rest.lemma_filter_push(elements.last(), keep);
        if keep(elements.last()) {
            assert(rest.filter(keep).push(elements.last()).drop_last() =~= rest.filter(keep));
        }
    }
}

/// With imports excluded, an element from a file other than the main one adds
/// no words and no characters, whatever its kind and wherever it stands.
pub proof fn lemma_imported_element_adds_nothing(
    before: Seq<Element>,
    element: Element,
    after: Seq<Element>,
    main_file_id: u16,
)
    requires
        element.file is Some,
        element.file->0 != main_file_id,
    ensures
        document_words(before + seq![element] + after, true, main_file_id) == document_words(
            before + after,
            true,
            main_file_id,
        ),
        document_characters(before + seq![element] + after, true, main_file_id)
            == document_characters(before + after, true, main_file_id),
{
    lemma_document_concat(before + seq![element], after, true, main_file_id);
    lemma_document_concat(before, seq![element], true, main_file_id);
    lemma_document_concat(before, after, true, main_file_id);
    let single = seq![element];
    assert(single.drop_last() =~= Seq::<Element>::empty());
    assert(single.last() == element);
    assert(element_words(element, true, main_file_id) == 0);
    assert(element_characters(element, true, main_file_id) == 0);
    assert(document_words(single.drop_last(), true, main_file_id) == 0);
    assert(document_characters(single.drop_last(), true, main_file_id) == 0);
    assert(document_words(single, true, main_file_id) == 0);
    assert(document_characters(single, true, main_file_id) == 0);
}

} // verus!
