//! The word around a text position, as the first tap of a native selection picks it.
use crate::utf16;
use std::ops::Range;
use unicode_segmentation::UnicodeSegmentation;
use vstd::prelude::*;

verus! {

/// The words of a text in order, each with the byte at which it begins, as Unicode word
/// segmentation finds them.
pub uninterp spec fn unicode_words(text: Seq<char>) -> Seq<(usize, Seq<char>)>;

/// The words of a list with their texts as character sequences.
pub open spec fn word_list(words: Seq<(usize, String)>) -> Seq<(usize, Seq<char>)> {
    words.map_values(|word: (usize, String)| (word.0, word.1@))
}

/// Whether `word` is a non-empty piece of `text` that begins at byte `start`.
pub open spec fn word_occurs(text: Seq<char>, start: nat, word: Seq<char>) -> bool {
    exists|k: int|
        0 <= k < k + word.len() <= text.len() && #[trigger] utf16::byte_of_char(text, k) == start
            && text.subrange(k, k + word.len()) == word
}

/// Whether every word of a list is a piece of `text`, and each ends before the next begins.
pub open spec fn words_in_order(text: Seq<char>, words: Seq<(usize, Seq<char>)>) -> bool {
    &&& forall|i: int|
        0 <= i < words.len() ==> word_occurs(text, (#[trigger] words[i]).0 as nat, words[i].1)
    &&& forall|i: int, j: int|
        0 <= i < j < words.len() ==> (#[trigger] words[i]).0 + utf16::utf8_units(words[i].1) <= (
        #[trigger] words[j]).0
}

/// Whether byte `byte` lies inside a word.
pub open spec fn word_covers(word: (usize, Seq<char>), byte: nat) -> bool {
    word.0 <= byte < word.0 + utf16::utf8_units(word.1)
}

/// Whether word `index` is the first of a list to hold byte `byte`.
pub open spec fn first_cover(words: Seq<(usize, Seq<char>)>, byte: nat, index: int) -> bool {
    &&& 0 <= index < words.len()
    &&& word_covers(words[index], byte)
    &&& forall|j: int| 0 <= j < index ==> !word_covers(#[trigger] words[j], byte)
}

/// Whether `range` is where a word lies in `text`, in UTF-16 code units.
pub open spec fn is_word_range(text: Seq<char>, word: (usize, Seq<char>), range: Range<usize>) -> bool {
    &&& range.start == utf16::unit_of_byte(text, word.0 as nat)
    &&& range.end == utf16::unit_of_byte(text, word.0 as nat + utf16::utf8_units(word.1))
}

/// Whether `found` is the UTF-16 range of the first word that holds the character at UTF-16 offset
/// `offset`, and nothing where no word holds it.
pub open spec fn is_word_at(
    text: Seq<char>,
    words: Seq<(usize, Seq<char>)>,
    offset: nat,
    found: Option<Range<usize>>,
) -> bool {
    let byte = utf16::byte_of_unit(text, offset);
    match found {
        Some(range) => exists|i: int| #[trigger]
            first_cover(words, byte, i) && is_word_range(text, words[i], range),
        None => forall|i: int| 0 <= i < words.len() ==> !word_covers(#[trigger] words[i], byte),
    }
}

/// Calls `UnicodeSegmentation::unicode_word_indices` and collects what it yields.
///
/// Trusted: the words depend on the text alone, each is a non-empty piece of the text that begins
/// at the byte given with it, and they come in order without overlapping.
#[verifier::external_body]
fn segment_words(text: &str) -> (words: Vec<(usize, String)>)
    ensures
        word_list(words@) == unicode_words(text@),
        words_in_order(text@, word_list(words@)),
{
    text.unicode_word_indices().map(|(start, word)| (start, word.to_string())).collect()
}

pub proof fn lemma_word_fits(text: Seq<char>, start: nat, word: Seq<char>)
    requires
        word_occurs(text, start, word),
    ensures
        utf16::utf8_units(word) > 0,
        start + utf16::utf8_units(word) <= utf16::utf8_units(text),
{
    let k = choose|k: int|
        0 <= k < k + word.len() <= text.len() && #[trigger] utf16::byte_of_char(text, k) == start
            && text.subrange(k, k + word.len()) == word;
    let end = k + word.len();
    assert(text.take(end) =~= text.take(k) + word);
    utf16::lemma_units_concat(text.take(k), word);
    utf16::lemma_char_starts_increase(text, end, text.len() as int);
    utf16::lemma_char_starts_increase(text, k, end);
    assert(text.take(text.len() as int) =~= text);
}

/// Picks the word of a list that holds the character at `offset_utf16`.
pub fn word_range_among(
    text: &str,
    words: &Vec<(usize, String)>,
    offset_utf16: usize,
) -> (found: Option<Range<usize>>)
    requires
        words_in_order(text@, word_list(words@)),
    ensures
        is_word_at(text@, word_list(words@), offset_utf16 as nat, found),
{
    let offset_byte: usize = utf16::utf16_offset_to_byte(text, offset_utf16);
    let ghost list = word_list(words@);
    let mut index: usize = 0;
    while index < words.len()
        invariant
            index <= words.len(),
            list == word_list(words@),
            words_in_order(text@, list),
            offset_byte == utf16::byte_of_unit(text@, offset_utf16 as nat),
            forall|j: int| 0 <= j < index ==> !word_covers(#[trigger] list[j], offset_byte as nat),
        decreases words.len() - index,
    {
        let start: usize = words[index].0;
        let len: usize = utf16::byte_len(words[index].1.as_str());
        proof {
            assert(list[index as int] == (start, words[index as int].1@));
            lemma_word_fits(text@, start as nat, words[index as int].1@);
        }
        let total: usize = utf16::byte_len(text);
        if start <= offset_byte && offset_byte < start + len {
            let range: Range<usize> = utf16::byte_offset_to_utf16(text, start)..utf16::byte_offset_to_utf16(
                text,
                start + len,
            );
            assert(first_cover(list, offset_byte as nat, index as int));
            assert(is_word_range(text@, list[index as int], range));
            return Some(range);
        }
        index = index + 1;
    }
    None
}

/// Finds the word around a UTF-16 offset, as a UTF-16 range.
///
/// The range is that of the one word that holds the character at the offset, and the same range is
/// found from every offset inside it. Where no word holds the character, nothing is found.
pub fn word_range_at_utf16(text: &str, offset_utf16: usize) -> (found: Option<Range<usize>>)
    ensures
        is_word_at(text@, unicode_words(text@), offset_utf16 as nat, found),
        words_in_order(text@, unicode_words(text@)),
        found matches Some(range) ==> {
            &&& range.start <= offset_utf16 < range.end <= utf16::utf16_units(text@)
            &&& forall|k: nat|
                range.start <= k < range.end ==> #[trigger] is_word_at(
                    text@,
                    unicode_words(text@),
                    k,
                    found,
                )
        },
{
    let words: Vec<(usize, String)> = segment_words(text);
    let found: Option<Range<usize>> = word_range_among(text, &words, offset_utf16);
    proof {
        let list = unicode_words(text@);
        if found is Some {
            let range = found->0;
            word_range_surrounds_the_offset(text@, list, offset_utf16 as nat, range);
            assert forall|k: nat| range.start <= k < range.end implies #[trigger] is_word_at(
                text@,
                list,
                k,
                found,
            ) by {
                every_offset_of_a_word_finds_it(text@, list, offset_utf16 as nat, range, k);
            }
        }
    }
    found
}

/// Where a word lies in characters: it covers the characters from the first up to the second.
proof fn lemma_word_characters(text: Seq<char>, word: (usize, Seq<char>), range: Range<usize>) -> (span:
    (int, int))
    requires
        word_occurs(text, word.0 as nat, word.1),
        is_word_range(text, word, range),
    ensures
        0 <= span.0 < span.1 <= text.len(),
        utf16::byte_of_char(text, span.0) == word.0,
        utf16::byte_of_char(text, span.1) == word.0 + utf16::utf8_units(word.1),
        range.start == utf16::unit_of_char(text, span.0),
        range.end == utf16::unit_of_char(text, span.1),
        range.end <= utf16::utf16_units(text),
{
    let k = choose|k: int|
        0 <= k < k + word.1.len() <= text.len() && #[trigger] utf16::byte_of_char(text, k)
            == word.0 && text.subrange(k, k + word.1.len()) == word.1;
    let end = k + word.1.len();
    assert(text.take(end) =~= text.take(k) + word.1);
    utf16::lemma_units_concat(text.take(k), word.1);
    utf16::offsets_round_trip_at_characters(text, k);
    utf16::offsets_round_trip_at_characters(text, end);
    utf16::lemma_char_starts_increase(text, end, text.len() as int);
    assert(text.take(text.len() as int) =~= text);
    (k, end)
}

/// A word holds the character at an offset exactly when the offset lies inside the word's range.
pub proof fn a_word_holds_the_offsets_of_its_range(
    text: Seq<char>,
    word: (usize, Seq<char>),
    range: Range<usize>,
    offset: nat,
)
    requires
        word_occurs(text, word.0 as nat, word.1),
        is_word_range(text, word, range),
    ensures
        word_covers(word, utf16::byte_of_unit(text, offset)) <==> range.start <= offset
            < range.end,
{
    let (first, end) = lemma_word_characters(text, word, range);
    utf16::lemma_chars_within_units(text, offset);
    let c = utf16::chars_within_units(text, offset) as int;
    if c < first {
        utf16::lemma_char_starts_increase(text, c + 1, first);
        utf16::lemma_char_starts_increase(text, c, first);
    } else {
        utf16::lemma_char_starts_increase(text, first, c);
    }
    if c < end {
        utf16::lemma_char_starts_increase(text, c + 1, end);
        utf16::lemma_char_starts_increase(text, c, end);
    } else {
        utf16::lemma_char_starts_increase(text, end, c);
    }
}

/// The word found around an offset holds the character at that offset: it begins at or before it
/// and ends past it, inside the text.
pub proof fn word_range_surrounds_the_offset(
    text: Seq<char>,
    words: Seq<(usize, Seq<char>)>,
    offset: nat,
    range: Range<usize>,
)
    requires
        words_in_order(text, words),
        is_word_at(text, words, offset, Some(range)),
    ensures
        range.start <= offset < range.end <= utf16::utf16_units(text),
        range.start <= utf16::unit_of_byte(text, utf16::byte_of_unit(text, offset)) < range.end,
{
    let byte = utf16::byte_of_unit(text, offset);
    let i = choose|i: int| #[trigger]
        first_cover(words, byte, i) && is_word_range(text, words[i], range);
    assert(word_occurs(text, words[i].0 as nat, words[i].1));
    lemma_word_characters(text, words[i], range);
    a_word_holds_the_offsets_of_its_range(text, words[i], range, offset);
    utf16::unit_offset_snaps_back_to_a_character(text, offset);
    a_word_holds_the_offsets_of_its_range(text, words[i], range, utf16::unit_of_byte(text, byte));
}

/// Every offset inside the word that was found around an offset finds the same word.
pub proof fn every_offset_of_a_word_finds_it(
    text: Seq<char>,
    words: Seq<(usize, Seq<char>)>,
    offset: nat,
    range: Range<usize>,
    other: nat,
)
    requires
        words_in_order(text, words),
        is_word_at(text, words, offset, Some(range)),
        range.start <= other < range.end,
    ensures
        is_word_at(text, words, other, Some(range)),
{
    let i = choose|i: int| #[trigger]
        first_cover(words, utf16::byte_of_unit(text, offset), i) && is_word_range(
            text,
            words[i],
            range,
        );
    let byte = utf16::byte_of_unit(text, other);
    assert(word_occurs(text, words[i].0 as nat, words[i].1));
    a_word_holds_the_offsets_of_its_range(text, words[i], range, other);
    assert forall|j: int| 0 <= j < i implies !word_covers(#[trigger] words[j], byte) by {
        if word_covers(words[j], byte) {
            at_most_one_word_covers(text, words, byte, j, i);
        }
    }
    assert(first_cover(words, byte, i));
}

/// What is found around an offset is fixed by the text, its words and the offset.
pub proof fn the_word_at_an_offset_is_determined(
    text: Seq<char>,
    words: Seq<(usize, Seq<char>)>,
    offset: nat,
    a: Option<Range<usize>>,
    b: Option<Range<usize>>,
)
    requires
        words_in_order(text, words),
        is_word_at(text, words, offset, a),
        is_word_at(text, words, offset, b),
    ensures
        a == b,
{
    let byte = utf16::byte_of_unit(text, offset);
    if let Some(range) = a {
        let i = choose|i: int| #[trigger]
            first_cover(words, byte, i) && is_word_range(text, words[i], range);
        if let Some(other) = b {
            let j = choose|j: int| #[trigger]
                first_cover(words, byte, j) && is_word_range(text, words[j], other);
            at_most_one_word_covers(text, words, byte, i, j);
        }
    }
}

/// Where words follow one another without overlapping, at most one of them holds a given byte.
pub proof fn at_most_one_word_covers(
    text: Seq<char>,
    words: Seq<(usize, Seq<char>)>,
    byte: nat,
    i: int,
    j: int,
)
    requires
        words_in_order(text, words),
        0 <= i < words.len(),
        0 <= j < words.len(),
        word_covers(words[i], byte),
        word_covers(words[j], byte),
    ensures
        i == j,
{
}

/// The range found around an offset holds a word of the list, letter for letter, and nothing is
/// found only where no word of the list lies around the offset.
pub proof fn found_ranges_hold_a_word(
    text: Seq<char>,
    words: Seq<(usize, Seq<char>)>,
    offset: nat,
    range: Range<usize>,
) -> (index: int)
    requires
        words_in_order(text, words),
        is_word_at(text, words, offset, Some(range)),
    ensures
        0 <= index < words.len(),
        utf16::utf16_subrange(text, range.start as nat, range.end as nat) == words[index].1,
        utf16::byte_of_unit(text, range.start as nat) == words[index].0,
{
    let byte = utf16::byte_of_unit(text, offset);
    let index = choose|i: int| #[trigger]
        first_cover(words, byte, i) && is_word_range(text, words[i], range);
    let word = words[index];
    assert(word_occurs(text, word.0 as nat, word.1));
    let k = choose|k: int|
        0 <= k < k + word.1.len() <= text.len() && #[trigger] utf16::byte_of_char(text, k)
            == word.0 && text.subrange(k, k + word.1.len()) == word.1;
    let end = k + word.1.len();
    assert(text.take(end) =~= text.take(k) + word.1);
    utf16::lemma_units_concat(text.take(k), word.1);
    utf16::offsets_round_trip_at_characters(text, k);
    utf16::offsets_round_trip_at_characters(text, end);
    if k < text.len() {
        utf16::lemma_take_step(text, k);
    }
    if end < text.len() {
        utf16::lemma_take_step(text, end);
    }
    utf16::lemma_chars_within_units_unique(text, utf16::unit_of_char(text, k), k);
    utf16::lemma_chars_within_units_unique(text, utf16::unit_of_char(text, end), end);
    index
}

/// A word of the list that begins at or before an offset and ends past it is the one that is found
/// there.
pub proof fn words_are_found_around_their_offsets(
    text: Seq<char>,
    words: Seq<(usize, Seq<char>)>,
    index: int,
    first: int,
    offset: nat,
    found: Option<Range<usize>>,
)
    requires
        words_in_order(text, words),
        0 <= index < words.len(),
        0 <= first <= first + words[index].1.len() <= text.len(),
        utf16::utf8_units(text.subrange(0, first)) == words[index].0,
        text.subrange(first, first + words[index].1.len()) == words[index].1,
        utf16::utf16_units(text.subrange(0, first)) <= offset < utf16::utf16_units(
            text.subrange(0, first + words[index].1.len()),
        ),
        is_word_at(text, words, offset, found),
    ensures
        found matches Some(range) && {
            &&& range.start == utf16::utf16_units(text.subrange(0, first))
            &&& range.end == utf16::utf16_units(text.subrange(0, first + words[index].1.len()))
        },
{
    let word = words[index];
    let end = first + word.1.len();
    assert(text.subrange(0, first) =~= text.take(first));
    assert(text.subrange(0, end) =~= text.take(end));
    assert(utf16::byte_of_char(text, first) == word.0);
    assert(text.take(end) =~= text.take(first) + word.1);
    utf16::lemma_units_concat(text.take(first), word.1);
    utf16::offsets_round_trip_at_characters(text, first);
    utf16::offsets_round_trip_at_characters(text, end);
    let byte = utf16::byte_of_unit(text, offset);
    utf16::lemma_chars_within_units(text, offset);
    let c = utf16::chars_within_units(text, offset) as int;
    if c < first {
        utf16::lemma_char_starts_increase(text, c + 1, first);
    } else if c >= end {
        utf16::lemma_char_starts_increase(text, end, c);
    } else {
        utf16::lemma_char_starts_increase(text, first, c);
        utf16::lemma_char_starts_increase(text, c, end);
    }
    assert(word_covers(word, byte));
    if let Some(range) = found {
        let i = choose|i: int| #[trigger]
            first_cover(words, byte, i) && is_word_range(text, words[i], range);
        at_most_one_word_covers(text, words, byte, i, index);
    }
}

/// The words of a list show where they begin and what they are.
pub proof fn words_show_what_they_hold(words: Seq<(usize, String)>, i: int)
    ensures
        word_list(words).len() == words.len(),
        0 <= i < words.len() ==> word_list(words)[i].0 == words[i].0 && word_list(words)[i].1
            == words[i].1@,
{
}

} // verus!
