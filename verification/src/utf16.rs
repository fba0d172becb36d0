//! Offsets into text: characters, UTF-8 bytes and UTF-16 code units.
//!
//! Native text input counts in UTF-16 code units while Rust strings are indexed by bytes. Every
//! position in this module is described by the number of leading characters it covers.
use vstd::prelude::*;
use vstd::string::*;
use vstd::utf8::*;

verus! {

/// The number of bytes `c` takes in UTF-8.
pub open spec fn utf8_width(c: char) -> nat {
    let v = c as u32;
    if v < 0x80 {
        1
    } else if v < 0x800 {
        2
    } else if v < 0x10000 {
        3
    } else {
        4
    }
}

/// The number of code units `c` takes in UTF-16.
pub open spec fn utf16_width(c: char) -> nat {
    if (c as u32) < 0x10000 {
        1
    } else {
        2
    }
}

/// The number of bytes `text` takes in UTF-8.
pub open spec fn utf8_units(text: Seq<char>) -> nat
    decreases text.len(),
{
    if text.len() == 0 {
        0
    } else {
        utf8_units(text.drop_last()) + utf8_width(text.last())
    }
}

/// The number of code units `text` takes in UTF-16.
pub open spec fn utf16_units(text: Seq<char>) -> nat
    decreases text.len(),
{
    if text.len() == 0 {
        0
    } else {
        utf16_units(text.drop_last()) + utf16_width(text.last())
    }
}

/// The byte at which character `index` begins; the byte length of `text` when `index` is its
/// character count.
pub open spec fn byte_of_char(text: Seq<char>, index: int) -> nat {
    utf8_units(text.take(index))
}

/// The code unit at which character `index` begins.
pub open spec fn unit_of_char(text: Seq<char>, index: int) -> nat {
    utf16_units(text.take(index))
}

/// The largest number of leading characters that take at most `units` code units.
pub open spec fn chars_within_units(text: Seq<char>, units: nat) -> nat
    decreases text.len(),
{
    if text.len() == 0 || utf16_units(text) <= units {
        text.len()
    } else {
        chars_within_units(text.drop_last(), units)
    }
}

/// The number of characters that begin before byte `byte`.
pub open spec fn chars_before_byte(text: Seq<char>, byte: nat) -> nat
    decreases text.len(),
{
    if text.len() == 0 || utf8_units(text.drop_last()) < byte {
        text.len()
    } else {
        chars_before_byte(text.drop_last(), byte)
    }
}

/// The byte at which the character containing code unit `units` begins, and the byte length of
/// `text` past its end.
pub open spec fn byte_of_unit(text: Seq<char>, units: nat) -> nat {
    byte_of_char(text, chars_within_units(text, units) as int)
}

/// The number of code units taken by the characters that begin before byte `byte`.
pub open spec fn unit_of_byte(text: Seq<char>, byte: nat) -> nat {
    unit_of_char(text, chars_before_byte(text, byte) as int)
}

pub proof fn lemma_take_step(text: Seq<char>, index: int)
    requires
        0 <= index < text.len(),
    ensures
        byte_of_char(text, index + 1) == byte_of_char(text, index) + utf8_width(text[index]),
        unit_of_char(text, index + 1) == unit_of_char(text, index) + utf16_width(text[index]),
{
    assert(text.take(index + 1).drop_last() =~= text.take(index));
}

/// Character starts grow strictly with the character index, in bytes and in code units.
pub proof fn lemma_char_starts_increase(text: Seq<char>, i: int, j: int)
    requires
        0 <= i <= j <= text.len(),
    ensures
        byte_of_char(text, i) + (j - i) <= byte_of_char(text, j),
        unit_of_char(text, i) + (j - i) <= unit_of_char(text, j),
        unit_of_char(text, j) - unit_of_char(text, i) <= byte_of_char(text, j) - byte_of_char(
            text,
            i,
        ),
    decreases j - i,
{
    if i < j {
        lemma_char_starts_increase(text, i, j - 1);
        lemma_take_step(text, j - 1);
    }
}

pub proof fn lemma_units_concat(a: Seq<char>, b: Seq<char>)
    ensures
        utf8_units(a + b) == utf8_units(a) + utf8_units(b),
        utf16_units(a + b) == utf16_units(a) + utf16_units(b),
    decreases b.len(),
{
    if b.len() == 0 {
        assert(a + b =~= a);
    } else {
        assert((a + b).drop_last() =~= a + b.drop_last());
        lemma_units_concat(a, b.drop_last());
    }
}

/// The bytes of a string are as many as its characters take in UTF-8.
pub proof fn lemma_encoded_length(text: Seq<char>)
    ensures
        encode_utf8(text).len() == utf8_units(text),
    decreases text.len(),
{
    if text.len() > 0 {
        lemma_encoded_length(text.drop_first());
        char_is_scalar(text[0]);
        let head = seq![text[0]];
        assert(head + text.drop_first() =~= text);
        lemma_units_concat(head, text.drop_first());
        assert(head.drop_last() =~= Seq::<char>::empty());
        assert(utf8_units(head) == utf8_width(text[0])) by {
            reveal_with_fuel(utf8_units, 2);
        }
    }
}

pub proof fn lemma_chars_within_units(text: Seq<char>, units: nat)
    ensures
        chars_within_units(text, units) <= text.len(),
        unit_of_char(text, chars_within_units(text, units) as int) <= units,
        chars_within_units(text, units) < text.len() ==> units < unit_of_char(
            text,
            chars_within_units(text, units) as int + 1,
        ),
    decreases text.len(),
{
    assert(text.take(text.len() as int) =~= text);
    if text.len() == 0 || utf16_units(text) <= units {
    } else {
        let shorter = text.drop_last();
        lemma_chars_within_units(shorter, units);
        let k = chars_within_units(text, units) as int;
        assert(shorter.take(k) =~= text.take(k));
        if k < shorter.len() {
            assert(shorter.take(k + 1) =~= text.take(k + 1));
        }
    }
}

/// A count of characters that brackets `units` is the one that `chars_within_units` names.
pub proof fn lemma_chars_within_units_unique(text: Seq<char>, units: nat, count: int)
    requires
        0 <= count <= text.len(),
        unit_of_char(text, count) <= units,
        count < text.len() ==> units < unit_of_char(text, count + 1),
    ensures
        chars_within_units(text, units) == count,
{
    lemma_chars_within_units(text, units);
    let k = chars_within_units(text, units) as int;
    if k < count {
        lemma_char_starts_increase(text, k + 1, count);
    } else if count < k {
        lemma_char_starts_increase(text, count + 1, k);
    }
}

pub proof fn lemma_chars_before_byte(text: Seq<char>, byte: nat)
    ensures
        chars_before_byte(text, byte) <= text.len(),
        chars_before_byte(text, byte) < text.len() ==> byte <= byte_of_char(
            text,
            chars_before_byte(text, byte) as int,
        ),
        chars_before_byte(text, byte) > 0 ==> byte_of_char(
            text,
            chars_before_byte(text, byte) as int - 1,
        ) < byte,
    decreases text.len(),
{
    if text.len() == 0 {
    } else {
        let shorter = text.drop_last();
        assert(text.take(text.len() - 1) =~= shorter);
        if utf8_units(shorter) < byte {
        } else {
            lemma_chars_before_byte(shorter, byte);
            let k = chars_before_byte(text, byte) as int;
            assert(shorter.take(k) =~= text.take(k));
            if k > 0 {
                assert(shorter.take(k - 1) =~= text.take(k - 1));
            }
        }
    }
}

pub proof fn lemma_chars_before_byte_unique(text: Seq<char>, byte: nat, count: int)
    requires
        0 <= count <= text.len(),
        count < text.len() ==> byte <= byte_of_char(text, count),
        count > 0 ==> byte_of_char(text, count - 1) < byte,
    ensures
        chars_before_byte(text, byte) == count,
{
    lemma_chars_before_byte(text, byte);
    let k = chars_before_byte(text, byte) as int;
    if k < count {
        lemma_char_starts_increase(text, k, count - 1);
    } else if count < k {
        lemma_char_starts_increase(text, count, k - 1);
    }
}

/// The byte length of a string fits in `usize`.
pub fn byte_len(text: &str) -> (len: usize)
    ensures
        len == utf8_units(text@),
{
    proof {
        lemma_encoded_length(text@);
    }
    text.as_bytes().len()
}

/// Measures one character in UTF-8 bytes and UTF-16 code units.
fn char_widths(c: char) -> (widths: (usize, usize))
    ensures
        widths.0 == utf8_width(c),
        widths.1 == utf16_width(c),
{
    let v: u32 = c as u32;
    if v < 0x80 {
        (1, 1)
    } else if v < 0x800 {
        (2, 1)
    } else if v < 0x10000 {
        (3, 1)
    } else {
        (4, 2)
    }
}

/// Counts the UTF-16 code units of `text`.
pub fn utf16_len(text: &str) -> (len: usize)
    ensures
        len == utf16_units(text@),
        len <= utf8_units(text@),
{
    let total: usize = byte_len(text);
    let mut units: usize = 0;
    for c in it: text.chars()
        invariant
            it.seq() == text@,
            units == unit_of_char(text@, it.index() as int),
            total == utf8_units(text@),
    {
        proof {
            let i = it.index() as int;
            lemma_take_step(text@, i);
            lemma_char_starts_increase(text@, i + 1, text@.len() as int);
            lemma_char_starts_increase(text@, 0, text@.len() as int);
            assert(text@.take(text@.len() as int) =~= text@);
        }
        units = units + char_widths(c).1;
    }
    proof {
        assert(text@.take(text@.len() as int) =~= text@);
        lemma_char_starts_increase(text@, 0, text@.len() as int);
    }
    units
}

/// Converts an offset in UTF-16 code units to the byte at which the character holding it begins.
///
/// An offset inside a surrogate pair falls back to the start of its character, and one past the
/// end gives the byte length of `text`.
pub fn utf16_offset_to_byte(text: &str, offset_utf16: usize) -> (byte: usize)
    ensures
        byte == byte_of_unit(text@, offset_utf16 as nat),
        byte <= utf8_units(text@),
{
    let total: usize = byte_len(text);
    let mut units: usize = 0;
    let mut byte: usize = 0;
    for c in it: text.chars()
        invariant
            it.seq() == text@,
            units == unit_of_char(text@, it.index() as int),
            byte == byte_of_char(text@, it.index() as int),
            total == utf8_units(text@),
            units <= offset_utf16,
    {
        let widths: (usize, usize) = char_widths(c);
        proof {
            let i = it.index() as int;
            lemma_take_step(text@, i);
            lemma_char_starts_increase(text@, i, text@.len() as int);
            assert(text@.take(text@.len() as int) =~= text@);
        }
        if offset_utf16 - units < widths.1 {
            proof {
                lemma_chars_within_units_unique(text@, offset_utf16 as nat, it.index() as int);
            }
            return byte;
        }
        proof {
            lemma_char_starts_increase(text@, it.index() as int + 1, text@.len() as int);
        }
        units = units + widths.1;
        byte = byte + widths.0;
    }
    proof {
        assert(text@.take(text@.len() as int) =~= text@);
        lemma_chars_within_units_unique(text@, offset_utf16 as nat, text@.len() as int);
    }
    byte
}

/// Converts a byte offset to the UTF-16 offset of the first character that does not begin before
/// it.
pub fn byte_offset_to_utf16(text: &str, byte_offset: usize) -> (units: usize)
    ensures
        units == unit_of_byte(text@, byte_offset as nat),
        units <= utf16_units(text@),
{
    let total: usize = byte_len(text);
    let mut units: usize = 0;
    let mut byte: usize = 0;
    for c in it: text.chars()
        invariant
            it.seq() == text@,
            units == unit_of_char(text@, it.index() as int),
            byte == byte_of_char(text@, it.index() as int),
            total == utf8_units(text@),
            it.index() > 0 ==> byte_of_char(text@, it.index() as int - 1) < byte_offset,
    {
        proof {
            assert(text@.take(text@.len() as int) =~= text@);
            lemma_char_starts_increase(text@, it.index() as int, text@.len() as int);
        }
        if byte >= byte_offset {
            proof {
                lemma_chars_before_byte_unique(text@, byte_offset as nat, it.index() as int);
            }
            return units;
        }
        let widths: (usize, usize) = char_widths(c);
        proof {
            let i = it.index() as int;
            lemma_take_step(text@, i);
            lemma_char_starts_increase(text@, 0, i + 1);
            lemma_char_starts_increase(text@, i + 1, text@.len() as int);
        }
        units = units + widths.1;
        byte = byte + widths.0;
    }
    proof {
        assert(text@.take(text@.len() as int) =~= text@);
        lemma_chars_before_byte_unique(text@, byte_offset as nat, text@.len() as int);
    }
    units
}

/// Finds where the last character that begins before `byte_offset` begins.
pub fn previous_char_byte(text: &str, byte_offset: usize) -> (previous: Option<usize>)
    ensures
        ({
            let count = chars_before_byte(text@, byte_offset as nat) as int;
            &&& previous is None <==> count == 0
            &&& previous matches Some(byte) ==> byte == byte_of_char(text@, count - 1)
        }),
{
    let total: usize = byte_len(text);
    let mut previous: Option<usize> = None;
    let mut byte: usize = 0;
    for c in it: text.chars()
        invariant
            it.seq() == text@,
            byte == byte_of_char(text@, it.index() as int),
            total == utf8_units(text@),
            it.index() > 0 ==> byte_of_char(text@, it.index() as int - 1) < byte_offset,
            previous is None <==> it.index() == 0,
            previous matches Some(b) ==> b == byte_of_char(text@, it.index() as int - 1),
    {
        if byte >= byte_offset {
            proof {
                lemma_chars_before_byte_unique(text@, byte_offset as nat, it.index() as int);
            }
            return previous;
        }
        previous = Some(byte);
        let widths: (usize, usize) = char_widths(c);
        proof {
            let i = it.index() as int;
            lemma_take_step(text@, i);
            lemma_char_starts_increase(text@, i + 1, text@.len() as int);
            assert(text@.take(text@.len() as int) =~= text@);
        }
        byte = byte + widths.0;
    }
    proof {
        lemma_chars_before_byte_unique(text@, byte_offset as nat, text@.len() as int);
    }
    previous
}

/// Whether a character of `text` begins at byte `byte`.
pub open spec fn starts_char(text: Seq<char>, byte: nat) -> bool {
    exists|i: int| 0 <= i < text.len() && #[trigger] byte_of_char(text, i) == byte
}

/// Finds where the character that begins at `byte_offset` ends.
pub fn next_char_byte(text: &str, byte_offset: usize) -> (next: Option<usize>)
    ensures
        next is Some <==> starts_char(text@, byte_offset as nat),
        next matches Some(byte) ==> byte == byte_of_char(
            text@,
            chars_before_byte(text@, byte_offset as nat) as int + 1,
        ),
{
    let total: usize = byte_len(text);
    let mut byte: usize = 0;
    for c in it: text.chars()
        invariant
            it.seq() == text@,
            byte == byte_of_char(text@, it.index() as int),
            total == utf8_units(text@),
            forall|i: int| 0 <= i < it.index() ==> #[trigger] byte_of_char(text@, i) != byte_offset,
    {
        let widths: (usize, usize) = char_widths(c);
        proof {
            let i = it.index() as int;
            lemma_take_step(text@, i);
            lemma_char_starts_increase(text@, i + 1, text@.len() as int);
            assert(text@.take(text@.len() as int) =~= text@);
        }
        if byte == byte_offset {
            proof {
                let i = it.index() as int;
                if i > 0 {
                    lemma_char_starts_increase(text@, i - 1, i);
                }
                lemma_chars_before_byte_unique(text@, byte_offset as nat, i);
            }
            return Some(byte + widths.0);
        }
        byte = byte + widths.0;
    }
    None
}

/// Counts the leading characters that take at most `offset_utf16` code units.
pub fn utf16_offset_to_char(text: &str, offset_utf16: usize) -> (count: usize)
    ensures
        count == chars_within_units(text@, offset_utf16 as nat),
        count <= text@.len(),
{
    let total: usize = byte_len(text);
    let mut units: usize = 0;
    let mut count: usize = 0;
    for c in it: text.chars()
        invariant
            it.seq() == text@,
            count == it.index(),
            units == unit_of_char(text@, it.index() as int),
            total == utf8_units(text@),
            units <= offset_utf16,
    {
        let widths: (usize, usize) = char_widths(c);
        proof {
            let i = it.index() as int;
            lemma_take_step(text@, i);
            lemma_char_starts_increase(text@, 0, i + 1);
            lemma_char_starts_increase(text@, i + 1, text@.len() as int);
            assert(text@.take(text@.len() as int) =~= text@);
        }
        if offset_utf16 - units < widths.1 {
            proof {
                lemma_chars_within_units_unique(text@, offset_utf16 as nat, it.index() as int);
            }
            return count;
        }
        units = units + widths.1;
        count = count + 1;
    }
    proof {
        assert(text@.take(text@.len() as int) =~= text@);
        lemma_chars_within_units_unique(text@, offset_utf16 as nat, text@.len() as int);
    }
    count
}

/// The characters of `text` between two offsets in UTF-16 code units, each moved back to the start
/// of the character that holds it.
pub open spec fn utf16_subrange(text: Seq<char>, start: nat, end: nat) -> Seq<char> {
    text.subrange(
        chars_within_units(text, start) as int,
        chars_within_units(text, end) as int,
    )
}

/// Copies the text between two UTF-16 offsets.
pub fn utf16_slice(text: &str, start_utf16: usize, end_utf16: usize) -> (slice: String)
    requires
        start_utf16 <= end_utf16,
    ensures
        slice@ == utf16_subrange(text@, start_utf16 as nat, end_utf16 as nat),
{
    let start: usize = utf16_offset_to_char(text, start_utf16);
    let end: usize = utf16_offset_to_char(text, end_utf16);
    proof {
        unit_offsets_are_monotone(text@, start_utf16 as nat, end_utf16 as nat);
    }
    text.substring_char(start, end).to_owned()
}

/// A larger UTF-16 offset never covers fewer characters, nor maps to a smaller byte.
pub proof fn unit_offsets_are_monotone(text: Seq<char>, a: nat, b: nat)
    requires
        a <= b,
    ensures
        chars_within_units(text, a) <= chars_within_units(text, b),
        byte_of_unit(text, a) <= byte_of_unit(text, b),
{
    lemma_chars_within_units(text, a);
    lemma_chars_within_units(text, b);
    let j = chars_within_units(text, a) as int;
    let k = chars_within_units(text, b) as int;
    if k < j {
        lemma_char_starts_increase(text, k + 1, j);
    }
    lemma_char_starts_increase(text, j, k);
}

/// A larger byte offset never maps to a smaller UTF-16 offset.
pub proof fn byte_offsets_are_monotone(text: Seq<char>, a: nat, b: nat)
    requires
        a <= b,
    ensures
        unit_of_byte(text, a) <= unit_of_byte(text, b),
{
    lemma_chars_before_byte(text, a);
    lemma_chars_before_byte(text, b);
    let j = chars_before_byte(text, a) as int;
    let k = chars_before_byte(text, b) as int;
    if k < j {
        lemma_char_starts_increase(text, k, j - 1);
    }
    lemma_char_starts_increase(text, j, k);
}

/// At the start of a character, and at the end of the text, converting between bytes and UTF-16
/// code units loses nothing in either direction.
pub proof fn offsets_round_trip_at_characters(text: Seq<char>, index: int)
    requires
        0 <= index <= text.len(),
    ensures
        byte_of_unit(text, unit_of_char(text, index)) == byte_of_char(text, index),
        unit_of_byte(text, byte_of_char(text, index)) == unit_of_char(text, index),
{
    if index < text.len() {
        lemma_take_step(text, index);
    }
    if index > 0 {
        lemma_take_step(text, index - 1);
    }
    lemma_chars_within_units_unique(text, unit_of_char(text, index), index);
    lemma_chars_before_byte_unique(text, byte_of_char(text, index), index);
}

/// Going from UTF-16 to bytes and back never moves an offset forward, and a second trip changes
/// nothing.
pub proof fn unit_offset_snaps_back_to_a_character(text: Seq<char>, units: nat)
    ensures
        ({
            let snapped = unit_of_byte(text, byte_of_unit(text, units));
            &&& snapped <= units
            &&& byte_of_unit(text, snapped) == byte_of_unit(text, units)
        }),
{
    lemma_chars_within_units(text, units);
    offsets_round_trip_at_characters(text, chars_within_units(text, units) as int);
}

/// Every offset at or past the end of the text maps to its end.
pub proof fn offsets_past_the_end_saturate(text: Seq<char>, units: nat, byte: nat)
    requires
        units >= utf16_units(text),
        byte >= utf8_units(text),
    ensures
        byte_of_unit(text, units) == utf8_units(text),
        unit_of_byte(text, byte) == utf16_units(text),
{
    assert(text.take(text.len() as int) =~= text);
    lemma_chars_within_units_unique(text, units, text.len() as int);
    if text.len() > 0 {
        lemma_take_step(text, text.len() - 1);
    }
    lemma_chars_before_byte_unique(text, byte, text.len() as int);
}

/// Stepping to the end of a character and then back returns to where the character begins.
pub proof fn next_then_previous_returns(text: Seq<char>, byte: nat)
    requires
        starts_char(text, byte),
    ensures
        ({
            let next = byte_of_char(text, chars_before_byte(text, byte) as int + 1);
            &&& byte < next
            &&& chars_before_byte(text, next) > 0
            &&& byte_of_char(text, chars_before_byte(text, next) as int - 1) == byte
        }),
{
    let i = choose|i: int| 0 <= i < text.len() && #[trigger] byte_of_char(text, i) == byte;
    if i > 0 {
        lemma_take_step(text, i - 1);
    }
    lemma_take_step(text, i);
    lemma_chars_before_byte_unique(text, byte, i);
    let next = byte_of_char(text, i + 1);
    if i + 1 < text.len() {
        lemma_take_step(text, i + 1);
    }
    lemma_chars_before_byte_unique(text, next, i + 1);
}

/// Cutting a text at a UTF-16 offset and joining the two halves gives the text back.
pub proof fn adjacent_slices_join(text: Seq<char>, a: nat, b: nat, c: nat)
    requires
        a <= b <= c,
    ensures
        utf16_subrange(text, a, b) + utf16_subrange(text, b, c) == utf16_subrange(text, a, c),
{
    unit_offsets_are_monotone(text, a, b);
    unit_offsets_are_monotone(text, b, c);
    lemma_chars_within_units(text, c);
    assert(utf16_subrange(text, a, b) + utf16_subrange(text, b, c) =~= utf16_subrange(text, a, c));
}

/// A character up to `U+FFFF` takes one code unit and any other takes two, and in UTF-8 a character
/// takes one byte up to `U+007F`, two up to `U+07FF`, three up to `U+FFFF` and four beyond.
pub proof fn each_character_adds_its_width(text: Seq<char>, c: char)
    ensures
        utf16_units(Seq::empty()) == 0,
        utf8_units(Seq::empty()) == 0,
        c as u32 <= 0xffff ==> utf16_units(text.push(c)) == utf16_units(text) + 1,
        c as u32 > 0xffff ==> utf16_units(text.push(c)) == utf16_units(text) + 2,
        c as u32 <= 0x7f ==> utf8_units(text.push(c)) == utf8_units(text) + 1,
        0x7f < c as u32 <= 0x7ff ==> utf8_units(text.push(c)) == utf8_units(text) + 2,
        0x7ff < c as u32 <= 0xffff ==> utf8_units(text.push(c)) == utf8_units(text) + 3,
        c as u32 > 0xffff ==> utf8_units(text.push(c)) == utf8_units(text) + 4,
{
    assert(text.push(c).drop_last() =~= text);
}

/// A text cut at a UTF-16 offset is cut in front of the character that holds the offset: what comes
/// before takes at most that many code units, and with one character more it would take more.
pub proof fn slices_are_cut_in_front_of_a_character(text: Seq<char>, start: nat, end: nat) -> (cut: (
    int,
    int,
))
    requires
        start <= end,
    ensures
        0 <= cut.0 <= cut.1 <= text.len(),
        utf16_subrange(text, start, end) == text.subrange(cut.0, cut.1),
        utf16_units(text.subrange(0, cut.0)) <= start,
        cut.0 < text.len() ==> utf16_units(text.subrange(0, cut.0 + 1)) > start,
        utf16_units(text.subrange(0, cut.1)) <= end,
        cut.1 < text.len() ==> utf16_units(text.subrange(0, cut.1 + 1)) > end,
{
    lemma_chars_within_units(text, start);
    lemma_chars_within_units(text, end);
    unit_offsets_are_monotone(text, start, end);
    let first = chars_within_units(text, start) as int;
    let last = chars_within_units(text, end) as int;
    assert(text.subrange(0, first) =~= text.take(first));
    assert(text.subrange(0, last) =~= text.take(last));
    if first < text.len() {
        assert(text.subrange(0, first + 1) =~= text.take(first + 1));
    }
    if last < text.len() {
        assert(text.subrange(0, last + 1) =~= text.take(last + 1));
    }
    (first, last)
}

/// A byte offset is counted in code units by the text in front of it: at a place between two
/// characters it is exactly the code units of what comes before, and inside a character those of
/// the text up to the character's end.
pub proof fn byte_offsets_count_the_text_in_front(text: Seq<char>, index: int, byte: nat)
    requires
        0 <= index < text.len(),
        utf8_units(text.subrange(0, index)) < byte <= utf8_units(text.subrange(0, index + 1)),
    ensures
        unit_of_byte(text, byte) == utf16_units(text.subrange(0, index + 1)),
        unit_of_byte(text, 0) == 0,
{
    assert(text.subrange(0, index) =~= text.take(index));
    assert(text.subrange(0, index + 1) =~= text.take(index + 1));
    lemma_chars_before_byte_unique(text, byte, index + 1);
    lemma_chars_before_byte_unique(text, 0, 0);
}

/// An offset in code units is turned into the bytes of the text in front of the character that
/// holds it.
pub proof fn unit_offsets_count_the_text_in_front(text: Seq<char>, index: int, units: nat)
    requires
        0 <= index < text.len(),
        utf16_units(text.subrange(0, index)) <= units < utf16_units(text.subrange(0, index + 1)),
    ensures
        byte_of_unit(text, units) == utf8_units(text.subrange(0, index)),
        chars_within_units(text, units) == index,
{
    assert(text.subrange(0, index) =~= text.take(index));
    assert(text.subrange(0, index + 1) =~= text.take(index + 1));
    lemma_chars_within_units_unique(text, units, index);
}

} // verus!
