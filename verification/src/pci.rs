//! The number of a graphics device, as it is written in the environment.
use crate::text;
use vstd::prelude::*;
use vstd::string::*;

verus! {

/// The text is not the number of a device: four hexadecimal digits, with `0x` in front or not.
#[derive(Clone, Copy, Debug, PartialEq, Eq, Structural)]
pub struct PciIdError;

/// Whether a character is a hexadecimal digit.
pub open spec fn is_hex(c: char) -> bool {
    ('0' <= c && c <= '9') || ('a' <= c && c <= 'f') || ('A' <= c && c <= 'F')
}

/// The value of a hexadecimal digit.
pub open spec fn hex_value(c: char) -> nat {
    if '0' <= c && c <= '9' {
        (c as u32 - '0' as u32) as nat
    } else if 'a' <= c && c <= 'f' {
        (c as u32 - 'a' as u32 + 10) as nat
    } else {
        (c as u32 - 'A' as u32 + 10) as nat
    }
}

/// A text without the white space around it, and without one prefix of hexadecimal numbers.
pub open spec fn bare_id(id: Seq<char>) -> Seq<char> {
    let trimmed = text::trimmed(id);
    if trimmed.len() >= 2 && trimmed[0] == '0' && (trimmed[1] == 'x' || trimmed[1] == 'X') {
        trimmed.skip(2)
    } else {
        trimmed
    }
}

/// The number that a text stands for, if it is one.
pub open spec fn pci_id(id: Seq<char>) -> Option<nat> {
    let bare = bare_id(id);
    if bare.len() == 4 && is_hex(bare[0]) && is_hex(bare[1]) && is_hex(bare[2]) && is_hex(bare[3]) {
        Some(
            hex_value(bare[0]) * 4096 + hex_value(bare[1]) * 256 + hex_value(bare[2]) * 16
                + hex_value(bare[3]),
        )
    } else {
        None
    }
}

/// Reads a hexadecimal digit.
fn hex_digit(c: char) -> (value: Option<u32>)
    ensures
        match value {
            Some(digit) => is_hex(c) && digit == hex_value(c) && digit < 16,
            None => !is_hex(c),
        },
{
    if '0' <= c && c <= '9' {
        Some(c as u32 - 48)
    } else if 'a' <= c && c <= 'f' {
        Some(c as u32 - 87)
    } else if 'A' <= c && c <= 'F' {
        Some(c as u32 - 55)
    } else {
        None
    }
}

/// Reads the number of a device.
pub fn parse_pci_id(id: &str) -> (parsed: Result<u32, PciIdError>)
    ensures
        match parsed {
            Ok(value) => pci_id(id@) == Some(value as nat),
            Err(_) => pci_id(id@) is None,
        },
{
    let all: Vec<char> = text::to_chars(id);
    assert(all@.skip(0) =~= all@);
    let trimmed: String = text::trim_from(&all, 0);
    let chars: Vec<char> = text::to_chars(trimmed.as_str());
    let start: usize = if chars.len() >= 2 && chars[0] == '0' && (chars[1] == 'x' || chars[1]
        == 'X') {
        2
    } else {
        0
    };
    let ghost bare = bare_id(id@);
    assert(chars@.skip(start as int) =~= bare);
    if chars.len() - start != 4 {
        return Err(PciIdError);
    }
    assert(forall|i: int| 0 <= i < 4 ==> bare[i] == chars@[start + i]);
    match (
        hex_digit(chars[start]),
        hex_digit(chars[start + 1]),
        hex_digit(chars[start + 2]),
        hex_digit(chars[start + 3]),
    ) {
        (Some(a), Some(b), Some(c), Some(d)) => Ok(a * 4096 + b * 256 + c * 16 + d),
        _ => Err(PciIdError),
    }
}

/// The device to ask for: the one in the environment, or zero to let the system choose.
pub fn forced_device_id(value: Option<&str>) -> (device_id: u32)
    ensures
        device_id == match value {
            Some(id) => match pci_id(id@) {
                Some(number) => number as u32,
                None => 0,
            },
            None => 0,
        },
{
    match value {
        Some(id) => match parse_pci_id(id) {
            Ok(number) => number,
            Err(_) => 0,
        },
        None => 0,
    }
}

/// A hexadecimal digit counts the same in either case.
pub proof fn digits_ignore_case(small: char, capital: char)
    requires
        'a' <= small && small <= 'f',
        capital as u32 + 32 == small as u32,
    ensures
        is_hex(capital),
        hex_value(capital) == hex_value(small),
{
}

/// The digits from zero to nine count as themselves and the letters from ten on, and nothing else is
/// a digit.
pub proof fn digits_count_from_zero_to_fifteen(c: char)
    ensures
        is_hex(c) ==> hex_value(c) < 16,
        0x30 <= c as u32 <= 0x39 ==> is_hex(c) && hex_value(c) == c as u32 - 0x30,
        0x61 <= c as u32 <= 0x66 ==> is_hex(c) && hex_value(c) == c as u32 - 0x61 + 10,
        0x41 <= c as u32 <= 0x46 ==> is_hex(c) && hex_value(c) == c as u32 - 0x41 + 10,
        is_hex(c) ==> 0x30 <= c as u32 <= 0x39 || 0x61 <= c as u32 <= 0x66 || 0x41 <= c as u32
            <= 0x46,
{
}

/// Four digits make a number in which each counts sixteen times the next, with a prefix in front or
/// not and whatever white space around. Any other count of digits, or a character that is none, makes
/// no number.
pub proof fn four_digits_make_a_number(front: Seq<char>, digits: Seq<char>, back: Seq<char>)
    requires
        forall|i: int| 0 <= i < front.len() ==> text::is_white(#[trigger] front[i]),
        forall|i: int| 0 <= i < back.len() ==> text::is_white(#[trigger] back[i]),
        forall|i: int| 0 <= i < digits.len() ==> is_hex(#[trigger] digits[i]),
        digits.len() > 0,
    ensures
        digits.len() == 4 ==> {
            let value = 4096 * hex_value(digits[0]) + 256 * hex_value(digits[1]) + 16 * hex_value(
                digits[2],
            ) + hex_value(digits[3]);
            &&& pci_id(front + digits + back) == Some(value)
            &&& pci_id(front + (seq!['0', 'x'] + digits) + back) == Some(value)
            &&& pci_id(front + (seq!['0', 'X'] + digits) + back) == Some(value)
        },
        digits.len() != 4 ==> {
            &&& pci_id(front + digits + back) is None
            &&& pci_id(front + (seq!['0', 'x'] + digits) + back) is None
            &&& pci_id(front + (seq!['0', 'X'] + digits) + back) is None
        },
{
    lemma_white_is_trimmed(front, digits, back);
    lemma_white_is_trimmed(front, seq!['0', 'x'] + digits, back);
    lemma_white_is_trimmed(front, seq!['0', 'X'] + digits, back);
    if digits.len() >= 2 {
        assert(is_hex(digits[1]));
        assert(!is_hex('x') && !is_hex('X'));
    }
    assert((seq!['0', 'x'] + digits).skip(2) =~= digits);
    assert((seq!['0', 'X'] + digits).skip(2) =~= digits);
    assert(bare_id(front + digits + back) == digits);
    if digits.len() == 4 {
        assert(is_hex(digits[0]) && is_hex(digits[2]) && is_hex(digits[3]));
    }
}

proof fn lemma_white_is_trimmed(front: Seq<char>, kept: Seq<char>, back: Seq<char>)
    requires
        forall|i: int| 0 <= i < front.len() ==> text::is_white(#[trigger] front[i]),
        forall|i: int| 0 <= i < back.len() ==> text::is_white(#[trigger] back[i]),
        kept.len() > 0,
        !text::is_white(kept[0]),
        !text::is_white(kept[kept.len() - 1]),
    ensures
        text::trimmed(front + kept + back) == kept,
{
    let whole = front + kept + back;
    let (start, end) = text::trimming_takes_white_space_alone(whole);
    let first = front.len() as int;
    let last = first + kept.len() - 1;
    assert(whole[first] == kept[0]);
    assert(whole[last] == kept[kept.len() - 1]);
    if start < first {
        assert(whole[start] == front[start]);
    }
    if end > last + 1 {
        assert(whole[end - 1] == back[end - 1 - (last + 1)]);
    }
    assert(whole.subrange(first, last + 1) =~= kept);
}

/// A text in which any character of the number is no digit stands for no number.
pub proof fn other_characters_make_no_number(id: Seq<char>, i: int)
    requires
        0 <= i < bare_id(id).len(),
        !is_hex(bare_id(id)[i]),
    ensures
        pci_id(id) is None,
{
}

} // verus!
