//! Keys as Android reports them: which text they type, and which keystroke they are.
use crate::platform_input::{KeyDownEvent, Keystroke, Modifiers};
use crate::text;
use vstd::prelude::*;
use vstd::string::*;

verus! {

/// `char::from_u32` gives the character with that number, and nothing where there is none.
pub assume_specification[ char::from_u32 ](number: u32) -> (c: Option<char>)
    ensures
        match c {
            Some(found) => is_char_number(number) && found == number as char,
            None => !is_char_number(number),
        },
;

/// The lower case form of a character.
pub uninterp spec fn lowered_char(c: char) -> Seq<char>;

/// Calls `char::to_lowercase`. Trusted: the form depends on the character alone.
#[verifier::external_body]
fn lower_char(c: char) -> (lower: String)
    ensures
        lower@ == lowered_char(c),
{
    c.to_lowercase().to_string()
}

/// Whether a number is that of a character.
pub open spec fn is_char_number(number: u32) -> bool {
    number <= 0xD7FF || (0xE000 <= number && number <= 0x10FFFF)
}

pub const KEYCODE_DEL: i32 = 67;

pub const KEYCODE_FORWARD_DEL: i32 = 112;

pub const KEYCODE_ENTER: i32 = 66;

pub const KEYCODE_TAB: i32 = 61;

pub const KEYCODE_SPACE: i32 = 62;

pub const KEYCODE_ESCAPE: i32 = 111;

pub const KEYCODE_DPAD_UP: i32 = 19;

pub const KEYCODE_DPAD_DOWN: i32 = 20;

pub const KEYCODE_DPAD_LEFT: i32 = 21;

pub const KEYCODE_DPAD_RIGHT: i32 = 22;

/// What a key does to text.
#[derive(Debug, PartialEq, Eq)]
pub enum TextInputKey {
    /// Deletes this many characters before the caret.
    DeleteBackward(usize),
    Insert(String),
    /// Nothing: the key is no text.
    NotText,
}

/// The character that a report names, if it names one.
pub open spec fn typed_char(unicode: i32) -> Option<char> {
    if unicode > 0 && is_char_number(unicode as u32) {
        Some(unicode as char)
    } else {
        None
    }
}

/// Reads the character that a report names.
fn reported_char(unicode: i32) -> (c: Option<char>)
    ensures
        c == typed_char(unicode),
{
    if unicode > 0 {
        char::from_u32(unicode as u32)
    } else {
        None
    }
}

/// The text that a key inserts: a line break, a tab, or the character that it types.
pub open spec fn key_text(key_code: i32, unicode: i32) -> Option<Seq<char>> {
    if key_code == KEYCODE_ENTER {
        Some("\n"@)
    } else if key_code == KEYCODE_TAB {
        Some("\t"@)
    } else {
        match typed_char(unicode) {
            Some(c) => Some(seq![c]),
            None => None,
        }
    }
}

/// Tells what a key does to text.
pub fn dispatch_text_input_key(key_code: i32, unicode: i32) -> (key: TextInputKey)
    ensures
        match key {
            TextInputKey::DeleteBackward(count) => key_code == KEYCODE_DEL && count == 1,
            TextInputKey::Insert(inserted) => key_code != KEYCODE_DEL && key_text(key_code, unicode)
                == Some(inserted@),
            TextInputKey::NotText => key_code != KEYCODE_DEL && key_text(key_code, unicode) is None,
        },
{
    if key_code == KEYCODE_DEL {
        return TextInputKey::DeleteBackward(1);
    }
    if key_code == KEYCODE_ENTER {
        return TextInputKey::Insert("\n".to_owned());
    }
    if key_code == KEYCODE_TAB {
        return TextInputKey::Insert("\t".to_owned());
    }
    match reported_char(unicode) {
        Some(c) => {
            let mut inserted: String = String::new();
            inserted.push(c);
            assert(inserted@ =~= seq![c]);
            TextInputKey::Insert(inserted)
        },
        None => TextInputKey::NotText,
    }
}

/// The name of a key that has one of its own.
pub open spec fn special_key(key_code: i32) -> Option<Seq<char>> {
    if key_code == KEYCODE_DEL {
        Some("backspace"@)
    } else if key_code == KEYCODE_FORWARD_DEL {
        Some("delete"@)
    } else if key_code == KEYCODE_ENTER {
        Some("enter"@)
    } else if key_code == KEYCODE_TAB {
        Some("tab"@)
    } else if key_code == KEYCODE_SPACE {
        Some("space"@)
    } else if key_code == KEYCODE_ESCAPE {
        Some("escape"@)
    } else if key_code == KEYCODE_DPAD_UP {
        Some("up"@)
    } else if key_code == KEYCODE_DPAD_DOWN {
        Some("down"@)
    } else if key_code == KEYCODE_DPAD_LEFT {
        Some("left"@)
    } else if key_code == KEYCODE_DPAD_RIGHT {
        Some("right"@)
    } else {
        None
    }
}

/// The name of a key: its own, or the lower case form of the character that it types.
pub open spec fn key_name(key_code: i32, unicode: i32) -> Option<Seq<char>> {
    match special_key(key_code) {
        Some(name) => Some(name),
        None => match typed_char(unicode) {
            Some(c) => Some(lowered_char(c)),
            None => None,
        },
    }
}

/// Looks up the name of a key that has one of its own.
fn special_name(key_code: i32) -> (name: Option<&'static str>)
    ensures
        match name {
            Some(found) => special_key(key_code) == Some(found@),
            None => special_key(key_code) is None,
        },
{
    if key_code == KEYCODE_DEL {
        Some("backspace")
    } else if key_code == KEYCODE_FORWARD_DEL {
        Some("delete")
    } else if key_code == KEYCODE_ENTER {
        Some("enter")
    } else if key_code == KEYCODE_TAB {
        Some("tab")
    } else if key_code == KEYCODE_SPACE {
        Some("space")
    } else if key_code == KEYCODE_ESCAPE {
        Some("escape")
    } else if key_code == KEYCODE_DPAD_UP {
        Some("up")
    } else if key_code == KEYCODE_DPAD_DOWN {
        Some("down")
    } else if key_code == KEYCODE_DPAD_LEFT {
        Some("left")
    } else if key_code == KEYCODE_DPAD_RIGHT {
        Some("right")
    } else {
        None
    }
}

/// Turns a key into a keystroke. One that neither has a name nor types a character is none.
pub fn android_keycode_to_keystroke(key_code: i32, unicode: i32) -> (keystroke: Option<Keystroke>)
    ensures
        match keystroke {
            Some(stroke) => {
                &&& key_name(key_code, unicode) == Some(stroke.key@)
                &&& stroke.modifiers == Modifiers::none()
                &&& match typed_char(unicode) {
                    Some(c) => stroke.key_char is Some && stroke.key_char->0@ == seq![c],
                    None => stroke.key_char is None,
                }
            },
            None => key_name(key_code, unicode) is None,
        },
{
    let typed: Option<char> = reported_char(unicode);
    let key: String = match special_name(key_code) {
        Some(name) => name.to_owned(),
        None => match typed {
            Some(c) => lower_char(c),
            None => {
                return None;
            },
        },
    };
    let key_char: Option<String> = match typed {
        Some(c) => {
            let mut character: String = String::new();
            character.push(c);
            assert(character@ =~= seq![c]);
            Some(character)
        },
        None => None,
    };
    Some(Keystroke { modifiers: Modifiers::default(), key, key_char })
}

/// What to do about a report on a key.
#[derive(Debug, PartialEq, Eq)]
pub enum KeyReport {
    /// The key goes up: nothing to do.
    Ignore,
    /// Try the key on the text input, and if that does not take it, as a keystroke.
    Try(TextInputKey),
}

/// Decides about a report on a key: only keys that go down count.
pub fn key_report(action: i32, key_code: i32, unicode: i32) -> (report: KeyReport)
    ensures
        report is Ignore <==> action != 0,
        report matches KeyReport::Try(key) ==> match key {
            TextInputKey::DeleteBackward(count) => key_code == KEYCODE_DEL && count == 1,
            TextInputKey::Insert(inserted) => key_code != KEYCODE_DEL && key_text(key_code, unicode)
                == Some(inserted@),
            TextInputKey::NotText => key_code != KEYCODE_DEL && key_text(key_code, unicode) is None,
        },
{
    if action != 0 {
        return KeyReport::Ignore;
    }
    KeyReport::Try(dispatch_text_input_key(key_code, unicode))
}

/// Whether an event is that of a character that an input method typed.
pub open spec fn types_char(event: KeyDownEvent, c: char) -> bool {
    &&& event.keystroke.modifiers == Modifiers::none()
    &&& event.keystroke.key@ == lowered_char(c)
    &&& event.keystroke.key_char is Some
    &&& event.keystroke.key_char->0@ == seq![c]
    &&& !event.is_held
    &&& event.prefer_character_input
}

/// Turns text of an input method that no text input takes into one event for each character.
pub fn ime_key_events(typed: &str) -> (events: Vec<KeyDownEvent>)
    ensures
        events@.len() == typed@.len(),
        forall|i: int| 0 <= i < typed@.len() ==> types_char(#[trigger] events@[i], typed@[i]),
{
    let chars: Vec<char> = text::to_chars(typed);
    let mut events: Vec<KeyDownEvent> = Vec::new();
    let mut i: usize = 0;
    while i < chars.len()
        invariant
            chars@ == typed@,
            i <= chars@.len(),
            events@.len() == i,
            forall|k: int| 0 <= k < i ==> types_char(#[trigger] events@[k], typed@[k]),
        decreases chars@.len() - i,
    {
        let c: char = chars[i];
        let mut character: String = String::new();
        character.push(c);
        assert(character@ =~= seq![c]);
        let event = KeyDownEvent {
            keystroke: Keystroke {
                modifiers: Modifiers::default(),
                key: lower_char(c),
                key_char: Some(character),
            },
            is_held: false,
            prefer_character_input: true,
        };
        assert(types_char(event, c));
        events.push(event);
        i = i + 1;
    }
    events
}

/// A key that inserts text is a keystroke too, for the case that no text input takes it.
pub proof fn text_keys_are_keystrokes(key_code: i32, unicode: i32)
    requires
        key_text(key_code, unicode) is Some,
    ensures
        key_name(key_code, unicode) is Some,
{
}

/// A report names the character with its number, and none where the number is not positive or stands
/// for none.
pub proof fn reports_name_characters_by_number(unicode: i32)
    ensures
        unicode <= 0 ==> typed_char(unicode) is None,
        0 < unicode <= 0xD7FF || 0xE000 <= unicode <= 0x10FFFF ==> typed_char(unicode) is Some
            && typed_char(unicode)->0 as u32 == unicode,
        0xD7FF < unicode < 0xE000 || unicode > 0x10FFFF ==> typed_char(unicode) is None,
{
}

/// The enter key inserts a line break and the tab key a tab, whatever character is reported with them.
/// Any other key inserts the character reported, and nothing without one.
pub proof fn keys_insert_what_they_type(key_code: i32, unicode: i32)
    ensures
        key_code == 66 ==> key_text(key_code, unicode) == Some(seq!['\n']),
        key_code == 61 ==> key_text(key_code, unicode) == Some(seq!['\t']),
        key_code != 66 && key_code != 61 && typed_char(unicode) is Some ==> key_text(
            key_code,
            unicode,
        ) == Some(seq![typed_char(unicode)->0]),
        key_code != 66 && key_code != 61 && typed_char(unicode) is None ==> key_text(
            key_code,
            unicode,
        ) is None,
{
    reveal_strlit("\n");
    reveal_strlit("\t");
    assert("\n"@ =~= seq!['\n']);
    assert("\t"@ =~= seq!['\t']);
}

/// Ten keys have names of their own, which they keep whatever character is reported with them. All
/// others are called by their character in lower case, or not at all.
pub proof fn keys_are_called_by_name_or_character(key_code: i32, unicode: i32)
    ensures
        key_code == 67 ==> key_name(key_code, unicode) == Some("backspace"@),
        key_code == 112 ==> key_name(key_code, unicode) == Some("delete"@),
        key_code == 66 ==> key_name(key_code, unicode) == Some("enter"@),
        key_code == 61 ==> key_name(key_code, unicode) == Some("tab"@),
        key_code == 62 ==> key_name(key_code, unicode) == Some("space"@),
        key_code == 111 ==> key_name(key_code, unicode) == Some("escape"@),
        key_code == 19 ==> key_name(key_code, unicode) == Some("up"@),
        key_code == 20 ==> key_name(key_code, unicode) == Some("down"@),
        key_code == 21 ==> key_name(key_code, unicode) == Some("left"@),
        key_code == 22 ==> key_name(key_code, unicode) == Some("right"@),
        key_code != 67 && key_code != 112 && key_code != 66 && key_code != 61 && key_code != 62
            && key_code != 111 && !(19 <= key_code <= 22) ==> {
            &&& typed_char(unicode) is Some ==> key_name(key_code, unicode) == Some(
                lowered_char(typed_char(unicode)->0),
            )
            &&& typed_char(unicode) is None ==> key_name(key_code, unicode) is None
        },
{
}

/// A character that an input method typed is a key that goes down once without modifiers, is called by
/// its lower case form and types the character itself.
pub proof fn typed_characters_are_keys(event: KeyDownEvent, c: char)
    requires
        types_char(event, c),
    ensures
        event.keystroke.key@ == lowered_char(c),
        event.keystroke.key_char matches Some(typed) && typed@.len() == 1 && typed@[0] == c,
        !event.keystroke.modifiers.shift,
        !event.keystroke.modifiers.control,
        !event.keystroke.modifiers.alt,
        !event.keystroke.modifiers.platform,
        !event.is_held,
        event.prefer_character_input,
{
}

} // verus!
