//! Hardware keyboard input on iOS: HID key codes, modifier flags and key commands.
use crate::platform_input::{KeyDownEvent, KeyUpEvent, Keystroke, Modifiers, PlatformInput};
use crate::text;
use crate::utf16;
use vstd::prelude::*;
use vstd::string::*;

verus! {

/// Raw `UIKeyModifierFlags` bits, shared by presses and key commands.
pub const UI_KEY_MODIFIER_SHIFT: u32 = 0x2_0000;

pub const UI_KEY_MODIFIER_CONTROL: u32 = 0x4_0000;

pub const UI_KEY_MODIFIER_ALTERNATE: u32 = 0x8_0000;

pub const UI_KEY_MODIFIER_COMMAND: u32 = 0x10_0000;

pub const KEY_CODE_TAB: u32 = 0x2B;

pub const KEY_CODE_RIGHT_ARROW: u32 = 0x4F;

pub const KEY_CODE_LEFT_ARROW: u32 = 0x50;

pub const KEY_CODE_DOWN_ARROW: u32 = 0x51;

pub const KEY_CODE_UP_ARROW: u32 = 0x52;

pub const KEY_CODE_V: u32 = 0x19;

/// The names of the keys that type nothing or a mark, each with its HID code.
pub open spec fn special_key_name(code: u32) -> Option<Seq<char>> {
    if code == 0x28 {
        Some("enter"@)
    } else if code == 0x29 {
        Some("escape"@)
    } else if code == 0x2A {
        Some("backspace"@)
    } else if code == 0x2B {
        Some("tab"@)
    } else if code == 0x2C {
        Some(" "@)
    } else if code == 0x2D {
        Some("-"@)
    } else if code == 0x2E {
        Some("="@)
    } else if code == 0x2F {
        Some("["@)
    } else if code == 0x30 {
        Some("]"@)
    } else if code == 0x31 {
        Some("\\"@)
    } else if code == 0x33 {
        Some(";"@)
    } else if code == 0x34 {
        Some("'"@)
    } else if code == 0x35 {
        Some("`"@)
    } else if code == 0x36 {
        Some(","@)
    } else if code == 0x37 {
        Some("."@)
    } else if code == 0x38 {
        Some("/"@)
    } else if code == 0x49 {
        Some("insert"@)
    } else if code == 0x4A {
        Some("home"@)
    } else if code == 0x4B {
        Some("pageup"@)
    } else if code == 0x4C {
        Some("delete"@)
    } else if code == 0x4D {
        Some("end"@)
    } else if code == 0x4E {
        Some("pagedown"@)
    } else if code == 0x4F {
        Some("right"@)
    } else if code == 0x50 {
        Some("left"@)
    } else if code == 0x51 {
        Some("down"@)
    } else if code == 0x52 {
        Some("up"@)
    } else {
        None
    }
}

/// Hexadecimal digits, at least two of them.
pub open spec fn hex_pair(value: nat) -> Seq<char> {
    if value < 16 {
        seq!['0'] + text::digits(value, 16)
    } else {
        text::digits(value, 16)
    }
}

/// The name of the key with an HID code: letters, then the digits from one to zero, the function
/// keys, the special keys, and a hexadecimal name for any other.
pub open spec fn key_name(code: u32) -> Seq<char> {
    if 0x04 <= code <= 0x1D {
        seq![('a' as u32 + (code - 0x04)) as char]
    } else if 0x1E <= code <= 0x26 {
        text::decimal((code - 0x1D) as nat)
    } else if code == 0x27 {
        text::decimal(0)
    } else if 0x3A <= code <= 0x45 {
        "f"@ + text::decimal((code - 0x39) as nat)
    } else {
        match special_key_name(code) {
            Some(name) => name,
            None => "unknown-"@ + hex_pair(code as nat),
        }
    }
}

/// The name of a special key.
fn special_key(code: u32) -> (name: Option<String>)
    ensures
        name is Some == special_key_name(code) is Some,
        name matches Some(name) ==> name@ == special_key_name(code)->0,
{
    let name: &str = match code {
        0x28 => "enter",
        0x29 => "escape",
        0x2A => "backspace",
        0x2B => "tab",
        0x2C => " ",
        0x2D => "-",
        0x2E => "=",
        0x2F => "[",
        0x30 => "]",
        0x31 => "\\",
        0x33 => ";",
        0x34 => "'",
        0x35 => "`",
        0x36 => ",",
        0x37 => ".",
        0x38 => "/",
        0x49 => "insert",
        0x4A => "home",
        0x4B => "pageup",
        0x4C => "delete",
        0x4D => "end",
        0x4E => "pagedown",
        0x4F => "right",
        0x50 => "left",
        0x51 => "down",
        0x52 => "up",
        _ => {
            return None;
        },
    };
    Some(name.to_owned())
}

/// Convert a key code from UIKeyboardHIDUsage to a key string.
///
/// UIKeyboardHIDUsage values are based on the USB HID specification.
pub fn key_code_to_string(code: u32) -> (name: String)
    ensures
        name@ == key_name(code),
{
    let mut name: String = String::new();
    if 0x04 <= code && code <= 0x1D {
        name.push((97u8 + (code - 0x04) as u8) as char);
        assert(name@ =~= key_name(code));
    } else if 0x1E <= code && code <= 0x26 {
        text::push_decimal(&mut name, (code - 0x1D) as u64);
        assert(name@ =~= key_name(code));
    } else if code == 0x27 {
        text::push_decimal(&mut name, 0);
        assert(name@ =~= key_name(code));
    } else if 0x3A <= code && code <= 0x45 {
        name.append("f");
        text::push_decimal(&mut name, (code - 0x39) as u64);
        assert(name@ =~= key_name(code));
    } else {
        match special_key(code) {
            Some(special) => {
                return special;
            },
            None => {
                name.append("unknown-");
                if code < 16 {
                    name.push('0');
                }
                text::push_digits(&mut name, code as u128, 16);
                assert(name@ =~= key_name(code));
            },
        }
    }
    name
}

/// Convert UIKeyModifierFlags to modifiers. Caps lock, the number pad and the function key are not
/// reported.
pub fn modifier_flags_to_modifiers(flags: u32) -> (modifiers: Modifiers)
    ensures
        modifiers == flag_modifiers(flags),
{
    Modifiers {
        control: flags & UI_KEY_MODIFIER_CONTROL != 0,
        alt: flags & UI_KEY_MODIFIER_ALTERNATE != 0,
        shift: flags & UI_KEY_MODIFIER_SHIFT != 0,
        platform: flags & UI_KEY_MODIFIER_COMMAND != 0,
        function: false,
    }
}

/// The modifiers that flags stand for.
pub open spec fn flag_modifiers(flags: u32) -> Modifiers {
    Modifiers {
        control: flags & UI_KEY_MODIFIER_CONTROL != 0,
        alt: flags & UI_KEY_MODIFIER_ALTERNATE != 0,
        shift: flags & UI_KEY_MODIFIER_SHIFT != 0,
        platform: flags & UI_KEY_MODIFIER_COMMAND != 0,
        function: false,
    }
}

/// Create a key down event from a character.
pub fn character_to_key_down(c: char) -> (event: PlatformInput)
    ensures
        event matches PlatformInput::KeyDown(down) && {
            &&& down.keystroke.modifiers == Modifiers::none()
            &&& down.keystroke.key@ == seq![c]
            &&& down.keystroke.key_char is Some
            &&& down.keystroke.key_char->0@ == seq![c]
            &&& !down.is_held
            &&& down.prefer_character_input
        },
{
    let mut key: String = String::new();
    key.push(c);
    assert(key@ =~= seq![c]);
    let keystroke = Keystroke {
        modifiers: Modifiers::default(),
        key_char: Some(key.clone()),
        key,
    };
    PlatformInput::KeyDown(
        KeyDownEvent { keystroke, is_held: false, prefer_character_input: true },
    )
}

/// Create a backspace key down event.
pub fn backspace_key_down() -> (event: PlatformInput)
    ensures
        event matches PlatformInput::KeyDown(down) && {
            &&& down.keystroke.modifiers == Modifiers::none()
            &&& down.keystroke.key@ == "backspace"@
            &&& down.keystroke.key_char is None
            &&& !down.is_held
            &&& !down.prefer_character_input
        },
{
    let keystroke = Keystroke {
        modifiers: Modifiers::default(),
        key: "backspace".to_owned(),
        key_char: None,
    };
    PlatformInput::KeyDown(
        KeyDownEvent { keystroke, is_held: false, prefer_character_input: false },
    )
}

/// Whether a keystroke is that of an HID code with modifier flags: it types its own name where that
/// is a single byte.
pub open spec fn is_code_keystroke(keystroke: Keystroke, key_code: u32, modifier_flags: u32) -> bool {
    &&& keystroke.modifiers == flag_modifiers(modifier_flags)
    &&& keystroke.key@ == key_name(key_code)
    &&& keystroke.key_char is Some <==> utf16::utf8_units(key_name(key_code)) == 1
    &&& keystroke.key_char matches Some(typed) ==> typed@ == key_name(key_code)
}

/// The keystroke of an HID code with modifier flags.
fn code_keystroke(key_code: u32, modifier_flags: u32) -> (keystroke: Keystroke)
    ensures
        is_code_keystroke(keystroke, key_code, modifier_flags),
{
    let modifiers = modifier_flags_to_modifiers(modifier_flags);
    let key: String = key_code_to_string(key_code);
    let key_char: Option<String> = if utf16::byte_len(key.as_str()) == 1 {
        Some(key.clone())
    } else {
        None
    };
    Keystroke { modifiers, key, key_char }
}

/// Create a key down event from a key code and modifiers.
pub fn key_code_to_key_down(key_code: u32, modifier_flags: u32) -> (event: PlatformInput)
    ensures
        event matches PlatformInput::KeyDown(down) && {
            &&& is_code_keystroke(down.keystroke, key_code, modifier_flags)
            &&& !down.is_held
            &&& !down.prefer_character_input
        },
{
    PlatformInput::KeyDown(
        KeyDownEvent {
            keystroke: code_keystroke(key_code, modifier_flags),
            is_held: false,
            prefer_character_input: false,
        },
    )
}

/// Create a key up event from a key code and modifiers.
pub fn key_code_to_key_up(key_code: u32, modifier_flags: u32) -> (event: PlatformInput)
    ensures
        event matches PlatformInput::KeyUp(up) && is_code_keystroke(
            up.keystroke,
            key_code,
            modifier_flags,
        ),
{
    PlatformInput::KeyUp(KeyUpEvent { keystroke: code_keystroke(key_code, modifier_flags) })
}

/// The event for a key that goes down or comes up.
pub fn key_event(key_code: u32, modifier_flags: u32, is_key_down: bool) -> (event: PlatformInput)
    ensures
        is_key_down ==> event is KeyDown && is_code_keystroke(
            event->KeyDown_0.keystroke,
            key_code,
            modifier_flags,
        ) && !event->KeyDown_0.is_held && !event->KeyDown_0.prefer_character_input,
        !is_key_down ==> event is KeyUp && is_code_keystroke(
            event->KeyUp_0.keystroke,
            key_code,
            modifier_flags,
        ),
{
    if is_key_down {
        key_code_to_key_down(key_code, modifier_flags)
    } else {
        key_code_to_key_up(key_code, modifier_flags)
    }
}

/// Whether a key types no text: escape, caps lock, the function keys, the keys above the arrows
/// except delete, the arrows, and the modifier keys.
pub open spec fn types_nothing(key_code: i64) -> bool {
    ||| key_code == 0x29
    ||| 0x39 <= key_code <= 0x4B
    ||| 0x4D <= key_code <= 0x52
    ||| 0x68 <= key_code <= 0x73
    ||| 0xE0 <= key_code <= 0xE7
}

/// Tests for keys that generate no inserted text. Only these are handled as presses.
pub fn is_non_printable_key(key_code: i64) -> (non_printable: bool)
    ensures
        non_printable == types_nothing(key_code),
{
    key_code == 0x29 || key_code == 0x39 || (0x3A <= key_code && key_code <= 0x45) || (0x46
        <= key_code && key_code <= 0x48) || key_code == 0x49 || key_code == 0x4A || key_code == 0x4B
        || key_code == 0x4D || key_code == 0x4E || (0x4F <= key_code && key_code <= 0x52) || (0x68
        <= key_code && key_code <= 0x73) || (0xE0 <= key_code && key_code <= 0xE7)
}

/// Decides whether a hardware press is handled as a key event.
///
/// With the software keyboard visible, deletions arrive as text input. Printable keys without an
/// action modifier arrive as inserted text, and handling them here too would type them twice.
pub fn handles_press(
    key_code: i64,
    modifier_flags: u32,
    software_keyboard_visible: bool,
) -> (handles: bool)
    ensures
        handles <==> {
            let modifiers = flag_modifiers(modifier_flags);
            &&& !(software_keyboard_visible && (key_code == 0x2A || key_code == 0x4C))
            &&& types_nothing(key_code) || modifiers.control || modifiers.alt || modifiers.platform
        },
{
    if (key_code == 0x2A || key_code == 0x4C) && software_keyboard_visible {
        return false;
    }
    let modifiers = modifier_flags_to_modifiers(modifier_flags);
    let has_action_modifier: bool = modifiers.control || modifiers.alt || modifiers.platform;
    has_action_modifier || is_non_printable_key(key_code)
}

/// The input of a key command.
#[derive(Clone, Copy, Debug, PartialEq, Eq, Structural)]
pub enum KeyCommandInput {
    UpArrow,
    DownArrow,
    LeftArrow,
    RightArrow,
    Tab,
    LetterV,
}

/// A key that is claimed before the system's own text navigation sees it.
#[derive(Clone, Copy, Debug, PartialEq, Eq, Structural)]
pub struct KeyCommand {
    pub input: KeyCommandInput,
    pub modifier_flags: u32,
}

/// Map the input of a key command back to its HID code.
pub fn key_command_key_code(input: KeyCommandInput) -> (code: u32)
    ensures
        code == match input {
            KeyCommandInput::UpArrow => KEY_CODE_UP_ARROW,
            KeyCommandInput::DownArrow => KEY_CODE_DOWN_ARROW,
            KeyCommandInput::LeftArrow => KEY_CODE_LEFT_ARROW,
            KeyCommandInput::RightArrow => KEY_CODE_RIGHT_ARROW,
            KeyCommandInput::Tab => KEY_CODE_TAB,
            KeyCommandInput::LetterV => KEY_CODE_V,
        },
{
    match input {
        KeyCommandInput::UpArrow => KEY_CODE_UP_ARROW,
        KeyCommandInput::DownArrow => KEY_CODE_DOWN_ARROW,
        KeyCommandInput::LeftArrow => KEY_CODE_LEFT_ARROW,
        KeyCommandInput::RightArrow => KEY_CODE_RIGHT_ARROW,
        KeyCommandInput::Tab => KEY_CODE_TAB,
        KeyCommandInput::LetterV => KEY_CODE_V,
    }
}

/// The modifier sets claimed along with an arrow: any of shift, control and option. An arrow with
/// the command key is left to the system.
pub open spec fn arrow_commands(input: KeyCommandInput) -> Seq<KeyCommand> {
    seq![
        KeyCommand { input, modifier_flags: 0 },
        KeyCommand { input, modifier_flags: UI_KEY_MODIFIER_SHIFT },
        KeyCommand { input, modifier_flags: UI_KEY_MODIFIER_CONTROL },
        KeyCommand { input, modifier_flags: UI_KEY_MODIFIER_ALTERNATE },
        KeyCommand { input, modifier_flags: UI_KEY_MODIFIER_SHIFT | UI_KEY_MODIFIER_CONTROL },
        KeyCommand { input, modifier_flags: UI_KEY_MODIFIER_SHIFT | UI_KEY_MODIFIER_ALTERNATE },
        KeyCommand { input, modifier_flags: UI_KEY_MODIFIER_CONTROL | UI_KEY_MODIFIER_ALTERNATE },
        KeyCommand {
            input,
            modifier_flags: UI_KEY_MODIFIER_SHIFT | UI_KEY_MODIFIER_CONTROL
                | UI_KEY_MODIFIER_ALTERNATE,
        },
    ]
}

/// The keys that are claimed: arrows, tab with and without shift, and paste.
pub open spec fn claimed_commands() -> Seq<KeyCommand> {
    arrow_commands(KeyCommandInput::UpArrow) + arrow_commands(KeyCommandInput::DownArrow)
        + arrow_commands(KeyCommandInput::LeftArrow) + arrow_commands(KeyCommandInput::RightArrow)
        + seq![
        KeyCommand { input: KeyCommandInput::Tab, modifier_flags: 0 },
        KeyCommand { input: KeyCommandInput::Tab, modifier_flags: UI_KEY_MODIFIER_SHIFT },
        KeyCommand { input: KeyCommandInput::LetterV, modifier_flags: UI_KEY_MODIFIER_COMMAND },
    ]
}

/// Appends the commands that claim one arrow.
fn push_arrow_commands(commands: &mut Vec<KeyCommand>, input: KeyCommandInput)
    ensures
        final(commands)@ == old(commands)@ + arrow_commands(input),
{
    commands.push(KeyCommand { input, modifier_flags: 0 });
    commands.push(KeyCommand { input, modifier_flags: UI_KEY_MODIFIER_SHIFT });
    commands.push(KeyCommand { input, modifier_flags: UI_KEY_MODIFIER_CONTROL });
    commands.push(KeyCommand { input, modifier_flags: UI_KEY_MODIFIER_ALTERNATE });
    commands.push(
        KeyCommand { input, modifier_flags: UI_KEY_MODIFIER_SHIFT | UI_KEY_MODIFIER_CONTROL },
    );
    commands.push(
        KeyCommand { input, modifier_flags: UI_KEY_MODIFIER_SHIFT | UI_KEY_MODIFIER_ALTERNATE },
    );
    commands.push(
        KeyCommand { input, modifier_flags: UI_KEY_MODIFIER_CONTROL | UI_KEY_MODIFIER_ALTERNATE },
    );
    commands.push(
        KeyCommand {
            input,
            modifier_flags: UI_KEY_MODIFIER_SHIFT | UI_KEY_MODIFIER_CONTROL
                | UI_KEY_MODIFIER_ALTERNATE,
        },
    );
    assert(commands@ =~= old(commands)@ + arrow_commands(input));
}

/// Lists the keys that the system's text navigation would otherwise consume before they arrive as
/// presses.
pub fn build_key_commands() -> (commands: Vec<KeyCommand>)
    ensures
        commands@ == claimed_commands(),
{
    let mut commands: Vec<KeyCommand> = Vec::new();
    push_arrow_commands(&mut commands, KeyCommandInput::UpArrow);
    push_arrow_commands(&mut commands, KeyCommandInput::DownArrow);
    push_arrow_commands(&mut commands, KeyCommandInput::LeftArrow);
    push_arrow_commands(&mut commands, KeyCommandInput::RightArrow);
    commands.push(KeyCommand { input: KeyCommandInput::Tab, modifier_flags: 0 });
    commands.push(
        KeyCommand { input: KeyCommandInput::Tab, modifier_flags: UI_KEY_MODIFIER_SHIFT },
    );
    commands.push(
        KeyCommand { input: KeyCommandInput::LetterV, modifier_flags: UI_KEY_MODIFIER_COMMAND },
    );
    assert(commands@ =~= claimed_commands());
    commands
}

/// Every letter and digit key types the one character it is named by.
pub proof fn letters_and_digits_type_themselves(code: u32)
    requires
        0x04 <= code <= 0x27,
    ensures
        key_name(code).len() == 1,
        utf16::utf8_units(key_name(code)) == 1,
{
    let name = key_name(code);
    if code > 0x1D {
        assert(name =~= seq![text::digit(if code == 0x27 { 0 } else { (code - 0x1D) as nat })]);
    }
    assert(name.drop_last() =~= Seq::<char>::empty());
    reveal_with_fuel(utf16::utf8_units, 2);
}

/// The number that decimal or hexadecimal digits stand for.
spec fn digit_value(c: char) -> int {
    if c as u32 >= 'a' as u32 {
        c as u32 - 'a' as u32 + 10
    } else {
        c as u32 - '0' as u32
    }
}

/// The number that digits in a base stand for.
spec fn digits_value(digits: Seq<char>, base: int) -> int
    decreases digits.len(),
{
    if digits.len() == 0 {
        0
    } else {
        digits_value(digits.drop_last(), base) * base + digit_value(digits.last())
    }
}

proof fn lemma_digits_value(value: nat, base: nat)
    requires
        base == 10 || base == 16,
    ensures
        digits_value(text::digits(value, base), base as int) == value,
        text::digits(value, base).len() >= 1,
        value >= base ==> text::digits(value, base).len() >= 2,
    decreases value,
{
    let written = text::digits(value, base);
    if value < base {
        assert(written.drop_last() =~= Seq::<char>::empty());
        assert(digits_value(Seq::<char>::empty(), base as int) == 0);
    } else {
        lemma_digits_value(value / base, base);
        assert(written.drop_last() =~= text::digits(value / base, base));
        assert(written.last() == text::digit(value % base));
    }
}

proof fn lemma_leading_zero(value: nat)
    requires
        value < 16,
    ensures
        digits_value(seq!['0'] + text::digits(value, 16), 16) == value,
{
    let pair = seq!['0'] + text::digits(value, 16);
    assert(pair.drop_last() =~= seq!['0']);
    assert(seq!['0'].drop_last() =~= Seq::<char>::empty());
    reveal_with_fuel(digits_value, 3);
}

/// Whether a character is a small letter or a digit.
spec fn is_letter_or_digit(c: char) -> bool {
    'a' as u32 <= c as u32 <= 'z' as u32 || '0' as u32 <= c as u32 <= '9' as u32
}

/// The code of the special key whose name has a length and a first character.
spec fn special_code(len: nat, first: char) -> u32 {
    if len == 5 && first == 'e' {
        0x28
    } else if len == 6 && first == 'e' {
        0x29
    } else if len == 9 && first == 'b' {
        0x2A
    } else if len == 3 && first == 't' {
        0x2B
    } else if len == 1 && first == ' ' {
        0x2C
    } else if len == 1 && first == '-' {
        0x2D
    } else if len == 1 && first == '=' {
        0x2E
    } else if len == 1 && first == '[' {
        0x2F
    } else if len == 1 && first == ']' {
        0x30
    } else if len == 1 && first == '\\' {
        0x31
    } else if len == 1 && first == ';' {
        0x33
    } else if len == 1 && first == '\'' {
        0x34
    } else if len == 1 && first == '`' {
        0x35
    } else if len == 1 && first == ',' {
        0x36
    } else if len == 1 && first == '.' {
        0x37
    } else if len == 1 && first == '/' {
        0x38
    } else if len == 6 && first == 'i' {
        0x49
    } else if len == 4 && first == 'h' {
        0x4A
    } else if len == 6 && first == 'p' {
        0x4B
    } else if len == 6 && first == 'd' {
        0x4C
    } else if len == 3 && first == 'e' {
        0x4D
    } else if len == 8 && first == 'p' {
        0x4E
    } else if len == 5 && first == 'r' {
        0x4F
    } else if len == 4 && first == 'l' {
        0x50
    } else if len == 4 && first == 'd' {
        0x51
    } else if len == 2 && first == 'u' {
        0x52
    } else {
        0
    }
}

proof fn lemma_special_names(code: u32)
    requires
        special_key_name(code) is Some,
    ensures
        special_key_name(code)->0.len() >= 1,
        special_key_name(code)->0.len() < 10,
        special_code(special_key_name(code)->0.len(), special_key_name(code)->0[0]) == code,
        special_key_name(code)->0.len() > 1 ==> special_key_name(code)->0[0] != 'f',
        special_key_name(code)->0.len() == 1 ==> !is_letter_or_digit(
            special_key_name(code)->0[0],
        ),
{
    reveal_strlit("enter");
    reveal_strlit("escape");
    reveal_strlit("backspace");
    reveal_strlit("tab");
    reveal_strlit(" ");
    reveal_strlit("-");
    reveal_strlit("=");
    reveal_strlit("[");
    reveal_strlit("]");
    reveal_strlit("\\");
    reveal_strlit(";");
    reveal_strlit("'");
    reveal_strlit("`");
    reveal_strlit(",");
    reveal_strlit(".");
    reveal_strlit("/");
    reveal_strlit("insert");
    reveal_strlit("home");
    reveal_strlit("pageup");
    reveal_strlit("delete");
    reveal_strlit("end");
    reveal_strlit("pagedown");
    reveal_strlit("right");
    reveal_strlit("left");
    reveal_strlit("down");
    reveal_strlit("up");
}

/// What tells a key name apart: its length, its first character, and the number that its digits stand
/// for where it ends in digits.
proof fn lemma_key_name_shape(code: u32)
    ensures
        key_name(code).len() >= 1,
        0x04 <= code <= 0x1D ==> key_name(code).len() == 1 && key_name(code)[0] as u32 == 'a' as u32
            + (code - 0x04),
        0x1E <= code <= 0x26 ==> key_name(code).len() == 1 && key_name(code)[0] as u32 == '0' as u32
            + (code - 0x1D),
        code == 0x27 ==> key_name(code).len() == 1 && key_name(code)[0] == '0',
        0x3A <= code <= 0x45 ==> key_name(code).len() >= 2 && key_name(code)[0] == 'f'
            && digits_value(key_name(code).skip(1), 10) == code - 0x39,
        is_unnamed(code) ==> key_name(code).len() >= 10 && key_name(code)[0] == 'u' && digits_value(
            key_name(code).skip(8),
            16,
        ) == code,
{
    let name = key_name(code);
    reveal_strlit("f");
    reveal_strlit("unknown-");
    if 0x3A <= code <= 0x45 {
        lemma_digits_value((code - 0x39) as nat, 10);
        assert(name.skip(1) =~= text::decimal((code - 0x39) as nat));
    } else if is_unnamed(code) {
        lemma_digits_value(code as nat, 16);
        if code < 16 {
            lemma_leading_zero(code as nat);
        }
        assert(name.skip(8) =~= hex_pair(code as nat));
    } else if special_key_name(code) is Some {
        lemma_special_names(code);
    }
}

/// Whether a key has no name of its own.
pub open spec fn is_unnamed(code: u32) -> bool {
    !(0x04 <= code <= 0x27) && !(0x3A <= code <= 0x45) && special_key_name(code) is None
}

/// Different keys have different names, also those without a name of their own, and no name is empty.
pub proof fn key_names_differ(a: u32, b: u32)
    requires
        a != b,
    ensures
        key_name(a) != key_name(b),
        key_name(a).len() > 0,
{
    lemma_key_name_shape(a);
    lemma_key_name_shape(b);
    if special_key_name(a) is Some {
        lemma_special_names(a);
    }
    if special_key_name(b) is Some {
        lemma_special_names(b);
    }
}

/// Each flag stands for one modifier key, and no flag for the function key.
pub proof fn flags_stand_for_modifiers(flags: u32)
    ensures
        flag_modifiers(flags).shift <==> flags & 0x2_0000 != 0,
        flag_modifiers(flags).control <==> flags & 0x4_0000 != 0,
        flag_modifiers(flags).alt <==> flags & 0x8_0000 != 0,
        flag_modifiers(flags).platform <==> flags & 0x10_0000 != 0,
        !flag_modifiers(flags).function,
{
}

/// The letter keys are named in the order of the alphabet, the digit keys from one to nine with zero
/// behind them, and the function keys by their number.
pub proof fn letters_digits_and_function_keys_are_named_in_order(code: u32)
    ensures
        0x04 <= code <= 0x1D ==> key_name(code).len() == 1 && key_name(code)[0] as u32 == 0x61 + (
        code - 0x04),
        0x1E <= code <= 0x26 ==> key_name(code).len() == 1 && key_name(code)[0] as u32 == 0x31 + (
        code - 0x1E),
        code == 0x27 ==> key_name(code).len() == 1 && key_name(code)[0] == '0',
        0x3A <= code <= 0x45 ==> key_name(code) == seq!['f'] + text::decimal((code - 0x39) as nat),
{
    lemma_key_name_shape(code);
    reveal_strlit("f");
    if 0x3A <= code <= 0x45 {
        assert(key_name(code) =~= seq!['f'] + text::decimal((code - 0x39) as nat));
    }
}

/// The keys with a name of their own are known by it, and no other key is.
pub proof fn special_keys_are_known_by_name(code: u32)
    ensures
        key_name(code) == "enter"@ <==> code == 0x28,
        key_name(code) == "escape"@ <==> code == 0x29,
        key_name(code) == "backspace"@ <==> code == 0x2A,
        key_name(code) == "tab"@ <==> code == 0x2B,
        key_name(code) == " "@ <==> code == 0x2C,
        key_name(code) == "-"@ <==> code == 0x2D,
        key_name(code) == "="@ <==> code == 0x2E,
        key_name(code) == "["@ <==> code == 0x2F,
        key_name(code) == "]"@ <==> code == 0x30,
        key_name(code) == "\\"@ <==> code == 0x31,
        key_name(code) == ";"@ <==> code == 0x33,
        key_name(code) == "'"@ <==> code == 0x34,
        key_name(code) == "`"@ <==> code == 0x35,
        key_name(code) == ","@ <==> code == 0x36,
        key_name(code) == "."@ <==> code == 0x37,
        key_name(code) == "/"@ <==> code == 0x38,
        key_name(code) == "insert"@ <==> code == 0x49,
        key_name(code) == "home"@ <==> code == 0x4A,
        key_name(code) == "pageup"@ <==> code == 0x4B,
        key_name(code) == "delete"@ <==> code == 0x4C,
        key_name(code) == "end"@ <==> code == 0x4D,
        key_name(code) == "pagedown"@ <==> code == 0x4E,
        key_name(code) == "right"@ <==> code == 0x4F,
        key_name(code) == "left"@ <==> code == 0x50,
        key_name(code) == "down"@ <==> code == 0x51,
        key_name(code) == "up"@ <==> code == 0x52,
{
    lemma_name_is_its_own(code, 0x28);
    lemma_name_is_its_own(code, 0x29);
    lemma_name_is_its_own(code, 0x2A);
    lemma_name_is_its_own(code, 0x2B);
    lemma_name_is_its_own(code, 0x2C);
    lemma_name_is_its_own(code, 0x2D);
    lemma_name_is_its_own(code, 0x2E);
    lemma_name_is_its_own(code, 0x2F);
    lemma_name_is_its_own(code, 0x30);
    lemma_name_is_its_own(code, 0x31);
    lemma_name_is_its_own(code, 0x33);
    lemma_name_is_its_own(code, 0x34);
    lemma_name_is_its_own(code, 0x35);
    lemma_name_is_its_own(code, 0x36);
    lemma_name_is_its_own(code, 0x37);
    lemma_name_is_its_own(code, 0x38);
    lemma_name_is_its_own(code, 0x49);
    lemma_name_is_its_own(code, 0x4A);
    lemma_name_is_its_own(code, 0x4B);
    lemma_name_is_its_own(code, 0x4C);
    lemma_name_is_its_own(code, 0x4D);
    lemma_name_is_its_own(code, 0x4E);
    lemma_name_is_its_own(code, 0x4F);
    lemma_name_is_its_own(code, 0x50);
    lemma_name_is_its_own(code, 0x51);
    lemma_name_is_its_own(code, 0x52);
}

proof fn lemma_name_is_its_own(code: u32, owner: u32)
    ensures
        key_name(code) == key_name(owner) <==> code == owner,
{
    if code != owner {
        key_names_differ(code, owner);
    }
}

/// A key without a name of its own is called unknown, with its code in at least two hexadecimal
/// digits.
pub proof fn unknown_keys_are_named_by_their_code(code: u32)
    requires
        is_unnamed(code),
    ensures
        code < 16 ==> key_name(code) == "unknown-0"@ + text::digits(code as nat, 16),
        code >= 16 ==> key_name(code) == "unknown-"@ + text::digits(code as nat, 16),
{
    reveal_strlit("unknown-");
    reveal_strlit("unknown-0");
    if code < 16 {
        assert(key_name(code) =~= "unknown-0"@ + text::digits(code as nat, 16));
    }
}

/// A key that goes through as a keystroke carries its name and modifiers, and types its name where that
/// is a single byte.
pub proof fn keystrokes_carry_their_key(keystroke: Keystroke, code: u32, flags: u32)
    requires
        is_code_keystroke(keystroke, code, flags),
    ensures
        keystroke.key@ == key_name(code),
        keystroke.modifiers.shift <==> flags & 0x2_0000 != 0,
        keystroke.modifiers.control <==> flags & 0x4_0000 != 0,
        keystroke.modifiers.alt <==> flags & 0x8_0000 != 0,
        keystroke.modifiers.platform <==> flags & 0x10_0000 != 0,
        0x04 <= code <= 0x27 ==> keystroke.key_char is Some && keystroke.key_char->0@
            == keystroke.key@,
        0x3A <= code <= 0x45 ==> keystroke.key_char is None,
{
    if 0x04 <= code <= 0x27 {
        letters_and_digits_type_themselves(code);
    }
    if 0x3A <= code <= 0x45 {
        lemma_key_name_shape(code);
        let name = key_name(code);
        utf16::lemma_char_starts_increase(name, 0, name.len() as int);
        assert(name.take(name.len() as int) =~= name);
    }
}

/// Letters, digits, marks, the space, enter, tab, backspace and delete type text; escape, the function
/// keys, the arrows and the modifier keys do not.
pub proof fn keys_type_text_or_act(key_code: i64)
    ensures
        0x04 <= key_code <= 0x28 || 0x2A <= key_code <= 0x38 || key_code == 0x4C ==> !types_nothing(
            key_code,
        ),
        key_code == 0x29 || 0x3A <= key_code <= 0x45 || 0x4F <= key_code <= 0x52 || 0xE0 <= key_code
            <= 0xE7 ==> types_nothing(key_code),
        key_code == 0x39 || 0x46 <= key_code <= 0x4B || key_code == 0x4D || key_code == 0x4E || 0x68
            <= key_code <= 0x73 ==> types_nothing(key_code),
        0x53 <= key_code <= 0x67 || 0x74 <= key_code <= 0xDF || key_code > 0xE7 || key_code < 0x29
            ==> !types_nothing(key_code),
{
}

/// An arrow is claimed with every set of shift, control and option, and with no other flag.
pub proof fn arrows_are_claimed_without_command(input: KeyCommandInput, flags: u32)
    ensures
        arrow_commands(input).contains(KeyCommand { input, modifier_flags: flags }) <==> flags & !(
        0xE_0000u32) == 0,
        forall|i: int|
            0 <= i < arrow_commands(input).len() ==> (#[trigger] arrow_commands(input)[i]).input
                == input,
{
    let commands = arrow_commands(input);
    assert(0x2_0000u32 | 0x4_0000u32 == 0x6_0000u32) by (bit_vector);
    assert(0x2_0000u32 | 0x8_0000u32 == 0xA_0000u32) by (bit_vector);
    assert(0x4_0000u32 | 0x8_0000u32 == 0xC_0000u32) by (bit_vector);
    assert(0x2_0000u32 | 0x4_0000u32 | 0x8_0000u32 == 0xE_0000u32) by (bit_vector);
    assert(flags & !(0xE_0000u32) == 0 <==> flags == 0 || flags == 0x2_0000u32 || flags
        == 0x4_0000u32 || flags == 0x8_0000u32 || flags == 0x6_0000u32 || flags == 0xA_0000u32
        || flags == 0xC_0000u32 || flags == 0xE_0000u32) by (bit_vector);
    assert(commands.len() == 8);
    assert(commands[0].modifier_flags == 0);
    assert(commands[1].modifier_flags == 0x2_0000);
    assert(commands[2].modifier_flags == 0x4_0000);
    assert(commands[3].modifier_flags == 0x8_0000);
    assert(commands[4].modifier_flags == 0x6_0000);
    assert(commands[5].modifier_flags == 0xA_0000);
    assert(commands[6].modifier_flags == 0xC_0000);
    assert(commands[7].modifier_flags == 0xE_0000);
    let wanted = KeyCommand { input, modifier_flags: flags };
    if flags & !(0xE_0000u32) == 0 {
        assert(commands[0] == wanted || commands[1] == wanted || commands[2] == wanted
            || commands[3] == wanted || commands[4] == wanted || commands[5] == wanted
            || commands[6] == wanted || commands[7] == wanted);
    }
}

/// The keys that are claimed are the four arrows, tab with and without shift, and the letter for
/// pasting with command, each with no other flags.
pub proof fn only_arrows_tab_and_paste_are_claimed(command: KeyCommand)
    ensures
        claimed_commands().contains(command) <==> match command.input {
            KeyCommandInput::Tab => command.modifier_flags == 0 || command.modifier_flags
                == 0x2_0000,
            KeyCommandInput::LetterV => command.modifier_flags == 0x10_0000,
            _ => command.modifier_flags & !(0xE_0000u32) == 0,
        },
{
    let up = arrow_commands(KeyCommandInput::UpArrow);
    let down = arrow_commands(KeyCommandInput::DownArrow);
    let left = arrow_commands(KeyCommandInput::LeftArrow);
    let right = arrow_commands(KeyCommandInput::RightArrow);
    let all = claimed_commands();
    arrows_are_claimed_without_command(KeyCommandInput::UpArrow, command.modifier_flags);
    arrows_are_claimed_without_command(KeyCommandInput::DownArrow, command.modifier_flags);
    arrows_are_claimed_without_command(KeyCommandInput::LeftArrow, command.modifier_flags);
    arrows_are_claimed_without_command(KeyCommandInput::RightArrow, command.modifier_flags);
    assert(up.len() == 8 && down.len() == 8 && left.len() == 8 && right.len() == 8);
    if all.contains(command) {
        let i = choose|i: int| 0 <= i < all.len() && all[i] == command;
        if i < 8 {
            assert(up[i] == command);
        } else if i < 16 {
            assert(down[i - 8] == command);
        } else if i < 24 {
            assert(left[i - 16] == command);
        } else if i < 32 {
            assert(right[i - 24] == command);
        }
    }
    if up.contains(command) {
        let i = choose|i: int| 0 <= i < 8 && up[i] == command;
        assert(all[i] == command);
    }
    if down.contains(command) {
        let i = choose|i: int| 0 <= i < 8 && down[i] == command;
        assert(all[i + 8] == command);
    }
    if left.contains(command) {
        let i = choose|i: int| 0 <= i < 8 && left[i] == command;
        assert(all[i + 16] == command);
    }
    if right.contains(command) {
        let i = choose|i: int| 0 <= i < 8 && right[i] == command;
        assert(all[i + 24] == command);
    }
    assert(all[32].input is Tab && all[32].modifier_flags == 0);
    assert(all[33].input is Tab && all[33].modifier_flags == 0x2_0000);
    assert(all[34].input is LetterV && all[34].modifier_flags == 0x10_0000);
    if command.input is Tab || command.input is LetterV {
        assert(command == all[32] || command == all[33] || command == all[34] || !all.contains(
            command,
        ));
    }
}

} // verus!
