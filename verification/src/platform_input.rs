//! Input events as the platform hands them to a window.
use crate::geometry::Point;
use vstd::prelude::*;

verus! {

/// The modifier keys held down.
#[derive(Clone, Copy, Debug, PartialEq, Eq, Structural)]
pub struct Modifiers {
    pub control: bool,
    pub alt: bool,
    pub shift: bool,
    pub platform: bool,
    pub function: bool,
}

impl Modifiers {
    /// No modifier key is held down.
    pub open spec fn none() -> Modifiers {
        Modifiers { control: false, alt: false, shift: false, platform: false, function: false }
    }
}

impl Default for Modifiers {
    fn default() -> (modifiers: Self)
        ensures
            modifiers == Modifiers::none(),
    {
        Modifiers { control: false, alt: false, shift: false, platform: false, function: false }
    }
}

/// A pressed key and the character it types, if any.
#[derive(Debug, PartialEq, Eq)]
pub struct Keystroke {
    pub modifiers: Modifiers,
    pub key: String,
    pub key_char: Option<String>,
}

/// A key goes down.
#[derive(Debug, PartialEq, Eq)]
pub struct KeyDownEvent {
    pub keystroke: Keystroke,
    pub is_held: bool,
    pub prefer_character_input: bool,
}

/// A key comes up.
#[derive(Debug, PartialEq, Eq)]
pub struct KeyUpEvent {
    pub keystroke: Keystroke,
}

/// What kind of device a pointer is.
#[derive(Clone, Copy, Debug, PartialEq, Eq, Structural)]
pub enum PointerKind {
    Mouse,
    Touch,
}

/// A button of a pointer.
#[derive(Clone, Copy, Debug, PartialEq, Eq, Structural)]
pub enum PointerButton {
    Primary,
    Secondary,
}

/// A pointer is pressed.
#[derive(Clone, Copy, Debug, PartialEq, Eq, Structural)]
pub struct PointerDownEvent {
    pub pointer_id: u64,
    pub kind: PointerKind,
    pub is_primary: bool,
    pub button: PointerButton,
    pub position: Point,
    pub modifiers: Modifiers,
}

/// A pointer is released.
#[derive(Clone, Copy, Debug, PartialEq, Eq, Structural)]
pub struct PointerUpEvent {
    pub pointer_id: u64,
    pub kind: PointerKind,
    pub is_primary: bool,
    pub button: PointerButton,
    pub position: Point,
    pub modifiers: Modifiers,
}

/// A pointer moves.
#[derive(Clone, Copy, Debug, PartialEq, Eq, Structural)]
pub struct PointerMoveEvent {
    pub pointer_id: u64,
    pub kind: PointerKind,
    pub is_primary: bool,
    pub pressed_button: Option<PointerButton>,
    pub position: Point,
    pub modifiers: Modifiers,
}

/// A press ends without being completed.
#[derive(Clone, Copy, Debug, PartialEq, Eq, Structural)]
pub struct PointerCancelEvent {
    pub pointer_id: u64,
    pub kind: PointerKind,
    pub is_primary: bool,
    pub position: Point,
    pub modifiers: Modifiers,
}

/// Where a touch gesture stands.
#[derive(Clone, Copy, Debug, PartialEq, Eq, Structural)]
pub enum TouchPhase {
    Started,
    Moved,
    Ended,
}

/// Content is scrolled by an amount in pixels.
#[derive(Clone, Copy, Debug, PartialEq, Eq, Structural)]
pub struct ScrollWheelEvent {
    pub position: Point,
    pub delta: Point,
    pub modifiers: Modifiers,
    pub touch_phase: TouchPhase,
}

/// A button of a mouse.
#[derive(Clone, Copy, Debug, PartialEq, Eq, Structural)]
pub enum MouseButton {
    Left,
    Right,
    Middle,
}

/// A mouse button goes down.
#[derive(Clone, Copy, Debug, PartialEq, Eq, Structural)]
pub struct MouseDownEvent {
    pub button: MouseButton,
    pub position: Point,
    pub modifiers: Modifiers,
    pub click_count: usize,
    pub first_mouse: bool,
}

/// A mouse button comes up.
#[derive(Clone, Copy, Debug, PartialEq, Eq, Structural)]
pub struct MouseUpEvent {
    pub button: MouseButton,
    pub position: Point,
    pub modifiers: Modifiers,
    pub click_count: usize,
}

/// An input event.
#[derive(Debug, PartialEq, Eq)]
pub enum PlatformInput {
    MouseDown(MouseDownEvent),
    MouseUp(MouseUpEvent),
    KeyDown(KeyDownEvent),
    KeyUp(KeyUpEvent),
    PointerDown(PointerDownEvent),
    PointerUp(PointerUpEvent),
    PointerMove(PointerMoveEvent),
    PointerCancel(PointerCancelEvent),
    ScrollWheel(ScrollWheelEvent),
}

/// Where no modifier is held down, none of the keys is.
pub proof fn no_modifier_means_no_key()
    ensures
        !Modifiers::none().control,
        !Modifiers::none().alt,
        !Modifiers::none().shift,
        !Modifiers::none().platform,
        !Modifiers::none().function,
{
}

} // verus!
