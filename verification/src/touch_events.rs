//! Touches as input events.
//!
//! A touch screen has no mouse, so touches map to pointer and scroll events directly: a single tap
//! is a press and a release, a pan scrolls, and a moving touch moves the pointer.
use crate::geometry::Point;
use crate::platform_input::{
    Modifiers, PlatformInput, PointerButton, PointerCancelEvent, PointerDownEvent, PointerKind,
    PointerMoveEvent, PointerUpEvent, ScrollWheelEvent, TouchPhase,
};
use vstd::prelude::*;

verus! {

/// The bits of the way that a finger moves before a tap becomes a drag, four pixels.
pub const TAP_SLOP_BITS: u32 = 0x4080_0000;

/// The bits of the speed below which nothing keeps scrolling, fifty pixels per second.
pub const FLING_THRESHOLD_BITS: u32 = 0x4248_0000;

/// A touch is pressed.
pub open spec fn touch_down(position: Point, pointer_id: u64, modifiers: Modifiers) -> PlatformInput {
    PlatformInput::PointerDown(
        PointerDownEvent {
            pointer_id,
            kind: PointerKind::Touch,
            is_primary: true,
            button: PointerButton::Primary,
            position,
            modifiers,
        },
    )
}

/// A touch is released.
pub open spec fn touch_up(position: Point, pointer_id: u64, modifiers: Modifiers) -> PlatformInput {
    PlatformInput::PointerUp(
        PointerUpEvent {
            pointer_id,
            kind: PointerKind::Touch,
            is_primary: true,
            button: PointerButton::Primary,
            position,
            modifiers,
        },
    )
}

/// A touch moves while pressed.
pub open spec fn touch_move(position: Point, pointer_id: u64, modifiers: Modifiers) -> PlatformInput {
    PlatformInput::PointerMove(
        PointerMoveEvent {
            pointer_id,
            kind: PointerKind::Touch,
            is_primary: true,
            pressed_button: Some(PointerButton::Primary),
            position,
            modifiers,
        },
    )
}

/// A touch ends without being completed.
pub open spec fn touch_cancel(position: Point, pointer_id: u64, modifiers: Modifiers) -> PlatformInput {
    PlatformInput::PointerCancel(
        PointerCancelEvent {
            pointer_id,
            kind: PointerKind::Touch,
            is_primary: true,
            position,
            modifiers,
        },
    )
}

/// A touch scrolls the content under it.
pub open spec fn touch_scroll(
    position: Point,
    delta: Point,
    modifiers: Modifiers,
    touch_phase: TouchPhase,
) -> PlatformInput {
    PlatformInput::ScrollWheel(ScrollWheelEvent { position, delta, modifiers, touch_phase })
}

/// Convert a single touch began event to a pointer down event.
pub fn touch_began_to_pointer_down(
    position: Point,
    pointer_id: u64,
    modifiers: Modifiers,
) -> (event: PlatformInput)
    ensures
        event == touch_down(position, pointer_id, modifiers),
{
    PlatformInput::PointerDown(
        PointerDownEvent {
            pointer_id,
            kind: PointerKind::Touch,
            is_primary: true,
            button: PointerButton::Primary,
            position,
            modifiers,
        },
    )
}

/// Convert a touch ended event to a pointer up event.
pub fn touch_ended_to_pointer_up(
    position: Point,
    pointer_id: u64,
    modifiers: Modifiers,
) -> (event: PlatformInput)
    ensures
        event == touch_up(position, pointer_id, modifiers),
{
    PlatformInput::PointerUp(
        PointerUpEvent {
            pointer_id,
            kind: PointerKind::Touch,
            is_primary: true,
            button: PointerButton::Primary,
            position,
            modifiers,
        },
    )
}

/// Convert a touch moved event to a pointer move event.
pub fn touch_moved_to_pointer_move(
    position: Point,
    pointer_id: u64,
    modifiers: Modifiers,
) -> (event: PlatformInput)
    ensures
        event == touch_move(position, pointer_id, modifiers),
{
    PlatformInput::PointerMove(
        PointerMoveEvent {
            pointer_id,
            kind: PointerKind::Touch,
            is_primary: true,
            pressed_button: Some(PointerButton::Primary),
            position,
            modifiers,
        },
    )
}

/// Convert a touch cancellation into a pointer cancel event.
pub fn touch_cancelled_to_pointer_cancel(
    position: Point,
    pointer_id: u64,
    modifiers: Modifiers,
) -> (event: PlatformInput)
    ensures
        event == touch_cancel(position, pointer_id, modifiers),
{
    PlatformInput::PointerCancel(
        PointerCancelEvent {
            pointer_id,
            kind: PointerKind::Touch,
            is_primary: true,
            position,
            modifiers,
        },
    )
}

/// Convert a pan gesture to a scroll wheel event.
pub fn pan_gesture_to_scroll(
    position: Point,
    delta: Point,
    modifiers: Modifiers,
    touch_phase: TouchPhase,
) -> (event: PlatformInput)
    ensures
        event == touch_scroll(position, delta, modifiers, touch_phase),
{
    PlatformInput::ScrollWheel(ScrollWheelEvent { position, delta, modifiers, touch_phase })
}

/// A touch is the primary button of a primary touch pointer from its press to its release: every event
/// carries the place, the pointer and the modifiers that it was made for.
pub proof fn touches_are_primary_pointers(position: Point, pointer_id: u64, modifiers: Modifiers)
    ensures
        touch_down(position, pointer_id, modifiers) matches PlatformInput::PointerDown(event) && {
            &&& event.pointer_id == pointer_id
            &&& event.kind is Touch
            &&& event.is_primary
            &&& event.button is Primary
            &&& event.position.x == position.x
            &&& event.position.y == position.y
            &&& event.modifiers == modifiers
        },
        touch_up(position, pointer_id, modifiers) matches PlatformInput::PointerUp(event) && {
            &&& event.pointer_id == pointer_id
            &&& event.kind is Touch
            &&& event.is_primary
            &&& event.button is Primary
            &&& event.position.x == position.x
            &&& event.position.y == position.y
            &&& event.modifiers == modifiers
        },
        touch_move(position, pointer_id, modifiers) matches PlatformInput::PointerMove(event) && {
            &&& event.pointer_id == pointer_id
            &&& event.kind is Touch
            &&& event.is_primary
            &&& event.pressed_button == Some(PointerButton::Primary)
            &&& event.position.x == position.x
            &&& event.position.y == position.y
            &&& event.modifiers == modifiers
        },
        touch_cancel(position, pointer_id, modifiers) matches PlatformInput::PointerCancel(event) && {
            &&& event.pointer_id == pointer_id
            &&& event.kind is Touch
            &&& event.is_primary
            &&& event.position.x == position.x
            &&& event.position.y == position.y
            &&& event.modifiers == modifiers
        },
{
}

/// A pan scrolls by the way that it made, at its place and in its phase.
pub proof fn pans_scroll_by_their_way(
    position: Point,
    delta: Point,
    modifiers: Modifiers,
    touch_phase: TouchPhase,
)
    ensures
        touch_scroll(position, delta, modifiers, touch_phase) matches PlatformInput::ScrollWheel(event)
            && {
            &&& event.position.x == position.x
            &&& event.position.y == position.y
            &&& event.delta.x == delta.x
            &&& event.delta.y == delta.y
            &&& event.modifiers == modifiers
            &&& event.touch_phase == touch_phase
        },
{
}

} // verus!
