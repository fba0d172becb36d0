//! Tracking touches on an Android window: presses, drags that scroll, long presses that select and
//! flings.
//!
//! Positions are logical pixels. Each window tracks its touches by itself, so that neighbouring
//! surfaces do not take over each other's gestures.
use crate::geometry::{Pixels, Point};
use crate::touch_events;
use crate::touch_events::{
    pan_gesture_to_scroll, touch_began_to_pointer_down, touch_cancelled_to_pointer_cancel,
    touch_ended_to_pointer_up, touch_moved_to_pointer_move,
};
use crate::platform_input::{Modifiers, PlatformInput, TouchPhase};
use std::ops::Range;
use vstd::prelude::*;

verus! {

pub const ACTION_DOWN: i32 = 0;

pub const ACTION_UP: i32 = 1;

pub const ACTION_MOVE: i32 = 2;

pub const ACTION_CANCEL: i32 = 3;

/// The pointer that stands for the finger.
pub const TOUCH_POINTER_ID: u64 = 1;

/// Scrolling that goes on after the finger has left.
#[derive(Clone, Copy, Debug, PartialEq, Eq, Structural)]
pub struct FlingState {
    /// Pixels per second.
    pub velocity: Point,
    pub position: Point,
}

/// Where a gesture stands.
#[derive(Clone, Copy, Debug, PartialEq, Eq, Structural)]
pub struct TouchState {
    /// Where the pointer was last; the origin before the first touch.
    pub last_mouse_position: Point,
    pub last_position: Option<Point>,
    pub down_position: Option<Point>,
    pub is_drag: bool,
    /// The application has taken over the gesture.
    pub suppress_scroll: bool,
    pub fling: Option<FlingState>,
    /// Set after a long press fires, cleared when the finger leaves.
    pub long_press_active: bool,
    /// The UTF-16 position at which the long press fired.
    pub long_press_anchor_utf16: Option<usize>,
}

/// What the host measured about a move.
#[derive(Clone, Copy, Debug, PartialEq, Eq, Structural)]
pub struct TouchMotion {
    /// Whether the finger is farther from where it went down than a tap allows.
    pub beyond_tap_slop: bool,
    /// How far the finger is from its last position.
    pub delta: Point,
}

/// What to do about a touch.
#[derive(Debug, PartialEq, Eq)]
pub enum AndroidTouchStep {
    /// Nothing.
    Ignore,
    /// Dispatch one event.
    Dispatch(PlatformInput),
    /// Dispatch the end of a scroll and then a release.
    EndScroll(PlatformInput, PlatformInput),
    /// Extend the selection from an anchor, if there is one, and dispatch the move.
    ExtendSelection(Option<usize>, PlatformInput),
    /// Dispatch a move and report back whether its default was prevented; then the content scrolls
    /// by the amount given, if any.
    Move(PlatformInput, Option<Point>),
}

/// The pattern of positive zero in both coordinates.
pub open spec fn no_motion() -> Point {
    Point { x: Pixels { bits: 0 }, y: Pixels { bits: 0 } }
}

impl TouchState {
    /// No gesture, after a touch at a position.
    pub open spec fn idle(last_mouse_position: Point) -> TouchState {
        TouchState {
            last_mouse_position,
            last_position: None,
            down_position: None,
            is_drag: false,
            suppress_scroll: false,
            fling: None,
            long_press_active: false,
            long_press_anchor_utf16: None,
        }
    }

    /// Starts without a gesture.
    pub fn new() -> (state: Self)
        ensures
            state == TouchState::idle(no_motion()),
    {
        TouchState {
            last_mouse_position: Point { x: Pixels::zero(), y: Pixels::zero() },
            last_position: None,
            down_position: None,
            is_drag: false,
            suppress_scroll: false,
            fling: None,
            long_press_active: false,
            long_press_anchor_utf16: None,
        }
    }

    /// Whether a move makes the gesture a drag, or it already is one.
    pub open spec fn drags(self, motion: TouchMotion) -> bool {
        self.is_drag || (self.down_position is Some && motion.beyond_tap_slop)
    }

    /// The state after a touch. Every touch tells where the pointer is, also one that means nothing
    /// else.
    pub open spec fn after(self, action: i32, position: Point, motion: TouchMotion) -> TouchState {
        if action == ACTION_DOWN {
            TouchState {
                last_mouse_position: position,
                fling: None,
                down_position: Some(position),
                last_position: Some(position),
                is_drag: false,
                suppress_scroll: false,
                ..self
            }
        } else if action == ACTION_UP {
            TouchState {
                fling: if self.is_drag && !self.suppress_scroll {
                    self.fling
                } else {
                    None
                },
                ..TouchState::idle(position)
            }
        } else if action == ACTION_MOVE {
            TouchState {
                last_mouse_position: position,
                is_drag: self.drags(motion),
                last_position: Some(position),
                ..self
            }
        } else if action == ACTION_CANCEL {
            TouchState::idle(position)
        } else {
            TouchState { last_mouse_position: position, ..self }
        }
    }

    /// What to do about a touch.
    pub open spec fn step(self, action: i32, position: Point, motion: TouchMotion) -> AndroidTouchStep {
        let none = Modifiers::none();
        if action == ACTION_DOWN {
            AndroidTouchStep::Dispatch(
                touch_events::touch_down(position, TOUCH_POINTER_ID, none),
            )
        } else if action == ACTION_UP {
            let up = touch_events::touch_up(position, TOUCH_POINTER_ID, none);
            if self.is_drag && !self.suppress_scroll && !self.long_press_active {
                AndroidTouchStep::EndScroll(
                    touch_events::touch_scroll(position, no_motion(), none, TouchPhase::Ended),
                    up,
                )
            } else {
                AndroidTouchStep::Dispatch(up)
            }
        } else if action == ACTION_MOVE {
            let moved = touch_events::touch_move(position, TOUCH_POINTER_ID, none);
            if self.long_press_active {
                AndroidTouchStep::ExtendSelection(self.long_press_anchor_utf16, moved)
            } else {
                AndroidTouchStep::Move(
                    moved,
                    if self.drags(motion) && self.last_position is Some {
                        Some(motion.delta)
                    } else {
                        None
                    },
                )
            }
        } else if action == ACTION_CANCEL {
            AndroidTouchStep::Dispatch(
                touch_events::touch_cancel(position, TOUCH_POINTER_ID, none),
            )
        } else {
            AndroidTouchStep::Ignore
        }
    }

    /// Takes a raw touch event and decides what to dispatch.
    pub fn handle_touch(&mut self, action: i32, position: Point, motion: TouchMotion) -> (step:
        AndroidTouchStep)
        ensures
            *final(self) == old(self).after(action, position, motion),
            step == old(self).step(action, position, motion),
    {
        let modifiers = Modifiers::default();
        self.last_mouse_position = position;
        if action == ACTION_DOWN {
            self.fling = None;
            self.down_position = Some(position);
            self.last_position = Some(position);
            self.is_drag = false;
            self.suppress_scroll = false;
            AndroidTouchStep::Dispatch(
                touch_began_to_pointer_down(position, TOUCH_POINTER_ID, modifiers),
            )
        } else if action == ACTION_UP {
            let is_drag: bool = self.is_drag;
            let suppress_scroll: bool = self.suppress_scroll;
            let was_long_press: bool = self.long_press_active;
            self.last_position = None;
            self.down_position = None;
            self.is_drag = false;
            self.long_press_active = false;
            self.long_press_anchor_utf16 = None;
            self.suppress_scroll = false;
            let up = touch_ended_to_pointer_up(position, TOUCH_POINTER_ID, modifiers);
            if !is_drag || suppress_scroll {
                self.fling = None;
                AndroidTouchStep::Dispatch(up)
            } else if !was_long_press {
                let zero = Point { x: Pixels::zero(), y: Pixels::zero() };
                AndroidTouchStep::EndScroll(
                    pan_gesture_to_scroll(position, zero, modifiers, TouchPhase::Ended),
                    up,
                )
            } else {
                AndroidTouchStep::Dispatch(up)
            }
        } else if action == ACTION_MOVE {
            if !self.is_drag && self.down_position.is_some() && motion.beyond_tap_slop {
                self.is_drag = true;
            }
            let scroll: Option<Point> = if self.is_drag && self.last_position.is_some() {
                Some(motion.delta)
            } else {
                None
            };
            self.last_position = Some(position);
            let moved = touch_moved_to_pointer_move(position, TOUCH_POINTER_ID, modifiers);
            if self.long_press_active {
                AndroidTouchStep::ExtendSelection(self.long_press_anchor_utf16, moved)
            } else {
                AndroidTouchStep::Move(moved, scroll)
            }
        } else if action == ACTION_CANCEL {
            *self = TouchState { last_mouse_position: position, ..TouchState::new() };
            AndroidTouchStep::Dispatch(
                touch_cancelled_to_pointer_cancel(position, TOUCH_POINTER_ID, modifiers),
            )
        } else {
            AndroidTouchStep::Ignore
        }
    }

    /// Where the pointer was last.
    pub fn mouse_position(&self) -> (position: Point)
        ensures
            position == self.last_mouse_position,
    {
        self.last_mouse_position
    }

    /// Goes on after a move was dispatched: a drag scrolls the content unless the application has
    /// taken over the gesture, now or earlier.
    pub fn after_move(
        &mut self,
        position: Point,
        delta: Option<Point>,
        default_prevented: bool,
    ) -> (scroll: Option<PlatformInput>)
        ensures
            *final(self) == (TouchState {
                suppress_scroll: old(self).suppress_scroll || default_prevented,
                ..*old(self)
            }),
            scroll == if delta is Some && !old(self).suppress_scroll && !default_prevented {
                Some(
                    touch_events::touch_scroll(
                        position,
                        delta->0,
                        Modifiers::none(),
                        TouchPhase::Moved,
                    ),
                )
            } else {
                None
            },
    {
        if default_prevented {
            self.suppress_scroll = true;
        }
        match delta {
            Some(delta) => if !self.suppress_scroll {
                Some(
                    pan_gesture_to_scroll(
                        position,
                        delta,
                        Modifiers::default(),
                        TouchPhase::Moved,
                    ),
                )
            } else {
                None
            },
            None => None,
        }
    }

    /// Enters selection where a long press lands on selectable text: dragging then extends the
    /// selection instead of scrolling.
    pub fn handle_long_press(&mut self, hits_selectable: bool, anchor: Option<usize>) -> (entered:
        bool)
        ensures
            entered <==> hits_selectable && anchor is Some,
            *final(self) == if hits_selectable && anchor is Some {
                TouchState {
                    long_press_active: true,
                    long_press_anchor_utf16: anchor,
                    suppress_scroll: true,
                    ..*old(self)
                }
            } else {
                *old(self)
            },
    {
        if !hits_selectable || anchor.is_none() {
            return false;
        }
        self.long_press_active = true;
        self.long_press_anchor_utf16 = anchor;
        self.suppress_scroll = true;
        true
    }

    /// Takes the velocity with which the finger left.
    pub fn handle_fling(&mut self, velocity: Point, exceeds_threshold: bool)
        ensures
            *final(self) == (TouchState {
                fling: if old(self).suppress_scroll {
                    None
                } else if exceeds_threshold {
                    Some(
                        FlingState {
                            velocity,
                            position: match old(self).last_position {
                                Some(position) => position,
                                None => no_motion(),
                            },
                        },
                    )
                } else {
                    old(self).fling
                },
                ..*old(self)
            }),
    {
        if self.suppress_scroll {
            self.fling = None;
            return;
        }
        if exceeds_threshold {
            let position: Point = match self.last_position {
                Some(position) => position,
                None => Point { x: Pixels::zero(), y: Pixels::zero() },
            };
            self.fling = Some(FlingState { velocity, position });
        }
    }

    /// Tests whether content is still scrolling by itself.
    pub fn has_active_fling(&self) -> (active: bool)
        ensures
            active <==> self.fling is Some,
    {
        self.fling.is_some()
    }

    /// Advances a fling by one frame, given its velocity after friction, whether that is below the
    /// threshold in both directions, and how far the content moves.
    pub fn process_fling(
        &mut self,
        new_velocity: Point,
        has_stopped: bool,
        delta: Point,
    ) -> (scroll: Option<PlatformInput>)
        ensures
            old(self).fling is None ==> scroll is None && *final(self) == *old(self),
            old(self).fling matches Some(fling) ==> {
                &&& *final(self) == (TouchState {
                    fling: if has_stopped {
                        None
                    } else {
                        Some(FlingState { velocity: new_velocity, ..fling })
                    },
                    ..*old(self)
                })
                &&& scroll == Some(
                    touch_events::touch_scroll(
                        fling.position,
                        if has_stopped {
                            no_motion()
                        } else {
                            delta
                        },
                        Modifiers::none(),
                        if has_stopped {
                            TouchPhase::Ended
                        } else {
                            TouchPhase::Moved
                        },
                    ),
                )
            },
    {
        let fling: FlingState = match self.fling {
            Some(fling) => fling,
            None => {
                return None;
            },
        };
        if has_stopped {
            self.fling = None;
            let zero = Point { x: Pixels::zero(), y: Pixels::zero() };
            return Some(
                pan_gesture_to_scroll(
                    fling.position,
                    zero,
                    Modifiers::default(),
                    TouchPhase::Ended,
                ),
            );
        }
        self.fling = Some(FlingState { velocity: new_velocity, position: fling.position });
        Some(
            pan_gesture_to_scroll(fling.position, delta, Modifiers::default(), TouchPhase::Moved),
        )
    }
}

/// The range between the anchor of a selection and the position a drag has reached.
pub fn extended_selection(anchor: usize, current: usize) -> (range: Range<usize>)
    ensures
        range.start <= range.end,
        (range.start == anchor && range.end == current) || (range.start == current && range.end
            == anchor),
{
    if anchor <= current {
        anchor..current
    } else {
        current..anchor
    }
}

/// When the finger leaves or the gesture is cancelled, nothing of the gesture is left but a fling.
pub proof fn gestures_end_clean(
    state: TouchState,
    action: i32,
    position: Point,
    motion: TouchMotion,
)
    requires
        action == ACTION_UP || action == ACTION_CANCEL,
    ensures
        (TouchState { fling: None, ..state.after(action, position, motion) }) == TouchState::idle(
            position,
        ),
{
}

/// Once the application has taken over a gesture, its drag never scrolls the content, and its end
/// starts no fling.
pub proof fn suppressed_gestures_never_scroll(
    state: TouchState,
    action: i32,
    position: Point,
    motion: TouchMotion,
)
    requires
        state.suppress_scroll,
        action != ACTION_DOWN,
    ensures
        state.step(action, position, motion) !is EndScroll,
        action == ACTION_MOVE ==> state.after(action, position, motion).suppress_scroll,
        action == ACTION_UP || action == ACTION_CANCEL ==> state.after(
            action,
            position,
            motion,
        ).fling is None,
{
}

/// A finger that stays within the slop of a tap causes no scrolling, neither while it is down nor
/// when it leaves.
pub proof fn taps_do_not_scroll(state: TouchState, position: Point, motion: TouchMotion)
    requires
        !state.is_drag,
        !motion.beyond_tap_slop,
        !state.long_press_active,
    ensures
        state.step(ACTION_MOVE, position, motion) == AndroidTouchStep::Move(
            touch_events::touch_move(position, TOUCH_POINTER_ID, Modifiers::none()),
            None,
        ),
        state.step(ACTION_UP, position, motion) is Dispatch,
{
}

/// After a long press every move extends the selection, until the finger leaves.
pub proof fn long_press_extends_until_release(
    state: TouchState,
    position: Point,
    motion: TouchMotion,
)
    requires
        state.long_press_active,
    ensures
        state.step(ACTION_MOVE, position, motion) is ExtendSelection,
        state.after(ACTION_MOVE, position, motion).long_press_active,
        !state.after(ACTION_UP, position, motion).long_press_active,
        !state.after(ACTION_CANCEL, position, motion).long_press_active,
{
}

/// A finger that goes down presses where it is, under pointer one and with the primary button, and a
/// gesture begins there: it is no drag yet, the application has not taken it over, and the content stops.
pub proof fn a_finger_presses_where_it_goes_down(
    state: TouchState,
    position: Point,
    motion: TouchMotion,
)
    ensures
        state.step(0, position, motion) matches AndroidTouchStep::Dispatch(
            PlatformInput::PointerDown(event),
        ) && {
            &&& event.pointer_id == 1
            &&& event.kind is Touch
            &&& event.is_primary
            &&& event.button is Primary
            &&& event.position.x == position.x
            &&& event.position.y == position.y
            &&& event.modifiers == Modifiers::none()
        },
        ({
            let pressed = state.after(0, position, motion);
            &&& pressed.down_position == Some(position)
            &&& pressed.last_position == Some(position)
            &&& pressed.last_mouse_position.x == position.x
            &&& pressed.last_mouse_position.y == position.y
            &&& !pressed.is_drag
            &&& !pressed.suppress_scroll
            &&& pressed.fling is None
            &&& pressed.long_press_active == state.long_press_active
            &&& pressed.long_press_anchor_utf16 == state.long_press_anchor_utf16
        }),
{
}

/// Whenever the finger leaves, the last event is its release where it left, under pointer one and with the
/// primary button, whatever the gesture was. Before it a scroll ends without a way, if the gesture
/// scrolled.
pub proof fn a_finger_is_released_where_it_leaves(
    state: TouchState,
    position: Point,
    motion: TouchMotion,
)
    ensures
        match state.step(1, position, motion) {
            AndroidTouchStep::Dispatch(PlatformInput::PointerUp(event)) => {
                &&& !state.is_drag || state.suppress_scroll || state.long_press_active
                &&& event.pointer_id == 1
                &&& event.kind is Touch
                &&& event.is_primary
                &&& event.button is Primary
                &&& event.position.x == position.x
                &&& event.position.y == position.y
                &&& event.modifiers == Modifiers::none()
            },
            AndroidTouchStep::EndScroll(
                PlatformInput::ScrollWheel(scroll),
                PlatformInput::PointerUp(event),
            ) => {
                &&& state.is_drag && !state.suppress_scroll && !state.long_press_active
                &&& scroll.position.x == position.x
                &&& scroll.position.y == position.y
                &&& scroll.delta.x.bits == 0 && scroll.delta.y.bits == 0
                &&& scroll.touch_phase is Ended
                &&& scroll.modifiers == Modifiers::none()
                &&& event.pointer_id == 1
                &&& event.kind is Touch
                &&& event.is_primary
                &&& event.button is Primary
                &&& event.position.x == position.x
                &&& event.position.y == position.y
                &&& event.modifiers == Modifiers::none()
            },
            _ => false,
        },
{
}

/// A press is cancelled only where the system takes the touch away, and then it always is, where the
/// finger was last.
pub proof fn only_cancelled_touches_are_cancelled(
    state: TouchState,
    action: i32,
    position: Point,
    motion: TouchMotion,
)
    ensures
        match state.step(action, position, motion) {
            AndroidTouchStep::Dispatch(PlatformInput::PointerCancel(event)) => {
                &&& action == 3
                &&& event.pointer_id == 1
                &&& event.kind is Touch
                &&& event.is_primary
                &&& event.position.x == position.x
                &&& event.position.y == position.y
                &&& event.modifiers == Modifiers::none()
            },
            AndroidTouchStep::Dispatch(PlatformInput::PointerDown(_)) => action == 0,
            AndroidTouchStep::Dispatch(PlatformInput::PointerUp(_)) => action == 1,
            AndroidTouchStep::EndScroll(_, _) => action == 1,
            AndroidTouchStep::Move(_, _) => action == 2,
            AndroidTouchStep::ExtendSelection(_, _) => action == 2,
            AndroidTouchStep::Ignore => action < 0 || action > 3,
            _ => false,
        },
{
}

/// A move is dispatched where the finger is. The content scrolls by the way that the finger made if the
/// gesture is a drag, and after a long press the selection is extended from its anchor instead.
pub proof fn moves_follow_the_finger(state: TouchState, position: Point, motion: TouchMotion)
    ensures
        match state.step(2, position, motion) {
            AndroidTouchStep::ExtendSelection(anchor, PlatformInput::PointerMove(event)) => {
                &&& state.long_press_active
                &&& anchor == state.long_press_anchor_utf16
                &&& event.pointer_id == 1
                &&& event.kind is Touch
                &&& event.is_primary
                &&& event.pressed_button is Some && event.pressed_button->0 is Primary
                &&& event.position.x == position.x
                &&& event.position.y == position.y
                &&& event.modifiers == Modifiers::none()
            },
            AndroidTouchStep::Move(PlatformInput::PointerMove(event), way) => {
                &&& !state.long_press_active
                &&& event.pointer_id == 1
                &&& event.kind is Touch
                &&& event.is_primary
                &&& event.pressed_button is Some && event.pressed_button->0 is Primary
                &&& event.position.x == position.x
                &&& event.position.y == position.y
                &&& event.modifiers == Modifiers::none()
                &&& match way {
                    Some(way) => way.x == motion.delta.x && way.y == motion.delta.y
                        && state.last_position is Some && (state.is_drag || (state.down_position
                        is Some && motion.beyond_tap_slop)),
                    None => state.last_position is None || (!state.is_drag && !(
                    state.down_position is Some && motion.beyond_tap_slop)),
                }
            },
            _ => false,
        },
        ({
            let moved = state.after(2, position, motion);
            &&& moved.last_position == Some(position)
            &&& moved.last_mouse_position.x == position.x
            &&& moved.last_mouse_position.y == position.y
            &&& moved.down_position == state.down_position
            &&& moved.is_drag <==> state.is_drag || (state.down_position is Some
                && motion.beyond_tap_slop)
            &&& moved.suppress_scroll == state.suppress_scroll
            &&& moved.fling == state.fling
            &&& moved.long_press_active == state.long_press_active
            &&& moved.long_press_anchor_utf16 == state.long_press_anchor_utf16
        }),
{
}

/// Once the finger has left, nothing of its gesture has a say in the next: not where it was, nor that it
/// was a drag, a long press or taken over. Scrolling goes on only after a drag that nobody took over.
pub proof fn nothing_is_left_of_a_gesture(state: TouchState, position: Point, motion: TouchMotion)
    ensures
        ({
            let released = state.after(1, position, motion);
            let cancelled = state.after(3, position, motion);
            &&& released.down_position is None && cancelled.down_position is None
            &&& released.last_position is None && cancelled.last_position is None
            &&& !released.is_drag && !cancelled.is_drag
            &&& !released.suppress_scroll && !cancelled.suppress_scroll
            &&& !released.long_press_active && !cancelled.long_press_active
            &&& released.long_press_anchor_utf16 is None && cancelled.long_press_anchor_utf16 is None
            &&& released.last_mouse_position == position && cancelled.last_mouse_position == position
            &&& cancelled.fling is None
            &&& released.fling == if state.is_drag && !state.suppress_scroll {
                state.fling
            } else {
                None
            }
        }),
{
}

/// Actions that mean nothing here only tell where the pointer is.
pub proof fn other_actions_are_ignored(
    state: TouchState,
    action: i32,
    position: Point,
    motion: TouchMotion,
)
    requires
        action < 0 || action > 3,
    ensures
        state.step(action, position, motion) is Ignore,
        state.after(action, position, motion) == (TouchState {
            last_mouse_position: position,
            ..state
        }),
{
}

/// A touch that goes down and leaves without going farther than a tap may is a press and a release, and
/// nothing in between scrolls, wherever the state was before.
pub proof fn a_tap_is_a_press_and_a_release(
    state: TouchState,
    down: Point,
    up: Point,
    moved: Point,
    motion: TouchMotion,
)
    requires
        !state.long_press_active,
        !motion.beyond_tap_slop,
    ensures
        ({
            let pressed = state.after(0, down, motion);
            let rested = pressed.after(2, moved, motion);
            &&& state.step(0, down, motion) matches AndroidTouchStep::Dispatch(
                PlatformInput::PointerDown(press),
            ) && press.position == down
            &&& pressed.step(2, moved, motion) matches AndroidTouchStep::Move(_, None)
            &&& rested.step(1, up, motion) matches AndroidTouchStep::Dispatch(
                PlatformInput::PointerUp(release),
            ) && release.position == up && release.pointer_id == 1 && release.button is Primary
        }),
{
}

} // verus!
