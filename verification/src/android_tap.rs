//! Touches as taps and scrolls: a touch that stays in place is a click, every other one scrolls.
use crate::geometry::{Pixels, Point};
use crate::platform_input::{
    Modifiers, MouseButton, MouseDownEvent, MouseUpEvent, PlatformInput, ScrollWheelEvent, TouchPhase,
};
use vstd::prelude::*;

verus! {

/// A touch begins.
pub const ACTION_DOWN: i32 = 0;

/// A touch ends.
pub const ACTION_UP: i32 = 1;

/// A touch moves.
pub const ACTION_MOVE: i32 = 2;

/// A touch is taken over by something else.
pub const ACTION_CANCEL: i32 = 3;

/// Content that goes on scrolling after a touch.
#[derive(Clone, Copy, Debug, PartialEq, Eq, Structural)]
pub struct TapFling {
    pub velocity: Point,
    pub position: Point,
    /// When it was last moved, in nanoseconds.
    pub last_time: u64,
}

/// What is known of the current touch.
#[derive(Clone, Copy, Debug, PartialEq, Eq, Structural)]
pub struct TapState {
    pub last_position: Option<Point>,
    pub down_position: Option<Point>,
    pub is_drag: bool,
    pub fling: Option<TapFling>,
}

/// How far a touch has moved.
#[derive(Clone, Copy, Debug, PartialEq, Eq, Structural)]
pub struct TapMotion {
    /// Whether it is farther from where it began than a tap may be.
    pub beyond_slop: bool,
    /// The way from the last position.
    pub delta: Point,
}

/// No way at all.
pub open spec fn no_way() -> Point {
    Point { x: Pixels { bits: 0 }, y: Pixels { bits: 0 } }
}

/// The click of a tap begins.
pub open spec fn click_down(position: Point) -> PlatformInput {
    PlatformInput::MouseDown(
        MouseDownEvent {
            button: MouseButton::Left,
            position,
            modifiers: Modifiers::none(),
            click_count: 1,
            first_mouse: false,
        },
    )
}

/// The click of a tap ends.
pub open spec fn click_up(position: Point) -> PlatformInput {
    PlatformInput::MouseUp(
        MouseUpEvent {
            button: MouseButton::Left,
            position,
            modifiers: Modifiers::none(),
            click_count: 1,
        },
    )
}

/// Content is scrolled.
pub open spec fn scrolled(position: Point, delta: Point, touch_phase: TouchPhase) -> PlatformInput {
    PlatformInput::ScrollWheel(
        ScrollWheelEvent { position, delta, modifiers: Modifiers::none(), touch_phase },
    )
}

/// Makes a scroll event.
fn scroll(position: Point, delta: Point, touch_phase: TouchPhase) -> (event: PlatformInput)
    ensures
        event == scrolled(position, delta, touch_phase),
{
    PlatformInput::ScrollWheel(
        ScrollWheelEvent { position, delta, modifiers: Modifiers::default(), touch_phase },
    )
}

/// Makes no way at all.
fn nowhere() -> (way: Point)
    ensures
        way == no_way(),
{
    Point { x: Pixels { bits: 0 }, y: Pixels { bits: 0 } }
}

impl TapState {
    /// Whether the touch is a drag after it has moved.
    pub open spec fn drags(self, motion: TapMotion) -> bool {
        self.is_drag || (self.down_position is Some && motion.beyond_slop)
    }

    /// What is known after a report.
    pub open spec fn after(self, action: i32, position: Point, motion: TapMotion) -> TapState {
        if action == ACTION_DOWN {
            TapState {
                last_position: Some(position),
                down_position: Some(position),
                is_drag: false,
                fling: None,
            }
        } else if action == ACTION_UP || action == ACTION_CANCEL {
            TapState { last_position: None, down_position: None, is_drag: false, ..self }
        } else if action == ACTION_MOVE {
            TapState {
                last_position: Some(position),
                is_drag: self.drags(motion),
                ..self
            }
        } else {
            self
        }
    }

    /// The events that a report gives.
    pub open spec fn events(self, action: i32, position: Point, motion: TapMotion) -> Seq<
        PlatformInput,
    > {
        if action == ACTION_UP {
            if self.is_drag {
                seq![scrolled(position, no_way(), TouchPhase::Ended), click_up(position)]
            } else {
                seq![click_down(position), click_up(position)]
            }
        } else if action == ACTION_MOVE && self.drags(motion) && self.last_position is Some {
            seq![scrolled(position, motion.delta, TouchPhase::Moved)]
        } else {
            Seq::empty()
        }
    }

    /// Starts without a touch.
    pub fn new() -> (state: Self)
        ensures
            state == (TapState {
                last_position: None,
                down_position: None,
                is_drag: false,
                fling: None,
            }),
    {
        TapState { last_position: None, down_position: None, is_drag: false, fling: None }
    }

    /// Takes a report on a touch.
    pub fn handle_touch(&mut self, action: i32, position: Point, motion: TapMotion) -> (events: Vec<
        PlatformInput,
    >)
        ensures
            *final(self) == old(self).after(action, position, motion),
            events@ == old(self).events(action, position, motion),
    {
        let mut events: Vec<PlatformInput> = Vec::new();
        if action == ACTION_DOWN {
            self.fling = None;
            self.down_position = Some(position);
            self.last_position = Some(position);
            self.is_drag = false;
        } else if action == ACTION_UP {
            if self.is_drag {
                events.push(scroll(position, nowhere(), TouchPhase::Ended));
            } else {
                events.push(
                    PlatformInput::MouseDown(
                        MouseDownEvent {
                            button: MouseButton::Left,
                            position,
                            modifiers: Modifiers::default(),
                            click_count: 1,
                            first_mouse: false,
                        },
                    ),
                );
            }
            events.push(
                PlatformInput::MouseUp(
                    MouseUpEvent {
                        button: MouseButton::Left,
                        position,
                        modifiers: Modifiers::default(),
                        click_count: 1,
                    },
                ),
            );
            self.last_position = None;
            self.down_position = None;
            self.is_drag = false;
        } else if action == ACTION_MOVE {
            if !self.is_drag && self.down_position.is_some() && motion.beyond_slop {
                self.is_drag = true;
            }
            if self.is_drag && self.last_position.is_some() {
                events.push(scroll(position, motion.delta, TouchPhase::Moved));
            }
            self.last_position = Some(position);
        } else if action == ACTION_CANCEL {
            self.last_position = None;
            self.down_position = None;
            self.is_drag = false;
        }
        assert(events@ =~= old(self).events(action, position, motion));
        events
    }

    /// Lets content go on scrolling after a fast touch.
    pub fn handle_fling(&mut self, velocity: Point, exceeds_threshold: bool, now: u64)
        ensures
            *final(self) == (if exceeds_threshold {
                TapState {
                    fling: Some(
                        TapFling {
                            velocity,
                            position: match old(self).last_position {
                                Some(position) => position,
                                None => no_way(),
                            },
                            last_time: now,
                        },
                    ),
                    ..*old(self)
                }
            } else {
                *old(self)
            }),
    {
        if exceeds_threshold {
            let position: Point = match self.last_position {
                Some(position) => position,
                None => nowhere(),
            };
            self.fling = Some(TapFling { velocity, position, last_time: now });
        }
    }

    /// Tests whether content goes on scrolling.
    pub fn has_active_fling(&self) -> (active: bool)
        ensures
            active == (self.fling is Some),
    {
        self.fling.is_some()
    }

    /// Moves content that goes on scrolling by one frame: it has slowed down to `velocity`, and ends
    /// where that is too slow.
    pub fn process_fling(&mut self, velocity: Point, too_slow: bool, delta: Point, now: u64) -> (event:
        Option<PlatformInput>)
        ensures
            match old(self).fling {
                None => event is None && *final(self) == *old(self),
                Some(fling) => if too_slow {
                    &&& event == Some(scrolled(fling.position, no_way(), TouchPhase::Ended))
                    &&& *final(self) == (TapState { fling: None, ..*old(self) })
                } else {
                    &&& event == Some(scrolled(fling.position, delta, TouchPhase::Moved))
                    &&& *final(self) == (TapState {
                        fling: Some(TapFling { velocity, last_time: now, ..fling }),
                        ..*old(self)
                    })
                },
            },
    {
        match self.fling {
            Some(fling) => if too_slow {
                self.fling = None;
                Some(scroll(fling.position, nowhere(), TouchPhase::Ended))
            } else {
                self.fling = Some(TapFling { velocity, position: fling.position, last_time: now });
                Some(scroll(fling.position, delta, TouchPhase::Moved))
            },
            None => None,
        }
    }
}

/// A touch that goes down and comes up in place is a click and nothing else.
pub proof fn a_tap_is_a_click(state: TapState, down: Point, up: Point, motion: TapMotion)
    ensures
        ({
            let pressed = state.after(ACTION_DOWN, down, motion);
            &&& state.events(ACTION_DOWN, down, motion) == Seq::<PlatformInput>::empty()
            &&& pressed.events(ACTION_UP, up, motion) == seq![click_down(up), click_up(up)]
        }),
{
}

/// Once a touch is a drag it stays one until it ends, and never begins a click.
pub proof fn a_drag_never_clicks(state: TapState, moved: Point, up: Point, motion: TapMotion)
    requires
        state.is_drag,
    ensures
        ({
            let dragged = state.after(ACTION_MOVE, moved, motion);
            &&& dragged.is_drag
            &&& dragged.events(ACTION_UP, up, motion) == seq![
                scrolled(up, no_way(), TouchPhase::Ended),
                click_up(up),
            ]
        }),
{
}

/// A touch that is taken over gives no event, and leaves nothing behind but scrolling content.
pub proof fn a_cancelled_touch_is_silent(state: TapState, position: Point, motion: TapMotion)
    ensures
        state.events(ACTION_CANCEL, position, motion) == Seq::<PlatformInput>::empty(),
        state.after(ACTION_CANCEL, position, motion) == (TapState {
            last_position: None,
            down_position: None,
            is_drag: false,
            fling: state.fling,
        }),
{
}

/// A new touch stops content that goes on scrolling.
pub proof fn a_touch_stops_the_fling(state: TapState, position: Point, motion: TapMotion)
    ensures
        state.after(ACTION_DOWN, position, motion).fling is None,
{
}

/// A touch that leaves in place is a click of the left button where it left, and one that was a drag ends
/// its scroll there: the last event is always the button that comes up.
pub proof fn a_touch_ends_where_it_leaves(state: TapState, position: Point, motion: TapMotion)
    ensures
        ({
            let events = state.events(1, position, motion);
            &&& events.len() == 2
            &&& events[1] matches PlatformInput::MouseUp(up) && {
                &&& up.button is Left
                &&& up.position.x == position.x
                &&& up.position.y == position.y
                &&& up.modifiers == Modifiers::none()
                &&& up.click_count == 1
            }
            &&& if state.is_drag {
                events[0] matches PlatformInput::ScrollWheel(scroll) && {
                    &&& scroll.position.x == position.x
                    &&& scroll.position.y == position.y
                    &&& scroll.delta.x.bits == 0 && scroll.delta.y.bits == 0
                    &&& scroll.touch_phase is Ended
                    &&& scroll.modifiers == Modifiers::none()
                }
            } else {
                events[0] matches PlatformInput::MouseDown(down) && {
                    &&& down.button is Left
                    &&& down.position.x == position.x
                    &&& down.position.y == position.y
                    &&& down.modifiers == Modifiers::none()
                    &&& down.click_count == 1
                    &&& !down.first_mouse
                }
            }
        }),
{
}

/// A touch that moves scrolls by the way that it made, once it is farther from where it began than a tap
/// may be, and gives nothing before.
pub proof fn a_drag_scrolls_by_its_way(state: TapState, position: Point, motion: TapMotion)
    ensures
        ({
            let events = state.events(2, position, motion);
            let moved = state.after(2, position, motion);
            let drags = state.is_drag || (state.down_position is Some && motion.beyond_slop);
            &&& moved.is_drag == drags
            &&& moved.last_position == Some(position)
            &&& moved.down_position == state.down_position
            &&& moved.fling == state.fling
            &&& if drags && state.last_position is Some {
                &&& events.len() == 1
                &&& events[0] matches PlatformInput::ScrollWheel(scroll) && {
                    &&& scroll.position.x == position.x
                    &&& scroll.position.y == position.y
                    &&& scroll.delta.x == motion.delta.x
                    &&& scroll.delta.y == motion.delta.y
                    &&& scroll.touch_phase is Moved
                    &&& scroll.modifiers == Modifiers::none()
                }
            } else {
                events.len() == 0
            }
        }),
{
}

/// A touch begins where it goes down, without an event, and ends without a trace but for scrolling
/// content. Other actions mean nothing.
pub proof fn touches_begin_and_end_afresh(
    state: TapState,
    action: i32,
    position: Point,
    motion: TapMotion,
)
    ensures
        action == 0 ==> state.events(action, position, motion).len() == 0 && state.after(
            action,
            position,
            motion,
        ) == (TapState {
            last_position: Some(position),
            down_position: Some(position),
            is_drag: false,
            fling: None,
        }),
        action == 1 || action == 3 ==> state.after(action, position, motion) == (TapState {
            last_position: None,
            down_position: None,
            is_drag: false,
            fling: state.fling,
        }),
        action == 3 ==> state.events(action, position, motion).len() == 0,
        action < 0 || action > 3 ==> state.events(action, position, motion).len() == 0
            && state.after(action, position, motion) == state,
{
}

} // verus!
