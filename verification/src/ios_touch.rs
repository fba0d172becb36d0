//! Tracking one finger on an iOS window: presses, scrolling, flings and the touch that dismisses a
//! selection.
//!
//! Handling a sample may dispatch a pointer event. For moves and releases the tracker must then be
//! told whether the event's default was prevented.
use crate::geometry::{Pixels, Point};
use crate::ios_events::UITouchPhase;
use crate::ios_policy::should_consume_touch_for_selection_dismissal;
use crate::platform_input::{Modifiers, PlatformInput, ScrollWheelEvent, TouchPhase};
use crate::touch_events;
use crate::touch_events::{
    pan_gesture_to_scroll, touch_began_to_pointer_down, touch_cancelled_to_pointer_cancel,
    touch_ended_to_pointer_up, touch_moved_to_pointer_move,
};
use vstd::prelude::*;

verus! {

/// Scrolling that goes on after the finger has left.
#[derive(Clone, Copy, Debug, PartialEq, Eq, Structural)]
pub struct TouchFling {
    /// Pixels per second.
    pub velocity: Point,
    /// Where the finger left.
    pub position: Point,
}

/// What is known of the finger that is tracked.
#[derive(Clone, Copy, Debug, PartialEq, Eq, Structural)]
pub struct TouchTracker {
    /// The finger that is down and tracked.
    pub primary_touch: Option<u64>,
    /// Where the pointer was last seen.
    pub mouse_position: Point,
    pub touch_down_position: Point,
    /// Smoothed velocity in pixels per second.
    pub velocity: Point,
    /// The time of the last move sample, as the bits of a double precision number.
    pub last_move_timestamp: u64,
    pub last_touch_tap_count: u64,
    /// When the tracked finger went down, in milliseconds.
    pub began_at_millis: Option<u64>,
    pub touch_pressed: bool,
    /// The application has taken over the gesture.
    pub scroll_suppressed: bool,
    /// The touch only dismisses a selection.
    pub selection_dismissal_suppressed: bool,
    pub fling: Option<TouchFling>,
}

/// One report about a finger.
#[derive(Clone, Copy, Debug, PartialEq, Eq, Structural)]
pub struct TouchSample {
    pub touch: u64,
    pub phase: UITouchPhase,
    pub position: Point,
    /// How far the finger moved since its previous report.
    pub delta: Point,
    pub tap_count: u64,
    /// The time of the report, as the bits of a double precision number.
    pub timestamp: u64,
    pub now_millis: u64,
    /// The smoothed velocity after this report.
    pub velocity: Point,
}

/// What lies under a finger that goes down.
#[derive(Clone, Copy, Debug, PartialEq, Eq, Structural)]
pub struct TouchSurroundings {
    pub had_selection: bool,
    pub hit_text: bool,
    pub hit_selection_area: bool,
}

/// What to do about a report.
#[derive(Debug, PartialEq, Eq)]
pub enum TouchStep {
    /// Nothing.
    Ignore,
    /// Clear the active selection.
    DismissSelection,
    /// Dispatch a press.
    Press(PlatformInput),
    /// Dispatch a move, and report back whether its default was prevented.
    Move(PlatformInput),
    /// Dispatch a release or a cancellation, and report back whether its default was prevented.
    Release(PlatformInput),
}

/// The pattern of positive zero in both coordinates.
pub open spec fn no_motion() -> Point {
    Point { x: Pixels { bits: 0 }, y: Pixels { bits: 0 } }
}

/// The magnitude of a double precision pattern with its sign.
pub open spec fn time_value(bits: u64) -> int {
    if bits < 0x8000_0000_0000_0000 {
        bits as int
    } else {
        0x8000_0000_0000_0000 - bits
    }
}

/// Whether two double precision patterns are equal numbers.
pub open spec fn same_time(a: u64, b: u64) -> bool {
    time_value(a) == time_value(b) && -0x7ff0_0000_0000_0000 <= time_value(a)
        <= 0x7ff0_0000_0000_0000
}

/// Tests whether two double precision patterns are equal numbers.
fn is_same_time(a: u64, b: u64) -> (same: bool)
    ensures
        same == same_time(a, b),
{
    let a_low: u64 = if a < 0x8000_0000_0000_0000 {
        a
    } else {
        a - 0x8000_0000_0000_0000
    };
    let b_low: u64 = if b < 0x8000_0000_0000_0000 {
        b
    } else {
        b - 0x8000_0000_0000_0000
    };
    if a_low > 0x7ff0_0000_0000_0000 || a_low != b_low {
        return false;
    }
    a_low == 0 || (a < 0x8000_0000_0000_0000) == (b < 0x8000_0000_0000_0000)
}

impl TouchTracker {
    /// Whether the flags of a gesture are set only while a finger is tracked.
    pub open spec fn well_formed(self) -> bool {
        &&& self.touch_pressed <==> self.primary_touch is Some
        &&& self.began_at_millis is Some <==> self.primary_touch is Some
        &&& self.primary_touch is None ==> !self.scroll_suppressed
            && !self.selection_dismissal_suppressed
    }

    /// Starts without a finger.
    pub fn new() -> (tracker: Self)
        ensures
            tracker == (TouchTracker {
                primary_touch: None,
                mouse_position: no_motion(),
                touch_down_position: no_motion(),
                velocity: no_motion(),
                last_move_timestamp: 0,
                last_touch_tap_count: 0,
                began_at_millis: None,
                touch_pressed: false,
                scroll_suppressed: false,
                selection_dismissal_suppressed: false,
                fling: None,
            }),
            tracker.well_formed(),
    {
        let zero = Point { x: Pixels::zero(), y: Pixels::zero() };
        TouchTracker {
            primary_touch: None,
            mouse_position: zero,
            touch_down_position: zero,
            velocity: zero,
            last_move_timestamp: 0,
            last_touch_tap_count: 0,
            began_at_millis: None,
            touch_pressed: false,
            scroll_suppressed: false,
            selection_dismissal_suppressed: false,
            fling: None,
        }
    }

    /// The tracker after a finger goes down. The first finger is tracked from there; a further one
    /// only stops the motion of the content.
    pub open spec fn after_began(self, sample: TouchSample, around: TouchSurroundings) -> Self {
        if self.primary_touch is None {
            TouchTracker {
                primary_touch: Some(sample.touch),
                mouse_position: sample.position,
                touch_down_position: sample.position,
                velocity: no_motion(),
                last_move_timestamp: 0,
                last_touch_tap_count: sample.tap_count,
                began_at_millis: Some(sample.now_millis),
                touch_pressed: true,
                scroll_suppressed: false,
                selection_dismissal_suppressed: dismisses(around),
                fling: None,
            }
        } else {
            TouchTracker {
                mouse_position: sample.position,
                velocity: no_motion(),
                fling: None,
                ..self
            }
        }
    }

    /// Whether a move of the tracked finger is news.
    pub open spec fn follows_move(self, sample: TouchSample) -> bool {
        &&& self.primary_touch == Some(sample.touch)
        &&& !self.selection_dismissal_suppressed
        &&& !same_time(sample.timestamp, self.last_move_timestamp)
    }

    /// The tracker after a report.
    pub open spec fn after(self, sample: TouchSample, around: TouchSurroundings) -> Self {
        let seen = TouchTracker { mouse_position: sample.position, ..self };
        match sample.phase {
            UITouchPhase::Stationary => seen,
            UITouchPhase::Began => self.after_began(sample, around),
            UITouchPhase::Moved => if self.follows_move(sample) {
                TouchTracker {
                    last_move_timestamp: sample.timestamp,
                    velocity: sample.velocity,
                    ..seen
                }
            } else {
                seen
            },
            _ => if self.primary_touch == Some(sample.touch) {
                TouchTracker {
                    primary_touch: None,
                    began_at_millis: None,
                    touch_pressed: false,
                    selection_dismissal_suppressed: false,
                    scroll_suppressed: self.scroll_suppressed
                        && !self.selection_dismissal_suppressed,
                    ..seen
                }
            } else {
                seen
            },
        }
    }

    /// What to do about a report.
    pub open spec fn step(
        self,
        sample: TouchSample,
        around: TouchSurroundings,
        modifiers: Modifiers,
    ) -> TouchStep {
        match sample.phase {
            UITouchPhase::Stationary => TouchStep::Ignore,
            UITouchPhase::Began => if self.primary_touch is Some {
                TouchStep::Ignore
            } else if dismisses(around) {
                TouchStep::DismissSelection
            } else {
                TouchStep::Press(
                    touch_events::touch_down(sample.position, sample.touch, modifiers),
                )
            },
            UITouchPhase::Moved => if self.follows_move(sample) {
                TouchStep::Move(
                    touch_events::touch_move(sample.position, sample.touch, modifiers),
                )
            } else {
                TouchStep::Ignore
            },
            _ => if self.primary_touch == Some(sample.touch)
                && !self.selection_dismissal_suppressed {
                TouchStep::Release(
                    if sample.phase is Cancelled {
                        touch_events::touch_cancel(sample.position, sample.touch, modifiers)
                    } else {
                        touch_events::touch_up(sample.position, sample.touch, modifiers)
                    },
                )
            } else {
                TouchStep::Ignore
            },
        }
    }

    /// Takes a report about a finger and decides what to dispatch.
    pub fn handle_touch(
        &mut self,
        sample: TouchSample,
        around: TouchSurroundings,
        modifiers: Modifiers,
    ) -> (step: TouchStep)
        ensures
            *final(self) == old(self).after(sample, around),
            step == old(self).step(sample, around, modifiers),
    {
        self.mouse_position = sample.position;
        match sample.phase {
            UITouchPhase::Stationary => TouchStep::Ignore,
            UITouchPhase::Began => {
                let zero = Point { x: Pixels::zero(), y: Pixels::zero() };
                if self.primary_touch.is_some() {
                    self.fling = None;
                    self.velocity = zero;
                    return TouchStep::Ignore;
                }
                self.primary_touch = Some(sample.touch);
                self.touch_down_position = sample.position;
                self.velocity = zero;
                self.last_move_timestamp = 0;
                self.last_touch_tap_count = sample.tap_count;
                self.scroll_suppressed = false;
                self.selection_dismissal_suppressed = false;
                self.began_at_millis = Some(sample.now_millis);
                self.fling = None;
                self.touch_pressed = true;
                if should_consume_touch_for_selection_dismissal(
                    around.had_selection,
                    around.hit_text,
                    around.hit_selection_area,
                ) {
                    self.selection_dismissal_suppressed = true;
                    TouchStep::DismissSelection
                } else {
                    TouchStep::Press(
                        touch_began_to_pointer_down(sample.position, sample.touch, modifiers),
                    )
                }
            },
            UITouchPhase::Moved => {
                if !self.tracks(sample.touch) || self.selection_dismissal_suppressed
                    || is_same_time(sample.timestamp, self.last_move_timestamp) {
                    return TouchStep::Ignore;
                }
                self.last_move_timestamp = sample.timestamp;
                self.velocity = sample.velocity;
                TouchStep::Move(
                    touch_moved_to_pointer_move(sample.position, sample.touch, modifiers),
                )
            },
            UITouchPhase::Ended => {
                if !self.tracks(sample.touch) || self.release_tracked() {
                    return TouchStep::Ignore;
                }
                TouchStep::Release(
                    touch_ended_to_pointer_up(sample.position, sample.touch, modifiers),
                )
            },
            UITouchPhase::Cancelled => {
                if !self.tracks(sample.touch) || self.release_tracked() {
                    return TouchStep::Ignore;
                }
                TouchStep::Release(
                    touch_cancelled_to_pointer_cancel(sample.position, sample.touch, modifiers),
                )
            },
        }
    }

    /// Tests whether a finger is the tracked one.
    fn tracks(&self, touch: u64) -> (tracks: bool)
        ensures
            tracks == (self.primary_touch == Some(touch)),
    {
        match self.primary_touch {
            Some(primary) => primary == touch,
            None => false,
        }
    }

    /// Lets go of the tracked finger, and tells whether its touch only dismissed a selection.
    fn release_tracked(&mut self) -> (dismissed: bool)
        ensures
            dismissed == old(self).selection_dismissal_suppressed,
            *final(self) == (TouchTracker {
                primary_touch: None,
                began_at_millis: None,
                touch_pressed: false,
                selection_dismissal_suppressed: false,
                scroll_suppressed: old(self).scroll_suppressed
                    && !old(self).selection_dismissal_suppressed,
                ..*old(self)
            }),
    {
        self.primary_touch = None;
        self.began_at_millis = None;
        self.touch_pressed = false;
        let dismissed: bool = self.selection_dismissal_suppressed;
        self.selection_dismissal_suppressed = false;
        if dismissed {
            self.scroll_suppressed = false;
        }
        dismissed
    }

    /// The tracker after a move was gone on with.
    pub open spec fn moved_on(self, default_prevented: bool) -> Self {
        TouchTracker { scroll_suppressed: self.scroll_suppressed || default_prevented, ..self }
    }

    /// The scroll that a move causes, if it does.
    pub open spec fn scroll_of_move(
        self,
        delta: Point,
        modifiers: Modifiers,
        default_prevented: bool,
    ) -> Option<PlatformInput> {
        if self.scroll_suppressed || default_prevented {
            None
        } else {
            Some(
                touch_events::touch_scroll(
                    self.touch_down_position,
                    delta,
                    modifiers,
                    TouchPhase::Moved,
                ),
            )
        }
    }

    /// The tracker after a release was gone on with.
    pub open spec fn released(
        self,
        phase: UITouchPhase,
        position: Point,
        default_prevented: bool,
        exceeds_fling_threshold: bool,
    ) -> Self {
        TouchTracker {
            scroll_suppressed: false,
            fling: if phase is Ended && !self.scroll_suppressed && !default_prevented
                && exceeds_fling_threshold {
                Some(TouchFling { velocity: self.velocity, position })
            } else {
                self.fling
            },
            ..self
        }
    }

    /// Goes on after a move was dispatched: the content scrolls unless the application has taken
    /// over the gesture, now or earlier. The scroll is placed where the gesture began.
    pub fn after_move(
        &mut self,
        delta: Point,
        modifiers: Modifiers,
        default_prevented: bool,
    ) -> (scroll: Option<PlatformInput>)
        ensures
            *final(self) == old(self).moved_on(default_prevented),
            scroll == old(self).scroll_of_move(delta, modifiers, default_prevented),
            *final(self) == (TouchTracker {
                scroll_suppressed: old(self).scroll_suppressed || default_prevented,
                ..*old(self)
            }),
            scroll == if old(self).scroll_suppressed || default_prevented {
                None
            } else {
                Some(
                    touch_events::touch_scroll(
                        old(self).touch_down_position,
                        delta,
                        modifiers,
                        TouchPhase::Moved,
                    ),
                )
            },
    {
        if default_prevented {
            self.scroll_suppressed = true;
        }
        if self.scroll_suppressed {
            return None;
        }
        Some(
            pan_gesture_to_scroll(
                self.touch_down_position,
                delta,
                modifiers,
                TouchPhase::Moved,
            ),
        )
    }

    /// Goes on after a release was dispatched: a fast finger that the application did not take over
    /// lets the content scroll on.
    pub fn after_release(
        &mut self,
        phase: UITouchPhase,
        position: Point,
        default_prevented: bool,
        exceeds_fling_threshold: bool,
    )
        ensures
            *final(self) == old(self).released(
                phase,
                position,
                default_prevented,
                exceeds_fling_threshold,
            ),
            *final(self) == (TouchTracker {
                scroll_suppressed: false,
                fling: if phase is Ended && !old(self).scroll_suppressed && !default_prevented
                    && exceeds_fling_threshold {
                    Some(TouchFling { velocity: old(self).velocity, position })
                } else {
                    old(self).fling
                },
                ..*old(self)
            }),
    {
        if default_prevented {
            self.scroll_suppressed = true;
        }
        if phase == UITouchPhase::Ended && !self.scroll_suppressed && exceeds_fling_threshold {
            self.fling = Some(TouchFling { velocity: self.velocity, position });
        }
        self.scroll_suppressed = false;
    }

    /// Advances a fling by one frame, given its velocity after friction, whether that is below the
    /// threshold in both directions, and how far the content moves.
    pub fn process_fling(
        &mut self,
        new_velocity: Point,
        has_stopped: bool,
        delta: Point,
    ) -> (scroll: Option<PlatformInput>)
        ensures
            old(self).fling is None ==> scroll is None && *final(self) == *old(self),
            old(self).fling matches Some(fling) ==> {
                &&& *final(self) == (TouchTracker {
                    fling: if has_stopped {
                        None
                    } else {
                        Some(TouchFling { velocity: new_velocity, ..fling })
                    },
                    ..*old(self)
                })
                &&& scroll == Some(
                    touch_events::touch_scroll(
                        fling.position,
                        if has_stopped {
                            no_motion()
                        } else {
                            delta
                        },
                        Modifiers::none(),
                        if has_stopped {
                            TouchPhase::Ended
                        } else {
                            TouchPhase::Moved
                        },
                    ),
                )
            },
    {
        let fling: TouchFling = match self.fling {
            Some(fling) => fling,
            None => {
                return None;
            },
        };
        if has_stopped {
            self.fling = None;
            let zero = Point { x: Pixels::zero(), y: Pixels::zero() };
            return Some(
                PlatformInput::ScrollWheel(
                    ScrollWheelEvent {
                        position: fling.position,
                        delta: zero,
                        modifiers: Modifiers::default(),
                        touch_phase: TouchPhase::Ended,
                    },
                ),
            );
        }
        self.fling = Some(TouchFling { velocity: new_velocity, position: fling.position });
        Some(
            PlatformInput::ScrollWheel(
                ScrollWheelEvent {
                    position: fling.position,
                    delta,
                    modifiers: Modifiers::default(),
                    touch_phase: TouchPhase::Moved,
                },
            ),
        )
    }

    /// Takes a scroll that the host recognized itself. Its end starts or stops a fling.
    pub fn inject_scroll(
        &mut self,
        position: Point,
        delta: Point,
        velocity: Point,
        exceeds_fling_threshold: bool,
        touch_phase: TouchPhase,
    ) -> (scroll: PlatformInput)
        ensures
            scroll == touch_events::touch_scroll(
                position,
                delta,
                Modifiers::none(),
                touch_phase,
            ),
            *final(self) == (TouchTracker {
                fling: match touch_phase {
                    TouchPhase::Started => old(self).fling,
                    TouchPhase::Moved => None,
                    TouchPhase::Ended => if exceeds_fling_threshold {
                        Some(TouchFling { velocity, position })
                    } else {
                        None
                    },
                },
                ..*old(self)
            }),
    {
        match touch_phase {
            TouchPhase::Moved => {
                self.fling = None;
            },
            TouchPhase::Ended => {
                if exceeds_fling_threshold {
                    self.fling = Some(TouchFling { velocity, position });
                } else {
                    self.fling = None;
                }
            },
            TouchPhase::Started => {},
        }
        PlatformInput::ScrollWheel(
            ScrollWheelEvent { position, delta, modifiers: Modifiers::default(), touch_phase },
        )
    }
}

/// Whether a touch with these surroundings only dismisses a selection.
pub open spec fn dismisses(around: TouchSurroundings) -> bool {
    around.had_selection && !around.hit_text && !around.hit_selection_area
}

/// The flags of a gesture never outlive its finger: every report keeps the tracker well formed, a
/// release once it has been gone on with.
pub proof fn reports_keep_the_tracker_well_formed(
    tracker: TouchTracker,
    sample: TouchSample,
    around: TouchSurroundings,
    modifiers: Modifiers,
    fling: Option<TouchFling>,
)
    requires
        tracker.well_formed(),
    ensures
        tracker.step(sample, around, modifiers) !is Release ==> tracker.after(
            sample,
            around,
        ).well_formed(),
        tracker.step(sample, around, modifiers) is Release ==> (TouchTracker {
            scroll_suppressed: false,
            fling,
            ..tracker.after(sample, around)
        }).well_formed(),
{
}

/// A finger other than the tracked one never causes an event.
pub proof fn further_fingers_are_silent(
    tracker: TouchTracker,
    sample: TouchSample,
    around: TouchSurroundings,
    modifiers: Modifiers,
)
    requires
        tracker.primary_touch is Some,
        tracker.primary_touch != Some(sample.touch),
    ensures
        tracker.step(sample, around, modifiers) is Ignore,
        tracker.after(sample, around).primary_touch == tracker.primary_touch,
{
}

/// A touch that dismisses a selection causes no pointer event, from its press to its release.
pub proof fn dismissing_touch_is_silent(
    tracker: TouchTracker,
    press: TouchSample,
    around: TouchSurroundings,
    later: TouchSample,
    around_later: TouchSurroundings,
    modifiers: Modifiers,
)
    requires
        tracker.primary_touch is None,
        press.phase is Began,
        dismisses(around),
    ensures
        tracker.step(press, around, modifiers) is DismissSelection,
        tracker.after(press, around).step(later, around_later, modifiers) is Ignore,
        later.phase !is Ended && later.phase !is Cancelled ==> tracker.after(press, around).after(
            later,
            around_later,
        ).selection_dismissal_suppressed,
{
}

/// Releasing the tracked finger makes room for the next: afterwards no finger is tracked, and the
/// next press is dispatched.
pub proof fn release_makes_room_for_the_next_press(
    tracker: TouchTracker,
    release: TouchSample,
    around: TouchSurroundings,
    press: TouchSample,
    around_press: TouchSurroundings,
    modifiers: Modifiers,
)
    requires
        tracker.primary_touch == Some(release.touch),
        release.phase is Ended || release.phase is Cancelled,
        press.phase is Began,
        !dismisses(around_press),
    ensures
        tracker.after(release, around).primary_touch is None,
        tracker.after(release, around).step(press, around_press, modifiers) is Press,
{
}

/// The same move sample delivered twice is dispatched once.
pub proof fn duplicate_moves_are_dropped(
    tracker: TouchTracker,
    sample: TouchSample,
    around: TouchSurroundings,
    modifiers: Modifiers,
)
    requires
        sample.phase is Moved,
        same_time(sample.timestamp, sample.timestamp),
        tracker.step(sample, around, modifiers) is Move,
    ensures
        tracker.after(sample, around).step(sample, around, modifiers) is Ignore,
{
}

/// The first finger that goes down is the one that is tracked, from where and when it went down: the
/// place is remembered, the content stops, and no earlier gesture has a say any more.
pub proof fn the_first_finger_is_tracked_from_where_it_went_down(
    tracker: TouchTracker,
    sample: TouchSample,
    around: TouchSurroundings,
)
    requires
        tracker.primary_touch is None,
        sample.phase is Began,
    ensures
        ({
            let pressed = tracker.after(sample, around);
            &&& pressed.primary_touch == Some(sample.touch)
            &&& pressed.touch_down_position.x == sample.position.x
            &&& pressed.touch_down_position.y == sample.position.y
            &&& pressed.mouse_position.x == sample.position.x
            &&& pressed.mouse_position.y == sample.position.y
            &&& pressed.velocity.x.bits == 0 && pressed.velocity.y.bits == 0
            &&& pressed.last_move_timestamp == 0
            &&& pressed.last_touch_tap_count == sample.tap_count
            &&& pressed.began_at_millis == Some(sample.now_millis)
            &&& pressed.touch_pressed
            &&& !pressed.scroll_suppressed
            &&& pressed.fling is None
            &&& pressed.selection_dismissal_suppressed <==> around.had_selection && !around.hit_text
                && !around.hit_selection_area
        }),
{
}

/// A press is dispatched at the place of the finger, under its own number, unless it only dismisses a
/// selection: something is selected and the finger is neither on text nor on the selection.
pub proof fn presses_are_dispatched_under_the_finger(
    tracker: TouchTracker,
    sample: TouchSample,
    around: TouchSurroundings,
    modifiers: Modifiers,
)
    requires
        tracker.primary_touch is None,
        sample.phase is Began,
    ensures
        if around.had_selection && !around.hit_text && !around.hit_selection_area {
            tracker.step(sample, around, modifiers) is DismissSelection
        } else {
            tracker.step(sample, around, modifiers) matches TouchStep::Press(
                PlatformInput::PointerDown(event),
            ) && {
                &&& event.pointer_id == sample.touch
                &&& event.kind is Touch
                &&& event.is_primary
                &&& event.button is Primary
                &&& event.position.x == sample.position.x
                &&& event.position.y == sample.position.y
                &&& event.modifiers == modifiers
            }
        },
{
}

/// The place where a gesture began stays its place until the finger leaves: whatever is reported, and
/// whatever the application prevents, as long as the finger is tracked.
pub proof fn a_gesture_keeps_the_place_where_it_began(
    tracker: TouchTracker,
    sample: TouchSample,
    around: TouchSurroundings,
    default_prevented: bool,
)
    requires
        tracker.primary_touch is Some,
    ensures
        tracker.after(sample, around).touch_down_position.x == tracker.touch_down_position.x,
        tracker.after(sample, around).touch_down_position.y == tracker.touch_down_position.y,
        tracker.moved_on(default_prevented).touch_down_position.x == tracker.touch_down_position.x,
        tracker.moved_on(default_prevented).touch_down_position.y == tracker.touch_down_position.y,
        tracker.moved_on(default_prevented).primary_touch == tracker.primary_touch,
{
}

/// What goes on while a finger is tracked: a report, or a move that is gone on with.
pub enum GesturePart {
    Report(TouchSample, TouchSurroundings),
    Moved(bool),
}

/// The tracker after a part of a gesture.
pub open spec fn after_part(tracker: TouchTracker, part: GesturePart) -> TouchTracker {
    match part {
        GesturePart::Report(sample, around) => tracker.after(sample, around),
        GesturePart::Moved(default_prevented) => tracker.moved_on(default_prevented),
    }
}

/// Every scroll of a gesture happens where its finger went down, and by the way that the finger made,
/// however much has been reported in between; there is none once the application took the gesture over.
///
/// The tracker is in the first of the states after the finger went down, and in each later one after one
/// more part of the gesture. The finger is tracked all the time.
pub proof fn every_scroll_of_a_gesture_is_where_it_began(
    tracker: TouchTracker,
    press: TouchSample,
    around: TouchSurroundings,
    parts: Seq<GesturePart>,
    states: Seq<TouchTracker>,
    delta: Point,
    modifiers: Modifiers,
    default_prevented: bool,
)
    requires
        tracker.primary_touch is None,
        press.phase is Began,
        states.len() == parts.len() + 1,
        states[0] == tracker.after(press, around),
        forall|i: int|
            0 <= i < parts.len() ==> states[i + 1] == after_part(states[i], #[trigger] parts[i]),
        forall|i: int|
            0 <= i < states.len() ==> (#[trigger] states[i]).primary_touch == Some(press.touch),
    ensures
        match states.last().scroll_of_move(delta, modifiers, default_prevented) {
            Some(PlatformInput::ScrollWheel(event)) => {
                &&& !default_prevented && !states.last().scroll_suppressed
                &&& event.position.x == press.position.x
                &&& event.position.y == press.position.y
                &&& event.delta.x == delta.x
                &&& event.delta.y == delta.y
                &&& event.modifiers == modifiers
                &&& event.touch_phase is Moved
            },
            Some(_) => false,
            None => default_prevented || states.last().scroll_suppressed,
        },
{
    lemma_place_of_gesture(tracker, press, around, parts, states);
}

/// The place where the finger went down is remembered all through its gesture.
proof fn lemma_place_of_gesture(
    tracker: TouchTracker,
    press: TouchSample,
    around: TouchSurroundings,
    parts: Seq<GesturePart>,
    states: Seq<TouchTracker>,
)
    requires
        tracker.primary_touch is None,
        press.phase is Began,
        states.len() == parts.len() + 1,
        states[0] == tracker.after(press, around),
        forall|i: int|
            0 <= i < parts.len() ==> states[i + 1] == after_part(states[i], #[trigger] parts[i]),
        forall|i: int|
            0 <= i < states.len() ==> (#[trigger] states[i]).primary_touch == Some(press.touch),
    ensures
        states.last().touch_down_position == press.position,
    decreases parts.len(),
{
    if parts.len() > 0 {
        let last = parts.len() - 1;
        assert(states[last + 1] == after_part(states[last], parts[last]));
        let earlier = states.drop_last();
        assert forall|i: int| 0 <= i < parts.drop_last().len() implies earlier[i + 1] == after_part(
            earlier[i],
            #[trigger] parts.drop_last()[i],
        ) by {
            assert(states[i + 1] == after_part(states[i], parts[i]));
        }
        assert(states[last].primary_touch == Some(press.touch));
        lemma_place_of_gesture(tracker, press, around, parts.drop_last(), earlier);
    }
}

/// A move of the tracked finger that is news is dispatched where the finger is, and its time and its
/// speed are remembered; any other move changes nothing but where the pointer was last seen.
pub proof fn moves_are_dispatched_under_the_finger(
    tracker: TouchTracker,
    sample: TouchSample,
    around: TouchSurroundings,
    modifiers: Modifiers,
)
    requires
        sample.phase is Moved,
    ensures
        tracker.after(sample, around).mouse_position.x == sample.position.x,
        tracker.after(sample, around).mouse_position.y == sample.position.y,
        tracker.after(sample, around).primary_touch == tracker.primary_touch,
        tracker.after(sample, around).scroll_suppressed == tracker.scroll_suppressed,
        tracker.after(sample, around).fling == tracker.fling,
        match tracker.step(sample, around, modifiers) {
            TouchStep::Move(PlatformInput::PointerMove(event)) => {
                &&& tracker.primary_touch == Some(sample.touch)
                &&& !tracker.selection_dismissal_suppressed
                &&& event.pointer_id == sample.touch
                &&& event.kind is Touch
                &&& event.is_primary
                &&& event.pressed_button is Some && event.pressed_button->0 is Primary
                &&& event.position.x == sample.position.x
                &&& event.position.y == sample.position.y
                &&& event.modifiers == modifiers
                &&& tracker.after(sample, around).last_move_timestamp == sample.timestamp
                &&& tracker.after(sample, around).velocity.x == sample.velocity.x
                &&& tracker.after(sample, around).velocity.y == sample.velocity.y
            },
            TouchStep::Ignore => {
                &&& tracker.primary_touch != Some(sample.touch)
                    || tracker.selection_dismissal_suppressed || same_time(
                    sample.timestamp,
                    tracker.last_move_timestamp,
                )
                &&& tracker.after(sample, around) == (TouchTracker {
                    mouse_position: sample.position,
                    ..tracker
                })
            },
            _ => false,
        },
{
}

/// When the tracked finger leaves, its release is dispatched where it left, and when it is taken away its
/// cancellation; nothing is, if the touch only dismissed a selection.
pub proof fn releases_are_dispatched_under_the_finger(
    tracker: TouchTracker,
    sample: TouchSample,
    around: TouchSurroundings,
    modifiers: Modifiers,
)
    requires
        tracker.primary_touch == Some(sample.touch),
        sample.phase is Ended || sample.phase is Cancelled,
    ensures
        tracker.after(sample, around).primary_touch is None,
        tracker.after(sample, around).began_at_millis is None,
        !tracker.after(sample, around).touch_pressed,
        tracker.after(sample, around).velocity == tracker.velocity,
        match tracker.step(sample, around, modifiers) {
            TouchStep::Release(PlatformInput::PointerUp(event)) => {
                &&& sample.phase is Ended
                &&& !tracker.selection_dismissal_suppressed
                &&& event.pointer_id == sample.touch
                &&& event.kind is Touch
                &&& event.is_primary
                &&& event.button is Primary
                &&& event.position.x == sample.position.x
                &&& event.position.y == sample.position.y
                &&& event.modifiers == modifiers
            },
            TouchStep::Release(PlatformInput::PointerCancel(event)) => {
                &&& sample.phase is Cancelled
                &&& !tracker.selection_dismissal_suppressed
                &&& event.pointer_id == sample.touch
                &&& event.kind is Touch
                &&& event.is_primary
                &&& event.position.x == sample.position.x
                &&& event.position.y == sample.position.y
                &&& event.modifiers == modifiers
            },
            TouchStep::Ignore => tracker.selection_dismissal_suppressed,
            _ => false,
        },
{
}

/// A finger that rests is no news, and a finger that is not tracked stops the content and nothing else.
pub proof fn other_reports_cause_nothing(
    tracker: TouchTracker,
    sample: TouchSample,
    around: TouchSurroundings,
    modifiers: Modifiers,
)
    requires
        sample.phase is Stationary || (tracker.primary_touch is Some && (sample.phase is Began
            || tracker.primary_touch != Some(sample.touch))),
    ensures
        tracker.step(sample, around, modifiers) is Ignore,
        ({
            let after = tracker.after(sample, around);
            &&& after.mouse_position == sample.position
            &&& after.primary_touch == tracker.primary_touch
            &&& after.touch_down_position == tracker.touch_down_position
            &&& after.last_move_timestamp == tracker.last_move_timestamp
            &&& after.last_touch_tap_count == tracker.last_touch_tap_count
            &&& after.began_at_millis == tracker.began_at_millis
            &&& after.touch_pressed == tracker.touch_pressed
            &&& after.scroll_suppressed == tracker.scroll_suppressed
            &&& after.selection_dismissal_suppressed == tracker.selection_dismissal_suppressed
            &&& if sample.phase is Began {
                after.fling is None && after.velocity.x.bits == 0 && after.velocity.y.bits == 0
            } else {
                after.fling == tracker.fling && after.velocity == tracker.velocity
            }
        }),
{
}

/// Content goes on scrolling only after a fast finger left that the application did not take over: with
/// the speed of its last move and from where it left.
pub proof fn flings_start_where_the_finger_left(
    tracker: TouchTracker,
    phase: UITouchPhase,
    position: Point,
    default_prevented: bool,
    exceeds_fling_threshold: bool,
)
    requires
        tracker.fling is None,
    ensures
        !tracker.released(phase, position, default_prevented, exceeds_fling_threshold).scroll_suppressed,
        match tracker.released(phase, position, default_prevented, exceeds_fling_threshold).fling {
            Some(fling) => {
                &&& phase is Ended && exceeds_fling_threshold && !default_prevented
                    && !tracker.scroll_suppressed
                &&& fling.velocity.x == tracker.velocity.x
                &&& fling.velocity.y == tracker.velocity.y
                &&& fling.position.x == position.x
                &&& fling.position.y == position.y
            },
            None => phase !is Ended || !exceeds_fling_threshold || default_prevented
                || tracker.scroll_suppressed,
        },
{
}

/// Times are compared as numbers: both zeros are the same time, what is no number is the same as nothing,
/// and otherwise only equal patterns are.
pub proof fn times_are_compared_as_numbers(a: u64, b: u64)
    ensures
        same_time(a, b) == same_time(b, a),
        a % 0x8000_0000_0000_0000 > 0x7ff0_0000_0000_0000 ==> !same_time(a, b),
        a % 0x8000_0000_0000_0000 <= 0x7ff0_0000_0000_0000 ==> same_time(a, a),
        same_time(0, 0x8000_0000_0000_0000),
        same_time(a, b) ==> a == b || (a % 0x8000_0000_0000_0000 == 0 && b % 0x8000_0000_0000_0000
            == 0),
{
}

} // verus!
