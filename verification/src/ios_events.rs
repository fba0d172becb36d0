//! Touch phases as UIKit numbers them.
use crate::platform_input::{Modifiers, TouchPhase};
use vstd::prelude::*;

verus! {

/// Touch phase from UIKit.
#[derive(Clone, Copy, Debug, PartialEq, Eq, Structural)]
pub enum UITouchPhase {
    Began,
    Moved,
    Stationary,
    Ended,
    Cancelled,
}

/// The phase UIKit numbers; unknown numbers cancel.
pub open spec fn phase_of(value: i64) -> UITouchPhase {
    if value == 0 {
        UITouchPhase::Began
    } else if value == 1 {
        UITouchPhase::Moved
    } else if value == 2 {
        UITouchPhase::Stationary
    } else if value == 3 {
        UITouchPhase::Ended
    } else {
        UITouchPhase::Cancelled
    }
}

impl vstd::std_specs::convert::FromSpecImpl<i64> for UITouchPhase {
    open spec fn obeys_from_spec() -> bool {
        true
    }

    open spec fn from_spec(value: i64) -> UITouchPhase {
        phase_of(value)
    }
}

impl From<i64> for UITouchPhase {
    fn from(value: i64) -> (phase: Self) {
        match value {
            0 => UITouchPhase::Began,
            1 => UITouchPhase::Moved,
            2 => UITouchPhase::Stationary,
            3 => UITouchPhase::Ended,
            _ => UITouchPhase::Cancelled,
        }
    }
}

/// Where a gesture stands in a UIKit phase: a resting touch counts as moving and a cancelled one as
/// ended.
pub open spec fn gesture_phase(phase: UITouchPhase) -> TouchPhase {
    match phase {
        UITouchPhase::Began => TouchPhase::Started,
        UITouchPhase::Moved => TouchPhase::Moved,
        UITouchPhase::Stationary => TouchPhase::Moved,
        UITouchPhase::Ended => TouchPhase::Ended,
        UITouchPhase::Cancelled => TouchPhase::Ended,
    }
}

impl vstd::std_specs::convert::FromSpecImpl<UITouchPhase> for TouchPhase {
    open spec fn obeys_from_spec() -> bool {
        true
    }

    open spec fn from_spec(phase: UITouchPhase) -> TouchPhase {
        gesture_phase(phase)
    }
}

impl From<UITouchPhase> for TouchPhase {
    fn from(phase: UITouchPhase) -> (touch_phase: Self) {
        match phase {
            UITouchPhase::Began => TouchPhase::Started,
            UITouchPhase::Moved => TouchPhase::Moved,
            UITouchPhase::Stationary => TouchPhase::Moved,
            UITouchPhase::Ended => TouchPhase::Ended,
            UITouchPhase::Cancelled => TouchPhase::Ended,
        }
    }
}

/// The modifiers held during touches: none, as touches come without a keyboard.
pub fn get_current_modifiers() -> (modifiers: Modifiers)
    ensures
        modifiers == Modifiers::none(),
{
    Modifiers::default()
}

/// The five numbers of UIKit are the five phases in order, and every other number cancels.
pub proof fn phases_are_numbered_in_order(value: i64)
    ensures
        phase_of(value) is Began <==> value == 0,
        phase_of(value) is Moved <==> value == 1,
        phase_of(value) is Stationary <==> value == 2,
        phase_of(value) is Ended <==> value == 3,
        phase_of(value) is Cancelled <==> value < 0 || value > 3,
{
}

/// A gesture starts when its finger goes down, and ends when it leaves or is taken away.
pub proof fn gestures_start_and_end_with_their_finger(phase: UITouchPhase)
    ensures
        gesture_phase(phase) is Started <==> phase is Began,
        gesture_phase(phase) is Ended <==> phase is Ended || phase is Cancelled,
        gesture_phase(phase) is Moved <==> phase is Moved || phase is Stationary,
{
}

} // verus!
