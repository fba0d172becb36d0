//! Synthetic gestures: they are queued, play out one at a time, and are reported as finished.
use crate::geometry::Pixels;
use std::collections::{HashSet, VecDeque};
use vstd::prelude::*;

verus! {

broadcast use vstd::std_specs::hash::group_hash_axioms;

/// What a synthetic gesture does.
#[derive(Clone, Copy, Debug, PartialEq, Eq, Structural)]
pub enum GestureKind {
    Press,
    LongPress,
}

/// One step of a synthetic gesture.
#[derive(Clone, Copy, Debug, PartialEq, Eq, Structural)]
pub enum GestureEvent {
    Down(Pixels, Pixels),
    Move(Pixels, Pixels),
    Up(Pixels, Pixels),
}

/// How long a press is held, in nanoseconds.
pub const PRESS_HOLD_NANOS: u64 = 30_000_000;

/// How long a long press is held, in nanoseconds.
pub const LONG_PRESS_HOLD_NANOS: u64 = 600_000_000;

/// How long a caller waits for a gesture to finish, in milliseconds.
pub const GESTURE_WAIT_TIMEOUT_MILLIS: u64 = 2000;

/// A step with the nanoseconds after the start of its gesture at which it is due.
#[derive(Clone, Copy, Debug, PartialEq, Eq, Structural)]
pub struct GestureStep {
    pub event: GestureEvent,
    pub offset: u64,
}

/// A gesture that waits for its turn.
#[derive(Clone, Copy, Debug, PartialEq, Eq, Structural)]
pub struct QueuedGesture {
    pub request_id: u64,
    pub x: Pixels,
    pub y: Pixels,
    pub kind: GestureKind,
}

/// How long a gesture is held.
pub open spec fn hold_nanos(kind: GestureKind) -> u64 {
    match kind {
        GestureKind::Press => PRESS_HOLD_NANOS,
        GestureKind::LongPress => LONG_PRESS_HOLD_NANOS,
    }
}

/// The steps of a gesture: down at once, up at the same point when the hold is over.
pub open spec fn planned(x: Pixels, y: Pixels, kind: GestureKind) -> Seq<GestureStep> {
    seq![
        GestureStep { event: GestureEvent::Down(x, y), offset: 0 },
        GestureStep { event: GestureEvent::Up(x, y), offset: hold_nanos(kind) },
    ]
}

/// Plans the steps of a gesture.
pub fn plan_gesture(x: Pixels, y: Pixels, kind: GestureKind) -> (steps: VecDeque<GestureStep>)
    ensures
        steps@ == planned(x, y, kind),
{
    let hold: u64 = match kind {
        GestureKind::Press => PRESS_HOLD_NANOS,
        GestureKind::LongPress => LONG_PRESS_HOLD_NANOS,
    };
    let mut steps: VecDeque<GestureStep> = VecDeque::new();
    steps.push_back(GestureStep { event: GestureEvent::Down(x, y), offset: 0 });
    steps.push_back(GestureStep { event: GestureEvent::Up(x, y), offset: hold });
    assert(steps@ =~= planned(x, y, kind));
    steps
}

/// A gesture that plays out.
pub struct ActiveGesture {
    pub steps: VecDeque<GestureStep>,
    pub started_at: u64,
    pub request_id: u64,
}

/// What is left of a gesture that plays out.
pub struct ActiveGestureView {
    pub steps: Seq<GestureStep>,
    pub started_at: u64,
    pub request_id: u64,
}

/// The gestures of an application.
pub struct GestureView {
    pub active: Option<ActiveGestureView>,
    pub queue: Seq<QueuedGesture>,
    pub next_id: u64,
    pub done: Set<u64>,
}

/// Gestures that were asked for: at most one plays out, the others wait in order, and finished ones
/// are remembered until somebody asks.
pub struct GestureQueue {
    pub active: Option<ActiveGesture>,
    pub queue: VecDeque<QueuedGesture>,
    pub next_id: u64,
    pub done: HashSet<u64>,
}

impl View for GestureQueue {
    type V = GestureView;

    open spec fn view(&self) -> GestureView {
        GestureView {
            active: match self.active {
                Some(gesture) => Some(
                    ActiveGestureView {
                        steps: gesture.steps@,
                        started_at: gesture.started_at,
                        request_id: gesture.request_id,
                    },
                ),
                None => None,
            },
            queue: self.queue@,
            next_id: self.next_id,
            done: self.done@,
        }
    }
}

impl GestureQueue {
    /// Starts without gestures. The first gets number one.
    pub fn new() -> (queue: Self)
        ensures
            queue@ == (GestureView {
                active: None,
                queue: Seq::empty(),
                next_id: 1,
                done: Set::empty(),
            }),
    {
        GestureQueue { active: None, queue: VecDeque::new(), next_id: 1, done: HashSet::new() }
    }
}

/// Queues a gesture behind those already asked for, and gives it a number.
pub fn enqueue_gesture(gestures: &mut GestureQueue, x: Pixels, y: Pixels, kind: GestureKind) -> (id:
    u64)
    requires
        old(gestures).next_id < u64::MAX,
    ensures
        id == old(gestures).next_id,
        final(gestures)@ == (GestureView {
            queue: old(gestures)@.queue.push(QueuedGesture { request_id: id, x, y, kind }),
            next_id: (id + 1) as u64,
            ..old(gestures)@
        }),
{
    let id: u64 = gestures.next_id;
    gestures.next_id = id + 1;
    gestures.queue.push_back(QueuedGesture { request_id: id, x, y, kind });
    id
}

/// Tells whether a gesture has finished, after waiting for it, and forgets it. Where the wait ran
/// out it has not.
pub fn wait_for_gesture(gestures: &mut GestureQueue, id: u64, timed_out: bool) -> (completed: bool)
    ensures
        completed == (old(gestures)@.done.contains(id) && !timed_out),
        final(gestures)@ == (GestureView {
            done: old(gestures)@.done.remove(id),
            ..old(gestures)@
        }),
{
    let completed: bool = gestures.done.remove(&id);
    assert(gestures@.done =~= old(gestures)@.done.remove(id));
    completed && !timed_out
}

/// How much time went by, which is none where the clock ran backwards.
pub open spec fn elapsed(started_at: u64, now: u64) -> int {
    if now >= started_at {
        now - started_at
    } else {
        0
    }
}

/// How many of the first steps are due: all before the first that is not.
pub open spec fn due_count(steps: Seq<GestureStep>, nanos: int) -> nat
    decreases steps.len(),
{
    if steps.len() == 0 || nanos < steps[0].offset {
        0
    } else {
        1 + due_count(steps.skip(1), nanos)
    }
}

/// The events of steps.
pub open spec fn events(steps: Seq<GestureStep>) -> Seq<GestureEvent> {
    steps.map_values(|step: GestureStep| step.event)
}

/// The events that fire within a time.
pub open spec fn due_events(steps: Seq<GestureStep>, nanos: int) -> Seq<GestureEvent> {
    events(steps.take(due_count(steps, nanos) as int))
}

/// The gestures after the next has been taken up, if none plays out yet.
pub open spec fn taken_up(state: GestureView, now: u64) -> GestureView {
    if state.active is None && state.queue.len() > 0 {
        let next = state.queue[0];
        GestureView {
            active: Some(
                ActiveGestureView {
                    steps: planned(next.x, next.y, next.kind),
                    started_at: now,
                    request_id: next.request_id,
                },
            ),
            queue: state.queue.skip(1),
            ..state
        }
    } else {
        state
    }
}

/// The gestures after the events that are due have fired: a gesture without steps left is done.
pub open spec fn fired(state: GestureView, now: u64) -> GestureView {
    match state.active {
        Some(gesture) => {
            let count = due_count(gesture.steps, elapsed(gesture.started_at, now));
            if count == gesture.steps.len() {
                GestureView { active: None, done: state.done.insert(gesture.request_id), ..state }
            } else {
                GestureView {
                    active: Some(
                        ActiveGestureView { steps: gesture.steps.skip(count as int), ..gesture },
                    ),
                    ..state
                }
            }
        },
        None => state,
    }
}

/// The events that are due of the gesture that plays out.
pub open spec fn events_due(state: GestureView, now: u64) -> Seq<GestureEvent> {
    match state.active {
        Some(gesture) => due_events(gesture.steps, elapsed(gesture.started_at, now)),
        None => Seq::empty(),
    }
}

proof fn lemma_due_count_is_bounded(steps: Seq<GestureStep>, nanos: int)
    ensures
        due_count(steps, nanos) <= steps.len(),
    decreases steps.len(),
{
    if steps.len() > 0 {
        lemma_due_count_is_bounded(steps.skip(1), nanos);
    }
}

/// Fires the events that are due now. A gesture spans many calls, and the next starts only when it
/// is done.
pub fn drain_gesture_events(gestures: &mut GestureQueue, now: u64) -> (due: Vec<GestureEvent>)
    ensures
        due@ == events_due(taken_up(old(gestures)@, now), now),
        final(gestures)@ == fired(taken_up(old(gestures)@, now), now),
{
    let ghost before = gestures@;
    let mut due: Vec<GestureEvent> = Vec::new();
    let current: Option<ActiveGesture> = match gestures.active.take() {
        Some(gesture) => Some(gesture),
        None => match gestures.queue.pop_front() {
            Some(next) => {
                assert(gestures.queue@ =~= before.queue.skip(1));
                Some(
                    ActiveGesture {
                        steps: plan_gesture(next.x, next.y, next.kind),
                        started_at: now,
                        request_id: next.request_id,
                    },
                )
            },
            None => None,
        },
    };
    match current {
        Some(gesture) => {
            let nanos: u64 = if now >= gesture.started_at {
                now - gesture.started_at
            } else {
                0
            };
            let mut steps: VecDeque<GestureStep> = gesture.steps;
            let ghost all = steps@;
            let ghost count = due_count(all, nanos as int);
            let ghost mut done: int = 0;
            proof {
                assert(all.skip(0) =~= all);
                assert(due@ =~= events(all.take(0)));
                lemma_due_count_is_bounded(all, nanos as int);
            }
            while steps.len() > 0 && nanos >= steps[0].offset
                invariant
                    0 <= done <= all.len(),
                    steps@ == all.skip(done),
                    count == due_count(all, nanos as int),
                    count == done + due_count(steps@, nanos as int),
                    due@ == events(all.take(done)),
                decreases steps@.len(),
            {
                if let Some(step) = steps.pop_front() {
                    due.push(step.event);
                    proof {
                        let rest = all.skip(done);
                        assert(rest.skip(1) =~= all.skip(done + 1));
                        assert(steps@ =~= all.skip(done + 1));
                        assert(due@ =~= events(all.take(done + 1)));
                        done = done + 1;
                    }
                }
            }
            assert(done == count);
            if steps.len() == 0 {
                gestures.done.insert(gesture.request_id);
            } else {
                gestures.active = Some(
                    ActiveGesture {
                        steps,
                        started_at: gesture.started_at,
                        request_id: gesture.request_id,
                    },
                );
            }
        },
        None => {},
    }
    due
}

/// However often events are drained in between, the same events fire in the same order: those due
/// at an earlier time and then those due of what is left are those due at the later time.
pub proof fn draining_often_changes_nothing(steps: Seq<GestureStep>, earlier: int, later: int)
    requires
        earlier <= later,
    ensures
        ({
            let rest = steps.skip(due_count(steps, earlier) as int);
            &&& due_events(steps, earlier) + due_events(rest, later) == due_events(steps, later)
            &&& due_count(steps, earlier) + due_count(rest, later) == due_count(steps, later)
        }),
    decreases steps.len(),
{
    lemma_due_count_is_bounded(steps, earlier);
    lemma_due_count_is_bounded(steps, later);
    let count = due_count(steps, earlier) as int;
    let rest = steps.skip(count);
    if count == 0 {
        assert(rest =~= steps);
    } else {
        let tail = steps.skip(1);
        draining_often_changes_nothing(tail, earlier, later);
        assert(tail.skip(due_count(tail, earlier) as int) =~= rest);
    }
    lemma_due_count_is_bounded(rest, later);
    assert(due_events(steps, earlier) + due_events(rest, later) =~= due_events(steps, later));
}

/// A gesture presses down as soon as it is taken up, lifts when it has been held for its time, and
/// is done then and not before.
pub proof fn a_gesture_holds_its_time(state: GestureView, now: u64, later: u64)
    requires
        state.active is None,
        state.queue.len() > 0,
        now <= later,
    ensures
        ({
            let next = state.queue[0];
            let held = fired(taken_up(state, now), now);
            &&& events_due(taken_up(state, now), now) == seq![GestureEvent::Down(next.x, next.y)]
            &&& held.done == state.done
            &&& if later - now >= hold_nanos(next.kind) {
                &&& events_due(taken_up(held, later), later) == seq![
                    GestureEvent::Up(next.x, next.y),
                ]
                &&& fired(taken_up(held, later), later).done == state.done.insert(next.request_id)
            } else {
                &&& events_due(taken_up(held, later), later) == Seq::<GestureEvent>::empty()
                &&& fired(taken_up(held, later), later).done == state.done
            }
        }),
{
    let next = state.queue[0];
    let steps = planned(next.x, next.y, next.kind);
    let tail = steps.skip(1);
    assert(tail[0] == steps[1]);
    assert(tail.skip(1).len() == 0);
    assert(due_count(tail, 0) == 0);
    assert(due_count(steps, 0) == 1);
    assert(due_events(steps, 0) =~= seq![GestureEvent::Down(next.x, next.y)]);
    let nanos = later - now;
    assert(due_count(tail.skip(1), nanos) == 0);
    if nanos >= hold_nanos(next.kind) {
        assert(due_count(tail, nanos) == 1);
        assert(due_events(tail, nanos) =~= seq![GestureEvent::Up(next.x, next.y)]);
    } else {
        assert(due_count(tail, nanos) == 0);
        assert(due_events(tail, nanos) =~= Seq::<GestureEvent>::empty());
    }
}

/// While a gesture plays out, the others wait in order.
pub proof fn gestures_play_one_at_a_time(state: GestureView, now: u64)
    requires
        state.active is Some,
    ensures
        fired(taken_up(state, now), now).queue == state.queue,
{
}

/// A press goes down and up at its point thirty milliseconds apart, a long press six hundred.
pub proof fn presses_are_held_for_their_time(x: Pixels, y: Pixels)
    ensures
        ({
            let press = planned(x, y, GestureKind::Press);
            &&& press.len() == 2
            &&& press[0].event == GestureEvent::Down(x, y)
            &&& press[0].offset == 0
            &&& press[1].event == GestureEvent::Up(x, y)
            &&& press[1].offset == 30_000_000
        }),
        ({
            let press = planned(x, y, GestureKind::LongPress);
            &&& press.len() == 2
            &&& press[0].event == GestureEvent::Down(x, y)
            &&& press[0].offset == 0
            &&& press[1].event == GestureEvent::Up(x, y)
            &&& press[1].offset == 600_000_000
        }),
{
}

/// The steps that fire are the first ones whose time has come: each of them is due, and the one
/// behind them is not. They fire in order.
pub proof fn steps_fire_when_their_time_has_come(steps: Seq<GestureStep>, nanos: int)
    ensures
        due_events(steps, nanos).len() <= steps.len(),
        forall|i: int|
            0 <= i < due_events(steps, nanos).len() ==> {
                &&& #[trigger] due_events(steps, nanos)[i] == steps[i].event
                &&& steps[i].offset <= nanos
            },
        due_events(steps, nanos).len() < steps.len() ==> steps[due_events(
            steps,
            nanos,
        ).len() as int].offset > nanos,
    decreases steps.len(),
{
    lemma_due_count_is_bounded(steps, nanos);
    if steps.len() > 0 && nanos >= steps[0].offset {
        let tail = steps.skip(1);
        steps_fire_when_their_time_has_come(tail, nanos);
        assert forall|i: int| 0 <= i < due_events(steps, nanos).len() implies {
            &&& #[trigger] due_events(steps, nanos)[i] == steps[i].event
            &&& steps[i].offset <= nanos
        } by {
            if i > 0 {
                assert(due_events(tail, nanos)[i - 1] == tail[i - 1].event);
            }
        }
    }
}

/// Where no gesture plays out, the one that has waited longest is taken up and its time starts now.
/// The others keep their places, and where none waits nothing happens.
pub proof fn the_first_in_line_is_taken_up(state: GestureView, now: u64)
    requires
        state.active is None,
    ensures
        state.queue.len() == 0 ==> {
            &&& events_due(taken_up(state, now), now).len() == 0
            &&& fired(taken_up(state, now), now) == state
        },
        state.queue.len() > 0 ==> {
            let after = fired(taken_up(state, now), now);
            &&& after.active matches Some(playing)
            &&& playing.request_id == state.queue[0].request_id
            &&& playing.started_at == now
            &&& playing.steps.len() == 1
            &&& playing.steps[0].event == GestureEvent::Up(state.queue[0].x, state.queue[0].y)
            &&& after.queue.len() == state.queue.len() - 1
            &&& forall|i: int|
                0 <= i < after.queue.len() ==> #[trigger] after.queue[i] == state.queue[i + 1]
            &&& after.next_id == state.next_id
            &&& after.done == state.done
        },
{
    if state.queue.len() > 0 {
        let next = state.queue[0];
        let steps = planned(next.x, next.y, next.kind);
        let tail = steps.skip(1);
        assert(tail[0] == steps[1]);
        assert(due_count(tail, 0) == 0);
        assert(due_count(steps, 0) == 1);
    }
}

/// While a gesture plays out, what is left of it are the steps that have not fired, counted from
/// when it started, and where the clock ran backwards no time has gone by. When none is left it is
/// done, and no other gesture is.
pub proof fn a_gesture_plays_out_step_by_step(state: GestureView, now: u64)
    requires
        state.active is Some,
    ensures
        ({
            let playing = state.active->0;
            let after = fired(taken_up(state, now), now);
            let due = events_due(taken_up(state, now), now);
            let nanos = if now >= playing.started_at {
                now - playing.started_at
            } else {
                0
            };
            &&& due == due_events(playing.steps, nanos)
            &&& due.len() == playing.steps.len() ==> {
                &&& after.active is None
                &&& forall|id: u64| #[trigger]
                    after.done.contains(id) <==> state.done.contains(id) || id == playing.request_id
            }
            &&& due.len() < playing.steps.len() ==> {
                &&& after.active matches Some(left)
                &&& left.steps.len() == playing.steps.len() - due.len()
                &&& forall|i: int|
                    0 <= i < left.steps.len() ==> #[trigger] left.steps[i] == playing.steps[i
                        + due.len()]
                &&& left.started_at == playing.started_at
                &&& left.request_id == playing.request_id
                &&& after.done == state.done
            }
        }),
{
    lemma_due_count_is_bounded(
        state.active->0.steps,
        elapsed(state.active->0.started_at, now),
    );
}

/// Gestures show what plays out, who waits, which number comes next and which are done.
pub proof fn gestures_show_what_they_hold(gestures: GestureQueue)
    ensures
        gestures.active is None <==> gestures@.active is None,
        gestures.active matches Some(playing) ==> {
            &&& gestures@.active->0.steps == playing.steps@
            &&& gestures@.active->0.started_at == playing.started_at
            &&& gestures@.active->0.request_id == playing.request_id
        },
        gestures@.queue == gestures.queue@,
        gestures@.next_id == gestures.next_id,
        gestures@.done == gestures.done@,
{
}

} // verus!
