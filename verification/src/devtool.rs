//! What a running application shows to its development tools: the elements on screen, published
//! when somebody asks, and the queue of calls that wait for the next frame.
use crate::element_id;
use crate::element_id::{format_path, GlobalElementId};
use crate::geometry::{Bounds, Pixels};
use crate::json;
use crate::json::JsonView;
use serde_json::Value;
use std::collections::{HashMap, VecDeque};
use vstd::prelude::*;
use vstd::string::*;

verus! {

broadcast use vstd::std_specs::hash::group_hash_axioms;

/// The longest wait for a fresh publish, in milliseconds.
pub const PUBLISH_WAIT_TIMEOUT_MILLIS: u64 = 2000;

/// An element that takes input, as it was painted.
#[derive(Debug, PartialEq, Eq)]
pub struct Entry {
    /// The path of the element, joined by slashes.
    pub path: String,
    /// Tells elements with the same path apart within a frame.
    pub instance_id: usize,
    pub x: Pixels,
    pub y: Pixels,
    pub width: Pixels,
    pub height: Pixels,
}

/// What an entry holds.
pub struct EntryView {
    pub path: Seq<char>,
    pub instance_id: usize,
    pub x: Pixels,
    pub y: Pixels,
    pub width: Pixels,
    pub height: Pixels,
}

impl View for Entry {
    type V = EntryView;

    open spec fn view(&self) -> EntryView {
        EntryView {
            path: self.path@,
            instance_id: self.instance_id,
            x: self.x,
            y: self.y,
            width: self.width,
            height: self.height,
        }
    }
}

impl Clone for Entry {
    fn clone(&self) -> (copy: Self)
        ensures
            copy@ == self@,
    {
        Entry {
            path: self.path.clone(),
            instance_id: self.instance_id,
            x: self.x,
            y: self.y,
            width: self.width,
            height: self.height,
        }
    }
}

/// What a list of entries holds.
pub open spec fn entry_list(entries: Seq<Entry>) -> Seq<EntryView> {
    entries.map_values(|entry: Entry| entry@)
}

/// The elements of a frame.
#[derive(Debug, PartialEq, Eq)]
pub struct Snapshot {
    pub frame_id: u64,
    pub entries: Vec<Entry>,
}

impl View for Snapshot {
    type V = (u64, Seq<EntryView>);

    open spec fn view(&self) -> (u64, Seq<EntryView>) {
        (self.frame_id, entry_list(self.entries@))
    }
}

impl Clone for Snapshot {
    fn clone(&self) -> (copy: Self)
        ensures
            copy@ == self@,
    {
        let mut entries: Vec<Entry> = Vec::new();
        let mut i: usize = 0;
        while i < self.entries.len()
            invariant
                i <= self.entries@.len(),
                entry_list(entries@) == entry_list(self.entries@).take(i as int),
            decreases self.entries@.len() - i,
        {
            let entry: Entry = self.entries[i].clone();
            let ghost before = entry_list(entries@);
            entries.push(entry);
            i = i + 1;
            assert(entry_list(entries@) =~= before.push(entry@));
            assert(entry_list(entries@) =~= entry_list(self.entries@).take(i as int));
        }
        assert(entry_list(self.entries@).take(i as int) =~= entry_list(self.entries@));
        Snapshot { frame_id: self.frame_id, entries }
    }
}

/// A region of a frame that takes input.
#[derive(Clone, Copy, Debug, PartialEq, Eq, Structural)]
pub struct Hitbox {
    pub id: u64,
    pub bounds: Bounds,
}

/// The element that a region belongs to.
#[derive(Debug, PartialEq, Eq)]
pub struct InspectorElementId {
    pub path: GlobalElementId,
    pub instance_id: usize,
}

/// The entry of a region.
pub open spec fn entry_of(hitbox: Hitbox, id: InspectorElementId) -> EntryView {
    EntryView {
        path: element_id::path_label(id.path@),
        instance_id: id.instance_id,
        x: hitbox.bounds.origin.x,
        y: hitbox.bounds.origin.y,
        width: hitbox.bounds.size.width,
        height: hitbox.bounds.size.height,
    }
}

/// The entries of a frame: one for each region that belongs to an element, in order.
pub open spec fn entries_of(hitboxes: Seq<Hitbox>, ids: Map<u64, InspectorElementId>) -> Seq<
    EntryView,
>
    decreases hitboxes.len(),
{
    if hitboxes.len() == 0 {
        Seq::empty()
    } else {
        let rest = entries_of(hitboxes.drop_last(), ids);
        let last = hitboxes.last();
        if ids.dom().contains(last.id) {
            rest.push(entry_of(last, ids[last.id]))
        } else {
            rest
        }
    }
}

/// The last frame that was published, and whether somebody waits for the next.
pub struct Registry {
    pub snapshot: Snapshot,
    pub needs_publish: bool,
    /// Counts the frames that were published.
    pub generation: u64,
}

impl Registry {
    /// Starts with an empty frame, and asks for the first.
    pub fn new() -> (registry: Self)
        ensures
            registry.snapshot@ == (0u64, Seq::<EntryView>::empty()),
            registry.needs_publish,
            registry.generation == 0,
    {
        let registry = Registry {
            snapshot: Snapshot { frame_id: 0, entries: Vec::new() },
            needs_publish: true,
            generation: 0,
        };
        assert(registry.snapshot@.1 =~= Seq::<EntryView>::empty());
        registry
    }

    /// Asks for a fresh frame, and tells which was the last before it.
    pub fn request_snapshot(&mut self) -> (seen_generation: u64)
        ensures
            seen_generation == old(self).generation,
            *final(self) == (Registry { needs_publish: true, ..*old(self) }),
    {
        self.needs_publish = true;
        self.generation
    }

    /// Whether no frame was published since that one.
    pub open spec fn awaits(self, seen_generation: u64) -> bool {
        self.generation <= seen_generation
    }

    /// Tests whether no frame was published since one was asked for.
    pub fn awaits_publish(&self, seen_generation: u64) -> (waits: bool)
        ensures
            waits == self.awaits(seen_generation),
    {
        self.generation <= seen_generation
    }

    /// The frame that was published last.
    pub fn snapshot(&self) -> (snapshot: Snapshot)
        ensures
            snapshot@ == self.snapshot@,
    {
        self.snapshot.clone()
    }
}

/// Tests whether a fresh frame has been asked for since the last was published.
pub fn has_pending_publish(registry: &Registry) -> (pending: bool)
    ensures
        pending == registry.needs_publish,
{
    registry.needs_publish
}

/// What publishing a frame makes of a registry: nothing, unless a frame was asked for since the last.
pub open spec fn published(
    before: Registry,
    after: Registry,
    frame_id: u64,
    hitboxes: Seq<Hitbox>,
    ids: Map<u64, InspectorElementId>,
) -> bool {
    if before.needs_publish {
        &&& !after.needs_publish
        &&& after.snapshot@ == (frame_id, entries_of(hitboxes, ids))
        &&& after.generation == before.generation + 1
    } else {
        after == before
    }
}

/// Replaces the published frame, if one was asked for since the last.
pub fn publish(
    registry: &mut Registry,
    frame_id: u64,
    hitboxes: &[Hitbox],
    ids: &HashMap<u64, InspectorElementId>,
)
    requires
        old(registry).generation < u64::MAX,
    ensures
        published(*old(registry), *final(registry), frame_id, hitboxes@, ids@),
{
    if !registry.needs_publish {
        return;
    }
    registry.needs_publish = false;
    let mut entries: Vec<Entry> = Vec::new();
    let mut i: usize = 0;
    assert(entry_list(entries@) =~= entries_of(hitboxes@.take(0), ids@));
    while i < hitboxes.len()
        invariant
            i <= hitboxes@.len(),
            entry_list(entries@) == entries_of(hitboxes@.take(i as int), ids@),
        decreases hitboxes@.len() - i,
    {
        let hitbox: Hitbox = hitboxes[i];
        let ghost before = entry_list(entries@);
        assert(hitboxes@.take(i as int + 1).drop_last() =~= hitboxes@.take(i as int));
        if let Some(id) = ids.get(&hitbox.id) {
            let entry = Entry {
                path: format_path(&id.path),
                instance_id: id.instance_id,
                x: hitbox.bounds.origin.x,
                y: hitbox.bounds.origin.y,
                width: hitbox.bounds.size.width,
                height: hitbox.bounds.size.height,
            };
            assert(entry@ == entry_of(hitbox, *id));
            entries.push(entry);
            assert(entry_list(entries@) =~= before.push(entry_of(hitbox, *id)));
        }
        i = i + 1;
    }
    assert(hitboxes@.take(hitboxes@.len() as int) =~= hitboxes@);
    registry.snapshot = Snapshot { frame_id, entries };
    registry.generation = registry.generation + 1;
}

/// What a call can give back.
pub trait IntoDevtoolResult: Sized {
    /// What is reported of the result.
    spec fn devtool_result(self) -> JsonView;

    /// Turns the result into what is reported of it.
    fn into_devtool_result(self) -> (value: Value)
        ensures
            json::json_content(value) == self.devtool_result(),
    ;
}

impl IntoDevtoolResult for () {
    open spec fn devtool_result(self) -> JsonView {
        JsonView::Null
    }

    fn into_devtool_result(self) -> (value: Value) {
        json::null_value()
    }
}

impl IntoDevtoolResult for Value {
    open spec fn devtool_result(self) -> JsonView {
        json::json_content(self)
    }

    fn into_devtool_result(self) -> (value: Value) {
        self
    }
}

/// A call that waits for the next frame.
pub struct PendingCall {
    pub id: u64,
    pub name: String,
    pub params: Value,
}

/// What came of a call.
pub struct CallOutcome {
    /// Whether the call was processed before the wait ran out.
    pub completed: bool,
    /// Whether something was registered under the name.
    pub invoked: bool,
    pub result: Value,
}

/// What waiting for a call makes of the results, and what is told of it: the result is taken out,
/// and where the wait ran out there is none.
pub open spec fn answered(
    before: Map<u64, (bool, Value)>,
    after: Map<u64, (bool, Value)>,
    id: u64,
    timed_out: bool,
    outcome: CallOutcome,
) -> bool {
    &&& outcome.completed == !timed_out
    &&& after == if timed_out {
        before
    } else {
        before.remove(id)
    }
    &&& if !timed_out && before.dom().contains(id) {
        (outcome.invoked, outcome.result) == before[id]
    } else {
        !outcome.invoked && json::json_content(outcome.result) == JsonView::Null
    }
}

/// Whether a call was queued behind the others and got the next number.
pub open spec fn enqueued(before: CallQueue, after: CallQueue, call: PendingCall) -> bool {
    &&& call.id == before.next_id
    &&& after.next_id == before.next_id + 1
    &&& after.pending@ == before.pending@.push(call)
}

/// Whether all calls that waited were taken out, in order.
pub open spec fn drained(before: CallQueue, after: CallQueue, calls: Seq<PendingCall>) -> bool {
    &&& calls == before.pending@
    &&& after.pending@ == Seq::<PendingCall>::empty()
    &&& after.next_id == before.next_id
}

/// Calls that wait for the next frame, and the results of those that ran.
pub struct CallQueue {
    pub pending: VecDeque<PendingCall>,
    pub next_id: u64,
    pub results: HashMap<u64, (bool, Value)>,
}

impl CallQueue {
    /// Starts without calls. The first gets number one.
    pub fn new() -> (queue: Self)
        ensures
            queue.pending@ == Seq::<PendingCall>::empty(),
            queue.next_id == 1,
            queue.results@ == Map::<u64, (bool, Value)>::empty(),
    {
        CallQueue { pending: VecDeque::new(), next_id: 1, results: HashMap::new() }
    }

    /// Whether every call that waits has a number given out before, later ones later numbers.
    pub open spec fn well_formed(self) -> bool {
        &&& forall|i: int|
            0 <= i < self.pending@.len() ==> (#[trigger] self.pending@[i]).id < self.next_id
        &&& forall|i: int, j: int|
            0 <= i < j < self.pending@.len() ==> (#[trigger] self.pending@[i]).id < (
            #[trigger] self.pending@[j]).id
    }

    /// Whether a call waits.
    pub open spec fn waits(self) -> bool {
        self.pending@.len() > 0
    }

    /// Queues a call behind the others, and gives it a number.
    pub fn enqueue(&mut self, name: String, params: Value) -> (id: u64)
        requires
            old(self).well_formed(),
            old(self).next_id < u64::MAX,
        ensures
            final(self).well_formed(),
            enqueued(*old(self), *final(self), (PendingCall { id, name, params })),
            final(self).results@ == old(self).results@,
    {
        let id: u64 = self.next_id;
        self.next_id = id + 1;
        self.pending.push_back(PendingCall { id, name, params });
        id
    }

    /// Takes out all calls that wait, in order.
    pub fn drain(&mut self) -> (calls: VecDeque<PendingCall>)
        ensures
            drained(*old(self), *final(self), calls@),
            final(self).results@ == old(self).results@,
            final(self).well_formed(),
    {
        let mut calls: VecDeque<PendingCall> = VecDeque::new();
        std::mem::swap(&mut calls, &mut self.pending);
        calls
    }

    /// Keeps the result of a call.
    pub fn mark(&mut self, id: u64, invoked: bool, result: Value)
        ensures
            final(self).results@ == old(self).results@.insert(id, (invoked, result)),
            final(self).pending@ == old(self).pending@,
            final(self).next_id == old(self).next_id,
    {
        self.results.insert(id, (invoked, result));
    }

    /// Takes out the result of a call after waiting for it. Where the wait ran out there is none.
    pub fn wait(&mut self, id: u64, timed_out: bool) -> (outcome: CallOutcome)
        ensures
            final(self).pending@ == old(self).pending@,
            final(self).next_id == old(self).next_id,
            answered(old(self).results@, final(self).results@, id, timed_out, outcome),
    {
        if timed_out {
            return CallOutcome { completed: false, invoked: false, result: json::null_value() };
        }
        match self.results.remove(&id) {
            Some((invoked, result)) => CallOutcome { completed: true, invoked, result },
            None => {
                assert(self.results@ =~= old(self).results@.remove(id));
                CallOutcome { completed: true, invoked: false, result: json::null_value() }
            },
        }
    }

    /// Tests whether a call waits.
    pub fn has_pending(&self) -> (pending: bool)
        ensures
            pending == self.waits(),
    {
        self.pending.len() > 0
    }
}

/// Tests whether a call waits for the next frame.
pub fn has_pending_calls(calls: &CallQueue) -> (pending: bool)
    ensures
        pending == calls.waits(),
{
    calls.has_pending()
}

/// Queues a call for the next frame.
pub fn enqueue_call(calls: &mut CallQueue, name: String, params: Value) -> (id: u64)
    requires
        old(calls).well_formed(),
        old(calls).next_id < u64::MAX,
    ensures
        final(calls).well_formed(),
        enqueued(*old(calls), *final(calls), (PendingCall { id, name, params })),
        final(calls).results@ == old(calls).results@,
{
    calls.enqueue(name, params)
}

/// Takes out the calls to run in this frame, in order.
pub fn drain_pending_calls(calls: &mut CallQueue) -> (taken: VecDeque<PendingCall>)
    ensures
        drained(*old(calls), *final(calls), taken@),
        final(calls).results@ == old(calls).results@,
        final(calls).well_formed(),
{
    calls.drain()
}

/// Keeps the result of a call that ran.
pub fn mark_call_result(calls: &mut CallQueue, id: u64, invoked: bool, result: Value)
    ensures
        final(calls).results@ == old(calls).results@.insert(id, (invoked, result)),
        final(calls).pending@ == old(calls).pending@,
        final(calls).next_id == old(calls).next_id,
{
    calls.mark(id, invoked, result)
}

/// Takes out the result of a call after waiting for it.
pub fn wait_for_call(calls: &mut CallQueue, id: u64, timed_out: bool) -> (outcome: CallOutcome)
    ensures
        final(calls).pending@ == old(calls).pending@,
        final(calls).next_id == old(calls).next_id,
        answered(old(calls).results@, final(calls).results@, id, timed_out, outcome),
{
    calls.wait(id, timed_out)
}

/// A frame that was asked for arrives with the next publish: whoever waited since any earlier frame
/// waits no more. What is published after that, with nobody asking, changes nothing.
pub proof fn requested_frames_arrive(
    before: Registry,
    after: Registry,
    later: Registry,
    frame_id: u64,
    hitboxes: Seq<Hitbox>,
    ids: Map<u64, InspectorElementId>,
    next_frame_id: u64,
    next_hitboxes: Seq<Hitbox>,
    next_ids: Map<u64, InspectorElementId>,
)
    requires
        before.needs_publish,
        published(before, after, frame_id, hitboxes, ids),
        published(after, later, next_frame_id, next_hitboxes, next_ids),
    ensures
        forall|seen: u64| seen <= before.generation ==> !(#[trigger] after.awaits(seen)),
        after.snapshot@ == (frame_id, entries_of(hitboxes, ids)),
        later == after,
{
}

/// A call that ran is answered with its result, and only once.
pub proof fn calls_are_answered_once(
    results: Map<u64, (bool, Value)>,
    id: u64,
    invoked: bool,
    result: Value,
    between: Map<u64, (bool, Value)>,
    after: Map<u64, (bool, Value)>,
    first: CallOutcome,
    second: CallOutcome,
)
    requires
        answered(results.insert(id, (invoked, result)), between, id, false, first),
        answered(between, after, id, false, second),
    ensures
        first.completed && first.invoked == invoked && first.result == result,
        !second.invoked && json::json_content(second.result) == JsonView::Null,
        after == results.remove(id),
{
    assert(after =~= results.remove(id));
}

/// Any number of calls that are queued since the calls were last taken out come out together, in order
/// and with the numbers that they were given, which increase. A call waits as soon as one was queued;
/// afterwards none does, and taking out the calls again gives none.
///
/// The queue is in the first of the states after the calls were last taken out, and in each later one
/// after one more call was queued.
pub proof fn queued_calls_come_out_in_order(
    states: Seq<CallQueue>,
    calls: Seq<PendingCall>,
    emptied: CallQueue,
    taken: Seq<PendingCall>,
    later: CallQueue,
    taken_later: Seq<PendingCall>,
)
    requires
        states.len() == calls.len() + 1,
        states[0].pending@.len() == 0,
        forall|i: int|
            0 <= i < calls.len() ==> enqueued(states[i], states[i + 1], #[trigger] calls[i]),
        drained(states.last(), emptied, taken),
        drained(emptied, later, taken_later),
    ensures
        states.last().waits() <==> calls.len() > 0,
        taken == calls,
        forall|i: int|
            0 <= i < calls.len() ==> (#[trigger] calls[i]).id == states[0].next_id + i,
        forall|i: int, j: int|
            0 <= i < j < calls.len() ==> (#[trigger] calls[i]).id < (#[trigger] calls[j]).id,
        !emptied.waits(),
        taken_later.len() == 0,
    decreases calls.len(),
{
    if calls.len() == 0 {
        assert(taken =~= calls);
    } else {
        let last = calls.len() - 1;
        let before = states[last];
        assert(enqueued(states[last], states[last + 1], calls[last]));
        let earlier = calls.drop_last();
        assert forall|i: int| 0 <= i < earlier.len() implies enqueued(
            states.drop_last()[i],
            states.drop_last()[i + 1],
            #[trigger] earlier[i],
        ) by {
            assert(enqueued(states[i], states[i + 1], calls[i]));
        }
        let between = CallQueue { pending: emptied.pending, ..before };
        queued_calls_come_out_in_order(
            states.drop_last(),
            earlier,
            between,
            before.pending@,
            between,
            Seq::empty(),
        );
        assert(taken =~= calls);
        lemma_numbers_count_up(states, calls);
    }
}

/// Calls that are queued one after the other get one number after the other.
proof fn lemma_numbers_count_up(states: Seq<CallQueue>, calls: Seq<PendingCall>)
    requires
        states.len() == calls.len() + 1,
        forall|i: int|
            0 <= i < calls.len() ==> enqueued(states[i], states[i + 1], #[trigger] calls[i]),
    ensures
        states.last().next_id == states[0].next_id + calls.len(),
        forall|i: int|
            0 <= i < calls.len() ==> (#[trigger] calls[i]).id == states[0].next_id + i,
    decreases calls.len(),
{
    if calls.len() > 0 {
        let last = calls.len() - 1;
        assert(enqueued(states[last], states[last + 1], calls[last]));
        let earlier = calls.drop_last();
        assert forall|i: int| 0 <= i < earlier.len() implies enqueued(
            states.drop_last()[i],
            states.drop_last()[i + 1],
            #[trigger] earlier[i],
        ) by {
            assert(enqueued(states[i], states[i + 1], calls[i]));
        }
        lemma_numbers_count_up(states.drop_last(), earlier);
        assert forall|i: int| 0 <= i < calls.len() implies (#[trigger] calls[i]).id
            == states[0].next_id + i by {
            if i < last {
                assert(earlier[i] == calls[i]);
            }
        }
    }
}

/// Whether an entry is that of a region that belongs to an element.
pub open spec fn is_entry_of(
    entry: EntryView,
    hitboxes: Seq<Hitbox>,
    ids: Map<u64, InspectorElementId>,
) -> bool {
    exists|k: int|
        0 <= k < hitboxes.len() && ids.dom().contains((#[trigger] hitboxes[k]).id) && entry
            == entry_of(hitboxes[k], ids[hitboxes[k].id])
}

/// Every entry of a frame stands for a region that belongs to an element, and every such region has
/// an entry.
pub proof fn entries_come_from_elements(hitboxes: Seq<Hitbox>, ids: Map<u64, InspectorElementId>)
    ensures
        entries_of(hitboxes, ids).len() <= hitboxes.len(),
        forall|i: int|
            0 <= i < entries_of(hitboxes, ids).len() ==> is_entry_of(
                #[trigger] entries_of(hitboxes, ids)[i],
                hitboxes,
                ids,
            ),
        forall|k: int|
            0 <= k < hitboxes.len() && ids.dom().contains((#[trigger] hitboxes[k]).id)
                ==> entries_of(hitboxes, ids).contains(entry_of(hitboxes[k], ids[hitboxes[k].id])),
    decreases hitboxes.len(),
{
    if hitboxes.len() > 0 {
        let rest = hitboxes.drop_last();
        entries_come_from_elements(rest, ids);
        let before = entries_of(rest, ids);
        let after = entries_of(hitboxes, ids);
        assert forall|i: int| 0 <= i < after.len() implies is_entry_of(
            #[trigger] after[i],
            hitboxes,
            ids,
        ) by {
            if i < before.len() {
                assert(after[i] == before[i]);
                assert(is_entry_of(before[i], rest, ids));
                let k = choose|k: int|
                    0 <= k < rest.len() && ids.dom().contains((#[trigger] rest[k]).id) && before[i]
                        == entry_of(rest[k], ids[rest[k].id]);
                assert(hitboxes[k] == rest[k]);
            } else {
                assert(hitboxes[hitboxes.len() - 1] == hitboxes.last());
            }
        }
        assert forall|k: int|
            0 <= k < hitboxes.len() && ids.dom().contains(
                (#[trigger] hitboxes[k]).id,
            ) implies after.contains(entry_of(hitboxes[k], ids[hitboxes[k].id])) by {
            let entry = entry_of(hitboxes[k], ids[hitboxes[k].id]);
            if k < rest.len() {
                assert(rest[k] == hitboxes[k]);
                assert(before.contains(entry));
                let i = choose|i: int| 0 <= i < before.len() && before[i] == entry;
                assert(after[i] == entry);
            } else {
                assert(after[after.len() - 1] == entry);
            }
        }
    }
}

/// The entries of a frame stand in the order in which their regions were painted, each where its
/// region lies and as large, under the path and instance of the element that the region belongs to.
pub proof fn entries_lie_where_their_regions_were_painted(
    hitboxes: Seq<Hitbox>,
    ids: Map<u64, InspectorElementId>,
) -> (sources: Seq<int>)
    ensures
        sources.len() == entries_of(hitboxes, ids).len(),
        forall|i: int, j: int| 0 <= i < j < sources.len() ==> #[trigger] sources[i] < #[trigger] sources[j],
        forall|i: int|
            0 <= i < sources.len() ==> {
                let region = hitboxes[#[trigger] sources[i]];
                let entry = entries_of(hitboxes, ids)[i];
                &&& 0 <= sources[i] < hitboxes.len()
                &&& ids.dom().contains(region.id)
                &&& entry.x == region.bounds.origin.x
                &&& entry.y == region.bounds.origin.y
                &&& entry.width == region.bounds.size.width
                &&& entry.height == region.bounds.size.height
                &&& entry.instance_id == ids[region.id].instance_id
                &&& entry.path == element_id::path_label(ids[region.id].path@)
            },
        forall|k: int|
            0 <= k < hitboxes.len() && ids.dom().contains((#[trigger] hitboxes[k]).id)
                ==> sources.contains(k),
    decreases hitboxes.len(),
{
    if hitboxes.len() == 0 {
        Seq::empty()
    } else {
        let shorter = hitboxes.drop_last();
        let rest = entries_lie_where_their_regions_were_painted(shorter, ids);
        let last = hitboxes.len() - 1;
        let sources = if ids.dom().contains(hitboxes.last().id) {
            rest.push(last)
        } else {
            rest
        };
        assert forall|k: int|
            0 <= k < hitboxes.len() && ids.dom().contains(
                (#[trigger] hitboxes[k]).id,
            ) implies sources.contains(k) by {
            if k < last {
                assert(shorter[k] == hitboxes[k]);
                let i = choose|i: int| 0 <= i < rest.len() && rest[i] == k;
                assert(sources[i] == k);
            } else {
                assert(sources[rest.len() as int] == k);
            }
        }
        assert forall|i: int| 0 <= i < rest.len() implies hitboxes[#[trigger] rest[i]]
            == shorter[rest[i]] by {}
        sources
    }
}

/// Whoever asked for a frame waits until one is published, and nothing is published that nobody
/// asked for.
pub proof fn frames_are_awaited_until_they_are_published(
    before: Registry,
    after: Registry,
    frame_id: u64,
    hitboxes: Seq<Hitbox>,
    ids: Map<u64, InspectorElementId>,
    seen: u64,
)
    requires
        published(before, after, frame_id, hitboxes, ids),
    ensures
        before.awaits(before.generation),
        seen >= before.generation ==> before.awaits(seen),
        seen < before.generation ==> !before.awaits(seen),
        before.needs_publish ==> !after.needs_publish && after.snapshot.frame_id == frame_id
            && !after.awaits(before.generation),
        !before.needs_publish ==> after == before,
{
}

/// Where the wait for a call runs out, its answer is that it did not complete, and a result that
/// comes later is kept.
pub proof fn late_results_are_kept(
    before: Map<u64, (bool, Value)>,
    after: Map<u64, (bool, Value)>,
    id: u64,
    outcome: CallOutcome,
)
    requires
        answered(before, after, id, true, outcome),
    ensures
        !outcome.completed,
        !outcome.invoked,
        json::json_content(outcome.result) is Null,
        after == before,
{
}

/// Waiting for one call leaves the results of all others as they are.
pub proof fn waiting_leaves_the_other_results(
    before: Map<u64, (bool, Value)>,
    after: Map<u64, (bool, Value)>,
    id: u64,
    timed_out: bool,
    outcome: CallOutcome,
    other: u64,
)
    requires
        answered(before, after, id, timed_out, outcome),
        other != id,
    ensures
        after.dom().contains(other) <==> before.dom().contains(other),
        after.dom().contains(other) ==> after[other] == before[other],
{
}

/// An entry shows its path, its instance, its place and its extents as it holds them, and a snapshot its
/// frame and its entries in order.
pub proof fn entries_show_what_they_hold(snapshot: Snapshot, i: int)
    requires
        0 <= i < snapshot.entries@.len(),
    ensures
        snapshot@.0 == snapshot.frame_id,
        snapshot@.1.len() == snapshot.entries@.len(),
        snapshot@.1[i].path == snapshot.entries@[i].path@,
        snapshot@.1[i].instance_id == snapshot.entries@[i].instance_id,
        snapshot@.1[i].x == snapshot.entries@[i].x,
        snapshot@.1[i].y == snapshot.entries@[i].y,
        snapshot@.1[i].width == snapshot.entries@[i].width,
        snapshot@.1[i].height == snapshot.entries@[i].height,
{
}

/// A call that gives nothing is reported as null, and one that gives a value with that value.
pub proof fn results_are_reported_as_they_are(value: Value)
    ensures
        ().devtool_result() is Null,
        value.devtool_result() == json::json_content(value),
{
}

} // verus!
