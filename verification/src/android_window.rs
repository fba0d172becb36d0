//! Text input and native selection of an Android window.
use crate::geometry::{Bounds, Pixels, Point, Size};
use crate::ios_policy::SelectionMenuPresentation;
use crate::selection_handler::UTF16Selection;
use crate::selection_range;
use crate::selection_range::LayoutRect;
use crate::utf16;
use std::ops::Range;
use vstd::prelude::*;
use vstd::string::*;

verus! {

/// What part of the activity a window fills.
#[derive(Clone, Copy, Debug, PartialEq, Eq, Structural)]
pub enum AndroidWindowRole {
    Root,
    EmbeddedSheet,
}

/// Which handler a native selection talks to.
#[derive(Clone, Copy, Debug, PartialEq, Eq, Structural)]
pub enum ActiveSelectionSource {
    Input,
    ReadOnly,
}

/// The text-related state of a window.
#[derive(Clone, Copy, Debug, PartialEq, Eq, Structural)]
pub struct AndroidWindowState {
    pub role: AndroidWindowRole,
    /// A stable number that routes native selection to the window, zero for the root window.
    pub window_handle: u64,
    pub active: bool,
    pub has_input_handler: bool,
    pub has_selection_handler: bool,
    pub active_selection_source: Option<ActiveSelectionSource>,
    /// What the input handler last said about its accessory bar, for the time it is taken out.
    pub input_keyboard_accessory: bool,
    pub input_handler_registered: bool,
    pub keyboard_session_requested: bool,
}

/// What the platform is asked to do after a handler changes.
#[derive(Clone, Copy, Debug, PartialEq, Eq, Structural)]
pub struct PlatformRequests {
    pub request_soft_keyboard: bool,
    pub hide_soft_keyboard: bool,
    pub dismiss_selection: bool,
}

/// What a composing text does to the input.
#[derive(Debug, PartialEq, Eq)]
pub enum ComposingAction {
    Unmark,
    /// Mark the text with the caret at this position.
    Mark(usize),
}

/// What becomes of committed text.
#[derive(Clone, Copy, Debug, PartialEq, Eq, Structural)]
pub struct TextInsertion {
    pub handled: bool,
    pub inserts: bool,
}

/// A number in the snapshot of a selection: an offset, a flag or a length in logical pixels.
#[derive(Clone, Copy, Debug, PartialEq, Eq, Structural)]
pub enum SnapshotValue {
    Count(usize),
    Flag(bool),
    Length(Pixels),
}

/// The four lengths of a rectangle.
pub open spec fn rect_values(bounds: Bounds) -> Seq<SnapshotValue> {
    seq![
        SnapshotValue::Length(bounds.origin.x),
        SnapshotValue::Length(bounds.origin.y),
        SnapshotValue::Length(bounds.size.width),
        SnapshotValue::Length(bounds.size.height),
    ]
}

/// The lengths of rectangles one after the other.
pub open spec fn rects_values(rects: Seq<LayoutRect>) -> Seq<SnapshotValue>
    decreases rects.len(),
{
    if rects.len() == 0 {
        Seq::empty()
    } else {
        rects_values(rects.drop_last()) + rect_values(rects.last().bounds)
    }
}

/// The snapshot of a painted selection: its range, its direction and the number of its rectangles,
/// the rectangles, and the carets at the left of the first and the right of the last.
pub open spec fn snapshot_values(selection: UTF16Selection, rects: Seq<LayoutRect>) -> Seq<
    SnapshotValue,
> {
    let first = rects[0].bounds;
    let last = rects.last();
    seq![
        SnapshotValue::Count(selection.range.start),
        SnapshotValue::Count(selection.range.end),
        SnapshotValue::Flag(selection.reversed),
        SnapshotValue::Count(rects.len() as usize),
    ] + rects_values(rects) + rect_values(
        selection_range::caret_at(first.origin, first.size.height),
    ) + rect_values(
        selection_range::caret_at(
            Point { x: last.right, y: last.bounds.origin.y },
            last.bounds.size.height,
        ),
    )
}

/// Appends the four lengths of a rectangle.
fn push_rect(values: &mut Vec<SnapshotValue>, bounds: Bounds)
    ensures
        final(values)@ == old(values)@ + rect_values(bounds),
{
    values.push(SnapshotValue::Length(bounds.origin.x));
    values.push(SnapshotValue::Length(bounds.origin.y));
    values.push(SnapshotValue::Length(bounds.size.width));
    values.push(SnapshotValue::Length(bounds.size.height));
    assert(values@ =~= old(values)@ + rect_values(bounds));
}

/// Lays out the snapshot of a selection for the native presenter. A selection that covers nothing,
/// or was painted nowhere, has none.
pub fn active_selection_snapshot(
    selection: &Option<UTF16Selection>,
    rects: &Vec<LayoutRect>,
) -> (snapshot: Option<Vec<SnapshotValue>>)
    ensures
        snapshot is Some <==> selection is Some && selection->0.range.start
            < selection->0.range.end && rects@.len() > 0,
        snapshot matches Some(values) ==> values@ == snapshot_values(selection->0, rects@),
{
    let selection: &UTF16Selection = match selection {
        Some(selection) => selection,
        None => {
            return None;
        },
    };
    if selection.range.start >= selection.range.end || rects.len() == 0 {
        return None;
    }
    let mut values: Vec<SnapshotValue> = Vec::new();
    values.push(SnapshotValue::Count(selection.range.start));
    values.push(SnapshotValue::Count(selection.range.end));
    values.push(SnapshotValue::Flag(selection.reversed));
    values.push(SnapshotValue::Count(rects.len()));
    let ghost head = values@;
    assert(head =~= seq![
        SnapshotValue::Count(selection.range.start),
        SnapshotValue::Count(selection.range.end),
        SnapshotValue::Flag(selection.reversed),
        SnapshotValue::Count(rects@.len() as usize),
    ]);
    let mut i: usize = 0;
    assert(head + rects_values(rects@.take(0)) =~= head);
    while i < rects.len()
        invariant
            i <= rects@.len(),
            values@ == head + rects_values(rects@.take(i as int)),
        decreases rects@.len() - i,
    {
        proof {
            let longer = rects@.take(i as int + 1);
            assert(longer.drop_last() =~= rects@.take(i as int));
        }
        push_rect(&mut values, rects[i].bounds);
        i = i + 1;
        assert(values@ =~= head + rects_values(rects@.take(i as int)));
    }
    assert(rects@.take(rects@.len() as int) =~= rects@);
    let first: LayoutRect = rects[0];
    let last: LayoutRect = rects[rects.len() - 1];
    push_rect(
        &mut values,
        Bounds {
            origin: first.bounds.origin,
            size: Size { width: Pixels::zero(), height: first.bounds.size.height },
        },
    );
    push_rect(
        &mut values,
        Bounds {
            origin: Point { x: last.right, y: last.bounds.origin.y },
            size: Size { width: Pixels::zero(), height: last.bounds.size.height },
        },
    );
    assert(values@ =~= snapshot_values(*selection, rects@));
    Some(values)
}

/// The range that a native selection asks for, as the handler adjusts it where it does.
pub open spec fn adjusted_request(start: usize, end: usize, adjusted_by_handler: Option<Range<usize>>) -> Range<
    usize,
> {
    match adjusted_by_handler {
        Some(adjusted) => adjusted,
        None => Range {
            start: if start <= end { start } else { end },
            end: if start <= end { end } else { start },
        },
    }
}

/// Whether a selection moves from a range to another: one that covers nothing or is already
/// selected is refused, and so is an initial selection that would be painted nowhere.
pub open spec fn moves_selection(
    adjusted: Range<usize>,
    current: Option<Range<usize>>,
    paints_anything: bool,
) -> bool {
    &&& adjusted.start < adjusted.end
    &&& current != Some(adjusted)
    &&& paints_anything || (current is Some && current->0.start < current->0.end)
}

/// Where the caret goes inside a composing text: a positive position counts from the end of the
/// text, any other back from its start, and the caret stays inside the text.
pub open spec fn composing_caret(len: int, new_cursor_position: int) -> int {
    if new_cursor_position > 0 {
        len
    } else {
        selection_range::min(-new_cursor_position, len)
    }
}

impl AndroidWindowState {
    /// Starts without handlers.
    pub fn new(role: AndroidWindowRole, window_handle: u64, active: bool) -> (state: Self)
        ensures
            state == (AndroidWindowState {
                role,
                window_handle,
                active,
                has_input_handler: false,
                has_selection_handler: false,
                active_selection_source: None,
                input_keyboard_accessory: false,
                input_handler_registered: false,
                keyboard_session_requested: false,
            }),
    {
        AndroidWindowState {
            role,
            window_handle,
            active,
            has_input_handler: false,
            has_selection_handler: false,
            active_selection_source: None,
            input_keyboard_accessory: false,
            input_handler_registered: false,
            keyboard_session_requested: false,
        }
    }

    pub fn role(&self) -> (role: AndroidWindowRole)
        ensures
            role == self.role,
    {
        self.role
    }

    pub fn window_handle(&self) -> (handle: u64)
        ensures
            handle == self.window_handle,
    {
        self.window_handle
    }

    /// Records whether the window is active, and tells whether that changed.
    pub fn set_active(&mut self, active: bool) -> (changed: bool)
        ensures
            changed <==> old(self).active != active,
            *final(self) == (AndroidWindowState { active, ..*old(self) }),
    {
        if self.active == active {
            false
        } else {
            self.active = active;
            true
        }
    }

    /// Hit-tests a long press and establishes the active selection source, given what the handlers
    /// find under the point. The input handler comes first if it selects natively.
    pub fn start_selection_at(
        &mut self,
        input_selects_natively: bool,
        input_index: Option<usize>,
        hits_selectable_text: bool,
        read_only_index: Option<usize>,
    ) -> (index: Option<usize>)
        ensures
            ({
                let from_input = old(self).has_input_handler && input_selects_natively
                    && input_index is Some;
                let from_read_only = !from_input && hits_selectable_text
                    && old(self).has_selection_handler && read_only_index is Some;
                &&& index == if from_input {
                    input_index
                } else if from_read_only {
                    read_only_index
                } else {
                    None
                }
                &&& *final(self) == (AndroidWindowState {
                    active_selection_source: if from_input {
                        Some(ActiveSelectionSource::Input)
                    } else if from_read_only {
                        Some(ActiveSelectionSource::ReadOnly)
                    } else {
                        old(self).active_selection_source
                    },
                    ..*old(self)
                })
            }),
    {
        if self.has_input_handler && input_selects_natively && input_index.is_some() {
            self.active_selection_source = Some(ActiveSelectionSource::Input);
            return input_index;
        }
        if hits_selectable_text && self.has_selection_handler && read_only_index.is_some() {
            self.active_selection_source = Some(ActiveSelectionSource::ReadOnly);
            return read_only_index;
        }
        None
    }

    /// The handler that answers for the active selection, if it is installed.
    pub open spec fn answers(self) -> Option<ActiveSelectionSource> {
        match self.active_selection_source {
            Some(source) => if self.installs(source) {
                Some(source)
            } else {
                None
            },
            None => None,
        }
    }

    /// Whether a handler is installed.
    pub open spec fn installs(self, source: ActiveSelectionSource) -> bool {
        match source {
            ActiveSelectionSource::Input => self.has_input_handler,
            ActiveSelectionSource::ReadOnly => self.has_selection_handler,
        }
    }

    /// The handler that answers for the active selection, if it is installed.
    pub fn active_selection_handler(&self) -> (source: Option<ActiveSelectionSource>)
        ensures
            source == self.answers(),
    {
        match self.active_selection_source {
            Some(ActiveSelectionSource::Input) => if self.has_input_handler {
                Some(ActiveSelectionSource::Input)
            } else {
                None
            },
            Some(ActiveSelectionSource::ReadOnly) => if self.has_selection_handler {
                Some(ActiveSelectionSource::ReadOnly)
            } else {
                None
            },
            None => None,
        }
    }

    /// Decides which range a native selection sets in which handler, if any, given the range that
    /// the handler adjusts the requested one to, what is selected there now, and whether the adjusted
    /// range is painted anywhere.
    pub fn update_active_selection(
        &self,
        start: usize,
        end: usize,
        adjusted_by_handler: Option<Range<usize>>,
        current: Option<Range<usize>>,
        paints_anything: bool,
    ) -> (update: Option<(ActiveSelectionSource, Range<usize>)>)
        ensures
            update is Some <==> self.answers() is Some && moves_selection(
                adjusted_request(start, end, adjusted_by_handler),
                current,
                paints_anything,
            ),
            update matches Some(update) ==> update == (
                self.answers()->0,
                adjusted_request(start, end, adjusted_by_handler),
            ),
    {
        let source: ActiveSelectionSource = match self.active_selection_handler() {
            Some(source) => source,
            None => {
                return None;
            },
        };
        let adjusted: Range<usize> = match adjusted_by_handler {
            Some(adjusted) => adjusted,
            None => if start <= end {
                start..end
            } else {
                end..start
            },
        };
        if adjusted.start >= adjusted.end {
            return None;
        }
        let mut extending: bool = false;
        if let Some(current) = current {
            if current.start == adjusted.start && current.end == adjusted.end {
                return None;
            }
            extending = current.start < current.end;
        }
        if !extending && !paints_anything {
            return None;
        }
        Some((source, adjusted))
    }

    /// Counts the actions that the selection offers, given those of the handler that answers for it.
    pub fn selection_action_count(&self, names: &Vec<String>) -> (count: usize)
        ensures
            count == if self.answers() is Some { names@.len() } else { 0 },
    {
        match self.active_selection_handler() {
            Some(_) => names.len(),
            None => 0,
        }
    }

    /// The name of an action of the selection, given those of the handler that answers for it.
    pub fn selection_action_title<'a>(&self, names: &'a Vec<String>, action_index: usize) -> (title:
        Option<&'a String>)
        ensures
            title == if self.answers() is Some && action_index < names@.len() {
                Some(&names@[action_index as int])
            } else {
                None
            },
    {
        match self.active_selection_handler() {
            Some(_) => if action_index < names.len() {
                Some(&names[action_index])
            } else {
                None
            },
            None => None,
        }
    }

    /// Decides which handler performs an action of the selection, given how many it has.
    pub fn perform_selection_action(&self, action_count: usize, action_index: usize) -> (performer:
        Option<ActiveSelectionSource>)
        ensures
            performer == if action_index < action_count {
                self.answers()
            } else {
                None
            },
    {
        if action_index < action_count {
            self.active_selection_handler()
        } else {
            None
        }
    }

    /// Tests whether the menu of the selection shows nothing but its own actions, given how the
    /// handler that answers for it presents the menu.
    pub fn selection_custom_actions_only(&self, presentation: SelectionMenuPresentation) -> (only:
        bool)
        ensures
            only <==> self.answers() is Some && presentation
                == SelectionMenuPresentation::CustomActionsOnly,
    {
        match self.active_selection_handler() {
            Some(_) => presentation == SelectionMenuPresentation::CustomActionsOnly,
            None => false,
        }
    }

    /// Ends the active selection, and names the handler that has to forget it where it is asked to.
    pub fn clear_active_selection(&mut self, clear_handler: bool) -> (cleared: Option<
        ActiveSelectionSource,
    >)
        ensures
            cleared == if clear_handler {
                old(self).answers()
            } else {
                None
            },
            *final(self) == (AndroidWindowState { active_selection_source: None, ..*old(self) }),
    {
        let cleared: Option<ActiveSelectionSource> = if clear_handler {
            self.active_selection_handler()
        } else {
            None
        };
        self.active_selection_source = None;
        cleared
    }

    /// Commits text. It is handled wherever there is a handler that takes text, and inserted where
    /// that agrees to the change.
    pub fn insert_text(&self, accepts_text_input: bool, should_change_text: bool) -> (insertion:
        TextInsertion)
        ensures
            insertion.handled <==> self.has_input_handler && accepts_text_input,
            insertion.inserts <==> insertion.handled && should_change_text,
    {
        let handled: bool = self.has_input_handler && accepts_text_input;
        TextInsertion { handled, inserts: handled && should_change_text }
    }

    /// Decides how often the handler deletes backward; where it never does, nothing was handled.
    pub fn delete_backward(&self, count: usize, accepts_text_input: bool) -> (deletions: usize)
        ensures
            deletions == if self.has_input_handler && accepts_text_input {
                count
            } else {
                0
            },
    {
        if self.has_input_handler && accepts_text_input {
            count
        } else {
            0
        }
    }

    /// Decides what a composing text does to the input. Without a handler that takes text nothing
    /// happens.
    pub fn set_composing_text(
        &self,
        accepts_text_input: bool,
        text: &str,
        new_cursor_position: i32,
    ) -> (action: Option<ComposingAction>)
        ensures
            action == if !self.has_input_handler || !accepts_text_input {
                None
            } else if text@.len() == 0 {
                Some(ComposingAction::Unmark)
            } else {
                Some(
                    ComposingAction::Mark(
                        composing_caret(
                            utf16::utf16_units(text@) as int,
                            if new_cursor_position == i32::MIN {
                                -(i32::MAX as int)
                            } else {
                                new_cursor_position as int
                            },
                        ) as usize,
                    ),
                )
            },
    {
        let len: usize = utf16::utf16_len(text);
        let cursor: usize = if new_cursor_position > 0 {
            len.saturating_add((new_cursor_position - 1) as usize)
        } else if new_cursor_position == i32::MIN {
            i32::MAX as usize
        } else {
            (-new_cursor_position) as usize
        };
        let cursor: usize = if cursor <= len {
            cursor
        } else {
            len
        };
        if !self.has_input_handler || !accepts_text_input {
            None
        } else if text.is_empty() {
            Some(ComposingAction::Unmark)
        } else {
            Some(ComposingAction::Mark(cursor))
        }
    }

    /// Decides whether the handler ends composing.
    pub fn finish_composing_text(&self, accepts_text_input: bool) -> (handled: bool)
        ensures
            handled <==> self.has_input_handler && accepts_text_input,
    {
        self.has_input_handler && accepts_text_input
    }

    /// Decides whether an action of the accessory bar goes to the handler.
    pub fn handle_keyboard_accessory_action(
        &self,
        accepts_text_input: bool,
        keyboard_accessory: bool,
    ) -> (asks_handler: bool)
        ensures
            asks_handler <==> self.has_input_handler && accepts_text_input && keyboard_accessory,
    {
        self.has_input_handler && accepts_text_input && keyboard_accessory
    }

    /// Tests whether the accessory bar is shown. While the handler is taken out, what it last said
    /// holds.
    pub fn has_active_keyboard_accessory(
        &mut self,
        accepts_text_input: bool,
        keyboard_accessory: bool,
    ) -> (has: bool)
        ensures
            has == if old(self).has_input_handler {
                accepts_text_input && keyboard_accessory
            } else {
                old(self).input_keyboard_accessory
            },
            *final(self) == (AndroidWindowState { input_keyboard_accessory: has, ..*old(self) }),
    {
        if !self.has_input_handler {
            return self.input_keyboard_accessory;
        }
        let has_accessory: bool = accepts_text_input && keyboard_accessory;
        self.input_keyboard_accessory = has_accessory;
        has_accessory
    }

    /// Installs an input handler, and requests the keyboard where the handler asks for that by
    /// itself.
    pub fn set_input_handler(
        &mut self,
        accepts_text_input: bool,
        keyboard_accessory: bool,
        should_auto_request_keyboard: bool,
    ) -> (requests: PlatformRequests)
        ensures
            *final(self) == (AndroidWindowState {
                has_input_handler: true,
                input_handler_registered: true,
                input_keyboard_accessory: accepts_text_input && keyboard_accessory,
                keyboard_session_requested: old(self).keyboard_session_requested
                    || should_auto_request_keyboard,
                ..*old(self)
            }),
            requests == (PlatformRequests {
                request_soft_keyboard: should_auto_request_keyboard,
                hide_soft_keyboard: false,
                dismiss_selection: false,
            }),
    {
        self.input_keyboard_accessory = accepts_text_input && keyboard_accessory;
        self.has_input_handler = true;
        self.input_handler_registered = true;
        self.keyboard_session_requested = self.keyboard_session_requested
            || should_auto_request_keyboard;
        PlatformRequests {
            request_soft_keyboard: should_auto_request_keyboard,
            hide_soft_keyboard: false,
            dismiss_selection: false,
        }
    }

    /// Takes the input handler out for the duration of a frame.
    pub fn take_input_handler(&mut self) -> (had: bool)
        ensures
            had == old(self).has_input_handler,
            *final(self) == (AndroidWindowState { has_input_handler: false, ..*old(self) }),
    {
        let had: bool = self.has_input_handler;
        self.has_input_handler = false;
        had
    }

    /// Removes the input handler, and with it the keyboard session and a selection inside it.
    pub fn clear_input_handler(&mut self) -> (requests: PlatformRequests)
        ensures
            *final(self) == (AndroidWindowState {
                has_input_handler: false,
                input_handler_registered: false,
                input_keyboard_accessory: false,
                keyboard_session_requested: false,
                active_selection_source: if old(self).active_selection_source == Some(
                    ActiveSelectionSource::Input,
                ) {
                    None
                } else {
                    old(self).active_selection_source
                },
                ..*old(self)
            }),
            requests == (PlatformRequests {
                request_soft_keyboard: false,
                hide_soft_keyboard: old(self).keyboard_session_requested,
                dismiss_selection: old(self).active_selection_source == Some(
                    ActiveSelectionSource::Input,
                ),
            }),
    {
        self.input_keyboard_accessory = false;
        let dismiss_selection: bool = match self.active_selection_source {
            Some(ActiveSelectionSource::Input) => true,
            _ => false,
        };
        if dismiss_selection {
            self.active_selection_source = None;
        }
        self.has_input_handler = false;
        self.input_handler_registered = false;
        let hide_soft_keyboard: bool = self.keyboard_session_requested;
        self.keyboard_session_requested = false;
        PlatformRequests { request_soft_keyboard: false, hide_soft_keyboard, dismiss_selection }
    }

    /// Installs a selection handler.
    pub fn set_selection_handler(&mut self)
        ensures
            *final(self) == (AndroidWindowState { has_selection_handler: true, ..*old(self) }),
    {
        self.has_selection_handler = true;
    }

    /// Removes the selection handler, and with it a selection inside its document.
    pub fn clear_selection_handler(&mut self) -> (requests: PlatformRequests)
        ensures
            *final(self) == (AndroidWindowState {
                has_selection_handler: false,
                active_selection_source: if old(self).active_selection_source == Some(
                    ActiveSelectionSource::ReadOnly,
                ) {
                    None
                } else {
                    old(self).active_selection_source
                },
                ..*old(self)
            }),
            requests == (PlatformRequests {
                request_soft_keyboard: false,
                hide_soft_keyboard: false,
                dismiss_selection: old(self).active_selection_source == Some(
                    ActiveSelectionSource::ReadOnly,
                ),
            }),
    {
        self.has_selection_handler = false;
        let dismiss_selection: bool = match self.active_selection_source {
            Some(ActiveSelectionSource::ReadOnly) => true,
            _ => false,
        };
        if dismiss_selection {
            self.active_selection_source = None;
        }
        PlatformRequests {
            request_soft_keyboard: false,
            hide_soft_keyboard: false,
            dismiss_selection,
        }
    }

    /// Requests a keyboard session, or ends it.
    pub fn set_keyboard_session(&mut self, requested: bool)
        ensures
            *final(self) == (AndroidWindowState {
                keyboard_session_requested: requested,
                ..*old(self)
            }),
    {
        self.keyboard_session_requested = requested;
    }
}

/// The snapshot of a selection of `n` rectangles is made of twelve numbers and four for each
/// rectangle.
pub proof fn snapshot_has_a_fixed_layout(selection: UTF16Selection, rects: Seq<LayoutRect>)
    ensures
        snapshot_values(selection, rects).len() == 12 + 4 * rects.len(),
{
    lemma_rects_values_len(rects);
}

proof fn lemma_rects_values_len(rects: Seq<LayoutRect>)
    ensures
        rects_values(rects).len() == 4 * rects.len(),
    decreases rects.len(),
{
    if rects.len() > 0 {
        lemma_rects_values_len(rects.drop_last());
    }
}

/// The caret of a composing text always lies inside it.
pub proof fn composing_caret_stays_inside(len: int, new_cursor_position: int)
    requires
        len >= 0,
    ensures
        0 <= composing_caret(len, new_cursor_position) <= len,
{
}

/// Once a selection was moved to a range, asking for that range again changes nothing.
pub proof fn moved_selection_rests(adjusted: Range<usize>, paints_anything: bool)
    ensures
        !moves_selection(adjusted, Some(adjusted), paints_anything),
{
}

proof fn lemma_rect_lengths(rects: Seq<LayoutRect>, i: int)
    requires
        0 <= i < rects.len(),
    ensures
        rects_values(rects).len() == 4 * rects.len(),
        rects_values(rects)[4 * i] == SnapshotValue::Length(rects[i].bounds.origin.x),
        rects_values(rects)[4 * i + 1] == SnapshotValue::Length(rects[i].bounds.origin.y),
        rects_values(rects)[4 * i + 2] == SnapshotValue::Length(rects[i].bounds.size.width),
        rects_values(rects)[4 * i + 3] == SnapshotValue::Length(rects[i].bounds.size.height),
    decreases rects.len(),
{
    lemma_rects_values_len(rects);
    let shorter = rects.drop_last();
    lemma_rects_values_len(shorter);
    if i < shorter.len() {
        lemma_rect_lengths(shorter, i);
    }
}

/// The snapshot of a selection gives its range and direction, how many rectangles follow, where each of
/// them lies and how large it is, and at the end the two carets: one at the corner of the first
/// rectangle and one at the right edge of the last, both as high as theirs and without width.
pub proof fn snapshots_give_range_rectangles_and_carets(
    selection: UTF16Selection,
    rects: Seq<LayoutRect>,
    i: int,
)
    requires
        0 <= i < rects.len(),
        rects.len() <= usize::MAX,
    ensures
        ({
            let values = snapshot_values(selection, rects);
            let end = 4 + 4 * rects.len() as int;
            let last = rects[rects.len() - 1];
            &&& values[0] == SnapshotValue::Count(selection.range.start)
            &&& values[1] == SnapshotValue::Count(selection.range.end)
            &&& values[2] == SnapshotValue::Flag(selection.reversed)
            &&& values[3] matches SnapshotValue::Count(count)
            &&& count == rects.len()
            &&& values[4 + 4 * i] == SnapshotValue::Length(rects[i].bounds.origin.x)
            &&& values[4 + 4 * i + 1] == SnapshotValue::Length(rects[i].bounds.origin.y)
            &&& values[4 + 4 * i + 2] == SnapshotValue::Length(rects[i].bounds.size.width)
            &&& values[4 + 4 * i + 3] == SnapshotValue::Length(rects[i].bounds.size.height)
            &&& values[end] == SnapshotValue::Length(rects[0].bounds.origin.x)
            &&& values[end + 1] == SnapshotValue::Length(rects[0].bounds.origin.y)
            &&& values[end + 2] == SnapshotValue::Length(Pixels { bits: 0 })
            &&& values[end + 3] == SnapshotValue::Length(rects[0].bounds.size.height)
            &&& values[end + 4] == SnapshotValue::Length(last.right)
            &&& values[end + 5] == SnapshotValue::Length(last.bounds.origin.y)
            &&& values[end + 6] == SnapshotValue::Length(Pixels { bits: 0 })
            &&& values[end + 7] == SnapshotValue::Length(last.bounds.size.height)
            &&& values.len() == end + 8
        }),
{
    lemma_rect_lengths(rects, i);
    lemma_rects_values_len(rects);
}

/// A native selection asks for the positions between its two ends, in whichever order they come, unless
/// the handler puts another range in its place.
pub proof fn requests_span_their_ends(start: usize, end: usize, adjusted: Range<usize>)
    ensures
        adjusted_request(start, end, Some(adjusted)) == adjusted,
        start <= end ==> adjusted_request(start, end, None) == (Range { start, end }),
        adjusted_request(start, end, None) == adjusted_request(end, start, None),
{
}

/// A selection moves to any other range that covers something, if it is painted or something was
/// selected before.
pub proof fn selections_move_to_ranges_that_cover_something(
    adjusted: Range<usize>,
    current: Range<usize>,
    paints: bool,
)
    ensures
        adjusted.start >= adjusted.end ==> !moves_selection(adjusted, Some(current), paints)
            && !moves_selection(adjusted, None, paints),
        adjusted.start < adjusted.end ==> moves_selection(adjusted, None, paints) == paints,
        adjusted.start < adjusted.end && current != adjusted && current.start < current.end
            ==> moves_selection(adjusted, Some(current), paints),
        adjusted.start < adjusted.end && current != adjusted && current.start >= current.end
            ==> moves_selection(adjusted, Some(current), paints) == paints,
{
}

/// A caret asked for behind a composing text stays at its end. One asked for before its start is moved
/// as far into the text, and at most to its end.
pub proof fn carets_are_moved_into_the_composing_text(len: int, position: int)
    requires
        len >= 0,
    ensures
        position > 0 ==> composing_caret(len, position) == len,
        position <= 0 && -position <= len ==> composing_caret(len, position) == -position,
        position <= 0 && -position > len ==> composing_caret(len, position) == len,
{
}

/// A selection is answered for by the handler that it began in, as long as that is installed.
pub proof fn selections_are_answered_where_they_began(state: AndroidWindowState)
    ensures
        state.active_selection_source is None ==> state.answers() is None,
        state.active_selection_source == Some(ActiveSelectionSource::Input) ==> state.answers()
            == if state.has_input_handler {
            Some(ActiveSelectionSource::Input)
        } else {
            None
        },
        state.active_selection_source == Some(ActiveSelectionSource::ReadOnly) ==> state.answers()
            == if state.has_selection_handler {
            Some(ActiveSelectionSource::ReadOnly)
        } else {
            None
        },
{
}

} // verus!
