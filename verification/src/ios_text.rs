//! Answers of the UIKit text-input surface about positions and ranges of its document.
//!
//! Positions count UTF-16 code units from the start of the document of the active handler. A
//! position that UIKit hands in may be unknown, and so may the length of the document.
use crate::geometry::Bounds;
use crate::ios_policy::{
    handles_native_touch_selection, should_begin_text_interaction,
    should_report_text_input_range_geometry, should_use_system_keyboard, EditMenuActionPolicy,
    PlatformTextInputTraits, SelectionMenuPresentation, TEXT_INTERACTION_EDITABLE,
    TEXT_INTERACTION_NONEDITABLE,
};
use crate::ios_policy;
use crate::ios_policy::SelectionGeometry;
use crate::ios_session;
use crate::ios_session::SelectionCache;
use crate::selection_handler::UTF16Selection;
use crate::text::to_chars;
use std::ops::Range;
use vstd::prelude::*;
use vstd::string::*;

verus! {

/// The position `offset` away from `index`, if it lies in the document and both can be told as
/// signed numbers.
pub open spec fn moved_position(index: int, offset: int, document_len: int) -> Option<int> {
    if index <= isize::MAX && 0 <= index + offset <= document_len && index + offset <= isize::MAX {
        Some(index + offset)
    } else {
        None
    }
}

/// What an optional position is as a number.
pub open spec fn position_value(position: Option<usize>) -> Option<int> {
    match position {
        Some(position) => Some(position as int),
        None => None,
    }
}

/// Moves a position by a signed offset; impossible positions are refused.
pub fn offset_text_position_index(index: usize, offset: isize, document_len: usize) -> (moved:
    Option<usize>)
    ensures
        position_value(moved) == moved_position(index as int, offset as int, document_len as int),
{
    if index > isize::MAX as usize {
        return None;
    }
    let index: isize = index as isize;
    let result: isize = match index.checked_add(offset) {
        Some(result) => result,
        None => {
            return None;
        },
    };
    if result < 0 {
        return None;
    }
    let result: usize = result as usize;
    if result <= document_len {
        Some(result)
    } else {
        None
    }
}

/// The position at an offset from the start of a range, if the range reaches it.
pub open spec fn position_in_range(range: Range<usize>, offset: int) -> Option<int> {
    if offset >= 0 && range.start + offset <= range.end {
        Some(range.start + offset)
    } else {
        None
    }
}

/// How far a position lies from the start of a range that holds it.
pub open spec fn offset_in_range(range: Range<usize>, index: int) -> Option<int> {
    if range.start <= index <= range.end {
        Some(index - range.start)
    } else {
        None
    }
}

/// Finds the position at an offset from the start of a range, if the range reaches it.
pub fn text_position_index_at_range_offset(range: Range<usize>, offset: isize) -> (position: Option<
    usize,
>)
    ensures
        position_value(position) == position_in_range(range, offset as int),
{
    if offset < 0 {
        return None;
    }
    let index: usize = match range.start.checked_add(offset as usize) {
        Some(index) => index,
        None => {
            return None;
        },
    };
    if index <= range.end {
        Some(index)
    } else {
        None
    }
}

/// Finds how far a position lies from the start of a range that holds it.
pub fn text_position_offset_in_range(index: usize, range: Range<usize>) -> (offset: Option<usize>)
    ensures
        position_value(offset) == offset_in_range(range, index as int),
{
    if range.start <= index && index <= range.end {
        Some(index - range.start)
    } else {
        None
    }
}

/// Whether a direction leads towards the start of the text: left and up do.
pub open spec fn leads_back(direction: i64) -> bool {
    direction == 1 || direction == 2
}

/// Finds the character next to a position in a direction; at either end of the document it is the
/// empty range there.
pub fn text_character_range_by_extending_position(
    index: usize,
    direction: i64,
    document_len: usize,
) -> (range: Option<Range<usize>>)
    ensures
        range is Some <==> index <= document_len,
        range matches Some(range) ==> if leads_back(direction) {
            &&& range.start == if index == 0 { 0 } else { index - 1 }
            &&& range.end == index
        } else {
            &&& range.start == index
            &&& range.end == if index < document_len { index + 1 } else { document_len as int }
        },
{
    if index > document_len {
        return None;
    }
    let range: Range<usize> = if direction == 1 || direction == 2 {
        index.saturating_sub(1)..index
    } else {
        index..(if index < document_len {
            index + 1
        } else {
            document_len
        })
    };
    Some(range)
}

/// Whether the document holds any text.
pub fn text_input_has_text(document_utf16_len: Option<usize>) -> (has_text: bool)
    ensures
        has_text <==> document_utf16_len is Some && document_utf16_len->0 > 0,
{
    match document_utf16_len {
        Some(len) => len > 0,
        None => false,
    }
}

/// Moves a position by an offset, unless it or the document is unknown.
pub fn position_from_position(
    index: Option<usize>,
    offset: isize,
    document_len: Option<usize>,
) -> (moved: Option<usize>)
    ensures
        position_value(moved) == if index is Some && document_len is Some {
            moved_position(index->0 as int, offset as int, document_len->0 as int)
        } else {
            None
        },
{
    match (index, document_len) {
        (Some(index), Some(document_len)) => offset_text_position_index(
            index,
            offset,
            document_len,
        ),
        _ => None,
    }
}

/// The signed offset that a distance in a direction stands for.
pub open spec fn directed_offset(direction: i64, offset: int) -> int {
    let distance = if offset < 0 { -offset } else { offset };
    if leads_back(direction) {
        -distance
    } else {
        distance
    }
}

/// Moves a position by a distance in a direction: left and up go back, right and down go on.
pub fn position_in_direction(
    index: Option<usize>,
    direction: i64,
    offset: isize,
    document_len: Option<usize>,
) -> (moved: Option<usize>)
    requires
        offset > isize::MIN,
    ensures
        position_value(moved) == if index is Some && document_len is Some {
            moved_position(
                index->0 as int,
                directed_offset(direction, offset as int),
                document_len->0 as int,
            )
        } else {
            None
        },
{
    let distance: isize = if offset < 0 {
        -offset
    } else {
        offset
    };
    let effective_offset: isize = if direction == 1 || direction == 2 {
        -distance
    } else {
        distance
    };
    position_from_position(index, effective_offset, document_len)
}

/// Whether a known document is too short for either of two positions.
pub open spec fn out_of_document(start: usize, end: usize, document_len: Option<usize>) -> bool {
    document_len matches Some(len) && (start > len || end > len)
}

/// Spans two positions in either order, if both are known and lie in the document.
pub fn range_between_positions(
    from: Option<usize>,
    to: Option<usize>,
    document_len: Option<usize>,
) -> (range: Option<Range<usize>>)
    ensures
        range is Some <==> from is Some && to is Some && !out_of_document(
            from->0,
            to->0,
            document_len,
        ),
        range matches Some(range) ==> {
            &&& range.start <= range.end
            &&& (range.start == from->0 && range.end == to->0) || (range.start == to->0
                && range.end == from->0)
        },
{
    let (start, end): (usize, usize) = match (from, to) {
        (Some(start), Some(end)) => (start, end),
        _ => {
            return None;
        },
    };
    if let Some(document_len) = document_len {
        if start > document_len || end > document_len {
            return None;
        }
    }
    if start <= end {
        Some(start..end)
    } else {
        Some(end..start)
    }
}

/// Orders two positions as UIKit numbers it; unknown positions count as equal.
pub fn order_of_positions(position: Option<usize>, other: Option<usize>) -> (order: i64)
    ensures
        order == match (position, other) {
            (Some(a), Some(b)) => if a < b {
                -1int
            } else if a > b {
                1
            } else {
                0
            },
            _ => 0,
        },
{
    match (position, other) {
        (Some(a), Some(b)) => if a < b {
            -1
        } else if a > b {
            1
        } else {
            0
        },
        _ => 0,
    }
}

/// Measures the signed distance between two positions; zero where one is unknown.
pub fn offset_between_positions(from: Option<usize>, to: Option<usize>) -> (offset: isize)
    requires
        from matches Some(from) ==> from <= isize::MAX,
        to matches Some(to) ==> to <= isize::MAX,
    ensures
        offset == if from is Some && to is Some {
            to->0 - from->0
        } else {
            0
        },
{
    match (from, to) {
        (Some(start), Some(end)) => (end as isize) - (start as isize),
        _ => 0,
    }
}

/// Finds the end of a range that lies farthest in a direction.
pub fn farthest_position_in_range(
    range: Option<Range<usize>>,
    direction: i64,
    document_len: Option<usize>,
) -> (position: Option<usize>)
    ensures
        position is Some <==> range is Some && !out_of_document(
            range->0.start,
            range->0.end,
            document_len,
        ),
        position matches Some(position) ==> position == if leads_back(direction) {
            range->0.start
        } else {
            range->0.end
        },
{
    let range: Range<usize> = match range {
        Some(range) => range,
        None => {
            return None;
        },
    };
    if let Some(document_len) = document_len {
        if range.start > document_len || range.end > document_len {
            return None;
        }
    }
    if direction == 1 || direction == 2 {
        Some(range.start)
    } else {
        Some(range.end)
    }
}

/// Tells how far a position lies from the start of a range, or minus one where it does not lie in
/// it.
pub fn character_offset_of_position(index: Option<usize>, range: Option<Range<usize>>) -> (offset:
    isize)
    ensures
        offset == if index is Some && range is Some && range->0.start <= index->0 <= range->0.end
            && index->0 - range->0.start <= isize::MAX {
            index->0 - range->0.start
        } else {
            -1
        },
{
    match (index, range) {
        (Some(index), Some(range)) => match text_position_offset_in_range(index, range) {
            Some(offset) => if offset <= isize::MAX as usize {
                offset as isize
            } else {
                -1
            },
            None => -1,
        },
        _ => -1,
    }
}

/// Whether the handler should be asked for the position nearest to a point: only where it has none
/// under the point and a selection is being adjusted.
pub fn asks_for_nearest_position(
    direct_index: Option<usize>,
    has_active_selection: bool,
) -> (asks: bool)
    ensures
        asks <==> direct_index is None && has_active_selection,
{
    direct_index.is_none() && has_active_selection
}

/// Chooses the position for a point from that under it and that nearest to it.
pub fn closest_position_to_point(
    native_touch_selection: bool,
    direct_index: Option<usize>,
    nearest_index: Option<usize>,
) -> (position: Option<usize>)
    ensures
        position == if !native_touch_selection {
            None
        } else if direct_index is Some {
            direct_index
        } else {
            nearest_index
        },
{
    if !native_touch_selection {
        return None;
    }
    if direct_index.is_some() {
        direct_index
    } else {
        nearest_index
    }
}

/// Moves the position chosen for a point into a range.
pub fn closest_position_within_range(
    position: Option<usize>,
    range: Option<Range<usize>>,
) -> (clamped: Option<usize>)
    requires
        range matches Some(range) ==> range.start <= range.end,
    ensures
        clamped is Some == position is Some,
        position is Some && range is None ==> clamped == position,
        position is Some && range is Some ==> clamped->0 == if position->0 < range->0.start {
            range->0.start
        } else if position->0 > range->0.end {
            range->0.end
        } else {
            position->0
        },
{
    match (position, range) {
        (Some(index), Some(range)) => if index < range.start {
            Some(range.start)
        } else if index > range.end {
            Some(range.end)
        } else {
            Some(index)
        },
        (position, _) => position,
    }
}

/// The range of the single character at the position chosen for a point.
pub fn character_range_at_position(
    native_touch_selection: bool,
    position: Option<usize>,
) -> (range: Option<Range<usize>>)
    ensures
        range is Some <==> native_touch_selection && position is Some,
        range matches Some(range) ==> {
            &&& range.start == position->0
            &&& range.end == if position->0 < usize::MAX { position->0 + 1 } else {
                usize::MAX as int
            }
        },
{
    if !native_touch_selection {
        return None;
    }
    match position {
        Some(index) => Some(index..index.saturating_add(1)),
        None => None,
    }
}

/// The location that stands for no range.
pub const NS_NOT_FOUND: u64 = 0xffff_ffff_ffff_ffff;

/// Reads the selection inside marked text.
pub fn marked_selection(location: u64, length: u64) -> (selected: Option<Range<usize>>)
    requires
        location != NS_NOT_FOUND ==> location + length <= usize::MAX && location + length
            <= u64::MAX,
    ensures
        selected is None <==> location == NS_NOT_FOUND,
        selected matches Some(range) ==> range.start == location && range.end == location + length,
{
    if location != NS_NOT_FOUND {
        Some((location as usize)..((location + length) as usize))
    } else {
        None
    }
}

/// Where the placeholder of a dictation result goes: at the moving end of the selection.
pub fn dictation_placeholder_range(selection: Option<UTF16Selection>) -> (range: Range<usize>)
    ensures
        range.start == range.end,
        range.end == match selection {
            Some(selection) => if selection.reversed {
                selection.range.start
            } else {
                selection.range.end
            },
            None => 0,
        },
{
    match selection {
        Some(selection) => if selection.reversed {
            selection.range.start..selection.range.start
        } else {
            selection.range.end..selection.range.end
        },
        None => 0..0,
    }
}

/// The known texts of phrases joined.
pub open spec fn joined_phrases(phrases: Seq<Option<String>>) -> Seq<char>
    decreases phrases.len(),
{
    if phrases.len() == 0 {
        Seq::empty()
    } else {
        joined_phrases(phrases.drop_last()) + match phrases.last() {
            Some(text) => text@,
            None => Seq::empty(),
        }
    }
}

/// Joins the phrases of a dictation result, if that gives any text.
pub fn dictation_result_text(phrases: &Option<Vec<Option<String>>>) -> (text: Option<String>)
    ensures
        text is Some <==> phrases is Some && joined_phrases(phrases->0@).len() > 0,
        text matches Some(text) ==> text@ == joined_phrases(phrases->0@),
{
    let phrases: &Vec<Option<String>> = match phrases {
        Some(phrases) => phrases,
        None => {
            return None;
        },
    };
    let mut result: String = String::new();
    let mut i: usize = 0;
    while i < phrases.len()
        invariant
            i <= phrases@.len(),
            result@ == joined_phrases(phrases@.take(i as int)),
        decreases phrases@.len() - i,
    {
        proof {
            let longer = phrases@.take(i as int + 1);
            assert(longer.drop_last() =~= phrases@.take(i as int));
        }
        if let Some(text) = &phrases[i] {
            result.append(text.as_str());
        } else {
            assert(result@ =~= result@ + Seq::<char>::empty());
        }
        i = i + 1;
    }
    assert(phrases@.take(phrases@.len() as int) =~= phrases@);
    if result.as_str().is_empty() {
        None
    } else {
        Some(result)
    }
}

/// The selection that UIKit is told: none for a read-only surface without selection, else an empty
/// one at the start.
pub fn reported_selection(range: Option<Range<usize>>, interaction_mode: i8) -> (reported: Option<
    Range<usize>,
>)
    ensures
        reported == if range is Some {
            range
        } else if interaction_mode == TEXT_INTERACTION_NONEDITABLE {
            None
        } else {
            Some(Range { start: 0usize, end: 0usize })
        },
{
    match range {
        Some(range) => Some(range),
        None => if interaction_mode == TEXT_INTERACTION_NONEDITABLE {
            None
        } else {
            Some(0..0)
        },
    }
}

/// The range a handler puts in place of one that native selection asks for; without native
/// selection, or where the handler has none, the range itself.
pub fn adjusted_native_selection_range(
    range: Range<usize>,
    native_touch_selection: bool,
    adjusted_by_handler: Option<Range<usize>>,
) -> (adjusted: Range<usize>)
    ensures
        adjusted == if native_touch_selection && adjusted_by_handler is Some {
            adjusted_by_handler->0
        } else {
            range
        },
{
    if !native_touch_selection {
        return range;
    }
    match adjusted_by_handler {
        Some(adjusted) => adjusted,
        None => range,
    }
}

/// The range whose rectangles are reported for a requested one.
///
/// UIKit may request rectangles for the collapsed anchor after it already moved the selection to a
/// non-empty range; the range that is cached stays visible then.
pub fn effective_native_selection_range(
    adjusted: Range<usize>,
    native_touch_selection: bool,
    cached_range: Option<Range<usize>>,
) -> (effective: Range<usize>)
    ensures
        effective == if native_touch_selection && adjusted.start >= adjusted.end
            && cached_range is Some {
            cached_range->0
        } else {
            adjusted
        },
{
    if native_touch_selection && adjusted.start >= adjusted.end {
        if let Some(cached_range) = cached_range {
            return cached_range;
        }
    }
    adjusted
}

/// What follows when UIKit moves the selection.
#[derive(Debug, PartialEq, Eq)]
pub struct SelectionChange {
    /// The range the handler selects.
    pub range: Range<usize>,
    /// Whether UIKit's own range object takes over the handler's range.
    pub rewrites_request: bool,
    /// Whether the range is remembered for later touches on selection handles.
    pub caches_range: bool,
}

/// Plans what follows when UIKit moves the selection to a range that the handler may adjust.
pub fn selection_change(
    interaction_mode: i8,
    input_native_selection_enabled: bool,
    requested: Option<Range<usize>>,
    adjusted_by_handler: Option<Range<usize>>,
) -> (change: Option<SelectionChange>)
    ensures
        change is Some <==> requested is Some && (interaction_mode == TEXT_INTERACTION_EDITABLE
            || interaction_mode == TEXT_INTERACTION_NONEDITABLE),
        change matches Some(change) ==> {
            let native = ios_policy::native_touch_selection(
                interaction_mode,
                input_native_selection_enabled,
            );
            &&& change.range == if native && adjusted_by_handler is Some {
                adjusted_by_handler->0
            } else {
                requested->0
            }
            &&& change.rewrites_request <==> change.range != requested->0
            &&& change.caches_range == native
        },
{
    if !should_report_text_input_range_geometry(interaction_mode, input_native_selection_enabled) {
        return None;
    }
    let requested: Range<usize> = match requested {
        Some(requested) => requested,
        None => {
            return None;
        },
    };
    let native: bool = handles_native_touch_selection(
        interaction_mode,
        input_native_selection_enabled,
    );
    let start: usize = requested.start;
    let end: usize = requested.end;
    let range: Range<usize> = adjusted_native_selection_range(
        requested,
        native,
        adjusted_by_handler,
    );
    let rewrites_request: bool = range.start != start || range.end != end;
    Some(SelectionChange { range, rewrites_request, caches_range: native })
}

/// What a touch that may begin a text interaction is known to have met.
#[derive(Clone, Copy, Debug, PartialEq, Eq, Structural)]
pub struct InteractionTouch {
    pub tap_count: u64,
    /// How long the primary touch has been down, if it is.
    pub pressed_millis: Option<u64>,
    /// Whether the handler allows native selection at the point and has a position there.
    pub input_allows_selection: bool,
    /// Whether read-only selectable text lies under the point.
    pub hits_selectable_text: bool,
}

/// Whether a touch is a single press that has rested long enough.
pub open spec fn is_long_press(touch: InteractionTouch) -> bool {
    &&& touch.tap_count == 1
    &&& touch.pressed_millis is Some
    &&& touch.pressed_millis->0 >= ios_policy::EDITABLE_NATIVE_SELECTION_LONG_PRESS_MIN_MILLIS
}

/// Decides whether a text interaction begins at a touch.
///
/// An input that selects natively does so only from a matured single press, so that ordinary taps
/// stay with the application.
pub fn interaction_should_begin(
    interaction_mode: i8,
    input_native_selection_enabled: bool,
    touch: InteractionTouch,
) -> (begins: bool)
    ensures
        begins <==> ios_policy::native_touch_selection(
            interaction_mode,
            input_native_selection_enabled,
        ) && if input_native_selection_enabled {
            is_long_press(touch) && touch.input_allows_selection
        } else {
            touch.hits_selectable_text
        },
{
    let long_press: bool = match touch.pressed_millis {
        Some(millis) => millis >= ios_policy::EDITABLE_NATIVE_SELECTION_LONG_PRESS_MIN_MILLIS,
        None => false,
    };
    let hit_selectable_text: bool = if input_native_selection_enabled {
        if touch.tap_count != 1 || !long_press {
            false
        } else {
            touch.input_allows_selection
        }
    } else {
        touch.hits_selectable_text
    };
    should_begin_text_interaction(
        interaction_mode,
        input_native_selection_enabled,
        hit_selectable_text,
    )
}

/// A key that stands for one inserted character where no handler takes text.
#[derive(Clone, Copy, Debug, PartialEq, Eq, Structural)]
pub enum InsertedKey {
    Return,
    Character(char),
}

/// The key for an inserted character: line ends press the return key.
pub open spec fn inserted_key(c: char) -> InsertedKey {
    if c == '\n' || c == '\r' {
        InsertedKey::Return
    } else {
        InsertedKey::Character(c)
    }
}

/// Lists the keys that stand for inserted text where no handler takes it.
pub fn inserted_keys(text: &str) -> (keys: Vec<InsertedKey>)
    ensures
        keys@ == text@.map_values(|c: char| inserted_key(c)),
{
    let chars: Vec<char> = to_chars(text);
    let mut keys: Vec<InsertedKey> = Vec::new();
    let mut i: usize = 0;
    while i < chars.len()
        invariant
            chars@ == text@,
            i <= chars@.len(),
            keys@.len() == i,
            forall|j: int| 0 <= j < i ==> #[trigger] keys@[j] == inserted_key(text@[j]),
        decreases chars@.len() - i,
    {
        let c: char = chars[i];
        let key: InsertedKey = if c == '\n' || c == '\r' {
            InsertedKey::Return
        } else {
            InsertedKey::Character(c)
        };
        assert(key == inserted_key(text@[i as int]));
        keys.push(key);
        i = i + 1;
    }
    assert(keys@ =~= text@.map_values(|c: char| inserted_key(c)));
    keys
}

/// What an edit menu is made of.
#[derive(Clone, Copy, Debug, PartialEq, Eq, Structural)]
pub enum EditMenu {
    /// The system builds its own menu.
    SystemDefault,
    /// The custom actions, behind the suggested ones where those are wanted.
    Custom { with_suggested: bool },
}

/// Decides what an edit menu is made of.
pub fn edit_menu(
    menu_presentation: SelectionMenuPresentation,
    action_count: usize,
    has_suggested_actions: bool,
) -> (menu: EditMenu)
    ensures
        menu is SystemDefault <==> action_count == 0
            && menu_presentation is SystemAndCustomActions,
        menu matches EditMenu::Custom { with_suggested } ==> (with_suggested <==>
            menu_presentation is SystemAndCustomActions && has_suggested_actions),
{
    let keeps_system: bool = menu_presentation
        == SelectionMenuPresentation::SystemAndCustomActions;
    if action_count == 0 && keeps_system {
        EditMenu::SystemDefault
    } else {
        EditMenu::Custom { with_suggested: keeps_system && has_suggested_actions }
    }
}

/// The actions of the selection menu, each with the name of its image: those that the handler
/// offers where native selection is in charge of touches, and none elsewhere.
pub fn selection_action_presentations(
    interaction_mode: i8,
    input_native_selection_enabled: bool,
    offered_by_handler: Option<Vec<(String, Option<String>)>>,
) -> (actions: Vec<(String, Option<String>)>)
    ensures
        if ios_policy::native_touch_selection(interaction_mode, input_native_selection_enabled)
            && offered_by_handler is Some {
            actions == offered_by_handler->0
        } else {
            actions@.len() == 0
        },
{
    if !handles_native_touch_selection(interaction_mode, input_native_selection_enabled) {
        return Vec::new();
    }
    match offered_by_handler {
        Some(actions) => actions,
        None => Vec::new(),
    }
}

/// How the selection menu is presented: as the handler wishes where native selection is in charge of
/// touches, and with the system's actions elsewhere.
pub fn selection_menu_presentation(
    interaction_mode: i8,
    input_native_selection_enabled: bool,
    wished_by_handler: Option<SelectionMenuPresentation>,
) -> (presentation: SelectionMenuPresentation)
    ensures
        presentation == if ios_policy::native_touch_selection(
            interaction_mode,
            input_native_selection_enabled,
        ) && wished_by_handler is Some {
            wished_by_handler->0
        } else {
            SelectionMenuPresentation::SystemAndCustomActions
        },
{
    if !handles_native_touch_selection(interaction_mode, input_native_selection_enabled) {
        return SelectionMenuPresentation::default();
    }
    match wished_by_handler {
        Some(presentation) => presentation,
        None => SelectionMenuPresentation::default(),
    }
}

/// The action that the handler performs when one of the selection menu is chosen: none once the view
/// is gone or native selection is no longer in charge of touches.
pub fn perform_selection_menu_action(
    has_view: bool,
    interaction_mode: i8,
    input_native_selection_enabled: bool,
    action_index: usize,
) -> (performed: Option<usize>)
    ensures
        performed == if has_view && ios_policy::native_touch_selection(
            interaction_mode,
            input_native_selection_enabled,
        ) {
            Some(action_index)
        } else {
            None
        },
{
    if has_view && handles_native_touch_selection(
        interaction_mode,
        input_native_selection_enabled,
    ) {
        Some(action_index)
    } else {
        None
    }
}

/// The range whose text is copied: that of a selection that covers something.
pub fn copied_range(selection: Option<UTF16Selection>) -> (copied: Option<Range<usize>>)
    ensures
        copied == if selection is Some && selection->0.range.start < selection->0.range.end {
            Some(selection->0.range)
        } else {
            None
        },
{
    match selection {
        Some(selection) => if selection.range.start < selection.range.end {
            Some(selection.range)
        } else {
            None
        },
        None => None,
    }
}

/// The text that reaches the pasteboard: the pasteboard is left alone where the handler has none for
/// the range, or one with a character that ends text for the system.
pub fn copied_text(text: Option<String>) -> (copied: Option<String>)
    ensures
        copied == if text is Some && !text->0@.contains('\0') {
            text
        } else {
            None
        },
{
    let text: String = match text {
        Some(text) => text,
        None => {
            return None;
        },
    };
    let chars: Vec<char> = to_chars(&text);
    let mut i: usize = 0;
    while i < chars.len() && chars[i] != '\0'
        invariant
            chars@ == text@,
            i <= chars@.len(),
            forall|j: int| 0 <= j < i ==> #[trigger] text@[j] != '\0',
        decreases chars@.len() - i,
    {
        i = i + 1;
    }
    if i < chars.len() {
        assert(text@[i as int] == '\0');
        None
    } else {
        Some(text)
    }
}

/// Decides whether UIKit may perform an action: key commands always, copying where something is
/// selected, and other actions as the system sees fit unless the menu is disabled.
pub fn can_perform_action(
    is_key_command: bool,
    policy: EditMenuActionPolicy,
    has_selection: bool,
    system_allows: bool,
) -> (can: bool)
    ensures
        can <==> is_key_command || match policy {
            EditMenuActionPolicy::CopySelection => has_selection,
            EditMenuActionPolicy::DelegateToSystem => system_allows,
            EditMenuActionPolicy::DisableNativeMenu => false,
        },
{
    if is_key_command {
        return true;
    }
    match policy {
        EditMenuActionPolicy::CopySelection => has_selection,
        EditMenuActionPolicy::DelegateToSystem => system_allows,
        EditMenuActionPolicy::DisableNativeMenu => false,
    }
}

/// Which of the two installed handlers answers text callbacks.
#[derive(Clone, Copy, Debug, PartialEq, Eq, Structural)]
pub enum HandlerSlot {
    Input,
    Selection,
}

/// Chooses the handler for a text callback: that of the active mode, and without a mode the input
/// handler before the selection handler. A handler that is already in use cannot be chosen.
pub fn handler_slot(
    active_interaction_mode: i8,
    input_available: bool,
    selection_available: bool,
) -> (slot: Option<HandlerSlot>)
    ensures
        slot == Some(HandlerSlot::Input) <==> input_available && active_interaction_mode
            != TEXT_INTERACTION_NONEDITABLE,
        slot == Some(HandlerSlot::Selection) <==> selection_available && active_interaction_mode
            != TEXT_INTERACTION_EDITABLE && (active_interaction_mode
            == TEXT_INTERACTION_NONEDITABLE || !input_available),
{
    if active_interaction_mode == TEXT_INTERACTION_EDITABLE {
        if input_available {
            Some(HandlerSlot::Input)
        } else {
            None
        }
    } else if active_interaction_mode == TEXT_INTERACTION_NONEDITABLE {
        if selection_available {
            Some(HandlerSlot::Selection)
        } else {
            None
        }
    } else if input_available {
        Some(HandlerSlot::Input)
    } else if selection_available {
        Some(HandlerSlot::Selection)
    } else {
        None
    }
}

/// The handlers for text callbacks, as far as they are not in use.
pub struct CallbackHandlers<H> {
    pub input: Option<H>,
    pub selection: Option<H>,
}

impl<H> CallbackHandlers<H> {
    /// The handler that answers in a mode.
    pub open spec fn answering(self, active_interaction_mode: i8) -> Option<H> {
        if active_interaction_mode == TEXT_INTERACTION_EDITABLE {
            self.input
        } else if active_interaction_mode == TEXT_INTERACTION_NONEDITABLE {
            self.selection
        } else if self.input is Some {
            self.input
        } else {
            self.selection
        }
    }

    /// The handlers with the one that answers in a mode replaced.
    pub open spec fn with_answering(self, active_interaction_mode: i8, handler: H) -> Self {
        if active_interaction_mode == TEXT_INTERACTION_EDITABLE || (active_interaction_mode
            != TEXT_INTERACTION_NONEDITABLE && self.input is Some) {
            CallbackHandlers { input: Some(handler), selection: self.selection }
        } else {
            CallbackHandlers { input: self.input, selection: Some(handler) }
        }
    }

    /// Hands the handler that answers in a mode to a callback, and puts what comes back in its
    /// place. Without such a handler the callback is not run.
    pub fn with_input_handler<R, F: FnOnce(H) -> (H, R)>(
        &mut self,
        active_interaction_mode: i8,
        f: F,
    ) -> (result: Option<R>)
        requires
            old(self).answering(active_interaction_mode) is Some ==> f.requires(
                (old(self).answering(active_interaction_mode)->0,),
            ),
        ensures
            match old(self).answering(active_interaction_mode) {
                None => result is None && *final(self) == *old(self),
                Some(handler) => result is Some && exists|after: H|
                    #[trigger] f.ensures((handler,), (after, result->0)) && *final(self)
                        == old(self).with_answering(active_interaction_mode, after),
            },
    {
        let slot: HandlerSlot = match handler_slot(
            active_interaction_mode,
            self.input.is_some(),
            self.selection.is_some(),
        ) {
            Some(slot) => slot,
            None => {
                return None;
            },
        };
        let mut taken: Option<H> = None;
        match slot {
            HandlerSlot::Input => {
                std::mem::swap(&mut taken, &mut self.input);
            },
            HandlerSlot::Selection => {
                std::mem::swap(&mut taken, &mut self.selection);
            },
        }
        let handler: H = match taken {
            Some(handler) => handler,
            None => {
                return None;
            },
        };
        let (after, result) = f(handler);
        match slot {
            HandlerSlot::Input => {
                self.input = Some(after);
            },
            HandlerSlot::Selection => {
                self.selection = Some(after);
            },
        }
        assert(*self == old(self).with_answering(active_interaction_mode, after));
        let answer: Option<R> = Some(result);
        assert(f.ensures((handler,), (after, answer->0)));
        answer
    }
}

/// Decides whether the view may become first responder.
pub fn can_become_first_responder(
    input_accepts_text_input: bool,
    target_interaction_mode: i8,
) -> (can: bool)
    ensures
        can <==> input_accepts_text_input || target_interaction_mode
            == TEXT_INTERACTION_NONEDITABLE || target_interaction_mode
            == TEXT_INTERACTION_EDITABLE,
{
    input_accepts_text_input || target_interaction_mode == TEXT_INTERACTION_NONEDITABLE
        || target_interaction_mode == TEXT_INTERACTION_EDITABLE
}

/// The typing aids in force: those of the input while the system keyboard is attached.
pub fn active_text_input_traits(
    has_input_handler: bool,
    has_callback_input_handler: bool,
    input_accepts_text_input: bool,
    keyboard_session_requested: bool,
    input_traits: PlatformTextInputTraits,
    default_traits: PlatformTextInputTraits,
) -> (traits: PlatformTextInputTraits)
    ensures
        traits == if ios_policy::uses_system_keyboard(
            has_input_handler,
            has_callback_input_handler,
            input_accepts_text_input,
            keyboard_session_requested,
        ) {
            input_traits
        } else {
            default_traits
        },
{
    if should_use_system_keyboard(
        has_input_handler,
        has_callback_input_handler,
        input_accepts_text_input,
        keyboard_session_requested,
    ) {
        input_traits
    } else {
        default_traits
    }
}

/// The rectangle reported for a range.
#[derive(Clone, Copy, Debug, PartialEq, Eq, Structural)]
pub enum ReportedRect {
    /// No text is shown: an empty rectangle.
    Empty,
    /// The text is not found: a fixed rectangle near the top.
    Fallback,
    /// Where the text was painted.
    Painted(Bounds),
}

/// Chooses the rectangle reported for a range.
pub fn first_rect_for_range(
    interaction_mode: i8,
    input_native_selection_enabled: bool,
    range_is_known: bool,
    bounds: Option<Bounds>,
) -> (rect: ReportedRect)
    ensures
        rect == if interaction_mode != TEXT_INTERACTION_EDITABLE && interaction_mode
            != TEXT_INTERACTION_NONEDITABLE {
            ReportedRect::Empty
        } else if range_is_known && bounds is Some {
            ReportedRect::Painted(bounds->0)
        } else {
            ReportedRect::Fallback
        },
{
    if !should_report_text_input_range_geometry(interaction_mode, input_native_selection_enabled) {
        return ReportedRect::Empty;
    }
    if !range_is_known {
        return ReportedRect::Fallback;
    }
    match bounds {
        Some(bounds) => ReportedRect::Painted(bounds),
        None => ReportedRect::Fallback,
    }
}

/// A rectangle of a selection, marked where the selection begins and ends.
#[derive(Clone, Copy, Debug, PartialEq, Eq, Structural)]
pub struct SelectionRect {
    pub bounds: Bounds,
    pub contains_start: bool,
    pub contains_end: bool,
}

/// Marks the first and the last rectangle of a selection.
pub fn selection_rects(rects: &Vec<Bounds>) -> (marked: Vec<SelectionRect>)
    ensures
        marked@.len() == rects@.len(),
        forall|i: int|
            0 <= i < rects@.len() ==> #[trigger] marked@[i] == (SelectionRect {
                bounds: rects@[i],
                contains_start: i == 0,
                contains_end: i + 1 == rects@.len(),
            }),
{
    let mut marked: Vec<SelectionRect> = Vec::new();
    let mut i: usize = 0;
    while i < rects.len()
        invariant
            i <= rects@.len(),
            marked@.len() == i,
            forall|j: int|
                0 <= j < i ==> #[trigger] marked@[j] == (SelectionRect {
                    bounds: rects@[j],
                    contains_start: j == 0,
                    contains_end: j + 1 == rects@.len(),
                }),
        decreases rects@.len() - i,
    {
        marked.push(
            SelectionRect {
                bounds: rects[i],
                contains_start: i == 0,
                contains_end: i == rects.len() - 1,
            },
        );
        i = i + 1;
    }
    marked
}

/// The range whose rectangles UIKit is told: none without native selection, for a range that is not
/// known, or where nothing is selected.
pub fn selection_rects_range(
    interaction_mode: i8,
    input_native_selection_enabled: bool,
    requested: Option<Range<usize>>,
    adjusted_by_handler: Option<Range<usize>>,
    cached_range: Option<Range<usize>>,
) -> (range: Option<Range<usize>>)
    ensures
        range == if !ios_policy::native_touch_selection(
            interaction_mode,
            input_native_selection_enabled,
        ) || requested is None {
            None
        } else {
            let adjusted = if adjusted_by_handler is Some {
                adjusted_by_handler->0
            } else {
                requested->0
            };
            let effective = if adjusted.start >= adjusted.end && cached_range is Some {
                cached_range->0
            } else {
                adjusted
            };
            if effective.start < effective.end {
                Some(effective)
            } else {
                None
            }
        },
{
    if !handles_native_touch_selection(interaction_mode, input_native_selection_enabled) {
        return None;
    }
    let requested: Range<usize> = match requested {
        Some(requested) => requested,
        None => {
            return None;
        },
    };
    let adjusted: Range<usize> = adjusted_native_selection_range(
        requested,
        true,
        adjusted_by_handler,
    );
    let effective: Range<usize> = effective_native_selection_range(adjusted, true, cached_range);
    if effective.start < effective.end {
        Some(effective)
    } else {
        None
    }
}

/// The rectangles that UIKit is told for a selected range, as the handler painted it.
///
/// UIKit asks for them before touches on the selection handles arrive, so a selection that was
/// painted is remembered.
pub fn selection_rects_for_range(
    cache: &mut SelectionCache,
    range: Range<usize>,
    bounds: Option<Bounds>,
    rects: Vec<Bounds>,
) -> (marked: Vec<SelectionRect>)
    requires
        old(cache).well_formed(),
        range.start < range.end,
    ensures
        final(cache).well_formed(),
        marked@.len() == rects@.len(),
        forall|i: int|
            0 <= i < rects@.len() ==> #[trigger] marked@[i] == (SelectionRect {
                bounds: rects@[i],
                contains_start: i == 0,
                contains_end: i + 1 == rects@.len(),
            }),
        ({
            let painted = SelectionGeometry { range, bounds, rects };
            if rects@.len() == 0 || ios_session::is_remembered(old(cache).geometry, painted) {
                *final(cache) == *old(cache)
            } else {
                final(cache).geometry == Some(painted)
            }
        }),
{
    let marked: Vec<SelectionRect> = selection_rects(&rects);
    if rects.len() > 0 {
        cache.cache_active_selection_geometry(SelectionGeometry { range, bounds, rects });
    }
    marked
}

/// Moving a position by an offset and back again returns to it.
pub proof fn moving_back_returns(index: int, offset: int, document_len: int)
    requires
        0 <= index <= document_len,
        moved_position(index, offset, document_len) is Some,
    ensures
        moved_position(moved_position(index, offset, document_len)->0, -offset, document_len)
            == Some(index),
{
}

/// Moving a position by the distance to another gives the other.
pub proof fn distance_leads_to_the_other(from: int, to: int, document_len: int)
    requires
        0 <= from <= isize::MAX,
        0 <= to <= isize::MAX,
        to <= document_len,
    ensures
        moved_position(from, to - from, document_len) == Some(to),
{
}

/// The offset of a position inside a range and the position at an offset undo each other.
pub proof fn range_offsets_round_trip(range: Range<usize>, index: int, offset: int)
    ensures
        offset_in_range(range, index) matches Some(o) ==> position_in_range(range, o) == Some(index),
        position_in_range(range, offset) matches Some(i) ==> offset_in_range(range, i) == Some(
            offset,
        ),
{
}

/// The rectangles reported for a selection mark exactly one start and one end.
pub proof fn selection_has_one_start_and_end(marked: Seq<SelectionRect>, rects: Seq<Bounds>)
    requires
        rects.len() > 0,
        marked.len() == rects.len(),
        forall|i: int|
            0 <= i < rects.len() ==> #[trigger] marked[i] == (SelectionRect {
                bounds: rects[i],
                contains_start: i == 0,
                contains_end: i + 1 == rects.len(),
            }),
    ensures
        forall|i: int| 0 <= i < marked.len() ==> ((#[trigger] marked[i]).contains_start <==> i == 0),
        forall|i: int|
            0 <= i < marked.len() ==> ((#[trigger] marked[i]).contains_end <==> i == marked.len()
                - 1),
{
}

/// A position moves by exactly the offset, to any place from the start of the document to its end and
/// to none outside.
pub proof fn positions_move_inside_the_document(index: int, offset: int, document_len: int)
    requires
        0 <= index <= isize::MAX,
        document_len <= isize::MAX,
    ensures
        moved_position(index, offset, document_len) matches Some(moved) ==> moved == index + offset,
        moved_position(index, offset, document_len) is Some <==> 0 <= index + offset
            <= document_len,
{
}

/// Offsets inside a range count from its start, and both ends belong to it.
pub proof fn offsets_count_from_the_start_of_a_range(range: Range<usize>, offset: int)
    requires
        range.start <= range.end,
    ensures
        0 <= offset <= range.end - range.start ==> {
            &&& position_in_range(range, offset) == Some(range.start + offset)
            &&& offset_in_range(range, range.start + offset) == Some(offset)
        },
        offset < 0 || offset > range.end - range.start ==> {
            &&& position_in_range(range, offset) is None
            &&& offset_in_range(range, range.start + offset) is None
        },
{
}

/// A distance goes back in the two directions numbered one and two and forward in all others, whatever
/// its sign.
pub proof fn distances_go_where_their_direction_leads(direction: i64, offset: int)
    ensures
        leads_back(direction) <==> direction == 1 || direction == 2,
        direction == 1 || direction == 2 ==> directed_offset(direction, offset) <= 0,
        direction != 1 && direction != 2 ==> directed_offset(direction, offset) >= 0,
        directed_offset(direction, offset) == offset || directed_offset(direction, offset)
            == -offset,
{
}

/// Two positions lie outside a document of known length where either is past its end, and a document
/// of unknown length has no outside.
pub proof fn positions_past_the_end_are_outside(start: usize, end: usize, len: usize)
    ensures
        !out_of_document(start, end, None),
        start > len ==> out_of_document(start, end, Some(len)),
        end > len ==> out_of_document(start, end, Some(len)),
        start <= len && end <= len ==> !out_of_document(start, end, Some(len)),
{
}

/// A phrase with a text adds it behind those before, and one without adds nothing.
pub proof fn phrases_follow_one_another(phrases: Seq<Option<String>>, text: String)
    ensures
        joined_phrases(Seq::empty()) == Seq::<char>::empty(),
        joined_phrases(phrases.push(Some(text))) == joined_phrases(phrases) + text@,
        joined_phrases(phrases.push(None)) == joined_phrases(phrases),
{
    assert(phrases.push(Some(text)).drop_last() =~= phrases);
    assert(phrases.push(None).drop_last() =~= phrases);
    assert(joined_phrases(phrases.push(None)) =~= joined_phrases(phrases));
}

/// A press is long from three hundred and fifty milliseconds on, if it is the only tap and still
/// down.
pub proof fn long_presses_rest_their_time(touch: InteractionTouch)
    ensures
        touch.pressed_millis is None ==> !is_long_press(touch),
        touch.tap_count != 1 ==> !is_long_press(touch),
        touch.tap_count == 1 && touch.pressed_millis is Some ==> (is_long_press(touch)
            <==> touch.pressed_millis->0 >= 350),
{
}

/// Line ends press the return key and every other character presses itself.
pub proof fn characters_press_themselves(c: char)
    ensures
        inserted_key(c) == InsertedKey::Return <==> c == '\n' || c == '\r',
        c != '\n' && c != '\r' ==> inserted_key(c) == InsertedKey::Character(c),
{
}

/// In the editable mode the input answers, in the read-only mode the selection, and without a mode the
/// input before the selection.
pub proof fn the_handler_of_the_mode_answers<H>(handlers: CallbackHandlers<H>, mode: i8)
    ensures
        mode == 1 ==> handlers.answering(mode) == handlers.input,
        mode == 0 ==> handlers.answering(mode) == handlers.selection,
        mode != 0 && mode != 1 && handlers.input is Some ==> handlers.answering(mode)
            == handlers.input,
        mode != 0 && mode != 1 && handlers.input is None ==> handlers.answering(mode)
            == handlers.selection,
{
}

/// What comes back from a callback answers the next one in the same mode, and the other handler stays
/// as it was.
pub proof fn handlers_return_to_their_place<H>(handlers: CallbackHandlers<H>, mode: i8, after: H)
    requires
        handlers.answering(mode) is Some,
    ensures
        handlers.with_answering(mode, after).answering(mode) == Some(after),
        handlers.with_answering(mode, handlers.answering(mode)->0) == handlers,
        mode == 1 ==> handlers.with_answering(mode, after).selection == handlers.selection,
        mode == 0 ==> handlers.with_answering(mode, after).input == handlers.input,
        mode != 0 && mode != 1 && handlers.input is Some ==> handlers.with_answering(
            mode,
            after,
        ).selection == handlers.selection,
{
}

/// A position that is known is the number that it is.
pub proof fn known_positions_are_numbers(position: usize)
    ensures
        position_value(Some(position)) == Some(position as int),
        position_value(None) is None,
{
}

} // verus!
