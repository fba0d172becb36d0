//! How views take part in text input: what they have to offer, what follows from it, and the handler
//! that stands for a view at a place on screen.
use crate::geometry::{Bounds, Point};
use crate::ios_policy::PlatformTextInputTraits;
use crate::selection_handler::UTF16Selection;
use crate::utf16;
use std::ops::Range;
use vstd::prelude::*;
use vstd::string::*;

verus! {

/// The characters of a text that may be missing.
pub open spec fn characters(text: Option<String>) -> Option<Seq<char>> {
    match text {
        Some(text) => Some(text@),
        None => None,
    }
}

/// The length that follows from reading behind the end of a document: where the reader was put, or
/// else the length of what was read.
pub open spec fn document_len(text: Option<Seq<char>>, adjusted: Option<Range<usize>>) -> Option<
    nat,
> {
    match text {
        Some(text) => match adjusted {
            Some(range) => Some(range.end as nat),
            None => Some(utf16::utf16_units(text)),
        },
        None => None,
    }
}

/// A view that takes text input. Each relation says what a view does when it is asked, and a view
/// that leaves one out promises nothing there; what a view does not do itself follows from the others.
pub trait EntityInputHandler: Sized {
    /// Whether reading a range gives a text and puts the reader at a range.
    open spec fn reads(
        before: Self,
        range: Range<usize>,
        adjusted_before: Option<Range<usize>>,
        text: Option<Seq<char>>,
        adjusted: Option<Range<usize>>,
        after: Self,
    ) -> bool {
        true
    }

    /// Whether this is the selection.
    open spec fn selection_is(
        before: Self,
        ignore_disabled_input: bool,
        selection: Option<UTF16Selection>,
        after: Self,
    ) -> bool {
        true
    }

    /// Whether this is the range of the text that is being composed.
    open spec fn mark_is(self, range: Option<Range<usize>>) -> bool {
        true
    }

    /// Whether composing ends like this.
    open spec fn unmarks(before: Self, after: Self) -> bool {
        true
    }

    /// Whether replacing a range by a text leads there. Without a range the selection is replaced.
    open spec fn replaces(
        before: Self,
        range: Option<Range<usize>>,
        text: Seq<char>,
        after: Self,
    ) -> bool {
        true
    }

    /// Whether replacing a range by a text that is being composed leads there.
    open spec fn replaces_and_marks(
        before: Self,
        range: Option<Range<usize>>,
        text: Seq<char>,
        selected: Option<Range<usize>>,
        after: Self,
    ) -> bool {
        true
    }

    /// Whether a range of the text lies there, for a view with these bounds.
    open spec fn bounds_are(
        before: Self,
        range: Range<usize>,
        element_bounds: Bounds,
        bounds: Option<Bounds>,
        after: Self,
    ) -> bool {
        true
    }

    /// Whether a point lies on this character.
    open spec fn index_is(before: Self, point: Point, index: Option<usize>, after: Self) -> bool {
        true
    }

    fn text_for_range(&mut self, range: Range<usize>, adjusted_range: &mut Option<Range<usize>>) -> (text:
        Option<String>)
        ensures
            Self::reads(
                *old(self),
                range,
                *old(adjusted_range),
                characters(text),
                *final(adjusted_range),
                *final(self),
            ),
    ;

    fn text_len_utf16(&mut self) -> (len: Option<usize>)
        default_ensures
            exists|text: Option<Seq<char>>, adjusted: Option<Range<usize>>|
                Self::reads(
                    *old(self),
                    (Range { start: usize::MAX, end: usize::MAX }),
                    None,
                    text,
                    adjusted,
                    *final(self),
                ) && match len {
                    Some(units) => #[trigger] document_len(text, adjusted) == Some(units as nat),
                    None => document_len(text, adjusted) is None,
                },
    {
        let mut adjusted_range: Option<Range<usize>> = None;
        let read: Option<String> = self.text_for_range(
            usize::MAX..usize::MAX,
            &mut adjusted_range,
        );
        let ghost given = characters(read);
        let ghost adjusted = adjusted_range;
        let len: Option<usize> = match read {
            Some(text) => match adjusted_range {
                Some(range) => Some(range.end),
                None => Some(utf16::utf16_len(text.as_str())),
            },
            None => None,
        };
        assert(match len {
            Some(units) => document_len(given, adjusted) == Some(units as nat),
            None => document_len(given, adjusted) is None,
        });
        len
    }

    fn selected_text_range(&mut self, ignore_disabled_input: bool) -> (selection: Option<
        UTF16Selection,
    >)
        ensures
            Self::selection_is(*old(self), ignore_disabled_input, selection, *final(self)),
    ;

    fn set_selected_text_range(&mut self, _range: Range<usize>)
        default_ensures
            *final(self) == *old(self),
    {
    }

    fn marked_text_range(&self) -> (range: Option<Range<usize>>)
        ensures
            self.mark_is(range),
    ;

    fn unmark_text(&mut self)
        ensures
            Self::unmarks(*old(self), *final(self)),
    ;

    fn replace_text_in_range(&mut self, range: Option<Range<usize>>, text: &str)
        ensures
            Self::replaces(*old(self), range, text@, *final(self)),
    ;

    fn replace_and_mark_text_in_range(
        &mut self,
        range: Option<Range<usize>>,
        new_text: &str,
        new_selected_range: Option<Range<usize>>,
    )
        ensures
            Self::replaces_and_marks(*old(self), range, new_text@, new_selected_range, *final(self)),
    ;

    fn should_change_text_in_range(
        &mut self,
        _replacement_range: Option<Range<usize>>,
        _text: &str,
    ) -> (should: bool)
        default_ensures
            should,
            *final(self) == *old(self),
    {
        true
    }

    fn insert_text(&mut self, text: &str)
        default_ensures
            Self::replaces(*old(self), None, text@, *final(self)),
    {
        self.replace_text_in_range(None, text);
    }

    fn replace_range(&mut self, replacement_range: Range<usize>, text: &str)
        default_ensures
            Self::replaces(*old(self), Some(replacement_range), text@, *final(self)),
    {
        self.replace_text_in_range(Some(replacement_range), text);
    }

    fn insert_dictation_result_placeholder(&mut self)
        default_ensures
            *final(self) == *old(self),
    {
    }

    fn remove_dictation_result_placeholder(&mut self, _will_insert_result: bool)
        default_ensures
            *final(self) == *old(self),
    {
    }

    fn insert_dictation_result(&mut self, text: &str)
        default_ensures
            Self::replaces(*old(self), None, text@, *final(self)),
    {
        self.replace_text_in_range(None, text);
    }

    fn dictation_recording_did_end(&mut self)
        default_ensures
            *final(self) == *old(self),
    {
    }

    fn dictation_recognition_failed(&mut self)
        default_ensures
            *final(self) == *old(self),
    {
    }

    fn bounds_for_range(&mut self, range_utf16: Range<usize>, element_bounds: Bounds) -> (bounds:
        Option<Bounds>)
        ensures
            Self::bounds_are(*old(self), range_utf16, element_bounds, bounds, *final(self)),
    ;

    fn character_index_for_point(&mut self, point: Point) -> (index: Option<usize>)
        ensures
            Self::index_is(*old(self), point, index, *final(self)),
    ;

    fn accepts_text_input(&self) -> (accepts: bool)
        default_ensures
            accepts,
    {
        true
    }

    /// The traits of the keyboard; by default those that hold where nobody says otherwise.
    fn text_input_traits(&self, default_traits: PlatformTextInputTraits) -> (traits:
        PlatformTextInputTraits)
        default_ensures
            traits == default_traits,
    {
        default_traits
    }

    fn keyboard_accessory(&self) -> (shows: bool)
        default_ensures
            !shows,
    {
        false
    }

    fn handle_keyboard_accessory_action(&mut self, _action: &str) -> (handled: bool)
        default_ensures
            !handled,
            *final(self) == *old(self),
    {
        false
    }
}

/// Stands for a view at a place on screen. What it is asked it asks the view, so that each method gives
/// back what the view's own method gave, and leaves the view as that method left it.
pub struct ElementInputHandler<V> {
    pub view: V,
    pub element_bounds: Bounds,
}

impl<V> ElementInputHandler<V> {
    pub fn new(element_bounds: Bounds, view: V) -> (handler: Self)
        ensures
            handler == (ElementInputHandler { view, element_bounds }),
    {
        ElementInputHandler { view, element_bounds }
    }
}

impl<V: EntityInputHandler> ElementInputHandler<V> {
    /// Asks the view for its selection.
    pub fn selected_text_range(
        &mut self,
        ignore_disabled_input: bool,
    ) -> (selection: Option<UTF16Selection>)
        ensures
            V::selection_is(old(self).view, ignore_disabled_input, selection, final(self).view),
            exists|view: &mut V|
                *view == old(self).view && *final(view) == final(self).view
                    && #[trigger] call_ensures(V::selected_text_range, (view, ignore_disabled_input), selection),
            final(self).element_bounds == old(self).element_bounds,
    {
        self.view.selected_text_range(ignore_disabled_input)
    }

    /// Asks the view for the range that is being composed.
    pub fn marked_text_range(&self) -> (range: Option<Range<usize>>)
        ensures
            self.view.mark_is(range),
            call_ensures(V::marked_text_range, (&self.view,), range),
    {
        self.view.marked_text_range()
    }

    /// Asks the view for its text.
    pub fn text_for_range(
        &mut self,
        range: Range<usize>,
        adjusted_range: &mut Option<Range<usize>>,
    ) -> (text: Option<String>)
        ensures
            V::reads(
                old(self).view,
                range,
                *old(adjusted_range),
                characters(text),
                *final(adjusted_range),
                final(self).view,
            ),
            exists|view: &mut V, adjusted: &mut Option<Range<usize>>|
                *view == old(self).view && *final(view) == final(self).view && *adjusted == *old(
                    adjusted_range) && *final(adjusted) == *final(adjusted_range)
                    && #[trigger] call_ensures(V::text_for_range, (view, range, adjusted), text),
            final(self).element_bounds == old(self).element_bounds,
    {
        self.view.text_for_range(range, adjusted_range)
    }

    /// Replaces text of the view.
    pub fn replace_text_in_range(&mut self, range: Option<Range<usize>>, text: &str)
        ensures
            V::replaces(old(self).view, range, text@, final(self).view),
            exists|view: &mut V|
                *view == old(self).view && *final(view) == final(self).view
                    && #[trigger] call_ensures(V::replace_text_in_range, (view, range, text), ()),
            final(self).element_bounds == old(self).element_bounds,
    {
        self.view.replace_text_in_range(range, text);
    }

    /// Replaces text of the view by text that is being composed.
    pub fn replace_and_mark_text_in_range(
        &mut self,
        range: Option<Range<usize>>,
        new_text: &str,
        new_selected_range: Option<Range<usize>>,
    )
        ensures
            V::replaces_and_marks(
                old(self).view,
                range,
                new_text@,
                new_selected_range,
                final(self).view,
            ),
            exists|view: &mut V|
                *view == old(self).view && *final(view) == final(self).view
                    && #[trigger] call_ensures(
                    V::replace_and_mark_text_in_range,
                    (view, range, new_text, new_selected_range),
                    (),
                ),
            final(self).element_bounds == old(self).element_bounds,
    {
        self.view.replace_and_mark_text_in_range(range, new_text, new_selected_range);
    }

    /// Ends composing.
    pub fn unmark_text(&mut self)
        ensures
            V::unmarks(old(self).view, final(self).view),
            exists|view: &mut V|
                *view == old(self).view && *final(view) == final(self).view
                    && #[trigger] call_ensures(V::unmark_text, (view,), ()),
            final(self).element_bounds == old(self).element_bounds,
    {
        self.view.unmark_text();
    }

    /// Asks the view where a range of its text lies, given the place on screen that it has here.
    pub fn bounds_for_range(&mut self, range_utf16: Range<usize>) -> (bounds: Option<Bounds>)
        ensures
            V::bounds_are(
                old(self).view,
                range_utf16,
                old(self).element_bounds,
                bounds,
                final(self).view,
            ),
            exists|view: &mut V|
                *view == old(self).view && *final(view) == final(self).view
                    && #[trigger] call_ensures(
                    V::bounds_for_range,
                    (view, range_utf16, old(self).element_bounds),
                    bounds,
                ),
            final(self).element_bounds == old(self).element_bounds,
    {
        self.view.bounds_for_range(range_utf16, self.element_bounds)
    }

    /// Asks the view which character a point lies on.
    pub fn character_index_for_point(&mut self, point: Point) -> (index: Option<usize>)
        ensures
            V::index_is(old(self).view, point, index, final(self).view),
            exists|view: &mut V|
                *view == old(self).view && *final(view) == final(self).view
                    && #[trigger] call_ensures(V::character_index_for_point, (view, point), index),
            final(self).element_bounds == old(self).element_bounds,
    {
        self.view.character_index_for_point(point)
    }

    /// Asks the view for the length of its document.
    pub fn text_len_utf16(&mut self) -> (len: Option<usize>)
        ensures
            exists|view: &mut V|
                *view == old(self).view && *final(view) == final(self).view
                    && #[trigger] call_ensures(V::text_len_utf16, (view,), len),
            final(self).element_bounds == old(self).element_bounds,
    {
        self.view.text_len_utf16()
    }

    /// Selects a range of the view.
    pub fn set_selected_text_range(&mut self, range: Range<usize>)
        ensures
            exists|view: &mut V|
                *view == old(self).view && *final(view) == final(self).view
                    && #[trigger] call_ensures(V::set_selected_text_range, (view, range), ()),
            final(self).element_bounds == old(self).element_bounds,
    {
        self.view.set_selected_text_range(range);
    }

    /// Asks the view whether its text may be changed.
    pub fn should_change_text_in_range(
        &mut self,
        replacement_range: Option<Range<usize>>,
        text: &str,
    ) -> (should: bool)
        ensures
            exists|view: &mut V|
                *view == old(self).view && *final(view) == final(self).view
                    && #[trigger] call_ensures(V::should_change_text_in_range, (view, replacement_range, text), should),
            final(self).element_bounds == old(self).element_bounds,
    {
        self.view.should_change_text_in_range(replacement_range, text)
    }

    /// Inserts a text into the view.
    pub fn insert_text(&mut self, text: &str)
        ensures
            exists|view: &mut V|
                *view == old(self).view && *final(view) == final(self).view
                    && #[trigger] call_ensures(V::insert_text, (view, text), ()),
            final(self).element_bounds == old(self).element_bounds,
    {
        self.view.insert_text(text);
    }

    /// Replaces a range of the view.
    pub fn replace_range(&mut self, replacement_range: Range<usize>, text: &str)
        ensures
            exists|view: &mut V|
                *view == old(self).view && *final(view) == final(self).view
                    && #[trigger] call_ensures(V::replace_range, (view, replacement_range, text), ()),
            final(self).element_bounds == old(self).element_bounds,
    {
        self.view.replace_range(replacement_range, text);
    }

    /// Has the view make room for what is being dictated.
    pub fn insert_dictation_result_placeholder(&mut self)
        ensures
            exists|view: &mut V|
                *view == old(self).view && *final(view) == final(self).view
                    && #[trigger] call_ensures(V::insert_dictation_result_placeholder, (view,), ()),
            final(self).element_bounds == old(self).element_bounds,
    {
        self.view.insert_dictation_result_placeholder();
    }

    /// Has the view take back the room for what is being dictated.
    pub fn remove_dictation_result_placeholder(&mut self, will_insert_result: bool)
        ensures
            exists|view: &mut V|
                *view == old(self).view && *final(view) == final(self).view
                    && #[trigger] call_ensures(V::remove_dictation_result_placeholder, (view, will_insert_result), ()),
            final(self).element_bounds == old(self).element_bounds,
    {
        self.view.remove_dictation_result_placeholder(will_insert_result);
    }

    /// Inserts what was dictated into the view.
    pub fn insert_dictation_result(&mut self, text: &str)
        ensures
            exists|view: &mut V|
                *view == old(self).view && *final(view) == final(self).view
                    && #[trigger] call_ensures(V::insert_dictation_result, (view, text), ()),
            final(self).element_bounds == old(self).element_bounds,
    {
        self.view.insert_dictation_result(text);
    }

    /// Tells the view that a recording has ended.
    pub fn dictation_recording_did_end(&mut self)
        ensures
            exists|view: &mut V|
                *view == old(self).view && *final(view) == final(self).view
                    && #[trigger] call_ensures(V::dictation_recording_did_end, (view,), ()),
            final(self).element_bounds == old(self).element_bounds,
    {
        self.view.dictation_recording_did_end();
    }

    /// Tells the view that a recording was not understood.
    pub fn dictation_recognition_failed(&mut self)
        ensures
            exists|view: &mut V|
                *view == old(self).view && *final(view) == final(self).view
                    && #[trigger] call_ensures(V::dictation_recognition_failed, (view,), ()),
            final(self).element_bounds == old(self).element_bounds,
    {
        self.view.dictation_recognition_failed();
    }

    /// Asks the view whether it takes text.
    pub fn accepts_text_input(&self) -> (accepts: bool)
        ensures
            call_ensures(V::accepts_text_input, (&self.view,), accepts),
    {
        self.view.accepts_text_input()
    }

    /// Asks the view for the traits of its keyboard.
    pub fn text_input_traits(
        &self,
        default_traits: PlatformTextInputTraits,
    ) -> (traits: PlatformTextInputTraits)
        ensures
            call_ensures(V::text_input_traits, (&self.view, default_traits), traits),
    {
        self.view.text_input_traits(default_traits)
    }

    /// Asks the view whether its keyboard has an accessory.
    pub fn keyboard_accessory(&self) -> (shows: bool)
        ensures
            call_ensures(V::keyboard_accessory, (&self.view,), shows),
    {
        self.view.keyboard_accessory()
    }

    /// Hands an action of the accessory to the view.
    pub fn handle_keyboard_accessory_action(&mut self, action: &str) -> (handled: bool)
        ensures
            exists|view: &mut V|
                *view == old(self).view && *final(view) == final(self).view
                    && #[trigger] call_ensures(V::handle_keyboard_accessory_action, (view, action), handled),
            final(self).element_bounds == old(self).element_bounds,
    {
        self.view.handle_keyboard_accessory_action(action)
    }

    /// Whether printable keys go to the input method first: where the view takes text.
    pub fn prefers_ime_for_printable_keys(&self) -> (prefers: bool)
        ensures
            call_ensures(V::accepts_text_input, (&self.view,), prefers),
    {
        self.view.accepts_text_input()
    }
}

/// A document ends where the reader was put, and where it was put nowhere it is as long as what was
/// read. Without a text its length is not known.
pub proof fn documents_end_where_the_reader_was_put(text: Seq<char>, adjusted: Range<usize>)
    ensures
        document_len(Some(text), Some(adjusted)) == Some(adjusted.end as nat),
        document_len(Some(text), None) == Some(utf16::utf16_units(text)),
        document_len(None, Some(adjusted)) is None,
        document_len(None, None) is None,
{
}

/// The characters of a text are those that it holds, and a missing text has none.
pub proof fn texts_show_their_characters(text: String)
    ensures
        characters(Some(text)) == Some(text@),
        characters(None) is None,
{
}

} // verus!
