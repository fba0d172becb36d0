//! The text-input session of an iOS window: installed handlers, the keyboard request, the
//! interaction that UIKit runs, and the selection that was last painted.
use crate::geometry::Bounds;
use crate::ios_policy;
use crate::ios_policy::{
    active_text_interaction_mode_for_state, handles_native_touch_selection,
    should_clear_keyboard_request_when_clearing_input_handler, should_use_keyboard_accessory,
    text_input_refresh_plan, PlatformTextInputTraits, SelectionGeometry, TextInputRefreshPlan,
    TextInputResponderAction, TEXT_INTERACTION_EDITABLE, TEXT_INTERACTION_NONE,
    TEXT_INTERACTION_NONEDITABLE,
};
use std::ops::Range;
use vstd::prelude::*;

verus! {

/// What an input handler says about itself.
#[derive(Clone, Copy, Debug, PartialEq, Eq, Structural)]
pub struct InputHandlerTraits {
    pub accepts_text_input: bool,
    pub uses_manual_focus: bool,
    pub native_selection_enabled: bool,
    pub keyboard_accessory_enabled: bool,
    pub text_input_traits: PlatformTextInputTraits,
}

/// Which handlers are installed and what the session has asked for.
#[derive(Clone, Copy, Debug, PartialEq, Eq, Structural)]
pub struct TextInputSession {
    /// The handler is installed for the current frame phase.
    pub has_input_handler: bool,
    /// The handler answers callbacks between frame phases.
    pub has_callback_input_handler: bool,
    pub has_selection_handler: bool,
    pub has_callback_selection_handler: bool,
    pub input: InputHandlerTraits,
    pub keyboard_session_requested: bool,
    pub target_interaction_mode: i8,
    pub active_interaction_mode: i8,
}

/// What a change of the session asks of UIKit.
#[derive(Clone, Copy, Debug, PartialEq, Eq, Structural)]
pub struct SessionChange {
    /// The views above and in place of the keyboard are asked for again.
    pub reload_input_views: bool,
    pub responder_action: TextInputResponderAction,
}

/// How the installed interaction changes.
#[derive(Clone, Copy, Debug, PartialEq, Eq, Structural)]
pub struct InteractionSwap {
    pub removed: i8,
    pub added: i8,
}

/// What a handler that takes nothing says about itself.
pub open spec fn no_input(default_traits: PlatformTextInputTraits) -> InputHandlerTraits {
    InputHandlerTraits {
        accepts_text_input: false,
        uses_manual_focus: false,
        native_selection_enabled: false,
        keyboard_accessory_enabled: false,
        text_input_traits: default_traits,
    }
}

impl TextInputSession {
    /// Starts without handlers.
    pub fn new(default_traits: PlatformTextInputTraits) -> (session: Self)
        ensures
            session == (TextInputSession {
                has_input_handler: false,
                has_callback_input_handler: false,
                has_selection_handler: false,
                has_callback_selection_handler: false,
                input: no_input(default_traits),
                keyboard_session_requested: false,
                target_interaction_mode: TEXT_INTERACTION_NONE,
                active_interaction_mode: TEXT_INTERACTION_NONE,
            }),
    {
        TextInputSession {
            has_input_handler: false,
            has_callback_input_handler: false,
            has_selection_handler: false,
            has_callback_selection_handler: false,
            input: InputHandlerTraits {
                accepts_text_input: false,
                uses_manual_focus: false,
                native_selection_enabled: false,
                keyboard_accessory_enabled: false,
                text_input_traits: default_traits,
            },
            keyboard_session_requested: false,
            target_interaction_mode: TEXT_INTERACTION_NONE,
            active_interaction_mode: TEXT_INTERACTION_NONE,
        }
    }

    /// The plan for a refresh of this session.
    pub open spec fn plan(self, software_keyboard_visible: bool) -> TextInputRefreshPlan {
        ios_policy::refresh_plan(
            self.has_input_handler,
            self.has_selection_handler,
            self.input.accepts_text_input,
            self.input.native_selection_enabled,
            self.keyboard_session_requested,
            software_keyboard_visible,
        )
    }

    /// The session after its plan is adopted.
    pub open spec fn refreshed(self, software_keyboard_visible: bool) -> Self {
        TextInputSession {
            keyboard_session_requested: self.plan(
                software_keyboard_visible,
            ).keyboard_session_requested,
            target_interaction_mode: self.plan(software_keyboard_visible).target_interaction_mode,
            ..self
        }
    }

    /// Adopts the refresh plan and tells what the first responder does. The interaction is brought
    /// in line afterwards, when the responder state is known.
    pub fn refresh_text_input_state(&mut self, software_keyboard_visible: bool) -> (action:
        TextInputResponderAction)
        ensures
            *final(self) == old(self).refreshed(software_keyboard_visible),
            action == old(self).plan(software_keyboard_visible).responder_action,
    {
        let plan = text_input_refresh_plan(
            self.has_input_handler,
            self.has_selection_handler,
            self.input.accepts_text_input,
            self.input.native_selection_enabled,
            self.input.uses_manual_focus,
            self.keyboard_session_requested,
            software_keyboard_visible,
        );
        self.keyboard_session_requested = plan.keyboard_session_requested;
        self.target_interaction_mode = plan.target_interaction_mode;
        plan.responder_action
    }

    /// The mode that the current responder state calls for.
    pub open spec fn wanted_mode(self, is_first_responder: bool) -> i8 {
        ios_policy::active_mode(
            self.target_interaction_mode,
            self.has_selection_handler,
            self.input.native_selection_enabled,
            is_first_responder,
        )
    }

    /// Brings the installed interaction in line with the responder state.
    pub fn sync_text_interaction(&mut self, is_first_responder: bool) -> (swap: Option<
        InteractionSwap,
    >)
        ensures
            *final(self) == (TextInputSession {
                active_interaction_mode: old(self).wanted_mode(is_first_responder),
                ..*old(self)
            }),
            swap == if old(self).wanted_mode(is_first_responder)
                == old(self).active_interaction_mode {
                None
            } else {
                Some(
                    InteractionSwap {
                        removed: old(self).active_interaction_mode,
                        added: old(self).wanted_mode(is_first_responder),
                    },
                )
            },
    {
        let mode: i8 = active_text_interaction_mode_for_state(
            self.target_interaction_mode,
            self.has_selection_handler,
            self.input.native_selection_enabled,
            is_first_responder,
        );
        let previous_mode: i8 = self.active_interaction_mode;
        if previous_mode == mode {
            return None;
        }
        self.active_interaction_mode = mode;
        Some(InteractionSwap { removed: previous_mode, added: mode })
    }

    /// Installs an input handler. The keyboard is requested along with it where the handler asks
    /// for that by itself.
    pub fn set_input_handler(
        &mut self,
        input: InputHandlerTraits,
        should_auto_request_keyboard: bool,
        software_keyboard_visible: bool,
    ) -> (change: SessionChange)
        ensures
            ({
                let installed = TextInputSession {
                    has_input_handler: true,
                    has_callback_input_handler: true,
                    input,
                    keyboard_session_requested: old(self).keyboard_session_requested
                        || should_auto_request_keyboard,
                    ..*old(self)
                };
                &&& *final(self) == installed.refreshed(software_keyboard_visible)
                &&& change.responder_action == installed.plan(
                    software_keyboard_visible,
                ).responder_action
                &&& change.reload_input_views <==> old(self).input.text_input_traits
                    != input.text_input_traits || old(self).input.keyboard_accessory_enabled
                    != input.keyboard_accessory_enabled
            }),
    {
        let previous: InputHandlerTraits = self.input;
        self.has_callback_input_handler = true;
        self.has_input_handler = true;
        self.input = input;
        let reload_input_views: bool = previous.text_input_traits != input.text_input_traits
            || previous.keyboard_accessory_enabled != input.keyboard_accessory_enabled;
        if should_auto_request_keyboard {
            self.keyboard_session_requested = true;
        }
        let responder_action = self.refresh_text_input_state(software_keyboard_visible);
        SessionChange { reload_input_views, responder_action }
    }

    /// Takes the input handler out for a frame phase; it still answers callbacks.
    pub fn take_input_handler(&mut self) -> (had: bool)
        ensures
            had == old(self).has_input_handler,
            *final(self) == (TextInputSession { has_input_handler: false, ..*old(self) }),
    {
        let had: bool = self.has_input_handler;
        self.has_input_handler = false;
        had
    }

    /// Removes the input handler, and with it the keyboard request that was made for it.
    pub fn clear_input_handler(
        &mut self,
        default_traits: PlatformTextInputTraits,
        software_keyboard_visible: bool,
    ) -> (change: SessionChange)
        ensures
            ({
                let had_handler = old(self).has_input_handler
                    || old(self).has_callback_input_handler;
                let removed = TextInputSession {
                    has_input_handler: false,
                    has_callback_input_handler: false,
                    input: no_input(default_traits),
                    keyboard_session_requested: old(self).keyboard_session_requested
                        && !had_handler,
                    ..*old(self)
                };
                &&& *final(self) == removed.refreshed(software_keyboard_visible)
                &&& change.responder_action == removed.plan(
                    software_keyboard_visible,
                ).responder_action
                &&& change.reload_input_views <==> old(self).input.text_input_traits
                    != default_traits || old(self).input.keyboard_accessory_enabled
            }),
    {
        let had_input_handler: bool = self.has_input_handler;
        let had_callback_input_handler: bool = self.has_callback_input_handler;
        let previous: InputHandlerTraits = self.input;
        self.has_input_handler = false;
        self.has_callback_input_handler = false;
        self.input = InputHandlerTraits {
            accepts_text_input: false,
            uses_manual_focus: false,
            native_selection_enabled: false,
            keyboard_accessory_enabled: false,
            text_input_traits: default_traits,
        };
        let reload_input_views: bool = previous.text_input_traits != default_traits
            || previous.keyboard_accessory_enabled;
        if should_clear_keyboard_request_when_clearing_input_handler(
            had_input_handler,
            had_callback_input_handler,
        ) {
            self.keyboard_session_requested = false;
        }
        let responder_action = self.refresh_text_input_state(software_keyboard_visible);
        SessionChange { reload_input_views, responder_action }
    }

    /// Takes the selection handler out for a frame phase; it still answers callbacks.
    pub fn take_selection_handler(&mut self) -> (had: bool)
        ensures
            had == old(self).has_selection_handler,
            *final(self) == (TextInputSession { has_selection_handler: false, ..*old(self) }),
    {
        let had: bool = self.has_selection_handler;
        self.has_selection_handler = false;
        had
    }

    /// Installs or removes the selection handler.
    pub fn set_selection_handler(
        &mut self,
        installed: bool,
        software_keyboard_visible: bool,
    ) -> (action: TextInputResponderAction)
        ensures
            ({
                let changed = TextInputSession {
                    has_selection_handler: installed,
                    has_callback_selection_handler: installed,
                    ..*old(self)
                };
                &&& *final(self) == changed.refreshed(software_keyboard_visible)
                &&& action == changed.plan(software_keyboard_visible).responder_action
            }),
    {
        self.has_callback_selection_handler = installed;
        self.has_selection_handler = installed;
        self.refresh_text_input_state(software_keyboard_visible)
    }

    /// Requests a keyboard session.
    pub fn show_soft_keyboard(&mut self, software_keyboard_visible: bool) -> (change: SessionChange)
        ensures
            ({
                let requested = TextInputSession {
                    keyboard_session_requested: true,
                    ..*old(self)
                };
                &&& *final(self) == requested.refreshed(software_keyboard_visible)
                &&& change.reload_input_views
                &&& change.responder_action == requested.plan(
                    software_keyboard_visible,
                ).responder_action
            }),
    {
        self.keyboard_session_requested = true;
        let responder_action = self.refresh_text_input_state(software_keyboard_visible);
        SessionChange { reload_input_views: true, responder_action }
    }

    /// Ends the keyboard session; the first responder is resigned.
    pub fn hide_soft_keyboard(&mut self)
        ensures
            *final(self) == (TextInputSession { keyboard_session_requested: false, ..*old(self) }),
    {
        self.keyboard_session_requested = false;
    }

    /// Tests whether the accessory bar is attached.
    pub fn has_active_keyboard_accessory(&self) -> (active: bool)
        ensures
            active <==> self.input.keyboard_accessory_enabled
                && ios_policy::uses_system_keyboard(
                self.has_input_handler,
                self.has_callback_input_handler,
                self.input.accepts_text_input,
                self.keyboard_session_requested,
            ),
    {
        should_use_keyboard_accessory(
            self.has_input_handler,
            self.has_callback_input_handler,
            self.input.accepts_text_input,
            self.keyboard_session_requested,
            self.input.keyboard_accessory_enabled,
        )
    }

    /// Decides whether an action of the accessory bar goes to the handler.
    pub fn handle_keyboard_accessory_action(&self) -> (asks_handler: bool)
        ensures
            asks_handler <==> self.input.keyboard_accessory_enabled
                && ios_policy::uses_system_keyboard(
                self.has_input_handler,
                self.has_callback_input_handler,
                self.input.accepts_text_input,
                self.keyboard_session_requested,
            ),
    {
        self.has_active_keyboard_accessory()
    }

    /// Decides whether an action of a key bar outside the keyboard goes to the handler: no keyboard
    /// session is needed for it.
    pub fn handle_key_bar_action(&self) -> (asks_handler: bool)
        ensures
            asks_handler <==> (self.has_input_handler || self.has_callback_input_handler)
                && self.input.accepts_text_input && self.input.keyboard_accessory_enabled,
    {
        self.handle_key_bar_text() && self.input.keyboard_accessory_enabled
    }

    /// Decides whether text of a key bar outside the keyboard goes to the handler.
    pub fn handle_key_bar_text(&self) -> (asks_handler: bool)
        ensures
            asks_handler <==> (self.has_input_handler || self.has_callback_input_handler)
                && self.input.accepts_text_input,
    {
        (self.has_input_handler || self.has_callback_input_handler) && self.input.accepts_text_input
    }

    /// Tests whether native selection is in charge of touches on text.
    pub fn handles_native_touch_selection(&self) -> (handles: bool)
        ensures
            handles == ios_policy::native_touch_selection(
                self.active_interaction_mode,
                self.input.native_selection_enabled,
            ),
    {
        handles_native_touch_selection(
            self.active_interaction_mode,
            self.input.native_selection_enabled,
        )
    }
}

/// The selection that was last painted, which later touches on its handles are held against.
#[derive(Debug, PartialEq, Eq)]
pub struct SelectionCache {
    pub geometry: Option<SelectionGeometry>,
}

/// Whether two descriptions of a painted selection agree, number by number.
pub open spec fn same_geometry(a: SelectionGeometry, b: SelectionGeometry) -> bool {
    &&& a.range == b.range
    &&& match (a.bounds, b.bounds) {
        (Some(x), Some(y)) => x.equals(y),
        (None, None) => true,
        _ => false,
    }
    &&& a.rects@.len() == b.rects@.len()
    &&& forall|i: int| 0 <= i < a.rects@.len() ==> (#[trigger] a.rects@[i]).equals(b.rects@[i])
}

/// Whether a description agrees with the one that is remembered.
pub open spec fn is_remembered(remembered: Option<SelectionGeometry>, new: SelectionGeometry) -> bool {
    remembered is Some && same_geometry(remembered->0, new)
}

/// Compares two descriptions of a painted selection.
fn is_same_geometry(a: &SelectionGeometry, b: &SelectionGeometry) -> (same: bool)
    ensures
        same == same_geometry(*a, *b),
{
    if a.range.start != b.range.start || a.range.end != b.range.end {
        return false;
    }
    let same_bounds: bool = match (a.bounds, b.bounds) {
        (Some(x), Some(y)) => x.is_equal(&y),
        (None, None) => true,
        _ => false,
    };
    if !same_bounds || a.rects.len() != b.rects.len() {
        return false;
    }
    let mut i: usize = 0;
    while i < a.rects.len()
        invariant
            a.rects@.len() == b.rects@.len(),
            i <= a.rects@.len(),
            forall|j: int| 0 <= j < i ==> (#[trigger] a.rects@[j]).equals(b.rects@[j]),
        decreases a.rects@.len() - i,
    {
        let x: Bounds = a.rects[i];
        let y: Bounds = b.rects[i];
        if !x.is_equal(&y) {
            assert(!a.rects@[i as int].equals(b.rects@[i as int]));
            return false;
        }
        i = i + 1;
    }
    true
}

impl SelectionCache {
    /// Whether a selection that covers something is remembered.
    pub open spec fn well_formed(self) -> bool {
        self.geometry matches Some(geometry) ==> geometry.range.start < geometry.range.end
    }

    /// Forgets the selection when the interaction that painted it goes away.
    pub fn interaction_removed(&mut self, removed: i8)
        requires
            old(self).well_formed(),
        ensures
            final(self).well_formed(),
            removed == TEXT_INTERACTION_EDITABLE || removed == TEXT_INTERACTION_NONEDITABLE
                ==> final(self).geometry is None,
            !(removed == TEXT_INTERACTION_EDITABLE || removed == TEXT_INTERACTION_NONEDITABLE)
                ==> *final(self) == *old(self),
    {
        if removed == TEXT_INTERACTION_NONEDITABLE || removed == TEXT_INTERACTION_EDITABLE {
            self.geometry = None;
        }
    }

    /// Remembers a selected range whose rectangles are not known yet. A range that is already
    /// remembered keeps its rectangles, and an empty range forgets the selection.
    pub fn cache_active_selection_range(&mut self, range: Range<usize>)
        requires
            old(self).well_formed(),
        ensures
            final(self).well_formed(),
            if range.start >= range.end {
                final(self).geometry is None
            } else if old(self).geometry is Some && old(self).geometry->0.range == range {
                *final(self) == *old(self)
            } else {
                &&& final(self).geometry is Some
                &&& final(self).geometry->0.range == range
                &&& final(self).geometry->0.bounds is None
                &&& final(self).geometry->0.rects@.len() == 0
            },
    {
        if range.start >= range.end {
            self.geometry = None;
            return;
        }
        if let Some(geometry) = &self.geometry {
            if geometry.range.start == range.start && geometry.range.end == range.end {
                return;
            }
        }
        self.geometry = Some(SelectionGeometry { range, bounds: None, rects: Vec::new() });
    }

    /// Remembers where a selection was painted; one that covers nothing is forgotten.
    pub fn cache_active_selection_geometry(&mut self, geometry: SelectionGeometry)
        requires
            old(self).well_formed(),
        ensures
            final(self).well_formed(),
            if geometry.range.start >= geometry.range.end {
                final(self).geometry is None
            } else if is_remembered(old(self).geometry, geometry) {
                *final(self) == *old(self)
            } else {
                final(self).geometry == Some(geometry)
            },
    {
        if geometry.range.start >= geometry.range.end {
            self.geometry = None;
            return;
        }
        if let Some(current) = &self.geometry {
            if is_same_geometry(current, &geometry) {
                return;
            }
        }
        self.geometry = Some(geometry);
    }

    /// Brings the remembered selection up to date, and tells whether UIKit must be notified.
    ///
    /// Without native selection nothing is remembered. Otherwise the handler's selection decides:
    /// unknown leaves the memory alone, an empty one clears it, and a changed one replaces it.
    pub fn refresh_selection_geometry(
        &mut self,
        native_touch_selection: bool,
        selection: Option<SelectionGeometry>,
    ) -> (notify: bool)
        requires
            old(self).well_formed(),
        ensures
            final(self).well_formed(),
            if !native_touch_selection {
                &&& final(self).geometry is None
                &&& notify <==> old(self).geometry is Some
            } else if selection is None {
                *final(self) == *old(self) && !notify
            } else if selection->0.range.start >= selection->0.range.end {
                final(self).geometry is None && !notify
            } else if is_remembered(old(self).geometry, selection->0) {
                *final(self) == *old(self) && !notify
            } else {
                final(self).geometry == selection && notify
            },
    {
        if !native_touch_selection {
            let cleared: bool = self.geometry.is_some();
            self.geometry = None;
            return cleared;
        }
        let geometry: SelectionGeometry = match selection {
            Some(geometry) => geometry,
            None => {
                return false;
            },
        };
        if geometry.range.start >= geometry.range.end {
            self.geometry = None;
            return false;
        }
        if let Some(current) = &self.geometry {
            if is_same_geometry(current, &geometry) {
                return false;
            }
        }
        self.geometry = Some(geometry);
        true
    }

    /// Forgets the selection, and tells whether UIKit must be notified of the change.
    pub fn clear_active_text_selection(&mut self, clear_handler: bool) -> (notify: bool)
        ensures
            final(self).geometry is None,
            notify <==> old(self).geometry is Some || clear_handler,
    {
        let had_geometry: bool = self.geometry.is_some();
        self.geometry = None;
        had_geometry || clear_handler
    }
}

/// Removing an input handler ends the keyboard session that was requested for it, and the keyboard
/// is not shown.
pub proof fn clearing_ends_the_keyboard_session(
    session: TextInputSession,
    default_traits: PlatformTextInputTraits,
    visible: bool,
)
    requires
        session.has_input_handler || session.has_callback_input_handler,
    ensures
        ({
            let removed = TextInputSession {
                has_input_handler: false,
                has_callback_input_handler: false,
                input: no_input(default_traits),
                keyboard_session_requested: false,
                ..session
            };
            &&& !removed.refreshed(visible).keyboard_session_requested
            &&& removed.plan(visible).responder_action !is ShowKeyboard
            &&& removed.refreshed(visible).target_interaction_mode != TEXT_INTERACTION_EDITABLE
        }),
{
}

/// A keyboard request made before any input handler is installed waits for it, and is honoured as
/// soon as one that takes text arrives.
pub proof fn early_keyboard_request_is_honoured(
    session: TextInputSession,
    input: InputHandlerTraits,
)
    requires
        !session.has_input_handler,
        session.keyboard_session_requested,
        input.accepts_text_input,
    ensures
        session.refreshed(false).keyboard_session_requested,
        (TextInputSession {
            has_input_handler: true,
            has_callback_input_handler: true,
            input,
            ..session.refreshed(false)
        }).plan(false).responder_action is ShowKeyboard,
{
}

/// Bringing the interaction in line twice changes it once.
pub proof fn interaction_sync_settles(session: TextInputSession, is_first_responder: bool)
    ensures
        ({
            let synced = TextInputSession {
                active_interaction_mode: session.wanted_mode(is_first_responder),
                ..session
            };
            synced.wanted_mode(is_first_responder) == synced.active_interaction_mode
        }),
{
}

/// A session without a handler takes no text, selects nothing and has no accessory bar.
pub proof fn without_a_handler_nothing_is_taken(traits: PlatformTextInputTraits)
    ensures
        !no_input(traits).accepts_text_input,
        !no_input(traits).uses_manual_focus,
        !no_input(traits).native_selection_enabled,
        !no_input(traits).keyboard_accessory_enabled,
        no_input(traits).text_input_traits == traits,
{
}

/// A refresh changes the keyboard request and the mode asked for, and nothing else. The mode follows
/// from the handlers that are installed for the frame, and the request lives on where an input takes
/// text or is still waited for.
pub proof fn refreshes_follow_the_installed_handlers(session: TextInputSession, visible: bool)
    ensures
        ({
            let after = session.refreshed(visible);
            let editable = session.has_input_handler && session.input.accepts_text_input;
            &&& after.has_input_handler == session.has_input_handler
            &&& after.has_callback_input_handler == session.has_callback_input_handler
            &&& after.has_selection_handler == session.has_selection_handler
            &&& after.has_callback_selection_handler == session.has_callback_selection_handler
            &&& after.input == session.input
            &&& after.active_interaction_mode == session.active_interaction_mode
            &&& after.target_interaction_mode == 1 <==> editable
            &&& after.target_interaction_mode == 0 <==> !editable && session.has_selection_handler
            &&& after.target_interaction_mode == -1 <==> !editable
                && !session.has_selection_handler
            &&& after.keyboard_session_requested <==> session.keyboard_session_requested && (
            !session.has_input_handler || session.input.accepts_text_input)
        }),
{
}

/// A refresh shows the keyboard exactly where one is wanted for an input that takes text and none is
/// there, and leaves an input that selects natively its first responder.
pub proof fn refreshes_show_the_keyboard_that_is_wanted(session: TextInputSession, visible: bool)
    ensures
        ({
            let action = session.plan(visible).responder_action;
            let editable = session.has_input_handler && session.input.accepts_text_input;
            &&& action is ShowKeyboard <==> editable && session.keyboard_session_requested
                && !visible
            &&& editable && session.input.native_selection_enabled
                ==> action !is ResignActiveResponder
            &&& editable && !session.input.native_selection_enabled
                && !session.keyboard_session_requested ==> action is ResignActiveResponder
            &&& !session.has_input_handler && !session.has_selection_handler
                && !session.keyboard_session_requested ==> action is ResignActiveResponder
            &&& !session.has_input_handler && session.has_selection_handler
                && !session.keyboard_session_requested ==> (action is ResignActiveResponder
                <==> visible)
        }),
{
}

/// An editable session is active while it has the first responder or selects natively, and else its
/// selection handler stands in for it. Any other session is active as it is.
pub proof fn sessions_are_active_by_responder(session: TextInputSession, first: bool)
    ensures
        session.target_interaction_mode == 1 ==> {
            &&& first || session.input.native_selection_enabled ==> session.wanted_mode(first) == 1
            &&& !first && !session.input.native_selection_enabled ==> session.wanted_mode(first)
                == if session.has_selection_handler {
                0int
            } else {
                -1int
            }
        },
        session.target_interaction_mode == 0 ==> session.wanted_mode(first) == 0,
        session.target_interaction_mode == -1 ==> session.wanted_mode(first) == -1,
{
}

/// A painted selection is remembered as the same only where the range, the bounds and every rectangle
/// agree.
pub proof fn any_difference_makes_another_geometry(
    a: SelectionGeometry,
    b: SelectionGeometry,
    i: int,
)
    ensures
        a.range.start != b.range.start || a.range.end != b.range.end ==> !same_geometry(a, b),
        a.bounds is Some != b.bounds is Some ==> !same_geometry(a, b),
        a.bounds is Some && b.bounds is Some && !a.bounds->0.equals(b.bounds->0) ==> !same_geometry(
            a,
            b,
        ),
        a.rects@.len() != b.rects@.len() ==> !same_geometry(a, b),
        0 <= i < a.rects@.len() && i < b.rects@.len() && !a.rects@[i].equals(b.rects@[i])
            ==> !same_geometry(a, b),
        a.range == b.range && a.bounds is None && b.bounds is None && a.rects@.len() == 0
            && b.rects@.len() == 0 ==> same_geometry(a, b),
        !is_remembered(None, b),
        is_remembered(Some(a), b) == same_geometry(a, b),
{
}

} // verus!
