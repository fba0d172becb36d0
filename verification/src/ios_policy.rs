//! Decisions of the UIKit text-input surface: which handler is active, when the keyboard shows,
//! and which touches belong to native selection.
use crate::geometry::Bounds;
use std::ops::Range;
use vstd::prelude::*;

verus! {

/// No text interaction is installed.
pub const TEXT_INTERACTION_NONE: i8 = -1;

/// Read-only selection is installed.
pub const TEXT_INTERACTION_NONEDITABLE: i8 = 0;

/// Editable input is installed.
pub const TEXT_INTERACTION_EDITABLE: i8 = 1;

/// How long a single touch must rest before editable native selection may begin.
pub const EDITABLE_NATIVE_SELECTION_LONG_PRESS_MIN_MILLIS: u64 = 350;

/// The bits of the reach of a selection handle around what is selected, twenty-four pixels.
pub const NATIVE_SELECTION_HANDLE_HIT_SLOP_BITS: u32 = 0x41C0_0000;

/// How a selection menu is presented.
#[derive(Clone, Copy, Debug, PartialEq, Eq, Structural)]
pub enum SelectionMenuPresentation {
    /// The system's own items are shown along with custom actions.
    SystemAndCustomActions,
    /// Only custom actions are shown.
    CustomActionsOnly,
}

impl Default for SelectionMenuPresentation {
    fn default() -> (presentation: Self)
        ensures
            presentation == SelectionMenuPresentation::SystemAndCustomActions,
    {
        SelectionMenuPresentation::SystemAndCustomActions
    }
}

/// What happens to an item of the system's edit menu.
#[derive(Clone, Copy, Debug, PartialEq, Eq, Structural)]
pub enum EditMenuActionPolicy {
    CopySelection,
    DisableNativeMenu,
    DelegateToSystem,
}

/// Decides what happens to an item of the system's edit menu.
pub fn edit_menu_action_policy(
    interaction_mode: i8,
    input_native_selection_enabled: bool,
    is_copy_action: bool,
    menu_presentation: SelectionMenuPresentation,
) -> (policy: EditMenuActionPolicy)
    ensures
        policy is CopySelection <==> is_copy_action && menu_presentation !is CustomActionsOnly
            && native_touch_selection(interaction_mode, input_native_selection_enabled),
        policy is DisableNativeMenu <==> (is_copy_action
            && menu_presentation is CustomActionsOnly) || (interaction_mode
            == TEXT_INTERACTION_EDITABLE && !input_native_selection_enabled),
{
    if menu_presentation == SelectionMenuPresentation::CustomActionsOnly && is_copy_action {
        EditMenuActionPolicy::DisableNativeMenu
    } else if handles_native_touch_selection(interaction_mode, input_native_selection_enabled)
        && is_copy_action {
        EditMenuActionPolicy::CopySelection
    } else if interaction_mode == TEXT_INTERACTION_EDITABLE && !input_native_selection_enabled {
        EditMenuActionPolicy::DisableNativeMenu
    } else {
        EditMenuActionPolicy::DelegateToSystem
    }
}

/// A touch that only dismisses a selection is not passed on.
pub fn should_consume_touch_for_selection_dismissal(
    had_selection: bool,
    hit_text: bool,
    hit_selection_area: bool,
) -> (consume: bool)
    ensures
        consume <==> had_selection && !hit_text && !hit_selection_area,
{
    had_selection && !hit_text && !hit_selection_area
}

/// What a refresh does to the first responder.
#[derive(Clone, Copy, Debug, PartialEq, Eq, Structural)]
pub enum TextInputResponderAction {
    NoAction,
    ShowKeyboard,
    ResignActiveResponder,
}

/// The outcome of a refresh of the text-input state.
#[derive(Clone, Copy, Debug, PartialEq, Eq, Structural)]
pub struct TextInputRefreshPlan {
    pub keyboard_session_requested: bool,
    pub target_interaction_mode: i8,
    pub responder_action: TextInputResponderAction,
}

/// The interaction mode that the installed handlers ask for.
pub open spec fn target_mode(
    has_input_handler: bool,
    has_selection_handler: bool,
    input_accepts_text_input: bool,
) -> i8 {
    if has_input_handler && input_accepts_text_input {
        TEXT_INTERACTION_EDITABLE
    } else if has_selection_handler {
        TEXT_INTERACTION_NONEDITABLE
    } else {
        TEXT_INTERACTION_NONE
    }
}

/// What the first responder does after a refresh. The keyboard is shown where it was requested for
/// an input that takes text and is not visible yet. The responder is resigned where nothing needs
/// it: where no handler is waited for and none is installed, where a read-only selection took over
/// from a visible keyboard, and where an input without native selection has no keyboard session.
pub open spec fn refresh_action(
    has_input_handler: bool,
    has_selection_handler: bool,
    input_accepts_text_input: bool,
    input_native_selection_enabled: bool,
    requested: bool,
    visible: bool,
) -> TextInputResponderAction {
    let mode = target_mode(has_input_handler, has_selection_handler, input_accepts_text_input);
    if requested && mode == TEXT_INTERACTION_EDITABLE {
        if visible {
            TextInputResponderAction::NoAction
        } else {
            TextInputResponderAction::ShowKeyboard
        }
    } else if requested && !has_input_handler {
        TextInputResponderAction::NoAction
    } else if mode == TEXT_INTERACTION_NONEDITABLE && !visible {
        TextInputResponderAction::NoAction
    } else if mode == TEXT_INTERACTION_EDITABLE && input_native_selection_enabled {
        TextInputResponderAction::NoAction
    } else {
        TextInputResponderAction::ResignActiveResponder
    }
}

/// The whole outcome of a refresh. A keyboard request lives on while no input handler has arrived
/// yet, and otherwise only if the handler takes text.
pub open spec fn refresh_plan(
    has_input_handler: bool,
    has_selection_handler: bool,
    input_accepts_text_input: bool,
    input_native_selection_enabled: bool,
    requested: bool,
    visible: bool,
) -> TextInputRefreshPlan {
    TextInputRefreshPlan {
        keyboard_session_requested: requested && (!has_input_handler || input_accepts_text_input),
        target_interaction_mode: target_mode(
            has_input_handler,
            has_selection_handler,
            input_accepts_text_input,
        ),
        responder_action: refresh_action(
            has_input_handler,
            has_selection_handler,
            input_accepts_text_input,
            input_native_selection_enabled,
            requested,
            visible,
        ),
    }
}

/// Plans a refresh of the text-input state from the installed handlers and the keyboard session.
pub fn text_input_refresh_plan(
    has_input_handler: bool,
    has_selection_handler: bool,
    input_accepts_text_input: bool,
    input_native_selection_enabled: bool,
    _input_uses_manual_focus: bool,
    keyboard_session_requested: bool,
    software_keyboard_visible: bool,
) -> (plan: TextInputRefreshPlan)
    ensures
        plan == refresh_plan(
            has_input_handler,
            has_selection_handler,
            input_accepts_text_input,
            input_native_selection_enabled,
            keyboard_session_requested,
            software_keyboard_visible,
        ),
{
    let target_interaction_mode: i8 = if has_input_handler && input_accepts_text_input {
        TEXT_INTERACTION_EDITABLE
    } else if has_selection_handler {
        TEXT_INTERACTION_NONEDITABLE
    } else {
        TEXT_INTERACTION_NONE
    };
    let should_show_keyboard: bool = has_input_handler && input_accepts_text_input
        && keyboard_session_requested;
    let still_requested: bool = if keyboard_session_requested && !has_input_handler {
        true
    } else {
        should_show_keyboard
    };
    let responder_action: TextInputResponderAction = if should_show_keyboard {
        if software_keyboard_visible {
            TextInputResponderAction::NoAction
        } else {
            TextInputResponderAction::ShowKeyboard
        }
    } else if still_requested && !has_input_handler {
        TextInputResponderAction::NoAction
    } else if target_interaction_mode == TEXT_INTERACTION_NONEDITABLE {
        if software_keyboard_visible {
            TextInputResponderAction::ResignActiveResponder
        } else {
            TextInputResponderAction::NoAction
        }
    } else if target_interaction_mode == TEXT_INTERACTION_EDITABLE
        && input_native_selection_enabled {
        TextInputResponderAction::NoAction
    } else {
        TextInputResponderAction::ResignActiveResponder
    };
    TextInputRefreshPlan {
        keyboard_session_requested: still_requested,
        target_interaction_mode,
        responder_action,
    }
}

/// The mode whose handler receives text callbacks. An editable target is active only while its view
/// is first responder or it selects natively; meanwhile a read-only selection may stand in for it.
pub open spec fn active_mode(
    target: i8,
    has_selection_handler: bool,
    input_native_selection_enabled: bool,
    is_first_responder: bool,
) -> i8 {
    if target == TEXT_INTERACTION_EDITABLE {
        if is_first_responder || input_native_selection_enabled {
            TEXT_INTERACTION_EDITABLE
        } else if has_selection_handler {
            TEXT_INTERACTION_NONEDITABLE
        } else {
            TEXT_INTERACTION_NONE
        }
    } else if target == TEXT_INTERACTION_NONEDITABLE {
        TEXT_INTERACTION_NONEDITABLE
    } else {
        TEXT_INTERACTION_NONE
    }
}

/// Chooses the active text callback route for the current responder state.
///
/// Editable mode routes keyboard and IME callbacks to the input handler. An input handler can also
/// opt into native touch selection while staying editable.
pub fn active_text_interaction_mode_for_state(
    target_interaction_mode: i8,
    has_selection_handler: bool,
    input_native_selection_enabled: bool,
    is_first_responder: bool,
) -> (mode: i8)
    ensures
        mode == active_mode(
            target_interaction_mode,
            has_selection_handler,
            input_native_selection_enabled,
            is_first_responder,
        ),
{
    if target_interaction_mode == TEXT_INTERACTION_EDITABLE {
        if is_first_responder {
            TEXT_INTERACTION_EDITABLE
        } else if input_native_selection_enabled {
            TEXT_INTERACTION_EDITABLE
        } else if has_selection_handler {
            TEXT_INTERACTION_NONEDITABLE
        } else {
            TEXT_INTERACTION_NONE
        }
    } else if target_interaction_mode == TEXT_INTERACTION_NONEDITABLE {
        TEXT_INTERACTION_NONEDITABLE
    } else {
        TEXT_INTERACTION_NONE
    }
}

/// Removing a handler drops the keyboard request that was made for it.
pub fn should_clear_keyboard_request_when_clearing_input_handler(
    had_input_handler: bool,
    had_callback_input_handler: bool,
) -> (clear: bool)
    ensures
        clear <==> had_input_handler || had_callback_input_handler,
{
    had_input_handler || had_callback_input_handler
}

/// Whether the system keyboard is attached.
pub open spec fn uses_system_keyboard(
    has_input_handler: bool,
    has_callback_input_handler: bool,
    input_accepts_text_input: bool,
    keyboard_session_requested: bool,
) -> bool {
    keyboard_session_requested && input_accepts_text_input && (has_input_handler
        || has_callback_input_handler)
}

/// Read-only selection is allowed to become first responder for UIKit's copy and selection-handle
/// UI, but only real input handlers should be allowed to attach the system keyboard.
pub fn should_use_system_keyboard(
    has_input_handler: bool,
    has_callback_input_handler: bool,
    input_accepts_text_input: bool,
    keyboard_session_requested: bool,
) -> (attach: bool)
    ensures
        attach == uses_system_keyboard(
            has_input_handler,
            has_callback_input_handler,
            input_accepts_text_input,
            keyboard_session_requested,
        ),
{
    keyboard_session_requested && input_accepts_text_input && (has_input_handler
        || has_callback_input_handler)
}

/// The accessory bar needs an input that takes text, a keyboard session and the input's consent.
pub fn should_show_keyboard_accessory(
    input_accepts_text_input: bool,
    keyboard_session_requested: bool,
    keyboard_accessory_enabled: bool,
) -> (show: bool)
    ensures
        show <==> input_accepts_text_input && keyboard_session_requested
            && keyboard_accessory_enabled,
{
    input_accepts_text_input && keyboard_session_requested && keyboard_accessory_enabled
}

/// The accessory bar is attached along with the system keyboard where the input asks for it.
pub fn should_use_keyboard_accessory(
    has_input_handler: bool,
    has_callback_input_handler: bool,
    input_accepts_text_input: bool,
    keyboard_session_requested: bool,
    keyboard_accessory_enabled: bool,
) -> (attach: bool)
    ensures
        attach <==> keyboard_accessory_enabled && uses_system_keyboard(
            has_input_handler,
            has_callback_input_handler,
            input_accepts_text_input,
            keyboard_session_requested,
        ),
{
    (has_input_handler || has_callback_input_handler) && should_show_keyboard_accessory(
        input_accepts_text_input,
        keyboard_session_requested,
        keyboard_accessory_enabled,
    )
}

/// Whether native touch selection is in charge of touches on text.
pub open spec fn native_touch_selection(
    interaction_mode: i8,
    input_native_selection_enabled: bool,
) -> bool {
    interaction_mode == TEXT_INTERACTION_NONEDITABLE || (interaction_mode
        == TEXT_INTERACTION_EDITABLE && input_native_selection_enabled)
}

/// Tests whether native touch selection is in charge of touches on text.
pub fn handles_native_touch_selection(
    interaction_mode: i8,
    input_native_selection_enabled: bool,
) -> (handles: bool)
    ensures
        handles == native_touch_selection(interaction_mode, input_native_selection_enabled),
{
    interaction_mode == TEXT_INTERACTION_NONEDITABLE || (interaction_mode
        == TEXT_INTERACTION_EDITABLE && input_native_selection_enabled)
}

/// Where text is editable or selectable, the system is told where ranges lie on screen.
pub fn should_report_text_input_range_geometry(
    interaction_mode: i8,
    input_native_selection_enabled: bool,
) -> (report: bool)
    ensures
        report <==> interaction_mode == TEXT_INTERACTION_EDITABLE || interaction_mode
            == TEXT_INTERACTION_NONEDITABLE,
{
    interaction_mode == TEXT_INTERACTION_EDITABLE || handles_native_touch_selection(
        interaction_mode,
        input_native_selection_enabled,
    )
}

/// A text interaction begins only on selectable text that native selection is in charge of.
pub fn should_begin_text_interaction(
    interaction_mode: i8,
    input_native_selection_enabled: bool,
    hit_selectable_text: bool,
) -> (begin: bool)
    ensures
        begin <==> hit_selectable_text && native_touch_selection(
            interaction_mode,
            input_native_selection_enabled,
        ),
{
    handles_native_touch_selection(interaction_mode, input_native_selection_enabled)
        && hit_selectable_text
}

/// A selected range and where it was painted.
#[derive(Debug, PartialEq, Eq)]
pub struct SelectionGeometry {
    pub range: Range<usize>,
    pub bounds: Option<Bounds>,
    pub rects: Vec<Bounds>,
}

/// Whether a point lies in the rectangles of a selection once each is grown on every side by the reach
/// of a selection handle.
#[derive(Debug, PartialEq, Eq)]
pub struct GeometryHit {
    /// Whether it lies in the grown bounds, where there are any.
    pub near_bounds: bool,
    /// Whether it lies in each of the grown rectangles.
    pub near_rects: Vec<bool>,
}

/// Tests whether a touch near a selection belongs to it.
///
/// Selection handles can begin outside the reported text rectangles. Nearby touches count as
/// selection interaction so that dragging a handle does not clear the selection.
pub fn selection_geometry_contains_interaction_point(
    geometry: &SelectionGeometry,
    hit: &GeometryHit,
) -> (contains: bool)
    requires
        hit.near_rects@.len() == geometry.rects@.len(),
    ensures
        contains <==> (geometry.bounds is Some && hit.near_bounds) || exists|i: int|
            0 <= i < geometry.rects@.len() && #[trigger] hit.near_rects@[i],
{
    if geometry.bounds.is_some() && hit.near_bounds {
        return true;
    }
    let mut i: usize = 0;
    while i < hit.near_rects.len()
        invariant
            i <= hit.near_rects@.len(),
            hit.near_rects@.len() == geometry.rects@.len(),
            !(geometry.bounds is Some && hit.near_bounds),
            forall|j: int| 0 <= j < i ==> !(#[trigger] hit.near_rects@[j]),
        decreases hit.near_rects@.len() - i,
    {
        if hit.near_rects[i] {
            return true;
        }
        i = i + 1;
    }
    false
}

/// Who changed the text.
#[derive(Clone, Copy, Debug, PartialEq, Eq, Structural)]
pub enum TextInputMutationSource {
    TextInputSystem,
    External,
}

/// The input system is told only of changes that it did not make itself.
pub fn should_notify_text_input_delegate(source: TextInputMutationSource) -> (notify: bool)
    ensures
        notify <==> source is External,
{
    source == TextInputMutationSource::External
}

/// A typing aid that the system may apply.
#[derive(Clone, Copy, Debug, PartialEq, Eq, Structural)]
pub enum PlatformTextInputTrait {
    SystemDefault,
    Disabled,
    Enabled,
}

/// What the system capitalizes while typing.
#[derive(Clone, Copy, Debug, PartialEq, Eq, Structural)]
pub enum PlatformTextAutocapitalization {
    Off,
    Words,
    Sentences,
    AllCharacters,
}

/// The typing aids of an input.
#[derive(Clone, Copy, Debug, PartialEq, Eq, Structural)]
pub struct PlatformTextInputTraits {
    pub autocapitalization: PlatformTextAutocapitalization,
    pub autocorrection: PlatformTextInputTrait,
    pub spell_checking: PlatformTextInputTrait,
    pub smart_quotes: PlatformTextInputTrait,
    pub smart_dashes: PlatformTextInputTrait,
    pub smart_insert_delete: PlatformTextInputTrait,
    pub inline_prediction: PlatformTextInputTrait,
}

impl PlatformTextInputTraits {
    /// Suggestions from the keyboard without anything that rewrites typed text.
    pub fn keyboard_suggestions() -> (traits: Self)
        ensures
            traits == (PlatformTextInputTraits {
                autocapitalization: PlatformTextAutocapitalization::Off,
                autocorrection: PlatformTextInputTrait::Enabled,
                spell_checking: PlatformTextInputTrait::Disabled,
                smart_quotes: PlatformTextInputTrait::Disabled,
                smart_dashes: PlatformTextInputTrait::Disabled,
                smart_insert_delete: PlatformTextInputTrait::Disabled,
                inline_prediction: PlatformTextInputTrait::Enabled,
            }),
    {
        PlatformTextInputTraits {
            autocapitalization: PlatformTextAutocapitalization::Off,
            autocorrection: PlatformTextInputTrait::Enabled,
            spell_checking: PlatformTextInputTrait::Disabled,
            smart_quotes: PlatformTextInputTrait::Disabled,
            smart_dashes: PlatformTextInputTrait::Disabled,
            smart_insert_delete: PlatformTextInputTrait::Disabled,
            inline_prediction: PlatformTextInputTrait::Enabled,
        }
    }
}

/// The UIKit value of a typing aid.
pub fn text_input_trait_value(trait_value: PlatformTextInputTrait) -> (value: i64)
    ensures
        value == match trait_value {
            PlatformTextInputTrait::SystemDefault => 0int,
            PlatformTextInputTrait::Disabled => 1,
            PlatformTextInputTrait::Enabled => 2,
        },
{
    match trait_value {
        PlatformTextInputTrait::SystemDefault => 0,
        PlatformTextInputTrait::Disabled => 1,
        PlatformTextInputTrait::Enabled => 2,
    }
}

/// The UIKit value of a capitalization.
pub fn autocapitalization_value(value: PlatformTextAutocapitalization) -> (uikit: i64)
    ensures
        uikit == match value {
            PlatformTextAutocapitalization::Off => 0int,
            PlatformTextAutocapitalization::Words => 1,
            PlatformTextAutocapitalization::Sentences => 2,
            PlatformTextAutocapitalization::AllCharacters => 3,
        },
{
    match value {
        PlatformTextAutocapitalization::Off => 0,
        PlatformTextAutocapitalization::Words => 1,
        PlatformTextAutocapitalization::Sentences => 2,
        PlatformTextAutocapitalization::AllCharacters => 3,
    }
}

/// Refreshing again with the keyboard session of the first plan changes neither the session nor the
/// mode, and once the keyboard is shown it is not shown again.
pub proof fn refresh_settles(
    has_input_handler: bool,
    has_selection_handler: bool,
    input_accepts_text_input: bool,
    input_native_selection_enabled: bool,
    requested: bool,
    visible: bool,
)
    ensures
        ({
            let first = refresh_plan(
                has_input_handler,
                has_selection_handler,
                input_accepts_text_input,
                input_native_selection_enabled,
                requested,
                visible,
            );
            let second = refresh_plan(
                has_input_handler,
                has_selection_handler,
                input_accepts_text_input,
                input_native_selection_enabled,
                first.keyboard_session_requested,
                visible || first.responder_action is ShowKeyboard,
            );
            &&& second.keyboard_session_requested == first.keyboard_session_requested
            &&& second.target_interaction_mode == first.target_interaction_mode
            &&& second.responder_action !is ShowKeyboard
        }),
{
}

/// The keyboard is shown by a refresh only where the system keyboard is attached.
pub proof fn keyboard_shows_only_for_text_input(
    has_selection_handler: bool,
    input_accepts_text_input: bool,
    input_native_selection_enabled: bool,
    has_input_handler: bool,
    requested: bool,
    visible: bool,
)
    requires
        refresh_plan(
            has_input_handler,
            has_selection_handler,
            input_accepts_text_input,
            input_native_selection_enabled,
            requested,
            visible,
        ).responder_action is ShowKeyboard,
    ensures
        uses_system_keyboard(has_input_handler, false, input_accepts_text_input, requested),
        !visible,
{
}

/// Becoming first responder never takes the active route away from an editable target.
pub proof fn first_responder_routes_to_input(
    has_selection_handler: bool,
    input_native_selection_enabled: bool,
)
    ensures
        active_mode(
            TEXT_INTERACTION_EDITABLE,
            has_selection_handler,
            input_native_selection_enabled,
            true,
        ) == TEXT_INTERACTION_EDITABLE,
{
}

/// The active mode is editable only if the target mode is.
pub proof fn active_mode_never_exceeds_target(
    target: i8,
    has_selection_handler: bool,
    input_native_selection_enabled: bool,
    is_first_responder: bool,
)
    requires
        active_mode(
            target,
            has_selection_handler,
            input_native_selection_enabled,
            is_first_responder,
        ) == TEXT_INTERACTION_EDITABLE,
    ensures
        target == TEXT_INTERACTION_EDITABLE,
{
}

/// Editable input, number one, is asked for by an input handler that takes text. Else read-only
/// selection, number zero, is asked for by a selection handler, and without one nothing is, number
/// minus one.
pub proof fn handlers_decide_the_mode(input: bool, selection: bool, accepts: bool)
    ensures
        input && accepts ==> target_mode(input, selection, accepts) == 1,
        !(input && accepts) && selection ==> target_mode(input, selection, accepts) == 0,
        !(input && accepts) && !selection ==> target_mode(input, selection, accepts) == -1,
{
}

/// A keyboard that was asked for is shown once an input that takes text is there, and only then. It is
/// waited for while there is no input, and the wish is dropped for an input that takes none.
pub proof fn keyboards_are_shown_to_inputs_that_take_text(
    input: bool,
    selection: bool,
    accepts: bool,
    native: bool,
    requested: bool,
    visible: bool,
)
    ensures
        ({
            let plan = refresh_plan(input, selection, accepts, native, requested, visible);
            &&& plan.responder_action is ShowKeyboard <==> requested && input && accepts && !visible
            &&& requested && input && accepts && visible ==> plan.responder_action is NoAction
            &&& requested && !input ==> plan.responder_action is NoAction
            &&& requested && !input ==> plan.keyboard_session_requested
            &&& requested && input ==> plan.keyboard_session_requested == accepts
            &&& !requested ==> !plan.keyboard_session_requested
            &&& plan.target_interaction_mode == 1 <==> input && accepts
            &&& plan.target_interaction_mode == 0 <==> !(input && accepts) && selection
            &&& plan.target_interaction_mode == -1 <==> !(input && accepts) && !selection
        }),
{
}

/// Where no keyboard is wanted, an input that takes text keeps the first responder only for native
/// selection, a read-only selection keeps it unless the keyboard still shows, and without either it is
/// resigned.
pub proof fn responders_are_resigned_where_nothing_needs_them(
    input: bool,
    selection: bool,
    accepts: bool,
    native: bool,
    requested: bool,
    visible: bool,
)
    ensures
        ({
            let action = refresh_plan(
                input,
                selection,
                accepts,
                native,
                requested,
                visible,
            ).responder_action;
            &&& input && accepts && !requested ==> if native {
                action is NoAction
            } else {
                action is ResignActiveResponder
            }
            &&& input && !accepts && selection || !input && !requested && selection ==> if visible {
                action is ResignActiveResponder
            } else {
                action is NoAction
            }
            &&& input && !accepts && !selection || !input && !requested && !selection
                ==> action is ResignActiveResponder
        }),
{
}

/// Callbacks go to the input while it is the first responder or selects natively, else to a read-only
/// selection if there is one. A read-only target stays what it is, and no target gets nothing.
pub proof fn callbacks_go_to_the_input_or_stand_in(
    target: i8,
    selection: bool,
    native: bool,
    first: bool,
)
    ensures
        target == 1 && (first || native) ==> active_mode(target, selection, native, first) == 1,
        target == 1 && !first && !native && selection ==> active_mode(
            target,
            selection,
            native,
            first,
        ) == 0,
        target == 1 && !first && !native && !selection ==> active_mode(
            target,
            selection,
            native,
            first,
        ) == -1,
        target == 0 ==> active_mode(target, selection, native, first) == 0,
        target != 1 && target != 0 ==> active_mode(target, selection, native, first) == -1,
{
}

/// The system keyboard needs a session, an input that takes text, and a handler, be it the one of the
/// frame or the one for callbacks. Any one of these missing keeps it away.
pub proof fn the_keyboard_needs_a_session_and_an_input(
    input: bool,
    callback: bool,
    accepts: bool,
    requested: bool,
)
    ensures
        input && accepts && requested ==> uses_system_keyboard(input, callback, accepts, requested),
        callback && accepts && requested ==> uses_system_keyboard(
            input,
            callback,
            accepts,
            requested,
        ),
        !requested ==> !uses_system_keyboard(input, callback, accepts, requested),
        !accepts ==> !uses_system_keyboard(input, callback, accepts, requested),
        !input && !callback ==> !uses_system_keyboard(input, callback, accepts, requested),
{
}

/// Native selection is in charge of a read-only selection, and of an editable input that allows it.
pub proof fn native_selection_is_for_reading_or_by_consent(mode: i8, native: bool)
    ensures
        mode == 0 ==> native_touch_selection(mode, native),
        mode == 1 ==> native_touch_selection(mode, native) == native,
        mode != 0 && mode != 1 ==> !native_touch_selection(mode, native),
{
}

} // verus!
