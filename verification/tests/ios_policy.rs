//! The policy of native text input and selection.
use gpui_mobile::geometry::{Bounds, Pixels, Point, Size};
use gpui_mobile::ios_policy::{
    active_text_interaction_mode_for_state, autocapitalization_value, edit_menu_action_policy,
    handles_native_touch_selection, selection_geometry_contains_interaction_point,
    should_begin_text_interaction, should_clear_keyboard_request_when_clearing_input_handler,
    should_consume_touch_for_selection_dismissal, should_notify_text_input_delegate,
    should_report_text_input_range_geometry, should_use_keyboard_accessory,
    should_use_system_keyboard, text_input_refresh_plan, text_input_trait_value,
    EditMenuActionPolicy, GeometryHit, PlatformTextAutocapitalization, PlatformTextInputTrait,
    PlatformTextInputTraits, SelectionGeometry, SelectionMenuPresentation, TextInputMutationSource,
    TextInputResponderAction, NATIVE_SELECTION_HANDLE_HIT_SLOP_BITS, TEXT_INTERACTION_EDITABLE,
    TEXT_INTERACTION_NONE, TEXT_INTERACTION_NONEDITABLE,
};
use gpui_mobile::ios_text::{
    offset_text_position_index, text_character_range_by_extending_position, text_input_has_text,
    text_position_index_at_range_offset, text_position_offset_in_range,
};
use gpui_mobile::touch_events::{FLING_THRESHOLD_BITS, TAP_SLOP_BITS};

/// How far selection handles reach out of the text, in pixels.
fn handle_reach() -> f32 {
    f32::from_bits(NATIVE_SELECTION_HANDLE_HIT_SLOP_BITS)
}

fn px(value: f32) -> Pixels {
    Pixels { bits: value.to_bits() }
}

fn bounds(x: f32, y: f32, width: f32, height: f32) -> Bounds {
    Bounds {
        origin: Point { x: px(x), y: px(y) },
        size: Size { width: px(width), height: px(height) },
    }
}

fn near(rect: &Bounds, x: f32, y: f32) -> bool {
    let left = f32::from_bits(rect.origin.x.bits) - handle_reach();
    let top = f32::from_bits(rect.origin.y.bits) - handle_reach();
    let right = left + f32::from_bits(rect.size.width.bits) + 2.0 * handle_reach();
    let bottom = top + f32::from_bits(rect.size.height.bits) + 2.0 * handle_reach();
    left <= x && x <= right && top <= y && y <= bottom
}

fn hit(geometry: &SelectionGeometry, x: f32, y: f32) -> GeometryHit {
    GeometryHit {
        near_bounds: geometry.bounds.as_ref().is_some_and(|bounds| near(bounds, x, y)),
        near_rects: geometry.rects.iter().map(|rect| near(rect, x, y)).collect(),
    }
}

#[test]
fn editable_context_rewrite_reports_text_input_range_geometry() {
    assert!(should_report_text_input_range_geometry(
        TEXT_INTERACTION_EDITABLE,
        false
    ));
}

#[test]
fn editable_edit_menu_actions_are_disabled_for_current_inputs() {
    assert_eq!(
        edit_menu_action_policy(TEXT_INTERACTION_EDITABLE, false, true, Default::default()),
        EditMenuActionPolicy::DisableNativeMenu
    );
    assert_eq!(
        edit_menu_action_policy(TEXT_INTERACTION_EDITABLE, false, false, Default::default()),
        EditMenuActionPolicy::DisableNativeMenu
    );
}

#[test]
fn editable_native_selection_copy_uses_selection_policy() {
    assert_eq!(
        edit_menu_action_policy(TEXT_INTERACTION_EDITABLE, true, true, Default::default()),
        EditMenuActionPolicy::CopySelection
    );
    assert_eq!(
        edit_menu_action_policy(TEXT_INTERACTION_EDITABLE, true, false, Default::default()),
        EditMenuActionPolicy::DelegateToSystem
    );
}

#[test]
fn noneditable_copy_uses_selection_policy_but_other_actions_delegate() {
    assert_eq!(
        edit_menu_action_policy(
            TEXT_INTERACTION_NONEDITABLE,
            false,
            true,
            Default::default(),
        ),
        EditMenuActionPolicy::CopySelection
    );
    assert_eq!(
        edit_menu_action_policy(
            TEXT_INTERACTION_NONEDITABLE,
            false,
            false,
            Default::default(),
        ),
        EditMenuActionPolicy::DelegateToSystem
    );
}

#[test]
fn custom_only_selection_disables_responder_copy() {
    assert_eq!(
        edit_menu_action_policy(
            TEXT_INTERACTION_NONEDITABLE,
            false,
            true,
            SelectionMenuPresentation::CustomActionsOnly,
        ),
        EditMenuActionPolicy::DisableNativeMenu
    );
}

#[test]
fn outside_selection_touch_is_consumed_only_for_dismissal() {
    assert!(should_consume_touch_for_selection_dismissal(
        true, false, false
    ));
    assert!(!should_consume_touch_for_selection_dismissal(
        true, true, false
    ));
    assert!(!should_consume_touch_for_selection_dismissal(
        true, false, true
    ));
    assert!(!should_consume_touch_for_selection_dismissal(
        false, false, false
    ));
}

#[test]
fn native_touch_selection_is_disabled_without_text_interaction() {
    assert!(!handles_native_touch_selection(
        TEXT_INTERACTION_NONE,
        false
    ));
}

#[test]
fn native_touch_selection_is_enabled_for_read_only_selection() {
    assert!(handles_native_touch_selection(
        TEXT_INTERACTION_NONEDITABLE,
        false
    ));
}

#[test]
fn native_touch_selection_is_disabled_for_current_input_handlers() {
    assert!(!handles_native_touch_selection(
        TEXT_INTERACTION_EDITABLE,
        false
    ));
}

#[test]
fn native_touch_selection_can_be_enabled_for_editable_handlers() {
    assert!(handles_native_touch_selection(
        TEXT_INTERACTION_EDITABLE,
        true
    ));
}

#[test]
fn active_selection_geometry_hit_test_includes_handle_slop() {
    let rect = bounds(218.1, 363.7, 57.6, 16.0);
    let geometry = SelectionGeometry {
        range: 471..479,
        bounds: Some(rect),
        rects: vec![rect],
    };

    assert!(selection_geometry_contains_interaction_point(
        &geometry,
        &hit(&geometry, 224.7, 361.0)
    ));
    assert!(!selection_geometry_contains_interaction_point(
        &geometry,
        &hit(&geometry, 24.0, 361.0)
    ));
}

#[test]
fn editable_input_still_reports_ime_range_geometry() {
    assert!(should_report_text_input_range_geometry(
        TEXT_INTERACTION_EDITABLE,
        false
    ));
    assert!(should_report_text_input_range_geometry(
        TEXT_INTERACTION_NONEDITABLE,
        false
    ));
    assert!(!should_report_text_input_range_geometry(
        TEXT_INTERACTION_NONE,
        false
    ));
}

#[test]
fn text_input_system_mutations_do_not_notify_the_input_delegate() {
    assert!(!should_notify_text_input_delegate(
        TextInputMutationSource::TextInputSystem
    ));
    assert!(should_notify_text_input_delegate(
        TextInputMutationSource::External
    ));
}

#[test]
fn has_text_follows_the_current_text_input_document() {
    assert!(!text_input_has_text(None));
    assert!(!text_input_has_text(Some(0)));
    assert!(text_input_has_text(Some(1)));
}

#[test]
fn text_position_offsets_stay_inside_document() {
    assert_eq!(offset_text_position_index(3, -3, 3), Some(0));
    assert_eq!(offset_text_position_index(3, 0, 3), Some(3));
    assert_eq!(offset_text_position_index(0, 3, 3), Some(3));

    // Critical: UITextInputStringTokenizer probes large offsets while
    // computing language context. Returning impossible positions causes
    // native IMEs to make decisions against invalid text ranges.
    assert_eq!(offset_text_position_index(3, 300, 3), None);
    assert_eq!(offset_text_position_index(0, -1, 3), None);
}

#[test]
fn tokenizer_offsets_stay_inside_requested_range() {
    assert_eq!(text_position_index_at_range_offset(2..5, 0), Some(2));
    assert_eq!(text_position_index_at_range_offset(2..5, 3), Some(5));
    assert_eq!(text_position_index_at_range_offset(2..5, 4), None);
    assert_eq!(text_position_index_at_range_offset(2..5, -1), None);

    assert_eq!(text_position_offset_in_range(2, 2..5), Some(0));
    assert_eq!(text_position_offset_in_range(5, 2..5), Some(3));
    assert_eq!(text_position_offset_in_range(6, 2..5), None);
}

#[test]
fn character_range_by_extending_returns_adjacent_character() {
    assert_eq!(
        text_character_range_by_extending_position(2, 0, 4),
        Some(2..3)
    );
    assert_eq!(
        text_character_range_by_extending_position(2, 1, 4),
        Some(1..2)
    );
    assert_eq!(
        text_character_range_by_extending_position(0, 1, 4),
        Some(0..0)
    );
    assert_eq!(
        text_character_range_by_extending_position(4, 0, 4),
        Some(4..4)
    );
    assert_eq!(text_character_range_by_extending_position(5, 0, 4), None);
}

#[test]
fn characters_at_the_end_of_the_longest_document_are_empty() {
    let last = usize::MAX;
    assert_eq!(text_character_range_by_extending_position(last, 0, last), Some(last..last));
    assert_eq!(text_character_range_by_extending_position(last - 1, 0, last), Some(last - 1..last));
    assert_eq!(text_character_range_by_extending_position(last, 1, last), Some(last - 1..last));
    assert_eq!(text_character_range_by_extending_position(last, 0, 4), None);
}

#[test]
fn text_interaction_begin_requires_native_selection_hit() {
    assert!(should_begin_text_interaction(
        TEXT_INTERACTION_NONEDITABLE,
        false,
        true
    ));
    assert!(!should_begin_text_interaction(
        TEXT_INTERACTION_NONEDITABLE,
        false,
        false
    ));
    assert!(!should_begin_text_interaction(
        TEXT_INTERACTION_EDITABLE,
        false,
        true
    ));
    assert!(should_begin_text_interaction(
        TEXT_INTERACTION_EDITABLE,
        true,
        true
    ));
    assert!(!should_begin_text_interaction(
        TEXT_INTERACTION_NONE,
        true,
        true
    ));
}

#[test]
fn explicit_keyboard_request_survives_until_input_handler_arrives() {
    let plan = text_input_refresh_plan(false, false, false, false, false, true, false);

    assert!(plan.keyboard_session_requested);
    assert_eq!(plan.target_interaction_mode, TEXT_INTERACTION_NONE);
    assert_eq!(plan.responder_action, TextInputResponderAction::NoAction);
}

#[test]
fn stale_keyboard_request_resigns_when_handler_is_cleared() {
    let plan = text_input_refresh_plan(false, false, false, false, false, false, true);

    assert!(!plan.keyboard_session_requested);
    assert_eq!(plan.target_interaction_mode, TEXT_INTERACTION_NONE);
    assert_eq!(
        plan.responder_action,
        TextInputResponderAction::ResignActiveResponder
    );
}

#[test]
fn clearing_existing_input_handler_clears_keyboard_request() {
    assert!(should_clear_keyboard_request_when_clearing_input_handler(
        true, false
    ));
    assert!(should_clear_keyboard_request_when_clearing_input_handler(
        false, true
    ));
}

#[test]
fn clearing_without_existing_input_handler_preserves_pre_handler_request() {
    assert!(!should_clear_keyboard_request_when_clearing_input_handler(
        false, false
    ));
}

#[test]
fn system_keyboard_requires_text_input_and_explicit_request() {
    assert!(should_use_system_keyboard(true, false, true, true));
    assert!(should_use_system_keyboard(false, true, true, true));
    assert!(!should_use_system_keyboard(false, false, false, false));
    assert!(!should_use_system_keyboard(false, false, false, true));
    assert!(!should_use_system_keyboard(false, false, true, true));
    assert!(!should_use_system_keyboard(true, false, false, true));
    assert!(!should_use_system_keyboard(true, false, true, false));
}

#[test]
fn keyboard_accessory_requires_active_text_input_and_opt_in() {
    assert!(should_use_keyboard_accessory(true, false, true, true, true));
    assert!(should_use_keyboard_accessory(false, true, true, true, true));
    assert!(!should_use_keyboard_accessory(
        false, false, true, true, true
    ));
    assert!(!should_use_keyboard_accessory(
        true, false, false, true, true
    ));
    assert!(!should_use_keyboard_accessory(
        true, false, true, false, true
    ));
    assert!(!should_use_keyboard_accessory(
        true, false, true, true, false
    ));
}

#[test]
fn input_owned_native_selection_stays_editable_without_keyboard_request() {
    let plan = text_input_refresh_plan(true, false, true, true, true, false, false);

    assert!(!plan.keyboard_session_requested);
    assert_eq!(plan.target_interaction_mode, TEXT_INTERACTION_EDITABLE);
    assert_eq!(plan.responder_action, TextInputResponderAction::NoAction);
}

#[test]
fn keyboard_request_shows_for_input_owned_native_selection() {
    let plan = text_input_refresh_plan(true, false, true, true, true, true, false);

    assert!(plan.keyboard_session_requested);
    assert_eq!(plan.target_interaction_mode, TEXT_INTERACTION_EDITABLE);
    assert_eq!(
        plan.responder_action,
        TextInputResponderAction::ShowKeyboard
    );
}

#[test]
fn keyboard_request_does_not_reopen_for_visible_input_owned_native_selection() {
    let plan = text_input_refresh_plan(true, false, true, true, true, true, true);

    assert!(plan.keyboard_session_requested);
    assert_eq!(plan.target_interaction_mode, TEXT_INTERACTION_EDITABLE);
    assert_eq!(plan.responder_action, TextInputResponderAction::NoAction);
}

#[test]
fn explicit_keyboard_request_shows_when_manual_focus_handler_arrives() {
    let plan = text_input_refresh_plan(true, false, true, false, true, true, false);

    assert!(plan.keyboard_session_requested);
    assert_eq!(plan.target_interaction_mode, TEXT_INTERACTION_EDITABLE);
    assert_eq!(
        plan.responder_action,
        TextInputResponderAction::ShowKeyboard
    );
}

#[test]
fn explicit_keyboard_request_does_not_reopen_when_keyboard_is_visible() {
    let plan = text_input_refresh_plan(true, false, true, false, true, true, true);

    assert!(plan.keyboard_session_requested);
    assert_eq!(plan.target_interaction_mode, TEXT_INTERACTION_EDITABLE);
    assert_eq!(plan.responder_action, TextInputResponderAction::NoAction);
}

#[test]
fn keyboard_request_clears_when_non_text_handler_arrives() {
    let plan = text_input_refresh_plan(true, false, false, false, false, true, false);

    assert!(!plan.keyboard_session_requested);
    assert_eq!(plan.target_interaction_mode, TEXT_INTERACTION_NONE);
    assert_eq!(
        plan.responder_action,
        TextInputResponderAction::ResignActiveResponder
    );
}

#[test]
fn editable_mode_routes_input_only_while_first_responder() {
    assert_eq!(
        active_text_interaction_mode_for_state(TEXT_INTERACTION_EDITABLE, true, false, true),
        TEXT_INTERACTION_EDITABLE
    );
    assert_eq!(
        active_text_interaction_mode_for_state(TEXT_INTERACTION_EDITABLE, true, false, false),
        TEXT_INTERACTION_NONEDITABLE
    );
    assert_eq!(
        active_text_interaction_mode_for_state(TEXT_INTERACTION_EDITABLE, false, false, false),
        TEXT_INTERACTION_NONE
    );
}

#[test]
fn editable_native_selection_remains_installed_outside_first_responder() {
    assert_eq!(
        active_text_interaction_mode_for_state(TEXT_INTERACTION_EDITABLE, false, true, false),
        TEXT_INTERACTION_EDITABLE
    );
}

#[test]
fn noneditable_interaction_remains_installed_outside_first_responder() {
    assert_eq!(
        active_text_interaction_mode_for_state(
            TEXT_INTERACTION_NONEDITABLE,
            true,
            false,
            false
        ),
        TEXT_INTERACTION_NONEDITABLE
    );
    assert_eq!(
        active_text_interaction_mode_for_state(TEXT_INTERACTION_NONEDITABLE, true, false, true),
        TEXT_INTERACTION_NONEDITABLE
    );
}

#[test]
fn text_input_trait_values_match_uikit_enums() {
    assert_eq!(
        text_input_trait_value(PlatformTextInputTrait::SystemDefault),
        0
    );
    assert_eq!(text_input_trait_value(PlatformTextInputTrait::Disabled), 1);
    assert_eq!(text_input_trait_value(PlatformTextInputTrait::Enabled), 2);
}

#[test]
fn keyboard_suggestion_traits_map_to_uikit_values_without_smart_mutation() {
    let traits = PlatformTextInputTraits::keyboard_suggestions();

    assert_eq!(autocapitalization_value(traits.autocapitalization), 0);
    assert_eq!(text_input_trait_value(traits.autocorrection), 2);
    assert_eq!(text_input_trait_value(traits.inline_prediction), 2);
    assert_eq!(text_input_trait_value(traits.spell_checking), 1);
    assert_eq!(text_input_trait_value(traits.smart_quotes), 1);
    assert_eq!(text_input_trait_value(traits.smart_dashes), 1);
    assert_eq!(text_input_trait_value(traits.smart_insert_delete), 1);
}

#[test]
fn autocapitalization_values_match_uikit_enums() {
    assert_eq!(
        autocapitalization_value(PlatformTextAutocapitalization::Off),
        0
    );
    assert_eq!(
        autocapitalization_value(PlatformTextAutocapitalization::Words),
        1
    );
    assert_eq!(
        autocapitalization_value(PlatformTextAutocapitalization::Sentences),
        2
    );
    assert_eq!(
        autocapitalization_value(PlatformTextAutocapitalization::AllCharacters),
        3
    );
}

#[test]
fn lengths_are_held_by_their_bits() {
    assert_eq!(handle_reach(), 24.0);
    assert_eq!(f32::from_bits(TAP_SLOP_BITS), 4.0);
    assert_eq!(f32::from_bits(FLING_THRESHOLD_BITS), 50.0);
}
