//! Native text input, keys and touches on iOS.
use gpui_mobile::geometry::{Bounds, Pixels, Point, Size};
use gpui_mobile::gesture::GestureEvent;
use gpui_mobile::ios_app::{
    handle_text_input, injected_phase, picked_paths, process_devtool_gestures, save_name,
    set_software_keyboard_visible, software_keyboard_visible, EmbeddedWindowConfig, FilePickerState,
    IosAppState, PickerError, SoftwareKeyboard,
};
use gpui_mobile::ios_events::UITouchPhase;
use gpui_mobile::ios_keys::{
    backspace_key_down, build_key_commands, handles_press, is_non_printable_key, key_code_to_key_down,
    key_code_to_key_up, key_code_to_string, key_command_key_code, modifier_flags_to_modifiers,
    KeyCommandInput,
};
use gpui_mobile::ios_policy::{
    PlatformTextInputTraits, SelectionGeometry, SelectionMenuPresentation, TextInputResponderAction, TEXT_INTERACTION_EDITABLE,
    TEXT_INTERACTION_NONE, TEXT_INTERACTION_NONEDITABLE,
};
use gpui_mobile::ios_session::{InputHandlerTraits, SelectionCache, TextInputSession};
use gpui_mobile::ios_text::{
    copied_range, copied_text, dictation_result_text, edit_menu, farthest_position_in_range,
    handler_slot, inserted_keys, marked_selection, order_of_positions, perform_selection_menu_action,
    position_in_direction, range_between_positions, selection_action_presentations,
    selection_menu_presentation, selection_rects, selection_rects_for_range, selection_rects_range,
    CallbackHandlers, EditMenu, HandlerSlot, InsertedKey, NS_NOT_FOUND,
};
use gpui_mobile::ios_touch::{TouchSample, TouchStep, TouchSurroundings, TouchTracker};
use gpui_mobile::keyboard_layout::{AndroidKeyboardLayout, IosKeyboardLayout, IosKeyboardMapper};
use gpui_mobile::platform_input::{Keystroke, Modifiers, PlatformInput, TouchPhase};
use gpui_mobile::selection_handler::UTF16Selection;
use gpui_mobile::touch_events::pan_gesture_to_scroll;

fn px(value: f32) -> Pixels {
    Pixels { bits: value.to_bits() }
}

fn point(x: f32, y: f32) -> Point {
    Point { x: px(x), y: px(y) }
}

fn sample(touch: u64, phase: UITouchPhase, x: f32, seconds: f64) -> TouchSample {
    TouchSample {
        touch,
        phase,
        position: point(x, 0.0),
        delta: point(1.0, 0.0),
        tap_count: 1,
        timestamp: seconds.to_bits(),
        now_millis: 10,
        velocity: point(5.0, 0.0),
    }
}

fn nothing_selected() -> TouchSurroundings {
    TouchSurroundings { had_selection: false, hit_text: false, hit_selection_area: false }
}

#[test]
fn keys_have_names() {
    assert_eq!(key_code_to_string(0x04), "a");
    assert_eq!(key_code_to_string(0x1d), "z");
    assert_eq!(key_code_to_string(0x1e), "1");
    assert_eq!(key_code_to_string(0x27), "0");
    assert_eq!(key_code_to_string(0x28), "enter");
    assert_eq!(key_code_to_string(0x45), "f12");
    assert_eq!(key_code_to_string(0x52), "up");
    assert_eq!(key_code_to_string(0x05f), "unknown-5f");
    assert_eq!(key_code_to_string(0x01), "unknown-01");
}

#[test]
fn modifier_flags_are_bits() {
    let modifiers = modifier_flags_to_modifiers(1 << 17 | 1 << 20);
    assert!(modifiers.shift && modifiers.platform);
    assert!(!modifiers.control && !modifiers.alt && !modifiers.function);
}

#[test]
fn key_events_carry_their_character() {
    match key_code_to_key_down(0x04, 0) {
        PlatformInput::KeyDown(event) => {
            assert_eq!(event.keystroke.key, "a");
            assert!(!event.is_held);
        }
        other => panic!("{other:?}"),
    }
    assert!(matches!(key_code_to_key_up(0x04, 0), PlatformInput::KeyUp(_)));
    match backspace_key_down() {
        PlatformInput::KeyDown(event) => {
            assert_eq!(event.keystroke.key, "backspace");
            assert_eq!(event.keystroke.key_char, None);
        }
        other => panic!("{other:?}"),
    }
}

#[test]
fn hardware_keys_are_taken_only_where_text_input_does_not() {
    assert!(is_non_printable_key(0x4f));
    assert!(!is_non_printable_key(0x04));
    assert!(handles_press(0x04, 1 << 18, false));
    assert!(!handles_press(0x04, 0, true));
}

#[test]
fn key_commands_name_their_keys() {
    assert_eq!(key_command_key_code(KeyCommandInput::UpArrow), 0x52);
    assert_eq!(key_command_key_code(KeyCommandInput::Tab), 0x2b);
    assert!(!build_key_commands().is_empty());
}

#[test]
fn text_becomes_keys() {
    let events = handle_text_input("aÉ");
    let keys: Vec<(String, Option<String>)> = events
        .into_iter()
        .map(|event| match event {
            PlatformInput::KeyDown(event) => (event.keystroke.key, event.keystroke.key_char),
            other => panic!("{other:?}"),
        })
        .collect();
    assert_eq!(
        keys,
        vec![("a".to_string(), Some("a".to_string())), ("É".to_string(), Some("É".to_string()))]
    );
    assert_eq!(
        inserted_keys("x\n"),
        vec![InsertedKey::Character('x'), InsertedKey::Return]
    );
}

#[test]
fn positions_move_in_directions() {
    assert_eq!(position_in_direction(Some(3), 0, 1, Some(5)), Some(4));
    assert_eq!(position_in_direction(Some(3), 2, 1, Some(5)), Some(2));
    assert_eq!(position_in_direction(None, 2, 1, Some(5)), None);
    assert_eq!(range_between_positions(Some(4), Some(2), Some(5)), Some(2..4));
    assert_eq!(order_of_positions(Some(1), Some(2)), -1);
    assert_eq!(order_of_positions(Some(2), Some(2)), 0);
    assert_eq!(farthest_position_in_range(Some(1..4), 3, Some(9)), Some(4));
    assert_eq!(farthest_position_in_range(Some(1..4), 1, Some(9)), Some(1));
}

#[test]
fn marked_ranges_come_from_the_system() {
    assert_eq!(marked_selection(2, 3), Some(2..5));
    assert_eq!(marked_selection(NS_NOT_FOUND, 0), None);
}

#[test]
fn dictation_joins_phrases() {
    let phrases = Some(vec![Some("hello ".to_string()), None, Some("there".to_string())]);
    assert_eq!(dictation_result_text(&phrases), Some("hello there".to_string()));
    assert_eq!(dictation_result_text(&Some(vec![])), None);
    assert_eq!(dictation_result_text(&None), None);
}

#[test]
fn selections_mark_their_ends() {
    let rect = |x: f32| Bounds {
        origin: point(x, 0.0),
        size: Size { width: px(1.0), height: px(1.0) },
    };
    let marked = selection_rects(&vec![rect(0.0), rect(1.0), rect(2.0)]);
    let ends: Vec<(bool, bool)> =
        marked.iter().map(|rect| (rect.contains_start, rect.contains_end)).collect();
    assert_eq!(ends, vec![(true, false), (false, false), (false, true)]);
}

#[test]
fn menus_show_custom_actions() {
    assert_eq!(edit_menu(SelectionMenuPresentation::SystemAndCustomActions, 0, true), EditMenu::SystemDefault);
    assert_eq!(
        edit_menu(SelectionMenuPresentation::SystemAndCustomActions, 2, true),
        EditMenu::Custom { with_suggested: true }
    );
    assert_eq!(edit_menu(SelectionMenuPresentation::CustomActionsOnly, 2, true), EditMenu::Custom { with_suggested: false });
    assert_eq!(handler_slot(TEXT_INTERACTION_EDITABLE, true, true), Some(HandlerSlot::Input));
    assert_eq!(
        handler_slot(TEXT_INTERACTION_NONEDITABLE, true, true),
        Some(HandlerSlot::Selection)
    );
}

#[test]
fn callbacks_talk_to_the_handler_of_the_mode() {
    let mut handlers = CallbackHandlers { input: Some(1), selection: Some(10) };
    let bump = |handler: i32| (handler + 1, handler);
    assert_eq!(handlers.with_input_handler(TEXT_INTERACTION_NONEDITABLE, bump), Some(10));
    assert_eq!(handlers.with_input_handler(TEXT_INTERACTION_EDITABLE, bump), Some(1));
    assert_eq!(handlers.with_input_handler(TEXT_INTERACTION_NONE, bump), Some(2));
    assert_eq!((handlers.input, handlers.selection), (Some(3), Some(11)));
    handlers.input = None;
    assert_eq!(handlers.with_input_handler(TEXT_INTERACTION_NONE, bump), Some(11));
    assert_eq!(handlers.with_input_handler(TEXT_INTERACTION_EDITABLE, bump), None);
}

#[test]
fn the_first_finger_presses_and_releases() {
    let mut tracker = TouchTracker::new();
    let modifiers = Modifiers::default();
    let down = tracker.handle_touch(sample(1, UITouchPhase::Began, 3.0, 1.0), nothing_selected(), modifiers);
    assert!(matches!(down, TouchStep::Press(PlatformInput::PointerDown(_))));
    let second =
        tracker.handle_touch(sample(2, UITouchPhase::Began, 9.0, 1.0), nothing_selected(), modifiers);
    assert_eq!(second, TouchStep::Ignore);
    let moved = tracker.handle_touch(sample(1, UITouchPhase::Moved, 4.0, 1.1), nothing_selected(), modifiers);
    assert!(matches!(moved, TouchStep::Move(PlatformInput::PointerMove(_))));
    let again = tracker.handle_touch(sample(1, UITouchPhase::Moved, 4.0, 1.1), nothing_selected(), modifiers);
    assert_eq!(again, TouchStep::Ignore);
    let scroll = tracker.after_move(point(1.0, 0.0), modifiers, false);
    assert!(matches!(scroll, Some(PlatformInput::ScrollWheel(_))));
    let up = tracker.handle_touch(sample(1, UITouchPhase::Ended, 4.0, 1.2), nothing_selected(), modifiers);
    assert!(matches!(up, TouchStep::Release(PlatformInput::PointerUp(_))));
    assert_eq!(tracker.primary_touch, None);
}

#[test]
fn a_touch_outside_dismisses_the_selection() {
    let mut tracker = TouchTracker::new();
    let modifiers = Modifiers::default();
    let around = TouchSurroundings { had_selection: true, hit_text: false, hit_selection_area: false };
    let step = tracker.handle_touch(sample(1, UITouchPhase::Began, 3.0, 1.0), around, modifiers);
    assert_eq!(step, TouchStep::DismissSelection);
    let moved = tracker.handle_touch(sample(1, UITouchPhase::Moved, 4.0, 1.1), around, modifiers);
    assert_eq!(moved, TouchStep::Ignore);
    let up = tracker.handle_touch(sample(1, UITouchPhase::Ended, 4.0, 1.2), around, modifiers);
    assert_eq!(up, TouchStep::Ignore);
}

#[test]
fn touch_phases_come_from_numbers() {
    assert_eq!(UITouchPhase::from(0), UITouchPhase::Began);
    assert_eq!(UITouchPhase::from(3), UITouchPhase::Ended);
    assert_eq!(UITouchPhase::from(99), UITouchPhase::Cancelled);
    assert_eq!(TouchPhase::from(UITouchPhase::Moved), TouchPhase::Moved);
    match pan_gesture_to_scroll(point(1.0, 2.0), point(3.0, 4.0), Modifiers::default(), TouchPhase::Ended) {
        PlatformInput::ScrollWheel(event) => {
            assert_eq!(event.delta, point(3.0, 4.0));
            assert_eq!(event.touch_phase, TouchPhase::Ended);
        }
        other => panic!("{other:?}"),
    }
}

fn handler(accepts_text_input: bool) -> InputHandlerTraits {
    InputHandlerTraits {
        accepts_text_input,
        uses_manual_focus: false,
        native_selection_enabled: false,
        keyboard_accessory_enabled: true,
        text_input_traits: PlatformTextInputTraits::keyboard_suggestions(),
    }
}

#[test]
fn a_keyboard_session_lasts_as_long_as_its_handler() {
    let traits = PlatformTextInputTraits::keyboard_suggestions();
    let mut session = TextInputSession::new(traits);
    let early = session.show_soft_keyboard(false);
    assert_eq!(early.responder_action, TextInputResponderAction::NoAction);
    let installed = session.set_input_handler(handler(true), false, false);
    assert_eq!(installed.responder_action, TextInputResponderAction::ShowKeyboard);
    assert!(session.has_active_keyboard_accessory() && session.handle_keyboard_accessory_action());
    assert!(session.handle_key_bar_action() && session.handle_key_bar_text());
    assert_eq!(session.target_interaction_mode, TEXT_INTERACTION_EDITABLE);
    let swap = session.sync_text_interaction(true).unwrap();
    assert_eq!((swap.removed, swap.added), (TEXT_INTERACTION_NONE, TEXT_INTERACTION_EDITABLE));
    assert!(session.sync_text_interaction(true).is_none());
    let cleared = session.clear_input_handler(traits, true);
    assert_eq!(cleared.responder_action, TextInputResponderAction::ResignActiveResponder);
    assert!(!session.keyboard_session_requested);
}

#[test]
fn cached_geometry_is_forgotten_with_the_selection() {
    let mut cache = SelectionCache { geometry: None };
    cache.cache_active_selection_range(2..5);
    assert_eq!(cache.geometry.as_ref().map(|geometry| geometry.range.clone()), Some(2..5));
    cache.clear_active_text_selection(true);
    assert!(cache.geometry.is_none());
}

#[test]
fn painted_selections_are_compared_as_numbers() {
    let painted = |x: f32| SelectionGeometry {
        range: 1..2,
        bounds: Some(Bounds { origin: point(x, 0.0), size: Size { width: px(1.0), height: px(1.0) } }),
        rects: vec![],
    };
    let mut cache = SelectionCache { geometry: None };
    assert!(cache.refresh_selection_geometry(true, Some(painted(0.0))));
    assert!(!cache.refresh_selection_geometry(true, Some(painted(-0.0))));
    assert_eq!(cache.geometry, Some(painted(0.0)));
    assert!(cache.refresh_selection_geometry(true, Some(painted(f32::NAN))));
    assert!(cache.refresh_selection_geometry(true, Some(painted(f32::NAN))));
    cache.cache_active_selection_geometry(painted(2.0));
    assert_eq!(cache.geometry, Some(painted(2.0)));
}

#[test]
fn windows_are_listed_in_order() {
    let mut state: IosAppState<u8> = IosAppState::new();
    state.register_window(1);
    assert_eq!(state.get_window(), None);
    assert!(state.initialize());
    assert!(!state.initialize());
    for window in [1, 2, 3] {
        state.register_window(window);
    }
    state.unregister_window(3);
    assert_eq!(state.get_window(), Some(2));
    let config = EmbeddedWindowConfig { parent_view: 8, size: point(10.0, 20.0) };
    state.set_next_embedded_parent(config);
    assert_eq!(state.take_pending_embedded_window(), Some(config));
    assert_eq!(state.take_pending_embedded_window(), None);
    state.set_finish_launching_callback(7);
    assert_eq!(state.did_finish_launching(), Some(7));
    assert_eq!(state.did_finish_launching(), None);
}

#[test]
fn hosts_inject_scrolls_and_keyboards() {
    assert_eq!(injected_phase(2), TouchPhase::Ended);
    assert_eq!(injected_phase(0), TouchPhase::Moved);
    let mut keyboard = SoftwareKeyboard { visible: false };
    set_software_keyboard_visible(&mut keyboard, true);
    assert!(software_keyboard_visible(&keyboard));
}

#[test]
fn gestures_become_touches() {
    let inputs = process_devtool_gestures(&vec![
        GestureEvent::Down(px(1.0), px(2.0)),
        GestureEvent::Move(px(3.0), px(2.0)),
        GestureEvent::Up(px(3.0), px(2.0)),
    ]);
    match &inputs[0] {
        PlatformInput::PointerDown(event) => {
            assert_eq!(event.pointer_id, 999);
            assert_eq!(event.position, point(1.0, 2.0));
        }
        other => panic!("{other:?}"),
    }
    assert!(matches!(inputs[1], PlatformInput::PointerMove(_)));
    assert!(matches!(inputs[2], PlatformInput::PointerUp(_)));
}

#[test]
fn picked_files_are_answered_once() {
    let mut picker = FilePickerState::new();
    picker.prompt_for_paths(1, true);
    picker.prompt_for_paths(2, false);
    assert_eq!(picker.finish(), Some(2));
    assert_eq!(picker.finish(), None);
    let paths = vec![String::new(), "/a".to_string(), String::new(), "/b".to_string()];
    assert_eq!(picked_paths(paths), Some(vec!["/a".to_string(), "/b".to_string()]));
    assert_eq!(picked_paths(vec![String::new()]), None);
    assert_eq!(save_name(None), "Untitled");
    assert_eq!(save_name(Some("x")), "x");
    assert_eq!(FilePickerState::presentation_error(false, true), Some(PickerError::NoKeyWindow));
    assert_eq!(
        FilePickerState::presentation_error(true, false),
        Some(PickerError::NoRootViewController)
    );
    assert_eq!(FilePickerState::presentation_error(true, true), None);
}

#[test]
fn keyboards_have_layouts() {
    assert_eq!((IosKeyboardLayout.id(), IosKeyboardLayout.name()), ("ios", "iOS"));
    let layout = AndroidKeyboardLayout::new("default".to_string());
    assert_eq!((layout.id(), layout.name()), ("default", "default"));
    let stroke = || Keystroke { modifiers: Modifiers::default(), key: "a".to_string(), key_char: None };
    assert_eq!(IosKeyboardMapper.map_key_equivalent(stroke(), true), stroke());
}

#[test]
fn key_names_are_told_apart() {
    let mut names: Vec<String> = (0..0x2000).map(key_code_to_string).collect();
    names.push(key_code_to_string(u32::MAX));
    assert!(names.iter().all(|name| !name.is_empty()));
    names.sort();
    names.dedup();
    assert_eq!(names.len(), 0x2001);
}

#[test]
fn selection_handlers_answer_callbacks_between_frames() {
    let mut session = TextInputSession::new(PlatformTextInputTraits::keyboard_suggestions());
    assert!(!session.take_selection_handler());
    session.set_selection_handler(true, false);
    let mode = session.target_interaction_mode;
    assert!(session.take_selection_handler());
    assert!(!session.has_selection_handler && session.has_callback_selection_handler);
    assert_eq!(session.target_interaction_mode, mode);
    assert!(!session.take_selection_handler());
}

#[test]
fn selection_menus_come_from_the_handler() {
    let actions = vec![("Look".to_string(), Some("eye".to_string())), ("Share".to_string(), None)];
    assert_eq!(
        selection_action_presentations(TEXT_INTERACTION_NONEDITABLE, false, Some(actions.clone())),
        actions
    );
    assert!(selection_action_presentations(TEXT_INTERACTION_EDITABLE, false, Some(actions)).is_empty());
    assert!(selection_action_presentations(TEXT_INTERACTION_EDITABLE, true, None).is_empty());
    let custom = SelectionMenuPresentation::CustomActionsOnly;
    let system = SelectionMenuPresentation::SystemAndCustomActions;
    assert_eq!(selection_menu_presentation(TEXT_INTERACTION_EDITABLE, true, Some(custom)), custom);
    assert_eq!(selection_menu_presentation(TEXT_INTERACTION_NONE, true, Some(custom)), system);
    assert_eq!(selection_menu_presentation(TEXT_INTERACTION_NONEDITABLE, false, None), system);
    assert_eq!(perform_selection_menu_action(true, TEXT_INTERACTION_NONEDITABLE, false, 3), Some(3));
    assert_eq!(perform_selection_menu_action(false, TEXT_INTERACTION_NONEDITABLE, false, 3), None);
    assert_eq!(perform_selection_menu_action(true, TEXT_INTERACTION_EDITABLE, false, 3), None);
}

#[test]
fn only_selected_text_is_copied() {
    let selected = |range| Some(UTF16Selection { range, reversed: false });
    assert_eq!(copied_range(selected(2..5)), Some(2..5));
    assert_eq!(copied_range(selected(2..2)), None);
    assert_eq!(copied_range(None), None);
    assert_eq!(copied_text(Some("text".to_string())), Some("text".to_string()));
    assert_eq!(copied_text(Some("te\0xt".to_string())), None);
    assert_eq!(copied_text(None), None);
}

#[test]
fn selection_rectangles_follow_the_effective_range() {
    let mode = TEXT_INTERACTION_NONEDITABLE;
    assert_eq!(selection_rects_range(mode, false, Some(1..4), None, None), Some(1..4));
    assert_eq!(selection_rects_range(mode, false, Some(1..4), Some(0..6), None), Some(0..6));
    assert_eq!(selection_rects_range(mode, false, Some(1..1), None, Some(1..9)), Some(1..9));
    assert_eq!(selection_rects_range(mode, false, Some(1..1), None, None), None);
    assert_eq!(selection_rects_range(mode, false, None, None, Some(1..9)), None);
    assert_eq!(selection_rects_range(TEXT_INTERACTION_EDITABLE, false, Some(1..4), None, None), None);

    let place = Bounds { origin: point(1.0, 0.0), size: Size { width: px(1.0), height: px(1.0) } };
    let mut cache = SelectionCache { geometry: None };
    assert!(selection_rects_for_range(&mut cache, 1..4, Some(place), vec![]).is_empty());
    assert!(cache.geometry.is_none());
    let marked = selection_rects_for_range(&mut cache, 1..4, Some(place), vec![place]);
    assert_eq!((marked[0].bounds, marked[0].contains_start, marked[0].contains_end), (place, true, true));
    let painted = SelectionGeometry { range: 1..4, bounds: Some(place), rects: vec![place] };
    assert_eq!(cache.geometry, Some(painted));
}
