//! Windows, touches, keys and surfaces on Android, and the server without a JSON library.
use gpui_mobile::android_keys::{
    android_keycode_to_keystroke, dispatch_text_input_key, ime_key_events, key_report, KeyReport,
    TextInputKey, KEYCODE_DEL, KEYCODE_DPAD_LEFT, KEYCODE_ENTER, KEYCODE_SPACE, KEYCODE_TAB,
};
use gpui_mobile::android_surface::{
    input_target, is_font_file, next_loop_step, request_frames, retain_living, surface_launch,
    worker_count, ContextSlot, ContextStep, DrawStep, LoopStep, SurfaceChange, SurfaceCreation,
    SurfaceLaunch, SurfaceState, WindowBackgroundAppearance, WindowSlot,
};
use gpui_mobile::android_tap::{TapMotion, TapState, ACTION_CANCEL, ACTION_DOWN, ACTION_MOVE, ACTION_UP};
use gpui_mobile::android_touch::{extended_selection, AndroidTouchStep, TouchMotion, TouchState};
use gpui_mobile::android_window::{
    active_selection_snapshot, ActiveSelectionSource, AndroidWindowRole, AndroidWindowState, ComposingAction,
    SnapshotValue, TextInsertion,
};
use gpui_mobile::app_state::{
    create_platform, keyboard_height, reported_count, reported_index, requested_action,
    requested_range, selection_handle, system_inset_bottom, system_inset_top, with_platform, AppState,
    ScreenMetrics,
};
use gpui_mobile::devtool::{Entry, Snapshot};
use gpui_mobile::geometry::{Bounds, Pixels, Point, Size};
use gpui_mobile::http::{RequestHead, Status};
use gpui_mobile::input::{ElementInputHandler, EntityInputHandler};
use gpui_mobile::ios_policy::{
    PlatformTextInputTrait, PlatformTextInputTraits, SelectionMenuPresentation,
};
use gpui_mobile::platform_input::{PlatformInput, TouchPhase};
use gpui_mobile::selection_handler::UTF16Selection;
use gpui_mobile::selection_range::LayoutRect;
use gpui_mobile::tap_server::{
    elements_text, handle_tap, handle_tap_xy, json_escape, parse_number_text, parse_string_field,
    plain_reply, read_tap, tap_at, tap_error_reply, tap_reply, tap_route, tapped_body, BoundsDigits,
    PendingTap, TapError, TapPlace, TapPoint, TapQueue, TapRoute,
};
use std::cell::Cell;
use std::ops::Range;
use std::rc::Rc;

fn px(value: f32) -> Pixels {
    Pixels { bits: value.to_bits() }
}

fn point(x: f32, y: f32) -> Point {
    Point { x: px(x), y: px(y) }
}

fn still() -> TapMotion {
    TapMotion { beyond_slop: false, delta: point(0.0, 0.0) }
}

#[test]
fn taps_are_clicks() {
    let mut state = TapState::new();
    assert!(state.handle_touch(ACTION_DOWN, point(1.0, 1.0), still()).is_empty());
    assert!(state.handle_touch(ACTION_MOVE, point(1.5, 1.0), still()).is_empty());
    let events = state.handle_touch(ACTION_UP, point(1.5, 1.0), still());
    assert!(matches!(events[..], [PlatformInput::MouseDown(_), PlatformInput::MouseUp(_)]));
    assert_eq!(state, TapState::new());
}

#[test]
fn drags_scroll() {
    let mut state = TapState::new();
    state.handle_touch(ACTION_DOWN, point(0.0, 0.0), still());
    let motion = TapMotion { beyond_slop: true, delta: point(9.0, 0.0) };
    match &state.handle_touch(ACTION_MOVE, point(9.0, 0.0), motion)[..] {
        [PlatformInput::ScrollWheel(event)] => {
            assert_eq!(event.delta, point(9.0, 0.0));
            assert_eq!(event.touch_phase, TouchPhase::Moved);
        }
        other => panic!("{other:?}"),
    }
    let events = state.handle_touch(ACTION_UP, point(9.0, 0.0), still());
    assert!(matches!(events[..], [PlatformInput::ScrollWheel(_), PlatformInput::MouseUp(_)]));
    assert!(state.handle_touch(ACTION_CANCEL, point(9.0, 0.0), still()).is_empty());
    assert!(state.handle_touch(77, point(9.0, 0.0), still()).is_empty());
}

#[test]
fn flings_slow_down_and_end() {
    let mut state = TapState::new();
    state.handle_touch(ACTION_DOWN, point(4.0, 4.0), still());
    state.handle_fling(point(10.0, 0.0), false, 1);
    assert!(!state.has_active_fling());
    state.handle_fling(point(100.0, 0.0), true, 1);
    assert!(state.has_active_fling());
    let moved = state.process_fling(point(90.0, 0.0), false, point(1.5, 0.0), 2);
    match moved {
        Some(PlatformInput::ScrollWheel(event)) => {
            assert_eq!((event.position, event.delta), (point(4.0, 4.0), point(1.5, 0.0)));
        }
        other => panic!("{other:?}"),
    }
    let ended = state.process_fling(point(1.0, 0.0), true, point(0.0, 0.0), 3);
    assert!(matches!(ended, Some(PlatformInput::ScrollWheel(event)) if event.touch_phase == TouchPhase::Ended));
    assert!(!state.has_active_fling());
    assert_eq!(state.process_fling(point(1.0, 0.0), true, point(0.0, 0.0), 4), None);
}

#[test]
fn long_presses_extend_the_selection() {
    let motion = TouchMotion { beyond_tap_slop: true, delta: point(3.0, 0.0) };
    let mut state = TouchState::new();
    state.handle_touch(ACTION_DOWN, point(0.0, 0.0), motion);
    assert!(!state.handle_long_press(false, Some(4)));
    assert!(state.handle_long_press(true, Some(4)));
    match state.handle_touch(ACTION_MOVE, point(3.0, 0.0), motion) {
        AndroidTouchStep::ExtendSelection(anchor, _) => assert_eq!(anchor, Some(4)),
        other => panic!("{other:?}"),
    }
    assert_eq!(extended_selection(4, 1), 1..4);
    assert_eq!(extended_selection(4, 9), 4..9);
    state.handle_touch(ACTION_UP, point(3.0, 0.0), motion);
    assert!(!state.long_press_active);
}

#[test]
fn moves_scroll_unless_prevented() {
    let motion = TouchMotion { beyond_tap_slop: true, delta: point(3.0, 0.0) };
    let mut state = TouchState::new();
    state.handle_touch(ACTION_DOWN, point(0.0, 0.0), motion);
    match state.handle_touch(ACTION_MOVE, point(3.0, 0.0), motion) {
        AndroidTouchStep::Move(_, delta) => {
            assert!(state.after_move(point(3.0, 0.0), delta, false).is_some());
            assert!(state.after_move(point(3.0, 0.0), delta, true).is_none());
            assert!(state.after_move(point(3.0, 0.0), delta, false).is_none());
        }
        other => panic!("{other:?}"),
    }
}

#[test]
fn selections_start_where_something_is_selectable() {
    let mut window = AndroidWindowState::new(AndroidWindowRole::Root, 0, true);
    window.set_selection_handler();
    assert_eq!(window.start_selection_at(false, None, false, Some(3)), None);
    assert_eq!(window.start_selection_at(false, None, true, Some(3)), Some(3));
    assert_eq!(window.active_selection_handler(), Some(ActiveSelectionSource::ReadOnly));
    window.clear_active_selection(false);
    assert_eq!(window.active_selection_handler(), None);
    assert!(!window.set_active(true));
    assert!(window.set_active(false));
}

fn selecting_window() -> AndroidWindowState {
    let mut window = AndroidWindowState::new(AndroidWindowRole::Root, 0, true);
    window.set_selection_handler();
    window.start_selection_at(false, None, true, Some(3));
    window
}

#[test]
fn updates_of_a_selection_are_news() {
    let window = selecting_window();
    let source = ActiveSelectionSource::ReadOnly;
    assert_eq!(window.update_active_selection(5, 2, None, None, true), Some((source, 2..5)));
    assert_eq!(window.update_active_selection(5, 2, None, Some(2..5), true), None);
    assert_eq!(window.update_active_selection(2, 2, None, Some(2..5), true), None);
    assert_eq!(
        window.update_active_selection(2, 5, Some(1..6), Some(2..5), false),
        Some((source, 1..6))
    );
    assert_eq!(window.update_active_selection(2, 5, None, Some(0..0), false), None);
    let idle = AndroidWindowState::new(AndroidWindowRole::EmbeddedSheet, 4, true);
    assert_eq!(idle.update_active_selection(5, 2, None, None, true), None);
    assert_eq!((idle.role(), idle.window_handle()), (AndroidWindowRole::EmbeddedSheet, 4));
}

#[test]
fn actions_belong_to_the_active_selection() {
    let mut window = selecting_window();
    let names = vec!["Copy".to_string(), "Share".to_string()];
    assert_eq!(window.selection_action_count(&names), 2);
    assert_eq!(window.selection_action_title(&names, 1), Some(&"Share".to_string()));
    assert_eq!(window.selection_action_title(&names, 2), None);
    assert_eq!(window.perform_selection_action(2, 1), Some(ActiveSelectionSource::ReadOnly));
    assert_eq!(window.perform_selection_action(2, 2), None);
    assert!(window.selection_custom_actions_only(SelectionMenuPresentation::CustomActionsOnly));
    assert!(!window.selection_custom_actions_only(SelectionMenuPresentation::SystemAndCustomActions));
    assert_eq!(window.clear_active_selection(true), Some(ActiveSelectionSource::ReadOnly));
    assert_eq!(window.clear_active_selection(true), None);
    assert_eq!(window.selection_action_count(&names), 0);
    assert_eq!(window.selection_action_title(&names, 1), None);
}

#[test]
fn composing_places_the_caret() {
    let mut window = AndroidWindowState::new(AndroidWindowRole::Root, 0, true);
    assert_eq!(window.set_composing_text(true, "abc", 1), None);
    window.set_input_handler(true, true, false);
    assert_eq!(window.set_composing_text(false, "abc", 1), None);
    assert_eq!(window.set_composing_text(true, "", 1), Some(ComposingAction::Unmark));
    assert_eq!(window.set_composing_text(true, "héé", 1), Some(ComposingAction::Mark(3)));
    assert_eq!(window.set_composing_text(true, "abc", 0), Some(ComposingAction::Mark(0)));
    assert_eq!(window.set_composing_text(true, "abc", -2), Some(ComposingAction::Mark(2)));
    assert_eq!(window.set_composing_text(true, "abc", i32::MIN), Some(ComposingAction::Mark(3)));
    assert_eq!(window.insert_text(true, false), TextInsertion { handled: true, inserts: false });
    assert_eq!(window.insert_text(false, true), TextInsertion { handled: false, inserts: false });
    assert_eq!((window.delete_backward(2, true), window.delete_backward(2, false)), (2, 0));
    assert!(window.finish_composing_text(true) && !window.finish_composing_text(false));
    assert!(window.handle_keyboard_accessory_action(true, true));
    assert!(window.has_active_keyboard_accessory(true, true));
    window.take_input_handler();
    assert!(!window.handle_keyboard_accessory_action(true, true));
    assert!(window.has_active_keyboard_accessory(false, false));
}

#[test]
fn snapshots_list_the_range_and_rectangles() {
    let selection = Some(UTF16Selection { range: 2..5, reversed: false });
    let rect = LayoutRect {
        bounds: Bounds { origin: point(1.0, 2.0), size: Size { width: px(3.0), height: px(4.0) } },
        right: px(4.0),
    };
    let snapshot = active_selection_snapshot(&selection, &vec![rect]).unwrap();
    assert_eq!(snapshot[0], SnapshotValue::Count(2));
    assert_eq!(snapshot[1], SnapshotValue::Count(5));
    assert_eq!(active_selection_snapshot(&None, &vec![]), None);
}

#[test]
fn keys_type_text() {
    assert_eq!(dispatch_text_input_key(KEYCODE_DEL, 0), TextInputKey::DeleteBackward(1));
    assert_eq!(dispatch_text_input_key(KEYCODE_ENTER, 10), TextInputKey::Insert("\n".to_string()));
    assert_eq!(dispatch_text_input_key(KEYCODE_TAB, 0), TextInputKey::Insert("\t".to_string()));
    assert_eq!(dispatch_text_input_key(29, 'A' as i32), TextInputKey::Insert("A".to_string()));
    assert_eq!(dispatch_text_input_key(29, 0), TextInputKey::NotText);
    assert_eq!(dispatch_text_input_key(29, -5), TextInputKey::NotText);
    assert_eq!(dispatch_text_input_key(29, 0xD800), TextInputKey::NotText);
    assert_eq!(key_report(1, 29, 97), KeyReport::Ignore);
    assert_eq!(key_report(0, 29, 97), KeyReport::Try(TextInputKey::Insert("a".to_string())));
}

#[test]
fn keys_are_keystrokes() {
    let stroke = android_keycode_to_keystroke(29, 'É' as i32).unwrap();
    assert_eq!((stroke.key.as_str(), stroke.key_char.as_deref()), ("é", Some("É")));
    let space = android_keycode_to_keystroke(KEYCODE_SPACE, 32).unwrap();
    assert_eq!((space.key.as_str(), space.key_char.as_deref()), ("space", Some(" ")));
    let left = android_keycode_to_keystroke(KEYCODE_DPAD_LEFT, 0).unwrap();
    assert_eq!((left.key.as_str(), left.key_char), ("left", None));
    assert_eq!(android_keycode_to_keystroke(29, 0), None);
    let dotted = android_keycode_to_keystroke(29, 'İ' as i32).unwrap();
    assert_eq!(dotted.key, "i\u{307}");
}

#[test]
fn input_methods_type_characters() {
    let events = ime_key_events("Aß");
    let keys: Vec<(&str, Option<&str>, bool)> = events
        .iter()
        .map(|event| {
            let stroke = &event.keystroke;
            (stroke.key.as_str(), stroke.key_char.as_deref(), event.prefer_character_input)
        })
        .collect();
    assert_eq!(keys, vec![("a", Some("A"), true), ("ß", Some("ß"), true)]);
}

#[test]
fn surfaces_come_and_go() {
    let mut state = SurfaceState::new();
    assert_eq!(state.draw(false), DrawStep::Skip);
    assert_eq!(state.creation(false), SurfaceCreation::CreateRenderer { share_atlas: false });
    state.handle_surface_created();
    assert_eq!(state.draw(false), DrawStep::Draw);
    assert_eq!(state.draw(true), DrawStep::RecoverAndDraw);
    assert_eq!(
        state.handle_surface_changed(true),
        SurfaceChange { update_renderer: true, notify: true }
    );
    assert!(state.handle_surface_destroyed());
    assert_eq!(state.draw(true), DrawStep::Skip);
    assert_eq!(state.creation(true), SurfaceCreation::ReplaceSurface);
    assert_eq!(state.creation(false), SurfaceCreation::Fail);
    state.drop_surface();
    assert_eq!(state.creation(false), SurfaceCreation::CreateRenderer { share_atlas: true });
    assert_eq!(
        state.handle_surface_rebuilt(true, true),
        SurfaceChange { update_renderer: false, notify: true }
    );
    assert!(WindowBackgroundAppearance::Blurred.is_transparent());
    assert!(!WindowBackgroundAppearance::Opaque.is_transparent());
}

#[test]
fn contexts_are_tried_twice() {
    let mut slot = ContextSlot::new();
    assert_eq!(slot.ensure_context(), ContextStep::Create);
    assert_eq!(slot.created(None, false), ContextStep::CreateLeniently);
    assert_eq!(slot.created(None, true), ContextStep::Fail);
    assert_eq!(slot.created(Some(5), true), ContextStep::Use(5));
    assert_eq!(slot.ensure_context(), ContextStep::Use(5));
}

#[test]
fn living_windows_are_drawn() {
    let slot = |handle: u64, alive: bool, has_callback: bool| WindowSlot { handle, alive, has_callback };
    let mut windows = vec![slot(1, true, true), slot(2, false, true), slot(3, true, false), slot(4, true, true)];
    assert_eq!(request_frames(&windows), vec![1, 4]);
    assert_eq!(input_target(&windows), Some(4));
    retain_living(&mut windows);
    assert_eq!(windows.len(), 3);
    assert_eq!(input_target(&vec![slot(1, true, true), slot(2, false, true)]), None);
}

#[test]
fn launching_waits_for_a_surface() {
    let nothing = SurfaceLaunch { finish_launching: false, resize: false, force_frame: false };
    assert_eq!(surface_launch(None, true), nothing);
    assert_eq!(surface_launch(Some(false), true), nothing);
    assert_eq!(
        surface_launch(Some(true), true),
        SurfaceLaunch { finish_launching: true, resize: true, force_frame: true }
    );
    assert_eq!(next_loop_step(true, None), LoopStep::Stop);
    assert_eq!(next_loop_step(false, None), LoopStep::Poll);
    assert_eq!(next_loop_step(true, Some(true)), LoopStep::RunTasks);
    assert_eq!(next_loop_step(false, Some(false)), LoopStep::Stop);
    assert!(is_font_file(Some("otf")) && !is_font_file(Some("TTF")) && !is_font_file(None));
    assert_eq!((worker_count(None), worker_count(Some(1)), worker_count(Some(8))), (2, 2, 8));
}

#[test]
fn hosts_store_what_the_platform_is_made_of() {
    let mut state: AppState<u8, u8, u32, u8> = AppState::new();
    state.set_platform(1);
    assert_eq!(state.platform, None);
    state.store_jvm_and_activity(3, 4);
    let mut metrics = ScreenMetrics::new();
    metrics.set_display_scale(2.5f32.to_bits());
    let mut given = None;
    let platform = create_platform(
        &mut state,
        &metrics,
        |machine, activity| u32::from(machine) * 10 + u32::from(activity),
        |platform, scale| given = Some((*platform, f32::from_bits(scale))),
    );
    assert_eq!(platform, 34);
    assert_eq!(given, Some((34, 2.5)));
    assert_eq!(with_platform(&state, |platform| platform + 1), Some(35));
    assert_eq!(state.take_jvm_and_activity(), None);
    state.set_finish_launching_callback(9);
    assert_eq!(state.take_finish_launching_callback(), Some(9));
    assert_eq!(state.take_finish_launching_callback(), None);
    state.clear_platform();
    assert_eq!(with_platform(&state, |platform| platform + 1), None);
}

#[test]
fn hosts_share_the_platform() {
    let mut state: AppState<u8, u8, Rc<Cell<u32>>, u8> = AppState::new();
    state.store_jvm_and_activity(3, 4);
    let platform = create_platform(
        &mut state,
        &ScreenMetrics::new(),
        |_, _| Rc::new(Cell::new(0)),
        |platform, scale| platform.set(scale),
    );
    assert_eq!(platform.get(), 3.0f32.to_bits());
    assert!(Rc::ptr_eq(&platform, state.platform.as_ref().unwrap()));
}

#[test]
fn hosts_report_numbers() {
    let mut metrics = ScreenMetrics::new();
    assert_eq!(f32::from_bits(metrics.display_scale_bits()), 3.0);
    metrics.set_display_scale(2.5f32.to_bits());
    assert_eq!(f32::from_bits(metrics.display_scale_bits()), 2.5);
    metrics.set_keyboard_height(-3);
    metrics.set_system_insets(20, -1);
    assert_eq!(keyboard_height(&metrics), 0);
    assert_eq!((system_inset_top(&metrics), system_inset_bottom(&metrics)), (20, 0));
    assert_eq!((selection_handle(-4), selection_handle(7)), (0, 7));
    assert_eq!((reported_index(None), reported_index(Some(5))), (-1, 5));
    assert_eq!((reported_count(3), reported_count(usize::MAX)), (3, i32::MAX));
    assert_eq!((requested_range(-1, 2), requested_range(1, 2)), (None, Some((1, 2))));
    assert_eq!((requested_action(-1), requested_action(0)), (None, Some(0)));
}

#[test]
fn flat_bodies_are_searched_for_fields() {
    assert_eq!(parse_string_field("{\"element_id\": \"a/b\"}", "element_id"), Some("a/b".to_string()));
    assert_eq!(parse_string_field("{\"element_id\":7}", "element_id"), None);
    assert_eq!(parse_string_field("{\"element_id\":\"open", "element_id"), None);
    assert_eq!(parse_string_field("{}", "element_id"), None);
    assert_eq!(parse_number_text("{\"x\": 1.5,\"y\":2}", "x"), Some("1.5".to_string()));
    assert_eq!(parse_number_text("{\"x\": 1.5,\"y\":2}", "y"), Some("2".to_string()));
    assert_eq!(parse_number_text("{\"x\"}", "x"), None);
    assert_eq!(read_tap(b"{\"element_id\":\"a\"}"), Ok("a".to_string()));
    assert_eq!(read_tap(b"{}"), Err(TapError::ElementIdRequired));
    assert_eq!(read_tap(&[0xff]), Err(TapError::NotText));
    assert_eq!(handle_tap_xy(b"{\"x\":1,\"y\":2}"), Ok(("1".to_string(), "2".to_string())));
    assert_eq!(handle_tap_xy(b"{\"x\":1}"), Err(TapError::CoordinatesRequired));
    assert_eq!(handle_tap_xy(&[0xc0]), Err(TapError::NotText));
}

#[test]
fn tap_requests_are_routed() {
    let route = |line: &str| tap_route(&RequestHead::new(line));
    assert_eq!(route("GET /ping HTTP/1.1\r\n"), TapRoute::Ping);
    assert_eq!(route("GET /elements HTTP/1.1\r\n"), TapRoute::Elements);
    assert_eq!(route("POST /tap HTTP/1.1\r\n"), TapRoute::Tap);
    assert_eq!(route("POST /tap_xy HTTP/1.1\r\n"), TapRoute::TapXy);
    assert_eq!(route("GET /tap HTTP/1.1\r\n"), TapRoute::Unknown);
    assert_eq!(plain_reply(TapRoute::Ping), Some((Status::Success, "{\"ok\":true}".to_string())));
    assert_eq!(plain_reply(TapRoute::Unknown), Some((Status::NotFound, "{\"ok\":false}".to_string())));
    assert_eq!(plain_reply(TapRoute::Tap), None);
}

fn tap_snapshot() -> (Snapshot, Vec<TapPlace>) {
    let entry = |path: &str, instance_id: usize| Entry {
        path: path.to_string(),
        instance_id,
        x: px(0.0),
        y: px(0.0),
        width: px(10.0),
        height: px(10.0),
    };
    let place = |area: f32, center: f32| TapPlace {
        area: px(area),
        center_x: px(center),
        center_y: px(center + 1.0),
        x_digits: format!("{center:.2}"),
        y_digits: format!("{:.2}", center + 1.0),
    };
    (
        Snapshot { frame_id: 8, entries: vec![entry("a/b", 0), entry("c/b", 1), entry("d", 2)] },
        vec![place(9.0, 1.0), place(4.0, 2.0), place(1.0, 3.0)],
    )
}

#[test]
fn taps_on_elements_wait_at_their_centers() {
    let (snapshot, places) = tap_snapshot();
    let mut taps = TapQueue::new();
    assert_eq!(
        handle_tap(&mut taps, b"{\"element_id\":\"b\"}", &snapshot, &places),
        (Status::Success, "{\"ok\":true,\"x\":2.00,\"y\":3.00,\"frame_id\":8}".to_string())
    );
    assert_eq!(taps.taps, vec![PendingTap { x: px(2.0), y: px(3.0) }]);
    assert_eq!(
        handle_tap(&mut taps, b"{\"element_id\":\"a/b\"}", &snapshot, &places).1,
        "{\"ok\":true,\"x\":1.00,\"y\":2.00,\"frame_id\":8}"
    );
    assert_eq!(taps.drain_pending_taps().len(), 2);
}

#[test]
fn taps_on_nothing_wait_for_nothing() {
    let (snapshot, places) = tap_snapshot();
    let mut taps = TapQueue::new();
    assert_eq!(
        handle_tap(&mut taps, b"{\"element_id\":\"x\"}", &snapshot, &places),
        (Status::NotFound, "{\"ok\":false,\"error\":\"element not found\"}".to_string())
    );
    assert_eq!(
        handle_tap(&mut taps, b"{}", &snapshot, &places),
        (Status::BadRequest, "{\"ok\":false,\"error\":\"element_id required\"}".to_string())
    );
    assert_eq!(
        handle_tap(&mut taps, &[0xff], &snapshot, &places),
        (Status::BadRequest, "{\"ok\":false}".to_string())
    );
    assert_eq!(
        tap_at(&mut taps, &None),
        (Status::BadRequest, "{\"ok\":false,\"error\":\"x and y required\"}".to_string())
    );
    assert!(taps.taps.is_empty());
    let point = TapPoint { x: px(1.0), y: px(2.5), x_digits: "1.00".to_string(), y_digits: "2.50".to_string() };
    assert_eq!(
        tap_at(&mut taps, &Some(point)),
        (Status::Success, "{\"ok\":true,\"x\":1.00,\"y\":2.50}".to_string())
    );
    assert_eq!(taps.taps, vec![PendingTap { x: px(1.0), y: px(2.5) }]);
}

#[test]
fn touches_tell_where_the_pointer_is() {
    let motion = TouchMotion { beyond_tap_slop: false, delta: point(0.0, 0.0) };
    let mut state = TouchState::new();
    assert_eq!(state.mouse_position(), point(0.0, 0.0));
    for (at, action) in [ACTION_DOWN, ACTION_MOVE, ACTION_UP, ACTION_CANCEL, 99].into_iter().enumerate() {
        let position = point(at as f32 + 1.0, 4.0);
        state.handle_touch(action, position, motion);
        assert_eq!(state.mouse_position(), position);
    }
}

#[test]
fn taps_are_answered() {
    assert_eq!(
        tap_error_reply(TapError::ElementIdRequired),
        (Status::BadRequest, "{\"ok\":false,\"error\":\"element_id required\"}".to_string())
    );
    assert_eq!(
        tap_reply(Some(("1.00".to_string(), "2.50".to_string())), 8),
        (Status::Success, "{\"ok\":true,\"x\":1.00,\"y\":2.50,\"frame_id\":8}".to_string())
    );
    assert_eq!(
        tap_reply(None, 8),
        (Status::NotFound, "{\"ok\":false,\"error\":\"element not found\"}".to_string())
    );
    assert_eq!(tapped_body("1.00", "2.00", None), "{\"ok\":true,\"x\":1.00,\"y\":2.00}");
    let mut taps = TapQueue::new();
    taps.enqueue_tap(px(1.0), px(2.0));
    assert_eq!(taps.drain_pending_taps(), vec![PendingTap { x: px(1.0), y: px(2.0) }]);
    assert!(taps.drain_pending_taps().is_empty());
}

#[test]
fn elements_are_listed_in_digits() {
    let entry = |path: &str| Entry {
        path: path.to_string(),
        instance_id: 1,
        x: px(0.0),
        y: px(0.0),
        width: px(0.0),
        height: px(0.0),
    };
    let digits = || BoundsDigits {
        x: "1.00".to_string(),
        y: "2.00".to_string(),
        w: "3.00".to_string(),
        h: "4.00".to_string(),
    };
    assert_eq!(json_escape("a\\b\"c"), "a\\\\b\\\"c");
    assert_eq!(
        elements_text(5, &vec![entry("a"), entry("b\"")], &vec![digits(), digits()]),
        "{\"frame_id\":5,\"entries\":[\
         {\"path\":\"a\",\"instance\":1,\"x\":1.00,\"y\":2.00,\"w\":3.00,\"h\":4.00},\
         {\"path\":\"b\\\"\",\"instance\":1,\"x\":1.00,\"y\":2.00,\"w\":3.00,\"h\":4.00}]}"
    );
    assert_eq!(elements_text(0, &vec![], &vec![]), "{\"frame_id\":0,\"entries\":[]}");
}

/// A field of text that takes input.
struct Field {
    text: String,
    tells_end: bool,
}

impl EntityInputHandler for Field {
    fn text_for_range(&mut self, _range: Range<usize>, adjusted_range: &mut Option<Range<usize>>) -> Option<String> {
        if self.tells_end {
            *adjusted_range = Some(40..40);
        }
        Some(self.text.clone())
    }

    fn selected_text_range(&mut self, _ignore_disabled_input: bool) -> Option<UTF16Selection> {
        Some(UTF16Selection { range: 0..0, reversed: false })
    }

    fn marked_text_range(&self) -> Option<Range<usize>> {
        None
    }

    fn unmark_text(&mut self) {}

    fn replace_text_in_range(&mut self, range: Option<Range<usize>>, text: &str) {
        match range {
            Some(range) => self.text.replace_range(range, text),
            None => self.text.push_str(text),
        }
    }

    fn replace_and_mark_text_in_range(
        &mut self,
        range: Option<Range<usize>>,
        new_text: &str,
        _new_selected_range: Option<Range<usize>>,
    ) {
        self.replace_text_in_range(range, new_text);
    }

    fn bounds_for_range(&mut self, _range_utf16: Range<usize>, element_bounds: Bounds) -> Option<Bounds> {
        Some(element_bounds)
    }

    fn character_index_for_point(&mut self, _point: Point) -> Option<usize> {
        Some(1)
    }
}

#[test]
fn views_answer_from_what_they_offer() {
    let mut field = Field { text: "a😀".to_string(), tells_end: false };
    assert_eq!(field.text_len_utf16(), Some(3));
    field.tells_end = true;
    assert_eq!(field.text_len_utf16(), Some(40));
    field.insert_text("b");
    field.insert_dictation_result("c");
    field.replace_range(0..1, "x");
    assert_eq!(field.text, "x😀bc");
    assert!(field.accepts_text_input() && !field.keyboard_accessory());
    assert!(field.should_change_text_in_range(None, "x"));
    assert!(!field.handle_keyboard_accessory_action("done"));
}

#[test]
fn handlers_pass_on_their_place() {
    let place = Bounds { origin: point(1.0, 2.0), size: Size { width: px(3.0), height: px(4.0) } };
    let mut handler = ElementInputHandler::new(place, Field { text: String::new(), tells_end: false });
    assert_eq!(handler.bounds_for_range(0..1), Some(place));
    handler.replace_text_in_range(None, "hi");
    let mut adjusted = None;
    assert_eq!(handler.text_for_range(0..2, &mut adjusted), Some("hi".to_string()));
    assert_eq!(handler.character_index_for_point(point(0.0, 0.0)), Some(1));
}

struct Recorder {
    calls: Vec<String>,
}

impl Recorder {
    fn note(&mut self, call: &str) {
        self.calls.push(call.to_string());
    }
}

impl EntityInputHandler for Recorder {
    fn text_for_range(&mut self, _range: Range<usize>, _adjusted: &mut Option<Range<usize>>) -> Option<String> {
        None
    }

    fn selected_text_range(&mut self, _ignore_disabled_input: bool) -> Option<UTF16Selection> {
        None
    }

    fn marked_text_range(&self) -> Option<Range<usize>> {
        None
    }

    fn unmark_text(&mut self) {}

    fn replace_text_in_range(&mut self, _range: Option<Range<usize>>, _text: &str) {}

    fn replace_and_mark_text_in_range(
        &mut self,
        _range: Option<Range<usize>>,
        _new_text: &str,
        _new_selected_range: Option<Range<usize>>,
    ) {
    }

    fn bounds_for_range(&mut self, _range_utf16: Range<usize>, _element_bounds: Bounds) -> Option<Bounds> {
        None
    }

    fn character_index_for_point(&mut self, _point: Point) -> Option<usize> {
        None
    }

    fn text_len_utf16(&mut self) -> Option<usize> {
        self.note("len");
        Some(12)
    }

    fn set_selected_text_range(&mut self, range: Range<usize>) {
        self.note(&format!("select {range:?}"));
    }

    fn should_change_text_in_range(&mut self, range: Option<Range<usize>>, text: &str) -> bool {
        self.note(&format!("change {range:?} {text}"));
        false
    }

    fn insert_text(&mut self, text: &str) {
        self.note(&format!("insert {text}"));
    }

    fn replace_range(&mut self, range: Range<usize>, text: &str) {
        self.note(&format!("replace {range:?} {text}"));
    }

    fn insert_dictation_result_placeholder(&mut self) {
        self.note("await");
    }

    fn remove_dictation_result_placeholder(&mut self, will_insert_result: bool) {
        self.note(&format!("stop {will_insert_result}"));
    }

    fn insert_dictation_result(&mut self, text: &str) {
        self.note(&format!("dictate {text}"));
    }

    fn dictation_recording_did_end(&mut self) {
        self.note("end");
    }

    fn dictation_recognition_failed(&mut self) {
        self.note("fail");
    }

    fn accepts_text_input(&self) -> bool {
        false
    }

    fn text_input_traits(&self, _default_traits: PlatformTextInputTraits) -> PlatformTextInputTraits {
        PlatformTextInputTraits::keyboard_suggestions()
    }

    fn keyboard_accessory(&self) -> bool {
        true
    }

    fn handle_keyboard_accessory_action(&mut self, action: &str) -> bool {
        self.note(&format!("action {action}"));
        true
    }
}

#[test]
fn handlers_pass_on_what_views_do_themselves() {
    let place = Bounds { origin: point(1.0, 2.0), size: Size { width: px(3.0), height: px(4.0) } };
    let mut handler = ElementInputHandler::new(place, Recorder { calls: vec![] });
    assert_eq!(handler.text_len_utf16(), Some(12));
    handler.set_selected_text_range(1..2);
    assert!(!handler.should_change_text_in_range(Some(0..1), "a"));
    handler.insert_text("b");
    handler.replace_range(2..3, "c");
    handler.insert_dictation_result_placeholder();
    handler.remove_dictation_result_placeholder(true);
    handler.insert_dictation_result("d");
    handler.dictation_recording_did_end();
    handler.dictation_recognition_failed();
    assert!(handler.handle_keyboard_accessory_action("done"));
    assert!(!handler.accepts_text_input() && !handler.prefers_ime_for_printable_keys());
    assert!(handler.keyboard_accessory());
    let suggestions = PlatformTextInputTraits::keyboard_suggestions();
    let mut plain = suggestions;
    plain.inline_prediction = PlatformTextInputTrait::Disabled;
    assert_eq!(handler.text_input_traits(plain), suggestions);
    let calls: Vec<&str> = handler.view.calls.iter().map(|call| call.as_str()).collect();
    assert_eq!(
        calls,
        vec![
            "len", "select 1..2", "change Some(0..1) a", "insert b", "replace 2..3 c", "await", "stop true",
            "dictate d", "end", "fail", "action done",
        ]
    );
    assert_eq!(handler.element_bounds, place);
}
