//! The development server: frames, calls, gestures, requests and answers.
use gpui_mobile::devtool::{
    drain_pending_calls, enqueue_call, has_pending_calls, has_pending_publish, mark_call_result,
    publish, wait_for_call, CallQueue, Entry, Hitbox, InspectorElementId, IntoDevtoolResult, Registry,
    Snapshot,
};
use gpui_mobile::devtool_server::{
    bad_request_reply, call_json, call_request, decide, elements_json, entry_json, failure_json,
    gesture_json, gesture_request, ping_json, plain_reply, reply, report_status, resolve_element, tap_json,
    tap_request, unknown_json, wait_json, wait_limit, wait_step, BadRequest, BoundsValues, Decision,
    GestureReport, Route, WaitStep,
};
use gpui_mobile::element_id::{ElementId, GlobalElementId};
use gpui_mobile::geometry::{Bounds, Pixels, Point, Size};
use gpui_mobile::gesture::{
    drain_gesture_events, enqueue_gesture, plan_gesture, wait_for_gesture, GestureEvent, GestureKind,
    GestureQueue, LONG_PRESS_HOLD_NANOS, PRESS_HOLD_NANOS,
};
use gpui_mobile::http::{frame_response, parse_size, RequestHead, Status};
use gpui_mobile::sequence::{sequence_request, SequenceRun, SequenceStep};
use gpui_mobile::token::{generate_token, token_file_path, token_text, TokenSlot};
use serde_json::Value;
use std::collections::HashMap;

fn px(value: f32) -> Pixels {
    Pixels { bits: value.to_bits() }
}

fn value(text: &str) -> Value {
    text.parse().unwrap()
}

fn entry(path: &str, instance_id: usize, width: f32, height: f32) -> Entry {
    Entry {
        path: path.to_string(),
        instance_id,
        x: px(1.0),
        y: px(2.0),
        width: px(width),
        height: px(height),
    }
}

fn area(entry: &Entry) -> Pixels {
    px(f32::from_bits(entry.width.bits) * f32::from_bits(entry.height.bits))
}

fn find(entries: Vec<Entry>, path: &str) -> Option<usize> {
    let areas = entries.iter().map(area).collect();
    let snapshot = Snapshot { frame_id: 1, entries };
    resolve_element(&snapshot, &areas, path).map(|entry| entry.instance_id)
}

fn hitbox(id: u64, x: f32) -> Hitbox {
    Hitbox {
        id,
        bounds: Bounds {
            origin: Point { x: px(x), y: px(0.0) },
            size: Size { width: px(10.0), height: px(20.0) },
        },
    }
}

fn inspector(name: &str, instance_id: usize) -> InspectorElementId {
    InspectorElementId {
        path: GlobalElementId(vec![
            ElementId::Name("root".to_string()),
            ElementId::Name(name.to_string()),
        ]),
        instance_id,
    }
}

#[test]
fn frames_are_published_when_asked_for() {
    let mut registry = Registry::new();
    assert!(has_pending_publish(&registry));
    let ids = HashMap::from([(1, inspector("a", 0)), (3, inspector("b", 4))]);
    publish(&mut registry, 7, &[hitbox(1, 0.0), hitbox(2, 5.0), hitbox(3, 9.0)], &ids);
    let snapshot = registry.snapshot();
    assert_eq!(snapshot.frame_id, 7);
    let paths: Vec<&str> = snapshot.entries.iter().map(|entry| entry.path.as_str()).collect();
    assert_eq!(paths, vec!["root/a", "root/b"]);
    assert_eq!(snapshot.entries[1].instance_id, 4);
    assert_eq!(snapshot.entries[1].x, px(9.0));
    assert_eq!(snapshot.entries[1].height, px(20.0));

    assert!(!has_pending_publish(&registry));
    publish(&mut registry, 8, &[], &ids);
    assert_eq!(registry.snapshot().frame_id, 7);

    let seen = registry.request_snapshot();
    assert!(registry.awaits_publish(seen));
    publish(&mut registry, 9, &[], &ids);
    assert!(!registry.awaits_publish(seen));
    assert_eq!(registry.snapshot(), Snapshot { frame_id: 9, entries: vec![] });
}

#[test]
fn calls_run_in_order_and_answer_once() {
    let mut calls = CallQueue::new();
    assert!(!has_pending_calls(&calls));
    let first = enqueue_call(&mut calls, "first".to_string(), Value::Null);
    let second = enqueue_call(&mut calls, "second".to_string(), value("[1]"));
    assert_eq!((first, second), (1, 2));
    assert!(has_pending_calls(&calls));
    let drained: Vec<(u64, String, Value)> = drain_pending_calls(&mut calls)
        .into_iter()
        .map(|call| (call.id, call.name, call.params))
        .collect();
    assert_eq!(
        drained,
        vec![(1, "first".to_string(), Value::Null), (2, "second".to_string(), value("[1]"))]
    );
    assert!(!has_pending_calls(&calls));
    assert!(drain_pending_calls(&mut calls).is_empty());
    assert_eq!(enqueue_call(&mut calls, "third".to_string(), Value::Null), 3);
    assert_eq!(drain_pending_calls(&mut calls).len(), 1);

    let waiting = wait_for_call(&mut calls, second, true);
    assert!(!waiting.completed && !waiting.invoked && waiting.result.is_null());
    mark_call_result(&mut calls, second, true, value("{\"done\":1}"));
    let outcome = wait_for_call(&mut calls, second, false);
    assert!(outcome.completed && outcome.invoked);
    assert_eq!(outcome.result, value("{\"done\":1}"));
    let again = wait_for_call(&mut calls, second, false);
    assert!(again.completed && !again.invoked && again.result.is_null());
}

#[test]
fn calls_report_nothing_or_a_value() {
    assert_eq!(().into_devtool_result(), Value::Null);
    assert_eq!(value("3").into_devtool_result(), value("3"));
}

#[test]
fn gestures_play_out_one_at_a_time() {
    let (x, y) = (px(3.0), px(4.0));
    let mut gestures = GestureQueue::new();
    let first = enqueue_gesture(&mut gestures, x, y, GestureKind::Press);
    let second = enqueue_gesture(&mut gestures, x, y, GestureKind::LongPress);
    assert_eq!((first, second), (1, 2));

    let start = 1_000;
    assert_eq!(drain_gesture_events(&mut gestures, start), vec![GestureEvent::Down(x, y)]);
    assert_eq!(drain_gesture_events(&mut gestures, start + PRESS_HOLD_NANOS - 1), vec![]);
    assert!(!wait_for_gesture(&mut gestures, first, false));
    assert_eq!(
        drain_gesture_events(&mut gestures, start + PRESS_HOLD_NANOS),
        vec![GestureEvent::Up(x, y)]
    );
    assert!(wait_for_gesture(&mut gestures, first, false));
    assert!(!wait_for_gesture(&mut gestures, first, false));

    let later = start + 2 * PRESS_HOLD_NANOS;
    assert_eq!(drain_gesture_events(&mut gestures, later), vec![GestureEvent::Down(x, y)]);
    assert_eq!(
        drain_gesture_events(&mut gestures, later + LONG_PRESS_HOLD_NANOS),
        vec![GestureEvent::Up(x, y)]
    );
    assert!(!wait_for_gesture(&mut gestures, second, true));
    assert_eq!(drain_gesture_events(&mut gestures, u64::MAX), vec![]);
}

#[test]
fn gestures_are_planned_by_their_kind() {
    let steps = plan_gesture(px(1.0), px(2.0), GestureKind::LongPress);
    let plan: Vec<(GestureEvent, u64)> = steps.iter().map(|step| (step.event, step.offset)).collect();
    assert_eq!(
        plan,
        vec![
            (GestureEvent::Down(px(1.0), px(2.0)), 0),
            (GestureEvent::Up(px(1.0), px(2.0)), 600_000_000),
        ]
    );
}

#[test]
fn paths_mean_elements() {
    let entries = || {
        vec![
            entry("root/list", 0, 100.0, 100.0),
            entry("root/list/row", 1, 100.0, 20.0),
            entry("root/list/row", 2, 50.0, 20.0),
            entry("row", 3, 500.0, 500.0),
            entry("root/narrow", 4, 1.0, 1.0),
        ]
    };
    assert_eq!(find(entries(), "row"), Some(3));
    assert_eq!(find(entries(), "list/row"), Some(2));
    assert_eq!(find(entries(), "root/list/row"), Some(2));
    assert_eq!(find(entries(), "arrow"), None);
    assert_eq!(find(entries(), "ow"), None);
    assert_eq!(find(vec![], "row"), None);
}

#[test]
fn the_first_of_equal_elements_is_taken() {
    assert_eq!(find(vec![entry("a", 0, 2.0, 8.0), entry("a", 1, 4.0, 4.0)], "a"), Some(0));
    assert_eq!(
        find(vec![entry("a", 0, f32::NAN, 1.0), entry("a", 1, 1.0, 1.0)], "a"),
        Some(0)
    );
}

#[test]
fn heads_are_read_line_by_line() {
    let mut head = RequestHead::new("POST  /press HTTP/1.1\r\n");
    assert_eq!(head.method, "POST");
    assert_eq!(head.path, "/press");
    assert!(head.add_line(Some("Host: localhost\r\n")));
    assert!(head.add_line(Some("CONTENT-Length:  12 \r\n")));
    assert!(head.add_line(Some("x-devtool-token: SeCret \r\n")));
    assert!(!head.add_line(Some("\r\n")));
    assert_eq!(head.content_length, 12);
    assert_eq!(head.token.as_deref(), Some("SeCret"));
    assert!(head.add_line(Some("Content-Length: many\r\n")));
    assert_eq!(head.content_length, 0);
    assert!(!head.add_line(Some("")));
    assert!(!head.add_line(None));
    let empty = RequestHead::new("");
    assert_eq!((empty.method.as_str(), empty.path.as_str()), ("", ""));
}

#[test]
fn sizes_are_read_like_numbers() {
    for text in ["0", "7", "+12", "18446744073709551615", "18446744073709551616", "", "+", "-1", "1 ", "a"] {
        assert_eq!(parse_size(text), text.parse::<usize>().ok());
    }
}

#[test]
fn requests_without_the_token_are_refused() {
    let mut head = RequestHead::new("GET /elements HTTP/1.1\r\n");
    match decide(&head, Some("abc")) {
        Decision::Refuse(response) => {
            let body = "{\"error\":\"missing or invalid X-Devtool-Token header\",\"ok\":false}";
            assert_eq!(
                response,
                format!(
                    "HTTP/1.1 401 Unauthorized\r\nContent-Type: application/json\r\nContent-Length: {}\r\nConnection: close\r\n\r\n{body}",
                    body.len()
                )
            );
        }
        Decision::Serve(_) => panic!("served"),
    }
    assert_eq!(decide(&head, None), Decision::Serve(Route::Elements));
    head.add_line(Some("X-Devtool-Token: abc\r\n"));
    assert_eq!(decide(&head, Some("abc")), Decision::Serve(Route::Elements));
    assert!(matches!(decide(&head, Some("ABC")), Decision::Refuse(_)));
    let ping = RequestHead::new("GET /ping HTTP/1.1\r\n");
    assert_eq!(decide(&ping, Some("abc")), Decision::Serve(Route::Ping));
}

#[test]
fn requests_are_routed_by_method_and_path() {
    let route = |line: &str| decide(&RequestHead::new(line), None);
    assert_eq!(route("POST /press"), Decision::Serve(Route::Gesture(GestureKind::Press)));
    assert_eq!(route("POST /long_press"), Decision::Serve(Route::Gesture(GestureKind::LongPress)));
    assert_eq!(route("POST /tap_xy"), Decision::Serve(Route::TapXy));
    assert_eq!(route("POST /call"), Decision::Serve(Route::Call));
    assert_eq!(route("POST /sequence"), Decision::Serve(Route::Sequence));
    assert_eq!(route("GET /press"), Decision::Serve(Route::Unknown));
    assert_eq!(route("POST /ping"), Decision::Serve(Route::Unknown));
    assert_eq!(route(""), Decision::Serve(Route::Unknown));
}

#[test]
fn responses_count_bytes() {
    let response = frame_response(Status::NotFound, "\"é\"");
    assert!(response.starts_with("HTTP/1.1 404 Not Found\r\n"));
    assert!(response.contains("\r\nContent-Length: 4\r\n"));
    assert!(response.ends_with("\r\n\r\n\"é\""));
    assert!(reply(Status::Success, &ping_json(42)).ends_with("{\"ok\":true,\"pid\":42}"));
    assert!(bad_request_reply(BadRequest::StepsEmpty)
        .ends_with("{\"error\":\"steps must not be empty\",\"ok\":false}"));
}

#[test]
fn bodies_name_elements_points_and_calls() {
    assert_eq!(gesture_request(b"{\"element_id\":\"a\\\"b\"}"), Ok("a\"b".to_string()));
    assert_eq!(gesture_request(b"{"), Err(BadRequest::InvalidBody));
    assert_eq!(gesture_request(b"{\"element_id\":3}"), Err(BadRequest::ElementIdRequired));
    assert_eq!(gesture_request(b"[]"), Err(BadRequest::ElementIdRequired));

    let (x, y) = tap_request(b"{\"x\":1.5,\"y\":-2}").unwrap();
    assert_eq!((f64::from_bits(x), f64::from_bits(y)), (1.5, -2.0));
    let (x, _) = tap_request(b"{\"x\":3,\"y\":0}").unwrap();
    assert_eq!(f64::from_bits(x), 3.0);
    assert_eq!(tap_request(b"{\"x\":1}"), Err(BadRequest::CoordinatesRequired));
    assert_eq!(tap_request(b"{\"x\":\"1\",\"y\":2}"), Err(BadRequest::CoordinatesRequired));
    assert_eq!(tap_request(b""), Err(BadRequest::InvalidBody));

    let call = call_request(b"{\"name\":\"go\",\"params\":{\"n\":[1,null]}}").ok().unwrap();
    assert_eq!(call.name, "go");
    assert_eq!(call.params, value("{\"n\":[1,null]}"));
    assert!(call_request(b"{\"name\":\"go\"}").ok().unwrap().params.is_null());
    assert_eq!(call_request(b"{}").err(), Some(BadRequest::NameRequired));
    assert_eq!(call_request(b"nope").err(), Some(BadRequest::InvalidBody));
}

#[test]
fn errors_have_messages() {
    let messages: Vec<&str> = [
        BadRequest::InvalidBody,
        BadRequest::ElementIdRequired,
        BadRequest::CoordinatesRequired,
        BadRequest::NameRequired,
        BadRequest::StepsRequired,
        BadRequest::StepsEmpty,
    ]
    .iter()
    .map(|error| error.message())
    .collect();
    assert_eq!(
        messages,
        vec![
            "invalid JSON body",
            "element_id required",
            "x and y required",
            "name required",
            "steps (array) required",
            "steps must not be empty",
        ]
    );
}

#[test]
fn reports_are_objects() {
    let bounds = BoundsValues { x: value("1.5"), y: value("2"), w: value("3"), h: value("4") };
    let listed = entry_json(&entry("a/b", 6, 3.0, 4.0), bounds);
    assert_eq!(
        listed,
        value("{\"path\":\"a/b\",\"instance\":6,\"x\":1.5,\"y\":2,\"w\":3,\"h\":4}")
    );
    assert_eq!(
        elements_json(5, 9, vec![listed.clone()]),
        Value::Object(
            [
                ("frame_id".to_string(), value("5")),
                ("pid".to_string(), value("9")),
                ("entries".to_string(), Value::Array(vec![listed])),
            ]
            .into_iter()
            .collect()
        )
    );
    let (ok, report) = gesture_json(Some(GestureReport {
        completed: false,
        x: value("1.5"),
        y: value("2.5"),
        frame_id: 3,
    }));
    assert!(ok);
    assert_eq!(
        report,
        value("{\"ok\":true,\"completed\":false,\"x\":1.5,\"y\":2.5,\"frame_id\":3}")
    );
    let (ok, report) = gesture_json(None);
    assert!(!ok);
    assert_eq!(report, failure_json("element not found"));
    assert_eq!(
        tap_json(true, value("1"), value("2")),
        value("{\"ok\":true,\"completed\":true,\"x\":1,\"y\":2}")
    );
    assert_eq!(unknown_json(), value("{\"ok\":false}"));
    assert_eq!(wait_json(true), value("{\"ok\":true,\"found\":true}"));
    assert_eq!(
        wait_json(false),
        value("{\"ok\":false,\"found\":false,\"error\":\"timeout waiting for element\"}")
    );
    assert_eq!(report_status(true), Status::Success);
    assert_eq!(report_status(false), Status::NotFound);
}

#[test]
fn calls_are_reported_with_their_result() {
    let mut calls = CallQueue::new();
    mark_call_result(&mut calls, 4, true, value("\"done\""));
    let (ok, report) = call_json(wait_for_call(&mut calls, 4, false));
    assert!(ok);
    assert_eq!(
        report,
        value("{\"ok\":true,\"completed\":true,\"invoked\":true,\"result\":\"done\"}")
    );
    let (ok, report) = call_json(wait_for_call(&mut calls, 5, true));
    assert!(!ok);
    assert_eq!(
        report,
        value("{\"ok\":true,\"completed\":false,\"invoked\":false,\"result\":null}")
    );
}

#[test]
fn waits_are_bounded() {
    assert_eq!(wait_limit(500), 500);
    assert_eq!(wait_limit(60_000), 10_000);
    assert_eq!(wait_step(true, true), WaitStep::Found);
    assert_eq!(wait_step(false, true), WaitStep::GaveUp);
    assert_eq!(wait_step(false, false), WaitStep::Again);
}

fn start(body: &str) -> SequenceRun {
    sequence_request(body.as_bytes()).ok().unwrap()
}

#[test]
fn sequences_run_step_by_step() {
    let mut run = start(
        "{\"steps\":[{\"type\":\"press\",\"element_id\":\"a\"},{\"type\":\"long_press\",\"element_id\":\"b\"},\
         {\"type\":\"tap_xy\",\"x\":1,\"y\":2},{\"type\":\"wait_for_element\",\"element_id\":\"c\"},\
         {\"type\":\"wait_for_element\",\"element_id\":\"c\",\"timeout_ms\":5},\
         {\"type\":\"call\",\"name\":\"go\",\"params\":3}]}",
    );
    match run.next_step() {
        Some(SequenceStep::Gesture { kind, element_id }) => {
            assert_eq!((kind, element_id.as_str()), (GestureKind::Press, "a"));
        }
        _ => panic!("press expected"),
    }
    run.record(true, value("{\"ok\":true}"));
    match run.next_step() {
        Some(SequenceStep::Gesture { kind, element_id }) => {
            assert_eq!((kind, element_id.as_str()), (GestureKind::LongPress, "b"));
        }
        _ => panic!("long press expected"),
    }
    run.record(true, value("{\"ok\":true}"));
    match run.next_step() {
        Some(SequenceStep::TapXy { x, y }) => {
            assert_eq!((f64::from_bits(x), f64::from_bits(y)), (1.0, 2.0));
        }
        _ => panic!("tap expected"),
    }
    run.record(true, value("{\"ok\":true}"));
    match run.next_step() {
        Some(SequenceStep::WaitForElement { element_id, timeout_ms }) => {
            assert_eq!((element_id.as_str(), timeout_ms), ("c", 2000));
        }
        _ => panic!("wait expected"),
    }
    run.record(true, wait_json(true));
    match run.next_step() {
        Some(SequenceStep::WaitForElement { timeout_ms, .. }) => assert_eq!(timeout_ms, 5),
        _ => panic!("wait expected"),
    }
    run.record(true, wait_json(true));
    match run.next_step() {
        Some(SequenceStep::Call(call)) => {
            assert_eq!((call.name.as_str(), call.params), ("go", value("3")));
        }
        _ => panic!("call expected"),
    }
    run.record(true, value("{\"ok\":true}"));
    assert!(run.next_step().is_none());
    let report = run.finish();
    assert_eq!(report["ok"], Value::Bool(true));
    assert_eq!(report["steps_completed"], value("6"));
    assert_eq!(report["steps_total"], value("6"));
    assert_eq!(report["results"][2]["type"], value("\"tap_xy\""));
}

#[test]
fn sequences_stop_at_the_first_failure() {
    let mut run = start(
        "{\"steps\":[{\"type\":\"press\",\"element_id\":\"a\"},{\"type\":\"press\",\"element_id\":\"b\"}]}",
    );
    assert!(run.next_step().is_some());
    run.record(false, failure_json("element not found"));
    assert!(run.next_step().is_none());
    assert_eq!(
        run.finish(),
        value(
            "{\"ok\":false,\"steps_completed\":1,\"steps_total\":2,\"results\":\
             [{\"ok\":false,\"error\":\"element not found\",\"type\":\"press\"}]}"
        )
    );
}

#[test]
fn steps_that_cannot_run_fail_the_sequence() {
    let fail = |step: &str| {
        let mut run = start(&format!("{{\"steps\":[{step}]}}"));
        assert!(run.next_step().is_none());
        let report = run.finish();
        assert_eq!(report["ok"], Value::Bool(false));
        report["results"][0]["error"].as_str().unwrap().to_string()
    };
    assert_eq!(fail("{\"type\":\"press\"}"), "element_id required");
    assert_eq!(fail("{\"type\":\"wait_for_element\"}"), "element_id required");
    assert_eq!(fail("{\"type\":\"tap_xy\",\"x\":1}"), "x and y required");
    assert_eq!(fail("{\"type\":\"call\"}"), "name required");
    assert_eq!(fail("{\"type\":\"jump\"}"), "unknown step type: \"jump\"");
    assert_eq!(fail("{}"), "unknown step type: \"\"");
    assert_eq!(fail("{\"type\":\"a\\nb\"}"), "unknown step type: \"a\\nb\"");
}

#[test]
fn sequences_need_steps() {
    assert_eq!(sequence_request(b"x").err(), Some(BadRequest::InvalidBody));
    assert_eq!(sequence_request(b"{}").err(), Some(BadRequest::StepsRequired));
    assert_eq!(sequence_request(b"{\"steps\":{}}").err(), Some(BadRequest::StepsRequired));
    assert_eq!(sequence_request(b"{\"steps\":[]}").err(), Some(BadRequest::StepsEmpty));
}

#[test]
fn tokens_are_hexadecimal() {
    for number in [0, 1, 0xabc, u128::MAX, 1 << 100] {
        assert_eq!(token_text(number), format!("{number:032x}"));
    }
    let token = generate_token();
    assert_eq!(token.len(), 32);
    assert!(token.chars().all(|c| c.is_ascii_hexdigit() && !c.is_ascii_uppercase()));
    assert_ne!(token, generate_token());
    assert_eq!(token_file_path(8787), "/tmp/gpui-devtool-token-8787");
}

#[test]
fn the_first_token_stays() {
    let mut slot = TokenSlot::new();
    assert!(slot.install("one".to_string()));
    assert!(!slot.install("two".to_string()));
    assert_eq!(slot.token.as_deref(), Some("one"));
}

#[test]
fn requests_for_nothing_known_are_not_found() {
    let mut head = RequestHead::new("GET /nope HTTP/1.1\r\n");
    assert!(head.add_line(Some("x-devtool-TOKEN: Ab12 \r\n")));
    assert!(!head.add_line(Some("\r\n")));
    let route = match decide(&head, Some("Ab12")) {
        Decision::Serve(route) => route,
        Decision::Refuse(response) => panic!("refused: {response}"),
    };
    assert_eq!(
        plain_reply(route, 7).unwrap(),
        "HTTP/1.1 404 Not Found\r\nContent-Type: application/json\r\nContent-Length: 12\r\nConnection: close\r\n\r\n{\"ok\":false}"
    );
    assert!(matches!(decide(&head, Some("ab12")), Decision::Refuse(_)));
    assert_eq!(plain_reply(Route::Ping, 42), Some(reply(Status::Success, &ping_json(42))));
    assert_eq!(plain_reply(Route::Elements, 42), None);
}
