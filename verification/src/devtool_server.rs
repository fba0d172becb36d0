//! The answers of the development server: which request asks for what, which element it means, and
//! what is reported back.
use crate::devtool;
use crate::devtool::{CallOutcome, Entry, Snapshot};
use crate::geometry::Pixels;
use crate::gesture::GestureKind;
use crate::http;
use crate::http::{frame_response, RequestHead, Status};
use crate::json;
use crate::json::JsonView;
use crate::text;
use serde_json::Value;
use vstd::prelude::*;
use vstd::string::*;

verus! {

/// The longest wait for an element, in milliseconds.
pub const MAX_WAIT_FOR_ELEMENT_MILLIS: u64 = 10_000;

/// The wait for an element where none is given, in milliseconds.
pub const DEFAULT_WAIT_FOR_ELEMENT_MILLIS: u64 = 2000;

/// The members of an object that is being built.
struct Members {
    list: Vec<(String, Value)>,
}

impl Members {
    spec fn map(self) -> Map<Seq<char>, JsonView> {
        json::members_of(self.list@)
    }

    fn new() -> (members: Self)
        ensures
            members.map() == Map::<Seq<char>, JsonView>::empty(),
    {
        Members { list: Vec::new() }
    }

    /// Adds a member.
    fn with(self, key: &str, value: Value) -> (members: Self)
        ensures
            members.map() == self.map().insert(key@, json::json_content(value)),
    {
        let mut list: Vec<(String, Value)> = self.list;
        let ghost before = list@;
        list.push((key.to_owned(), value));
        assert(list@.drop_last() =~= before);
        Members { list }
    }

    /// Makes an object of the members.
    fn into_object(self) -> (value: Value)
        ensures
            json::json_content(value) == JsonView::Object(self.map()),
    {
        json::object_value(self.list)
    }
}

/// The object that reports a failure.
pub open spec fn failure(error: Seq<char>) -> JsonView {
    JsonView::Object(
        Map::empty().insert("ok"@, JsonView::Bool(false)).insert("error"@, JsonView::Text(error)),
    )
}

/// Reports a failure.
pub fn failure_json(error: &str) -> (value: Value)
    ensures
        json::json_content(value) == failure(error@),
{
    Members::new().with("ok", json::bool_value(false)).with(
        "error",
        json::text_value(error),
    ).into_object()
}

/// What a request asks for.
#[derive(Clone, Copy, Debug, PartialEq, Eq, Structural)]
pub enum Route {
    Ping,
    Elements,
    Gesture(GestureKind),
    TapXy,
    Call,
    Sequence,
    Unknown,
}

/// What a method and path ask for.
pub open spec fn route_of(method: Seq<char>, path: Seq<char>) -> Route {
    if method == "GET"@ && path == "/ping"@ {
        Route::Ping
    } else if method == "GET"@ && path == "/elements"@ {
        Route::Elements
    } else if method == "POST"@ && path == "/press"@ {
        Route::Gesture(GestureKind::Press)
    } else if method == "POST"@ && path == "/long_press"@ {
        Route::Gesture(GestureKind::LongPress)
    } else if method == "POST"@ && path == "/tap_xy"@ {
        Route::TapXy
    } else if method == "POST"@ && path == "/call"@ {
        Route::Call
    } else if method == "POST"@ && path == "/sequence"@ {
        Route::Sequence
    } else {
        Route::Unknown
    }
}

/// Tells what a request asks for.
pub fn route(head: &RequestHead) -> (route: Route)
    ensures
        route == route_of(head.method@, head.path@),
{
    let path: &str = head.path.as_str();
    if text::same_text(head.method.as_str(), "GET") {
        if text::same_text(path, "/ping") {
            return Route::Ping;
        }
        if text::same_text(path, "/elements") {
            return Route::Elements;
        }
    }
    if text::same_text(head.method.as_str(), "POST") {
        if text::same_text(path, "/press") {
            return Route::Gesture(GestureKind::Press);
        }
        if text::same_text(path, "/long_press") {
            return Route::Gesture(GestureKind::LongPress);
        }
        if text::same_text(path, "/tap_xy") {
            return Route::TapXy;
        }
        if text::same_text(path, "/call") {
            return Route::Call;
        }
        if text::same_text(path, "/sequence") {
            return Route::Sequence;
        }
    }
    Route::Unknown
}

/// A response with a JSON body.
pub open spec fn reply_of(status: Status, body: JsonView) -> Seq<char> {
    http::framed(status, json::rendered_json(body))
}

/// Frames a response with a JSON body.
pub fn reply(status: Status, body: &Value) -> (response: String)
    ensures
        response@ == reply_of(status, json::json_content(*body)),
{
    let rendered: String = json::render_json(body);
    frame_response(status, rendered.as_str())
}

/// What to do about a request.
#[derive(Debug, PartialEq, Eq)]
pub enum Decision {
    /// Send this response and do nothing else.
    Refuse(String),
    Serve(Route),
}

/// Decides about a request: one that may not be served is refused before anything else.
pub fn decide(head: &RequestHead, expected_token: Option<&str>) -> (decision: Decision)
    ensures
        ({
            let expected = match expected_token {
                Some(token) => Some(token@),
                None => None,
            };
            match decision {
                Decision::Refuse(response) => !http::authorized_by(head@, expected) && response@
                    == reply_of(
                    Status::Unauthorized,
                    failure("missing or invalid X-Devtool-Token header"@),
                ),
                Decision::Serve(route) => http::authorized_by(head@, expected) && route == route_of(
                    head.method@,
                    head.path@,
                ),
            }
        }),
{
    if !head.is_authorized(expected_token) {
        let body: Value = failure_json("missing or invalid X-Devtool-Token header");
        return Decision::Refuse(reply(Status::Unauthorized, &body));
    }
    Decision::Serve(route(head))
}

/// The body of the answer under the path for signs of life.
pub open spec fn alive(pid: u32) -> JsonView {
    JsonView::Object(
        Map::empty().insert("ok"@, JsonView::Bool(true)).insert(
            "pid"@,
            JsonView::Unsigned(pid as u64),
        ),
    )
}

/// Answers with a sign of life.
pub fn ping_json(pid: u32) -> (value: Value)
    ensures
        json::json_content(value) == alive(pid),
{
    Members::new().with("ok", json::bool_value(true)).with(
        "pid",
        json::unsigned_value(pid as u64),
    ).into_object()
}

/// The body of the answer to a request that asks for nothing known.
pub fn unknown_json() -> (value: Value)
    ensures
        json::json_content(value) == JsonView::Object(
            Map::empty().insert("ok"@, JsonView::Bool(false)),
        ),
{
    Members::new().with("ok", json::bool_value(false)).into_object()
}

/// Answers a request that needs nothing but its route: a sign of life, or that there is no such thing.
pub fn plain_reply(route: Route, pid: u32) -> (response: Option<String>)
    ensures
        match route {
            Route::Ping => response is Some && response->0@ == reply_of(
                Status::Success,
                alive(pid),
            ),
            Route::Unknown => {
                &&& response is Some
                &&& response->0@ == reply_of(
                    Status::NotFound,
                    JsonView::Object(Map::empty().insert("ok"@, JsonView::Bool(false))),
                )
                &&& response->0@ == http::framed(Status::NotFound, "{\"ok\":false}"@)
            },
            _ => response is None,
        },
{
    match route {
        Route::Ping => Some(reply(Status::Success, &ping_json(pid))),
        Route::Unknown => {
            let rendered: String = json::render_json(&unknown_json());
            proof {
                reveal_strlit("ok");
                reveal_strlit("{\"");
                reveal_strlit("\":");
                reveal_strlit("false");
                reveal_strlit("}");
                reveal_strlit("{\"ok\":false}");
                assert(json::is_plain_key("ok"@));
                assert(json::flag_text("ok"@, false) =~= "{\"ok\":false}"@);
            }
            Some(frame_response(Status::NotFound, rendered.as_str()))
        },
        _ => None,
    }
}

/// Coordinates and extents as JSON numbers.
pub struct BoundsValues {
    pub x: Value,
    pub y: Value,
    pub w: Value,
    pub h: Value,
}

/// How an element is listed.
pub open spec fn listed(entry: devtool::EntryView, bounds: BoundsValues) -> JsonView {
    JsonView::Object(
        Map::empty().insert("path"@, JsonView::Text(entry.path)).insert(
            "instance"@,
            JsonView::Unsigned(entry.instance_id as u64),
        ).insert("x"@, json::json_content(bounds.x)).insert(
            "y"@,
            json::json_content(bounds.y),
        ).insert("w"@, json::json_content(bounds.w)).insert("h"@, json::json_content(bounds.h)),
    )
}

/// Lists an element.
pub fn entry_json(entry: &Entry, bounds: BoundsValues) -> (value: Value)
    ensures
        json::json_content(value) == listed(entry@, bounds),
{
    Members::new().with("path", json::text_value(entry.path.as_str())).with(
        "instance",
        json::unsigned_value(entry.instance_id as u64),
    ).with("x", bounds.x).with("y", bounds.y).with("w", bounds.w).with("h", bounds.h).into_object()
}

/// Lists the elements of a frame.
pub fn elements_json(frame_id: u64, pid: u32, entries: Vec<Value>) -> (value: Value)
    ensures
        json::json_content(value) == JsonView::Object(
            Map::empty().insert("frame_id"@, JsonView::Unsigned(frame_id)).insert(
                "pid"@,
                JsonView::Unsigned(pid as u64),
            ).insert("entries"@, JsonView::List(json::contents(entries@))),
        ),
{
    Members::new().with("frame_id", json::unsigned_value(frame_id)).with(
        "pid",
        json::unsigned_value(pid as u64),
    ).with("entries", json::list_value(entries)).into_object()
}

/// Whether a path ends with a slash and `leaf`.
pub open spec fn ends_with_leaf(path: Seq<char>, leaf: Seq<char>) -> bool {
    path.len() > leaf.len() && path.skip(path.len() - leaf.len() - 1) == seq!['/'] + leaf
}

/// Whether some entry has exactly that path.
pub open spec fn has_exact(entries: Seq<devtool::EntryView>, path: Seq<char>) -> bool {
    exists|i: int| 0 <= i < entries.len() && (#[trigger] entries[i]).path == path
}

/// Whether entry `i` is meant by a path: one with exactly that path, or, where there is none, one
/// whose path ends with it.
pub open spec fn is_meant(entries: Seq<devtool::EntryView>, path: Seq<char>, i: int) -> bool {
    entries[i].path == path || (!has_exact(entries, path) && ends_with_leaf(entries[i].path, path))
}

/// The entry to take among the first `count`: of those meant, the first with the smallest area.
pub open spec fn topmost(
    entries: Seq<devtool::EntryView>,
    areas: Seq<Pixels>,
    path: Seq<char>,
    count: int,
) -> Option<int>
    decreases count,
{
    if count <= 0 {
        None
    } else {
        let best = topmost(entries, areas, path, count - 1);
        if !is_meant(entries, path, count - 1) {
            best
        } else {
            match best {
                None => Some(count - 1),
                Some(index) => if areas[count - 1].below(areas[index]) {
                    Some(count - 1)
                } else {
                    Some(index)
                },
            }
        }
    }
}

/// Tests whether a path ends with a slash and `leaf`.
fn path_ends_with_leaf(path: &str, leaf: &Vec<char>) -> (ends: bool)
    ensures
        ends == ends_with_leaf(path@, leaf@),
{
    let chars: Vec<char> = text::to_chars(path);
    if chars.len() <= leaf.len() {
        return false;
    }
    let at: usize = chars.len() - leaf.len() - 1;
    let ghost tail = chars@.skip(at as int);
    let ghost wanted = seq!['/'] + leaf@;
    let mut slashed: Vec<char> = Vec::new();
    slashed.push('/');
    let mut i: usize = 0;
    while i < leaf.len()
        invariant
            i <= leaf@.len(),
            slashed@ == (seq!['/'] + leaf@).take(i as int + 1),
        decreases leaf@.len() - i,
    {
        slashed.push(leaf[i]);
        i = i + 1;
        assert(slashed@ =~= (seq!['/'] + leaf@).take(i as int + 1));
    }
    assert(slashed@ =~= wanted);
    let stands: bool = text::stands_at(&chars, &slashed, at);
    assert(chars@.subrange(at as int, at + slashed@.len()) =~= tail);
    stands
}

/// Finds where the element stands that a path means: the whole path or its last part. Of several the
/// smallest is on top. `areas` gives the area of each entry.
pub fn resolve_index(snapshot: &Snapshot, areas: &Vec<Pixels>, path: &str) -> (found: Option<usize>)
    requires
        areas@.len() == snapshot.entries@.len(),
    ensures
        match found {
            Some(index) => index < snapshot.entries@.len() && topmost(
                snapshot@.1,
                areas@,
                path@,
                snapshot.entries@.len() as int,
            ) == Some(index as int),
            None => topmost(snapshot@.1, areas@, path@, snapshot.entries@.len() as int) is None,
        },
{
    let ghost list = snapshot@.1;
    let leaf: Vec<char> = text::to_chars(path);
    let mut exact: bool = false;
    let mut k: usize = 0;
    while k < snapshot.entries.len()
        invariant
            k <= snapshot.entries@.len(),
            list == snapshot@.1,
            list.len() == snapshot.entries@.len(),
            exact == exists|i: int| 0 <= i < k && (#[trigger] list[i]).path == path@,
        decreases snapshot.entries@.len() - k,
    {
        if text::same_text(snapshot.entries[k].path.as_str(), path) {
            assert(list[k as int].path == path@);
            exact = true;
        } else {
            assert(list[k as int].path != path@);
        }
        k = k + 1;
    }
    assert(exact == has_exact(list, path@));
    let mut best: Option<usize> = None;
    let mut i: usize = 0;
    while i < snapshot.entries.len()
        invariant
            i <= snapshot.entries@.len(),
            list == snapshot@.1,
            list.len() == snapshot.entries@.len(),
            areas@.len() == snapshot.entries@.len(),
            leaf@ == path@,
            exact == has_exact(list, path@),
            match best {
                Some(index) => index < i && topmost(list, areas@, path@, i as int) == Some(
                    index as int,
                ),
                None => topmost(list, areas@, path@, i as int) is None,
            },
        decreases snapshot.entries@.len() - i,
    {
        let candidate: &str = snapshot.entries[i].path.as_str();
        assert(candidate@ == list[i as int].path);
        let meant: bool = text::same_text(candidate, path) || (!exact && path_ends_with_leaf(
            candidate,
            &leaf,
        ));
        assert(meant == is_meant(list, path@, i as int));
        if meant {
            best = match best {
                None => Some(i),
                Some(index) => if areas[i].is_below(&areas[index]) {
                    Some(i)
                } else {
                    Some(index)
                },
            };
        }
        i = i + 1;
    }
    best
}

/// Finds the element that a path means: the whole path or its last part. Of several the smallest
/// is on top. `areas` gives the area of each entry.
pub fn resolve_element(snapshot: &Snapshot, areas: &Vec<Pixels>, path: &str) -> (found: Option<Entry>)
    requires
        areas@.len() == snapshot.entries@.len(),
    ensures
        match found {
            Some(entry) => {
                let index = topmost(snapshot@.1, areas@, path@, snapshot.entries@.len() as int);
                index is Some && 0 <= index->0 < snapshot.entries@.len() && entry@
                    == snapshot@.1[index->0]
            },
            None => topmost(snapshot@.1, areas@, path@, snapshot.entries@.len() as int) is None,
        },
{
    match resolve_index(snapshot, areas, path) {
        Some(index) => {
            assert(snapshot@.1[index as int] == snapshot.entries@[index as int]@);
            Some(snapshot.entries[index].clone())
        },
        None => None,
    }
}

/// An element is found exactly if some path means it, and a whole path is never taken for the last
/// part of another.
pub proof fn exact_paths_win(
    entries: Seq<devtool::EntryView>,
    areas: Seq<Pixels>,
    path: Seq<char>,
    count: int,
)
    requires
        0 <= count <= entries.len(),
    ensures
        match topmost(entries, areas, path, count) {
            Some(index) => 0 <= index < count && is_meant(entries, path, index) && (has_exact(
                entries,
                path,
            ) ==> entries[index].path == path),
            None => forall|i: int| 0 <= i < count ==> !(#[trigger] is_meant(entries, path, i)),
        },
    decreases count,
{
    if count > 0 {
        exact_paths_win(entries, areas, path, count - 1);
    }
}

/// Where no area is undefined, no element that a path means is smaller than the one taken.
pub proof fn the_smallest_is_on_top(
    entries: Seq<devtool::EntryView>,
    areas: Seq<Pixels>,
    path: Seq<char>,
    count: int,
)
    requires
        0 <= count <= entries.len(),
        areas.len() == entries.len(),
        forall|i: int|
            0 <= i < areas.len() ==> !crate::geometry::not_a_number((#[trigger] areas[i]).bits),
    ensures
        match topmost(entries, areas, path, count) {
            Some(index) => 0 <= index < count && forall|i: int|
                0 <= i < count && #[trigger] is_meant(entries, path, i) ==> !areas[i].below(
                    areas[index],
                ) && (i < index ==> areas[index].below(areas[i])),
            None => true,
        },
    decreases count,
{
    if count > 0 {
        the_smallest_is_on_top(entries, areas, path, count - 1);
        exact_paths_win(entries, areas, path, count - 1);
    }
}

/// Why a request cannot be carried out as it stands.
#[derive(Clone, Copy, Debug, PartialEq, Eq, Structural)]
pub enum BadRequest {
    InvalidBody,
    ElementIdRequired,
    CoordinatesRequired,
    NameRequired,
    StepsRequired,
    StepsEmpty,
}

impl BadRequest {
    /// What is reported.
    pub open spec fn text(self) -> Seq<char> {
        match self {
            BadRequest::InvalidBody => "invalid JSON body"@,
            BadRequest::ElementIdRequired => "element_id required"@,
            BadRequest::CoordinatesRequired => "x and y required"@,
            BadRequest::NameRequired => "name required"@,
            BadRequest::StepsRequired => "steps (array) required"@,
            BadRequest::StepsEmpty => "steps must not be empty"@,
        }
    }

    /// What is reported.
    pub fn message(&self) -> (message: &'static str)
        ensures
            message@ == self.text(),
    {
        match self {
            BadRequest::InvalidBody => "invalid JSON body",
            BadRequest::ElementIdRequired => "element_id required",
            BadRequest::CoordinatesRequired => "x and y required",
            BadRequest::NameRequired => "name required",
            BadRequest::StepsRequired => "steps (array) required",
            BadRequest::StepsEmpty => "steps must not be empty",
        }
    }
}

/// Answers a request that cannot be carried out.
pub fn bad_request_reply(error: BadRequest) -> (response: String)
    ensures
        response@ == reply_of(Status::BadRequest, failure(error.text())),
{
    let body: Value = failure_json(error.message());
    reply(Status::BadRequest, &body)
}

/// The element that a request names.
pub open spec fn element_named(request: JsonView) -> Result<Seq<char>, BadRequest> {
    match request.text_member("element_id"@) {
        Some(id) => Ok(id),
        None => Err(BadRequest::ElementIdRequired),
    }
}

/// Reads a text member of an object.
fn text_member(value: &Value, key: &str) -> (found: Option<String>)
    ensures
        match found {
            Some(characters) => json::json_content(*value).text_member(key@) == Some(characters@),
            None => json::json_content(*value).text_member(key@) is None,
        },
{
    match json::member(value, key) {
        Some(member) => match json::as_text(member) {
            Some(characters) => Some(characters.to_owned()),
            None => None,
        },
        None => None,
    }
}

/// Reads the element that a request names.
pub fn element_target(request: &Value) -> (target: Result<String, BadRequest>)
    ensures
        match target {
            Ok(id) => element_named(json::json_content(*request)) == Ok::<Seq<char>, BadRequest>(
                id@,
            ),
            Err(error) => element_named(json::json_content(*request)) == Err::<
                Seq<char>,
                BadRequest,
            >(error),
        },
{
    match text_member(request, "element_id") {
        Some(id) => Ok(id),
        None => Err(BadRequest::ElementIdRequired),
    }
}

/// Reads the element that the body of a request names.
pub fn gesture_request(body: &[u8]) -> (target: Result<String, BadRequest>)
    ensures
        match json::parsed_json(body@) {
            None => target == Err::<String, BadRequest>(BadRequest::InvalidBody),
            Some(request) => match target {
                Ok(id) => element_named(request) == Ok::<Seq<char>, BadRequest>(id@),
                Err(error) => element_named(request) == Err::<Seq<char>, BadRequest>(error),
            },
        },
{
    match json::parse_json(body) {
        Some(request) => element_target(&request),
        None => Err(BadRequest::InvalidBody),
    }
}

/// The bits of a number under a key.
pub open spec fn number_member(value: JsonView, key: Seq<char>) -> Option<u64> {
    match value.member(key) {
        Some(member) => json::double_bits(member),
        None => None,
    }
}

/// Reads a number under a key.
fn number_bits(value: &Value, key: &str) -> (bits: Option<u64>)
    ensures
        bits == number_member(json::json_content(*value), key@),
{
    match json::member(value, key) {
        Some(member) => json::as_double_bits(member),
        None => None,
    }
}

/// The point that a request names, as the bits of two doubles.
pub open spec fn point_named(request: JsonView) -> Result<(u64, u64), BadRequest> {
    match (number_member(request, "x"@), number_member(request, "y"@)) {
        (Some(x), Some(y)) => Ok((x, y)),
        _ => Err(BadRequest::CoordinatesRequired),
    }
}

/// Reads the point that a request names.
pub fn point_target(request: &Value) -> (target: Result<(u64, u64), BadRequest>)
    ensures
        target == point_named(json::json_content(*request)),
{
    match (number_bits(request, "x"), number_bits(request, "y")) {
        (Some(x), Some(y)) => Ok((x, y)),
        _ => Err(BadRequest::CoordinatesRequired),
    }
}

/// Reads the point that the body of a request names.
pub fn tap_request(body: &[u8]) -> (target: Result<(u64, u64), BadRequest>)
    ensures
        target == match json::parsed_json(body@) {
            None => Err(BadRequest::InvalidBody),
            Some(request) => point_named(request),
        },
{
    match json::parse_json(body) {
        Some(request) => point_target(&request),
        None => Err(BadRequest::InvalidBody),
    }
}

/// A function to call, with its parameters.
pub struct CallRequest {
    pub name: String,
    pub params: Value,
}

/// The parameters of a call, which are null where none are given.
pub open spec fn params_named(request: JsonView) -> JsonView {
    match request.member("params"@) {
        Some(params) => params,
        None => JsonView::Null,
    }
}

/// Whether `target` is the call that a request names.
pub open spec fn names_call(request: JsonView, target: Result<CallRequest, BadRequest>) -> bool {
    match target {
        Ok(call) => request.text_member("name"@) == Some(call.name@) && json::json_content(
            call.params,
        ) == params_named(request),
        Err(error) => error is NameRequired && request.text_member("name"@) is None,
    }
}

/// Reads the call that a request names.
pub fn call_target(request: &Value) -> (target: Result<CallRequest, BadRequest>)
    ensures
        names_call(json::json_content(*request), target),
{
    match text_member(request, "name") {
        Some(name) => {
            let params: Value = match json::member(request, "params") {
                Some(params) => json::copy_value(params),
                None => json::null_value(),
            };
            Ok(CallRequest { name, params })
        },
        None => Err(BadRequest::NameRequired),
    }
}

/// Reads the call that the body of a request names.
pub fn call_request(body: &[u8]) -> (target: Result<CallRequest, BadRequest>)
    ensures
        match json::parsed_json(body@) {
            None => target == Err::<CallRequest, BadRequest>(BadRequest::InvalidBody),
            Some(request) => names_call(request, target),
        },
{
    match json::parse_json(body) {
        Some(request) => call_target(&request),
        None => Err(BadRequest::InvalidBody),
    }
}

/// A gesture that was carried out.
pub struct GestureReport {
    pub completed: bool,
    pub x: Value,
    pub y: Value,
    pub frame_id: u64,
}

/// The report on a gesture that was carried out.
pub open spec fn gesture_report(report: GestureReport) -> JsonView {
    JsonView::Object(
        Map::empty().insert("ok"@, JsonView::Bool(true)).insert(
            "completed"@,
            JsonView::Bool(report.completed),
        ).insert("x"@, json::json_content(report.x)).insert(
            "y"@,
            json::json_content(report.y),
        ).insert("frame_id"@, JsonView::Unsigned(report.frame_id)),
    )
}

/// Reports on a gesture. It fails only where no element was found; one that did not finish in time
/// counts as carried out.
pub fn gesture_json(report: Option<GestureReport>) -> (outcome: (bool, Value))
    ensures
        outcome.0 == (report is Some),
        json::json_content(outcome.1) == match report {
            Some(report) => gesture_report(report),
            None => failure("element not found"@),
        },
{
    match report {
        Some(report) => {
            let value: Value = Members::new().with("ok", json::bool_value(true)).with(
                "completed",
                json::bool_value(report.completed),
            ).with("x", report.x).with("y", report.y).with(
                "frame_id",
                json::unsigned_value(report.frame_id),
            ).into_object();
            (true, value)
        },
        None => (false, failure_json("element not found")),
    }
}

/// The report on a touch at a point.
pub open spec fn tap_report(completed: bool, x: Value, y: Value) -> JsonView {
    JsonView::Object(
        Map::empty().insert("ok"@, JsonView::Bool(true)).insert(
            "completed"@,
            JsonView::Bool(completed),
        ).insert("x"@, json::json_content(x)).insert("y"@, json::json_content(y)),
    )
}

/// Reports on a touch at a point.
pub fn tap_json(completed: bool, x: Value, y: Value) -> (value: Value)
    ensures
        json::json_content(value) == tap_report(completed, x, y),
{
    Members::new().with("ok", json::bool_value(true)).with(
        "completed",
        json::bool_value(completed),
    ).with("x", x).with("y", y).into_object()
}

/// The report on a call.
pub open spec fn call_report(outcome: CallOutcome) -> JsonView {
    JsonView::Object(
        Map::empty().insert("ok"@, JsonView::Bool(true)).insert(
            "completed"@,
            JsonView::Bool(outcome.completed),
        ).insert("invoked"@, JsonView::Bool(outcome.invoked)).insert(
            "result"@,
            json::json_content(outcome.result),
        ),
    )
}

/// Reports on a call. It fails where nothing was invoked.
pub fn call_json(outcome: CallOutcome) -> (report: (bool, Value))
    ensures
        report.0 == outcome.invoked,
        json::json_content(report.1) == call_report(outcome),
{
    let value: Value = Members::new().with("ok", json::bool_value(true)).with(
        "completed",
        json::bool_value(outcome.completed),
    ).with("invoked", json::bool_value(outcome.invoked)).with(
        "result",
        outcome.result,
    ).into_object();
    (outcome.invoked, value)
}

/// The status of a report.
pub fn report_status(ok: bool) -> (status: Status)
    ensures
        status == (if ok {
            Status::Success
        } else {
            Status::NotFound
        }),
{
    if ok {
        Status::Success
    } else {
        Status::NotFound
    }
}

/// What to do while an element is awaited.
#[derive(Clone, Copy, Debug, PartialEq, Eq, Structural)]
pub enum WaitStep {
    Found,
    GaveUp,
    /// Look again a little later.
    Again,
}

/// How long an element is waited for: what is asked for, up to the longest wait.
pub fn wait_limit(timeout_ms: u64) -> (limit: u64)
    ensures
        limit == (if timeout_ms < MAX_WAIT_FOR_ELEMENT_MILLIS {
            timeout_ms
        } else {
            MAX_WAIT_FOR_ELEMENT_MILLIS
        }),
{
    if timeout_ms < MAX_WAIT_FOR_ELEMENT_MILLIS {
        timeout_ms
    } else {
        MAX_WAIT_FOR_ELEMENT_MILLIS
    }
}

/// Goes on waiting until the element is there or the time is over; an element that shows up with the
/// last look counts.
pub fn wait_step(found: bool, deadline_passed: bool) -> (step: WaitStep)
    ensures
        step == (if found {
            WaitStep::Found
        } else if deadline_passed {
            WaitStep::GaveUp
        } else {
            WaitStep::Again
        }),
{
    if found {
        WaitStep::Found
    } else if deadline_passed {
        WaitStep::GaveUp
    } else {
        WaitStep::Again
    }
}

/// The report on a wait.
pub open spec fn wait_report(found: bool) -> JsonView {
    if found {
        JsonView::Object(
            Map::empty().insert("ok"@, JsonView::Bool(true)).insert("found"@, JsonView::Bool(true)),
        )
    } else {
        JsonView::Object(
            Map::empty().insert("ok"@, JsonView::Bool(false)).insert(
                "found"@,
                JsonView::Bool(false),
            ).insert("error"@, JsonView::Text("timeout waiting for element"@)),
        )
    }
}

/// Reports on a wait.
pub fn wait_json(found: bool) -> (value: Value)
    ensures
        json::json_content(value) == wait_report(found),
{
    let members: Members = Members::new().with("ok", json::bool_value(found)).with(
        "found",
        json::bool_value(found),
    );
    if found {
        members.into_object()
    } else {
        members.with("error", json::text_value("timeout waiting for element")).into_object()
    }
}

/// Each thing that can be asked for has one method and one path, and all else asks for nothing.
pub proof fn routes_are_told_by_method_and_path(method: Seq<char>, path: Seq<char>)
    ensures
        route_of(method, path) is Ping <==> method == "GET"@ && path == "/ping"@,
        route_of(method, path) is Elements <==> method == "GET"@ && path == "/elements"@,
        route_of(method, path) == Route::Gesture(GestureKind::Press) <==> method == "POST"@ && path
            == "/press"@,
        route_of(method, path) == Route::Gesture(GestureKind::LongPress) <==> method == "POST"@
            && path == "/long_press"@,
        route_of(method, path) is TapXy <==> method == "POST"@ && path == "/tap_xy"@,
        route_of(method, path) is Call <==> method == "POST"@ && path == "/call"@,
        route_of(method, path) is Sequence <==> method == "POST"@ && path == "/sequence"@,
{
    reveal_strlit("GET");
    reveal_strlit("POST");
    reveal_strlit("/ping");
    reveal_strlit("/elements");
    reveal_strlit("/press");
    reveal_strlit("/long_press");
    reveal_strlit("/tap_xy");
    reveal_strlit("/call");
    reveal_strlit("/sequence");
    assert("/ping"@.len() == 5);
    assert("/elements"@.len() == 9 && "/elements"@[1] == 'e');
    assert("/press"@.len() == 6 && "/long_press"@.len() == 11);
    assert("/tap_xy"@.len() == 7 && "/call"@.len() == 5 && "/call"@[1] == 'c');
    assert("/ping"@[1] == 'p');
    assert("/sequence"@.len() == 9 && "/sequence"@[1] == 's');
    assert("GET"@.len() == 3 && "POST"@.len() == 4);
}

/// A report on a failure says so and why, and a sign of life gives the number of the process.
pub proof fn failures_and_signs_of_life_say_what_they_are(error: Seq<char>, pid: u32)
    ensures
        failure(error).member("ok"@) == Some(JsonView::Bool(false)),
        failure(error).member("error"@) == Some(JsonView::Text(error)),
        alive(pid).member("ok"@) == Some(JsonView::Bool(true)),
        alive(pid).member("pid"@) == Some(JsonView::Unsigned(pid as u64)),
{
    reveal_strlit("ok");
    reveal_strlit("error");
    reveal_strlit("pid");
    assert("ok"@.len() == 2 && "error"@.len() == 5 && "pid"@.len() == 3);
}

/// A listed element is under its path and instance, and each coordinate and extent under its own
/// name.
pub proof fn listed_elements_lie_where_they_were_painted(
    entry: devtool::EntryView,
    bounds: BoundsValues,
)
    ensures
        listed(entry, bounds).member("path"@) == Some(JsonView::Text(entry.path)),
        listed(entry, bounds).member("instance"@) == Some(
            JsonView::Unsigned(entry.instance_id as u64),
        ),
        listed(entry, bounds).member("x"@) == Some(json::json_content(bounds.x)),
        listed(entry, bounds).member("y"@) == Some(json::json_content(bounds.y)),
        listed(entry, bounds).member("w"@) == Some(json::json_content(bounds.w)),
        listed(entry, bounds).member("h"@) == Some(json::json_content(bounds.h)),
{
    reveal_strlit("path");
    reveal_strlit("instance");
    reveal_strlit("x");
    reveal_strlit("y");
    reveal_strlit("w");
    reveal_strlit("h");
    assert("path"@.len() == 4 && "instance"@.len() == 8);
    assert("x"@[0] == 'x' && "y"@[0] == 'y' && "w"@[0] == 'w' && "h"@[0] == 'h');
    assert("x"@.len() == 1 && "y"@.len() == 1 && "w"@.len() == 1 && "h"@.len() == 1);
}

/// A report on a gesture or a touch tells whether it completed and where it was, across under `x` and
/// down under `y`.
pub proof fn gestures_are_reported_where_they_were(
    report: GestureReport,
    completed: bool,
    x: Value,
    y: Value,
)
    ensures
        gesture_report(report).member("ok"@) == Some(JsonView::Bool(true)),
        gesture_report(report).member("completed"@) == Some(JsonView::Bool(report.completed)),
        gesture_report(report).member("x"@) == Some(json::json_content(report.x)),
        gesture_report(report).member("y"@) == Some(json::json_content(report.y)),
        gesture_report(report).member("frame_id"@) == Some(JsonView::Unsigned(report.frame_id)),
        tap_report(completed, x, y).member("ok"@) == Some(JsonView::Bool(true)),
        tap_report(completed, x, y).member("completed"@) == Some(JsonView::Bool(completed)),
        tap_report(completed, x, y).member("x"@) == Some(json::json_content(x)),
        tap_report(completed, x, y).member("y"@) == Some(json::json_content(y)),
{
    reveal_strlit("ok");
    reveal_strlit("completed");
    reveal_strlit("x");
    reveal_strlit("y");
    reveal_strlit("frame_id");
    assert("ok"@.len() == 2 && "completed"@.len() == 9 && "frame_id"@.len() == 8);
    assert("x"@[0] == 'x' && "y"@[0] == 'y');
    assert("x"@.len() == 1 && "y"@.len() == 1);
}

/// A report on a call tells whether it completed, whether anything was invoked, and the result.
pub proof fn calls_are_reported_with_their_result(outcome: CallOutcome)
    ensures
        call_report(outcome).member("ok"@) == Some(JsonView::Bool(true)),
        call_report(outcome).member("completed"@) == Some(JsonView::Bool(outcome.completed)),
        call_report(outcome).member("invoked"@) == Some(JsonView::Bool(outcome.invoked)),
        call_report(outcome).member("result"@) == Some(json::json_content(outcome.result)),
{
    reveal_strlit("ok");
    reveal_strlit("completed");
    reveal_strlit("invoked");
    reveal_strlit("result");
    assert("ok"@.len() == 2 && "completed"@.len() == 9 && "invoked"@.len() == 7
        && "result"@.len() == 6);
}

/// A report on a wait says whether the element was found, and only a failed one names an error.
pub proof fn waits_are_reported_by_what_was_found(found: bool)
    ensures
        wait_report(found).member("ok"@) == Some(JsonView::Bool(found)),
        wait_report(found).member("found"@) == Some(JsonView::Bool(found)),
        wait_report(found).member("error"@) == if found {
            None
        } else {
            Some(JsonView::Text("timeout waiting for element"@))
        },
{
    reveal_strlit("ok");
    reveal_strlit("found");
    reveal_strlit("error");
    assert("ok"@.len() == 2 && "found"@.len() == 5 && "error"@.len() == 5);
    assert("found"@[0] == 'f' && "error"@[0] == 'e');
}

/// A path ends with a leaf exactly where a slash stands in front of the leaf's characters at its end.
pub proof fn leaves_stand_behind_a_slash(path: Seq<char>, leaf: Seq<char>)
    ensures
        ends_with_leaf(path, leaf) <==> path.len() > leaf.len() && path[path.len() - leaf.len() - 1]
            == '/' && path.subrange(path.len() - leaf.len(), path.len() as int) == leaf,
{
    if path.len() > leaf.len() {
        let tail = path.skip(path.len() - leaf.len() - 1);
        let wanted = seq!['/'] + leaf;
        let end = path.subrange(path.len() - leaf.len(), path.len() as int);
        if tail == wanted {
            assert(tail[0] == wanted[0]);
            assert forall|i: int| 0 <= i < leaf.len() implies end[i] == leaf[i] by {
                assert(tail[i + 1] == wanted[i + 1]);
            }
            assert(end =~= leaf);
        }
        if path[path.len() - leaf.len() - 1] == '/' && end == leaf {
            assert forall|i: int| 0 <= i < tail.len() implies tail[i] == wanted[i] by {
                if i > 0 {
                    assert(end[i - 1] == leaf[i - 1]);
                }
            }
            assert(tail =~= wanted);
        }
    }
}

/// An element is meant by a path that is its own, and by the end of its own path where no element has
/// the whole of it.
pub proof fn paths_mean_whole_paths_before_leaves(
    entries: Seq<devtool::EntryView>,
    path: Seq<char>,
    i: int,
    j: int,
)
    requires
        0 <= i < entries.len(),
        0 <= j < entries.len(),
    ensures
        entries[i].path == path ==> is_meant(entries, path, i),
        entries[j].path == path && entries[i].path != path ==> !is_meant(entries, path, i),
        is_meant(entries, path, i) && entries[i].path != path ==> ends_with_leaf(
            entries[i].path,
            path,
        ),
{
}

/// A request names an element by a text, a point by two numbers of which the first lies across, and a
/// call by a text and any parameters. What is missing is told.
pub proof fn requests_are_read_member_by_member(
    request: JsonView,
    x: u64,
    y: u64,
    call: CallRequest,
)
    ensures
        request.text_member("element_id"@) matches Some(id) ==> element_named(request) == Ok::<
            Seq<char>,
            BadRequest,
        >(id),
        request.text_member("element_id"@) is None ==> element_named(request) == Err::<
            Seq<char>,
            BadRequest,
        >(BadRequest::ElementIdRequired),
        point_named(request) == Ok::<(u64, u64), BadRequest>((x, y)) <==> number_member(
            request,
            "x"@,
        ) == Some(x) && number_member(request, "y"@) == Some(y),
        number_member(request, "x"@) is None || number_member(request, "y"@) is None ==> point_named(
            request,
        ) == Err::<(u64, u64), BadRequest>(BadRequest::CoordinatesRequired),
        request.member("x"@) is None ==> number_member(request, "x"@) is None,
        request.member("x"@) matches Some(member) ==> number_member(request, "x"@)
            == json::double_bits(member),
        names_call(request, Ok(call)) <==> request.text_member("name"@) == Some(call.name@)
            && json::json_content(call.params) == (match request.member("params"@) {
            Some(params) => params,
            None => JsonView::Null,
        }),
        names_call(request, Err(BadRequest::NameRequired)) <==> request.text_member(
            "name"@,
        ) is None,
{
}

/// No two reasons why a request cannot be carried out are told in the same words.
pub proof fn reasons_are_told_apart(a: BadRequest, b: BadRequest)
    ensures
        a.text() == b.text() <==> a == b,
{
    reveal_strlit("invalid JSON body");
    reveal_strlit("element_id required");
    reveal_strlit("x and y required");
    reveal_strlit("name required");
    reveal_strlit("steps (array) required");
    reveal_strlit("steps must not be empty");
    assert("invalid JSON body"@.len() == 17);
    assert("element_id required"@.len() == 19);
    assert("x and y required"@.len() == 16);
    assert("name required"@.len() == 13);
    assert("steps (array) required"@.len() == 22);
    assert("steps must not be empty"@.len() == 23);
}

/// A response with a JSON body begins with the phrase of its status, tells how many bytes the body takes, and
/// ends with it.
pub proof fn replies_carry_their_status_and_body(status: Status, body: JsonView)
    ensures
        ({
            let text = json::rendered_json(body);
            let head = "HTTP/1.1 "@ + status.phrase();
            let length = text::decimal(crate::utf16::utf8_units(text));
            exists|kind: Seq<char>, close: Seq<char>|
                reply_of(status, body) == #[trigger] (head + kind + length + close + text) && kind
                    == "\r\nContent-Type: application/json\r\nContent-Length: "@ && close
                    == "\r\nConnection: close\r\n\r\n"@
        }),
{
    let text = json::rendered_json(body);
    let head = "HTTP/1.1 "@ + status.phrase();
    let kind = "\r\nContent-Type: application/json\r\nContent-Length: "@;
    let length = text::decimal(crate::utf16::utf8_units(text));
    let close = "\r\nConnection: close\r\n\r\n"@;
    assert(reply_of(status, body) =~= head + kind + length + close + text);
}

} // verus!
