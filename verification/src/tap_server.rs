//! A server without dependencies on a JSON library that lists the elements on screen and takes taps.
//! Bodies are flat objects, read by searching for their fields.
use crate::devtool;
use crate::devtool::{Entry, Snapshot};
use crate::devtool_server;
use crate::geometry::Pixels;
use crate::http::{RequestHead, Status};
use crate::text;
use vstd::prelude::*;
use vstd::string::*;

verus! {

/// A tap that waits to be carried out.
#[derive(Clone, Copy, Debug, PartialEq, Eq, Structural)]
pub struct PendingTap {
    pub x: Pixels,
    pub y: Pixels,
}

/// Taps that wait to be carried out, in order.
pub struct TapQueue {
    pub taps: Vec<PendingTap>,
}

impl TapQueue {
    /// Starts without taps.
    pub fn new() -> (queue: Self)
        ensures
            queue.taps@.len() == 0,
    {
        TapQueue { taps: Vec::new() }
    }

    /// Adds a tap behind the others.
    pub fn enqueue_tap(&mut self, x: Pixels, y: Pixels)
        ensures
            final(self).taps@ == old(self).taps@.push(PendingTap { x, y }),
    {
        self.taps.push(PendingTap { x, y });
    }

    /// Takes out all taps, in order.
    pub fn drain_pending_taps(&mut self) -> (drained: Vec<PendingTap>)
        ensures
            drained@ == old(self).taps@,
            final(self).taps@ == Seq::<PendingTap>::empty(),
    {
        let mut drained: Vec<PendingTap> = Vec::new();
        std::mem::swap(&mut drained, &mut self.taps);
        drained
    }
}

/// A text with a backslash in front of every backslash and quote.
pub open spec fn escaped(s: Seq<char>) -> Seq<char>
    decreases s.len(),
{
    if s.len() == 0 {
        Seq::empty()
    } else if s.last() == '\\' || s.last() == '"' {
        escaped(s.drop_last()).push('\\').push(s.last())
    } else {
        escaped(s.drop_last()).push(s.last())
    }
}

/// Puts a backslash in front of every backslash and quote.
pub fn json_escape(s: &str) -> (out: String)
    ensures
        out@ == escaped(s@),
{
    let chars: Vec<char> = text::to_chars(s);
    let mut out: String = String::new();
    let mut i: usize = 0;
    while i < chars.len()
        invariant
            i <= chars@.len(),
            out@ == escaped(chars@.take(i as int)),
        decreases chars@.len() - i,
    {
        assert(chars@.take(i as int + 1).drop_last() =~= chars@.take(i as int));
        if chars[i] == '\\' || chars[i] == '"' {
            out.push('\\');
        }
        out.push(chars[i]);
        i = i + 1;
    }
    assert(chars@.take(chars@.len() as int) =~= chars@);
    out
}

/// A text with every escape undone.
pub open spec fn unescaped(s: Seq<char>) -> Seq<char>
    decreases s.len(),
{
    if s.len() == 0 {
        Seq::empty()
    } else if s[0] == '\\' && s.len() >= 2 {
        seq![s[1]] + unescaped(s.skip(2))
    } else {
        seq![s[0]] + unescaped(s.skip(1))
    }
}

/// The name of a field in quotes.
pub open spec fn quoted(field: Seq<char>) -> Seq<char> {
    seq!['"'] + field + seq!['"']
}

/// What stands behind the name of a field and the next colon, without the white space in front.
pub open spec fn field_value(body: Seq<char>, field: Seq<char>) -> Option<Seq<char>> {
    match text::first_occurrence(body, quoted(field)) {
        Some(at) => {
            let after = body.skip(at + quoted(field).len());
            match text::first_occurrence(after, seq![':']) {
                Some(colon) => Some(text::skip_white(after.skip(colon + 1))),
                None => None,
            }
        },
        None => None,
    }
}

/// The text in quotes that a field holds, up to the next quote.
pub open spec fn string_field(body: Seq<char>, field: Seq<char>) -> Option<Seq<char>> {
    match field_value(body, field) {
        Some(value) => if value.len() > 0 && value[0] == '"' {
            let inner = value.skip(1);
            match text::first_occurrence(inner, seq!['"']) {
                Some(end) => Some(inner.take(end)),
                None => None,
            }
        } else {
            None
        },
        None => None,
    }
}

/// Whether a character ends a number.
pub open spec fn ends_number(c: char) -> bool {
    c == ',' || c == '}' || text::is_white(c)
}

/// How many characters stand before the end of a number.
pub open spec fn number_len(s: Seq<char>) -> nat
    decreases s.len(),
{
    if s.len() == 0 || ends_number(s[0]) {
        0
    } else {
        1 + number_len(s.skip(1))
    }
}

/// The characters of the number that a field holds.
pub open spec fn number_field(body: Seq<char>, field: Seq<char>) -> Option<Seq<char>> {
    match field_value(body, field) {
        Some(value) => Some(text::trimmed(value.take(number_len(value) as int))),
        None => None,
    }
}

/// Puts the name of a field in quotes.
fn quote(field: &str) -> (name: Vec<char>)
    ensures
        name@ == quoted(field@),
{
    let chars: Vec<char> = text::to_chars(field);
    let mut name: Vec<char> = Vec::new();
    name.push('"');
    let mut i: usize = 0;
    while i < chars.len()
        invariant
            i <= chars@.len(),
            chars@ == field@,
            name@ == seq!['"'] + field@.take(i as int),
        decreases chars@.len() - i,
    {
        name.push(chars[i]);
        i = i + 1;
        assert(name@ =~= seq!['"'] + field@.take(i as int));
    }
    name.push('"');
    assert(name@ =~= quoted(field@));
    name
}

/// Makes a list of one character.
fn single(c: char) -> (list: Vec<char>)
    ensures
        list@ == seq![c],
{
    let mut list: Vec<char> = Vec::new();
    list.push(c);
    assert(list@ =~= seq![c]);
    list
}

/// Finds where the value of a field begins.
fn value_start(body: &Vec<char>, field: &str) -> (start: Option<usize>)
    ensures
        match start {
            Some(at) => at <= body@.len() && field_value(body@, field@) == Some(
                body@.skip(at as int),
            ),
            None => field_value(body@, field@) is None,
        },
{
    let total: usize = body.len();
    let key: Vec<char> = quote(field);
    assert(body@.skip(0) =~= body@);
    match text::find_from(body, &key, 0) {
        Some(at) => {
            assert(at + key@.len() <= total);
            let behind: usize = at + key.len();
            let colon: Vec<char> = single(':');
            let ghost after = body@.skip(behind as int);
            match text::find_from(body, &colon, behind) {
                Some(place) => {
                    assert(place + 1 <= total);
                    assert(after.skip(place - behind + 1) =~= body@.skip(place as int + 1));
                    Some(text::white_end(body, place + 1))
                },
                None => None,
            }
        },
        None => None,
    }
}

/// Reads a text field of a flat object.
pub fn parse_string_field(body: &str, field: &str) -> (found: Option<String>)
    ensures
        match found {
            Some(characters) => string_field(body@, field@) == Some(characters@),
            None => string_field(body@, field@) is None,
        },
{
    let chars: Vec<char> = text::to_chars(body);
    match value_start(&chars, field) {
        Some(start) => {
            if start == chars.len() || chars[start] != '"' {
                return None;
            }
            let mark: Vec<char> = single('"');
            let ghost inner = chars@.skip(start as int + 1);
            assert(chars@.skip(start as int).skip(1) =~= inner);
            match text::find_from(&chars, &mark, start + 1) {
                Some(end) => {
                    assert(chars@.subrange(start as int + 1, end as int) =~= inner.take(
                        end - (start + 1),
                    ));
                    Some(text::copy_range(&chars, start + 1, end))
                },
                None => None,
            }
        },
        None => None,
    }
}

/// Reads the characters of a number field of a flat object.
pub fn parse_number_text(body: &str, field: &str) -> (found: Option<String>)
    ensures
        match found {
            Some(characters) => number_field(body@, field@) == Some(characters@),
            None => number_field(body@, field@) is None,
        },
{
    let chars: Vec<char> = text::to_chars(body);
    match value_start(&chars, field) {
        Some(start) => {
            let mut end: usize = start;
            while end < chars.len() && chars[end] != ',' && chars[end] != '}' && !text::whitespace(
                chars[end],
            )
                invariant
                    start <= end <= chars@.len(),
                    number_len(chars@.skip(start as int)) == (end - start) + number_len(
                        chars@.skip(end as int),
                    ),
                decreases chars@.len() - end,
            {
                assert(chars@.skip(end as int).skip(1) =~= chars@.skip(end as int + 1));
                end = end + 1;
            }
            let number: String = text::copy_range(&chars, start, end);
            let digits: Vec<char> = text::to_chars(number.as_str());
            proof {
                assert(digits@.skip(0) =~= digits@);
                assert(digits@ =~= chars@.skip(start as int).take(end - start));
            }
            Some(text::trim_from(&digits, 0))
        },
        None => None,
    }
}

/// What a request asks for.
#[derive(Clone, Copy, Debug, PartialEq, Eq, Structural)]
pub enum TapRoute {
    Ping,
    Elements,
    Tap,
    TapXy,
    Unknown,
}

/// What a method and path ask for.
pub open spec fn tap_route_of(method: Seq<char>, path: Seq<char>) -> TapRoute {
    if method == "GET"@ && path == "/ping"@ {
        TapRoute::Ping
    } else if method == "GET"@ && path == "/elements"@ {
        TapRoute::Elements
    } else if method == "POST"@ && path == "/tap"@ {
        TapRoute::Tap
    } else if method == "POST"@ && path == "/tap_xy"@ {
        TapRoute::TapXy
    } else {
        TapRoute::Unknown
    }
}

/// Tells what a request asks for.
pub fn tap_route(head: &RequestHead) -> (route: TapRoute)
    ensures
        route == tap_route_of(head.method@, head.path@),
{
    let path: &str = head.path.as_str();
    if text::same_text(head.method.as_str(), "GET") {
        if text::same_text(path, "/ping") {
            return TapRoute::Ping;
        }
        if text::same_text(path, "/elements") {
            return TapRoute::Elements;
        }
    }
    if text::same_text(head.method.as_str(), "POST") {
        if text::same_text(path, "/tap") {
            return TapRoute::Tap;
        }
        if text::same_text(path, "/tap_xy") {
            return TapRoute::TapXy;
        }
    }
    proof {
        reveal_strlit("GET");
        reveal_strlit("POST");
        assert("GET"@.len() != "POST"@.len());
    }
    TapRoute::Unknown
}

/// Answers a request that needs nothing but its route: a sign of life, or that there is no such
/// thing.
pub fn plain_reply(route: TapRoute) -> (reply: Option<(Status, String)>)
    ensures
        match reply {
            Some((status, body)) => match route {
                TapRoute::Ping => status is Success && body@ == "{\"ok\":true}"@,
                TapRoute::Unknown => status is NotFound && body@ == "{\"ok\":false}"@,
                _ => false,
            },
            None => !(route is Ping) && !(route is Unknown),
        },
{
    match route {
        TapRoute::Ping => Some((Status::Success, "{\"ok\":true}".to_owned())),
        TapRoute::Unknown => Some((Status::NotFound, "{\"ok\":false}".to_owned())),
        _ => None,
    }
}

/// Why a tap cannot be carried out as it stands.
#[derive(Clone, Copy, Debug, PartialEq, Eq, Structural)]
pub enum TapError {
    /// The body is no text.
    NotText,
    ElementIdRequired,
    CoordinatesRequired,
}

/// The answer to a tap that cannot be carried out.
pub open spec fn tap_error_body(error: TapError) -> Seq<char> {
    match error {
        TapError::NotText => "{\"ok\":false}"@,
        TapError::ElementIdRequired => "{\"ok\":false,\"error\":\"element_id required\"}"@,
        TapError::CoordinatesRequired => "{\"ok\":false,\"error\":\"x and y required\"}"@,
    }
}

/// Answers a tap that cannot be carried out.
pub fn tap_error_reply(error: TapError) -> (reply: (Status, String))
    ensures
        reply.0 is BadRequest,
        reply.1@ == tap_error_body(error),
{
    let body: &str = match error {
        TapError::NotText => "{\"ok\":false}",
        TapError::ElementIdRequired => "{\"ok\":false,\"error\":\"element_id required\"}",
        TapError::CoordinatesRequired => "{\"ok\":false,\"error\":\"x and y required\"}",
    };
    (Status::BadRequest, body.to_owned())
}

/// The element that the body of a tap names.
pub open spec fn tap_target(body: Seq<u8>) -> Result<Seq<char>, TapError> {
    if !vstd::utf8::valid_utf8(body) {
        Err(TapError::NotText)
    } else {
        match string_field(vstd::utf8::decode_utf8(body), "element_id"@) {
            Some(id) => Ok(id),
            None => Err(TapError::ElementIdRequired),
        }
    }
}

/// Reads the element that the body of a tap names.
pub fn read_tap(body: &[u8]) -> (target: Result<String, TapError>)
    ensures
        match target {
            Ok(id) => tap_target(body@) == Ok::<Seq<char>, TapError>(id@),
            Err(error) => tap_target(body@) == Err::<Seq<char>, TapError>(error),
        },
{
    match text::decode_text(body) {
        Some(decoded) => match parse_string_field(decoded.as_str(), "element_id") {
            Some(id) => Ok(id),
            None => Err(TapError::ElementIdRequired),
        },
        None => Err(TapError::NotText),
    }
}

/// The characters of the two coordinates that the body of a tap names, where they are there.
pub open spec fn tap_point(body: Seq<u8>) -> Result<(Seq<char>, Seq<char>), TapError> {
    if !vstd::utf8::valid_utf8(body) {
        Err(TapError::NotText)
    } else {
        let decoded = vstd::utf8::decode_utf8(body);
        match (number_field(decoded, "x"@), number_field(decoded, "y"@)) {
            (Some(x), Some(y)) => Ok((x, y)),
            _ => Err(TapError::CoordinatesRequired),
        }
    }
}

/// Reads the characters of the two coordinates that the body of a tap names.
pub fn handle_tap_xy(body: &[u8]) -> (target: Result<(String, String), TapError>)
    ensures
        match target {
            Ok((x, y)) => tap_point(body@) == Ok::<(Seq<char>, Seq<char>), TapError>((x@, y@)),
            Err(error) => tap_point(body@) == Err::<(Seq<char>, Seq<char>), TapError>(error),
        },
{
    match text::decode_text(body) {
        Some(decoded) => match (
            parse_number_text(decoded.as_str(), "x"),
            parse_number_text(decoded.as_str(), "y"),
        ) {
            (Some(x), Some(y)) => Ok((x, y)),
            _ => Err(TapError::CoordinatesRequired),
        },
        None => Err(TapError::NotText),
    }
}

/// The answer to a tap at a point, whose coordinates are given in digits.
pub open spec fn tapped(x: Seq<char>, y: Seq<char>, frame_id: Option<u64>) -> Seq<char> {
    "{\"ok\":true,\"x\":"@ + x + ",\"y\":"@ + y + match frame_id {
        Some(id) => ",\"frame_id\":"@ + text::decimal(id as nat) + "}"@,
        None => "}"@,
    }
}

/// Answers a tap at a point.
pub fn tapped_body(x: &str, y: &str, frame_id: Option<u64>) -> (body: String)
    ensures
        body@ == tapped(x@, y@, frame_id),
{
    let mut body: String = String::new();
    body.append("{\"ok\":true,\"x\":");
    body.append(x);
    body.append(",\"y\":");
    body.append(y);
    if let Some(id) = frame_id {
        body.append(",\"frame_id\":");
        text::push_decimal(&mut body, id);
    }
    body.append("}");
    assert(body@ =~= tapped(x@, y@, frame_id));
    body
}

/// Answers a tap on an element: with its center in digits and the frame, or that there is none.
pub fn tap_reply(center: Option<(String, String)>, frame_id: u64) -> (reply: (Status, String))
    ensures
        match center {
            Some((x, y)) => reply.0 is Success && reply.1@ == tapped(x@, y@, Some(frame_id)),
            None => reply.0 is NotFound && reply.1@
                == "{\"ok\":false,\"error\":\"element not found\"}"@,
        },
{
    match center {
        Some((x, y)) => (Status::Success, tapped_body(x.as_str(), y.as_str(), Some(frame_id))),
        None => (
            Status::NotFound,
            "{\"ok\":false,\"error\":\"element not found\"}".to_owned(),
        ),
    }
}

/// What a tap on an element needs to know of it.
#[derive(Debug, PartialEq, Eq)]
pub struct TapPlace {
    /// The area that the element covers.
    pub area: Pixels,
    pub center_x: Pixels,
    pub center_y: Pixels,
    /// The center in digits.
    pub x_digits: String,
    pub y_digits: String,
}

/// The areas of places.
pub open spec fn place_areas(places: Seq<TapPlace>) -> Seq<Pixels> {
    places.map_values(|place: TapPlace| place.area)
}

/// The element that a tap with this body hits, or why it hits none.
pub open spec fn tap_hit(
    body: Seq<u8>,
    entries: Seq<devtool::EntryView>,
    places: Seq<TapPlace>,
) -> Result<Option<int>, TapError> {
    match tap_target(body) {
        Ok(path) => Ok(
            devtool_server::topmost(entries, place_areas(places), path, entries.len() as int),
        ),
        Err(error) => Err(error),
    }
}

/// Whether `reply` answers a tap that hits `hit`.
pub open spec fn answers_tap(
    hit: Result<Option<int>, TapError>,
    places: Seq<TapPlace>,
    frame_id: u64,
    reply: (Status, Seq<char>),
) -> bool {
    match hit {
        Ok(Some(index)) => reply.0 is Success && reply.1 == tapped(
            places[index].x_digits@,
            places[index].y_digits@,
            Some(frame_id),
        ),
        Ok(None) => reply.0 is NotFound && reply.1
            == "{\"ok\":false,\"error\":\"element not found\"}"@,
        Err(error) => reply.0 is BadRequest && reply.1 == tap_error_body(error),
    }
}

/// The taps that wait after a tap that hits `hit`: one more at the center of the element, or the same
/// where there is none.
pub open spec fn taps_after(
    taps: Seq<PendingTap>,
    hit: Result<Option<int>, TapError>,
    places: Seq<TapPlace>,
) -> Seq<PendingTap> {
    match hit {
        Ok(Some(index)) => taps.push(
            PendingTap { x: places[index].center_x, y: places[index].center_y },
        ),
        _ => taps,
    }
}

/// Carries out a tap on the element that its body names. `places` tells of each element of the
/// snapshot where it is.
pub fn handle_tap(
    taps: &mut TapQueue,
    body: &[u8],
    snapshot: &Snapshot,
    places: &Vec<TapPlace>,
) -> (reply: (Status, String))
    requires
        places@.len() == snapshot.entries@.len(),
    ensures
        answers_tap(
            tap_hit(body@, snapshot@.1, places@),
            places@,
            snapshot.frame_id,
            (reply.0, reply.1@),
        ),
        final(taps).taps@ == taps_after(
            old(taps).taps@,
            tap_hit(body@, snapshot@.1, places@),
            places@,
        ),
{
    let path: String = match read_tap(body) {
        Ok(path) => path,
        Err(error) => {
            return tap_error_reply(error);
        },
    };
    let mut areas: Vec<Pixels> = Vec::new();
    let mut i: usize = 0;
    while i < places.len()
        invariant
            i <= places@.len(),
            areas@ == place_areas(places@).take(i as int),
        decreases places@.len() - i,
    {
        areas.push(places[i].area);
        i = i + 1;
        assert(areas@ =~= place_areas(places@).take(i as int));
    }
    assert(areas@ =~= place_areas(places@));
    let center: Option<(String, String)> = match devtool_server::resolve_index(
        snapshot,
        &areas,
        path.as_str(),
    ) {
        Some(index) => {
            let place: &TapPlace = &places[index];
            taps.enqueue_tap(place.center_x, place.center_y);
            Some((place.x_digits.clone(), place.y_digits.clone()))
        },
        None => None,
    };
    tap_reply(center, snapshot.frame_id)
}

/// A tap is answered with success exactly when it adds a tap to those that wait, and it never adds
/// more than one.
pub proof fn taps_wait_exactly_for_answered_requests(
    taps: Seq<PendingTap>,
    hit: Result<Option<int>, TapError>,
    places: Seq<TapPlace>,
    frame_id: u64,
    reply: (Status, Seq<char>),
)
    requires
        answers_tap(hit, places, frame_id, reply),
    ensures
        reply.0 is Success <==> taps_after(taps, hit, places).len() == taps.len() + 1,
        !(reply.0 is Success) <==> taps_after(taps, hit, places) == taps,
{
    assert(taps_after(taps, hit, places) == taps ==> taps_after(taps, hit, places).len()
        == taps.len());
}

/// A point on screen, with its coordinates in digits.
#[derive(Debug, PartialEq, Eq)]
pub struct TapPoint {
    pub x: Pixels,
    pub y: Pixels,
    pub x_digits: String,
    pub y_digits: String,
}

/// Carries out a tap at a point, which is missing where the coordinates are no numbers.
pub fn tap_at(taps: &mut TapQueue, point: &Option<TapPoint>) -> (reply: (Status, String))
    ensures
        match point {
            Some(point) => {
                &&& reply.0 is Success
                &&& reply.1@ == tapped(point.x_digits@, point.y_digits@, None)
                &&& final(taps).taps@ == old(taps).taps@.push(
                    PendingTap { x: point.x, y: point.y },
                )
            },
            None => {
                &&& reply.0 is BadRequest
                &&& reply.1@ == tap_error_body(TapError::CoordinatesRequired)
                &&& final(taps).taps@ == old(taps).taps@
            },
        },
{
    match point {
        Some(point) => {
            taps.enqueue_tap(point.x, point.y);
            (
                Status::Success,
                tapped_body(point.x_digits.as_str(), point.y_digits.as_str(), None),
            )
        },
        None => tap_error_reply(TapError::CoordinatesRequired),
    }
}

/// Coordinates and extents in digits.
#[derive(Debug, PartialEq, Eq)]
pub struct BoundsDigits {
    pub x: String,
    pub y: String,
    pub w: String,
    pub h: String,
}

/// How an element is listed.
pub open spec fn entry_text(entry: devtool::EntryView, bounds: BoundsDigits) -> Seq<char> {
    "{\"path\":\""@ + escaped(entry.path) + "\",\"instance\":"@ + text::decimal(
        entry.instance_id as nat,
    ) + ",\"x\":"@ + bounds.x@ + ",\"y\":"@ + bounds.y@ + ",\"w\":"@ + bounds.w@ + ",\"h\":"@
        + bounds.h@ + "}"@
}

/// How the first `count` elements are listed, with commas between them.
pub open spec fn entries_text(
    entries: Seq<devtool::EntryView>,
    bounds: Seq<BoundsDigits>,
    count: int,
) -> Seq<char>
    decreases count,
{
    if count <= 0 {
        Seq::empty()
    } else if count == 1 {
        entry_text(entries[0], bounds[0])
    } else {
        entries_text(entries, bounds, count - 1) + ","@ + entry_text(
            entries[count - 1],
            bounds[count - 1],
        )
    }
}

/// Lists an element.
fn push_entry(out: &mut String, entry: &Entry, bounds: &BoundsDigits)
    ensures
        final(out)@ == old(out)@ + entry_text(entry@, *bounds),
{
    let path: String = json_escape(entry.path.as_str());
    out.append("{\"path\":\"");
    out.append(path.as_str());
    out.append("\",\"instance\":");
    text::push_decimal(out, entry.instance_id as u64);
    out.append(",\"x\":");
    out.append(bounds.x.as_str());
    out.append(",\"y\":");
    out.append(bounds.y.as_str());
    out.append(",\"w\":");
    out.append(bounds.w.as_str());
    out.append(",\"h\":");
    out.append(bounds.h.as_str());
    out.append("}");
    assert(out@ =~= old(out)@ + entry_text(entry@, *bounds));
}

/// Lists the elements of a frame.
pub fn elements_text(frame_id: u64, entries: &Vec<Entry>, bounds: &Vec<BoundsDigits>) -> (body:
    String)
    requires
        bounds@.len() == entries@.len(),
    ensures
        body@ == "{\"frame_id\":"@ + text::decimal(frame_id as nat) + ",\"entries\":["@
            + entries_text(
            devtool::entry_list(entries@),
            bounds@,
            entries@.len() as int,
        ) + "]}"@,
{
    let mut body: String = String::new();
    body.append("{\"frame_id\":");
    text::push_decimal(&mut body, frame_id);
    body.append(",\"entries\":[");
    let ghost head = body@;
    let ghost list = devtool::entry_list(entries@);
    let mut i: usize = 0;
    assert(body@ =~= head + entries_text(list, bounds@, 0));
    while i < entries.len()
        invariant
            i <= entries@.len(),
            bounds@.len() == entries@.len(),
            list == devtool::entry_list(entries@),
            body@ == head + entries_text(list, bounds@, i as int),
        decreases entries@.len() - i,
    {
        if i > 0 {
            body.append(",");
        }
        push_entry(&mut body, &entries[i], &bounds[i]);
        i = i + 1;
        proof {
            assert(list[i - 1] == entries@[i - 1]@);
            assert(body@ =~= head + entries_text(list, bounds@, i as int));
        }
    }
    body.append("]}");
    assert(body@ =~= "{\"frame_id\":"@ + text::decimal(frame_id as nat) + ",\"entries\":["@
        + entries_text(list, bounds@, entries@.len() as int) + "]}"@);
    body
}

proof fn lemma_unescaped_appends(head: Seq<char>, s: Seq<char>)
    ensures
        unescaped(escaped(head) + s) == head + unescaped(s),
    decreases head.len(),
{
    if head.len() == 0 {
        assert(escaped(head) + s =~= s);
        assert(head + unescaped(s) =~= unescaped(s));
    } else {
        let rest = head.drop_last();
        let c = head.last();
        let tail = if c == '\\' || c == '"' {
            seq!['\\', c] + s
        } else {
            seq![c] + s
        };
        assert(escaped(head) + s =~= escaped(rest) + tail);
        lemma_unescaped_appends(rest, tail);
        if c == '\\' || c == '"' {
            assert(tail.skip(2) =~= s);
        } else {
            assert(tail.skip(1) =~= s);
        }
        assert(unescaped(tail) =~= seq![c] + unescaped(s));
        assert(head + unescaped(s) =~= rest + unescaped(tail));
    }
}

/// Undoing the escapes gives the text back.
pub proof fn escaping_can_be_undone(s: Seq<char>)
    ensures
        unescaped(escaped(s)) == s,
{
    lemma_unescaped_appends(s, Seq::empty());
    assert(escaped(s) + Seq::<char>::empty() =~= escaped(s));
    assert(s + unescaped(Seq::empty()) =~= s);
}

/// The flat object with one text field.
pub open spec fn flat_object(field: Seq<char>, value: Seq<char>) -> Seq<char> {
    seq!['{'] + quoted(field) + seq![':'] + quoted(value) + seq!['}']
}

/// What a flat object says of a field is read back, whatever the field is called and whatever the
/// text is that it holds, as long as no quote stands in it.
pub proof fn fields_are_read_back(field: Seq<char>, value: Seq<char>)
    requires
        !value.contains('"'),
    ensures
        string_field(flat_object(field, value), field) == Some(value),
{
    let body = flat_object(field, value);
    let key = quoted(field);
    let len = key.len() as int;
    assert(body.subrange(1, 1 + len) =~= key);
    assert(!text::occurs_at(body, key, 0)) by {
        if text::occurs_at(body, key, 0) {
            assert(body.subrange(0, len)[0] == key[0]);
        }
    }
    text::lemma_first_occurrence(body, key, 1);
    let after = body.skip(1 + len);
    assert(after =~= seq![':'] + quoted(value) + seq!['}']);
    assert(after.subrange(0, 1) =~= seq![':']);
    text::lemma_first_occurrence(after, seq![':'], 0);
    let rest = after.skip(1);
    assert(rest =~= quoted(value) + seq!['}']);
    assert(rest[0] == '"');
    assert(text::skip_white(rest) == rest);
    let inner = rest.skip(1);
    assert(inner =~= value + seq!['"', '}']);
    let mark = seq!['"'];
    assert(inner.subrange(value.len() as int, value.len() as int + 1) =~= mark);
    assert forall|i: int| 0 <= i < value.len() implies !#[trigger] text::occurs_at(
        inner,
        mark,
        i,
    ) by {
        if text::occurs_at(inner, mark, i) {
            assert(inner.subrange(i, i + 1)[0] == mark[0]);
            assert(value[i] == '"');
            assert(value.contains('"'));
        }
    }
    text::lemma_first_occurrence(inner, mark, value.len() as int);
    assert(inner.take(value.len() as int) =~= value);
}

/// Each thing that can be asked for has one method and one path, and all else asks for nothing.
pub proof fn tap_routes_are_told_by_method_and_path(method: Seq<char>, path: Seq<char>)
    ensures
        tap_route_of(method, path) is Ping <==> method == "GET"@ && path == "/ping"@,
        tap_route_of(method, path) is Elements <==> method == "GET"@ && path == "/elements"@,
        tap_route_of(method, path) is Tap <==> method == "POST"@ && path == "/tap"@,
        tap_route_of(method, path) is TapXy <==> method == "POST"@ && path == "/tap_xy"@,
{
    reveal_strlit("GET");
    reveal_strlit("POST");
    reveal_strlit("/ping");
    reveal_strlit("/elements");
    reveal_strlit("/tap");
    reveal_strlit("/tap_xy");
    assert("/ping"@.len() == 5 && "/elements"@.len() == 9);
    assert("/tap"@.len() == 4 && "/tap_xy"@.len() == 7);
    assert("GET"@.len() == 3 && "POST"@.len() == 4);
}

/// Whether a text can stand in a flat object as a number: it is not empty and holds neither white
/// space nor a quote, a comma or a brace.
pub open spec fn is_number_text(s: Seq<char>) -> bool {
    s.len() > 0 && forall|i: int|
        0 <= i < s.len() ==> !text::is_white(#[trigger] s[i]) && s[i] != '"' && s[i] != ',' && s[i]
            != '}'
}

proof fn lemma_number_len(number: Seq<char>, rest: Seq<char>)
    requires
        forall|i: int| 0 <= i < number.len() ==> !ends_number(#[trigger] number[i]),
        rest.len() > 0,
        ends_number(rest[0]),
    ensures
        number_len(number + rest) == number.len(),
    decreases number.len(),
{
    let whole = number + rest;
    if number.len() == 0 {
        assert(whole =~= rest);
    } else {
        let shorter = number.skip(1);
        assert(whole.skip(1) =~= shorter + rest);
        assert forall|i: int| 0 <= i < shorter.len() implies !ends_number(#[trigger] shorter[i]) by {
            assert(shorter[i] == number[i + 1]);
        }
        assert(whole[0] == number[0]);
        lemma_number_len(shorter, rest);
    }
}

#[verifier::spinoff_prover]
#[verifier::rlimit(60)]
proof fn lemma_number_is_read(
    front: Seq<char>,
    field: Seq<char>,
    number: Seq<char>,
    back: Seq<char>,
)
    requires
        is_number_text(number),
        back.len() > 0,
        back[0] == ',' || back[0] == '}',
        forall|i: int|
            0 <= i < front.len() ==> !#[trigger] text::occurs_at(
                front + quoted(field) + seq![':'] + number + back,
                quoted(field),
                i,
            ),
    ensures
        number_field(front + quoted(field) + seq![':'] + number + back, field) == Some(number),
{
    let body = front + quoted(field) + seq![':'] + number + back;
    let key = quoted(field);
    let at = front.len() as int;
    assert(body.subrange(at, at + key.len()) =~= key);
    text::lemma_first_occurrence(body, key, at);
    let after = body.skip(at + key.len());
    assert(after =~= seq![':'] + number + back);
    assert(after.subrange(0, 1) =~= seq![':']);
    text::lemma_first_occurrence(after, seq![':'], 0);
    let value = after.skip(1);
    assert(value =~= number + back);
    assert(value[0] == number[0]);
    assert(text::skip_white(value) == value);
    assert forall|i: int| 0 <= i < number.len() implies !ends_number(#[trigger] number[i]) by {}
    lemma_number_len(number, back);
    assert(value.take(number.len() as int) =~= number);
    lemma_number_is_trimmed(number);
}

proof fn lemma_number_is_trimmed(number: Seq<char>)
    requires
        is_number_text(number),
    ensures
        text::trimmed(number) == number,
{
    let (start, end) = text::trimming_takes_white_space_alone(number);
    if start > 0 {
        assert(text::is_white(number[0]));
    }
    if end < number.len() {
        assert(text::is_white(number[number.len() - 1]));
    }
    assert(number.subrange(0, number.len() as int) =~= number);
}

/// The flat object with two numbers, as a tap at a point names them.
pub open spec fn point_object(x: Seq<char>, y: Seq<char>) -> Seq<char> {
    seq!['{'] + quoted(seq!['x']) + seq![':'] + x + seq![','] + quoted(seq!['y']) + seq![':'] + y
        + seq!['}']
}

/// The two numbers that a tap at a point names are read back, that across first.
pub proof fn points_are_read_back(body: Seq<u8>, x: Seq<char>, y: Seq<char>)
    requires
        is_number_text(x),
        is_number_text(y),
        vstd::utf8::valid_utf8(body),
        vstd::utf8::decode_utf8(body) == point_object(x, y),
    ensures
        tap_point(body) == Ok::<(Seq<char>, Seq<char>), TapError>((x, y)),
{
    reveal_strlit("x");
    reveal_strlit("y");
    assert("x"@ =~= seq!['x']);
    assert("y"@ =~= seq!['y']);
    let whole = point_object(x, y);
    let front = seq!['{'];
    let back = seq![','] + quoted(seq!['y']) + seq![':'] + y + seq!['}'];
    assert(whole =~= front + quoted(seq!['x']) + seq![':'] + x + back);
    assert forall|i: int| 0 <= i < front.len() implies !#[trigger] text::occurs_at(
        whole,
        quoted(seq!['x']),
        i,
    ) by {
        text::parts_stand_character_by_character(whole, quoted(seq!['x']), i);
        assert(quoted(seq!['x'])[0] == '"');
        assert(whole[i + 0] == '{');
    }
    lemma_number_is_read(front, seq!['x'], x, back);
    let before = seq!['{'] + quoted(seq!['x']) + seq![':'] + x + seq![','];
    let end = seq!['}'];
    let key = quoted(seq!['y']);
    assert(whole =~= before + key + seq![':'] + y + end);
    assert forall|i: int| 0 <= i < before.len() implies !#[trigger] text::occurs_at(
        whole,
        key,
        i,
    ) by {
        text::parts_stand_character_by_character(whole, key, i);
        assert(key[0] == '"' && key[1] == 'y');
        assert(whole[i + 0] == before[i]);
        if i == 1 {
            assert(whole[i + 1] == 'x');
        } else if i == 3 {
            assert(whole[i + 1] == ':');
        } else if 5 <= i < 5 + x.len() {
            assert(before[i] == x[i - 5]);
        }
        if text::occurs_at(whole, key, i) {
            assert(whole[i + 0] == key[0]);
            assert(whole[i + 1] == key[1]);
        }
    }
    lemma_number_is_read(before, seq!['y'], y, end);
}

/// A tap whose body is no text, or lacks what it should name, is refused with the reason why.
pub proof fn incomplete_taps_are_refused(body: Seq<u8>)
    ensures
        !vstd::utf8::valid_utf8(body) ==> tap_target(body) == Err::<Seq<char>, TapError>(
            TapError::NotText,
        ) && tap_point(body) == Err::<(Seq<char>, Seq<char>), TapError>(TapError::NotText),
        vstd::utf8::valid_utf8(body) ==> {
            let written = vstd::utf8::decode_utf8(body);
            &&& string_field(written, "element_id"@) matches Some(id) ==> tap_target(body) == Ok::<
                Seq<char>,
                TapError,
            >(id)
            &&& string_field(written, "element_id"@) is None ==> tap_target(body) == Err::<
                Seq<char>,
                TapError,
            >(TapError::ElementIdRequired)
            &&& number_field(written, "x"@) is None || number_field(written, "y"@) is None
                ==> tap_point(body) == Err::<(Seq<char>, Seq<char>), TapError>(
                TapError::CoordinatesRequired,
            )
        },
        tap_error_body(TapError::NotText) == "{\"ok\":false}"@,
        tap_error_body(TapError::ElementIdRequired)
            == "{\"ok\":false,\"error\":\"element_id required\"}"@,
        tap_error_body(TapError::CoordinatesRequired)
            == "{\"ok\":false,\"error\":\"x and y required\"}"@,
{
}

/// What an answer to a tap says of the point is read back from it, that across under `x` and that
/// down under `y`.
pub proof fn answers_tell_where_the_tap_was(x: Seq<char>, y: Seq<char>, frame_id: Option<u64>)
    requires
        is_number_text(x),
        is_number_text(y),
    ensures
        number_field(tapped(x, y, frame_id), seq!['x']) == Some(x),
        number_field(tapped(x, y, frame_id), seq!['y']) == Some(y),
{
    reveal_strlit("{\"ok\":true,\"x\":");
    reveal_strlit(",\"y\":");
    reveal_strlit(",\"frame_id\":");
    reveal_strlit("}");
    let whole = tapped(x, y, frame_id);
    let end = match frame_id {
        Some(id) => ",\"frame_id\":"@ + text::decimal(id as nat) + "}"@,
        None => "}"@,
    };
    assert(end.len() > 0 && (end[0] == ',' || end[0] == '}'));
    let across = quoted(seq!['x']);
    let down = quoted(seq!['y']);
    let front = seq!['{', '"', 'o', 'k', '"', ':', 't', 'r', 'u', 'e', ','];
    assert("{\"ok\":true,\"x\":"@ =~= front + across + seq![':']);
    assert(",\"y\":"@ =~= seq![','] + down + seq![':']);
    let back = seq![','] + down + seq![':'] + y + end;
    assert(whole =~= front + across + seq![':'] + x + back);
    assert forall|i: int| 0 <= i < front.len() implies !#[trigger] text::occurs_at(
        whole,
        across,
        i,
    ) by {
        text::parts_stand_character_by_character(whole, across, i);
        assert(across[0] == '"' && across[1] == 'x');
        if text::occurs_at(whole, across, i) {
            assert(whole[i + 0] == across[0]);
            assert(whole[i + 1] == across[1]);
            assert(whole[i] == front[i]);
            if i + 1 < front.len() {
                assert(whole[i + 1] == front[i + 1]);
            }
        }
    }
    lemma_number_is_read(front, seq!['x'], x, back);
    let before = front + across + seq![':'] + x + seq![','];
    assert(whole =~= before + down + seq![':'] + y + end);
    assert forall|i: int| 0 <= i < before.len() implies !#[trigger] text::occurs_at(
        whole,
        down,
        i,
    ) by {
        text::parts_stand_character_by_character(whole, down, i);
        assert(down[0] == '"' && down[1] == 'y');
        if text::occurs_at(whole, down, i) {
            assert(whole[i + 0] == down[0]);
            assert(whole[i + 1] == down[1]);
            assert(whole[i] == before[i]);
            if i < front.len() {
                assert(before[i] == front[i]);
                if i + 1 < front.len() {
                    assert(whole[i + 1] == front[i + 1]);
                }
            } else if i < front.len() + 4 {
                if i == front.len() {
                    assert(whole[i + 1] == 'x');
                } else if i == front.len() + 2 {
                    assert(whole[i + 1] == ':');
                }
            } else if i < front.len() + 4 + x.len() {
                assert(before[i] == x[i - front.len() - 4]);
            }
        }
    }
    lemma_number_is_read(before, seq!['y'], y, end);
}

/// A tap that hits an element waits behind the others at the center of that element, and the answer
/// names the same center and the frame. One that hits none leaves the others as they are.
pub proof fn taps_wait_at_the_center_of_their_element(
    taps: Seq<PendingTap>,
    body: Seq<u8>,
    entries: Seq<devtool::EntryView>,
    places: Seq<TapPlace>,
    frame_id: u64,
    reply: (Status, Seq<char>),
)
    requires
        places.len() == entries.len(),
        answers_tap(tap_hit(body, entries, places), places, frame_id, reply),
    ensures
        ({
            let after = taps_after(taps, tap_hit(body, entries, places), places);
            match tap_target(body) {
                Ok(path) => match devtool_server::topmost(
                    entries,
                    Seq::new(places.len(), |i: int| places[i].area),
                    path,
                    entries.len() as int,
                ) {
                    Some(index) => {
                        &&& after.len() == taps.len() + 1
                        &&& after[taps.len() as int].x == places[index].center_x
                        &&& after[taps.len() as int].y == places[index].center_y
                        &&& forall|i: int| 0 <= i < taps.len() ==> #[trigger] after[i] == taps[i]
                        &&& reply.0 is Success
                        &&& reply.1 == tapped(
                            places[index].x_digits@,
                            places[index].y_digits@,
                            Some(frame_id),
                        )
                    },
                    None => after == taps && reply.0 is NotFound && reply.1
                        == "{\"ok\":false,\"error\":\"element not found\"}"@,
                },
                Err(error) => after == taps && reply.0 is BadRequest && reply.1 == tap_error_body(
                    error,
                ),
            }
        }),
{
    assert(place_areas(places) =~= Seq::new(places.len(), |i: int| places[i].area));
}

/// A listed element is given by its path, its instance, and its coordinates and extents each under its
/// own name. A list of elements is made of theirs with a comma in front of each but the first.
pub proof fn listed_elements_follow_one_another(
    entries: Seq<devtool::EntryView>,
    bounds: Seq<BoundsDigits>,
    count: int,
)
    requires
        0 <= count < entries.len(),
        entries.len() == bounds.len(),
    ensures
        ({
            let entry = entries[count];
            let numbers = bounds[count];
            let added = "{\"path\":\""@ + escaped(entry.path) + "\",\"instance\":"@ + text::decimal(
                entry.instance_id as nat,
            ) + ",\"x\":"@ + numbers.x@ + ",\"y\":"@ + numbers.y@ + ",\"w\":"@ + numbers.w@
                + ",\"h\":"@ + numbers.h@ + "}"@;
            &&& entries_text(entries, bounds, 0).len() == 0
            &&& count == 0 ==> entries_text(entries, bounds, 1) == added
            &&& count > 0 ==> entries_text(entries, bounds, count + 1) == entries_text(
                entries,
                bounds,
                count,
            ) + ","@ + added
        }),
{
}

/// In an escaped text a backslash stands in front of every backslash and quote of the text, and
/// nothing else is changed.
pub proof fn escapes_stand_in_front(s: Seq<char>, c: char)
    ensures
        escaped(Seq::empty()) == Seq::<char>::empty(),
        c == '\\' || c == '"' ==> escaped(s.push(c)) == escaped(s) + seq!['\\', c],
        c != '\\' && c != '"' ==> escaped(s.push(c)) == escaped(s) + seq![c],
{
    assert(s.push(c).drop_last() =~= s);
    assert(escaped(s).push('\\').push(c) =~= escaped(s) + seq!['\\', c]);
    assert(escaped(s).push(c) =~= escaped(s) + seq![c]);
}

/// The value of a field is what stands behind the first colon behind the first place where its name
/// stands in quotes, without the white space in front.
pub proof fn values_stand_behind_their_name_and_colon(
    front: Seq<char>,
    field: Seq<char>,
    gap: Seq<char>,
    white: Seq<char>,
    value: Seq<char>,
)
    requires
        forall|i: int|
            0 <= i < front.len() ==> !#[trigger] text::occurs_at(
                front + quoted(field) + gap + seq![':'] + white + value,
                quoted(field),
                i,
            ),
        forall|i: int| 0 <= i < gap.len() ==> #[trigger] gap[i] != ':',
        forall|i: int| 0 <= i < white.len() ==> text::is_white(#[trigger] white[i]),
        value.len() > 0,
        !text::is_white(value[0]),
    ensures
        field_value(front + quoted(field) + gap + seq![':'] + white + value, field) == Some(value),
{
    let body = front + quoted(field) + gap + seq![':'] + white + value;
    let key = quoted(field);
    let at = front.len() as int;
    assert(body.subrange(at, at + key.len()) =~= key);
    text::lemma_first_occurrence(body, key, at);
    let after = body.skip(at + key.len());
    assert(after =~= gap + seq![':'] + white + value);
    let mark = seq![':'];
    let colon = gap.len() as int;
    assert(after.subrange(colon, colon + 1) =~= mark);
    assert forall|i: int| 0 <= i < colon implies !#[trigger] text::occurs_at(after, mark, i) by {
        if text::occurs_at(after, mark, i) {
            assert(after.subrange(i, i + 1)[0] == mark[0]);
            assert(after[i] == gap[i]);
        }
    }
    text::lemma_first_occurrence(after, mark, colon);
    let rest = after.skip(colon + 1);
    assert(rest =~= white + value);
    lemma_white_is_skipped(white, value);
}

proof fn lemma_white_is_skipped(white: Seq<char>, value: Seq<char>)
    requires
        forall|i: int| 0 <= i < white.len() ==> text::is_white(#[trigger] white[i]),
        value.len() > 0,
        !text::is_white(value[0]),
    ensures
        text::skip_white(white + value) == value,
    decreases white.len(),
{
    if white.len() == 0 {
        assert(white + value =~= value);
    } else {
        let rest = white.skip(1);
        assert((white + value)[0] == white[0]);
        assert((white + value).skip(1) =~= rest + value);
        assert forall|i: int| 0 <= i < rest.len() implies text::is_white(#[trigger] rest[i]) by {
            assert(rest[i] == white[i + 1]);
        }
        lemma_white_is_skipped(rest, value);
    }
}

/// A field whose name does not stand in quotes has no value, and neither has one without a colon behind
/// its name.
pub proof fn fields_without_name_or_colon_have_no_value(body: Seq<char>, field: Seq<char>)
    ensures
        (forall|i: int| !#[trigger] text::occurs_at(body, seq!['"'] + field + seq!['"'], i))
            ==> field_value(body, field) is None,
        field_value(body, field) is Some ==> body.contains(':'),
        field_value(body, field) is None ==> string_field(body, field) is None && number_field(
            body,
            field,
        ) is None,
{
    if let Some(at) = text::first_occurrence(body, quoted(field)) {
        text::parts_are_found_where_they_first_stand(body, quoted(field), 0);
        let after = body.skip(at + quoted(field).len());
        if let Some(colon) = text::first_occurrence(after, seq![':']) {
            text::parts_are_found_where_they_first_stand(after, seq![':'], 0);
            assert(after.subrange(colon, colon + 1)[0] == ':');
            assert(body[at + quoted(field).len() + colon] == ':');
        }
    }
}

/// A text is read from quote to quote. A value that does not begin with a quote, or has no second one, is
/// no text.
pub proof fn texts_are_read_from_quote_to_quote(
    body: Seq<char>,
    field: Seq<char>,
    inner: Seq<char>,
    rest: Seq<char>,
)
    requires
        !inner.contains('"'),
    ensures
        field_value(body, field) == Some(seq!['"'] + inner + seq!['"'] + rest) ==> string_field(
            body,
            field,
        ) == Some(inner),
        field_value(body, field) == Some(seq!['"'] + inner) ==> string_field(body, field) is None,
        field_value(body, field) == Some(inner) ==> string_field(body, field) is None,
{
    let mark = seq!['"'];
    let whole = mark + inner + mark + rest;
    let behind = whole.skip(1);
    assert(behind =~= inner + mark + rest);
    assert(behind.subrange(inner.len() as int, inner.len() as int + 1) =~= mark);
    assert forall|i: int| 0 <= i < inner.len() implies !#[trigger] text::occurs_at(
        behind,
        mark,
        i,
    ) by {
        if text::occurs_at(behind, mark, i) {
            assert(behind.subrange(i, i + 1)[0] == mark[0]);
            assert(inner[i] == '"');
        }
    }
    text::lemma_first_occurrence(behind, mark, inner.len() as int);
    assert(behind.take(inner.len() as int) =~= inner);
    let open = mark + inner;
    assert(open.skip(1) =~= inner);
    if let Some(end) = text::first_occurrence(inner, mark) {
        text::parts_are_found_where_they_first_stand(inner, mark, 0);
        assert(inner.subrange(end, end + 1)[0] == '"');
        assert(inner[end] == '"');
    }
    if inner.len() > 0 {
        assert(inner.contains(inner[0]));
    }
}

/// A number is read up to the next comma, brace or white space.
pub proof fn numbers_are_read_up_to_their_end(
    body: Seq<char>,
    field: Seq<char>,
    number: Seq<char>,
    rest: Seq<char>,
)
    requires
        is_number_text(number),
        rest.len() > 0,
        rest[0] == ',' || rest[0] == '}' || text::is_white(rest[0]),
        field_value(body, field) == Some(number + rest),
    ensures
        number_field(body, field) == Some(number),
{
    assert forall|i: int| 0 <= i < number.len() implies !ends_number(#[trigger] number[i]) by {}
    lemma_number_len(number, rest);
    assert((number + rest).take(number.len() as int) =~= number);
    lemma_number_is_trimmed(number);
}

} // verus!
