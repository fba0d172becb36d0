//! Sequences of steps that a request to the development server asks for. They are carried out in
//! order, up to the first that fails.
use crate::devtool_server;
use crate::devtool_server::{
    call_target, element_target, failure_json, point_target, BadRequest, CallRequest,
    DEFAULT_WAIT_FOR_ELEMENT_MILLIS,
};
use crate::gesture::GestureKind;
use crate::json;
use crate::json::JsonView;
use crate::text;
use serde_json::Value;
use vstd::prelude::*;
use vstd::string::*;

verus! {

/// A text as `Debug` shows it: in quotes, with special characters escaped.
pub uninterp spec fn debug_form(s: Seq<char>) -> Seq<char>;

/// Formats a text with `Debug`. Trusted: the outcome depends on the text alone.
#[verifier::external_body]
fn debug_text(s: &str) -> (shown: String)
    ensures
        shown@ == debug_form(s@),
{
    format!("{s:?}")
}

/// A step to carry out.
pub enum SequenceStep {
    Gesture { kind: GestureKind, element_id: String },
    /// A touch at a point, given as the bits of two doubles.
    TapXy { x: u64, y: u64 },
    WaitForElement { element_id: String, timeout_ms: u64 },
    Call(CallRequest),
    /// A step that cannot be carried out, with the reason.
    Invalid(String),
}

/// What a step asks for.
pub enum StepView {
    Gesture { kind: GestureKind, element_id: Seq<char> },
    TapXy { x: u64, y: u64 },
    WaitForElement { element_id: Seq<char>, timeout_ms: u64 },
    Call { name: Seq<char>, params: JsonView },
    Invalid(Seq<char>),
}

impl View for SequenceStep {
    type V = StepView;

    open spec fn view(&self) -> StepView {
        match *self {
            SequenceStep::Gesture { kind, element_id } => StepView::Gesture {
                kind,
                element_id: element_id@,
            },
            SequenceStep::TapXy { x, y } => StepView::TapXy { x, y },
            SequenceStep::WaitForElement { element_id, timeout_ms } => StepView::WaitForElement {
                element_id: element_id@,
                timeout_ms,
            },
            SequenceStep::Call(call) => StepView::Call {
                name: call.name@,
                params: json::json_content(call.params),
            },
            SequenceStep::Invalid(error) => StepView::Invalid(error@),
        }
    }
}

/// The type of a step, which is empty where none is given.
pub open spec fn step_type(step: JsonView) -> Seq<char> {
    match step.text_member("type"@) {
        Some(name) => name,
        None => Seq::empty(),
    }
}

/// How long a step waits.
pub open spec fn step_timeout(step: JsonView) -> u64 {
    match step.member("timeout_ms"@) {
        Some(JsonView::Unsigned(timeout)) => timeout,
        _ => DEFAULT_WAIT_FOR_ELEMENT_MILLIS,
    }
}

/// What a step asks for, of whatever type.
pub open spec fn step_of(step: JsonView) -> StepView {
    let name = step_type(step);
    let element = step.text_member("element_id"@);
    if name == "press"@ || name == "long_press"@ {
        match element {
            Some(element_id) => StepView::Gesture {
                kind: if name == "press"@ {
                    GestureKind::Press
                } else {
                    GestureKind::LongPress
                },
                element_id,
            },
            None => StepView::Invalid(BadRequest::ElementIdRequired.text()),
        }
    } else if name == "tap_xy"@ {
        match devtool_server::point_named(step) {
            Ok((x, y)) => StepView::TapXy { x, y },
            Err(error) => StepView::Invalid(error.text()),
        }
    } else if name == "wait_for_element"@ {
        match element {
            Some(element_id) => StepView::WaitForElement {
                element_id,
                timeout_ms: step_timeout(step),
            },
            None => StepView::Invalid(BadRequest::ElementIdRequired.text()),
        }
    } else if name == "call"@ {
        match step.text_member("name"@) {
            Some(called) => StepView::Call {
                name: called,
                params: devtool_server::params_named(step),
            },
            None => StepView::Invalid(BadRequest::NameRequired.text()),
        }
    } else {
        StepView::Invalid("unknown step type: "@ + debug_form(name))
    }
}

/// Reads the type of a step.
fn read_type(step: &Value) -> (name: String)
    ensures
        name@ == step_type(json::json_content(*step)),
{
    match json::member(step, "type") {
        Some(member) => match json::as_text(member) {
            Some(name) => name.to_owned(),
            None => String::new(),
        },
        None => String::new(),
    }
}

/// Reads how long a step waits.
fn read_timeout(step: &Value) -> (timeout_ms: u64)
    ensures
        timeout_ms == step_timeout(json::json_content(*step)),
{
    match json::member(step, "timeout_ms") {
        Some(member) => match json::as_unsigned(member) {
            Some(timeout) => timeout,
            None => DEFAULT_WAIT_FOR_ELEMENT_MILLIS,
        },
        None => DEFAULT_WAIT_FOR_ELEMENT_MILLIS,
    }
}

/// Makes a step that cannot be carried out.
fn invalid(error: BadRequest) -> (step: SequenceStep)
    ensures
        step@ == StepView::Invalid(error.text()),
{
    SequenceStep::Invalid(error.message().to_owned())
}

/// Reads what a step asks for.
pub fn read_step(step: &Value) -> (read: SequenceStep)
    ensures
        read@ == step_of(json::json_content(*step)),
{
    let name: String = read_type(step);
    let name: &str = name.as_str();
    let press: bool = text::same_text(name, "press");
    if press || text::same_text(name, "long_press") {
        let kind: GestureKind = if press {
            GestureKind::Press
        } else {
            GestureKind::LongPress
        };
        return match element_target(step) {
            Ok(element_id) => SequenceStep::Gesture { kind, element_id },
            Err(error) => invalid(error),
        };
    }
    if text::same_text(name, "tap_xy") {
        return match point_target(step) {
            Ok((x, y)) => SequenceStep::TapXy { x, y },
            Err(error) => invalid(error),
        };
    }
    if text::same_text(name, "wait_for_element") {
        let timeout_ms: u64 = read_timeout(step);
        return match element_target(step) {
            Ok(element_id) => SequenceStep::WaitForElement { element_id, timeout_ms },
            Err(error) => invalid(error),
        };
    }
    if text::same_text(name, "call") {
        return match call_target(step) {
            Ok(call) => SequenceStep::Call(call),
            Err(error) => invalid(error),
        };
    }
    let mut error: String = String::new();
    error.append("unknown step type: ");
    let shown: String = debug_text(name);
    error.append(shown.as_str());
    assert(error@ =~= "unknown step type: "@ + debug_form(name@));
    SequenceStep::Invalid(error)
}

/// A sequence that is carried out.
pub struct SequenceRun {
    pub steps: Vec<Value>,
    pub results: Vec<Value>,
    pub all_ok: bool,
}

/// How far a sequence has come.
pub struct RunView {
    pub steps: Seq<JsonView>,
    pub results: Seq<JsonView>,
    pub all_ok: bool,
}

impl View for SequenceRun {
    type V = RunView;

    open spec fn view(&self) -> RunView {
        RunView {
            steps: json::contents(self.steps@),
            results: json::contents(self.results@),
            all_ok: self.all_ok,
        }
    }
}

impl RunView {
    /// Whether there are no more results than steps, and each names the type of its step.
    pub open spec fn well_formed(self) -> bool {
        &&& self.results.len() <= self.steps.len()
        &&& forall|i: int|
            0 <= i < self.results.len() ==> (#[trigger] self.results[i]).text_member("type"@)
                == Some(step_type(self.steps[i]))
    }

    /// Whether nothing is left to do.
    pub open spec fn finished(self) -> bool {
        !self.all_ok || self.results.len() >= self.steps.len()
    }

    /// The next step.
    pub open spec fn next(self) -> StepView {
        step_of(self.steps[self.results.len() as int])
    }

    /// The sequence after the next step has been carried out.
    pub open spec fn recorded(self, ok: bool, result: JsonView) -> RunView {
        let typed = JsonView::Object(
            result->Object_0.insert(
                "type"@,
                JsonView::Text(step_type(self.steps[self.results.len() as int])),
            ),
        );
        RunView { results: self.results.push(typed), all_ok: ok, ..self }
    }
}

/// The report on a sequence.
pub open spec fn sequence_report(run: RunView) -> JsonView {
    JsonView::Object(
        Map::empty().insert("ok"@, JsonView::Bool(run.all_ok)).insert(
            "steps_completed"@,
            JsonView::Unsigned(run.results.len() as u64),
        ).insert("steps_total"@, JsonView::Unsigned(run.steps.len() as u64)).insert(
            "results"@,
            JsonView::List(run.results),
        ),
    )
}

/// The steps that a request names.
pub open spec fn steps_named(request: JsonView) -> Result<Seq<JsonView>, BadRequest> {
    match request.member("steps"@) {
        Some(JsonView::List(steps)) => if steps.len() == 0 {
            Err(BadRequest::StepsEmpty)
        } else {
            Ok(steps)
        },
        _ => Err(BadRequest::StepsRequired),
    }
}

/// Whether `run` is the sequence that a request names, before its first step.
pub open spec fn starts_sequence(request: JsonView, run: Result<SequenceRun, BadRequest>) -> bool {
    match run {
        Ok(run) => steps_named(request) == Ok::<Seq<JsonView>, BadRequest>(run@.steps)
            && run@.results.len() == 0 && run.all_ok,
        Err(error) => steps_named(request) == Err::<Seq<JsonView>, BadRequest>(error),
    }
}

/// Reads the sequence that a request names.
pub fn sequence_target(request: &Value) -> (run: Result<SequenceRun, BadRequest>)
    ensures
        starts_sequence(json::json_content(*request), run),
{
    let steps: &Vec<Value> = match json::member(request, "steps") {
        Some(member) => match json::as_list(member) {
            Some(steps) => steps,
            None => {
                return Err(BadRequest::StepsRequired);
            },
        },
        None => {
            return Err(BadRequest::StepsRequired);
        },
    };
    if steps.len() == 0 {
        return Err(BadRequest::StepsEmpty);
    }
    let mut copies: Vec<Value> = Vec::new();
    let mut i: usize = 0;
    while i < steps.len()
        invariant
            i <= steps@.len(),
            json::contents(copies@) == json::contents(steps@).take(i as int),
        decreases steps@.len() - i,
    {
        let ghost before = json::contents(copies@);
        let copy: Value = json::copy_value(&steps[i]);
        copies.push(copy);
        i = i + 1;
        proof {
            assert(json::contents(copies@) =~= before.push(json::json_content(copy)));
            assert(json::contents(copies@) =~= json::contents(steps@).take(i as int));
        }
    }
    assert(json::contents(steps@).take(i as int) =~= json::contents(steps@));
    Ok(SequenceRun { steps: copies, results: Vec::new(), all_ok: true })
}

/// Reads the sequence that the body of a request names.
pub fn sequence_request(body: &[u8]) -> (run: Result<SequenceRun, BadRequest>)
    ensures
        match json::parsed_json(body@) {
            None => run == Err::<SequenceRun, BadRequest>(BadRequest::InvalidBody),
            Some(request) => starts_sequence(request, run),
        },
{
    match json::parse_json(body) {
        Some(request) => sequence_target(&request),
        None => Err(BadRequest::InvalidBody),
    }
}

impl SequenceRun {
    /// Keeps the result of the next step, with the type of the step.
    pub fn record(&mut self, ok: bool, result: Value)
        requires
            old(self)@.well_formed(),
            !old(self)@.finished(),
            json::json_content(result) is Object,
        ensures
            final(self)@ == old(self)@.recorded(ok, json::json_content(result)),
            final(self)@.well_formed(),
    {
        let ghost before = self@;
        let index: usize = self.results.len();
        assert(before.steps.len() == self.steps@.len());
        let name: String = read_type(&self.steps[index]);
        let mut typed: Value = result;
        json::set_member(&mut typed, "type", json::text_value(name.as_str()));
        self.results.push(typed);
        self.all_ok = ok;
        proof {
            assert(self@.results =~= before.results.push(json::json_content(typed)));
            assert(self@.steps =~= before.steps);
            let results = self@.results;
            assert forall|i: int| 0 <= i < results.len() implies (#[trigger] results[i]).text_member(
                "type"@,
            ) == Some(step_type(self@.steps[i])) by {
                if i < before.results.len() {
                    assert(results[i] == before.results[i]);
                }
            }
        }
    }

    /// Tells which step to carry out next, if any is left. A step that cannot be carried out fails
    /// at once, and nothing is left after it.
    pub fn next_step(&mut self) -> (step: Option<SequenceStep>)
        requires
            old(self)@.well_formed(),
        ensures
            final(self)@.well_formed(),
            match step {
                Some(next) => !old(self)@.finished() && next@ == old(self)@.next()
                    && old(self)@.next() !is Invalid && final(self)@ == old(self)@,
                None => if old(self)@.finished() {
                    final(self)@ == old(self)@
                } else {
                    old(self)@.next() is Invalid && final(self)@ == old(self)@.recorded(
                        false,
                        devtool_server::failure(old(self)@.next()->Invalid_0),
                    )
                },
            },
    {
        let ghost before = self@;
        assert(before.steps.len() == self.steps@.len());
        assert(before.results.len() == self.results@.len());
        if !self.all_ok || self.results.len() >= self.steps.len() {
            return None;
        }
        let index: usize = self.results.len();
        assert(before.steps[index as int] == json::json_content(self.steps@[index as int]));
        match read_step(&self.steps[index]) {
            SequenceStep::Invalid(error) => {
                let failed: Value = failure_json(error.as_str());
                self.record(false, failed);
                None
            },
            step => Some(step),
        }
    }

    /// Reports on the sequence.
    pub fn finish(self) -> (report: Value)
        ensures
            json::json_content(report) == sequence_report(self@),
    {
        let mut members: Vec<(String, Value)> = Vec::new();
        let completed: u64 = self.results.len() as u64;
        let total: u64 = self.steps.len() as u64;
        members.push(("ok".to_owned(), json::bool_value(self.all_ok)));
        members.push(("steps_completed".to_owned(), json::unsigned_value(completed)));
        members.push(("steps_total".to_owned(), json::unsigned_value(total)));
        members.push(("results".to_owned(), json::list_value(self.results)));
        proof {
            reveal_with_fuel(json::members_of, 5);
            let four = members@;
            assert(four.drop_last().drop_last().drop_last().drop_last().len() == 0);
            assert(json::members_of(four) == sequence_report(self@)->Object_0);
        }
        json::object_value(members)
    }
}

/// Nothing is carried out after a step that failed.
pub proof fn a_failure_ends_the_sequence(run: RunView, result: JsonView)
    ensures
        run.recorded(false, result).finished(),
{
}

/// Every step that is carried out brings the end nearer by one, and a sequence in which nothing
/// failed ends with a result for every step.
pub proof fn sequences_end(run: RunView, ok: bool, result: JsonView)
    requires
        run.well_formed(),
    ensures
        run.recorded(ok, result).results.len() == run.results.len() + 1,
        run.finished() && run.all_ok ==> run.results.len() == run.steps.len(),
        !run.finished() ==> run.results.len() < run.steps.len(),
{
}

/// The type of a step is the text that it gives for one.
pub proof fn steps_give_their_type(step: JsonView, name: Seq<char>)
    ensures
        step.text_member("type"@) == Some(name) ==> step_type(step) == name,
        step.text_member("type"@) is None ==> step_type(step).len() == 0,
{
}

/// A step does what its type says with what it names: a press or long press on an element, a touch at
/// a point, a wait for an element for as long as it says or two seconds, or a call.
pub proof fn steps_do_what_their_type_says(step: JsonView)
    ensures
        step_of(step) matches StepView::Gesture { kind, element_id } ==> {
            &&& step.text_member("element_id"@) == Some(element_id)
            &&& kind == GestureKind::Press <==> step_type(step) == "press"@
            &&& kind == GestureKind::LongPress <==> step_type(step) == "long_press"@
        },
        step_of(step) matches StepView::TapXy { x, y } ==> {
            &&& step_type(step) == "tap_xy"@
            &&& devtool_server::number_member(step, "x"@) == Some(x)
            &&& devtool_server::number_member(step, "y"@) == Some(y)
        },
        step_of(step) matches StepView::WaitForElement { element_id, timeout_ms } ==> {
            &&& step_type(step) == "wait_for_element"@
            &&& step.text_member("element_id"@) == Some(element_id)
            &&& step.member("timeout_ms"@) matches Some(JsonView::Unsigned(asked)) ==> timeout_ms
                == asked
            &&& step.member("timeout_ms"@) is None ==> timeout_ms == 2000
            &&& step.member("timeout_ms"@) is Some && step.member("timeout_ms"@)->0 !is Unsigned
                ==> timeout_ms == 2000
        },
        step_of(step) matches StepView::Call { name, params } ==> {
            &&& step_type(step) == "call"@
            &&& step.text_member("name"@) == Some(name)
            &&& step.member("params"@) matches Some(given) ==> params == given
            &&& step.member("params"@) is None ==> params is Null
        },
{
    lemma_types_differ();
}

proof fn lemma_types_differ()
    ensures
        "press"@ != "long_press"@,
        "press"@ != "tap_xy"@,
        "press"@ != "wait_for_element"@,
        "press"@ != "call"@,
        "long_press"@ != "tap_xy"@,
        "long_press"@ != "wait_for_element"@,
        "long_press"@ != "call"@,
        "tap_xy"@ != "wait_for_element"@,
        "tap_xy"@ != "call"@,
        "wait_for_element"@ != "call"@,
{
    reveal_strlit("press");
    reveal_strlit("long_press");
    reveal_strlit("tap_xy");
    reveal_strlit("wait_for_element");
    reveal_strlit("call");
    assert("press"@.len() == 5 && "long_press"@.len() == 10 && "tap_xy"@.len() == 6);
    assert("wait_for_element"@.len() == 16 && "call"@.len() == 4);
}

/// A step that names all that its type needs is carried out, and one that does not fails with the
/// reason why.
pub proof fn complete_steps_are_carried_out(step: JsonView)
    ensures
        step_type(step) == "press"@ || step_type(step) == "long_press"@ ==> {
            &&& step.text_member("element_id"@) is Some ==> step_of(step) is Gesture
            &&& step.text_member("element_id"@) is None ==> step_of(step) == StepView::Invalid(
                "element_id required"@,
            )
        },
        step_type(step) == "tap_xy"@ ==> {
            &&& devtool_server::number_member(step, "x"@) is Some && devtool_server::number_member(
                step,
                "y"@,
            ) is Some ==> step_of(step) is TapXy
            &&& devtool_server::number_member(step, "x"@) is None || devtool_server::number_member(
                step,
                "y"@,
            ) is None ==> step_of(step) == StepView::Invalid("x and y required"@)
        },
        step_type(step) == "wait_for_element"@ ==> {
            &&& step.text_member("element_id"@) is Some ==> step_of(step) is WaitForElement
            &&& step.text_member("element_id"@) is None ==> step_of(step) == StepView::Invalid(
                "element_id required"@,
            )
        },
        step_type(step) == "call"@ ==> {
            &&& step.text_member("name"@) is Some ==> step_of(step) is Call
            &&& step.text_member("name"@) is None ==> step_of(step) == StepView::Invalid(
                "name required"@,
            )
        },
        step_type(step) != "press"@ && step_type(step) != "long_press"@ && step_type(step)
            != "tap_xy"@ && step_type(step) != "wait_for_element"@ && step_type(step) != "call"@
            ==> step_of(step) == StepView::Invalid(
            "unknown step type: "@ + debug_form(step_type(step)),
        ),
{
    lemma_types_differ();
}

/// Recording a step keeps its result behind those before it, with the type of the step and all else
/// that the result says, and remembers whether the step went well.
pub proof fn results_are_kept_in_order(run: RunView, ok: bool, result: JsonView, key: Seq<char>)
    requires
        run.well_formed(),
        !run.finished(),
        result is Object,
        key != "type"@,
    ensures
        ({
            let after = run.recorded(ok, result);
            let kept = after.results[run.results.len() as int];
            &&& after.steps == run.steps
            &&& after.all_ok == ok
            &&& after.results.len() == run.results.len() + 1
            &&& forall|i: int|
                0 <= i < run.results.len() ==> #[trigger] after.results[i] == run.results[i]
            &&& kept.member("type"@) == Some(
                JsonView::Text(step_type(run.steps[run.results.len() as int])),
            )
            &&& kept.member(key) == result.member(key)
        }),
{
}

/// A sequence goes on exactly while nothing has failed and steps are left, and the next step is the
/// one behind those that have results.
pub proof fn sequences_go_on_while_all_is_well(run: RunView)
    ensures
        run.finished() <==> !run.all_ok || run.results.len() >= run.steps.len(),
        run.next() == step_of(run.steps[run.results.len() as int]),
{
}

/// The report on a sequence says whether all went well, how many steps have results, how many there
/// are, and gives the results.
pub proof fn sequences_are_reported_in_full(run: RunView)
    ensures
        sequence_report(run).member("ok"@) == Some(JsonView::Bool(run.all_ok)),
        sequence_report(run).member("steps_completed"@) == Some(
            JsonView::Unsigned(run.results.len() as u64),
        ),
        sequence_report(run).member("steps_total"@) == Some(
            JsonView::Unsigned(run.steps.len() as u64),
        ),
        sequence_report(run).member("results"@) == Some(JsonView::List(run.results)),
{
    reveal_strlit("ok");
    reveal_strlit("steps_completed");
    reveal_strlit("steps_total");
    reveal_strlit("results");
    assert("ok"@.len() == 2 && "steps_completed"@.len() == 15 && "steps_total"@.len() == 11
        && "results"@.len() == 7);
}

/// A request names a sequence by a list of steps that is not empty, and the sequence starts with all
/// of them and no results.
pub proof fn sequences_start_with_the_steps_named(
    request: JsonView,
    run: Result<SequenceRun, BadRequest>,
)
    requires
        starts_sequence(request, run),
    ensures
        request.member("steps"@) matches Some(JsonView::List(steps)) ==> (steps.len() > 0 ==> {
            &&& run matches Ok(run)
            &&& run@.steps == steps
            &&& run@.results.len() == 0
            &&& run@.all_ok
        }),
        request.member("steps"@) matches Some(JsonView::List(steps)) ==> (steps.len() == 0 ==> run
            == Err::<SequenceRun, BadRequest>(BadRequest::StepsEmpty)),
        request.member("steps"@) is None ==> run == Err::<SequenceRun, BadRequest>(
            BadRequest::StepsRequired,
        ),
        request.member("steps"@) is Some && request.member("steps"@)->0 !is List ==> run == Err::<
            SequenceRun,
            BadRequest,
        >(BadRequest::StepsRequired),
{
}

/// A step shows what it holds, and a sequence its steps and results in order and whether all went well.
pub proof fn steps_and_runs_show_what_they_hold(step: SequenceStep, run: SequenceRun, i: int)
    ensures
        step matches SequenceStep::Gesture { kind, element_id } ==> step@ == (StepView::Gesture {
            kind,
            element_id: element_id@,
        }),
        step matches SequenceStep::TapXy { x, y } ==> step@ == (StepView::TapXy { x, y }),
        step matches SequenceStep::WaitForElement { element_id, timeout_ms } ==> step@ == (
        StepView::WaitForElement { element_id: element_id@, timeout_ms }),
        step matches SequenceStep::Call(call) ==> step@ == (StepView::Call {
            name: call.name@,
            params: json::json_content(call.params),
        }),
        step matches SequenceStep::Invalid(error) ==> step@ == StepView::Invalid(error@),
        run@.all_ok == run.all_ok,
        run@.steps.len() == run.steps@.len(),
        0 <= i < run.steps@.len() ==> run@.steps[i] == json::json_content(run.steps@[i]),
        run@.results.len() == run.results@.len(),
        0 <= i < run.results@.len() ==> run@.results[i] == json::json_content(run.results@[i]),
{
}

} // verus!
