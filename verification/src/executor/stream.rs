//! The course of a streamed call.
use vstd::prelude::*;
use vstd::string::*;
use crate::clock::Timestamp;
use crate::error_code::ErrorCode;
use crate::errors::{ErrorView, ModuleError};
use crate::executor::call::underlying_error;
use crate::executor::merge::{deep_merge_chunks_checked, stream_chunk_not_object_error};
use crate::executor::pipeline::{PipelineTrace, StepView};
use crate::executor::schema::{SchemaVerdict, validate_against_schema};
use crate::json::{empty_object, Json, JsonValue, put};
use crate::middleware::base::OnErrorOutcome;
use crate::text::cat3;
use crate::error_code;
use crate::errors;
use crate::executor::call;
use crate::executor::merge;
use crate::executor::pipeline;
use crate::executor::redact;
use crate::executor::schema;
use crate::json;

verus! {

/// What happened while a stream was prepared.
#[derive(Debug)]
pub enum PrepareEvent {
    /// The steps before execution ran; whether they found the module.
    Finished { trace: PipelineTrace, module_found: bool },
    /// A step failed.
    Failed { error: ModuleError },
    /// The error was given the trace and the module of the call.
    Decorated { error: ModuleError, executed: Vec<usize> },
    /// The error hooks answered.
    Answered { error: ModuleError, outcome: Option<OnErrorOutcome> },
}

/// What to do next about a stream that is being prepared.
#[derive(Debug)]
pub enum PrepareAction {
    /// Start the stream.
    Stream,
    /// Yield this value, then end the stream.
    Recover(JsonValue),
    /// Give the error the trace and the module of the call.
    Decorate { error: ModuleError },
    /// Run the error hooks of the middlewares that were called.
    AskMiddleware { error: ModuleError, executed: Vec<usize> },
    /// End the stream with this error.
    Fail(ModuleError),
}

/// The mathematical contents of an action.
#[verifier::ext_equal]
pub enum PrepareView {
    Stream,
    Recover(Json),
    Decorate(ErrorView),
    AskMiddleware(ErrorView, Seq<usize>),
    Fail(ErrorView),
}

impl View for PrepareAction {
    type V = PrepareView;

    open spec fn view(&self) -> PrepareView {
        match self {
            PrepareAction::Stream => PrepareView::Stream,
            PrepareAction::Recover(v) => PrepareView::Recover(v@),
            PrepareAction::Decorate { error } => PrepareView::Decorate(error@),
            PrepareAction::AskMiddleware { error, executed } => PrepareView::AskMiddleware(error@, executed@),
            PrepareAction::Fail(e) => PrepareView::Fail(e@),
        }
    }
}

/// The error for a run before the stream that a step aborted.
pub open spec fn pre_stream_abort(steps: Seq<StepView>, timestamp: Timestamp) -> ErrorView {
    errors::plain_error(
        ErrorCode::GeneralInternalError,
        match pipeline::first_explanation(steps) {
            Some(e) => e,
            None => "pre-stream pipeline aborted"@,
        },
        timestamp,
    )
}

/// The error for a run before the stream that found no module.
pub open spec fn unresolved_module(module_id: Seq<char>, timestamp: Timestamp) -> ErrorView {
    errors::plain_error(
        ErrorCode::ModuleNotFound,
        "Module '"@ + module_id + "' was not resolved during pre-stream setup"@,
        timestamp,
    )
}

/// Whether an error may be put to the error hooks: it is no cancellation, and
/// some middleware was called.
pub open spec fn may_ask(error: ErrorView, executed: Seq<usize>) -> bool {
    error.code != ErrorCode::ExecutionCancelled && executed.len() > 0
}

/// Whether an action is the right one after an event of the preparation.
pub open spec fn preparation_continues(module_id: Seq<char>, event: PrepareEvent, action: PrepareView) -> bool {
    match event {
        PrepareEvent::Finished { trace, module_found } => if !trace.success {
            action matches PrepareView::Fail(e) && e == pre_stream_abort(trace.all_steps(), e.timestamp)
        } else if !module_found {
            action matches PrepareView::Fail(e) && e == unresolved_module(module_id, e.timestamp)
        } else {
            action == PrepareView::Stream
        },
        PrepareEvent::Failed { error } => action == PrepareView::Decorate(call::underlying(error@)),
        PrepareEvent::Decorated { error, executed } => if may_ask(error@, executed@) {
            action == PrepareView::AskMiddleware(error@, executed@)
        } else {
            action == PrepareView::Fail(error@)
        },
        PrepareEvent::Answered { error, outcome } => match outcome {
            Some(OnErrorOutcome::Recovery(v)) => action == PrepareView::Recover(v@),
            _ => action == PrepareView::Fail(error@),
        },
    }
}

/// The next action of the preparation of a stream. A middleware's wish to run
/// again is not granted: the stream ends with the error.
pub fn prepare_stream_step(module_id: &str, event: PrepareEvent) -> (r: PrepareAction)
    ensures
        preparation_continues(module_id@, event, r@),
{
    match event {
        PrepareEvent::Finished { trace, module_found } => {
            if !trace.success {
                let message = match trace.abort_explanation() {
                    Some(t) => t.clone(),
                    None => "pre-stream pipeline aborted".to_owned(),
                };
                return PrepareAction::Fail(ModuleError::new(ErrorCode::GeneralInternalError, message.as_str()));
            }
            if !module_found {
                let message = cat3("Module '", module_id, "' was not resolved during pre-stream setup");
                return PrepareAction::Fail(ModuleError::new(ErrorCode::ModuleNotFound, message.as_str()));
            }
            PrepareAction::Stream
        },
        PrepareEvent::Failed { error } => PrepareAction::Decorate { error: underlying_error(error) },
        PrepareEvent::Decorated { error, executed } => {
            if error.code == ErrorCode::ExecutionCancelled || executed.len() == 0 {
                PrepareAction::Fail(error)
            } else {
                PrepareAction::AskMiddleware { error, executed }
            }
        },
        PrepareEvent::Answered { error, outcome } => match outcome {
            Some(OnErrorOutcome::Recovery(v)) => PrepareAction::Recover(v),
            _ => PrepareAction::Fail(error),
        },
    }
}

/// The error for a stream past its deadline.
pub open spec fn deadline_error(module_id: Seq<char>, timestamp: Timestamp) -> ErrorView {
    errors::plain_error(
        ErrorCode::ModuleTimeout,
        "Module '"@ + module_id + "' streaming aborted: global deadline exceeded"@,
        timestamp,
    )
}

/// The error for a stream past its deadline, where it has one. At the deadline
/// itself the stream goes on.
pub fn stream_deadline_exceeded(deadline: Option<u64>, now: u64, module_id: &str) -> (r: Option<ModuleError>)
    ensures
        match r {
            Some(e) => (deadline matches Some(d) && now > d) && e@ == deadline_error(module_id@, e@.timestamp),
            None => !(deadline matches Some(d) && now > d),
        },
{
    match deadline {
        Some(d) => if now > d {
            let message = cat3("Module '", module_id, "' streaming aborted: global deadline exceeded");
            Some(ModuleError::new(ErrorCode::ModuleTimeout, message.as_str()))
        } else {
            None
        },
        None => None,
    }
}

/// What to do with a chunk.
#[derive(Debug)]
pub enum ChunkAction {
    /// Deliver it.
    Yield(JsonValue),
    /// Give the module's error the trace and the module, then see whether the
    /// error hooks recover from it.
    Decorate(ModuleError),
    /// End the stream with this error.
    Fail(ModuleError),
}

/// The chunks that a stream has delivered.
#[derive(Debug)]
pub struct StreamBody {
    accumulated: Vec<JsonValue>,
}

impl StreamBody {
    /// The delivered chunks.
    pub closed spec fn delivered(self) -> Seq<Json> {
        json::values_view(self.accumulated@)
    }

    /// A stream that has delivered nothing.
    pub fn new() -> (r: Self)
        ensures
            r.delivered() == Seq::<Json>::empty(),
    {
        let r = StreamBody { accumulated: Vec::new() };
        assert(r.delivered() =~= Seq::empty());
        r
    }

    /// Take a chunk of the module. A stream past its deadline ends; a chunk that
    /// is no object is not delivered and ends the stream.
    pub fn take_chunk(
        &mut self,
        module_id: &str,
        deadline: Option<u64>,
        now: u64,
        chunk: Result<JsonValue, ModuleError>,
    ) -> (r: ChunkAction)
        ensures
            ({
                let late = deadline matches Some(d) && now > d;
                let n = old(self).delivered().len();
                match r {
                    ChunkAction::Yield(v) => !late && (chunk matches Ok(c) && c@ == v@ && c@ is Obj
                        && final(self).delivered() == old(self).delivered().push(c@)),
                    ChunkAction::Decorate(e) => !late && chunk == Err::<JsonValue, ModuleError>(e)
                        && final(self).delivered() == old(self).delivered(),
                    ChunkAction::Fail(e) => final(self).delivered() == old(self).delivered() && if late {
                        e@ == deadline_error(module_id@, e@.timestamp)
                    } else {
                        chunk matches Ok(c) && !(c@ is Obj) && e@ == merge::chunk_error(n, c@, e@.timestamp)
                    },
                }
            }),
    {
        match stream_deadline_exceeded(deadline, now, module_id) {
            Some(e) => {
                return ChunkAction::Fail(e);
            },
            None => {},
        }
        match chunk {
            Err(e) => ChunkAction::Decorate(e),
            Ok(c) => {
                if !c.is_object() {
                    return ChunkAction::Fail(stream_chunk_not_object_error(self.accumulated.len(), &c));
                }
                self.deliver(c)
            },
        }
    }

    fn deliver(&mut self, c: JsonValue) -> (r: ChunkAction)
        ensures
            r matches ChunkAction::Yield(v) && v@ == c@,
            final(self).delivered() == old(self).delivered().push(c@),
    {
        let ghost before = self.delivered();
        let copy = c.clone();
        self.accumulated.push(copy);
        assert(self.delivered() =~= before.push(c@));
        ChunkAction::Yield(c)
    }

    /// Take the output of a module that does not stream: it is delivered as one
    /// chunk, whatever it is.
    pub fn take_output(&mut self, output: JsonValue) -> (r: JsonValue)
        ensures
            r@ == output@,
            final(self).delivered() == old(self).delivered().push(output@),
    {
        let ghost before = self.delivered();
        let copy = output.clone();
        self.accumulated.push(copy);
        assert(self.delivered() =~= before.push(output@));
        output
    }

    /// The delivered chunks merged into one output. A chunk that is no object
    /// makes this fail.
    pub fn merged(&self) -> (r: Result<JsonValue, ModuleError>)
        ensures
            r is Ok <==> (forall|i: int| 0 <= i < self.delivered().len() ==> (#[trigger] self.delivered()[i]) is Obj),
            match r {
                Ok(v) => v@ == merge::merge_all(self.delivered()),
                Err(e) => exists|i: int|
                    0 <= i < self.delivered().len() && !((#[trigger] self.delivered()[i]) is Obj) && (forall|j: int|
                        0 <= j < i ==> (#[trigger] self.delivered()[j]) is Obj) && e@ == merge::chunk_error(
                        i as nat,
                        self.delivered()[i],
                        e@.timestamp,
                    ),
            },
    {
        let r = deep_merge_chunks_checked(&self.accumulated);
        proof {
            let s = self.accumulated@;
            assert forall|i: int| 0 <= i < s.len() implies self.delivered()[i] == (#[trigger] s[i])@ by {}
            if r is Ok {
                assert forall|i: int| 0 <= i < self.delivered().len() implies (#[trigger] self.delivered()[i]) is Obj by {
                    assert(s[i]@ is Obj);
                }
            } else {
                let e = r->Err_0;
                let i = choose|i: int|
                    0 <= i < s.len() && !((#[trigger] s[i])@ is Obj) && (forall|j: int|
                        0 <= j < i ==> (#[trigger] s[j])@ is Obj) && e@ == merge::chunk_error(i as nat, s[i]@, e@.timestamp);
                assert(!(self.delivered()[i] is Obj));
                assert forall|j: int| 0 <= j < i implies (#[trigger] self.delivered()[j]) is Obj by {
                    assert(s[j]@ is Obj);
                }
            }
        }
        r
    }
}

/// Whether the error hooks are to be asked about an error in mid-stream: not
/// about a cancellation, and only where middleware was called.
pub fn asks_about_chunk_error(error: &ModuleError, has_manager: bool, executed: &Vec<usize>) -> (r: bool)
    ensures
        r == (has_manager && may_ask(error@, executed@)),
{
    has_manager && error.code != ErrorCode::ExecutionCancelled && executed.len() > 0
}

/// The value that the stream yields in place of an error in mid-stream, where a
/// middleware gave one. A wish to run again is not granted.
pub fn recover_stream_chunk_error(outcome: Option<OnErrorOutcome>) -> (r: Option<JsonValue>)
    ensures
        match outcome {
            Some(OnErrorOutcome::Recovery(v)) => r == Some(v),
            _ => r is None,
        },
{
    match outcome {
        Some(OnErrorOutcome::Recovery(v)) => Some(v),
        _ => None,
    }
}

/// What follows the end of a stream.
#[derive(Debug)]
pub enum PostStreamAction {
    /// Run the after hooks on the merged output.
    RunAfter(JsonValue),
    /// Nothing is left to do.
    Nothing,
    /// Report this failure; the stream itself has ended well.
    Report(ModuleError),
}

/// What follows the end of a stream, given what the merge gave and what the
/// validator says of the merged output. The chunks have been delivered, so a
/// failure is reported and not raised.
pub fn run_stream_phase3(
    merged: Result<JsonValue, ModuleError>,
    output_schema: &JsonValue,
    verdict: &SchemaVerdict,
    has_manager: bool,
) -> (r: PostStreamAction)
    ensures
        match merged {
            Err(e) => r == PostStreamAction::Report(e),
            Ok(v) => {
                let passes = !redact::says_something(output_schema@) || *verdict == SchemaVerdict::Valid;
                match r {
                    PostStreamAction::RunAfter(x) => passes && has_manager && x == v,
                    PostStreamAction::Nothing => passes && !has_manager,
                    PostStreamAction::Report(e) => !passes && match *verdict {
                        SchemaVerdict::BadSchema(why) => e@ == schema::bad_schema_error("Output"@, why@, e@.timestamp),
                        SchemaVerdict::Valid => false,
                        SchemaVerdict::Invalid(f) => e@ == schema::invalid_value_error("Output"@, f@, e@.timestamp),
                    },
                }
            },
        },
{
    match merged {
        Err(e) => PostStreamAction::Report(e),
        Ok(v) => match validate_against_schema(output_schema, "Output", verdict) {
            Err(e) => PostStreamAction::Report(e),
            Ok(_) => if has_manager {
                PostStreamAction::RunAfter(v)
            } else {
                PostStreamAction::Nothing
            },
        },
    }
}

/// The data of the event that reports a failure after a stream.
pub fn post_stream_failure_data(error: &ModuleError, trace_id: &str) -> (r: JsonValue)
    ensures
        r@ == Json::Obj(
            map![
                "error_type"@ => Json::Str(error_code::code_name(error.code)),
                "message"@ => Json::Str(error.message@),
                "trace_id"@ => Json::Str(trace_id@)
            ],
        ),
{
    broadcast use crate::json::lemma_value_view;
    let mut m = empty_object();
    put(&mut m, "error_type", JsonValue::str(error.code.name()));
    put(&mut m, "message", JsonValue::str(error.message.as_str()));
    put(&mut m, "trace_id", JsonValue::str(trace_id));
    JsonValue::Object(m)
}

/// A stream starts exactly where the steps before it succeeded and found the
/// module.
pub proof fn a_stream_starts_after_its_steps(
    module_id: Seq<char>,
    trace: PipelineTrace,
    module_found: bool,
    action: PrepareView,
)
    requires
        preparation_continues(module_id, PrepareEvent::Finished { trace, module_found }, action),
    ensures
        action is Stream <==> trace.success && module_found,
        trace.success && !module_found ==> (action matches PrepareView::Fail(e) && e.code == ErrorCode::ModuleNotFound
            && e.message == "Module '"@ + module_id + "' was not resolved during pre-stream setup"@),
        !trace.success ==> (action matches PrepareView::Fail(e) && e.code == ErrorCode::GeneralInternalError),
{
}

/// A stream whose steps were stopped fails with the explanation of the first step
/// that aborted and gave one.
pub proof fn a_stopped_stream_tells_why(
    module_id: Seq<char>,
    trace: PipelineTrace,
    module_found: bool,
    i: int,
    action: PrepareView,
)
    requires
        !trace.success,
        0 <= i < trace.all_steps().len(),
        trace.all_steps()[i].action == "abort"@,
        trace.all_steps()[i].explanation is Some,
        forall|j: int|
            0 <= j < i ==> (#[trigger] trace.all_steps()[j]).action != "abort"@ || trace.all_steps()[j].explanation is None,
        preparation_continues(module_id, PrepareEvent::Finished { trace, module_found }, action),
    ensures
        action matches PrepareView::Fail(e) && Some(e.message) == trace.all_steps()[i].explanation,
{
    pipeline::the_first_explanation_is_found(trace.all_steps(), i);
}

/// Where the error hooks answer a failed preparation with a value, the stream
/// gives that value; else it fails with the error that they were asked about.
pub proof fn a_recovery_is_streamed(module_id: Seq<char>, error: ModuleError, outcome: Option<OnErrorOutcome>, action: PrepareView)
    requires
        preparation_continues(module_id, PrepareEvent::Answered { error, outcome }, action),
    ensures
        outcome matches Some(OnErrorOutcome::Recovery(v)) ==> action == PrepareView::Recover(v@),
        !(outcome matches Some(OnErrorOutcome::Recovery(v))) ==> action == PrepareView::Fail(error@),
{
}

/// The error hooks of the middlewares that were called are asked about a failed
/// preparation, unless the call was cancelled or none was called.
pub proof fn the_called_middlewares_are_asked_first(
    module_id: Seq<char>,
    error: ModuleError,
    executed: Vec<usize>,
    action: PrepareView,
)
    requires
        preparation_continues(module_id, PrepareEvent::Decorated { error, executed }, action),
    ensures
        error.code != ErrorCode::ExecutionCancelled && executed@.len() > 0 ==> action == PrepareView::AskMiddleware(
            error@,
            executed@,
        ),
        error.code == ErrorCode::ExecutionCancelled || executed@.len() == 0 ==> action == PrepareView::Fail(error@),
{
}

/// A failure that wraps no other error is given its trace and module as it is.
pub proof fn a_plain_failure_is_kept(module_id: Seq<char>, error: ModuleError, action: PrepareView)
    requires
        errors::unwrapped_step_error(error@) is None,
        errors::unwrapped_chain_error(error@) is None,
        preparation_continues(module_id, PrepareEvent::Failed { error }, action),
    ensures
        action == PrepareView::Decorate(error@),
{
}

/// A stream that was stopped without a reason says that it was stopped.
pub proof fn a_stream_stopped_for_no_reason(
    module_id: Seq<char>,
    trace: PipelineTrace,
    module_found: bool,
    action: PrepareView,
)
    requires
        !trace.success,
        forall|j: int| 0 <= j < trace.all_steps().len() ==> (#[trigger] trace.all_steps()[j]).action != "abort"@,
        preparation_continues(module_id, PrepareEvent::Finished { trace, module_found }, action),
    ensures
        action matches PrepareView::Fail(e) && e.code == ErrorCode::GeneralInternalError && e.message
            == "pre-stream pipeline aborted"@,
{
    pipeline::without_an_abort_none_is_found(trace.all_steps());
}

/// A stream past its deadline fails with a timeout that names the module.
pub proof fn a_late_stream_times_out(module_id: Seq<char>, timestamp: Timestamp)
    ensures
        deadline_error(module_id, timestamp).code == ErrorCode::ModuleTimeout,
        deadline_error(module_id, timestamp).timestamp == timestamp,
        deadline_error(module_id, timestamp).message == "Module '"@ + module_id
            + "' streaming aborted: global deadline exceeded"@,
{
}

} // verus!
