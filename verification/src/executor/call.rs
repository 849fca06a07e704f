//! The course of a call: what to do next, given what happened.
use vstd::prelude::*;
use vstd::string::*;
use crate::clock::Timestamp;
use crate::error_code::ErrorCode;
use crate::errors::{ErrorView, ModuleError};
use crate::executor::pipeline::{PipelineTrace, StepView};
use crate::json::{Json, JsonValue};
use crate::middleware::base::{OnErrorOutcome, RetrySignal};
use crate::text::cat4;
use crate::clock;
use crate::errors;
use crate::executor::pipeline;
use crate::regexes;

verus! {

/// The error for a module identifier that does not fit the pattern.
pub open spec fn module_id_error(module_id: Seq<char>, pattern: Seq<char>, timestamp: Timestamp) -> ErrorView {
    errors::plain_error(
        ErrorCode::InvalidModuleId,
        "Invalid module ID: '"@ + module_id + "'. Must match pattern: "@ + pattern,
        timestamp,
    )
}

/// Check a module identifier against the pattern of identifiers. An empty one
/// never fits.
pub fn validate_module_id(module_id: &str, pattern: &str) -> (r: Result<(), ModuleError>)
    ensures
        match r {
            Ok(_) => module_id@.len() > 0 && regexes::regex_match(pattern@, false, module_id@) == Some(true),
            Err(e) => (module_id@.len() == 0 || regexes::regex_match(pattern@, false, module_id@) != Some(true)) && e@
                == module_id_error(module_id@, pattern@, e@.timestamp),
        },
{
    let fits = match regexes::is_match(pattern, false, module_id) {
        Some(b) => b,
        None => false,
    };
    check_module_id(module_id, fits, pattern)
}

/// Check a module identifier, given whether it fits the pattern of identifiers.
/// An empty one never does.
pub fn check_module_id(module_id: &str, fits_pattern: bool, pattern: &str) -> (r: Result<(), ModuleError>)
    ensures
        match r {
            Ok(_) => module_id@.len() > 0 && fits_pattern,
            Err(e) => (module_id@.len() == 0 || !fits_pattern) && e@ == module_id_error(
                module_id@,
                pattern@,
                e@.timestamp,
            ),
        },
{
    if module_id.is_empty() || !fits_pattern {
        let message = cat4("Invalid module ID: '", module_id, "'. Must match pattern: ", pattern);
        return Err(ModuleError::new(ErrorCode::InvalidModuleId, message.as_str()));
    }
    Ok(())
}

/// The error that callers see: what a step error wraps, and of that what a
/// middleware chain error wraps.
pub open spec fn underlying(e: ErrorView) -> ErrorView {
    let step = match errors::unwrapped_step_error(e) {
        Some(x) => x,
        None => e,
    };
    match errors::unwrapped_chain_error(step) {
        Some(x) => x,
        None => step,
    }
}

/// The error that callers see.
pub fn underlying_error(e: ModuleError) -> (r: ModuleError)
    ensures
        r@ == underlying(e@),
{
    let step = match e.unwrap_pipeline_step_error() {
        Some(x) => x,
        None => e,
    };
    match step.unwrap_middleware_chain_error() {
        Some(x) => x,
        None => step,
    }
}

/// What happened to a call.
#[derive(Debug)]
pub enum CallEvent {
    /// The pipeline ran to its end.
    Finished { output: Option<JsonValue>, trace: PipelineTrace },
    /// The pipeline failed.
    Failed { error: ModuleError },
    /// The error was given the trace and the module of the call; these
    /// middlewares had been called.
    Decorated { error: ModuleError, executed: Vec<usize> },
    /// The error hooks answered.
    Answered { error: ModuleError, outcome: Option<OnErrorOutcome> },
}

/// What to do next about a call.
#[derive(Debug)]
pub enum CallAction {
    /// Run the pipeline, anew, with these inputs.
    Run { inputs: JsonValue },
    /// Give the error the trace and the module of the call.
    Decorate { error: ModuleError },
    /// Run the error hooks of the middlewares that were called.
    AskMiddleware { error: ModuleError, executed: Vec<usize> },
    /// Return this.
    Return(Result<JsonValue, ModuleError>),
}

/// The mathematical contents of an action.
#[verifier::ext_equal]
pub enum ActionView {
    Run(Json),
    Decorate(ErrorView),
    AskMiddleware(ErrorView, Seq<usize>),
    Return(Result<Json, ErrorView>),
}

impl View for CallAction {
    type V = ActionView;

    open spec fn view(&self) -> ActionView {
        match self {
            CallAction::Run { inputs } => ActionView::Run(inputs@),
            CallAction::Decorate { error } => ActionView::Decorate(error@),
            CallAction::AskMiddleware { error, executed } => ActionView::AskMiddleware(error@, executed@),
            CallAction::Return(Ok(v)) => ActionView::Return(Ok(v@)),
            CallAction::Return(Err(e)) => ActionView::Return(Err(e@)),
        }
    }
}

/// The output of a run, null where there is none.
pub open spec fn output_or_null(output: Option<JsonValue>) -> Json {
    match output {
        Some(v) => v@,
        None => Json::Null,
    }
}

/// The error for a run that a step aborted.
pub open spec fn abort_error(steps: Seq<StepView>, timestamp: Timestamp) -> ErrorView {
    let step = match pipeline::first_abort(steps) {
        Some(s) => s.name,
        None => "unknown"@,
    };
    let why = match pipeline::first_abort(steps) {
        Some(s) => match s.explanation {
            Some(e) => e,
            None => "no explanation"@,
        },
        None => "no explanation"@,
    };
    errors::detailed_error(
        ErrorCode::PipelineAbort,
        "Pipeline aborted at step '"@ + step + "': "@ + why,
        map!["step"@ => Json::Str(step)],
        timestamp,
    )
}

/// What a decorated error leads to: a cancelled call returns at once, and so
/// does one for which no middleware was called; else the error hooks are asked.
pub open spec fn after_decoration(error: ErrorView, executed: Seq<usize>) -> ActionView {
    if error.code == ErrorCode::ExecutionCancelled || executed.len() == 0 {
        ActionView::Return(Err(error))
    } else {
        ActionView::AskMiddleware(error, executed)
    }
}

/// What the answer of the error hooks leads to.
pub open spec fn after_answer(error: ErrorView, outcome: Option<OnErrorOutcome>, may_retry: bool) -> ActionView {
    match outcome {
        Some(OnErrorOutcome::Recovery(v)) => ActionView::Return(Ok(v@)),
        Some(OnErrorOutcome::Retry(s)) => if may_retry {
            ActionView::Run(s.inputs@)
        } else {
            ActionView::Return(Err(error))
        },
        None => ActionView::Return(Err(error)),
    }
}

/// Whether an action is the right one after an event of a call. The timestamp
/// of an error that is made here is the time of making.
pub open spec fn call_continues(event: CallEvent, action: ActionView) -> bool {
    match event {
        CallEvent::Finished { output, trace } => if trace.success {
            action == ActionView::Return(Ok(output_or_null(output)))
        } else {
            action matches ActionView::Return(Err(e)) && e == abort_error(trace.all_steps(), e.timestamp)
        },
        CallEvent::Failed { error } => action == ActionView::Decorate(underlying(error@)),
        CallEvent::Decorated { error, executed } => action == after_decoration(error@, executed@),
        CallEvent::Answered { error, outcome } => action == after_answer(error@, outcome, true),
    }
}

fn decorated_action(error: ModuleError, executed: Vec<usize>) -> (r: CallAction)
    ensures
        r@ == after_decoration(error@, executed@),
{
    if error.code == ErrorCode::ExecutionCancelled || executed.len() == 0 {
        CallAction::Return(Err(error))
    } else {
        CallAction::AskMiddleware { error, executed }
    }
}

fn answered_action(error: ModuleError, outcome: Option<OnErrorOutcome>, may_retry: bool) -> (r: CallAction)
    ensures
        r@ == after_answer(error@, outcome, may_retry),
{
    match outcome {
        Some(OnErrorOutcome::Recovery(v)) => CallAction::Return(Ok(v)),
        Some(OnErrorOutcome::Retry(s)) => if may_retry {
            CallAction::Run { inputs: s.inputs }
        } else {
            CallAction::Return(Err(error))
        },
        None => CallAction::Return(Err(error)),
    }
}

/// The next action of a call.
pub fn call_step(event: CallEvent) -> (r: CallAction)
    ensures
        call_continues(event, r@),
{
    broadcast use crate::json::lemma_value_view;
    match event {
        CallEvent::Finished { output, trace } => {
            if !trace.success {
                let e = match trace.aborted_step() {
                    Some(s) => {
                        let why = match &s.explanation {
                            Some(t) => Some(t.as_str()),
                            None => None,
                        };
                        ModuleError::pipeline_abort(s.name.as_str(), why)
                    },
                    None => ModuleError::pipeline_abort("unknown", None),
                };
                return CallAction::Return(Err(e));
            }
            match output {
                Some(v) => CallAction::Return(Ok(v)),
                None => CallAction::Return(Ok(JsonValue::Null)),
            }
        },
        CallEvent::Failed { error } => CallAction::Decorate { error: underlying_error(error) },
        CallEvent::Decorated { error, executed } => decorated_action(error, executed),
        CallEvent::Answered { error, outcome } => answered_action(error, outcome, true),
    }
}

/// Whether an action is the right one after an event of a traced call, which
/// does not turn an aborted run into an error and does not run again.
pub open spec fn traced_call_continues(event: CallEvent, action: ActionView) -> bool {
    match event {
        CallEvent::Finished { output, trace } => action == ActionView::Return(Ok(output_or_null(output))),
        CallEvent::Failed { error } => action == ActionView::Decorate(underlying(error@)),
        CallEvent::Decorated { error, executed } => action == after_decoration(error@, executed@),
        CallEvent::Answered { error, outcome } => action == after_answer(error@, outcome, false),
    }
}

/// The next action of a traced call. The trace that goes with a returned output
/// is that of the run that ended last.
pub fn call_with_trace_step(event: CallEvent) -> (r: CallAction)
    ensures
        traced_call_continues(event, r@),
{
    broadcast use crate::json::lemma_value_view;
    match event {
        CallEvent::Finished { output, trace: _ } => match output {
            Some(v) => CallAction::Return(Ok(v)),
            None => CallAction::Return(Ok(JsonValue::Null)),
        },
        CallEvent::Failed { error } => CallAction::Decorate { error: underlying_error(error) },
        CallEvent::Decorated { error, executed } => decorated_action(error, executed),
        CallEvent::Answered { error, outcome } => answered_action(error, outcome, false),
    }
}

/// A cancelled call is returned as it is: no middleware is asked about it.
pub proof fn cancellation_is_final(error: ErrorView, executed: Seq<usize>)
    requires
        error.code == ErrorCode::ExecutionCancelled,
    ensures
        after_decoration(error, executed) == ActionView::Return(Err(error)),
{
}

/// A call runs again only where a middleware asked for it, and then with the
/// inputs that it gave.
pub proof fn only_a_retry_runs_again(event: CallEvent, action: ActionView)
    requires
        call_continues(event, action),
        action is Run,
    ensures
        event matches CallEvent::Answered { error, outcome: Some(OnErrorOutcome::Retry(s)) } && action == ActionView::Run(
            s.inputs@,
        ),
{
}

/// A traced call never runs again.
pub proof fn a_traced_call_runs_once(event: CallEvent, action: ActionView)
    requires
        traced_call_continues(event, action),
    ensures
        !(action is Run),
{
}

/// The error of a step that failed because a middleware failed is, to callers,
/// the error of the middleware.
pub proof fn callers_see_the_cause(step: Seq<char>, chained: ErrorView, inner: ErrorView, timestamp: Timestamp)
    requires
        clock::time_of_text(clock::time_text(chained.timestamp)) == Some(chained.timestamp),
        errors::unwrapped_chain_error(chained) == Some(inner),
    ensures
        underlying(errors::step_error(step, chained, timestamp)) == inner,
{
    errors::step_error_unwraps(step, chained, timestamp);
}

/// Where the error hooks answer with a value, the call returns that value, traced
/// or not, whatever the error was.
pub proof fn a_recovery_is_the_result(error: ModuleError, value: JsonValue, action: ActionView)
    requires
        ({
            let event = CallEvent::Answered { error, outcome: Some(OnErrorOutcome::Recovery(value)) };
            call_continues(event, action) || traced_call_continues(event, action)
        }),
    ensures
        action == ActionView::Return(Ok(value@)),
{
}

/// Where no error hook has an answer, the call returns the error that they were
/// asked about, traced or not.
pub proof fn an_unanswered_error_is_the_result(error: ModuleError, action: ActionView)
    requires
        ({
            let event = CallEvent::Answered { error, outcome: None };
            call_continues(event, action) || traced_call_continues(event, action)
        }),
    ensures
        action == ActionView::Return(Err(error@)),
{
}

/// Where the error hooks ask for a retry, the pipeline runs again with the inputs
/// that they gave; a traced call, which does not run again, returns the error.
pub proof fn a_retry_uses_the_given_inputs(
    error: ModuleError,
    signal: RetrySignal,
    action: ActionView,
    traced: ActionView,
)
    requires
        ({
            let event = CallEvent::Answered { error, outcome: Some(OnErrorOutcome::Retry(signal)) };
            call_continues(event, action) && traced_call_continues(event, traced)
        }),
    ensures
        action == ActionView::Run(signal.inputs@),
        traced == ActionView::Return(Err(error@)),
{
}

/// A run that succeeded returns its output, and null where it has none; a traced
/// call does so even where a step stopped the run.
pub proof fn a_finished_run_gives_its_output(output: Option<JsonValue>, trace: PipelineTrace, action: ActionView)
    requires
        ({
            let event = CallEvent::Finished { output, trace };
            (trace.success && call_continues(event, action)) || traced_call_continues(event, action)
        }),
    ensures
        output matches Some(v) ==> action == ActionView::Return(Ok(v@)),
        output is None ==> action == ActionView::Return(Ok(Json::Null)),
{
}

/// A run that a step stopped returns an error that names the first step that
/// stopped it and says why, and never an output.
pub proof fn an_aborted_run_names_its_step(output: Option<JsonValue>, trace: PipelineTrace, i: int, action: ActionView)
    requires
        !trace.success,
        0 <= i < trace.all_steps().len(),
        trace.all_steps()[i].action == "abort"@,
        forall|j: int| 0 <= j < i ==> (#[trigger] trace.all_steps()[j]).action != "abort"@,
        call_continues(CallEvent::Finished { output, trace }, action),
    ensures
        action matches ActionView::Return(Err(e)) && ({
            let step = trace.all_steps()[i];
            &&& e.code == ErrorCode::PipelineAbort
            &&& e.details.contains_key("step"@) && e.details["step"@] == Json::Str(step.name)
            &&& step.explanation matches Some(why) ==> e.message == "Pipeline aborted at step '"@ + step.name + "': "@ + why
            &&& step.explanation is None ==> e.message == "Pipeline aborted at step '"@ + step.name + "': "@
                + "no explanation"@
        }),
{
    pipeline::the_first_abort_is_found(trace.all_steps(), i);
}

/// A failure that wraps no other error is what the callers see: it is given its
/// trace and module as it is.
pub proof fn a_plain_failure_is_kept(error: ModuleError, action: ActionView)
    requires
        errors::unwrapped_step_error(error@) is None,
        errors::unwrapped_chain_error(error@) is None,
        call_continues(CallEvent::Failed { error }, action) || traced_call_continues(CallEvent::Failed { error }, action),
    ensures
        action == ActionView::Decorate(error@),
{
}

/// The error hooks of the middlewares that were called are asked about an error,
/// all of them and about that error, unless the call was cancelled or none was
/// called; then the error is returned.
pub proof fn the_called_middlewares_are_asked(error: ModuleError, executed: Vec<usize>, action: ActionView)
    requires
        ({
            let event = CallEvent::Decorated { error, executed };
            call_continues(event, action) || traced_call_continues(event, action)
        }),
    ensures
        error.code != ErrorCode::ExecutionCancelled && executed@.len() > 0 ==> action == ActionView::AskMiddleware(
            error@,
            executed@,
        ),
        error.code == ErrorCode::ExecutionCancelled || executed@.len() == 0 ==> action == ActionView::Return(Err(error@)),
{
}

/// A run that failed at no step says that the step is unknown.
pub proof fn a_run_aborted_at_no_step(output: Option<JsonValue>, trace: PipelineTrace, action: ActionView)
    requires
        !trace.success,
        forall|j: int| 0 <= j < trace.all_steps().len() ==> (#[trigger] trace.all_steps()[j]).action != "abort"@,
        call_continues(CallEvent::Finished { output, trace }, action),
    ensures
        action matches ActionView::Return(Err(e)) && e.code == ErrorCode::PipelineAbort && e.message
            == "Pipeline aborted at step '"@ + "unknown"@ + "': "@ + "no explanation"@ && e.details["step"@] == Json::Str(
            "unknown"@,
        ),
{
    pipeline::without_an_abort_none_is_found(trace.all_steps());
}

/// A refused identifier is named, with the pattern that it does not fit.
pub proof fn a_refused_identifier_is_named(module_id: Seq<char>, pattern: Seq<char>, timestamp: Timestamp)
    ensures
        ({
            let e = module_id_error(module_id, pattern, timestamp);
            &&& e.code == ErrorCode::InvalidModuleId
            &&& e.timestamp == timestamp
            &&& e.message == "Invalid module ID: '"@ + module_id + "'. Must match pattern: "@ + pattern
        }),
{
}

} // verus!
