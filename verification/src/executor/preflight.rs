//! The checks that a call would meet, without making it.
use vstd::prelude::*;
use vstd::string::*;
use crate::error_code::ErrorCode;
use crate::errors::{ErrorView, ModuleError};
use crate::executor::pipeline::{PipelineTrace, StepTrace, StepView};
use crate::json::{empty_object, Json, JsonValue, put};
use crate::module::{ACL_CHECK_NAME, CheckView, MODULE_PREFLIGHT_CHECK_NAME, MODULE_PREVIEW_CHECK_NAME, PreflightCheckResult, PreflightResult, PreflightView};
use crate::text::{cat2, cat3, str_eq, to_upper};
use crate::error_code;
use crate::errors;
use crate::executor::pipeline;
use crate::json;
use crate::module;
use crate::text;

verus! {

/// The check that a pipeline step stands for.
pub open spec fn check_name(step: Seq<char>) -> Seq<char> {
    if step == "context_creation"@ {
        "context"@
    } else if step == "call_chain_guard"@ {
        "call_chain"@
    } else if step == "acl_check"@ {
        "acl"@
    } else if step == "approval_gate"@ {
        "approval"@
    } else if step == "middleware_before"@ {
        "middleware"@
    } else if step == "input_validation"@ {
        "schema"@
    } else {
        step
    }
}

/// The check that a pipeline step stands for.
fn step_to_check_name(step: &str) -> (r: String)
    ensures
        r@ == check_name(step@),
{
    if str_eq(step, "context_creation") {
        "context".to_owned()
    } else if str_eq(step, "call_chain_guard") {
        "call_chain".to_owned()
    } else if str_eq(step, "acl_check") {
        ACL_CHECK_NAME.to_owned()
    } else if str_eq(step, "approval_gate") {
        "approval".to_owned()
    } else if str_eq(step, "middleware_before") {
        "middleware".to_owned()
    } else if str_eq(step, "input_validation") {
        "schema".to_owned()
    } else {
        step.to_owned()
    }
}

/// A code and a message as a JSON object.
pub open spec fn code_and_message(code: Seq<char>, message: Seq<char>) -> Json {
    Json::Obj(map!["code"@ => Json::Str(code), "message"@ => Json::Str(message)])
}

/// The check that a step of a run gives.
pub open spec fn check_of_step(s: StepView) -> CheckView {
    CheckView {
        check: check_name(s.name),
        passed: !pipeline::aborted(s),
        error: if pipeline::aborted(s) {
            match s.explanation {
                Some(why) => Some(code_and_message("STEP_"@ + text::uppercase(s.name) + "_FAILED"@, why)),
                None => None,
            }
        } else {
            None
        },
        warnings: Seq::empty(),
    }
}

/// The checks that a run gives: one for each step that was not skipped.
pub open spec fn checks_of_steps(s: Seq<StepView>) -> Seq<CheckView>
    decreases s.len(),
{
    if s.len() == 0 {
        Seq::empty()
    } else if s.last().skipped {
        checks_of_steps(s.drop_last())
    } else {
        checks_of_steps(s.drop_last()).push(check_of_step(s.last()))
    }
}

fn code_object(code: &str, message: &str) -> (r: JsonValue)
    ensures
        r@ == code_and_message(code@, message@),
{
    broadcast use crate::json::lemma_value_view;
    let mut m = empty_object();
    put(&mut m, "code", JsonValue::str(code));
    put(&mut m, "message", JsonValue::str(message));
    JsonValue::Object(m)
}

fn check_from_step(st: &StepTrace) -> (r: PreflightCheckResult)
    ensures
        r@ == check_of_step(st@),
{
    let stopped = str_eq(st.action.as_str(), "abort");
    let error = if stopped {
        match &st.explanation {
            Some(why) => {
                let upper = to_upper(st.name.as_str());
                let code = cat3("STEP_", upper.as_str(), "_FAILED");
                Some(code_object(code.as_str(), why.as_str()))
            },
            None => None,
        }
    } else {
        None
    };
    let r = PreflightCheckResult {
        check: step_to_check_name(st.name.as_str()),
        passed: !stopped,
        error,
        warnings: Vec::new(),
    };
    assert(r@.warnings =~= Seq::empty());
    r
}

/// The checks that a run gives.
pub fn trace_to_checks(trace: &PipelineTrace) -> (r: Vec<PreflightCheckResult>)
    ensures
        module::checks_view(r@) == checks_of_steps(trace.all_steps()),
{
    let mut out: Vec<PreflightCheckResult> = Vec::new();
    let mut i: usize = 0;
    let ghost s = trace.all_steps();
    assert(module::checks_view(out@) =~= Seq::empty());
    assert(s.subrange(0, 0) =~= Seq::empty());
    while i < trace.steps.len()
        invariant
            i <= trace.steps.len(),
            s == trace.all_steps(),
            module::checks_view(out@) == checks_of_steps(s.subrange(0, i as int)),
        decreases trace.steps.len() - i,
    {
        let ghost part = s.subrange(0, i + 1);
        assert(part.drop_last() =~= s.subrange(0, i as int));
        assert(part.last() == trace.steps@[i as int]@);
        if !trace.steps[i].skipped {
            let ghost before = module::checks_view(out@);
            let c = check_from_step(&trace.steps[i]);
            out.push(c);
            assert(module::checks_view(out@) =~= before.push(c@));
        }
        i = i + 1;
    }
    assert(s.subrange(0, s.len() as int) =~= s);
    out
}

/// A failed check without warnings.
pub open spec fn failed_check(check: Seq<char>, error: Json) -> CheckView {
    CheckView { check, passed: false, error: Some(error), warnings: Seq::empty() }
}

/// A passed check with warnings.
pub open spec fn passed_check(check: Seq<char>, warnings: Seq<Seq<char>>) -> CheckView {
    CheckView { check, passed: true, error: None, warnings }
}

fn fail(check: &str, error: JsonValue) -> (r: PreflightCheckResult)
    ensures
        r@ == failed_check(check@, error@),
{
    let r = PreflightCheckResult { check: check.to_owned(), passed: false, error: Some(error), warnings: Vec::new() };
    assert(r@.warnings =~= Seq::empty());
    r
}

/// The result of a preflight that one failed check ends.
pub open spec fn refused(check: Seq<char>, error: ErrorView) -> PreflightView {
    PreflightView {
        valid: false,
        checks: seq![failed_check(check, Json::Obj(errors::error_fields(error)))],
        requires_approval: false,
        predicted_changes: Seq::empty(),
    }
}

fn refuse(check: &str, error: &ModuleError) -> (r: PreflightResult)
    ensures
        r@ == refused(check@, error@),
{
    let mut checks: Vec<PreflightCheckResult> = Vec::new();
    checks.push(fail(check, error.to_dict()));
    let r = PreflightResult { valid: false, checks, requires_approval: false, predicted_changes: Vec::new() };
    assert(r@.checks =~= refused(check@, error@).checks);
    assert(r@.predicted_changes =~= Seq::empty());
    r
}

/// A malformed module identifier is a failed check, not an error.
pub fn module_id_refused(error: &ModuleError) -> (r: PreflightResult)
    ensures
        r@ == refused("module_id"@, error@),
{
    refuse("module_id", error)
}

/// A context that belongs to another executor is a failed check, not an error.
pub fn binding_refused(error: &ModuleError) -> (r: PreflightResult)
    ensures
        r@ == refused("executor_binding"@, error@),
{
    refuse("executor_binding", error)
}

/// The check that an error of the pipeline belongs to.
pub open spec fn check_of_code(code: ErrorCode) -> Seq<char> {
    match code {
        ErrorCode::ModuleNotFound => "module_lookup"@,
        ErrorCode::ACLDenied => "acl"@,
        ErrorCode::SchemaValidationError => "schema"@,
        ErrorCode::GeneralInvalidInput => "schema"@,
        ErrorCode::CallDepthExceeded => "call_chain"@,
        ErrorCode::CircularCall => "call_chain"@,
        _ => "unknown"@,
    }
}

fn check_for_code(code: ErrorCode) -> (r: &'static str)
    ensures
        r@ == check_of_code(code),
{
    match code {
        ErrorCode::ModuleNotFound => "module_lookup",
        ErrorCode::ACLDenied => ACL_CHECK_NAME,
        ErrorCode::SchemaValidationError => "schema",
        ErrorCode::GeneralInvalidInput => "schema",
        ErrorCode::CallDepthExceeded => "call_chain",
        ErrorCode::CircularCall => "call_chain",
        _ => "unknown",
    }
}

/// The checks that passed.
pub open spec fn passed_checks(s: Seq<CheckView>) -> Seq<CheckView>
    decreases s.len(),
{
    if s.len() == 0 {
        Seq::empty()
    } else if s.last().passed {
        passed_checks(s.drop_last()).push(s.last())
    } else {
        passed_checks(s.drop_last())
    }
}

/// The step error's cause, or the error itself.
pub open spec fn step_cause(e: ErrorView) -> ErrorView {
    match errors::unwrapped_step_error(e) {
        Some(x) => x,
        None => e,
    }
}

/// The checks of a run that failed: those that passed, and one for the failure,
/// with the wire name of its code.
pub open spec fn checks_of_failure(steps: Seq<StepView>, error: ErrorView) -> Seq<CheckView> {
    let cause = step_cause(error);
    passed_checks(checks_of_steps(steps)).push(
        failed_check(check_of_code(cause.code), code_and_message(error_code::wire_name(cause.code), cause.message)),
    )
}

/// The checks of a run that failed.
pub fn failure_to_checks(trace: &PipelineTrace, error: ModuleError) -> (r: Vec<PreflightCheckResult>)
    ensures
        module::checks_view(r@) == checks_of_failure(trace.all_steps(), error@),
{
    let all = trace_to_checks(trace);
    let mut out = keep_passed(all);
    let cause = match error.unwrap_pipeline_step_error() {
        Some(x) => x,
        None => error,
    };
    let ghost before = module::checks_view(out@);
    let entry = fail(check_for_code(cause.code), code_object(cause.code.wire_str(), cause.message.as_str()));
    out.push(entry);
    assert(module::checks_view(out@) =~= before.push(entry@));
    out
}

fn keep_passed(checks: Vec<PreflightCheckResult>) -> (r: Vec<PreflightCheckResult>)
    ensures
        module::checks_view(r@) == passed_checks(module::checks_view(checks@)),
{
    let ghost s = module::checks_view(checks@);
    let mut rest = checks;
    let mut out: Vec<PreflightCheckResult> = Vec::new();
    assert(s.subrange(0, s.len() as int) =~= s);
    while rest.len() > 0
        invariant
            rest@.len() <= s.len(),
            module::checks_view(rest@) == s.subrange(0, rest@.len() as int),
            passed_checks(s) == passed_checks(module::checks_view(rest@)) + module::checks_view(out@),
        decreases rest.len(),
    {
        let ghost prev = module::checks_view(rest@);
        let ghost tail = module::checks_view(out@);
        let last = rest.pop();
        assert(module::checks_view(rest@) =~= prev.drop_last());
        assert(module::checks_view(rest@) =~= s.subrange(0, rest@.len() as int));
        match last {
            Some(c) => {
                assert(c@ == prev.last());
                if c.passed {
                    out.insert(0, c);
                    assert(module::checks_view(out@) =~= seq![c@] + tail);
                    assert(passed_checks(prev) + tail =~= passed_checks(prev.drop_last()) + (seq![c@] + tail));
                }
            },
            None => {},
        }
    }
    assert(module::checks_view(rest@) =~= Seq::empty());
    assert(passed_checks(s) =~= module::checks_view(out@));
    out
}

/// Whether access was denied.
pub open spec fn acl_denied(s: Seq<CheckView>) -> bool {
    exists|i: int| 0 <= i < s.len() && (#[trigger] s[i]).check == "acl"@ && !s[i].passed
}

/// Whether the module's own account of the call may be asked for: only where
/// the module was found and access was not denied.
pub fn may_introspect(checks: &Vec<PreflightCheckResult>, module_found: bool) -> (r: bool)
    ensures
        r == (module_found && !acl_denied(module::checks_view(checks@))),
{
    let mut i: usize = 0;
    while i < checks.len()
        invariant
            i <= checks.len(),
            forall|j: int| 0 <= j < i ==> !((#[trigger] module::checks_view(checks@)[j]).check == "acl"@
                && !module::checks_view(checks@)[j].passed),
        decreases checks.len() - i,
    {
        if str_eq(checks[i].check.as_str(), ACL_CHECK_NAME) && !checks[i].passed {
            assert(module::checks_view(checks@)[i as int].check == "acl"@);
            return false;
        }
        i = i + 1;
    }
    module_found
}

/// What a module's preview gave.
#[derive(Debug)]
pub enum Preview {
    /// The module does not preview.
    Absent,
    /// The changes that the call would make.
    Changes(Vec<JsonValue>),
    /// The preview broke off with this message.
    Panicked(String),
}

/// A module's own account of a call: its warnings and its preview.
#[derive(Debug)]
pub struct Introspection {
    pub warnings: Vec<String>,
    pub preview: Preview,
}

/// The checks that a module's account adds.
pub open spec fn introspection_checks(x: Introspection) -> Seq<CheckView> {
    let first = passed_check("module_preflight"@, text::texts(x.warnings@));
    match x.preview {
        Preview::Absent => seq![first],
        Preview::Changes(_) => seq![first, passed_check("module_preview"@, Seq::empty())],
        Preview::Panicked(m) => seq![
            first,
            passed_check("module_preview"@, seq!["preview() panicked: "@ + m@]),
        ],
    }
}

/// The changes that a preview predicts.
pub open spec fn predicted(x: Option<Introspection>) -> Seq<Json> {
    match x {
        Some(i) => match i.preview {
            Preview::Changes(c) => json::values_view(c@),
            _ => Seq::empty(),
        },
        None => Seq::empty(),
    }
}

/// Whether the call needs approval: as the policy decides, or without one as the
/// module's annotations say.
pub open spec fn approval_needed(policy: Option<bool>, annotated: bool) -> bool {
    match policy {
        Some(p) => p,
        None => annotated,
    }
}

/// The result of a preflight.
pub open spec fn preflight_of(
    checks: Seq<CheckView>,
    account: Option<Introspection>,
    policy: Option<bool>,
    annotated: bool,
) -> PreflightView {
    let all = match account {
        Some(x) => checks + introspection_checks(x),
        None => checks,
    };
    PreflightView {
        valid: module::all_passed(all),
        checks: all,
        requires_approval: approval_needed(policy, annotated),
        predicted_changes: predicted(account),
    }
}

/// The result of a preflight, from the checks of the run, the module's account
/// where it was asked for, and the need of approval.
pub fn finish_preflight(
    checks: Vec<PreflightCheckResult>,
    account: Option<Introspection>,
    policy: Option<bool>,
    annotated: bool,
) -> (r: PreflightResult)
    ensures
        r@ == preflight_of(module::checks_view(checks@), account, policy, annotated),
{
    let ghost start = module::checks_view(checks@);
    let mut all = checks;
    let mut changes: Vec<JsonValue> = Vec::new();
    assert(json::values_view(changes@) =~= Seq::empty());
    match account {
        Some(x) => {
            let ghost given = x;
            let first = PreflightCheckResult {
                check: MODULE_PREFLIGHT_CHECK_NAME.to_owned(),
                passed: true,
                error: None,
                warnings: x.warnings,
            };
            let ghost first_view = first@;
            all.push(first);
            assert(module::checks_view(all@) =~= start.push(first_view));
            match x.preview {
                Preview::Absent => {
                    assert(module::checks_view(all@) =~= start + introspection_checks(given));
                },
                Preview::Changes(c) => {
                    let second = PreflightCheckResult {
                        check: MODULE_PREVIEW_CHECK_NAME.to_owned(),
                        passed: true,
                        error: None,
                        warnings: Vec::new(),
                    };
                    let ghost second_view = second@;
                    assert(second_view.warnings =~= Seq::empty());
                    all.push(second);
                    changes = c;
                    assert(module::checks_view(all@) =~= start + introspection_checks(given));
                },
                Preview::Panicked(m) => {
                    let mut warnings: Vec<String> = Vec::new();
                    warnings.push(cat2("preview() panicked: ", m.as_str()));
                    let second = PreflightCheckResult {
                        check: MODULE_PREVIEW_CHECK_NAME.to_owned(),
                        passed: true,
                        error: None,
                        warnings,
                    };
                    let ghost second_view = second@;
                    assert(second_view.warnings =~= seq!["preview() panicked: "@ + m@]);
                    all.push(second);
                    assert(module::checks_view(all@) =~= start + introspection_checks(given));
                },
            }
        },
        None => {},
    }
    let valid = every_check_passed(&all);
    let requires_approval = match policy {
        Some(p) => p,
        None => annotated,
    };
    PreflightResult { valid, checks: all, requires_approval, predicted_changes: changes }
}

fn every_check_passed(checks: &Vec<PreflightCheckResult>) -> (r: bool)
    ensures
        r == module::all_passed(module::checks_view(checks@)),
{
    let mut i: usize = 0;
    while i < checks.len()
        invariant
            i <= checks.len(),
            forall|j: int| 0 <= j < i ==> (#[trigger] module::checks_view(checks@)[j]).passed,
        decreases checks.len() - i,
    {
        if !checks[i].passed {
            assert(!module::checks_view(checks@)[i as int].passed);
            return false;
        }
        i = i + 1;
    }
    true
}

/// What happened to a preflight.
#[derive(Debug)]
pub enum ValidateEvent {
    /// The module identifier was checked.
    Identified(Result<(), ModuleError>),
    /// The context was bound to the executor.
    Bound(Result<(), ModuleError>),
    /// The pipeline ran without effects: its steps, its failure where it failed,
    /// whether the module was found, and the need of approval.
    Ran {
        trace: PipelineTrace,
        failure: Option<ModuleError>,
        module_found: bool,
        policy: Option<bool>,
        annotated: bool,
    },
    /// The module gave its account of the call.
    Told { checks: Vec<PreflightCheckResult>, account: Introspection, policy: Option<bool>, annotated: bool },
}

/// What to do next about a preflight.
#[derive(Debug)]
pub enum ValidateAction {
    /// Bind the context to the executor.
    Bind,
    /// Run the pipeline without effects.
    DryRun,
    /// Ask the module for its account; these checks were made so far.
    Introspect { checks: Vec<PreflightCheckResult> },
    /// Return this.
    Finish(PreflightResult),
}

/// The mathematical contents of an action.
#[verifier::ext_equal]
pub enum ValidateView {
    Bind,
    DryRun,
    Introspect(Seq<CheckView>),
    Finish(PreflightView),
}

impl View for ValidateAction {
    type V = ValidateView;

    open spec fn view(&self) -> ValidateView {
        match self {
            ValidateAction::Bind => ValidateView::Bind,
            ValidateAction::DryRun => ValidateView::DryRun,
            ValidateAction::Introspect { checks } => ValidateView::Introspect(module::checks_view(checks@)),
            ValidateAction::Finish(r) => ValidateView::Finish(r@),
        }
    }
}

/// The checks of a run.
pub open spec fn checks_of_run(steps: Seq<StepView>, failure: Option<ErrorView>) -> Seq<CheckView> {
    match failure {
        Some(e) => checks_of_failure(steps, e),
        None => checks_of_steps(steps),
    }
}

/// What follows the run: the module's account, or the result where the module
/// was not found or access was denied.
pub open spec fn after_run(
    steps: Seq<StepView>,
    failure: Option<ErrorView>,
    module_found: bool,
    policy: Option<bool>,
    annotated: bool,
) -> ValidateView {
    let checks = checks_of_run(steps, failure);
    if module_found && !acl_denied(checks) {
        ValidateView::Introspect(checks)
    } else {
        ValidateView::Finish(preflight_of(checks, None, policy, annotated))
    }
}

/// What follows an event.
pub open spec fn validation(event: ValidateEvent) -> ValidateView {
    match event {
        ValidateEvent::Identified(Ok(_)) => ValidateView::Bind,
        ValidateEvent::Identified(Err(e)) => ValidateView::Finish(refused("module_id"@, e@)),
        ValidateEvent::Bound(Ok(_)) => ValidateView::DryRun,
        ValidateEvent::Bound(Err(e)) => ValidateView::Finish(refused("executor_binding"@, e@)),
        ValidateEvent::Ran { trace, failure, module_found, policy, annotated } => after_run(
            trace.all_steps(),
            match failure {
                Some(e) => Some(e@),
                None => None,
            },
            module_found,
            policy,
            annotated,
        ),
        ValidateEvent::Told { checks, account, policy, annotated } => ValidateView::Finish(
            preflight_of(module::checks_view(checks@), Some(account), policy, annotated),
        ),
    }
}

/// One step of a preflight: it never fails, a refusal is a result.
pub fn validate_step(event: ValidateEvent) -> (r: ValidateAction)
    ensures
        r@ == validation(event),
{
    match event {
        ValidateEvent::Identified(Ok(_)) => ValidateAction::Bind,
        ValidateEvent::Identified(Err(e)) => ValidateAction::Finish(module_id_refused(&e)),
        ValidateEvent::Bound(Ok(_)) => ValidateAction::DryRun,
        ValidateEvent::Bound(Err(e)) => ValidateAction::Finish(binding_refused(&e)),
        ValidateEvent::Ran { trace, failure, module_found, policy, annotated } => {
            let checks = match failure {
                Some(e) => failure_to_checks(&trace, e),
                None => trace_to_checks(&trace),
            };
            if may_introspect(&checks, module_found) {
                ValidateAction::Introspect { checks }
            } else {
                ValidateAction::Finish(finish_preflight(checks, None, policy, annotated))
            }
        },
        ValidateEvent::Told { checks, account, policy, annotated } => {
            ValidateAction::Finish(finish_preflight(checks, Some(account), policy, annotated))
        },
    }
}

/// A caller whom access control denies gets no account of the module: the module
/// is not asked, and the result predicts nothing.
pub proof fn a_denied_caller_learns_nothing(
    steps: Seq<StepView>,
    error: ErrorView,
    module_found: bool,
    policy: Option<bool>,
    annotated: bool,
)
    requires
        step_cause(error).code == ErrorCode::ACLDenied,
    ensures
        match after_run(steps, Some(error), module_found, policy, annotated) {
            ValidateView::Finish(r) => !r.valid && r.predicted_changes.len() == 0 && r.checks == checks_of_failure(
                steps,
                error,
            ),
            _ => false,
        },
{
    let s = checks_of_failure(steps, error);
    let n = passed_checks(checks_of_steps(steps)).len() as int;
    assert(s[n].check == "acl"@ && !s[n].passed);
}

/// Inputs that do not fit the schema do not shut off the account of a module that
/// was found.
pub proof fn a_schema_failure_still_tells(steps: Seq<StepView>, error: ErrorView, policy: Option<bool>, annotated: bool)
    requires
        step_cause(error).code == ErrorCode::SchemaValidationError,
    ensures
        after_run(steps, Some(error), true, policy, annotated) == ValidateView::Introspect(
            checks_of_failure(steps, error),
        ),
{
    let s = checks_of_failure(steps, error);
    let p = passed_checks(checks_of_steps(steps));
    lemma_passed_are_passed(checks_of_steps(steps));
    reveal_strlit("schema");
    reveal_strlit("acl");
    assert("schema"@.len() == 6 && "acl"@.len() == 3);
    assert forall|i: int| 0 <= i < s.len() implies !((#[trigger] s[i]).check == "acl"@ && !s[i].passed) by {
        if i < p.len() {
            assert(s[i] == p[i]);
        }
    }
}

proof fn lemma_passed_are_passed(s: Seq<CheckView>)
    ensures
        forall|i: int| 0 <= i < passed_checks(s).len() ==> (#[trigger] passed_checks(s)[i]).passed,
    decreases s.len(),
{
    if s.len() > 0 {
        lemma_passed_are_passed(s.drop_last());
    }
}

/// A run that failed makes the preflight invalid, and its failure is reported
/// once.
pub proof fn a_failure_is_reported_once(steps: Seq<StepView>, error: ErrorView)
    ensures
        !module::all_passed(checks_of_failure(steps, error)),
        module::failed_checks(checks_of_failure(steps, error)).len() == 1,
{
    let p = passed_checks(checks_of_steps(steps));
    let s = checks_of_failure(steps, error);
    assert(s.drop_last() =~= p);
    lemma_passed_have_no_failure(checks_of_steps(steps));
    module::no_failure_means_all_passed(s);
}

proof fn lemma_passed_have_no_failure(s: Seq<CheckView>)
    ensures
        module::failed_checks(passed_checks(s)).len() == 0,
    decreases s.len(),
{
    if s.len() > 0 {
        lemma_passed_have_no_failure(s.drop_last());
        if s.last().passed {
            let t = passed_checks(s);
            assert(t.drop_last() =~= passed_checks(s.drop_last()));
        }
    }
}

/// A preflight is valid exactly where every check of it passed.
pub proof fn valid_means_every_check_passed(
    checks: Seq<CheckView>,
    account: Option<Introspection>,
    policy: Option<bool>,
    annotated: bool,
)
    ensures
        ({
            let r = preflight_of(checks, account, policy, annotated);
            &&& r.valid <==> forall|i: int| 0 <= i < checks.len() ==> (#[trigger] checks[i]).passed
            &&& forall|i: int| 0 <= i < checks.len() ==> #[trigger] r.checks[i] == checks[i]
            &&& r.checks.len() >= checks.len()
            &&& account is None ==> r.checks == checks && r.predicted_changes.len() == 0
            &&& policy matches Some(p) ==> r.requires_approval == p
            &&& policy is None ==> r.requires_approval == annotated
        }),
{
    let r = preflight_of(checks, account, policy, annotated);
    if let Some(x) = account {
        let more = introspection_checks(x);
        assert forall|i: int| 0 <= i < more.len() implies (#[trigger] more[i]).passed by {}
        if forall|i: int| 0 <= i < checks.len() ==> (#[trigger] checks[i]).passed {
            assert forall|i: int| 0 <= i < r.checks.len() implies (#[trigger] r.checks[i]).passed by {
                if i >= checks.len() {
                    assert(r.checks[i] == more[i - checks.len()]);
                } else {
                    assert(r.checks[i] == checks[i]);
                }
            }
        }
    }
    if r.valid {
        assert forall|i: int| 0 <= i < checks.len() implies (#[trigger] checks[i]).passed by {
            assert(r.checks[i] == checks[i]);
        }
    }
}

/// What a module tells of a call is passed on: its warnings, the changes it
/// predicts, and that its preview broke off.
pub proof fn the_account_of_a_module_is_passed_on(
    checks: Seq<CheckView>,
    account: Introspection,
    policy: Option<bool>,
    annotated: bool,
)
    ensures
        ({
            let r = preflight_of(checks, Some(account), policy, annotated);
            let n = checks.len() as int;
            &&& r.checks.len() > n && r.checks[n].check == "module_preflight"@ && r.checks[n].passed && r.checks[n].warnings
                == text::texts(account.warnings@)
            &&& account.preview is Absent ==> r.checks.len() == n + 1 && r.predicted_changes.len() == 0
            &&& account.preview matches Preview::Changes(c) ==> r.checks.len() == n + 2 && r.checks[n + 1].check
                == "module_preview"@ && r.checks[n + 1].warnings.len() == 0 && r.predicted_changes == json::values_view(c@)
            &&& account.preview matches Preview::Panicked(m) ==> r.checks.len() == n + 2 && r.checks[n + 1].check
                == "module_preview"@ && r.checks[n + 1].warnings == seq!["preview() panicked: "@ + m@]
                && r.predicted_changes.len() == 0
        }),
{
}

/// A refused preflight is not valid, and its one check has failed with the error.
pub proof fn a_refusal_has_one_failed_check(check: Seq<char>, error: ErrorView)
    ensures
        ({
            let r = refused(check, error);
            &&& !r.valid && !r.requires_approval && r.predicted_changes.len() == 0
            &&& r.checks.len() == 1 && r.checks[0].check == check && !r.checks[0].passed
            &&& r.checks[0].error == Some(Json::Obj(errors::error_fields(error)))
        }),
{
}

/// Every step of a run that was not skipped is a check, in the order of the steps,
/// and no other: it passed unless the step aborted.
pub proof fn every_step_that_ran_is_a_check(s: Seq<StepView>)
    ensures
        ({
            let ran = s.filter(|x: StepView| !x.skipped);
            let checks = checks_of_steps(s);
            &&& checks.len() == ran.len()
            &&& forall|i: int| 0 <= i < ran.len() ==> (#[trigger] checks[i]).check == check_name(ran[i].name)
            &&& forall|i: int| 0 <= i < ran.len() ==> ((#[trigger] checks[i]).passed <==> ran[i].action != "abort"@)
            &&& forall|i: int|
                0 <= i < ran.len() && ran[i].action == "abort"@ && ran[i].explanation is Some ==> ((
                #[trigger] checks[i]).error matches Some(e) && json::json_get(e, "message"@) == Some(
                    Json::Str(ran[i].explanation->0),
                ) && json::json_get(e, "code"@) == Some(
                    Json::Str("STEP_"@ + text::uppercase(ran[i].name) + "_FAILED"@),
                ))
            &&& forall|i: int|
                0 <= i < ran.len() && (ran[i].action != "abort"@ || ran[i].explanation is None) ==> (
                #[trigger] checks[i]).error is None
        }),
    decreases s.len(),
{
    reveal(Seq::filter);
    reveal_strlit("code");
    reveal_strlit("message");
    assert("code"@.len() == 4 && "message"@.len() == 7);
    if s.len() > 0 {
        every_step_that_ran_is_a_check(s.drop_last());
    }
}

/// The names of checks: those of the steps that a failure can name too are the
/// same, and the renamed ones are all different.
pub proof fn steps_and_failures_name_the_same_checks()
    ensures
        check_name("input_validation"@) == check_of_code(ErrorCode::SchemaValidationError),
        check_name("input_validation"@) == check_of_code(ErrorCode::GeneralInvalidInput),
        check_name("call_chain_guard"@) == check_of_code(ErrorCode::CallDepthExceeded),
        check_name("call_chain_guard"@) == check_of_code(ErrorCode::CircularCall),
        check_name("acl_check"@) == check_of_code(ErrorCode::ACLDenied),
        check_name("module_lookup"@) == check_of_code(ErrorCode::ModuleNotFound),
        check_name("context_creation"@) != check_name("call_chain_guard"@),
        check_name("acl_check"@) != check_name("approval_gate"@),
        check_name("middleware_before"@) != check_name("input_validation"@),
{
    reveal_strlit("context_creation");
    reveal_strlit("call_chain_guard");
    reveal_strlit("acl_check");
    reveal_strlit("approval_gate");
    reveal_strlit("middleware_before");
    reveal_strlit("input_validation");
    reveal_strlit("module_lookup");
    reveal_strlit("context");
    reveal_strlit("call_chain");
    reveal_strlit("acl");
    reveal_strlit("approval");
    reveal_strlit("middleware");
    reveal_strlit("schema");
    assert("context_creation"@.len() == 16 && "call_chain_guard"@.len() == 16 && "acl_check"@.len() == 9);
    assert("approval_gate"@.len() == 13 && "middleware_before"@.len() == 17 && "input_validation"@.len() == 16);
    assert("module_lookup"@.len() == 13 && "module_lookup"@[0] != "approval_gate"@[0]);
    assert("context_creation"@[1] != "call_chain_guard"@[1] && "input_validation"@[0] != "call_chain_guard"@[0]);
    assert("input_validation"@[0] != "context_creation"@[0]);
    assert("context"@.len() == 7 && "call_chain"@.len() == 10 && "acl"@.len() == 3 && "approval"@.len() == 8);
    assert("middleware"@.len() == 10 && "schema"@.len() == 6);
}

/// Where a run failed, the checks that passed stay, in their order, and the last
/// check is the only one that did not pass: it names what failed and carries the
/// code and the message of the error.
pub proof fn a_failed_run_ends_in_its_failure(steps: Seq<StepView>, error: ErrorView)
    requires
        errors::unwrapped_step_error(error) is None,
    ensures
        ({
            let r = checks_of_failure(steps, error);
            let n = r.len() - 1;
            &&& n >= 0 && !r[n].passed && r[n].check == check_of_code(error.code)
            &&& r[n].error matches Some(e) && json::json_get(e, "code"@) == Some(
                Json::Str(error_code::wire_name(error.code)),
            ) && json::json_get(e, "message"@) == Some(Json::Str(error.message))
            &&& r.subrange(0, n) == checks_of_steps(steps).filter(|c: CheckView| c.passed)
        }),
{
    reveal_strlit("code");
    reveal_strlit("message");
    assert("code"@.len() == 4 && "message"@.len() == 7);
    let r = checks_of_failure(steps, error);
    lemma_passed_is_a_filter(checks_of_steps(steps));
    assert(r.subrange(0, r.len() - 1) =~= passed_checks(checks_of_steps(steps)));
}

proof fn lemma_passed_is_a_filter(s: Seq<CheckView>)
    ensures
        passed_checks(s) == s.filter(|c: CheckView| c.passed),
    decreases s.len(),
{
    reveal(Seq::filter);
    if s.len() > 0 {
        lemma_passed_is_a_filter(s.drop_last());
    }
}

/// A module is asked about a call exactly where it was found and no check of
/// access failed; else the preflight ends with the checks there are.
pub proof fn who_is_asked_about_a_call(
    steps: Seq<StepView>,
    failure: Option<ErrorView>,
    module_found: bool,
    policy: Option<bool>,
    annotated: bool,
)
    ensures
        ({
            let checks = checks_of_run(steps, failure);
            let denied = exists|i: int| 0 <= i < checks.len() && (#[trigger] checks[i]).check == "acl"@ && !checks[i].passed;
            let r = after_run(steps, failure, module_found, policy, annotated);
            &&& module_found && !denied ==> r == ValidateView::Introspect(checks)
            &&& !module_found || denied ==> r == ValidateView::Finish(preflight_of(checks, None, policy, annotated))
            &&& failure is None ==> checks == checks_of_steps(steps)
            &&& failure matches Some(e) ==> checks == checks_of_failure(steps, e)
        }),
{
}

/// A preflight goes on as long as nothing refuses it: after the identifier to the
/// binding, after the binding to the dry run.
pub proof fn a_preflight_goes_on_unless_refused(e: ModuleError)
    ensures
        validation(ValidateEvent::Identified(Ok(()))) == ValidateView::Bind,
        validation(ValidateEvent::Bound(Ok(()))) == ValidateView::DryRun,
        validation(ValidateEvent::Identified(Err(e))) == ValidateView::Finish(refused("module_id"@, e@)),
        validation(ValidateEvent::Bound(Err(e))) == ValidateView::Finish(refused("executor_binding"@, e@)),
{
}

/// Steps are told of as checks under the names that callers know, and a failure
/// under the check that it belongs to.
pub proof fn checks_have_names(step: Seq<char>, code: ErrorCode)
    ensures
        check_name("context_creation"@) == "context"@,
        check_name("call_chain_guard"@) == "call_chain"@,
        check_name("acl_check"@) == "acl"@,
        check_name("approval_gate"@) == "approval"@,
        check_name("middleware_before"@) == "middleware"@,
        check_name("input_validation"@) == "schema"@,
        step != "context_creation"@ && step != "call_chain_guard"@ && step != "acl_check"@ && step != "approval_gate"@
            && step != "middleware_before"@ && step != "input_validation"@ ==> check_name(step) == step,
        check_of_code(code) == "module_lookup"@ <==> code == ErrorCode::ModuleNotFound,
        check_of_code(code) == "acl"@ <==> code == ErrorCode::ACLDenied,
        check_of_code(code) == "schema"@ <==> code == ErrorCode::SchemaValidationError || code
            == ErrorCode::GeneralInvalidInput,
        check_of_code(code) == "call_chain"@ <==> code == ErrorCode::CallDepthExceeded || code == ErrorCode::CircularCall,
        code != ErrorCode::ModuleNotFound && code != ErrorCode::ACLDenied && code != ErrorCode::SchemaValidationError
            && code != ErrorCode::GeneralInvalidInput && code != ErrorCode::CallDepthExceeded && code
            != ErrorCode::CircularCall ==> check_of_code(code) == "unknown"@,
{
    reveal_strlit("context_creation");
    reveal_strlit("call_chain_guard");
    reveal_strlit("acl_check");
    reveal_strlit("approval_gate");
    reveal_strlit("middleware_before");
    reveal_strlit("input_validation");
    reveal_strlit("module_lookup");
    reveal_strlit("acl");
    reveal_strlit("schema");
    reveal_strlit("call_chain");
    reveal_strlit("unknown");
    assert("context_creation"@.len() == 16 && "call_chain_guard"@.len() == 16 && "acl_check"@.len() == 9
        && "approval_gate"@.len() == 13 && "middleware_before"@.len() == 17 && "input_validation"@.len() == 16);
    assert("context_creation"@[1] == 'o' && "call_chain_guard"@[1] == 'a' && "input_validation"@[1] == 'n');
    assert("module_lookup"@.len() == 13 && "acl"@.len() == 3 && "schema"@.len() == 6 && "call_chain"@.len() == 10
        && "unknown"@.len() == 7);
}

} // verus!
