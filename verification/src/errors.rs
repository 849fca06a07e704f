//! Structured errors and the registry of module error codes.
use vstd::prelude::*;
use vstd::string::*;
use crate::clock::Timestamp;
use crate::error_code::ErrorCode;
use crate::json::{empty_object, Json, JsonValue, lookup, put};
use crate::strmap::StrMap;
use crate::strset::StrSet;
use crate::text::{cat2, cat3, cat4, cat5, cat7, clone_opt, starts_with, str_eq};
use crate::clock;
use crate::error_code;
use crate::json;
use crate::text;

verus! {

/// Structured error returned by module execution.
#[derive(Debug)]
pub struct ModuleError {
    pub code: ErrorCode,
    pub message: String,
    pub details: StrMap<JsonValue>,
    pub cause: Option<String>,
    pub trace_id: Option<String>,
    pub timestamp: Timestamp,
    pub retryable: Option<bool>,
    pub ai_guidance: Option<String>,
    pub user_fixable: Option<bool>,
    pub suggestion: Option<String>,
}

/// The mathematical contents of an error.
#[verifier::ext_equal]
pub struct ErrorView {
    pub code: ErrorCode,
    pub message: Seq<char>,
    pub details: Map<Seq<char>, Json>,
    pub cause: Option<Seq<char>>,
    pub trace_id: Option<Seq<char>>,
    pub timestamp: Timestamp,
    pub retryable: Option<bool>,
    pub ai_guidance: Option<Seq<char>>,
    pub user_fixable: Option<bool>,
    pub suggestion: Option<Seq<char>>,
}

impl View for ModuleError {
    type V = ErrorView;

    open spec fn view(&self) -> ErrorView {
        ErrorView {
            code: self.code,
            message: self.message@,
            details: json::object_view(self.details),
            cause: text::opt_text(self.cause),
            trace_id: text::opt_text(self.trace_id),
            timestamp: self.timestamp,
            retryable: self.retryable,
            ai_guidance: text::opt_text(self.ai_guidance),
            user_fixable: self.user_fixable,
            suggestion: text::opt_text(self.suggestion),
        }
    }
}

/// An error that carries a code, a message and a time, and nothing else.
pub open spec fn plain_error(code: ErrorCode, message: Seq<char>, timestamp: Timestamp) -> ErrorView {
    ErrorView {
        code,
        message,
        details: Map::empty(),
        cause: None,
        trace_id: None,
        timestamp,
        retryable: None,
        ai_guidance: None,
        user_fixable: None,
        suggestion: None,
    }
}

/// An error that carries details besides.
pub open spec fn detailed_error(
    code: ErrorCode,
    message: Seq<char>,
    details: Map<Seq<char>, Json>,
    timestamp: Timestamp,
) -> ErrorView {
    ErrorView { details, ..plain_error(code, message, timestamp) }
}

// ---------------------------------------------------------------------------
// The JSON form
// ---------------------------------------------------------------------------

/// A map with one more entry, where there is a value for it.
pub open spec fn put_opt(m: Map<Seq<char>, Json>, k: Seq<char>, v: Option<Json>) -> Map<Seq<char>, Json> {
    match v {
        Some(x) => m.insert(k, x),
        None => m,
    }
}

/// An optional text as an optional JSON value.
pub open spec fn opt_json_str(o: Option<Seq<char>>) -> Option<Json> {
    match o {
        Some(s) => Some(Json::Str(s)),
        None => None,
    }
}

/// An optional Boolean as an optional JSON value.
pub open spec fn opt_json_bool(o: Option<bool>) -> Option<Json> {
    match o {
        Some(b) => Some(Json::Bool(b)),
        None => None,
    }
}

/// The entries of the JSON form of an error: fields without a value, and
/// details without entries, are left out.
pub open spec fn error_fields(e: ErrorView) -> Map<Seq<char>, Json> {
    let m0 = Map::<Seq<char>, Json>::empty().insert("code"@, Json::Str(error_code::wire_name(e.code)))
        .insert("message"@, Json::Str(e.message))
        .insert("timestamp"@, Json::Str(clock::time_text(e.timestamp)));
    let m1 = if e.details == Map::<Seq<char>, Json>::empty() {
        m0
    } else {
        m0.insert("details"@, Json::Obj(e.details))
    };
    let m2 = put_opt(m1, "cause"@, opt_json_str(e.cause));
    let m3 = put_opt(m2, "trace_id"@, opt_json_str(e.trace_id));
    let m4 = put_opt(m3, "retryable"@, opt_json_bool(e.retryable));
    let m5 = put_opt(m4, "ai_guidance"@, opt_json_str(e.ai_guidance));
    let m6 = put_opt(m5, "user_fixable"@, opt_json_bool(e.user_fixable));
    put_opt(m6, "suggestion"@, opt_json_str(e.suggestion))
}

/// A text that must be there.
pub open spec fn read_str(m: Map<Seq<char>, Json>, k: Seq<char>) -> Option<Seq<char>> {
    if m.contains_key(k) && m[k] is Str {
        Some(m[k]->Str_0)
    } else {
        None
    }
}

/// A text that may be absent or null; anything else does not read.
pub open spec fn read_opt_str(m: Map<Seq<char>, Json>, k: Seq<char>) -> Option<Option<Seq<char>>> {
    if !m.contains_key(k) || m[k] is Null {
        Some(None)
    } else if m[k] is Str {
        Some(Some(m[k]->Str_0))
    } else {
        None
    }
}

/// A Boolean that may be absent or null; anything else does not read.
pub open spec fn read_opt_bool(m: Map<Seq<char>, Json>, k: Seq<char>) -> Option<Option<bool>> {
    if !m.contains_key(k) || m[k] is Null {
        Some(None)
    } else if m[k] is Bool {
        Some(Some(m[k]->Bool_0))
    } else {
        None
    }
}

/// Whether an object holds one name alone, with null under it.
pub open spec fn holds_only(m: Map<Seq<char>, Json>, k: Seq<char>) -> bool {
    m == Map::<Seq<char>, Json>::empty().insert(k, Json::Null)
}

/// The code that a JSON value names: as a text, or as the one name of an object
/// with null under it.
pub open spec fn code_of_json(v: Json) -> Option<ErrorCode> {
    match v {
        Json::Str(s) => error_code::code_of_wire(s),
        Json::Obj(m) => if exists|k: Seq<char>| holds_only(m, k) {
            error_code::code_of_wire(choose|k: Seq<char>| holds_only(m, k))
        } else {
            None
        },
        _ => None,
    }
}

/// The code that an error's JSON form names.
pub open spec fn read_code(m: Map<Seq<char>, Json>) -> Option<ErrorCode> {
    if m.contains_key("code"@) {
        code_of_json(m["code"@])
    } else {
        None
    }
}

/// The time that an error's JSON form gives.
pub open spec fn read_time(m: Map<Seq<char>, Json>) -> Option<Timestamp> {
    match read_str(m, "timestamp"@) {
        Some(s) => clock::time_of_text(s),
        None => None,
    }
}

/// The details of an error's JSON form: an object, or absent.
pub open spec fn read_details(m: Map<Seq<char>, Json>) -> Option<Map<Seq<char>, Json>> {
    if !m.contains_key("details"@) {
        Some(Map::empty())
    } else if m["details"@] is Obj {
        Some(m["details"@]->Obj_0)
    } else {
        None
    }
}

/// The error that an object stands for, if every field of it reads.
pub open spec fn error_of_fields(m: Map<Seq<char>, Json>) -> Option<ErrorView> {
    if read_code(m) is Some && read_str(m, "message"@) is Some && read_details(m) is Some
        && read_opt_str(m, "cause"@) is Some && read_opt_str(m, "trace_id"@) is Some
        && read_time(m) is Some && read_opt_bool(m, "retryable"@) is Some
        && read_opt_str(m, "ai_guidance"@) is Some && read_opt_bool(m, "user_fixable"@) is Some
        && read_opt_str(m, "suggestion"@) is Some {
        Some(
            ErrorView {
                code: read_code(m)->0,
                message: read_str(m, "message"@)->0,
                details: read_details(m)->0,
                cause: read_opt_str(m, "cause"@)->0,
                trace_id: read_opt_str(m, "trace_id"@)->0,
                timestamp: read_time(m)->0,
                retryable: read_opt_bool(m, "retryable"@)->0,
                ai_guidance: read_opt_str(m, "ai_guidance"@)->0,
                user_fixable: read_opt_bool(m, "user_fixable"@)->0,
                suggestion: read_opt_str(m, "suggestion"@)->0,
            },
        )
    } else {
        None
    }
}

/// The fields of an error that are given as a list, in their order.
pub open spec fn listed_fields(s: Seq<Json>) -> Map<Seq<char>, Json> {
    Map::<Seq<char>, Json>::empty().insert("code"@, s[0]).insert("message"@, s[1]).insert("details"@, s[2]).insert(
        "cause"@,
        s[3],
    ).insert("trace_id"@, s[4]).insert("timestamp"@, s[5]).insert("retryable"@, s[6]).insert("ai_guidance"@, s[7]).insert(
        "user_fixable"@,
        s[8],
    ).insert("suggestion"@, s[9])
}

/// The error that a JSON value stands for: an object of its fields, or a list of
/// all of them.
pub open spec fn error_of_json(v: Json) -> Option<ErrorView> {
    match v {
        Json::Obj(m) => error_of_fields(m),
        Json::Arr(s) => if s.len() == 10 {
            error_of_fields(listed_fields(s))
        } else {
            None
        },
        _ => None,
    }
}

/// The field names of the JSON form are different.
proof fn lemma_field_names()
    ensures
        "code"@.len() == 4,
        "cause"@.len() == 5,
        "message"@.len() == 7,
        "details"@.len() == 7,
        "message"@[0] == 'm',
        "details"@[0] == 'd',
        "trace_id"@.len() == 8,
        "timestamp"@.len() == 9,
        "retryable"@.len() == 9,
        "timestamp"@[0] == 't',
        "retryable"@[0] == 'r',
        "suggestion"@.len() == 10,
        "ai_guidance"@.len() == 11,
        "user_fixable"@.len() == 12,
{
    reveal_strlit("code");
    reveal_strlit("cause");
    reveal_strlit("message");
    reveal_strlit("details");
    reveal_strlit("trace_id");
    reveal_strlit("timestamp");
    reveal_strlit("retryable");
    reveal_strlit("suggestion");
    reveal_strlit("ai_guidance");
    reveal_strlit("user_fixable");
}

/// Reading the JSON form of an error gives back the error, where its time
/// reads back.
pub proof fn error_json_round_trip(e: ErrorView)
    requires
        clock::time_of_text(clock::time_text(e.timestamp)) == Some(e.timestamp),
    ensures
        error_of_fields(error_fields(e)) == Some(e),
{
    lemma_field_names();
    error_code::wire_name_round_trip(e.code);
    let m = error_fields(e);
    assert(read_code(m) == Some(e.code));
    assert(read_str(m, "message"@) == Some(e.message));
    assert(read_details(m) == Some(e.details));
    assert(read_opt_str(m, "cause"@) == Some(e.cause));
    assert(read_opt_str(m, "trace_id"@) == Some(e.trace_id));
    assert(read_time(m) == Some(e.timestamp));
    assert(read_opt_bool(m, "retryable"@) == Some(e.retryable));
    assert(read_opt_str(m, "ai_guidance"@) == Some(e.ai_guidance));
    assert(read_opt_bool(m, "user_fixable"@) == Some(e.user_fixable));
    assert(read_opt_str(m, "suggestion"@) == Some(e.suggestion));
}

// ---------------------------------------------------------------------------
// Construction
// ---------------------------------------------------------------------------

/// A copy of the entries of an object.
pub fn clone_object(m: &StrMap<JsonValue>) -> (r: StrMap<JsonValue>)
    ensures
        json::object_view(r) == json::object_view(*m),
{
    let n: usize = m.len();
    let mut out = empty_object();
    let mut i: usize = 0;
    proof {
        json::lemma_object_view(*m);
    }
    while i < n
        invariant
            i <= n,
            n == m.pairs().len(),
            json::object_view(*m).dom() == m@.dom(),
            forall|j: int| 0 <= j < n ==> json::object_view(*m).contains_key((#[trigger] m.pairs()[j]).0)
                && json::object_view(*m)[m.pairs()[j].0] == m.pairs()[j].1@,
            forall|k: Seq<char>| #[trigger] json::object_view(out).contains_key(k) ==> json::object_view(*m).contains_key(k)
                && json::object_view(out)[k] == json::object_view(*m)[k],
            forall|j: int| 0 <= j < i ==> json::object_view(out).contains_key((#[trigger] m.pairs()[j]).0),
        decreases n - i,
    {
        let k = m.key_at(i);
        let v = m.value_at(i).clone();
        put(&mut out, k.as_str(), v);
        i = i + 1;
    }
    proof {
        let a = json::object_view(*m);
        let b = json::object_view(out);
        assert forall|k: Seq<char>| a.contains_key(k) implies b.contains_key(k) by {
            assert(m@.contains_key(k));
            let j = crate::strmap::key_index(m.pairs(), k);
            assert(m.pairs()[j].0 == k);
        }
        assert(a =~= b);
    }
    out
}

impl Clone for ModuleError {
    fn clone(&self) -> (r: Self)
        ensures
            r@ == self@,
    {
        ModuleError {
            code: self.code,
            message: self.message.clone(),
            details: clone_object(&self.details),
            cause: clone_opt(&self.cause),
            trace_id: clone_opt(&self.trace_id),
            timestamp: self.timestamp,
            retryable: self.retryable,
            ai_guidance: clone_opt(&self.ai_guidance),
            user_fixable: self.user_fixable,
            suggestion: clone_opt(&self.suggestion),
        }
    }
}

impl ModuleError {
    /// An error with a code and a message, made at a given time.
    pub fn at(code: ErrorCode, message: String, timestamp: Timestamp) -> (r: Self)
        ensures
            r@ == plain_error(code, message@, timestamp),
    {
        ModuleError {
            code,
            message,
            details: empty_object(),
            cause: None,
            trace_id: None,
            timestamp,
            retryable: None,
            ai_guidance: None,
            user_fixable: None,
            suggestion: None,
        }
    }

    /// An error with a code and a message, made now.
    pub fn new(code: ErrorCode, message: &str) -> (r: Self)
        ensures
            r@ == plain_error(code, message@, r@.timestamp),
            clock::is_point(r.timestamp),
    {
        ModuleError::at(code, message.to_owned(), Timestamp::now())
    }

    /// Set the details.
    pub fn with_details(self, details: StrMap<JsonValue>) -> (r: Self)
        ensures
            r@ == (ErrorView { details: json::object_view(details), ..self@ }),
    {
        ModuleError { details, ..self }
    }

    /// Set the cause.
    pub fn with_cause(self, cause: &str) -> (r: Self)
        ensures
            r@ == (ErrorView { cause: Some(cause@), ..self@ }),
    {
        ModuleError { cause: Some(cause.to_owned()), ..self }
    }

    /// Set the trace identifier.
    pub fn with_trace_id(self, trace_id: &str) -> (r: Self)
        ensures
            r@ == (ErrorView { trace_id: Some(trace_id@), ..self@ }),
    {
        ModuleError { trace_id: Some(trace_id.to_owned()), ..self }
    }

    /// Set the guidance for AI callers.
    pub fn with_ai_guidance(self, ai_guidance: &str) -> (r: Self)
        ensures
            r@ == (ErrorView { ai_guidance: Some(ai_guidance@), ..self@ }),
    {
        ModuleError { ai_guidance: Some(ai_guidance.to_owned()), ..self }
    }

    /// Say whether a retry may help.
    pub fn with_retryable(self, retryable: bool) -> (r: Self)
        ensures
            r@ == (ErrorView { retryable: Some(retryable), ..self@ }),
    {
        ModuleError { retryable: Some(retryable), ..self }
    }

    /// Set the suggestion.
    pub fn with_suggestion(self, suggestion: &str) -> (r: Self)
        ensures
            r@ == (ErrorView { suggestion: Some(suggestion@), ..self@ }),
    {
        ModuleError { suggestion: Some(suggestion.to_owned()), ..self }
    }

    /// The text of the error: the name of its code in brackets, then the
    /// message.
    pub fn to_text(&self) -> (r: String)
        ensures
            r@ == "["@ + error_code::code_name(self.code) + "] "@ + self.message@,
    {
        let mut s = cat3("[", self.code.name(), "] ");
        s.append(self.message.as_str());
        s
    }

    /// An error with one detail.
    fn with_one(code: ErrorCode, message: String, key: &str, value: &str) -> (r: Self)
        ensures
            r@ == detailed_error(
                code,
                message@,
                map![key@ => Json::Str(value@)],
                r@.timestamp,
            ),
    {
        let mut details = empty_object();
        put(&mut details, key, JsonValue::str(value));
        assert(json::object_view(details) =~= map![key@ => Json::Str(value@)]);
        ModuleError::at(code, message, Timestamp::now()).with_details(details)
    }

    /// A configuration namespace was registered twice.
    pub fn config_namespace_duplicate(name: &str) -> (r: Self)
        ensures
            r@ == detailed_error(
                ErrorCode::ConfigNamespaceDuplicate,
                "Namespace '"@ + name@ + "' is already registered"@,
                map!["name"@ => Json::Str(name@)],
                r@.timestamp,
            ),
    {
        ModuleError::with_one(
            ErrorCode::ConfigNamespaceDuplicate,
            cat3("Namespace '", name, "' is already registered"),
            "name",
            name,
        )
    }

    /// A configuration namespace is reserved.
    pub fn config_namespace_reserved(name: &str) -> (r: Self)
        ensures
            r@ == detailed_error(
                ErrorCode::ConfigNamespaceReserved,
                "Namespace '"@ + name@ + "' is reserved"@,
                map!["name"@ => Json::Str(name@)],
                r@.timestamp,
            ),
    {
        ModuleError::with_one(
            ErrorCode::ConfigNamespaceReserved,
            cat3("Namespace '", name, "' is reserved"),
            "name",
            name,
        )
    }

    /// An environment prefix conflicts with a reserved pattern.
    pub fn config_env_prefix_conflict(prefix: &str) -> (r: Self)
        ensures
            r@ == detailed_error(
                ErrorCode::ConfigEnvPrefixConflict,
                "env_prefix '"@ + prefix@ + "' conflicts with reserved pattern"@,
                map!["env_prefix"@ => Json::Str(prefix@)],
                r@.timestamp,
            ),
    {
        ModuleError::with_one(
            ErrorCode::ConfigEnvPrefixConflict,
            cat3("env_prefix '", prefix, "' conflicts with reserved pattern"),
            "env_prefix",
            prefix,
        )
    }

    /// An environment variable is already mapped.
    pub fn config_env_map_conflict(env_var: &str, owner: &str) -> (r: Self)
        ensures
            r@ == detailed_error(
                ErrorCode::ConfigEnvMapConflict,
                "Environment variable '"@ + env_var@ + "' is already mapped by '"@ + owner@ + "'"@,
                map!["env_var"@ => Json::Str(env_var@), "owner"@ => Json::Str(owner@)],
                r@.timestamp,
            ),
    {
        let mut details = empty_object();
        put(&mut details, "env_var", JsonValue::str(env_var));
        put(&mut details, "owner", JsonValue::str(owner));
        let message = cat5("Environment variable '", env_var, "' is already mapped by '", owner, "'");
        ModuleError::at(ErrorCode::ConfigEnvMapConflict, message, Timestamp::now()).with_details(details)
    }

    /// A namespace could not be mounted.
    pub fn config_mount_error(namespace: &str, reason: &str) -> (r: Self)
        ensures
            r@ == detailed_error(
                ErrorCode::ConfigMountError,
                "Mount failed for '"@ + namespace@ + "': "@ + reason@,
                map!["namespace"@ => Json::Str(namespace@)],
                r@.timestamp,
            ),
    {
        ModuleError::with_one(
            ErrorCode::ConfigMountError,
            cat4("Mount failed for '", namespace, "': ", reason),
            "namespace",
            namespace,
        )
    }

    /// A namespace could not be bound.
    pub fn config_bind_error(namespace: &str, reason: &str) -> (r: Self)
        ensures
            r@ == detailed_error(
                ErrorCode::ConfigBindError,
                "Bind failed for '"@ + namespace@ + "': "@ + reason@,
                map!["namespace"@ => Json::Str(namespace@)],
                r@.timestamp,
            ),
    {
        ModuleError::with_one(
            ErrorCode::ConfigBindError,
            cat4("Bind failed for '", namespace, "': ", reason),
            "namespace",
            namespace,
        )
    }

    /// A formatter for this adapter is already registered.
    pub fn error_formatter_duplicate(adapter_name: &str) -> (r: Self)
        ensures
            r@ == detailed_error(
                ErrorCode::ErrorFormatterDuplicate,
                "ErrorFormatter for adapter '"@ + adapter_name@ + "' is already registered"@,
                map!["adapter_name"@ => Json::Str(adapter_name@)],
                r@.timestamp,
            ),
    {
        ModuleError::with_one(
            ErrorCode::ErrorFormatterDuplicate,
            cat3("ErrorFormatter for adapter '", adapter_name, "' is already registered"),
            "adapter_name",
            adapter_name,
        )
    }

    /// The pipeline was aborted at a step.
    pub fn pipeline_abort(step: &str, explanation: Option<&str>) -> (r: Self)
        ensures
            r@ == detailed_error(
                ErrorCode::PipelineAbort,
                "Pipeline aborted at step '"@ + step@ + "': "@ + (match explanation {
                    Some(e) => e@,
                    None => "no explanation"@,
                }),
                map!["step"@ => Json::Str(step@)],
                r@.timestamp,
            ),
    {
        let why = match explanation {
            Some(e) => e,
            None => "no explanation",
        };
        ModuleError::with_one(
            ErrorCode::PipelineAbort,
            cat4("Pipeline aborted at step '", step, "': ", why),
            "step",
            step,
        )
    }

    /// No step of this name.
    pub fn step_not_found(message: &str) -> (r: Self)
        ensures
            r@ == plain_error(ErrorCode::StepNotFound, message@, r@.timestamp),
    {
        ModuleError::new(ErrorCode::StepNotFound, message)
    }

    /// The step may not be removed.
    pub fn step_not_removable(message: &str) -> (r: Self)
        ensures
            r@ == plain_error(ErrorCode::StepNotRemovable, message@, r@.timestamp),
    {
        ModuleError::new(ErrorCode::StepNotRemovable, message)
    }

    /// The step may not be replaced.
    pub fn step_not_replaceable(message: &str) -> (r: Self)
        ensures
            r@ == plain_error(ErrorCode::StepNotReplaceable, message@, r@.timestamp),
    {
        ModuleError::new(ErrorCode::StepNotReplaceable, message)
    }

    /// Two steps of one name.
    pub fn step_name_duplicate(message: &str) -> (r: Self)
        ensures
            r@ == plain_error(ErrorCode::StepNameDuplicate, message@, r@.timestamp),
    {
        ModuleError::new(ErrorCode::StepNameDuplicate, message)
    }

    /// No strategy of this name.
    pub fn strategy_not_found(message: &str) -> (r: Self)
        ensures
            r@ == plain_error(ErrorCode::StrategyNotFound, message@, r@.timestamp),
    {
        ModuleError::new(ErrorCode::StrategyNotFound, message)
    }

    /// Convert to a sparse JSON object, which leaves out the fields without a
    /// value.
    pub fn to_dict(&self) -> (r: JsonValue)
        ensures
            r@ == Json::Obj(error_fields(self@)),
            clock::is_point(self.timestamp) ==> error_of_json(r@) == Some(self@),
    {
        broadcast use crate::json::lemma_value_view;
        let mut m = empty_object();
        put(&mut m, "code", JsonValue::str(self.code.wire_str()));
        put(&mut m, "message", JsonValue::str(self.message.as_str()));
        put(&mut m, "timestamp", JsonValue::String(self.timestamp.to_text()));
        if !self.details.is_empty() {
            put(&mut m, "details", JsonValue::Object(clone_object(&self.details)));
        }
        proof {
            if self.details.pairs().len() == 0 {
                assert(self@.details =~= Map::empty());
            } else {
                assert(crate::strmap::has_key(json::pairs_view(self.details.pairs()), json::pairs_view(self.details.pairs())[0].0));
                assert(self@.details.contains_key(self.details.pairs()[0].0));
            }
        }
        put_opt_str(&mut m, "cause", &self.cause);
        put_opt_str(&mut m, "trace_id", &self.trace_id);
        put_opt_bool(&mut m, "retryable", self.retryable);
        put_opt_str(&mut m, "ai_guidance", &self.ai_guidance);
        put_opt_bool(&mut m, "user_fixable", self.user_fixable);
        put_opt_str(&mut m, "suggestion", &self.suggestion);
        proof {
            assert(json::object_view(m) =~= error_fields(self@));
            if clock::is_point(self.timestamp) {
                error_json_round_trip(self@);
            }
        }
        JsonValue::Object(m)
    }

    /// The error that a JSON value stands for: an object of its fields, or a list
    /// of all of them.
    pub fn from_dict(v: &JsonValue) -> (r: Option<ModuleError>)
        ensures
            match r {
                Some(e) => error_of_json(v@) == Some(e@),
                None => error_of_json(v@) is None,
            },
    {
        match v.as_object() {
            Some(m) => {
                return ModuleError::from_fields(m);
            },
            None => {},
        }
        match v.as_array() {
            Some(a) => {
                if a.len() != 10 {
                    return None;
                }
                let mut m = empty_object();
                put(&mut m, "code", a[0].clone());
                put(&mut m, "message", a[1].clone());
                put(&mut m, "details", a[2].clone());
                put(&mut m, "cause", a[3].clone());
                put(&mut m, "trace_id", a[4].clone());
                put(&mut m, "timestamp", a[5].clone());
                put(&mut m, "retryable", a[6].clone());
                put(&mut m, "ai_guidance", a[7].clone());
                put(&mut m, "user_fixable", a[8].clone());
                put(&mut m, "suggestion", a[9].clone());
                assert(json::object_view(m) =~= listed_fields(json::values_view(a@)));
                ModuleError::from_fields(&m)
            },
            None => None,
        }
    }

    fn from_fields(m: &StrMap<JsonValue>) -> (r: Option<ModuleError>)
        ensures
            match r {
                Some(e) => error_of_fields(json::object_view(*m)) == Some(e@),
                None => error_of_fields(json::object_view(*m)) is None,
            },
    {
        let code = match lookup(m, "code") {
            Some(v) => match code_from_json(v) {
                Some(c) => c,
                None => {
                    return None;
                },
            },
            None => {
                return None;
            },
        };
        let message = match get_str(m, "message") {
            Some(s) => s.to_owned(),
            None => {
                return None;
            },
        };
        let timestamp = match get_str(m, "timestamp") {
            Some(s) => match Timestamp::from_text(s) {
                Some(t) => t,
                None => {
                    return None;
                },
            },
            None => {
                return None;
            },
        };
        let details = match lookup(m, "details") {
            None => empty_object(),
            Some(d) => match d.as_object() {
                Some(o) => clone_object(o),
                None => {
                    return None;
                },
            },
        };
        let cause = match get_opt_str(m, "cause") {
            Some(x) => x,
            None => {
                return None;
            },
        };
        let trace_id = match get_opt_str(m, "trace_id") {
            Some(x) => x,
            None => {
                return None;
            },
        };
        let retryable = match get_opt_bool(m, "retryable") {
            Some(x) => x,
            None => {
                return None;
            },
        };
        let ai_guidance = match get_opt_str(m, "ai_guidance") {
            Some(x) => x,
            None => {
                return None;
            },
        };
        let user_fixable = match get_opt_bool(m, "user_fixable") {
            Some(x) => x,
            None => {
                return None;
            },
        };
        let suggestion = match get_opt_str(m, "suggestion") {
            Some(x) => x,
            None => {
                return None;
            },
        };
        let e = ModuleError {
            code,
            message,
            details,
            cause,
            trace_id,
            timestamp,
            retryable,
            ai_guidance,
            user_fixable,
            suggestion,
        };
        assert(error_of_fields(json::object_view(*m)) == Some(e@));
        Some(e)
    }
}

fn code_from_json(v: &JsonValue) -> (r: Option<ErrorCode>)
    ensures
        r == code_of_json(v@),
{
    match v.as_str() {
        Some(s) => {
            return ErrorCode::from_wire(s);
        },
        None => {},
    }
    let m = match v.as_object() {
        Some(m) => m,
        None => {
            return None;
        },
    };
    let ghost view = json::object_view(*m);
    let n: usize = m.len();
    proof {
        json::lemma_object_view(*m);
    }
    if n != 1 {
        assert forall|k: Seq<char>| !holds_only(view, k) by {
            if holds_only(view, k) {
                assert(view.contains_key(k));
                assert(m@.contains_key(k));
                let i = crate::strmap::key_index(m.pairs(), k);
                assert(m.pairs()[i].0 == k);
                let j: int = if i == 0 {
                    1
                } else {
                    0
                };
                assert(view.contains_key(m.pairs()[j].0));
            }
        }
        return None;
    }
    let k = m.key_at(0);
    assert(view.contains_key(m.pairs()[0].0));
    if !m.value_at(0).is_null() {
        assert forall|x: Seq<char>| !holds_only(view, x) by {
            if holds_only(view, x) {
                assert(x == k@);
            }
        }
        return None;
    }
    proof {
        assert forall|x: Seq<char>| view.contains_key(x) implies x == k@ by {
            assert(m@.contains_key(x));
            let i = crate::strmap::key_index(m.pairs(), x);
            assert(m.pairs()[i].0 == x);
        }
        assert(view =~= Map::<Seq<char>, Json>::empty().insert(k@, Json::Null));
        assert(holds_only(view, k@));
        let c = choose|c: Seq<char>| holds_only(view, c);
        assert(view.contains_key(c));
    }
    ErrorCode::from_wire(k.as_str())
}

fn put_opt_str(m: &mut StrMap<JsonValue>, k: &str, o: &Option<String>)
    ensures
        json::object_view(*final(m)) == put_opt(json::object_view(*old(m)), k@, opt_json_str(text::opt_text(*o))),
{
    match o {
        Some(s) => put(m, k, JsonValue::str(s.as_str())),
        None => {},
    }
}

fn put_opt_bool(m: &mut StrMap<JsonValue>, k: &str, o: Option<bool>)
    ensures
        json::object_view(*final(m)) == put_opt(json::object_view(*old(m)), k@, opt_json_bool(o)),
{
    broadcast use crate::json::lemma_value_view;
    match o {
        Some(b) => put(m, k, JsonValue::Bool(b)),
        None => {},
    }
}

fn get_str<'a>(m: &'a StrMap<JsonValue>, k: &str) -> (r: Option<&'a str>)
    ensures
        match r {
            Some(s) => read_str(json::object_view(*m), k@) == Some(s@),
            None => read_str(json::object_view(*m), k@) is None,
        },
{
    match lookup(m, k) {
        Some(v) => v.as_str(),
        None => None,
    }
}

fn get_opt_str(m: &StrMap<JsonValue>, k: &str) -> (r: Option<Option<String>>)
    ensures
        match r {
            Some(s) => read_opt_str(json::object_view(*m), k@) == Some(text::opt_text(s)),
            None => read_opt_str(json::object_view(*m), k@) is None,
        },
{
    match lookup(m, k) {
        Some(v) => {
            if v.is_null() {
                Some(None)
            } else {
                match v.as_str() {
                    Some(s) => Some(Some(s.to_owned())),
                    None => None,
                }
            }
        },
        None => Some(None),
    }
}

fn get_opt_bool(m: &StrMap<JsonValue>, k: &str) -> (r: Option<Option<bool>>)
    ensures
        r == read_opt_bool(json::object_view(*m), k@),
{
    match lookup(m, k) {
        Some(v) => {
            if v.is_null() {
                Some(None)
            } else {
                match v.as_bool() {
                    Some(b) => Some(Some(b)),
                    None => None,
                }
            }
        },
        None => Some(None),
    }
}

// ---------------------------------------------------------------------------
// Errors that wrap an error
// ---------------------------------------------------------------------------

/// The error that wraps the failure of a step.
pub open spec fn step_error(step_name: Seq<char>, cause: ErrorView, timestamp: Timestamp) -> ErrorView {
    ErrorView {
        details: map![
            "step_name"@ => Json::Str(step_name),
            "cause"@ => Json::Obj(error_fields(cause))
        ],
        cause: Some(cause.message),
        ..plain_error(
            ErrorCode::PipelineStepError,
            "Pipeline step '"@ + step_name + "' failed: "@ + cause.message,
            timestamp,
        )
    }
}

/// The error inside a step error.
pub open spec fn unwrapped_step_error(e: ErrorView) -> Option<ErrorView> {
    if e.code == ErrorCode::PipelineStepError && e.details.contains_key("cause"@) {
        error_of_json(e.details["cause"@])
    } else {
        None
    }
}

/// The error inside a middleware chain error.
pub open spec fn unwrapped_chain_error(e: ErrorView) -> Option<ErrorView> {
    if e.code == ErrorCode::MiddlewareChainError && e.details.contains_key("inner_error"@) {
        error_of_json(e.details["inner_error"@])
    } else {
        None
    }
}

/// A step error gives back the error that it wraps.
pub proof fn step_error_unwraps(step_name: Seq<char>, cause: ErrorView, timestamp: Timestamp)
    requires
        clock::time_of_text(clock::time_text(cause.timestamp)) == Some(cause.timestamp),
    ensures
        unwrapped_step_error(step_error(step_name, cause, timestamp)) == Some(cause),
{
    reveal_strlit("step_name");
    reveal_strlit("cause");
    error_json_round_trip(cause);
}

impl ModuleError {
    /// Wrap the error of a step. The wrapped error is kept whole under
    /// `details["cause"]` and the name of the step under
    /// `details["step_name"]`.
    pub fn pipeline_step_error(step_name: &str, cause: &ModuleError) -> (r: Self)
        ensures
            r@ == step_error(step_name@, cause@, r@.timestamp),
            clock::is_point(cause.timestamp) ==> unwrapped_step_error(r@) == Some(cause@),
            read_str(r@.details, "step_name"@) == Some(step_name@),
            clock::is_point(r.timestamp),
    {
        let mut details = empty_object();
        put(&mut details, "step_name", JsonValue::str(step_name));
        put(&mut details, "cause", cause.to_dict());
        let message = cat4("Pipeline step '", step_name, "' failed: ", cause.message.as_str());
        let r = ModuleError::at(ErrorCode::PipelineStepError, message, Timestamp::now()).with_details(details).with_cause(
            cause.message.as_str(),
        );
        proof {
            reveal_strlit("step_name");
            reveal_strlit("cause");
            assert("step_name"@.len() == 9 && "cause"@.len() == 5);
            assert(r@.details =~= step_error(step_name@, cause@, r@.timestamp).details);
        }
        r
    }

    /// Whether this error wraps the failure of a step.
    pub fn is_pipeline_step_error(&self) -> (r: bool)
        ensures
            r == (self.code == ErrorCode::PipelineStepError),
    {
        self.code == ErrorCode::PipelineStepError
    }

    /// The name of the step that failed, if the details carry one.
    pub fn step_name(&self) -> (r: Option<&str>)
        ensures
            match r {
                Some(s) => read_str(self@.details, "step_name"@) == Some(s@),
                None => read_str(self@.details, "step_name"@) is None,
            },
    {
        get_str(&self.details, "step_name")
    }

    /// The error that a step error wraps: `None` where this is no step error or
    /// its cause does not read as an error.
    pub fn unwrap_pipeline_step_error(&self) -> (r: Option<ModuleError>)
        ensures
            match r {
                Some(e) => unwrapped_step_error(self@) == Some(e@),
                None => unwrapped_step_error(self@) is None,
            },
    {
        if !self.is_pipeline_step_error() {
            return None;
        }
        match lookup(&self.details, "cause") {
            Some(v) => ModuleError::from_dict(v),
            None => None,
        }
    }

    /// Whether this error wraps the failure of a middleware.
    pub fn is_middleware_chain_error(&self) -> (r: bool)
        ensures
            r == (self.code == ErrorCode::MiddlewareChainError),
    {
        self.code == ErrorCode::MiddlewareChainError
    }

    /// The error that a middleware chain error wraps: `None` where this is no
    /// such error or the inner error does not read as an error.
    pub fn unwrap_middleware_chain_error(&self) -> (r: Option<ModuleError>)
        ensures
            match r {
                Some(e) => unwrapped_chain_error(self@) == Some(e@),
                None => unwrapped_chain_error(self@) is None,
            },
    {
        if !self.is_middleware_chain_error() {
            return None;
        }
        match lookup(&self.details, "inner_error") {
            Some(v) => ModuleError::from_dict(v),
            None => None,
        }
    }

    /// Two or more classes of one file produced the same identifier segment.
    pub fn module_id_conflict(file_path: &str, class_names: &Vec<String>, conflicting_segment: &str) -> (r: Self)
        ensures
            r@ == detailed_error(
                ErrorCode::ModuleIdConflict,
                "Module ID conflict in '"@ + file_path@ + "': classes "@ + debug_text(text::texts(class_names@))
                    + " both produce segment '"@ + conflicting_segment@ + "'"@,
                map![
                    "file_path"@ => Json::Str(file_path@),
                    "class_names"@ => Json::Arr(json_texts(text::texts(class_names@))),
                    "conflicting_segment"@ => Json::Str(conflicting_segment@)
                ],
                r@.timestamp,
            ),
    {
        broadcast use crate::json::lemma_value_view;
        let mut details = empty_object();
        put(&mut details, "file_path", JsonValue::str(file_path));
        let names = text_values(class_names);
        put(&mut details, "class_names", JsonValue::Array(names));
        put(&mut details, "conflicting_segment", JsonValue::str(conflicting_segment));
        let shown = debug_strings(class_names);
        let message = cat7(
            "Module ID conflict in '",
            file_path,
            "': classes ",
            shown.as_str(),
            " both produce segment '",
            conflicting_segment,
            "'",
        );
        ModuleError::at(ErrorCode::ModuleIdConflict, message, Timestamp::now()).with_details(details)
    }

    /// An identifier segment does not fit the grammar of identifiers.
    pub fn invalid_segment(file_path: &str, class_name: &str, segment: &str) -> (r: Self)
        ensures
            r@ == detailed_error(
                ErrorCode::InvalidSegment,
                "Invalid class segment '"@ + segment@ + "' derived from '"@ + class_name@ + "' in '"@ + file_path@
                    + "': must match ^[a-z][a-z0-9_]*$"@,
                map![
                    "file_path"@ => Json::Str(file_path@),
                    "class_name"@ => Json::Str(class_name@),
                    "segment"@ => Json::Str(segment@)
                ],
                r@.timestamp,
            ),
    {
        let mut details = empty_object();
        put(&mut details, "file_path", JsonValue::str(file_path));
        put(&mut details, "class_name", JsonValue::str(class_name));
        put(&mut details, "segment", JsonValue::str(segment));
        let message = cat7(
            "Invalid class segment '",
            segment,
            "' derived from '",
            class_name,
            "' in '",
            file_path,
            "': must match ^[a-z][a-z0-9_]*$",
        );
        ModuleError::at(ErrorCode::InvalidSegment, message, Timestamp::now()).with_details(details)
    }

    /// A call was rejected because the circuit for the module and the caller is
    /// open.
    pub fn circuit_breaker_open(module_id: &str, caller_id: &str) -> (r: Self)
        ensures
            r@ == circuit_open_error(module_id@, caller_id@, r@.timestamp),
    {
        let mut details = empty_object();
        put(&mut details, "module_id", JsonValue::str(module_id));
        put(&mut details, "caller_id", JsonValue::str(caller_id));
        let message = cat5("Circuit open for module '", module_id, "' (caller '", caller_id, "') — call rejected");
        ModuleError::at(ErrorCode::CircuitBreakerOpen, message, Timestamp::now()).with_details(details).with_retryable(
            true,
        ).with_ai_guidance(
            "The downstream module is temporarily unavailable. The circuit will probe after the recovery window elapses; retry the request after a short delay.",
        )
    }

    /// A derived module identifier is too long.
    pub fn id_too_long(file_path: &str, module_id: &str) -> (r: Self)
        ensures
            r@ == detailed_error(
                ErrorCode::IdTooLong,
                "Derived module_id '"@ + module_id@ + "' exceeds maximum length of 192 characters"@,
                map!["file_path"@ => Json::Str(file_path@), "module_id"@ => Json::Str(module_id@)],
                r@.timestamp,
            ),
    {
        let mut details = empty_object();
        put(&mut details, "file_path", JsonValue::str(file_path));
        put(&mut details, "module_id", JsonValue::str(module_id));
        let message = cat3("Derived module_id '", module_id, "' exceeds maximum length of 192 characters");
        ModuleError::at(ErrorCode::IdTooLong, message, Timestamp::now()).with_details(details)
    }
}

/// The error of a call that an open circuit rejects.
pub open spec fn circuit_open_error(module_id: Seq<char>, caller_id: Seq<char>, timestamp: Timestamp) -> ErrorView {
    ErrorView {
        retryable: Some(true),
        ai_guidance: Some(
            "The downstream module is temporarily unavailable. The circuit will probe after the recovery window elapses; retry the request after a short delay."@,
        ),
        ..detailed_error(
            ErrorCode::CircuitBreakerOpen,
            "Circuit open for module '"@ + module_id + "' (caller '"@ + caller_id + "') — call rejected"@,
            map!["module_id"@ => Json::Str(module_id), "caller_id"@ => Json::Str(caller_id)],
            timestamp,
        )
    }
}

/// A list of texts as JSON values.
pub open spec fn json_texts(s: Seq<Seq<char>>) -> Seq<Json> {
    Seq::new(s.len(), |i: int| Json::Str(s[i]))
}

/// A list of strings as JSON values.
pub fn text_values(v: &Vec<String>) -> (r: Vec<JsonValue>)
    ensures
        json::values_view(r@) == json_texts(text::texts(v@)),
{
    let mut out: Vec<JsonValue> = Vec::new();
    let mut i: usize = 0;
    while i < v.len()
        invariant
            i <= v.len(),
            out@.len() == i,
            forall|j: int| 0 <= j < i ==> (#[trigger] out@[j])@ == Json::Str(v@[j]@),
        decreases v.len() - i,
    {
        out.push(JsonValue::str(v[i].as_str()));
        i = i + 1;
    }
    assert(json::values_view(out@) =~= json_texts(text::texts(v@)));
    out
}

/// The text that `{:?}` gives for a list of strings.
pub uninterp spec fn debug_text(s: Seq<Seq<char>>) -> Seq<char>;

/// Formats a list of strings with `{:?}`.
#[verifier::external_body]
fn debug_strings(v: &Vec<String>) -> (r: String)
    ensures
        r@ == debug_text(text::texts(v@)),
{
    format!("{v:?}")
}

// ---------------------------------------------------------------------------
// Named errors
// ---------------------------------------------------------------------------

/// Input that does not fit a schema.
#[derive(Debug)]
pub struct SchemaValidationError {
    pub message: String,
    pub errors: Vec<StrMap<String>>,
}

/// The text entries of one validation failure as JSON.
pub open spec fn text_entries(m: Map<Seq<char>, String>) -> Map<Seq<char>, Json> {
    Map::new(|k: Seq<char>| m.contains_key(k), |k: Seq<char>| Json::Str(m[k]@))
}

/// The failures of a validation as JSON.
pub open spec fn failure_list(s: Seq<StrMap<String>>) -> Seq<Json> {
    Seq::new(s.len(), |i: int| Json::Obj(text_entries(s[i]@)))
}

/// A map of strings as a JSON object.
fn text_object(m: &StrMap<String>) -> (r: StrMap<JsonValue>)
    ensures
        json::object_view(r) == text_entries(m@),
{
    let n: usize = m.len();
    let mut out = empty_object();
    let mut i: usize = 0;
    while i < n
        invariant
            i <= n,
            n == m.pairs().len(),
            crate::strmap::unique_keys(m.pairs()),
            forall|k: Seq<char>| #[trigger] json::object_view(out).contains_key(k) ==> m@.contains_key(k)
                && json::object_view(out)[k] == Json::Str(m@[k]@),
            forall|j: int| 0 <= j < i ==> json::object_view(out).contains_key((#[trigger] m.pairs()[j]).0),
        decreases n - i,
    {
        let v = m.value_at(i);
        put(&mut out, m.key_at(i).as_str(), JsonValue::str(v.as_str()));
        i = i + 1;
    }
    proof {
        assert forall|k: Seq<char>| m@.contains_key(k) implies json::object_view(out).contains_key(k) by {
            let j = crate::strmap::key_index(m.pairs(), k);
            assert(m.pairs()[j].0 == k);
        }
        assert(json::object_view(out) =~= text_entries(m@));
    }
    out
}

impl SchemaValidationError {
    /// A validation error with its failures.
    pub fn new(message: &str, errors: Vec<StrMap<String>>) -> (r: Self)
        ensures
            r.message@ == message@,
            r.errors == errors,
    {
        SchemaValidationError { message: message.to_owned(), errors }
    }

    /// The structured form of this error.
    pub fn to_module_error(&self) -> (r: ModuleError)
        ensures
            r@ == (ErrorView {
                ai_guidance: Some(
                    "Input failed schema validation. Check the 'errors' field in details for specific validation failures."@,
                ),
                ..detailed_error(
                    ErrorCode::SchemaValidationError,
                    self.message@,
                    map!["errors"@ => Json::Arr(failure_list(self.errors@))],
                    r@.timestamp,
                )
            }),
    {
        broadcast use crate::json::lemma_value_view;
        let mut list: Vec<JsonValue> = Vec::new();
        let mut i: usize = 0;
        while i < self.errors.len()
            invariant
                i <= self.errors.len(),
                list@.len() == i,
                forall|j: int| 0 <= j < i ==> (#[trigger] list@[j])@ == Json::Obj(text_entries(self.errors@[j]@)),
            decreases self.errors.len() - i,
        {
            broadcast use crate::json::lemma_value_view;
            list.push(JsonValue::Object(text_object(&self.errors[i])));
            i = i + 1;
        }
        assert(json::values_view(list@) =~= failure_list(self.errors@));
        let mut details = empty_object();
        put(&mut details, "errors", JsonValue::Array(list));
        ModuleError::new(ErrorCode::SchemaValidationError, self.message.as_str()).with_details(details).with_ai_guidance(
            "Input failed schema validation. Check the 'errors' field in details for specific validation failures.",
        )
    }

    /// The text of this error.
    pub fn to_text(&self) -> (r: String)
        ensures
            r@ == "Schema validation error: "@ + self.message@,
    {
        cat2("Schema validation error: ", self.message.as_str())
    }
}

/// A schema that refers to itself.
#[derive(Debug)]
pub struct SchemaCircularRefError {
    pub message: String,
    pub ref_path: String,
}

impl SchemaCircularRefError {
    /// A circular reference along a path.
    pub fn new(message: &str, ref_path: &str) -> (r: Self)
        ensures
            r.message@ == message@,
            r.ref_path@ == ref_path@,
    {
        SchemaCircularRefError { message: message.to_owned(), ref_path: ref_path.to_owned() }
    }

    /// The structured form of this error.
    pub fn to_module_error(&self) -> (r: ModuleError)
        ensures
            r@ == detailed_error(
                ErrorCode::SchemaCircularRef,
                self.message@,
                map!["ref_path"@ => Json::Str(self.ref_path@)],
                r@.timestamp,
            ),
    {
        let mut details = empty_object();
        put(&mut details, "ref_path", JsonValue::str(self.ref_path.as_str()));
        ModuleError::new(ErrorCode::SchemaCircularRef, self.message.as_str()).with_details(details)
    }

    /// The text of this error.
    pub fn to_text(&self) -> (r: String)
        ensures
            r@ == "Schema circular ref: "@ + self.message@,
    {
        cat2("Schema circular ref: ", self.message.as_str())
    }
}

/// Versions that do not go together.
#[derive(Debug)]
pub struct VersionIncompatibleError {
    pub message: String,
}

impl VersionIncompatibleError {
    /// The structured form of this error.
    pub fn to_module_error(&self) -> (r: ModuleError)
        ensures
            r@ == plain_error(ErrorCode::VersionIncompatible, self.message@, r@.timestamp),
    {
        ModuleError::new(ErrorCode::VersionIncompatible, self.message.as_str())
    }

    /// The text of this error.
    pub fn to_text(&self) -> (r: String)
        ensures
            r@ == "Version incompatible: "@ + self.message@,
    {
        cat2("Version incompatible: ", self.message.as_str())
    }
}

/// An error code that is already taken.
#[derive(Debug)]
pub struct ErrorCodeCollisionError {
    pub message: String,
    pub code: String,
    pub module_id: String,
    pub conflict_source: String,
}

/// The structured form of a collision.
pub open spec fn collision_error(
    message: Seq<char>,
    code: Seq<char>,
    module_id: Seq<char>,
    conflict_source: Seq<char>,
    timestamp: Timestamp,
) -> ErrorView {
    detailed_error(
        ErrorCode::ErrorCodeCollision,
        message,
        map![
            "code"@ => Json::Str(code),
            "module_id"@ => Json::Str(module_id),
            "conflict_source"@ => Json::Str(conflict_source)
        ],
        timestamp,
    )
}

impl ErrorCodeCollisionError {
    /// A collision of a code of a module with what already holds it.
    pub fn new(message: &str, code: &str, module_id: &str, conflict_source: &str) -> (r: Self)
        ensures
            r.message@ == message@,
            r.code@ == code@,
            r.module_id@ == module_id@,
            r.conflict_source@ == conflict_source@,
    {
        ErrorCodeCollisionError {
            message: message.to_owned(),
            code: code.to_owned(),
            module_id: module_id.to_owned(),
            conflict_source: conflict_source.to_owned(),
        }
    }

    /// The structured form of this error.
    pub fn to_module_error(&self) -> (r: ModuleError)
        ensures
            r@ == collision_error(self.message@, self.code@, self.module_id@, self.conflict_source@, r@.timestamp),
    {
        let mut details = empty_object();
        put(&mut details, "code", JsonValue::str(self.code.as_str()));
        put(&mut details, "module_id", JsonValue::str(self.module_id.as_str()));
        put(&mut details, "conflict_source", JsonValue::str(self.conflict_source.as_str()));
        ModuleError::new(ErrorCode::ErrorCodeCollision, self.message.as_str()).with_details(details)
    }

    /// The text of this error.
    pub fn to_text(&self) -> (r: String)
        ensures
            r@ == "Error code collision: "@ + self.message@,
    {
        cat2("Error code collision: ", self.message.as_str())
    }
}

// ---------------------------------------------------------------------------
// Registry of module error codes
// ---------------------------------------------------------------------------

/// The prefixes of error codes that the framework reserves.
pub fn framework_error_code_prefixes() -> (r: Vec<&'static str>)
    ensures
        str_views(r@) == framework_prefixes(),
{
    let r = vec![
        "CONFIG_", "ACL_", "MODULE_", "SCHEMA_", "CALL_", "CIRCULAR_", "CIRCUIT_", "GENERAL_", "FUNC_", "BINDING_",
        "MIDDLEWARE_", "APPROVAL_", "VERSION_", "ERROR_CODE_", "DEPENDENCY_", "PIPELINE_", "STEP_", "STRATEGY_",
    ];
    assert(str_views(r@) =~= framework_prefixes());
    r
}

/// The reserved prefixes.
pub open spec fn framework_prefixes() -> Seq<Seq<char>> {
    seq![
        "CONFIG_"@, "ACL_"@, "MODULE_"@, "SCHEMA_"@, "CALL_"@, "CIRCULAR_"@, "CIRCUIT_"@, "GENERAL_"@, "FUNC_"@,
        "BINDING_"@, "MIDDLEWARE_"@, "APPROVAL_"@, "VERSION_"@, "ERROR_CODE_"@, "DEPENDENCY_"@, "PIPELINE_"@, "STEP_"@,
        "STRATEGY_"@,
    ]
}

/// The characters of each slice of a list.
pub open spec fn str_views(s: Seq<&'static str>) -> Seq<Seq<char>> {
    Seq::new(s.len(), |i: int| s[i]@)
}

/// Whether a code starts with a reserved prefix.
pub open spec fn is_reserved(code: Seq<char>) -> bool {
    exists|i: int| 0 <= i < framework_prefixes().len() && text::has_prefix(code, #[trigger] framework_prefixes()[i])
}

/// Which module holds which error codes. No code belongs to two modules.
pub struct ErrorCodeRegistry {
    module_codes: StrMap<StrSet>,
    all_codes: StrSet,
}

/// The sets of a map of sets.
pub open spec fn code_sets(m: Map<Seq<char>, StrSet>) -> Map<Seq<char>, Set<Seq<char>>> {
    Map::new(|k: Seq<char>| m.contains_key(k), |k: Seq<char>| m[k]@)
}

/// The codes of a module, none where it has no entry.
pub open spec fn codes_of(m: Map<Seq<char>, Set<Seq<char>>>, id: Seq<char>) -> Set<Seq<char>> {
    if m.contains_key(id) {
        m[id]
    } else {
        Set::empty()
    }
}

/// Every code that some module holds.
pub open spec fn union_of_codes(m: Map<Seq<char>, Set<Seq<char>>>) -> Set<Seq<char>> {
    Set::new(|c: Seq<char>| exists|id: Seq<char>| m.contains_key(id) && #[trigger] m[id].contains(c))
}

/// Whether another module than `id` holds a code.
pub open spec fn held_elsewhere(m: Map<Seq<char>, Set<Seq<char>>>, id: Seq<char>, code: Seq<char>) -> bool {
    exists|other: Seq<char>| other != id && m.contains_key(other) && #[trigger] m[other].contains(code)
}

/// No code belongs to two modules.
pub open spec fn owners_are_unique(m: Map<Seq<char>, Set<Seq<char>>>) -> bool {
    forall|a: Seq<char>, b: Seq<char>, c: Seq<char>|
        m.contains_key(a) && m.contains_key(b) && #[trigger] m[a].contains(c) && #[trigger] m[b].contains(c) ==> a == b
}

/// The error for a code with a reserved prefix.
pub open spec fn reserved_code_error(e: ErrorView, id: Seq<char>, code: Seq<char>) -> bool {
    exists|i: int|
        0 <= i < framework_prefixes().len() && text::has_prefix(code, #[trigger] framework_prefixes()[i]) && e
            == collision_error(
            "Error code '"@ + code + "' uses reserved framework prefix '"@ + framework_prefixes()[i] + "'"@,
            code,
            id,
            "framework"@,
            e.timestamp,
        )
}

/// The error for a code that another module holds.
pub open spec fn held_code_error(
    m: Map<Seq<char>, Set<Seq<char>>>,
    e: ErrorView,
    id: Seq<char>,
    code: Seq<char>,
) -> bool {
    exists|owner: Seq<char>|
        owner != id && m.contains_key(owner) && #[trigger] m[owner].contains(code) && e == collision_error(
            "Error code '"@ + code + "' already registered by module '"@ + owner + "'"@,
            code,
            id,
            owner,
            e.timestamp,
        )
}

/// The error that a refused registration gives: for the first code of the
/// list that is reserved or held elsewhere.
pub open spec fn refusal(
    m: Map<Seq<char>, Set<Seq<char>>>,
    id: Seq<char>,
    codes: Seq<Seq<char>>,
    e: ErrorView,
) -> bool {
    exists|i: int|
        0 <= i < codes.len() && (forall|j: int|
            0 <= j < i ==> !is_reserved(#[trigger] codes[j]) && !held_elsewhere(m, id, codes[j]))
            && if is_reserved(#[trigger] codes[i]) {
            reserved_code_error(e, id, codes[i])
        } else {
            held_code_error(m, e, id, codes[i])
        }
}

/// Whether no code that is held has a reserved prefix.
pub open spec fn none_reserved(m: Map<Seq<char>, Set<Seq<char>>>) -> bool {
    forall|id: Seq<char>, c: Seq<char>| m.contains_key(id) && #[trigger] m[id].contains(c) ==> !is_reserved(c)
}

impl ErrorCodeRegistry {
    /// The codes of each module.
    pub closed spec fn codes(self) -> Map<Seq<char>, Set<Seq<char>>> {
        code_sets(self.module_codes@)
    }

    #[verifier::type_invariant]
    closed spec fn consistent(self) -> bool {
        &&& owners_are_unique(code_sets(self.module_codes@))
        &&& none_reserved(code_sets(self.module_codes@))
        &&& self.all_codes@ == union_of_codes(code_sets(self.module_codes@))
    }

    /// An empty registry.
    pub fn new() -> (r: Self)
        ensures
            r.codes() == Map::<Seq<char>, Set<Seq<char>>>::empty(),
            owners_are_unique(r.codes()),
            none_reserved(r.codes()),
    {
        let module_codes = StrMap::new();
        let all_codes = StrSet::new();
        assert(code_sets(module_codes@) =~= Map::empty());
        assert(all_codes@ =~= union_of_codes(code_sets(module_codes@)));
        ErrorCodeRegistry { module_codes, all_codes }
    }

    /// Register the codes of a module, all or none of them. A code with a
    /// reserved prefix, or one that another module holds, is refused.
    /// Registering a code twice for one module changes nothing.
    pub fn register(&mut self, module_id: &str, codes: &StrSet) -> (r: Result<(), ModuleError>)
        ensures
            owners_are_unique(final(self).codes()),
            none_reserved(final(self).codes()),
            r is Ok <==> (forall|c: Seq<char>| #[trigger]
                codes@.contains(c) ==> !is_reserved(c) && !held_elsewhere(old(self).codes(), module_id@, c)),
            match r {
                Ok(_) => final(self).codes() == old(self).codes().insert(
                    module_id@,
                    codes_of(old(self).codes(), module_id@).union(codes@),
                ),
                Err(e) => final(self).codes() == old(self).codes() && refusal(
                    old(self).codes(),
                    module_id@,
                    codes.members(),
                    e@,
                ),
            },
    {
        proof {
            use_type_invariant(&*self);
        }
        let ghost m = self.codes();
        let prefixes = framework_error_code_prefixes();
        let n: usize = codes.len();
        let mut i: usize = 0;
        while i < n
            invariant
                i <= n,
                n == codes.members().len(),
                codes@ == codes.members().to_set(),
                *self == *old(self),
                m == self.codes(),
                owners_are_unique(m),
                none_reserved(m),
                str_views(prefixes@) == framework_prefixes(),
                forall|j: int|
                    0 <= j < i ==> !is_reserved(#[trigger] codes.members()[j]) && !held_elsewhere(
                        m,
                        module_id@,
                        codes.members()[j],
                    ),
            decreases n - i,
        {
            let code = codes.at(i);
            let mut k: usize = 0;
            while k < prefixes.len()
                invariant
                    k <= prefixes.len(),
                    i < n,
                    n == codes.members().len(),
                    *self == *old(self),
                    m == self.codes(),
                    owners_are_unique(m),
                    none_reserved(m),
                    codes@.contains(code@),
                    code@ == codes.members()[i as int],
                    str_views(prefixes@) == framework_prefixes(),
                    forall|j: int|
                        0 <= j < i ==> !is_reserved(#[trigger] codes.members()[j]) && !held_elsewhere(
                            m,
                            module_id@,
                            codes.members()[j],
                        ),
                    forall|j: int| 0 <= j < k ==> !text::has_prefix(code@, #[trigger] framework_prefixes()[j]),
                decreases prefixes.len() - k,
            {
                assert(framework_prefixes()[k as int] == str_views(prefixes@)[k as int]);
                if starts_with(code.as_str(), prefixes[k]) {
                    let message = cat5(
                        "Error code '",
                        code.as_str(),
                        "' uses reserved framework prefix '",
                        prefixes[k],
                        "'",
                    );
                    let e = ErrorCodeCollisionError::new(message.as_str(), code.as_str(), module_id, "framework").to_module_error();
                    assert(is_reserved(code@));
                    assert(reserved_code_error(e@, module_id@, code@));
                    assert(refusal(m, module_id@, codes.members(), e@));
                    return Err(e);
                }
                k = k + 1;
            }
            assert(!is_reserved(code@));
            match self.find_owner(code.as_str()) {
                Some(owner) => {
                    if !str_eq(owner.as_str(), module_id) {
                        let message = cat5(
                            "Error code '",
                            code.as_str(),
                            "' already registered by module '",
                            owner.as_str(),
                            "'",
                        );
                        let e = ErrorCodeCollisionError::new(message.as_str(), code.as_str(), module_id, owner.as_str()).to_module_error();
                        assert(m[owner@].contains(code@));
                        assert(held_elsewhere(m, module_id@, code@));
                        assert(held_code_error(m, e@, module_id@, code@));
                        assert(refusal(m, module_id@, codes.members(), e@));
                        return Err(e);
                    }
                    assert(!held_elsewhere(m, module_id@, code@)) by {
                        assert(m[owner@].contains(code@));
                    }
                },
                None => {},
            }
            i = i + 1;
        }
        proof {
            assert forall|c: Seq<char>| #[trigger] codes@.contains(c) implies !is_reserved(c) && !held_elsewhere(
                m,
                module_id@,
                c,
            ) by {
                let j = codes.members().index_of(c);
                assert(codes.members()[j] == c);
            }
        }
        let mut whole = ErrorCodeRegistry::new();
        std::mem::swap(self, &mut whole);
        let ErrorCodeRegistry { mut module_codes, all_codes: mut all_now } = whole;
        let mut own = match module_codes.get(module_id) {
            Some(s) => s.clone(),
            None => StrSet::new(),
        };
        own.extend(codes);
        let ghost own_set = own@;
        module_codes.insert(module_id.to_owned(), own);
        all_now.extend(codes);
        proof {
            let after = code_sets(module_codes@);
            assert(own_set == codes_of(m, module_id@).union(codes@));
            assert(after =~= m.insert(module_id@, own_set));
            assert forall|a: Seq<char>, b: Seq<char>, c: Seq<char>|
                after.contains_key(a) && after.contains_key(b) && #[trigger] after[a].contains(c)
                    && #[trigger] after[b].contains(c) implies a == b by {
                if a != b {
                    if a == module_id@ {
                        assert(m.contains_key(b) && m[b].contains(c));
                        if codes@.contains(c) {
                            assert(held_elsewhere(m, module_id@, c));
                        } else {
                            assert(m[a].contains(c));
                        }
                    } else if b == module_id@ {
                        assert(m.contains_key(a) && m[a].contains(c));
                        if codes@.contains(c) {
                            assert(held_elsewhere(m, module_id@, c));
                        } else {
                            assert(m[b].contains(c));
                        }
                    } else {
                        assert(m[a].contains(c) && m[b].contains(c));
                    }
                }
            }
            assert forall|id: Seq<char>, c: Seq<char>|
                after.contains_key(id) && #[trigger] after[id].contains(c) implies !is_reserved(c) by {
                if m.contains_key(id) && m[id].contains(c) {
                } else {
                    assert(codes@.contains(c));
                }
            }
            assert forall|c: Seq<char>| all_now@.contains(c) == union_of_codes(after).contains(c) by {
                if union_of_codes(m).contains(c) {
                    let id = choose|id: Seq<char>| m.contains_key(id) && #[trigger] m[id].contains(c);
                    assert(after.contains_key(id) && after[id].contains(c));
                }
                if codes@.contains(c) {
                    assert(after[module_id@].contains(c));
                }
                if union_of_codes(after).contains(c) {
                    let id = choose|id: Seq<char>| after.contains_key(id) && #[trigger] after[id].contains(c);
                    if m.contains_key(id) && m[id].contains(c) {
                    } else {
                        assert(codes@.contains(c));
                    }
                }
            }
            assert(all_now@ =~= union_of_codes(after));
        }
        *self = ErrorCodeRegistry { module_codes, all_codes: all_now };
        Ok(())
    }

    /// Remove all error codes of a module.
    pub fn unregister(&mut self, module_id: &str)
        ensures
            final(self).codes() == old(self).codes().remove(module_id@),
            owners_are_unique(final(self).codes()),
            none_reserved(final(self).codes()),
    {
        let ghost m = self.codes();
        let mut whole = ErrorCodeRegistry::new();
        std::mem::swap(self, &mut whole);
        proof {
            use_type_invariant(&whole);
        }
        let ErrorCodeRegistry { mut module_codes, all_codes: _old_codes } = whole;
        let _dropped = module_codes.remove(module_id);
        let ghost after = code_sets(module_codes@);
        proof {
            assert(after =~= m.remove(module_id@));
            assert forall|a: Seq<char>, b: Seq<char>, c: Seq<char>|
                after.contains_key(a) && after.contains_key(b) && #[trigger] after[a].contains(c)
                    && #[trigger] after[b].contains(c) implies a == b by {
                assert(m[a].contains(c) && m[b].contains(c));
            }
            assert forall|id: Seq<char>, c: Seq<char>|
                after.contains_key(id) && #[trigger] after[id].contains(c) implies !is_reserved(c) by {
                assert(m[id].contains(c));
            }
        }
        let all_codes = rebuild_all_codes(&module_codes);
        *self = ErrorCodeRegistry { module_codes, all_codes };
    }

    /// The module that holds a code.
    fn find_owner(&self, code: &str) -> (r: Option<String>)
        ensures
            match r {
                Some(o) => self.codes().contains_key(o@) && self.codes()[o@].contains(code@),
                None => forall|id: Seq<char>| self.codes().contains_key(id) ==> !(#[trigger] self.codes()[id]).contains(code@),
            },
    {
        let n: usize = self.module_codes.len();
        let mut i: usize = 0;
        while i < n
            invariant
                i <= n,
                n == self.module_codes.pairs().len(),
                forall|j: int| 0 <= j < i ==> !(#[trigger] self.module_codes.pairs()[j]).1@.contains(code@),
            decreases n - i,
        {
            let codes = self.module_codes.value_at(i);
            if codes.contains(code) {
                return Some(self.module_codes.key_at(i).clone());
            }
            i = i + 1;
        }
        proof {
            assert forall|id: Seq<char>| self.codes().contains_key(id) implies !(#[trigger] self.codes()[id]).contains(code@) by {
                let j = crate::strmap::key_index(self.module_codes.pairs(), id);
                assert(self.module_codes.pairs()[j].0 == id);
            }
        }
        None
    }

    /// Every registered code.
    pub fn all_codes(&self) -> (r: &StrSet)
        ensures
            r@ == union_of_codes(self.codes()),
            owners_are_unique(self.codes()),
            none_reserved(self.codes()),
    {
        proof {
            use_type_invariant(self);
        }
        &self.all_codes
    }

    /// The codes of one module, where it has an entry.
    pub fn codes_for_module(&self, module_id: &str) -> (r: Option<&StrSet>)
        ensures
            match r {
                Some(s) => self.codes().contains_key(module_id@) && s@ == self.codes()[module_id@],
                None => !self.codes().contains_key(module_id@),
            },
    {
        self.module_codes.get(module_id)
    }
}

/// Registering codes that a module already holds changes nothing.
pub proof fn registering_again_changes_nothing(m: Map<Seq<char>, Set<Seq<char>>>, id: Seq<char>, codes: Set<Seq<char>>)
    requires
        m.contains_key(id),
        codes.subset_of(m[id]),
    ensures
        m.insert(id, codes_of(m, id).union(codes)) == m,
{
    assert(codes_of(m, id).union(codes) =~= m[id]);
    assert(m.insert(id, m[id]) =~= m);
}

/// The union of all sets of a map.
fn rebuild_all_codes(m: &StrMap<StrSet>) -> (r: StrSet)
    ensures
        r@ == union_of_codes(code_sets(m@)),
{
    let n: usize = m.len();
    let mut out = StrSet::new();
    let mut i: usize = 0;
    while i < n
        invariant
            i <= n,
            n == m.pairs().len(),
            crate::strmap::unique_keys(m.pairs()),
            forall|c: Seq<char>| #[trigger] out@.contains(c) <==> (exists|j: int| 0 <= j < i && (#[trigger] m.pairs()[j]).1@.contains(c)),
        decreases n - i,
    {
        out.extend(m.value_at(i));
        proof {
            assert forall|c: Seq<char>| #[trigger] out@.contains(c) <==> (exists|j: int| 0 <= j < i + 1 && (#[trigger] m.pairs()[j]).1@.contains(c)) by {
                if m.pairs()[i as int].1@.contains(c) {
                    assert(out@.contains(c));
                }
            }
        }
        i = i + 1;
    }
    proof {
        let s = code_sets(m@);
        assert forall|c: Seq<char>| out@.contains(c) == union_of_codes(s).contains(c) by {
            if out@.contains(c) {
                let j = choose|j: int| 0 <= j < n && (#[trigger] m.pairs()[j]).1@.contains(c);
                crate::strmap::lemma_pair_in_map(m.pairs(), j);
                assert(s[m.pairs()[j].0].contains(c));
            }
            if union_of_codes(s).contains(c) {
                let id = choose|id: Seq<char>| s.contains_key(id) && #[trigger] s[id].contains(c);
                let j = crate::strmap::key_index(m.pairs(), id);
                assert(m.pairs()[j].1@.contains(c));
            }
        }
        assert(out@ =~= union_of_codes(s));
    }
    out
}

impl Default for ErrorCodeRegistry {
    fn default() -> (r: Self)
        ensures
            r.codes() == Map::<Seq<char>, Set<Seq<char>>>::empty(),
    {
        ErrorCodeRegistry::new()
    }
}

/// The JSON form of an error has each field under its own name, where the field
/// has a value, and nothing else.
pub proof fn an_error_is_written_whole(e: ErrorView)
    ensures
        ({
            let m = error_fields(e);
            &&& m.contains_key("code"@) && m["code"@] == Json::Str(error_code::wire_name(e.code))
            &&& m.contains_key("message"@) && m["message"@] == Json::Str(e.message)
            &&& m.contains_key("timestamp"@) && m["timestamp"@] == Json::Str(clock::time_text(e.timestamp))
            &&& e.details != Map::<Seq<char>, Json>::empty() ==> m.contains_key("details"@) && m["details"@] == Json::Obj(
                e.details,
            )
            &&& e.details == Map::<Seq<char>, Json>::empty() ==> !m.contains_key("details"@)
            &&& e.cause matches Some(t) ==> m.contains_key("cause"@) && m["cause"@] == Json::Str(t)
            &&& e.cause is None ==> !m.contains_key("cause"@)
            &&& e.trace_id matches Some(t) ==> m.contains_key("trace_id"@) && m["trace_id"@] == Json::Str(t)
            &&& e.trace_id is None ==> !m.contains_key("trace_id"@)
            &&& e.retryable matches Some(b) ==> m.contains_key("retryable"@) && m["retryable"@] == Json::Bool(b)
            &&& e.retryable is None ==> !m.contains_key("retryable"@)
            &&& e.ai_guidance matches Some(t) ==> m.contains_key("ai_guidance"@) && m["ai_guidance"@] == Json::Str(t)
            &&& e.ai_guidance is None ==> !m.contains_key("ai_guidance"@)
            &&& e.user_fixable matches Some(b) ==> m.contains_key("user_fixable"@) && m["user_fixable"@] == Json::Bool(b)
            &&& e.user_fixable is None ==> !m.contains_key("user_fixable"@)
            &&& e.suggestion matches Some(t) ==> m.contains_key("suggestion"@) && m["suggestion"@] == Json::Str(t)
            &&& e.suggestion is None ==> !m.contains_key("suggestion"@)
        }),
{
    lemma_field_names();
}

/// What is read is no error unless it has a code that is known, a message and a
/// time; a field that is there must be of its kind.
pub proof fn an_error_needs_its_fields(m: Map<Seq<char>, Json>)
    ensures
        !m.contains_key("code"@) || !m.contains_key("message"@) || !m.contains_key("timestamp"@) ==> error_of_fields(
            m,
        ) is None,
        error_of_fields(m) matches Some(e) ==> {
            &&& m["message"@] == Json::Str(e.message)
            &&& m["timestamp"@] matches Json::Str(t) && clock::time_of_text(t) == Some(e.timestamp)
            &&& m["code"@] matches Json::Str(c) ==> error_code::code_of_wire(c) == Some(e.code)
            &&& m.contains_key("details"@) ==> m["details"@] == Json::Obj(e.details)
            &&& !m.contains_key("details"@) ==> e.details == Map::<Seq<char>, Json>::empty()
            &&& e.cause matches Some(t) ==> m.contains_key("cause"@) && m["cause"@] == Json::Str(t)
            &&& e.trace_id matches Some(t) ==> m.contains_key("trace_id"@) && m["trace_id"@] == Json::Str(t)
            &&& e.retryable matches Some(b) ==> m.contains_key("retryable"@) && m["retryable"@] == Json::Bool(b)
            &&& e.ai_guidance matches Some(t) ==> m.contains_key("ai_guidance"@) && m["ai_guidance"@] == Json::Str(t)
            &&& e.user_fixable matches Some(b) ==> m.contains_key("user_fixable"@) && m["user_fixable"@] == Json::Bool(b)
            &&& e.suggestion matches Some(t) ==> m.contains_key("suggestion"@) && m["suggestion"@] == Json::Str(t)
        },
{
}

/// Only the error of a step has the error of a step inside, and only the error of a
/// chain of middlewares that of a middleware.
pub proof fn only_wrapping_errors_unwrap(e: ErrorView)
    ensures
        e.code != ErrorCode::PipelineStepError ==> unwrapped_step_error(e) is None,
        e.code != ErrorCode::MiddlewareChainError ==> unwrapped_chain_error(e) is None,
        !e.details.contains_key("cause"@) ==> unwrapped_step_error(e) is None,
        !e.details.contains_key("inner_error"@) ==> unwrapped_chain_error(e) is None,
{
}

/// What a chain error holds is what it unwraps to.
pub proof fn a_chain_error_unwraps(e: ErrorView, inner: ErrorView)
    requires
        e.code == ErrorCode::MiddlewareChainError,
        e.details.contains_key("inner_error"@),
        e.details["inner_error"@] == Json::Obj(error_fields(inner)),
        clock::time_of_text(clock::time_text(inner.timestamp)) == Some(inner.timestamp),
    ensures
        unwrapped_chain_error(e) == Some(inner),
{
    error_json_round_trip(inner);
}

/// The error of a step names the step and tells what went wrong in it.
pub proof fn a_step_error_names_its_step(step_name: Seq<char>, cause: ErrorView, timestamp: Timestamp)
    ensures
        ({
            let e = step_error(step_name, cause, timestamp);
            &&& e.code == ErrorCode::PipelineStepError
            &&& e.message == "Pipeline step '"@ + step_name + "' failed: "@ + cause.message
            &&& e.cause == Some(cause.message)
            &&& e.details.contains_key("step_name"@) && e.details["step_name"@] == Json::Str(step_name)
        }),
{
    reveal_strlit("step_name");
    reveal_strlit("cause");
    assert("step_name"@.len() == 9 && "cause"@.len() == 5);
}

/// The error of an open circuit names the module and the caller, and may be
/// retried.
pub proof fn an_open_circuit_names_its_call(module_id: Seq<char>, caller_id: Seq<char>, timestamp: Timestamp)
    ensures
        ({
            let e = circuit_open_error(module_id, caller_id, timestamp);
            &&& e.code == ErrorCode::CircuitBreakerOpen
            &&& e.retryable == Some(true)
            &&& e.details.contains_key("module_id"@) && e.details["module_id"@] == Json::Str(module_id)
            &&& e.details.contains_key("caller_id"@) && e.details["caller_id"@] == Json::Str(caller_id)
        }),
{
    reveal_strlit("module_id");
    reveal_strlit("caller_id");
    assert("module_id"@[0] != "caller_id"@[0]);
}

proof fn lemma_reserved(i: int, rest: Seq<char>)
    requires
        0 <= i < 18,
    ensures
        is_reserved(framework_prefixes()[i] + rest),
{
    text::a_prefix_is_followed(rest, framework_prefixes()[i], rest);
    assert(text::has_prefix(framework_prefixes()[i] + rest, framework_prefixes()[i]));
}

/// Whatever starts with a prefix of the framework is reserved.
pub proof fn framework_codes_are_reserved(rest: Seq<char>)
    ensures
        is_reserved("CONFIG_"@ + rest),
        is_reserved("ACL_"@ + rest),
        is_reserved("MODULE_"@ + rest),
        is_reserved("SCHEMA_"@ + rest),
        is_reserved("CALL_"@ + rest),
        is_reserved("CIRCULAR_"@ + rest),
        is_reserved("CIRCUIT_"@ + rest),
        is_reserved("GENERAL_"@ + rest),
        is_reserved("FUNC_"@ + rest),
        is_reserved("BINDING_"@ + rest),
        is_reserved("MIDDLEWARE_"@ + rest),
        is_reserved("APPROVAL_"@ + rest),
        is_reserved("VERSION_"@ + rest),
        is_reserved("ERROR_CODE_"@ + rest),
        is_reserved("DEPENDENCY_"@ + rest),
        is_reserved("PIPELINE_"@ + rest),
        is_reserved("STEP_"@ + rest),
        is_reserved("STRATEGY_"@ + rest),
{
    lemma_reserved(0, rest);
    lemma_reserved(1, rest);
    lemma_reserved(2, rest);
    lemma_reserved(3, rest);
    lemma_reserved(4, rest);
    lemma_reserved(5, rest);
    lemma_reserved(6, rest);
    lemma_reserved(7, rest);
    lemma_reserved(8, rest);
    lemma_reserved(9, rest);
    lemma_reserved(10, rest);
    lemma_reserved(11, rest);
    lemma_reserved(12, rest);
    lemma_reserved(13, rest);
    lemma_reserved(14, rest);
    lemma_reserved(15, rest);
    lemma_reserved(16, rest);
    lemma_reserved(17, rest);
}

/// Nothing is reserved but what starts with one of the prefixes.
pub proof fn only_framework_codes_are_reserved(code: Seq<char>)
    requires
        is_reserved(code),
    ensures
        exists|i: int|
            0 <= i < 18 && code == #[trigger] framework_prefixes()[i] + code.skip(framework_prefixes()[i].len() as int),
        framework_prefixes().len() == 18,
{
    let i = choose|i: int| 0 <= i < framework_prefixes().len() && text::has_prefix(code, #[trigger] framework_prefixes()[i]);
    text::a_prefix_is_followed(code, framework_prefixes()[i], code);
    assert(code == framework_prefixes()[i] + code.skip(framework_prefixes()[i].len() as int));
}

/// A refused registration names a code of the list that may not be registered, and
/// who holds it.
pub proof fn a_refusal_names_its_code(m: Map<Seq<char>, Set<Seq<char>>>, id: Seq<char>, codes: Seq<Seq<char>>, e: ErrorView)
    requires
        refusal(m, id, codes, e),
    ensures
        e.code == ErrorCode::ErrorCodeCollision,
        e.details.contains_key("module_id"@) && e.details["module_id"@] == Json::Str(id),
        exists|i: int|
            {
                &&& 0 <= i < codes.len()
                &&& e.details.contains_key("code"@) && e.details["code"@] == Json::Str(#[trigger] codes[i])
                &&& is_reserved(codes[i]) ==> e.details["conflict_source"@] == Json::Str("framework"@)
                &&& !is_reserved(codes[i]) ==> exists|owner: Seq<char>|
                    owner != id && m.contains_key(owner) && #[trigger] m[owner].contains(codes[i])
                        && e.details["conflict_source"@] == Json::Str(owner)
                &&& forall|j: int| 0 <= j < i ==> !is_reserved(#[trigger] codes[j])
            },
{
    reveal_strlit("code");
    reveal_strlit("module_id");
    reveal_strlit("conflict_source");
    assert("code"@.len() == 4 && "module_id"@.len() == 9 && "conflict_source"@.len() == 15);
    let i = choose|i: int|
        0 <= i < codes.len() && (forall|j: int|
            0 <= j < i ==> !is_reserved(#[trigger] codes[j]) && !held_elsewhere(m, id, codes[j]))
            && if is_reserved(#[trigger] codes[i]) {
            reserved_code_error(e, id, codes[i])
        } else {
            held_code_error(m, e, id, codes[i])
        };
    assert(e.details["code"@] == Json::Str(codes[i]));
}

/// A code that is registered is held by its module and by no other; the codes of
/// other modules stay.
pub proof fn a_code_has_one_holder(m: Map<Seq<char>, Set<Seq<char>>>, id: Seq<char>, codes: Set<Seq<char>>, other: Seq<char>, c: Seq<char>)
    requires
        owners_are_unique(m),
        forall|x: Seq<char>| #[trigger] codes.contains(x) ==> !held_elsewhere(m, id, x),
        other != id,
    ensures
        ({
            let r = m.insert(id, codes_of(m, id).union(codes));
            &&& codes.contains(c) ==> codes_of(r, id).contains(c) && !codes_of(r, other).contains(c)
            &&& codes_of(m, id).contains(c) ==> codes_of(r, id).contains(c)
            &&& codes_of(r, other) == codes_of(m, other)
            &&& union_of_codes(r).contains(c) <==> union_of_codes(m).contains(c) || codes.contains(c)
        }),
{
    let r = m.insert(id, codes_of(m, id).union(codes));
    if codes.contains(c) {
        assert(!held_elsewhere(m, id, c));
        if codes_of(r, other).contains(c) {
            assert(m[other].contains(c));
        }
        assert(r[id].contains(c));
    }
    if union_of_codes(m).contains(c) {
        let k = choose|k: Seq<char>| m.contains_key(k) && #[trigger] m[k].contains(c);
        assert(r.contains_key(k) && r[k].contains(c));
    }
    if union_of_codes(r).contains(c) {
        let k = choose|k: Seq<char>| r.contains_key(k) && #[trigger] r[k].contains(c);
        if k != id {
            assert(m[k].contains(c));
        } else if !codes.contains(c) {
            assert(m.contains_key(id) && m[id].contains(c));
        }
    }
}

/// An error given as a list has its fields in order.
pub proof fn a_list_gives_an_error_in_order(s: Seq<Json>)
    requires
        s.len() == 10,
    ensures
        error_of_json(Json::Arr(s)) == error_of_fields(
            map![
                "code"@ => s[0],
                "message"@ => s[1],
                "details"@ => s[2],
                "cause"@ => s[3],
                "trace_id"@ => s[4],
                "timestamp"@ => s[5],
                "retryable"@ => s[6],
                "ai_guidance"@ => s[7],
                "user_fixable"@ => s[8],
                "suggestion"@ => s[9],
            ],
        ),
        forall|m: Map<Seq<char>, Json>| #[trigger] error_of_json(Json::Obj(m)) == error_of_fields(m),
{
}

} // verus!
