//! Tracing as a configuration asks for it.
use vstd::prelude::*;
use vstd::string::*;
use crate::error_code::ErrorCode;
use crate::errors::ModuleError;
use crate::observability::exporters::{OTLPExporter, StdoutExporter};
use crate::observability::span::Span;
use crate::observability::tracing_middleware::{SamplingStrategy, TracingMiddleware};
use crate::rate::Rate;
use crate::text::{cat3, str_eq};
use crate::errors;
use crate::observability::tracing_middleware;
use crate::text;

verus! {

/// The endpoint of the OTLP exporter where a configuration names none.
pub const DEFAULT_OTLP_ENDPOINT: &'static str = "http://localhost:4318/v1/traces";

/// What a configuration says about tracing.
#[derive(Debug)]
pub struct TracingSettings {
    pub enabled: bool,
    pub exporter: String,
    pub otlp_endpoint: Option<String>,
    pub strategy: String,
    pub sampling_rate: Rate,
}

/// An exporter that a configuration asks for.
#[derive(Debug)]
pub enum ConfiguredExporter {
    Stdout(StdoutExporter),
    Otlp(OTLPExporter),
}

/// A middleware that a configuration asks for, with its exporter.
#[derive(Debug)]
pub struct ConfiguredTracing {
    pub exporter: ConfiguredExporter,
    pub middleware: TracingMiddleware,
}

/// The message where an endpoint is given that the exporter does not read.
pub open spec fn endpoint_message(exporter: Seq<char>) -> Seq<char> {
    "observability.tracing.otlp_endpoint is set but observability.tracing.exporter is '"@ + exporter
        + "', which does not read it. Set exporter to 'otlp', or remove the endpoint."@
}

/// Whether an endpoint is given that the exporter does not read.
pub open spec fn endpoint_is_stray(exporter: Seq<char>, endpoint: Option<Seq<char>>) -> bool {
    endpoint is Some && exporter != "otlp"@
}

/// An endpoint that nothing reads is refused.
pub fn check_endpoint_matches_exporter(exporter_name: &str, endpoint: Option<&str>) -> (r: Result<(), ModuleError>)
    ensures
        match r {
            Ok(_) => !endpoint_is_stray(exporter_name@, text::opt_str(endpoint)),
            Err(e) => endpoint_is_stray(exporter_name@, text::opt_str(endpoint)) && e@ == errors::plain_error(
                ErrorCode::ConfigInvalid,
                endpoint_message(exporter_name@),
                e@.timestamp,
            ),
        },
{
    if endpoint.is_none() || str_eq(exporter_name, "otlp") {
        return Ok(());
    }
    let message = cat3(
        "observability.tracing.otlp_endpoint is set but observability.tracing.exporter is '",
        exporter_name,
        "', which does not read it. Set exporter to 'otlp', or remove the endpoint.",
    );
    Err(ModuleError::new(ErrorCode::ConfigInvalid, message.as_str()))
}

/// The strategy that a name stands for.
pub open spec fn strategy_of(name: Seq<char>) -> SamplingStrategy {
    if name == "proportional"@ {
        SamplingStrategy::Probabilistic
    } else if name == "error_first"@ {
        SamplingStrategy::ErrorFirst
    } else if name == "off"@ {
        SamplingStrategy::Never
    } else {
        SamplingStrategy::Always
    }
}

/// The strategy that a name stands for; an unknown name stands for the default.
pub fn parse_strategy(name: &str) -> (r: SamplingStrategy)
    ensures
        r == strategy_of(name@),
{
    if str_eq(name, "proportional") {
        SamplingStrategy::Probabilistic
    } else if str_eq(name, "error_first") {
        SamplingStrategy::ErrorFirst
    } else if str_eq(name, "off") {
        SamplingStrategy::Never
    } else {
        SamplingStrategy::Always
    }
}

/// Why there is no exporter with a name.
#[derive(Clone, Copy, Debug, PartialEq, Eq, Structural)]
pub enum NoExporter {
    /// It would have to send, and nothing can be sent.
    CannotSend,
    /// The name is allowed and has no implementation.
    NotImplemented,
    /// The name is not one of the allowed values.
    NotAllowed,
}

/// The names that a configuration may give.
pub const ALLOWED_EXPORTERS: &'static str = "stdout, otlp, jaeger";

/// What is said where the OTLP exporter cannot send.
pub const CANNOT_SEND_MESSAGE: &'static str = "observability.tracing.exporter is 'otlp' but this build of apcore does not have the `events` feature, so the OTLP exporter would discard every span. No tracing middleware was installed. Rebuild with `--features events`, or set exporter to 'stdout'.";

/// What is said of the name without an implementation.
pub const NOT_IMPLEMENTED_MESSAGE: &'static str = "observability.tracing.exporter is 'jaeger', which names no implementation in any apcore SDK. No tracing middleware was installed and no spans will be exported — the same as before this key was wired. Use 'otlp' with a Jaeger collector's OTLP endpoint. The value is accepted for the 1.x line and removed at v2.0.";

/// What is said of a name that is not allowed.
pub const NOT_ALLOWED_MESSAGE: &'static str = "observability.tracing.exporter is not one of the allowed values. No tracing middleware was installed.";

/// Why there is no exporter with a name, where there is none.
pub open spec fn missing_reason(name: Seq<char>, can_send: bool) -> Option<NoExporter> {
    if name == "stdout"@ {
        None
    } else if name == "otlp"@ {
        if can_send {
            None
        } else {
            Some(NoExporter::CannotSend)
        }
    } else if name == "jaeger"@ {
        Some(NoExporter::NotImplemented)
    } else {
        Some(NoExporter::NotAllowed)
    }
}

/// Why there is no exporter with a name, where there is none.
pub fn why_no_exporter(name: &str, can_send: bool) -> (r: Option<NoExporter>)
    ensures
        r == missing_reason(name@, can_send),
{
    if str_eq(name, "stdout") {
        None
    } else if str_eq(name, "otlp") {
        if can_send {
            None
        } else {
            Some(NoExporter::CannotSend)
        }
    } else if str_eq(name, "jaeger") {
        Some(NoExporter::NotImplemented)
    } else {
        Some(NoExporter::NotAllowed)
    }
}

impl NoExporter {
    /// What is said of it.
    pub fn message(&self) -> (r: &'static str)
        ensures
            r@ == (match self {
                NoExporter::CannotSend => CANNOT_SEND_MESSAGE@,
                NoExporter::NotImplemented => NOT_IMPLEMENTED_MESSAGE@,
                NoExporter::NotAllowed => NOT_ALLOWED_MESSAGE@,
            }),
    {
        match self {
            NoExporter::CannotSend => CANNOT_SEND_MESSAGE,
            NoExporter::NotImplemented => NOT_IMPLEMENTED_MESSAGE,
            NoExporter::NotAllowed => NOT_ALLOWED_MESSAGE,
        }
    }
}

/// The exporter with a name. There is none for a name without an
/// implementation, nor for OTLP where it cannot send.
pub fn build_exporter(name: &str, endpoint: Option<&str>, can_send: bool) -> (r: Option<ConfiguredExporter>)
    ensures
        r is Some <==> name@ == "stdout"@ || (name@ == "otlp"@ && can_send),
        r is Some <==> missing_reason(name@, can_send) is None,
        r matches Some(e) ==> (match e {
            ConfiguredExporter::Stdout(_) => name@ == "stdout"@,
            ConfiguredExporter::Otlp(o) => name@ == "otlp"@ && o.endpoint@ == (match endpoint {
                Some(u) => u@,
                None => DEFAULT_OTLP_ENDPOINT@,
            }),
        }),
{
    if str_eq(name, "stdout") {
        return Some(ConfiguredExporter::Stdout(StdoutExporter));
    }
    if str_eq(name, "otlp") && can_send {
        let url = match endpoint {
            Some(u) => u,
            None => DEFAULT_OTLP_ENDPOINT,
        };
        return Some(ConfiguredExporter::Otlp(OTLPExporter::new(url)));
    }
    None
}

/// The middleware that a configuration asks for. There is none where tracing is
/// not enabled or the exporter cannot be had.
pub fn build_tracing_middleware(settings: &TracingSettings, can_send: bool) -> (r: Result<
    Option<ConfiguredTracing>,
    ModuleError,
>)
    ensures
        ({
            let exporter = settings.exporter@;
            let stray = settings.enabled && endpoint_is_stray(exporter, text::opt_text(settings.otlp_endpoint));
            let known = exporter == "stdout"@ || (exporter == "otlp"@ && can_send);
            match r {
                Err(e) => stray && e@ == errors::plain_error(
                    ErrorCode::ConfigInvalid,
                    endpoint_message(exporter),
                    e@.timestamp,
                ),
                Ok(None) => !stray && !(settings.enabled && known),
                Ok(Some(t)) => {
                    &&& !stray
                    &&& settings.enabled
                    &&& known
                    &&& t.middleware.sampling_strategy == strategy_of(settings.strategy@)
                    &&& t.middleware.sampling_rate == tracing_middleware::clamped(settings.sampling_rate)
                    &&& t.middleware.spans@ == Map::<Seq<char>, Vec<Span>>::empty()
                    &&& t.middleware.sampling@ == Map::<Seq<char>, bool>::empty()
                    &&& match t.exporter {
                        ConfiguredExporter::Stdout(_) => exporter == "stdout"@,
                        ConfiguredExporter::Otlp(o) => exporter == "otlp"@ && o.endpoint@ == (match settings.otlp_endpoint {
                            Some(u) => u@,
                            None => DEFAULT_OTLP_ENDPOINT@,
                        }),
                    }
                },
            }
        }),
{
    if !settings.enabled {
        return Ok(None);
    }
    let endpoint = match &settings.otlp_endpoint {
        Some(u) => Some(u.as_str()),
        None => None,
    };
    match check_endpoint_matches_exporter(settings.exporter.as_str(), endpoint) {
        Err(e) => {
            return Err(e);
        },
        Ok(_) => {},
    }
    match build_exporter(settings.exporter.as_str(), endpoint, can_send) {
        Some(exporter) => {
            let middleware = TracingMiddleware::with_sampling(
                parse_strategy(settings.strategy.as_str()),
                settings.sampling_rate,
            );
            Ok(Some(ConfiguredTracing { exporter, middleware }))
        },
        None => Ok(None),
    }
}

/// Every strategy is found again under its name.
pub proof fn strategies_are_found_by_name(s: SamplingStrategy)
    ensures
        strategy_of(tracing_middleware::strategy_name(s)) == s,
{
    reveal_strlit("full");
    reveal_strlit("proportional");
    reveal_strlit("error_first");
    reveal_strlit("off");
    assert("full"@.len() == 4 && "proportional"@.len() == 12 && "error_first"@.len() == 11 && "off"@.len() == 3);
}

/// An endpoint is stray where it is given and the exporter does not send there.
pub proof fn an_endpoint_is_for_otlp(exporter: Seq<char>, endpoint: Seq<char>)
    ensures
        !endpoint_is_stray("otlp"@, Some(endpoint)),
        exporter != "otlp"@ ==> endpoint_is_stray(exporter, Some(endpoint)),
        !endpoint_is_stray(exporter, None),
        text::has_infix(endpoint_message(exporter), "'"@ + exporter + "'"@),
{
    let a = "observability.tracing.otlp_endpoint is set but observability.tracing.exporter is '"@;
    let b = "', which does not read it. Set exporter to 'otlp', or remove the endpoint."@;
    reveal_strlit("observability.tracing.otlp_endpoint is set but observability.tracing.exporter is '");
    reveal_strlit("', which does not read it. Set exporter to 'otlp', or remove the endpoint.");
    reveal_strlit("'");
    let p = "'"@ + exporter + "'"@;
    let all = a + exporter + b;
    assert(a.last() == '\'' && b[0] == '\'');
    text::a_part_stands_between(all, p, a.drop_last(), b.skip(1));
    assert(all =~= a.drop_last() + p + b.skip(1));
}

/// Traces are sampled as the name of the strategy says, and always where the name
/// says nothing.
pub proof fn strategies_have_names(name: Seq<char>)
    ensures
        strategy_of("proportional"@) is Probabilistic,
        strategy_of("error_first"@) is ErrorFirst,
        strategy_of("off"@) is Never,
        name != "proportional"@ && name != "error_first"@ && name != "off"@ ==> strategy_of(name) is Always,
{
    reveal_strlit("proportional");
    reveal_strlit("error_first");
    reveal_strlit("off");
    assert("proportional"@.len() == 12 && "error_first"@.len() == 11 && "off"@.len() == 3);
}

/// Spans are written to the standard output, and sent where sending is possible;
/// every other exporter is missing for its reason.
pub proof fn why_an_exporter_is_missing(name: Seq<char>, can_send: bool)
    ensures
        missing_reason("stdout"@, can_send) is None,
        missing_reason("otlp"@, true) is None,
        missing_reason("otlp"@, false) == Some(NoExporter::CannotSend),
        missing_reason("jaeger"@, can_send) == Some(NoExporter::NotImplemented),
        name != "stdout"@ && name != "otlp"@ && name != "jaeger"@ ==> missing_reason(name, can_send) == Some(
            NoExporter::NotAllowed,
        ),
{
    reveal_strlit("stdout");
    reveal_strlit("otlp");
    reveal_strlit("jaeger");
    assert("stdout"@.len() == 6 && "otlp"@.len() == 4 && "jaeger"@.len() == 6);
    assert("stdout"@[0] == 's' && "jaeger"@[0] == 'j');
}

} // verus!
