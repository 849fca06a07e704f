//! A span around every call.
use vstd::prelude::*;
use vstd::string::*;
use crate::clock::Timestamp;
use crate::decimals::signed;
use crate::error_code::ErrorCode;
use crate::errors::ModuleError;
use crate::ids::{DRAW_LIMIT, random_draw, random_span_id};
use crate::json::{empty_object, Json, JsonValue, lookup, Number};
use crate::observability::span::{Span, SpanStatus, SpanView};
use crate::rate::Rate;
use crate::strmap::StrMap;
use crate::text::cat2;
use crate::clock;
use crate::decimals;
use crate::error_code;
use crate::ids;
use crate::json;
use crate::observability::span;
use crate::text;

verus! {

/// Which spans are exported.
#[derive(Debug, Clone, Copy, PartialEq, Eq, Structural)]
pub enum SamplingStrategy {
    /// All of them.
    Always,
    /// As many as the rate says.
    Probabilistic,
    /// Those of failures, and of the others as many as the rate says.
    ErrorFirst,
    /// None.
    Never,
}

impl SamplingStrategy {
    /// The name of the strategy in a configuration.
    pub fn as_str(self) -> (r: &'static str)
        ensures
            r@ == strategy_name(self),
    {
        match self {
            SamplingStrategy::Always => "full",
            SamplingStrategy::Probabilistic => "proportional",
            SamplingStrategy::ErrorFirst => "error_first",
            SamplingStrategy::Never => "off",
        }
    }
}

/// The name of a strategy in a configuration.
pub open spec fn strategy_name(s: SamplingStrategy) -> Seq<char> {
    match s {
        SamplingStrategy::Always => "full"@,
        SamplingStrategy::Probabilistic => "proportional"@,
        SamplingStrategy::ErrorFirst => "error_first"@,
        SamplingStrategy::Never => "off"@,
    }
}

/// Under which key of the data of a call a decision is handed down.
pub const SAMPLED_KEY: &'static str = "_apcore.mw.tracing.sampled";

/// The name of the span of a call.
pub const SPAN_NAME: &'static str = "apcore.module.execute";

/// The decision that the data of a call hands down.
pub open spec fn handed_down(data: Map<Seq<char>, Json>) -> Option<bool> {
    if data.contains_key(SAMPLED_KEY@) {
        json::json_bool(data[SAMPLED_KEY@])
    } else {
        None
    }
}

/// A rate, one at most.
pub open spec fn clamped(rate: Rate) -> Rate {
    if rate.num > rate.den {
        Rate { num: rate.den, den: rate.den }
    } else {
        rate
    }
}

/// A new decision, where a random number decides among [`DRAW_LIMIT`].
pub open spec fn decided(strategy: SamplingStrategy, rate: Rate, draw: u64) -> bool {
    match strategy {
        SamplingStrategy::Always => true,
        SamplingStrategy::Never => false,
        SamplingStrategy::Probabilistic | SamplingStrategy::ErrorFirst => draw * rate.den < rate.num * DRAW_LIMIT,
    }
}

/// A new decision, where a random number decides.
pub fn decide(strategy: SamplingStrategy, rate: Rate, draw: u64) -> (r: bool)
    ensures
        r == decided(strategy, rate, draw),
{
    match strategy {
        SamplingStrategy::Always => true,
        SamplingStrategy::Never => false,
        SamplingStrategy::Probabilistic | SamplingStrategy::ErrorFirst => {
            proof {
                let (a, b, c, d) = (draw, rate.den, rate.num, DRAW_LIMIT);
                assert(0 <= a * b <= 0xffff_ffff_ffff_ffff * 0xffff_ffff_ffff_ffff) by (nonlinear_arith)
                    requires
                        0 <= a <= 0xffff_ffff_ffff_ffff,
                        0 <= b <= 0xffff_ffff_ffff_ffff,
                ;
                assert(0 <= c * d <= 0xffff_ffff_ffff_ffff * 0xffff_ffff_ffff_ffff) by (nonlinear_arith)
                    requires
                        0 <= c <= 0xffff_ffff_ffff_ffff,
                        0 <= d <= 0xffff_ffff_ffff_ffff,
                ;
            }
            (draw as u128) * (rate.den as u128) < (rate.num as u128) * (DRAW_LIMIT as u128)
        },
    }
}

/// Makes a span for every call. Calls within a call of the same trace have its
/// span as their parent.
#[derive(Debug)]
pub struct TracingMiddleware {
    pub sampling_strategy: SamplingStrategy,
    pub sampling_rate: Rate,
    pub spans: StrMap<Vec<Span>>,
    pub sampling: StrMap<bool>,
}

/// What is to be sampled, and the decisions that are remembered.
pub open spec fn sampled(
    strategy: SamplingStrategy,
    rate: Rate,
    remembered: Map<Seq<char>, bool>,
    handed: Option<bool>,
    trace_id: Seq<char>,
    draw: u64,
) -> bool {
    match handed {
        Some(b) => b,
        None => if remembered.contains_key(trace_id) {
            remembered[trace_id]
        } else {
            decided(strategy, rate, draw)
        },
    }
}

/// The decisions that are remembered after one was needed.
pub open spec fn remembered_after(
    strategy: SamplingStrategy,
    rate: Rate,
    remembered: Map<Seq<char>, bool>,
    handed: Option<bool>,
    trace_id: Seq<char>,
    draw: u64,
) -> Map<Seq<char>, bool> {
    if handed is Some || remembered.contains_key(trace_id) {
        remembered
    } else {
        remembered.insert(trace_id, decided(strategy, rate, draw))
    }
}

/// The span of a call.
pub open spec fn call_span(
    module_id: Seq<char>,
    trace_id: Seq<char>,
    caller_id: Option<Seq<char>>,
    span_id: Seq<char>,
    at: Timestamp,
    outer: Seq<SpanView>,
) -> SpanView {
    let base = span::started(SPAN_NAME@, trace_id, span_id, at);
    let named = base.attributes.insert("module_id"@, Json::Str(module_id)).insert("method"@, Json::Str("execute"@));
    SpanView {
        attributes: match caller_id {
            Some(c) => named.insert("caller_id"@, Json::Str(c)),
            None => named,
        },
        parent_span_id: if outer.len() > 0 {
            Some(outer.last().span_id)
        } else {
            None
        },
        ..base
    }
}

/// A duration in milliseconds as a JSON number.
pub open spec fn duration_value(from: i64, to: int) -> Json {
    Json::Float(decimals::signed_text(to - from) + ".0"@)
}

/// The span of a call that succeeded.
pub open spec fn succeeded(s: SpanView, at: Timestamp) -> SpanView {
    SpanView {
        status: SpanStatus::Okay,
        end_ms: Some(span::epoch_millis(at) as i64),
        attributes: s.attributes.insert("duration_ms"@, duration_value(s.start_ms, span::epoch_millis(at))).insert(
            "success"@,
            Json::Bool(true),
        ),
        ..s
    }
}

/// The span of a call that failed.
pub open spec fn failed(s: SpanView, at: Timestamp, code: ErrorCode, message: Seq<char>) -> SpanView {
    span::with_event(
        SpanView {
            status: SpanStatus::Error,
            end_ms: Some(span::epoch_millis(at) as i64),
            attributes: s.attributes.insert("duration_ms"@, duration_value(s.start_ms, span::epoch_millis(at))).insert(
                "success"@,
                Json::Bool(false),
            ).insert("error_code"@, Json::Str(error_code::code_name(code))).insert("error.message"@, Json::Str(message)),
            ..s
        },
        "exception"@,
        at,
        Map::empty(),
    )
}

impl TracingMiddleware {
    /// The spans of a trace that are open, the outermost first.
    pub open spec fn open_spans(self, trace_id: Seq<char>) -> Seq<SpanView> {
        if self.spans@.contains_key(trace_id) {
            span::spans_view(self.spans@[trace_id]@)
        } else {
            Seq::empty()
        }
    }

    /// Whether the open spans of the other traces are the same.
    pub open spec fn same_but(self, other: Self, trace_id: Seq<char>) -> bool {
        forall|t: Seq<char>|
            t != trace_id ==> #[trigger] self.open_spans(t) == other.open_spans(t) && self.spans@.contains_key(t)
                == other.spans@.contains_key(t)
    }

    /// Whether strategy and rate are the same.
    pub open spec fn configured_as(self, other: Self) -> bool {
        self.sampling_strategy == other.sampling_strategy && self.sampling_rate == other.sampling_rate
    }

    /// A middleware that has every span exported.
    pub fn new() -> (r: Self)
        ensures
            r.sampling_strategy is Always,
            r.sampling_rate == (Rate { num: 1, den: 1 }),
            r.spans@ == Map::<Seq<char>, Vec<Span>>::empty(),
            r.sampling@ == Map::<Seq<char>, bool>::empty(),
    {
        TracingMiddleware::with_sampling(SamplingStrategy::Always, Rate { num: 1, den: 1 })
    }

    /// A middleware with a strategy and a rate. A rate above one counts as one.
    pub fn with_sampling(strategy: SamplingStrategy, rate: Rate) -> (r: Self)
        ensures
            r.sampling_strategy == strategy,
            r.sampling_rate == clamped(rate),
            r.spans@ == Map::<Seq<char>, Vec<Span>>::empty(),
            r.sampling@ == Map::<Seq<char>, bool>::empty(),
    {
        let sampling_rate = if rate.num > rate.den {
            Rate { num: rate.den, den: rate.den }
        } else {
            rate
        };
        TracingMiddleware { sampling_strategy: strategy, sampling_rate, spans: StrMap::new(), sampling: StrMap::new() }
    }

    /// The name of the middleware.
    pub fn name(&self) -> (r: &'static str)
        ensures
            r@ == "tracing"@,
    {
        "tracing"
    }

    /// Whether the spans of a trace are exported. What the data of the call
    /// hands down wins, then what was decided before for the trace; a new
    /// decision is remembered.
    pub fn should_sample(&mut self, trace_id: &str, data: &StrMap<JsonValue>, draw: u64) -> (r: bool)
        ensures
            final(self).configured_as(*old(self)),
            final(self).spans == old(self).spans,
            r == sampled(
                old(self).sampling_strategy,
                old(self).sampling_rate,
                old(self).sampling@,
                handed_down(json::object_view(*data)),
                trace_id@,
                draw,
            ),
            final(self).sampling@ == remembered_after(
                old(self).sampling_strategy,
                old(self).sampling_rate,
                old(self).sampling@,
                handed_down(json::object_view(*data)),
                trace_id@,
                draw,
            ),
    {
        broadcast use crate::json::lemma_value_view;

        match lookup(data, SAMPLED_KEY) {
            Some(v) => match v.as_bool() {
                Some(b) => {
                    return b;
                },
                None => {},
            },
            None => {},
        }
        match self.sampling.get(trace_id) {
            Some(b) => {
                return *b;
            },
            None => {},
        }
        let decision = decide(self.sampling_strategy, self.sampling_rate, draw);
        self.sampling.insert(trace_id.to_owned(), decision);
        decision
    }

    /// A call starts now: its span is opened.
    pub fn before(&mut self, module_id: &str, trace_id: &str, caller_id: Option<&str>, data: &StrMap<JsonValue>)
        ensures
            final(self).configured_as(*old(self)),
            final(self).same_but(*old(self), trace_id@),
            exists|span_id: Seq<char>, at: Timestamp|
                ids::is_hex(span_id, 16) && clock::in_calendar(at) && final(self).open_spans(trace_id@) == old(self).open_spans(
                    trace_id@,
                ).push(
                    #[trigger] call_span(
                        module_id@,
                        trace_id@,
                        text::opt_str(caller_id),
                        span_id,
                        at,
                        old(self).open_spans(trace_id@),
                    ),
                ),
            exists|draw: u64|
                draw < DRAW_LIMIT && final(self).sampling@ == #[trigger] remembered_after(
                    old(self).sampling_strategy,
                    old(self).sampling_rate,
                    old(self).sampling@,
                    handed_down(json::object_view(*data)),
                    trace_id@,
                    draw,
                ),
    {
        let span_id = random_span_id();
        let ghost id = span_id@;
        let now = Timestamp::now();
        let draw: u64 = random_draw();
        self.before_with(module_id, trace_id, caller_id, data, span_id, &now, draw);
        assert(ids::is_hex(id, 16) && clock::in_calendar(now));
    }

    /// A call starts: its span is opened, with this identifier, time and random
    /// number.
    pub fn before_with(
        &mut self,
        module_id: &str,
        trace_id: &str,
        caller_id: Option<&str>,
        data: &StrMap<JsonValue>,
        span_id: String,
        at: &Timestamp,
        draw: u64,
    )
        requires
            clock::in_calendar(*at),
        ensures
            final(self).configured_as(*old(self)),
            final(self).same_but(*old(self), trace_id@),
            final(self).open_spans(trace_id@) == old(self).open_spans(trace_id@).push(
                call_span(module_id@, trace_id@, text::opt_str(caller_id), span_id@, *at, old(self).open_spans(trace_id@)),
            ),
            final(self).sampling@ == remembered_after(
                old(self).sampling_strategy,
                old(self).sampling_rate,
                old(self).sampling@,
                handed_down(json::object_view(*data)),
                trace_id@,
                draw,
            ),
    {
        broadcast use crate::json::lemma_value_view;

        let _decision = self.should_sample(trace_id, data, draw);
        let ghost start = *self;
        let ghost outer = self.open_spans(trace_id@);
        let mut span = Span::new_at(SPAN_NAME, trace_id, span_id, at);
        span.set_attribute("module_id", JsonValue::str(module_id));
        span.set_attribute("method", JsonValue::str("execute"));
        match caller_id {
            Some(c) => span.set_attribute("caller_id", JsonValue::str(c)),
            None => {},
        }
        let mut stack = match self.spans.remove(trace_id) {
            Some(v) => v,
            None => Vec::new(),
        };
        assert(span::spans_view(stack@) =~= outer);
        if stack.len() > 0 {
            let parent = stack[stack.len() - 1].span_id.clone();
            assert(outer.last().span_id == parent@);
            span.parent_span_id = Some(parent);
        }
        let ghost s = span@;
        let ghost prev = stack@;
        stack.push(span);
        assert(span::spans_view(stack@) =~= span::spans_view(prev).push(s));
        self.spans.insert(trace_id.to_owned(), stack);
        assert(s =~= call_span(module_id@, trace_id@, text::opt_str(caller_id), span_id@, *at, outer));
        assert forall|t: Seq<char>| t != trace_id@ implies #[trigger] self.open_spans(t) == start.open_spans(t)
            && self.spans@.contains_key(t) == start.spans@.contains_key(t) by {}
    }

    fn close(&mut self, trace_id: &str) -> (r: Option<Span>)
        ensures
            final(self).configured_as(*old(self)),
            final(self).sampling == old(self).sampling,
            final(self).same_but(*old(self), trace_id@),
            match r {
                Some(s) => old(self).open_spans(trace_id@).len() > 0 && s@ == old(self).open_spans(trace_id@).last()
                    && final(self).open_spans(trace_id@) == old(self).open_spans(trace_id@).drop_last(),
                None => old(self).open_spans(trace_id@).len() == 0 && final(self).open_spans(trace_id@).len() == 0,
            },
            final(self).spans@.contains_key(trace_id@) <==> final(self).open_spans(trace_id@).len() > 0,
    {
        let ghost start = *self;
        let r = match self.spans.remove(trace_id) {
            Some(mut stack) => {
                let ghost all = span::spans_view(stack@);
                let last = stack.pop();
                assert(last is Some ==> span::spans_view(stack@) =~= all.drop_last());
                if stack.len() > 0 {
                    self.spans.insert(trace_id.to_owned(), stack);
                } else {
                    assert(last is Some ==> all.drop_last() =~= Seq::empty());
                }
                last
            },
            None => None,
        };
        assert forall|t: Seq<char>| t != trace_id@ implies #[trigger] self.open_spans(t) == start.open_spans(t)
            && self.spans@.contains_key(t) == start.spans@.contains_key(t) by {}
        r
    }

    /// A call succeeded: its span is closed, and given where it is to be
    /// exported. With the last span of a trace its decision is forgotten.
    pub fn after(&mut self, trace_id: &str, data: &StrMap<JsonValue>, at: &Timestamp, draw: u64) -> (r: Option<Span>)
        requires
            clock::in_calendar(*at),
        ensures
            final(self).configured_as(*old(self)),
            final(self).same_but(*old(self), trace_id@),
            ({
                let stack = old(self).open_spans(trace_id@);
                let handed = handed_down(json::object_view(*data));
                let (strategy, rate) = (old(self).sampling_strategy, old(self).sampling_rate);
                let kept = remembered_after(strategy, rate, old(self).sampling@, handed, trace_id@, draw);
                if stack.len() == 0 {
                    &&& r is None
                    &&& final(self).open_spans(trace_id@).len() == 0
                    &&& final(self).sampling@ == old(self).sampling@
                } else {
                    &&& r is Some <==> sampled(strategy, rate, old(self).sampling@, handed, trace_id@, draw)
                    &&& r matches Some(s) ==> s@ == succeeded(stack.last(), *at)
                    &&& final(self).open_spans(trace_id@) == stack.drop_last()
                    &&& final(self).sampling@ == (if stack.len() == 1 {
                        kept.remove(trace_id@)
                    } else {
                        kept
                    })
                }
            }),
            final(self).spans@.contains_key(trace_id@) <==> final(self).open_spans(trace_id@).len() > 0,
    {
        broadcast use crate::json::lemma_value_view;

        let ghost start = *self;
        match self.close(trace_id) {
            None => None,
            Some(mut span) => {
                let ghost closed = *self;
                let ghost s = span@;
                span.status = SpanStatus::Okay;
                span.end_at(at);
                let duration = duration_json(span.start_ms, at);
                span.set_attribute("duration_ms", duration);
                span.set_attribute("success", JsonValue::Bool(true));
                assert(span@ =~= succeeded(s, *at));
                let wanted = self.should_sample(trace_id, data, draw);
                self.forget_if_done(trace_id);
                assert forall|t: Seq<char>| t != trace_id@ implies #[trigger] self.open_spans(t) == start.open_spans(t)
                    && self.spans@.contains_key(t) == start.spans@.contains_key(t) by {
                    assert(closed.open_spans(t) == start.open_spans(t));
                }
                if wanted {
                    Some(span)
                } else {
                    None
                }
            },
        }
    }

    fn forget_if_done(&mut self, trace_id: &str)
        requires
            old(self).spans@.contains_key(trace_id@) <==> old(self).open_spans(trace_id@).len() > 0,
        ensures
            final(self).configured_as(*old(self)),
            final(self).spans == old(self).spans,
            final(self).sampling@ == (if old(self).open_spans(trace_id@).len() == 0 {
                old(self).sampling@.remove(trace_id@)
            } else {
                old(self).sampling@
            }),
    {
        if !self.spans.contains_key(trace_id) {
            let _decision = self.sampling.remove(trace_id);
        }
    }

    /// A call failed: its span is closed, and given where it is to be exported.
    /// Where failures come first it always is. With the last span of a trace its
    /// decision is forgotten.
    pub fn on_error(
        &mut self,
        trace_id: &str,
        error: &ModuleError,
        data: &StrMap<JsonValue>,
        at: &Timestamp,
        draw: u64,
    ) -> (r: Option<Span>)
        requires
            clock::in_calendar(*at),
        ensures
            final(self).configured_as(*old(self)),
            final(self).same_but(*old(self), trace_id@),
            ({
                let stack = old(self).open_spans(trace_id@);
                let handed = handed_down(json::object_view(*data));
                let (strategy, rate) = (old(self).sampling_strategy, old(self).sampling_rate);
                let kept = if strategy is ErrorFirst {
                    old(self).sampling@
                } else {
                    remembered_after(strategy, rate, old(self).sampling@, handed, trace_id@, draw)
                };
                if stack.len() == 0 {
                    &&& r is None
                    &&& final(self).open_spans(trace_id@).len() == 0
                    &&& final(self).sampling@ == old(self).sampling@
                } else {
                    &&& r is Some <==> strategy is ErrorFirst || sampled(
                        strategy,
                        rate,
                        old(self).sampling@,
                        handed,
                        trace_id@,
                        draw,
                    )
                    &&& r matches Some(s) ==> s@ == failed(stack.last(), *at, error.code, error.message@)
                    &&& final(self).open_spans(trace_id@) == stack.drop_last()
                    &&& final(self).sampling@ == (if stack.len() == 1 {
                        kept.remove(trace_id@)
                    } else {
                        kept
                    })
                }
            }),
            final(self).spans@.contains_key(trace_id@) <==> final(self).open_spans(trace_id@).len() > 0,
    {
        broadcast use crate::json::lemma_value_view;

        let ghost start = *self;
        match self.close(trace_id) {
            None => None,
            Some(mut span) => {
                let ghost closed = *self;
                let ghost s = span@;
                span.status = SpanStatus::Error;
                span.end_at(at);
                let duration = duration_json(span.start_ms, at);
                span.set_attribute("duration_ms", duration);
                span.set_attribute("success", JsonValue::Bool(false));
                span.set_attribute("error_code", JsonValue::str(error.code.name()));
                span.set_attribute("error.message", JsonValue::str(error.message.as_str()));
                span.add_event_at("exception", empty_object(), at);
                assert(span@ =~= failed(s, *at, error.code, error.message@));
                let wanted = match self.sampling_strategy {
                    SamplingStrategy::ErrorFirst => true,
                    _ => self.should_sample(trace_id, data, draw),
                };
                self.forget_if_done(trace_id);
                assert forall|t: Seq<char>| t != trace_id@ implies #[trigger] self.open_spans(t) == start.open_spans(t)
                    && self.spans@.contains_key(t) == start.spans@.contains_key(t) by {
                    assert(closed.open_spans(t) == start.open_spans(t));
                }
                if wanted {
                    Some(span)
                } else {
                    None
                }
            },
        }
    }
}

fn duration_json(from: i64, at: &Timestamp) -> (r: JsonValue)
    requires
        clock::in_calendar(*at),
    ensures
        r@ == duration_value(from, span::epoch_millis(*at)),
{
    broadcast use crate::json::lemma_value_view;

    let to: i128 = at.secs as i128 * 1000 + (at.nanos / 1_000_000) as i128;
    let text = cat2(signed(to - from as i128).as_str(), ".0");
    JsonValue::Number(Number::Float(text))
}

/// A call within another has the span of the other as its parent, and a call
/// within none has no parent.
pub proof fn inner_spans_name_their_parent(
    outer: Seq<SpanView>,
    module_id: Seq<char>,
    trace_id: Seq<char>,
    caller_id: Option<Seq<char>>,
    span_id: Seq<char>,
    at: Timestamp,
)
    ensures
        outer.len() > 0 ==> call_span(module_id, trace_id, caller_id, span_id, at, outer).parent_span_id == Some(
            outer.last().span_id,
        ),
        outer.len() == 0 ==> call_span(module_id, trace_id, caller_id, span_id, at, outer).parent_span_id is None,
        call_span(module_id, trace_id, caller_id, span_id, at, outer).trace_id == trace_id,
{
}

/// Once a decision is needed for a trace, the same decision holds for every
/// later call of the trace, whatever the random number, until it is forgotten.
pub proof fn a_decision_is_kept_for_the_trace(
    strategy: SamplingStrategy,
    rate: Rate,
    remembered: Map<Seq<char>, bool>,
    trace_id: Seq<char>,
    draw: u64,
    later: u64,
)
    ensures
        ({
            let kept = remembered_after(strategy, rate, remembered, None, trace_id, draw);
            &&& sampled(strategy, rate, kept, None, trace_id, later) == sampled(
                strategy,
                rate,
                remembered,
                None,
                trace_id,
                draw,
            )
            &&& remembered_after(strategy, rate, kept, None, trace_id, later) == kept
        }),
{
}

/// What is handed down wins over everything else and leaves no trace.
pub proof fn a_handed_down_decision_wins(
    strategy: SamplingStrategy,
    rate: Rate,
    remembered: Map<Seq<char>, bool>,
    handed: bool,
    trace_id: Seq<char>,
    draw: u64,
)
    ensures
        sampled(strategy, rate, remembered, Some(handed), trace_id, draw) == handed,
        remembered_after(strategy, rate, remembered, Some(handed), trace_id, draw) == remembered,
{
}

/// A rate of one samples every trace, and a rate of zero none.
pub proof fn the_ends_of_the_rate(strategy: SamplingStrategy, den: u64, draw: u64)
    requires
        den > 0,
        draw < DRAW_LIMIT,
        strategy is Probabilistic || strategy is ErrorFirst,
    ensures
        decided(strategy, Rate { num: den, den }, draw),
        !decided(strategy, Rate { num: 0, den }, draw),
{
    assert(draw * den < den * DRAW_LIMIT) by (nonlinear_arith)
        requires
            0 < den,
            0 <= draw < DRAW_LIMIT,
    ;
    assert(0 <= draw * den) by (nonlinear_arith)
        requires
            0 < den,
            0 <= draw,
    ;
}

/// The data of a call hand a decision down where they hold it as a truth value.
pub proof fn decisions_are_handed_down(data: Map<Seq<char>, Json>, b: bool)
    ensures
        handed_down(data.insert("_apcore.mw.tracing.sampled"@, Json::Bool(b))) == Some(b),
        handed_down(data.insert("_apcore.mw.tracing.sampled"@, Json::Null)) is None,
        !data.contains_key("_apcore.mw.tracing.sampled"@) ==> handed_down(data) is None,
{
}

/// A rate above one counts as one, and any other stays.
pub proof fn a_rate_is_at_most_one(rate: Rate)
    ensures
        clamped(rate).num <= clamped(rate).den,
        clamped(rate).den == rate.den,
        rate.num <= rate.den ==> clamped(rate) == rate,
        rate.num > rate.den ==> clamped(rate).num == rate.den,
{
}

/// A trace is sampled always, never, or where the draw, of 2 to the power of 48,
/// lies below the rate.
pub proof fn a_trace_is_sampled_by_its_draw(rate: Rate, draw: u64)
    ensures
        decided(SamplingStrategy::Always, rate, draw),
        !decided(SamplingStrategy::Never, rate, draw),
        decided(SamplingStrategy::Probabilistic, rate, draw) <==> draw * rate.den < rate.num * 281_474_976_710_656,
        decided(SamplingStrategy::ErrorFirst, rate, draw) <==> draw * rate.den < rate.num * 281_474_976_710_656,
{
}

/// What is sampled at a rate is sampled at every higher rate, and with every lower
/// draw.
pub proof fn higher_rates_sample_more(strategy: SamplingStrategy, low: Rate, high: Rate, draw: u64, lower: u64)
    requires
        low.den == high.den,
        low.num <= high.num,
        lower <= draw,
        decided(strategy, low, draw),
    ensures
        decided(strategy, high, draw),
        decided(strategy, low, lower),
{
    assert(low.num * DRAW_LIMIT <= high.num * DRAW_LIMIT) by (nonlinear_arith)
        requires
            low.num <= high.num,
    ;
    assert(lower * low.den <= draw * low.den) by (nonlinear_arith)
        requires
            lower <= draw,
    ;
}

/// The first call of a trace decides, by its draw, and the decision is remembered
/// for the trace and for no other.
pub proof fn the_first_call_of_a_trace_decides(
    strategy: SamplingStrategy,
    rate: Rate,
    remembered: Map<Seq<char>, bool>,
    trace_id: Seq<char>,
    other: Seq<char>,
    draw: u64,
)
    requires
        !remembered.contains_key(trace_id),
        other != trace_id,
    ensures
        strategy is Always ==> sampled(strategy, rate, remembered, None, trace_id, draw),
        strategy is Never ==> !sampled(strategy, rate, remembered, None, trace_id, draw),
        strategy is Probabilistic || strategy is ErrorFirst ==> (sampled(strategy, rate, remembered, None, trace_id, draw)
            <==> draw * rate.den < rate.num * 281_474_976_710_656),
        ({
            let after = remembered_after(strategy, rate, remembered, None, trace_id, draw);
            &&& after.contains_key(trace_id)
            &&& after[trace_id] == sampled(strategy, rate, remembered, None, trace_id, draw)
            &&& after.contains_key(other) == remembered.contains_key(other)
            &&& remembered.contains_key(other) ==> after[other] == remembered[other]
        }),
{
}

/// The span of a call tells of the module, of the method and of the caller, starts
/// at the time of the call and has not ended.
pub proof fn the_span_of_a_call_tells_of_it(
    module_id: Seq<char>,
    trace_id: Seq<char>,
    caller_id: Option<Seq<char>>,
    span_id: Seq<char>,
    at: Timestamp,
    outer: Seq<SpanView>,
)
    requires
        clock::in_calendar(at),
    ensures
        ({
            let s = call_span(module_id, trace_id, caller_id, span_id, at, outer);
            &&& s.name == "apcore.module.execute"@
            &&& s.trace_id == trace_id
            &&& s.span_id == span_id
            &&& s.start_ms == at.secs * 1000 + at.nanos as int / 1_000_000
            &&& s.end_ms is None
            &&& s.status is Unset
            &&& s.events.len() == 0
            &&& s.attributes.contains_key("module_id"@) && s.attributes["module_id"@] == Json::Str(module_id)
            &&& s.attributes.contains_key("method"@) && s.attributes["method"@] == Json::Str("execute"@)
            &&& caller_id matches Some(c) ==> s.attributes.contains_key("caller_id"@) && s.attributes["caller_id"@]
                == Json::Str(c)
            &&& caller_id is None ==> !s.attributes.contains_key("caller_id"@)
        }),
{
    reveal_strlit("module_id");
    reveal_strlit("method");
    reveal_strlit("caller_id");
    assert("module_id"@.len() == 9 && "method"@.len() == 6 && "caller_id"@.len() == 9);
    assert("module_id"@[0] == 'm' && "caller_id"@[0] == 'c');
}

proof fn lemma_end_names()
    ensures
        "duration_ms"@ != "success"@,
        "duration_ms"@ != "error_code"@,
        "duration_ms"@ != "error.message"@,
        "success"@ != "error_code"@,
        "success"@ != "error.message"@,
        "error_code"@ != "error.message"@,
{
    reveal_strlit("duration_ms");
    reveal_strlit("success");
    reveal_strlit("error_code");
    reveal_strlit("error.message");
    assert("duration_ms"@.len() == 11 && "success"@.len() == 7 && "error_code"@.len() == 10 && "error.message"@.len()
        == 13);
}

/// The span of a call that succeeded has ended, tells of the success and of the
/// time the call took, and keeps everything else.
pub proof fn a_success_ends_the_span(s: SpanView, at: Timestamp, k: Seq<char>)
    requires
        clock::in_calendar(at),
        k != "duration_ms"@,
        k != "success"@,
    ensures
        ({
            let e = succeeded(s, at);
            let now = at.secs * 1000 + at.nanos as int / 1_000_000;
            &&& e.status is Okay
            &&& e.end_ms == Some(now as i64)
            &&& e.attributes.contains_key("success"@) && e.attributes["success"@] == Json::Bool(true)
            &&& e.attributes.contains_key("duration_ms"@) && e.attributes["duration_ms"@] == Json::Float(
                decimals::signed_text(now - s.start_ms) + ".0"@,
            )
            &&& e.attributes.contains_key(k) == s.attributes.contains_key(k)
            &&& s.attributes.contains_key(k) ==> e.attributes[k] == s.attributes[k]
            &&& e.events == s.events
            &&& e.trace_id == s.trace_id && e.span_id == s.span_id && e.parent_span_id == s.parent_span_id
            &&& e.name == s.name && e.start_ms == s.start_ms
        }),
{
    lemma_end_names();
}

/// The span of a call that failed has ended, tells of the failure, of its code and
/// message and of the time the call took, has an exception as its last event, and
/// keeps everything else.
pub proof fn a_failure_ends_the_span(s: SpanView, at: Timestamp, code: ErrorCode, message: Seq<char>, k: Seq<char>)
    requires
        clock::in_calendar(at),
        k != "duration_ms"@,
        k != "success"@,
        k != "error_code"@,
        k != "error.message"@,
    ensures
        ({
            let e = failed(s, at, code, message);
            let now = at.secs * 1000 + at.nanos as int / 1_000_000;
            &&& e.status is Error
            &&& e.end_ms == Some(now as i64)
            &&& e.attributes.contains_key("success"@) && e.attributes["success"@] == Json::Bool(false)
            &&& e.attributes.contains_key("duration_ms"@) && e.attributes["duration_ms"@] == Json::Float(
                decimals::signed_text(now - s.start_ms) + ".0"@,
            )
            &&& e.attributes.contains_key("error_code"@) && e.attributes["error_code"@] == Json::Str(
                error_code::code_name(code),
            )
            &&& e.attributes.contains_key("error.message"@) && e.attributes["error.message"@] == Json::Str(message)
            &&& e.attributes.contains_key(k) == s.attributes.contains_key(k)
            &&& s.attributes.contains_key(k) ==> e.attributes[k] == s.attributes[k]
            &&& e.events.len() == s.events.len() + 1
            &&& e.events.drop_last() == s.events
            &&& e.events.last().name == "exception"@ && e.events.last().timestamp == at
            &&& e.trace_id == s.trace_id && e.span_id == s.span_id && e.parent_span_id == s.parent_span_id
            &&& e.name == s.name && e.start_ms == s.start_ms
        }),
{
    lemma_end_names();
    assert(failed(s, at, code, message).events.drop_last() =~= s.events);
}

/// Where two tracers differ in one trace at most, the open spans of every other
/// trace are the same.
pub proof fn traces_are_kept_apart(a: TracingMiddleware, b: TracingMiddleware, trace_id: Seq<char>, t: Seq<char>)
    requires
        a.same_but(b, trace_id),
        t != trace_id,
    ensures
        a.open_spans(t) == b.open_spans(t),
        a.spans@.contains_key(t) == b.spans@.contains_key(t),
        a.configured_as(b) ==> a.sampling_strategy == b.sampling_strategy && a.sampling_rate == b.sampling_rate,
{
    assert(a.open_spans(t) == b.open_spans(t));
}

} // verus!
