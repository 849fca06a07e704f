//! Where finished units of work go.
use vstd::prelude::*;
use vstd::string::*;
use crate::error_code::ErrorCode;
use crate::errors::ModuleError;
use crate::json::{empty_object, Json, JsonValue, put, to_text};
use crate::observability::span::{Span, SpanStatus, SpanView};
use crate::strmap::StrMap;
use crate::text::{cat2, to_chars};
use crate::errors;
use crate::json;
use crate::observability::span;

verus! {

/// Writes units of work to the log.
#[derive(Debug, Clone, Copy, PartialEq, Eq, Structural)]
pub struct StdoutExporter;

impl StdoutExporter {
    /// What is reported where a unit of work cannot be written as JSON.
    pub fn failure(&self, reason: &str) -> (r: ModuleError)
        ensures
            r@ == errors::plain_error(ErrorCode::GeneralInternalError, "Failed to serialize span: "@ + reason@, r@.timestamp),
    {
        ModuleError::new(ErrorCode::GeneralInternalError, cat2("Failed to serialize span: ", reason).as_str())
    }
}

/// How many units of work are kept in memory unless another number is given.
pub const DEFAULT_MAX_SPANS: usize = 1000;

/// The last of a list, so many at most.
pub open spec fn last_of<T>(s: Seq<T>, n: int) -> Seq<T> {
    if s.len() > n {
        s.skip(s.len() - n)
    } else {
        s
    }
}

/// Keeps units of work in memory, the latest at most.
#[derive(Debug)]
pub struct InMemoryExporter {
    pub spans: Vec<Span>,
    pub max_spans: usize,
}

impl InMemoryExporter {
    /// An exporter with room for 1000 units of work.
    pub fn new() -> (r: Self)
        ensures
            r.spans@.len() == 0,
            r.max_spans == 1000,
    {
        InMemoryExporter { spans: Vec::new(), max_spans: DEFAULT_MAX_SPANS }
    }

    /// An exporter with room for so many units of work.
    pub fn with_max_spans(max_spans: usize) -> (r: Self)
        ensures
            r.spans@.len() == 0,
            r.max_spans == max_spans,
    {
        InMemoryExporter { spans: Vec::new(), max_spans }
    }

    /// Keep a unit of work. The oldest leave where there are too many.
    pub fn export(&mut self, span: &Span) -> (r: Result<(), ModuleError>)
        ensures
            r is Ok,
            final(self).max_spans == old(self).max_spans,
            span::spans_view(final(self).spans@) == last_of(
                span::spans_view(old(self).spans@).push(span@),
                old(self).max_spans as int,
            ),
    {
        let ghost s = span::spans_view(self.spans@).push(span@);
        self.spans.push(span.clone());
        assert(span::spans_view(self.spans@) =~= s);
        let ghost max = self.max_spans;
        let ghost mut gone: int = 0;
        assert(s.skip(0) =~= s);
        while self.spans.len() > self.max_spans
            invariant
                self.max_spans == max,
                0 <= gone <= s.len(),
                self.spans@.len() == s.len() - gone,
                gone == 0 || self.spans@.len() >= max,
                span::spans_view(self.spans@) == s.skip(gone),
            decreases self.spans.len(),
        {
            let ghost prev = self.spans@;
            let _oldest = self.spans.remove(0);
            proof {
                gone = gone + 1;
                assert forall|j: int| 0 <= j < self.spans@.len() implies span::spans_view(self.spans@)[j] == s.skip(gone)[j] by {
                    assert(self.spans@[j] == prev[j + 1]);
                    assert(span::spans_view(prev)[j + 1] == s.skip(gone - 1)[j + 1]);
                }
            }
            assert(span::spans_view(self.spans@) =~= s.skip(gone));
        }
        assert(span::spans_view(self.spans@).len() == self.spans@.len());
        Ok(())
    }

    /// There is nothing to release.
    pub fn shutdown(&self) -> (r: Result<(), ModuleError>)
        ensures
            r is Ok,
    {
        Ok(())
    }

    /// The units of work that are kept, the oldest first.
    pub fn get_spans(&self) -> (r: Vec<Span>)
        ensures
            span::spans_view(r@) == span::spans_view(self.spans@),
    {
        let mut out: Vec<Span> = Vec::new();
        let mut i: usize = 0;
        while i < self.spans.len()
            invariant
                i <= self.spans.len(),
                out@.len() == i,
                forall|j: int| 0 <= j < i ==> (#[trigger] out@[j])@ == self.spans@[j]@,
            decreases self.spans.len() - i,
        {
            out.push(self.spans[i].clone());
            i = i + 1;
        }
        assert(span::spans_view(out@) =~= span::spans_view(self.spans@));
        out
    }

    /// Forget all units of work.
    pub fn clear(&mut self)
        ensures
            final(self).spans@.len() == 0,
            final(self).max_spans == old(self).max_spans,
    {
        self.spans = Vec::new();
    }
}

impl Default for InMemoryExporter {
    fn default() -> (r: Self)
        ensures
            r.spans@.len() == 0,
            r.max_spans == 1000,
    {
        InMemoryExporter::new()
    }
}

/// Sends units of work to a collector that takes OTLP.
#[derive(Debug)]
pub struct OTLPExporter {
    pub endpoint: String,
}

/// Where traces are posted below a collector.
pub const TRACES_PATH: &'static str = "/v1/traces";

/// Whether `s` ends with `p`.
pub open spec fn has_suffix(s: Seq<char>, p: Seq<char>) -> bool {
    p.len() <= s.len() && s.subrange(s.len() - p.len(), s.len() as int) == p
}

fn ends_with(s: &str, p: &str) -> (r: bool)
    ensures
        r == has_suffix(s@, p@),
{
    let a = to_chars(s);
    let b = to_chars(p);
    if b.len() > a.len() {
        return false;
    }
    let d: usize = a.len() - b.len();
    let mut i: usize = 0;
    while i < b.len()
        invariant
            i <= b.len(),
            a@ == s@,
            b@ == p@,
            d == a.len() - b.len(),
            b.len() <= a.len(),
            forall|j: int| 0 <= j < i ==> #[trigger] a@[d + j] == b@[j],
        decreases b.len() - i,
    {
        if a[d + i] != b[i] {
            assert(s@.subrange(s@.len() - p@.len(), s@.len() as int)[i as int] == a@[d + i]);
            return false;
        }
        i = i + 1;
    }
    assert(s@.subrange(s@.len() - p@.len(), s@.len() as int) =~= p@) by {
        assert forall|j: int| 0 <= j < p@.len() implies s@.subrange(s@.len() - p@.len(), s@.len() as int)[j] == p@[j] by {
            assert(a@[d + j] == b@[j]);
        }
    }
    true
}

impl OTLPExporter {
    /// An exporter that sends to an endpoint.
    pub fn new(endpoint: &str) -> (r: Self)
        ensures
            r.endpoint@ == endpoint@,
    {
        OTLPExporter { endpoint: endpoint.to_owned() }
    }

    /// Where traces are posted: the endpoint itself where it names the path of
    /// traces, else that path below it.
    pub fn url(&self) -> (r: String)
        ensures
            r@ == (if has_suffix(self.endpoint@, TRACES_PATH@) {
                self.endpoint@
            } else {
                self.endpoint@ + TRACES_PATH@
            }),
    {
        if ends_with(self.endpoint.as_str(), TRACES_PATH) {
            self.endpoint.clone()
        } else {
            cat2(self.endpoint.as_str(), TRACES_PATH)
        }
    }

    /// What is reported where a collector cannot be reached.
    pub fn failure(&self, reason: &str) -> (r: ModuleError)
        ensures
            r@ == errors::plain_error(ErrorCode::GeneralInternalError, "OTLP export failed: "@ + reason@, r@.timestamp),
    {
        ModuleError::new(ErrorCode::GeneralInternalError, cat2("OTLP export failed: ", reason).as_str())
    }

    /// What is posted for a unit of work.
    pub fn payload(&self, span: &Span) -> (r: JsonValue)
        ensures
            r@ == field("resourceSpans"@, seq![field("scopeSpans"@, seq![field("spans"@, seq![otlp_span(*span)])])]),
    {
        let spans = list_field("spans", span_to_otlp(span));
        let scopes = list_field("scopeSpans", spans);
        list_field("resourceSpans", scopes)
    }
}

/// An object with one list.
pub open spec fn field(name: Seq<char>, items: Seq<Json>) -> Json {
    Json::Obj(Map::empty().insert(name, Json::Arr(items)))
}

fn list_field(name: &str, item: JsonValue) -> (r: JsonValue)
    ensures
        r@ == field(name@, seq![item@]),
{
    broadcast use crate::json::lemma_value_view;

    let ghost v = item@;
    let mut items: Vec<JsonValue> = Vec::new();
    items.push(item);
    assert(json::values_view(items@) =~= seq![v]);
    let mut m = empty_object();
    put(&mut m, name, JsonValue::Array(items));
    JsonValue::Object(m)
}

/// Milliseconds as nanoseconds in 64 bits.
pub open spec fn nanos_of_millis(ms: int) -> int {
    if ms <= 0 {
        0
    } else if ms * 1_000_000 > u64::MAX {
        u64::MAX as int
    } else {
        ms * 1_000_000
    }
}

fn to_nanos(ms: i64) -> (r: u64)
    ensures
        r == nanos_of_millis(ms as int),
{
    if ms <= 0 {
        0
    } else {
        let n: u128 = ms as u128 * 1_000_000;
        if n > 0xffff_ffff_ffff_ffff {
            u64::MAX
        } else {
            n as u64
        }
    }
}

/// The number of a status.
pub open spec fn status_code(s: SpanStatus) -> int {
    match s {
        SpanStatus::Unset => 0,
        SpanStatus::Okay => 1,
        SpanStatus::Error => 2,
    }
}

/// One attribute, its value as JSON text.
pub open spec fn otlp_attribute(key: Seq<char>, value: Json) -> Json {
    Json::Obj(
        Map::empty().insert("key"@, Json::Str(key)).insert(
            "value"@,
            Json::Obj(Map::empty().insert("stringValue"@, Json::Str(json::json_text(json::held(value))))),
        ),
    )
}

/// The attributes.
pub open spec fn otlp_attributes(p: Seq<(Seq<char>, JsonValue)>) -> Seq<Json> {
    Seq::new(p.len(), |i: int| otlp_attribute(p[i].0, p[i].1@))
}

/// A unit of work in the JSON form of OTLP.
pub open spec fn otlp_span(s: Span) -> Json {
    let base = Map::empty().insert("traceId"@, Json::Str(s.trace_id@)).insert("spanId"@, Json::Str(s.span_id@)).insert(
        "name"@,
        Json::Str(s.name@),
    ).insert("startTimeUnixNano"@, Json::PosInt(nanos_of_millis(s.start_ms as int))).insert(
        "status"@,
        Json::Obj(Map::empty().insert("code"@, Json::PosInt(status_code(s.status)))),
    ).insert("attributes"@, Json::Arr(otlp_attributes(s.attributes.pairs())));
    let with_parent = match s.parent_span_id {
        Some(p) => base.insert("parentSpanId"@, Json::Str(p@)),
        None => base,
    };
    Json::Obj(
        match s.end_ms {
            Some(e) => with_parent.insert("endTimeUnixNano"@, Json::PosInt(nanos_of_millis(e as int))),
            None => with_parent,
        },
    )
}

fn write_attributes(m: &StrMap<JsonValue>) -> (r: Vec<JsonValue>)
    ensures
        json::values_view(r@) == otlp_attributes(m.pairs()),
{
    let n: usize = m.len();
    let ghost p = m.pairs();
    let mut out: Vec<JsonValue> = Vec::new();
    let mut i: usize = 0;
    while i < n
        invariant
            i <= n,
            n == p.len(),
            p == m.pairs(),
            out@.len() == i,
            forall|j: int| 0 <= j < i ==> (#[trigger] out@[j])@ == otlp_attribute(p[j].0, p[j].1@),
        decreases n - i,
    {
        broadcast use crate::json::lemma_value_view;

        let mut value = empty_object();
        put(&mut value, "stringValue", JsonValue::String(to_text(m.value_at(i))));
        let mut entry = empty_object();
        put(&mut entry, "key", JsonValue::str(m.key_at(i).as_str()));
        put(&mut entry, "value", JsonValue::Object(value));
        out.push(JsonValue::Object(entry));
        i = i + 1;
    }
    assert(json::values_view(out@) =~= otlp_attributes(p));
    out
}

/// A unit of work in the JSON form of OTLP.
pub fn span_to_otlp(span: &Span) -> (r: JsonValue)
    ensures
        r@ == otlp_span(*span),
{
    broadcast use crate::json::lemma_value_view;

    let mut m = empty_object();
    put(&mut m, "traceId", JsonValue::str(span.trace_id.as_str()));
    put(&mut m, "spanId", JsonValue::str(span.span_id.as_str()));
    put(&mut m, "name", JsonValue::str(span.name.as_str()));
    put(&mut m, "startTimeUnixNano", JsonValue::uint(to_nanos(span.start_ms)));
    let code: u64 = match span.status {
        SpanStatus::Unset => 0,
        SpanStatus::Okay => 1,
        SpanStatus::Error => 2,
    };
    let mut status = empty_object();
    put(&mut status, "code", JsonValue::uint(code));
    put(&mut m, "status", JsonValue::Object(status));
    put(&mut m, "attributes", JsonValue::Array(write_attributes(&span.attributes)));
    match &span.parent_span_id {
        Some(p) => put(&mut m, "parentSpanId", JsonValue::str(p.as_str())),
        None => {},
    }
    match span.end_ms {
        Some(e) => put(&mut m, "endTimeUnixNano", JsonValue::uint(to_nanos(e))),
        None => {},
    }
    JsonValue::Object(m)
}

/// An exporter in memory never keeps more units of work than it has room for,
/// and keeps the latest where it has room for one.
pub proof fn the_latest_span_is_kept(s: Seq<SpanView>, span: SpanView, n: int)
    requires
        n >= 0,
    ensures
        last_of(s.push(span), n).len() <= n,
        n > 0 ==> last_of(s.push(span), n).last() == span,
{
}

/// What is kept of a list is its end: the latest, in their order, as many as there
/// is room for.
pub proof fn the_end_of_a_list_is_kept(s: Seq<SpanView>, n: int)
    requires
        n >= 0,
    ensures
        s.len() <= n ==> last_of(s, n) == s,
        s.len() > n ==> last_of(s, n).len() == n && s == s.subrange(0, s.len() - n) + last_of(s, n),
{
    if s.len() > n {
        assert(s =~= s.subrange(0, s.len() - n) + last_of(s, n));
    }
}

/// Milliseconds are a million nanoseconds each; times before the start of the count
/// are none.
pub proof fn milliseconds_are_a_million_nanoseconds(ms: int)
    ensures
        0 <= ms && ms * 1_000_000 <= u64::MAX ==> nanos_of_millis(ms) == ms * 1_000_000,
        ms < 0 ==> nanos_of_millis(ms) == 0,
        0 <= nanos_of_millis(ms) <= u64::MAX,
{
}

/// A text ends with another exactly where it is something followed by the other.
pub proof fn a_suffix_follows(s: Seq<char>, p: Seq<char>, front: Seq<char>)
    ensures
        has_suffix(front + p, p),
        has_suffix(s, p) ==> s == s.subrange(0, s.len() - p.len()) + p,
{
    assert((front + p).subrange(front.len() as int, (front + p).len() as int) =~= p);
    if has_suffix(s, p) {
        assert(s =~= s.subrange(0, s.len() - p.len()) + p);
    }
}

/// An attribute is written with its key, and its value as JSON text.
pub proof fn an_attribute_is_written_whole(key: Seq<char>, value: Json)
    ensures
        json::json_get(otlp_attribute(key, value), "key"@) == Some(Json::Str(key)),
        json::json_get(otlp_attribute(key, value), "value"@) matches Some(v) && json::json_get(v, "stringValue"@) == Some(
            Json::Str(json::json_text(json::held(value))),
        ),
{
    reveal_strlit("key");
    reveal_strlit("value");
    assert("key"@.len() == 3 && "value"@.len() == 5);
}

proof fn lemma_span_names()
    ensures
        "traceId"@ != "spanId"@ && "traceId"@ != "name"@ && "traceId"@ != "startTimeUnixNano"@ && "traceId"@ != "status"@
            && "traceId"@ != "attributes"@ && "traceId"@ != "parentSpanId"@ && "traceId"@ != "endTimeUnixNano"@,
        "spanId"@ != "name"@ && "spanId"@ != "startTimeUnixNano"@ && "spanId"@ != "status"@ && "spanId"@ != "attributes"@
            && "spanId"@ != "parentSpanId"@ && "spanId"@ != "endTimeUnixNano"@,
        "name"@ != "startTimeUnixNano"@ && "name"@ != "status"@ && "name"@ != "attributes"@ && "name"@ != "parentSpanId"@
            && "name"@ != "endTimeUnixNano"@,
        "startTimeUnixNano"@ != "status"@ && "startTimeUnixNano"@ != "attributes"@ && "startTimeUnixNano"@ != "parentSpanId"@
            && "startTimeUnixNano"@ != "endTimeUnixNano"@,
        "status"@ != "attributes"@ && "status"@ != "parentSpanId"@ && "status"@ != "endTimeUnixNano"@,
        "attributes"@ != "parentSpanId"@ && "attributes"@ != "endTimeUnixNano"@,
        "parentSpanId"@ != "endTimeUnixNano"@,
{
    reveal_strlit("traceId");
    reveal_strlit("spanId");
    reveal_strlit("name");
    reveal_strlit("startTimeUnixNano");
    reveal_strlit("status");
    reveal_strlit("attributes");
    reveal_strlit("parentSpanId");
    reveal_strlit("endTimeUnixNano");
    assert("traceId"@.len() == 7 && "spanId"@.len() == 6 && "name"@.len() == 4 && "startTimeUnixNano"@.len() == 17);
    assert("status"@.len() == 6 && "attributes"@.len() == 10 && "parentSpanId"@.len() == 12 && "endTimeUnixNano"@.len() == 15);
    assert("spanId"@[1] != "status"@[1]);
}

/// A span is written with its identifiers, its name, its times in nanoseconds, its
/// status and every attribute.
pub proof fn a_span_is_written_whole(s: Span)
    ensures
        ({
            let r = otlp_span(s);
            &&& json::json_get(r, "traceId"@) == Some(Json::Str(s.trace_id@))
            &&& json::json_get(r, "spanId"@) == Some(Json::Str(s.span_id@))
            &&& json::json_get(r, "name"@) == Some(Json::Str(s.name@))
            &&& json::json_get(r, "startTimeUnixNano"@) == Some(Json::PosInt(nanos_of_millis(s.start_ms as int)))
            &&& s.end_ms matches Some(e) ==> json::json_get(r, "endTimeUnixNano"@) == Some(
                Json::PosInt(nanos_of_millis(e as int)),
            )
            &&& s.end_ms is None ==> json::json_get(r, "endTimeUnixNano"@) is None
            &&& s.parent_span_id matches Some(p) ==> json::json_get(r, "parentSpanId"@) == Some(Json::Str(p@))
            &&& s.parent_span_id is None ==> json::json_get(r, "parentSpanId"@) is None
            &&& json::json_get(r, "status"@) matches Some(x) && json::json_get(x, "code"@) == Some(
                Json::PosInt(
                    match s.status {
                        SpanStatus::Unset => 0,
                        SpanStatus::Okay => 1,
                        SpanStatus::Error => 2,
                    },
                ),
            )
            &&& json::json_get(r, "attributes"@) matches Some(Json::Arr(a)) && a.len() == s.attributes.pairs().len() && forall|
                i: int,
            |
                0 <= i < a.len() ==> #[trigger] a[i] == otlp_attribute(s.attributes.pairs()[i].0, s.attributes.pairs()[i].1@)
        }),
{
    lemma_span_names();
}

/// A span that ended well has the status code 1, one that failed the code 2, and
/// any other the code 0.
pub proof fn statuses_have_codes()
    ensures
        status_code(SpanStatus::Unset) == 0,
        status_code(SpanStatus::Okay) == 1,
        status_code(SpanStatus::Error) == 2,
{
}

} // verus!
