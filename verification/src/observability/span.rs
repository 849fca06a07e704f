//! Spans: units of work in a trace.
use vstd::prelude::*;
use vstd::string::*;
use crate::clock::Timestamp;
use crate::errors::clone_object;
use crate::ids::random_span_id;
use crate::json::{empty_object, Json, JsonValue, put};
use crate::strmap::StrMap;
use crate::text::clone_opt;
use crate::clock;
use crate::ids;
use crate::json;
use crate::text;

verus! {

/// How a unit of work went.
#[derive(Debug, Clone, Copy, PartialEq, Eq, Structural)]
pub enum SpanStatus {
    Unset,
    Okay,
    Error,
}

/// Something that happened during a unit of work.
#[derive(Debug)]
pub struct SpanEvent {
    pub name: String,
    pub timestamp: Timestamp,
    pub attributes: StrMap<JsonValue>,
}

/// The mathematical contents of an event.
#[verifier::ext_equal]
pub struct SpanEventView {
    pub name: Seq<char>,
    pub timestamp: Timestamp,
    pub attributes: Map<Seq<char>, Json>,
}

impl View for SpanEvent {
    type V = SpanEventView;

    open spec fn view(&self) -> SpanEventView {
        SpanEventView { name: self.name@, timestamp: self.timestamp, attributes: json::object_view(self.attributes) }
    }
}

/// The contents of events.
pub open spec fn span_events(s: Seq<SpanEvent>) -> Seq<SpanEventView> {
    Seq::new(s.len(), |i: int| s[i]@)
}

/// A unit of work. Its times are milliseconds since the start of 1970.
#[derive(Debug)]
pub struct Span {
    pub trace_id: String,
    pub span_id: String,
    pub parent_span_id: Option<String>,
    pub name: String,
    pub start_ms: i64,
    pub end_ms: Option<i64>,
    pub attributes: StrMap<JsonValue>,
    pub events: Vec<SpanEvent>,
    pub status: SpanStatus,
}

/// The mathematical contents of a unit of work.
#[verifier::ext_equal]
pub struct SpanView {
    pub trace_id: Seq<char>,
    pub span_id: Seq<char>,
    pub parent_span_id: Option<Seq<char>>,
    pub name: Seq<char>,
    pub start_ms: i64,
    pub end_ms: Option<i64>,
    pub attributes: Map<Seq<char>, Json>,
    pub events: Seq<SpanEventView>,
    pub status: SpanStatus,
}

impl View for Span {
    type V = SpanView;

    open spec fn view(&self) -> SpanView {
        SpanView {
            trace_id: self.trace_id@,
            span_id: self.span_id@,
            parent_span_id: text::opt_text(self.parent_span_id),
            name: self.name@,
            start_ms: self.start_ms,
            end_ms: self.end_ms,
            attributes: json::object_view(self.attributes),
            events: span_events(self.events@),
            status: self.status,
        }
    }
}

/// The contents of units of work.
pub open spec fn spans_view(s: Seq<Span>) -> Seq<SpanView> {
    Seq::new(s.len(), |i: int| s[i]@)
}

/// The whole milliseconds from the start of 1970 to a point in time.
pub open spec fn epoch_millis(t: Timestamp) -> int {
    t.secs * 1000 + t.nanos as int / 1_000_000
}

/// A new unit of work.
pub open spec fn started(name: Seq<char>, trace_id: Seq<char>, span_id: Seq<char>, at: Timestamp) -> SpanView {
    SpanView {
        trace_id,
        span_id,
        parent_span_id: None,
        name,
        start_ms: epoch_millis(at) as i64,
        end_ms: None,
        attributes: Map::empty(),
        events: Seq::empty(),
        status: SpanStatus::Unset,
    }
}

fn millis_of(at: &Timestamp) -> (r: i64)
    requires
        clock::in_calendar(*at),
    ensures
        r == epoch_millis(*at),
{
    at.secs * 1000 + (at.nanos / 1_000_000) as i64
}

impl Span {
    /// A new unit of work that starts now, with a random identifier.
    pub fn new(name: &str, trace_id: &str) -> (r: Self)
        ensures
            ids::is_hex(r@.span_id, 16),
            exists|at: Timestamp| clock::in_calendar(at) && r@ == #[trigger] started(name@, trace_id@, r@.span_id, at),
    {
        let now = Timestamp::now();
        let r = Span::new_at(name, trace_id, random_span_id(), &now);
        assert(clock::in_calendar(now) && r@ == started(name@, trace_id@, r@.span_id, now));
        r
    }

    /// A new unit of work that starts at a point in time.
    pub fn new_at(name: &str, trace_id: &str, span_id: String, at: &Timestamp) -> (r: Self)
        requires
            clock::in_calendar(*at),
        ensures
            r@ == started(name@, trace_id@, span_id@, *at),
    {
        let events: Vec<SpanEvent> = Vec::new();
        assert(span_events(events@) =~= Seq::empty());
        Span {
            trace_id: trace_id.to_owned(),
            span_id,
            parent_span_id: None,
            name: name.to_owned(),
            start_ms: millis_of(at),
            end_ms: None,
            attributes: empty_object(),
            events,
            status: SpanStatus::Unset,
        }
    }

    /// The unit of work ends now.
    pub fn end(&mut self)
        ensures
            exists|at: Timestamp|
                clock::in_calendar(at) && final(self)@ == (SpanView { end_ms: Some(#[trigger] epoch_millis(at) as i64), ..old(self)@ }),
    {
        let now = Timestamp::now();
        self.end_at(&now);
        assert(epoch_millis(now) as i64 == epoch_millis(now));
    }

    /// The unit of work ends at a point in time.
    pub fn end_at(&mut self, at: &Timestamp)
        requires
            clock::in_calendar(*at),
        ensures
            final(self)@ == (SpanView { end_ms: Some(epoch_millis(*at) as i64), ..old(self)@ }),
    {
        self.end_ms = Some(millis_of(at));
    }

    /// Set an attribute.
    pub fn set_attribute(&mut self, key: &str, value: JsonValue)
        ensures
            final(self)@ == (SpanView { attributes: old(self)@.attributes.insert(key@, value@), ..old(self)@ }),
    {
        put(&mut self.attributes, key, value);
    }

    /// Add an event that happens now.
    pub fn add_event(&mut self, name: &str)
        ensures
            exists|at: Timestamp|
                final(self)@ == #[trigger] with_event(old(self)@, name@, at, Map::<Seq<char>, Json>::empty()),
    {
        self.add_event_with_attributes(name, empty_object());
    }

    /// Add an event with attributes that happens now.
    pub fn add_event_with_attributes(&mut self, name: &str, attributes: StrMap<JsonValue>)
        ensures
            exists|at: Timestamp| final(self)@ == #[trigger] with_event(old(self)@, name@, at, json::object_view(attributes)),
    {
        self.add_event_at(name, attributes, &Timestamp::now());
    }

    /// Add an event with attributes at a point in time.
    pub fn add_event_at(&mut self, name: &str, attributes: StrMap<JsonValue>, at: &Timestamp)
        ensures
            final(self)@ == with_event(old(self)@, name@, *at, json::object_view(attributes)),
    {
        let ghost before_event = self@;
        let event = SpanEvent { name: name.to_owned(), timestamp: *at, attributes };
        let ghost e = event@;
        self.events.push(event);
        assert(self@.events =~= before_event.events.push(e));
    }
}

/// A unit of work with one more event.
pub open spec fn with_event(s: SpanView, name: Seq<char>, at: Timestamp, attributes: Map<Seq<char>, Json>) -> SpanView {
    SpanView { events: s.events.push(SpanEventView { name, timestamp: at, attributes }), ..s }
}

fn clone_events(v: &Vec<SpanEvent>) -> (r: Vec<SpanEvent>)
    ensures
        span_events(r@) == span_events(v@),
{
    let mut out: Vec<SpanEvent> = Vec::new();
    let mut i: usize = 0;
    while i < v.len()
        invariant
            i <= v.len(),
            out@.len() == i,
            forall|j: int| 0 <= j < i ==> (#[trigger] out@[j])@ == v@[j]@,
        decreases v.len() - i,
    {
        out.push(
            SpanEvent {
                name: v[i].name.clone(),
                timestamp: v[i].timestamp,
                attributes: clone_object(&v[i].attributes),
            },
        );
        i = i + 1;
    }
    assert(span_events(out@) =~= span_events(v@));
    out
}

impl Clone for Span {
    fn clone(&self) -> (r: Self)
        ensures
            r@ == self@,
    {
        Span {
            trace_id: self.trace_id.clone(),
            span_id: self.span_id.clone(),
            parent_span_id: clone_opt(&self.parent_span_id),
            name: self.name.clone(),
            start_ms: self.start_ms,
            end_ms: self.end_ms,
            attributes: clone_object(&self.attributes),
            events: clone_events(&self.events),
            status: self.status,
        }
    }
}

/// A time lies in its millisecond.
pub proof fn a_time_lies_in_its_millisecond(t: Timestamp)
    ensures
        epoch_millis(t) * 1_000_000 <= clock::nanos_of(t) < (epoch_millis(t) + 1) * 1_000_000,
{
}

/// A unit of work starts under its names, without an end, without a parent and
/// with nothing told of it yet.
pub proof fn a_span_starts_with_nothing_told(name: Seq<char>, trace_id: Seq<char>, span_id: Seq<char>, at: Timestamp)
    requires
        clock::in_calendar(at),
    ensures
        ({
            let s = started(name, trace_id, span_id, at);
            &&& s.name == name && s.trace_id == trace_id && s.span_id == span_id
            &&& s.start_ms * 1_000_000 <= clock::nanos_of(at) < (s.start_ms + 1) * 1_000_000
            &&& s.end_ms is None && s.parent_span_id is None && s.status is Unset
            &&& s.events.len() == 0
            &&& forall|k: Seq<char>| !#[trigger] s.attributes.contains_key(k)
        }),
{
}

/// An event is the last of its span, under its name, at its time and with its
/// attributes; the events before it stay.
pub proof fn an_event_comes_last(s: SpanView, name: Seq<char>, at: Timestamp, attributes: Map<Seq<char>, Json>)
    ensures
        ({
            let t = with_event(s, name, at, attributes);
            &&& t.events.len() == s.events.len() + 1
            &&& t.events.drop_last() == s.events
            &&& t.events.last().name == name && t.events.last().timestamp == at && t.events.last().attributes
                == attributes
            &&& t.attributes == s.attributes && t.status == s.status && t.start_ms == s.start_ms && t.end_ms == s.end_ms
            &&& t.name == s.name && t.trace_id == s.trace_id && t.span_id == s.span_id && t.parent_span_id
                == s.parent_span_id
        }),
{
    assert(with_event(s, name, at, attributes).events.drop_last() =~= s.events);
}

} // verus!
