//! A circuit breaker for each subscriber.
use vstd::prelude::*;
use vstd::string::*;
use crate::clock::Timestamp;
use crate::events::event::{ApCoreEvent, EventView};
use crate::json::{empty_object, Json, JsonValue, put};
use crate::text::to_chars;
use crate::clock;
use crate::json;

verus! {

/// State of a circuit.
#[derive(Debug, Clone, Copy, PartialEq, Eq, Structural)]
pub enum CircuitState {
    Closed,
    Open,
    HalfOpen,
}

/// The name of a state.
pub open spec fn circuit_state_name(s: CircuitState) -> Seq<char> {
    match s {
        CircuitState::Closed => "CLOSED"@,
        CircuitState::Open => "OPEN"@,
        CircuitState::HalfOpen => "HALF_OPEN"@,
    }
}

impl CircuitState {
    /// The name of the state.
    pub fn as_str(self) -> (r: &'static str)
        ensures
            r@ == circuit_state_name(self),
    {
        match self {
            CircuitState::Closed => "CLOSED",
            CircuitState::Open => "OPEN",
            CircuitState::HalfOpen => "HALF_OPEN",
        }
    }
}

/// Time that a delivery may take.
pub const DEFAULT_TIMEOUT_MS: u64 = 5000;

/// Failures in a row that open a circuit.
pub const DEFAULT_OPEN_THRESHOLD: u32 = 5;

/// Time that a circuit stays open before it probes.
pub const DEFAULT_RECOVERY_WINDOW_MS: u64 = 60_000;

/// How a delivery ended.
#[derive(Debug)]
pub enum DeliveryOutcome {
    Delivered,
    Failed,
    TimedOut,
}

/// A breaker around a subscriber: after too many failures in a row events are
/// dropped, until a probe after some time succeeds.
#[derive(Debug)]
pub struct CircuitBreakerWrapper {
    pub timeout_ms: u64,
    pub open_threshold: u32,
    pub recovery_window_ms: u64,
    pub state: CircuitState,
    pub consecutive_failures: u32,
    /// Time of the last failure; none before the first and after a recovery.
    pub last_failure_at: Option<Timestamp>,
    pub subscriber_type_name: String,
}

/// The mathematical contents of a breaker.
#[verifier::ext_equal]
pub struct BreakerView {
    pub timeout_ms: u64,
    pub open_threshold: u32,
    pub recovery_window_ms: u64,
    pub state: CircuitState,
    pub consecutive_failures: u32,
    pub last_failure_at: Option<Timestamp>,
    pub subscriber_type_name: Seq<char>,
}

impl View for CircuitBreakerWrapper {
    type V = BreakerView;

    open spec fn view(&self) -> BreakerView {
        BreakerView {
            timeout_ms: self.timeout_ms,
            open_threshold: self.open_threshold,
            recovery_window_ms: self.recovery_window_ms,
            state: self.state,
            consecutive_failures: self.consecutive_failures,
            last_failure_at: self.last_failure_at,
            subscriber_type_name: self.subscriber_type_name@,
        }
    }
}

/// The part of a text before its first hyphen, or the whole text without one.
pub open spec fn before_hyphen(s: Seq<char>) -> Seq<char>
    decreases s.len(),
{
    if s.len() == 0 || s[0] == '-' {
        Seq::empty()
    } else {
        seq![s[0]] + before_hyphen(s.skip(1))
    }
}

/// The subscriber type that an identifier suggests: its part before the first
/// hyphen.
pub fn guess_subscriber_type_name(subscriber_id: &str) -> (r: String)
    ensures
        r@ == before_hyphen(subscriber_id@),
{
    let c = to_chars(subscriber_id);
    let mut out = String::new();
    let mut i: usize = 0;
    assert(c@.skip(0) =~= subscriber_id@);
    assert(before_hyphen(subscriber_id@) =~= out@ + before_hyphen(c@.skip(0)));
    while i < c.len()
        invariant
            i <= c.len(),
            c@ == subscriber_id@,
            before_hyphen(subscriber_id@) == out@ + before_hyphen(c@.skip(i as int)),
        decreases c.len() - i,
    {
        let ghost rest = c@.skip(i as int);
        if c[i] == '-' {
            assert(before_hyphen(rest) == Seq::<char>::empty());
            assert(out@ + Seq::<char>::empty() =~= out@);
            return out;
        }
        let ghost before = out@;
        out.push(c[i]);
        i = i + 1;
        proof {
            assert(rest.skip(1) =~= c@.skip(i as int));
            assert(out@ + before_hyphen(rest.skip(1)) =~= before + (seq![rest[0]] + before_hyphen(rest.skip(1))));
        }
    }
    assert(out@ + Seq::<char>::empty() =~= out@);
    out
}

/// Whether an open circuit has waited long enough to probe.
pub open spec fn may_probe(b: BreakerView, now: Timestamp) -> bool {
    b.state == CircuitState::Open && match b.last_failure_at {
        Some(last) => clock::millis_between(last, now) >= b.recovery_window_ms,
        None => false,
    }
}

/// The breaker after a look at the clock.
pub open spec fn after_recovery_check(b: BreakerView, now: Timestamp) -> BreakerView {
    if may_probe(b, now) {
        BreakerView { state: CircuitState::HalfOpen, ..b }
    } else {
        b
    }
}

/// The breaker after a delivery. A recovery forgets the last failure.
pub open spec fn after_delivery(b: BreakerView) -> BreakerView {
    BreakerView {
        state: CircuitState::Closed,
        consecutive_failures: 0,
        last_failure_at: if b.state == CircuitState::Closed {
            b.last_failure_at
        } else {
            None
        },
        ..b
    }
}

/// Whether one more failure opens the circuit.
pub open spec fn failure_opens(b: BreakerView) -> bool {
    match b.state {
        CircuitState::HalfOpen => true,
        CircuitState::Closed => b.consecutive_failures + 1 >= b.open_threshold,
        CircuitState::Open => false,
    }
}

/// The breaker after a failure.
pub open spec fn after_delivery_failure(b: BreakerView, now: Timestamp) -> BreakerView {
    BreakerView {
        state: if failure_opens(b) {
            CircuitState::Open
        } else {
            b.state
        },
        consecutive_failures: (b.consecutive_failures + 1) as u32,
        last_failure_at: Some(now),
        ..b
    }
}

/// The event that tells that a circuit has closed.
pub open spec fn closed_event(name: Seq<char>, now: Timestamp) -> EventView {
    EventView {
        event_type: "apcore.subscriber.circuit_closed"@,
        timestamp: clock::offset_time_text(now),
        data: Json::Obj(map!["subscriber_type"@ => Json::Str(name), "recovery_attempt"@ => Json::Bool(true)]),
        module_id: None,
        severity: "info"@,
    }
}

/// The event that tells that a circuit has opened.
pub open spec fn opened_event(name: Seq<char>, count: int, now: Timestamp) -> EventView {
    EventView {
        event_type: "apcore.subscriber.circuit_opened"@,
        timestamp: clock::offset_time_text(now),
        data: Json::Obj(map!["subscriber_type"@ => Json::Str(name), "consecutive_failures"@ => Json::PosInt(count)]),
        module_id: None,
        severity: "warn"@,
    }
}

impl CircuitBreakerWrapper {
    /// A closed breaker with the default settings.
    pub fn new(subscriber_id: &str) -> (r: Self)
        ensures
            r@ == (BreakerView {
                timeout_ms: 5000,
                open_threshold: 5,
                recovery_window_ms: 60_000,
                state: CircuitState::Closed,
                consecutive_failures: 0,
                last_failure_at: None,
                subscriber_type_name: before_hyphen(subscriber_id@),
            }),
    {
        CircuitBreakerWrapper {
            timeout_ms: DEFAULT_TIMEOUT_MS,
            open_threshold: DEFAULT_OPEN_THRESHOLD,
            recovery_window_ms: DEFAULT_RECOVERY_WINDOW_MS,
            state: CircuitState::Closed,
            consecutive_failures: 0,
            last_failure_at: None,
            subscriber_type_name: guess_subscriber_type_name(subscriber_id),
        }
    }

    /// Set the time that a delivery may take.
    pub fn with_timeout_ms(self, ms: u64) -> (r: Self)
        ensures
            r@ == (BreakerView { timeout_ms: ms, ..self@ }),
    {
        CircuitBreakerWrapper { timeout_ms: ms, ..self }
    }

    /// Set the number of failures in a row that opens the circuit.
    pub fn with_open_threshold(self, n: u32) -> (r: Self)
        ensures
            r@ == (BreakerView { open_threshold: n, ..self@ }),
    {
        CircuitBreakerWrapper { open_threshold: n, ..self }
    }

    /// Set the time that the circuit stays open before it probes.
    pub fn with_recovery_window_ms(self, ms: u64) -> (r: Self)
        ensures
            r@ == (BreakerView { recovery_window_ms: ms, ..self@ }),
    {
        CircuitBreakerWrapper { recovery_window_ms: ms, ..self }
    }

    /// Set the subscriber type that the breaker's events name.
    pub fn with_subscriber_type_name(self, name: &str) -> (r: Self)
        ensures
            r@ == (BreakerView { subscriber_type_name: name@, ..self@ }),
    {
        CircuitBreakerWrapper { subscriber_type_name: name.to_owned(), ..self }
    }

    /// The state of the circuit.
    pub fn state(&self) -> (r: CircuitState)
        ensures
            r == self@.state,
    {
        self.state
    }

    /// The number of failures in a row.
    pub fn consecutive_failures(&self) -> (r: u32)
        ensures
            r == self@.consecutive_failures,
    {
        self.consecutive_failures
    }

    /// The time of the last failure.
    pub fn last_failure_at(&self) -> (r: Option<Timestamp>)
        ensures
            r == self@.last_failure_at,
    {
        self.last_failure_at
    }

    /// Set the state.
    pub fn force_state(&mut self, state: CircuitState)
        ensures
            final(self)@ == (BreakerView { state, ..old(self)@ }),
    {
        self.state = state;
    }

    /// Set the time of the last failure.
    pub fn force_last_failure_at(&mut self, t: Option<Timestamp>)
        ensures
            final(self)@ == (BreakerView { last_failure_at: t, ..old(self)@ }),
    {
        self.last_failure_at = t;
    }

    /// Set the number of failures in a row.
    pub fn force_consecutive_failures(&mut self, n: u32)
        ensures
            final(self)@ == (BreakerView { consecutive_failures: n, ..old(self)@ }),
    {
        self.consecutive_failures = n;
    }

    /// Let an open circuit probe where it has waited long enough.
    pub fn check_recovery(&mut self, now: Timestamp)
        ensures
            final(self)@ == after_recovery_check(old(self)@, now),
    {
        if self.state != CircuitState::Open {
            return;
        }
        match self.last_failure_at {
            Some(last) => {
                if now.millis_since(&last) >= self.recovery_window_ms {
                    self.state = CircuitState::HalfOpen;
                }
            },
            None => {},
        }
    }

    /// Whether an event is to be delivered now; with an open circuit it is
    /// dropped.
    pub fn delivers(&mut self, now: Timestamp) -> (r: bool)
        ensures
            final(self)@ == after_recovery_check(old(self)@, now),
            r == (final(self)@.state != CircuitState::Open),
    {
        self.check_recovery(now);
        self.state != CircuitState::Open
    }

    /// Record a delivery; the event tells that the circuit has closed, where a
    /// probe has closed it.
    pub fn on_success(&mut self, now: Timestamp) -> (r: Option<ApCoreEvent>)
        ensures
            final(self)@ == after_delivery(old(self)@),
            match r {
                Some(e) => old(self)@.state == CircuitState::HalfOpen && e@ == closed_event(
                    old(self)@.subscriber_type_name,
                    now,
                ),
                None => old(self)@.state != CircuitState::HalfOpen,
            },
    {
        broadcast use crate::json::lemma_value_view;
        let was = self.state;
        if was != CircuitState::Closed {
            self.last_failure_at = None;
        }
        self.state = CircuitState::Closed;
        self.consecutive_failures = 0;
        if was == CircuitState::HalfOpen {
            let mut m = empty_object();
            put(&mut m, "subscriber_type", JsonValue::str(self.subscriber_type_name.as_str()));
            put(&mut m, "recovery_attempt", JsonValue::Bool(true));
            Some(ApCoreEvent::at("apcore.subscriber.circuit_closed", JsonValue::Object(m), None, "info", now))
        } else {
            None
        }
    }

    /// Record a failure; the event tells that the circuit has opened, where this
    /// failure has opened it.
    pub fn on_failure(&mut self, now: Timestamp) -> (r: Option<ApCoreEvent>)
        requires
            old(self)@.consecutive_failures < u32::MAX,
        ensures
            final(self)@ == after_delivery_failure(old(self)@, now),
            match r {
                Some(e) => failure_opens(old(self)@) && e@ == opened_event(
                    old(self)@.subscriber_type_name,
                    old(self)@.consecutive_failures + 1,
                    now,
                ),
                None => !failure_opens(old(self)@),
            },
    {
        broadcast use crate::json::lemma_value_view;
        let count: u32 = self.consecutive_failures + 1;
        self.consecutive_failures = count;
        self.last_failure_at = Some(now);
        let opens = match self.state {
            CircuitState::HalfOpen => true,
            CircuitState::Closed => count >= self.open_threshold,
            CircuitState::Open => false,
        };
        if !opens {
            return None;
        }
        self.state = CircuitState::Open;
        let mut m = empty_object();
        put(&mut m, "subscriber_type", JsonValue::str(self.subscriber_type_name.as_str()));
        put(&mut m, "consecutive_failures", JsonValue::uint(count as u64));
        Some(ApCoreEvent::at("apcore.subscriber.circuit_opened", JsonValue::Object(m), None, "warn", now))
    }

    /// Record how a delivery ended; a delivery that took too long counts as a
    /// failure.
    pub fn settle(&mut self, outcome: DeliveryOutcome, now: Timestamp) -> (r: Option<ApCoreEvent>)
        requires
            old(self)@.consecutive_failures < u32::MAX,
        ensures
            final(self)@ == (if outcome is Delivered {
                after_delivery(old(self)@)
            } else {
                after_delivery_failure(old(self)@, now)
            }),
            match r {
                Some(e) => if outcome is Delivered {
                    old(self)@.state == CircuitState::HalfOpen && e@ == closed_event(old(self)@.subscriber_type_name, now)
                } else {
                    failure_opens(old(self)@) && e@ == opened_event(
                        old(self)@.subscriber_type_name,
                        old(self)@.consecutive_failures + 1,
                        now,
                    )
                },
                None => if outcome is Delivered {
                    old(self)@.state != CircuitState::HalfOpen
                } else {
                    !failure_opens(old(self)@)
                },
            },
    {
        match outcome {
            DeliveryOutcome::Delivered => self.on_success(now),
            DeliveryOutcome::Failed => self.on_failure(now),
            DeliveryOutcome::TimedOut => self.on_failure(now),
        }
    }
}

/// The breaker after as many failures in a row, at these times.
pub open spec fn after_failures(b: BreakerView, times: Seq<Timestamp>) -> BreakerView
    decreases times.len(),
{
    if times.len() == 0 {
        b
    } else {
        after_delivery_failure(after_failures(b, times.drop_last()), times.last())
    }
}

/// A closed breaker without failures opens after exactly as many failures in a
/// row as its threshold says, and not before.
pub proof fn opens_at_the_threshold(b: BreakerView, times: Seq<Timestamp>)
    requires
        b.state == CircuitState::Closed,
        b.consecutive_failures == 0,
        1 <= times.len() <= b.open_threshold,
    ensures
        after_failures(b, times).consecutive_failures == times.len(),
        after_failures(b, times).open_threshold == b.open_threshold,
        after_failures(b, times).state == CircuitState::Open <==> times.len() == b.open_threshold,
        after_failures(b, times).state != CircuitState::HalfOpen,
    decreases times.len(),
{
    if times.len() > 1 {
        opens_at_the_threshold(b, times.drop_last());
    } else {
        assert(times.drop_last().len() == 0);
        assert(after_failures(b, times.drop_last()) == b);
    }
}

/// An open breaker drops every event until the recovery time has gone by since
/// the last failure, and dropping changes nothing.
pub proof fn open_drops_until_recovery(b: BreakerView, now: Timestamp)
    requires
        b.state == CircuitState::Open,
        b.last_failure_at matches Some(last) ==> clock::millis_between(last, now) < b.recovery_window_ms,
    ensures
        after_recovery_check(b, now) == b,
{
}

/// A probe decides: success closes the circuit and forgets its failures, failure
/// opens it for another recovery time.
pub proof fn a_probe_closes_or_reopens(b: BreakerView, now: Timestamp)
    requires
        b.state == CircuitState::HalfOpen,
        b.consecutive_failures < u32::MAX,
    ensures
        after_delivery(b).state == CircuitState::Closed,
        after_delivery(b).consecutive_failures == 0,
        after_delivery(b).last_failure_at is None,
        after_delivery_failure(b, now).state == CircuitState::Open,
        after_delivery_failure(b, now).last_failure_at == Some(now),
{
}

/// A failure is counted and dated; it opens a circuit that is half open, and a
/// closed one where the failures in a row have reached the threshold.
pub proof fn a_failure_is_counted(b: BreakerView, now: Timestamp)
    requires
        b.consecutive_failures < u32::MAX,
    ensures
        ({
            let r = after_delivery_failure(b, now);
            &&& r.consecutive_failures == b.consecutive_failures + 1
            &&& r.last_failure_at == Some(now)
            &&& r.state == CircuitState::Open <==> b.state == CircuitState::Open || b.state == CircuitState::HalfOpen
                || b.consecutive_failures + 1 >= b.open_threshold
            &&& r.state != CircuitState::Open ==> r.state == CircuitState::Closed
            &&& r.open_threshold == b.open_threshold && r.recovery_window_ms == b.recovery_window_ms && r.timeout_ms
                == b.timeout_ms
        }),
{
}

/// A delivery closes the circuit and starts the count of failures in a row anew:
/// it takes as many failures as the threshold to open again.
pub proof fn a_delivery_starts_anew(b: BreakerView, times: Seq<Timestamp>)
    requires
        1 <= times.len() <= b.open_threshold,
    ensures
        after_delivery(b).state == CircuitState::Closed,
        after_delivery(b).consecutive_failures == 0,
        after_failures(after_delivery(b), times).state == CircuitState::Open <==> times.len() == b.open_threshold,
{
    opens_at_the_threshold(after_delivery(b), times);
}

/// An open circuit probes exactly where the time since its last failure is at
/// least the recovery time; nothing else changes by the check.
pub proof fn an_open_circuit_probes_in_time(b: BreakerView, now: Timestamp, last: Timestamp)
    requires
        b.state == CircuitState::Open,
        b.last_failure_at == Some(last),
    ensures
        ({
            let r = after_recovery_check(b, now);
            &&& clock::millis_between(last, now) >= b.recovery_window_ms ==> r.state == CircuitState::HalfOpen
            &&& clock::millis_between(last, now) < b.recovery_window_ms ==> r.state == CircuitState::Open
            &&& r.consecutive_failures == b.consecutive_failures && r.last_failure_at == b.last_failure_at
        }),
{
}

/// A circuit that is not open is not changed by the check.
pub proof fn only_an_open_circuit_probes(b: BreakerView, now: Timestamp)
    requires
        b.state != CircuitState::Open || b.last_failure_at is None,
    ensures
        after_recovery_check(b, now) == b,
{
}

/// The name of the kind of a subscriber is what stands before the first hyphen of
/// its identifier.
pub proof fn the_kind_stands_before_the_hyphen(s: Seq<char>)
    ensures
        before_hyphen(s).len() <= s.len(),
        before_hyphen(s) == s.subrange(0, before_hyphen(s).len() as int),
        !before_hyphen(s).contains('-'),
        before_hyphen(s).len() < s.len() ==> s[before_hyphen(s).len() as int] == '-',
    decreases s.len(),
{
    if s.len() > 0 && s[0] != '-' {
        let t = s.skip(1);
        the_kind_stands_before_the_hyphen(t);
        let r = before_hyphen(s);
        assert(r =~= s.subrange(0, r.len() as int));
        if r.contains('-') {
            let k = choose|k: int| 0 <= k < r.len() && r[k] == '-';
            assert(k > 0 && before_hyphen(t)[k - 1] == '-');
        }
    }
}

/// The events of a circuit name the subscriber, and the opening tells how many
/// failures there were.
pub proof fn circuit_events_name_the_subscriber(name: Seq<char>, count: int, now: Timestamp)
    ensures
        ({
            let o = opened_event(name, count, now);
            let c = closed_event(name, now);
            &&& o.event_type == "apcore.subscriber.circuit_opened"@ && o.severity == "warn"@
            &&& json::json_get(o.data, "subscriber_type"@) == Some(Json::Str(name))
            &&& json::json_get(o.data, "consecutive_failures"@) == Some(Json::PosInt(count))
            &&& c.event_type == "apcore.subscriber.circuit_closed"@ && c.severity == "info"@
            &&& json::json_get(c.data, "subscriber_type"@) == Some(Json::Str(name))
        }),
{
    reveal_strlit("subscriber_type");
    reveal_strlit("consecutive_failures");
    reveal_strlit("recovery_attempt");
    assert("subscriber_type"@.len() == 15 && "consecutive_failures"@.len() == 20 && "recovery_attempt"@.len() == 16);
}

} // verus!
