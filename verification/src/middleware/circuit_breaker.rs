//! A circuit breaker per module and caller.
use vstd::prelude::*;
use vstd::string::*;
use crate::error_code::ErrorCode;
use crate::errors::ModuleError;
use crate::rate::Rate;
use crate::strmap::StrMap;
use crate::errors;
use crate::rate;

verus! {

/// Error rate at which a circuit opens by default: one half.
pub const DEFAULT_OPEN_THRESHOLD_NUM: u64 = 1;

/// Denominator of the default error rate.
pub const DEFAULT_OPEN_THRESHOLD_DEN: u64 = 2;

/// Default number of outcomes that a circuit remembers.
pub const DEFAULT_WINDOW_SIZE: usize = 20;

/// Default time that a circuit stays open before it probes.
pub const DEFAULT_RECOVERY_WINDOW_MS: u64 = 30_000;

/// Default number of outcomes before a circuit may open.
pub const DEFAULT_MIN_SAMPLES: usize = 5;

/// Default priority of the middleware.
pub const DEFAULT_PRIORITY: u16 = 900;

/// State of a circuit.
#[derive(Debug, Clone, Copy, PartialEq, Eq, Structural, Hash)]
pub enum CircuitBreakerState {
    Closed,
    Open,
    HalfOpen,
}

/// The name of a state.
pub open spec fn state_name(s: CircuitBreakerState) -> Seq<char> {
    match s {
        CircuitBreakerState::Closed => "CLOSED"@,
        CircuitBreakerState::Open => "OPEN"@,
        CircuitBreakerState::HalfOpen => "HALF_OPEN"@,
    }
}

impl CircuitBreakerState {
    /// The name of this state.
    pub fn as_str(self) -> (r: &'static str)
        ensures
            r@ == state_name(self),
    {
        match self {
            CircuitBreakerState::Closed => "CLOSED",
            CircuitBreakerState::Open => "OPEN",
            CircuitBreakerState::HalfOpen => "HALF_OPEN",
        }
    }
}

/// One circuit. Times are nanoseconds of a monotonic clock.
#[derive(Debug)]
struct Circuit {
    state: CircuitBreakerState,
    window: Vec<bool>,
    opened_at: Option<u64>,
    probe_in_flight: bool,
    probe_started_at: Option<u64>,
}

/// The mathematical contents of a circuit: its state, its recent outcomes
/// (`true` for a success), when it opened, and the probe under way.
#[verifier::ext_equal]
pub struct CircuitView {
    pub state: CircuitBreakerState,
    pub window: Seq<bool>,
    pub opened_at: Option<u64>,
    pub probe_in_flight: bool,
    pub probe_started_at: Option<u64>,
}

impl View for Circuit {
    type V = CircuitView;

    closed spec fn view(&self) -> CircuitView {
        CircuitView {
            state: self.state,
            window: self.window@,
            opened_at: self.opened_at,
            probe_in_flight: self.probe_in_flight,
            probe_started_at: self.probe_started_at,
        }
    }
}

/// A circuit that has seen nothing.
pub open spec fn fresh_circuit() -> CircuitView {
    CircuitView {
        state: CircuitBreakerState::Closed,
        window: Seq::empty(),
        opened_at: None,
        probe_in_flight: false,
        probe_started_at: None,
    }
}

/// How many outcomes a window of a given size holds: at least one.
pub open spec fn capacity(window_size: int) -> int {
    if window_size < 1 {
        1
    } else {
        window_size
    }
}

/// A window with one more outcome: the oldest leave where it is full.
pub open spec fn pushed(window: Seq<bool>, success: bool, window_size: int) -> Seq<bool> {
    let cap = capacity(window_size);
    if window.len() >= cap {
        window.subrange(window.len() - cap + 1, window.len() as int).push(success)
    } else {
        window.push(success)
    }
}

/// The number of failures in a window.
pub open spec fn failures(window: Seq<bool>) -> nat
    decreases window.len(),
{
    if window.len() == 0 {
        0
    } else {
        failures(window.drop_last()) + if window.last() {
            0nat
        } else {
            1nat
        }
    }
}

/// There are no more failures than outcomes.
pub proof fn lemma_failures_bound(window: Seq<bool>)
    ensures
        failures(window) <= window.len(),
    decreases window.len(),
{
    if window.len() > 0 {
        lemma_failures_bound(window.drop_last());
    }
}

/// A window never holds more than its capacity.
pub proof fn window_stays_bounded(window: Seq<bool>, success: bool, window_size: int)
    requires
        window.len() <= capacity(window_size),
    ensures
        pushed(window, success, window_size).len() <= capacity(window_size),
{
}

/// Whether a span of time has gone by.
pub open spec fn elapsed(since: Option<u64>, now: u64, span_ms: u64) -> bool {
    since matches Some(t) && (if now >= t {
        now - t
    } else {
        0
    }) >= span_ms * 1_000_000
}

/// A circuit as it stands at a given time: an open one whose recovery time has
/// gone by is half open, and a probe that was held as long is given up.
pub open spec fn refreshed(c: CircuitView, now: u64, recovery_ms: u64) -> CircuitView {
    let c1 = if c.state == CircuitBreakerState::Open && elapsed(c.opened_at, now, recovery_ms) {
        CircuitView {
            state: CircuitBreakerState::HalfOpen,
            probe_in_flight: false,
            probe_started_at: None,
            ..c
        }
    } else {
        c
    };
    if c1.state == CircuitBreakerState::HalfOpen && c1.probe_in_flight && elapsed(c1.probe_started_at, now, recovery_ms) {
        CircuitView { probe_in_flight: false, probe_started_at: None, ..c1 }
    } else {
        c1
    }
}

/// Whether a refreshed circuit lets a call through.
pub open spec fn admits(c: CircuitView) -> bool {
    c.state == CircuitBreakerState::Closed || (c.state == CircuitBreakerState::HalfOpen && !c.probe_in_flight)
}

/// The state that a call notes in its context: that of the circuit, or open where
/// the call is rejected.
pub open spec fn noted_state(c: CircuitView) -> CircuitBreakerState {
    if admits(c) {
        c.state
    } else {
        CircuitBreakerState::Open
    }
}

/// A circuit after a call was let through or rejected: a half-open one that
/// lets a call through has its probe under way.
pub open spec fn after_admission(c: CircuitView, now: u64, recovery_ms: u64) -> CircuitView {
    let f = refreshed(c, now, recovery_ms);
    if f.state == CircuitBreakerState::HalfOpen && !f.probe_in_flight {
        CircuitView { probe_in_flight: true, probe_started_at: Some(now), ..f }
    } else {
        f
    }
}

/// A circuit after a success: a half-open one closes and forgets its window.
pub open spec fn after_success(c: CircuitView, window_size: int) -> CircuitView {
    if c.state == CircuitBreakerState::HalfOpen {
        fresh_circuit()
    } else {
        CircuitView { window: pushed(c.window, true, window_size), ..c }
    }
}

/// Whether a failure opens a circuit.
pub open spec fn opens_on_failure(c: CircuitView, config: CircuitBreakerConfig) -> bool {
    let w = pushed(c.window, false, config.window_size as int);
    match c.state {
        CircuitBreakerState::HalfOpen => true,
        CircuitBreakerState::Closed => w.len() >= config.min_samples && rate::at_least(
            failures(w) as int,
            w.len() as int,
            config.open_threshold,
        ),
        CircuitBreakerState::Open => false,
    }
}

/// A circuit after a failure.
pub open spec fn after_failure(c: CircuitView, config: CircuitBreakerConfig, now: u64) -> CircuitView {
    let w = pushed(c.window, false, config.window_size as int);
    if opens_on_failure(c, config) {
        CircuitView {
            state: CircuitBreakerState::Open,
            window: w,
            opened_at: Some(now),
            probe_in_flight: false,
            probe_started_at: None,
        }
    } else {
        CircuitView { window: w, ..c }
    }
}

impl Circuit {
    fn new() -> (r: Self)
        ensures
            r@ == fresh_circuit(),
    {
        let r = Circuit {
            state: CircuitBreakerState::Closed,
            window: Vec::new(),
            opened_at: None,
            probe_in_flight: false,
            probe_started_at: None,
        };
        assert(r@ =~= fresh_circuit());
        r
    }

    fn push(&mut self, success: bool, window_size: usize)
        ensures
            final(self)@ == (CircuitView { window: pushed(old(self)@.window, success, window_size as int), ..old(self)@ }),
    {
        let cap: usize = if window_size < 1 {
            1
        } else {
            window_size
        };
        let ghost start = self.window@;
        let ghost others = *self;
        while self.window.len() >= cap
            invariant
                cap == capacity(window_size as int),
                self.state == others.state,
                self.opened_at == others.opened_at,
                self.probe_in_flight == others.probe_in_flight,
                self.probe_started_at == others.probe_started_at,
                self.window@.len() <= start.len(),
                self.window@.len() >= cap - 1 || self.window@ == start,
                self.window@ == start.subrange(start.len() - self.window@.len(), start.len() as int),
            decreases self.window.len(),
        {
            let ghost w = self.window@;
            let _oldest = self.window.remove(0);
            assert(self.window@ =~= start.subrange(start.len() - self.window@.len(), start.len() as int));
        }
        self.window.push(success);
        assert(self.window@ =~= pushed(start, success, window_size as int));
    }

    /// How many of the remembered outcomes are failures.
    fn failure_count(&self) -> (r: u64)
        requires
            self@.window.len() <= u64::MAX,
        ensures
            r == failures(self@.window),
    {
        let mut n: u64 = 0;
        let mut i: usize = 0;
        assert(self.window@.subrange(0, 0) =~= Seq::empty());
        while i < self.window.len()
            invariant
                i <= self.window.len(),
                n == failures(self.window@.subrange(0, i as int)),
                n <= i,
            decreases self.window.len() - i,
        {
            let ghost part = self.window@.subrange(0, i + 1);
            assert(part.drop_last() =~= self.window@.subrange(0, i as int));
            if !self.window[i] {
                n = n + 1;
            }
            i = i + 1;
        }
        assert(self.window@.subrange(0, self.window@.len() as int) =~= self.window@);
        n
    }
}

fn has_elapsed(since: Option<u64>, now: u64, span_ms: u64) -> (r: bool)
    ensures
        r == elapsed(since, now, span_ms),
{
    match since {
        Some(t) => {
            let gone: u64 = if now >= t {
                now - t
            } else {
                0
            };
            gone as u128 >= span_ms as u128 * 1_000_000
        },
        None => false,
    }
}

/// Configuration of the circuit breaker.
#[derive(Debug, Clone, Copy, PartialEq, Eq, Structural)]
pub struct CircuitBreakerConfig {
    /// A circuit opens where the error rate of its window is at least this.
    pub open_threshold: Rate,
    /// Number of outcomes that a circuit remembers.
    pub window_size: usize,
    /// Time that a circuit stays open before it probes.
    pub recovery_window_ms: u64,
    /// Number of outcomes before a circuit may open.
    pub min_samples: usize,
    /// Priority of the middleware.
    pub priority: u16,
}

/// The default configuration.
pub open spec fn default_circuit_config() -> CircuitBreakerConfig {
    CircuitBreakerConfig {
        open_threshold: Rate { num: 1, den: 2 },
        window_size: 20,
        recovery_window_ms: 30_000,
        min_samples: 5,
        priority: 900,
    }
}

impl Default for CircuitBreakerConfig {
    fn default() -> (r: Self)
        ensures
            r == default_circuit_config(),
    {
        CircuitBreakerConfig {
            open_threshold: Rate { num: DEFAULT_OPEN_THRESHOLD_NUM, den: DEFAULT_OPEN_THRESHOLD_DEN },
            window_size: DEFAULT_WINDOW_SIZE,
            recovery_window_ms: DEFAULT_RECOVERY_WINDOW_MS,
            min_samples: DEFAULT_MIN_SAMPLES,
            priority: DEFAULT_PRIORITY,
        }
    }
}

/// What a change of a circuit is reported as.
#[derive(Debug)]
pub struct CircuitEvent {
    pub event_type: &'static str,
    pub module_id: String,
    pub caller_id: String,
    pub errors: u64,
    pub samples: u64,
    pub severity: &'static str,
}

/// The circuit breaker middleware. Callers without a name share the empty one.
#[derive(Debug)]
pub struct CircuitBreakerMiddleware {
    config: CircuitBreakerConfig,
    circuits: StrMap<StrMap<Circuit>>,
}

impl CircuitBreakerMiddleware {
    /// The configuration.
    pub closed spec fn settings(self) -> CircuitBreakerConfig {
        self.config
    }

    /// The circuit of a module and a caller.
    pub closed spec fn circuit(self, module_id: Seq<char>, caller_id: Seq<char>) -> CircuitView {
        if self.circuits@.contains_key(module_id) && self.circuits@[module_id]@.contains_key(caller_id) {
            self.circuits@[module_id]@[caller_id]@
        } else {
            fresh_circuit()
        }
    }

    /// Whether two breakers agree on every circuit but one.
    pub open spec fn same_but(self, other: Self, module_id: Seq<char>, caller_id: Seq<char>) -> bool {
        self.settings() == other.settings() && forall|m: Seq<char>, c: Seq<char>|
            (m != module_id || c != caller_id) ==> #[trigger] self.circuit(m, c) == other.circuit(m, c)
    }

    /// Whether no window holds more outcomes than it has room for.
    pub open spec fn is_bounded(self) -> bool {
        self.settings().window_size >= 1 && forall|m: Seq<char>, c: Seq<char>|
            (#[trigger] self.circuit(m, c)).window.len() <= self.settings().window_size
    }

    #[verifier::type_invariant]
    spec fn well_formed(self) -> bool {
        self.is_bounded()
    }

    /// A builder with the default configuration.
    pub fn builder() -> (r: CircuitBreakerBuilder)
        ensures
            r.config == default_circuit_config(),
    {
        CircuitBreakerBuilder { config: CircuitBreakerConfig::default() }
    }

    /// A breaker with a configuration; a window of size zero counts as one.
    pub fn with_parts(config: CircuitBreakerConfig) -> (r: Self)
        ensures
            r.settings() == (CircuitBreakerConfig {
                window_size: capacity(config.window_size as int) as usize,
                ..config
            }),
            forall|m: Seq<char>, c: Seq<char>| #[trigger] r.circuit(m, c) == fresh_circuit(),
            r.is_bounded(),
    {
        let window_size: usize = if config.window_size == 0 {
            1
        } else {
            config.window_size
        };
        CircuitBreakerMiddleware { config: CircuitBreakerConfig { window_size, ..config }, circuits: StrMap::new() }
    }

    /// The name of the middleware.
    pub fn name(&self) -> (r: &'static str)
        ensures
            r@ == "circuit_breaker"@,
    {
        "circuit_breaker"
    }

    /// The priority of the middleware.
    pub fn priority(&self) -> (r: u16)
        ensures
            r == self.settings().priority,
    {
        self.config.priority
    }

    /// The state of a circuit, which this does not change.
    pub fn state(&self, module_id: &str, caller_id: &str) -> (r: CircuitBreakerState)
        ensures
            r == self.circuit(module_id@, caller_id@).state,
    {
        match self.circuits.get(module_id) {
            Some(callers) => match callers.get(caller_id) {
                Some(c) => c.state,
                None => CircuitBreakerState::Closed,
            },
            None => CircuitBreakerState::Closed,
        }
    }

    fn take_circuit(&mut self, module_id: &str, caller_id: &str) -> (r: Circuit)
        ensures
            r@ == old(self).circuit(module_id@, caller_id@),
            r@.window.len() <= old(self).settings().window_size,
            old(self).settings().window_size >= 1,
            final(self).circuit(module_id@, caller_id@) == fresh_circuit(),
            final(self).same_but(*old(self), module_id@, caller_id@),
    {
        let ghost before = *self;
        proof {
            use_type_invariant(&*self);
            assert(before.circuit(module_id@, caller_id@).window.len() <= before.settings().window_size);
        }
        let mut circuits: StrMap<StrMap<Circuit>> = StrMap::new();
        std::mem::swap(&mut circuits, &mut self.circuits);
        let mut r = Circuit::new();
        match circuits.remove(module_id) {
            Some(callers) => {
                let mut callers = callers;
                match callers.remove(caller_id) {
                    Some(c) => {
                        r = c;
                    },
                    None => {},
                }
                circuits.insert(module_id.to_owned(), callers);
            },
            None => {},
        }
        let ghost after = CircuitBreakerMiddleware { config: before.config, circuits };
        assert forall|m: Seq<char>, c: Seq<char>| (m != module_id@ || c != caller_id@) implies #[trigger] after.circuit(m, c)
            == before.circuit(m, c) by {}
        assert(after.circuit(module_id@, caller_id@) == fresh_circuit());
        assert forall|m: Seq<char>, c: Seq<char>| (#[trigger] after.circuit(m, c)).window.len()
            <= after.settings().window_size by {
            assert(before.circuit(m, c).window.len() <= before.settings().window_size);
        }
        self.circuits = circuits;
        r
    }

    fn put_circuit(&mut self, module_id: &str, caller_id: &str, circuit: Circuit)
        requires
            circuit@.window.len() <= old(self).settings().window_size,
        ensures
            final(self).circuit(module_id@, caller_id@) == circuit@,
            final(self).same_but(*old(self), module_id@, caller_id@),
            final(self).is_bounded(),
    {
        let ghost before = *self;
        proof {
            use_type_invariant(&*self);
        }
        let mut circuits: StrMap<StrMap<Circuit>> = StrMap::new();
        std::mem::swap(&mut circuits, &mut self.circuits);
        let mut callers = match circuits.remove(module_id) {
            Some(c) => c,
            None => StrMap::new(),
        };
        callers.insert(caller_id.to_owned(), circuit);
        circuits.insert(module_id.to_owned(), callers);
        let ghost after = CircuitBreakerMiddleware { config: before.config, circuits };
        assert forall|m: Seq<char>, c: Seq<char>| (m != module_id@ || c != caller_id@) implies #[trigger] after.circuit(m, c)
            == before.circuit(m, c) by {}
        assert(after.circuit(module_id@, caller_id@) == circuit@);
        assert forall|m: Seq<char>, c: Seq<char>| (#[trigger] after.circuit(m, c)).window.len()
            <= after.settings().window_size by {
            assert(before.circuit(m, c).window.len() <= before.settings().window_size);
        }
        self.circuits = circuits;
    }

    /// Put a circuit into a state, as an override.
    pub fn force_state(&mut self, module_id: &str, caller_id: &str, state: CircuitBreakerState, opened_at: Option<u64>)
        ensures
            final(self).circuit(module_id@, caller_id@) == (CircuitView {
                state,
                opened_at,
                probe_in_flight: false,
                probe_started_at: None,
                ..old(self).circuit(module_id@, caller_id@)
            }),
            final(self).same_but(*old(self), module_id@, caller_id@),
            final(self).is_bounded(),
    {
        let mut c = self.take_circuit(module_id, caller_id);
        c.state = state;
        c.opened_at = opened_at;
        c.probe_in_flight = false;
        c.probe_started_at = None;
        self.put_circuit(module_id, caller_id, c);
    }

    /// Before a call: let it through or reject it. Gives the state to note in the
    /// context of the call too: that of the circuit, or `Open` where the call is
    /// rejected.
    pub fn before(&mut self, module_id: &str, caller_id: Option<&str>, now: u64) -> (r: (
        CircuitBreakerState,
        Result<(), ModuleError>,
    ))
        ensures
            ({
                let caller = caller_key(caller_id);
                let c = refreshed(old(self).circuit(module_id@, caller), now, old(self).settings().recovery_window_ms);
                &&& final(self).circuit(module_id@, caller) == after_admission(
                    old(self).circuit(module_id@, caller),
                    now,
                    old(self).settings().recovery_window_ms,
                )
                &&& final(self).same_but(*old(self), module_id@, caller)
                &&& r.0 == noted_state(c)
                &&& match r.1 {
                    Ok(_) => admits(c),
                    Err(e) => !admits(c) && e@ == errors::circuit_open_error(module_id@, caller, e@.timestamp),
                }
            }),
            final(self).is_bounded(),
    {
        proof {
            use_type_invariant(&*self);
        }
        let caller = match caller_id {
            Some(c) => c.to_owned(),
            None => String::new(),
        };
        let recovery: u64 = self.config.recovery_window_ms;
        let mut c = self.take_circuit(module_id, caller.as_str());
        let ghost c0 = c@;
        if c.state == CircuitBreakerState::Open && has_elapsed(c.opened_at, now, recovery) {
            c.state = CircuitBreakerState::HalfOpen;
            c.probe_in_flight = false;
            c.probe_started_at = None;
        }
        if c.state == CircuitBreakerState::HalfOpen && c.probe_in_flight && has_elapsed(
            c.probe_started_at,
            now,
            recovery,
        ) {
            c.probe_in_flight = false;
            c.probe_started_at = None;
        }
        assert(c@ =~= refreshed(c0, now, recovery));
        let state = c.state;
        let allowed = match c.state {
            CircuitBreakerState::Open => false,
            CircuitBreakerState::HalfOpen => if c.probe_in_flight {
                false
            } else {
                c.probe_in_flight = true;
                c.probe_started_at = Some(now);
                true
            },
            CircuitBreakerState::Closed => true,
        };
        assert(c@ =~= after_admission(c0, now, recovery));
        self.put_circuit(module_id, caller.as_str(), c);
        if allowed {
            (state, Ok(()))
        } else {
            (CircuitBreakerState::Open, Err(ModuleError::circuit_breaker_open(module_id, caller.as_str())))
        }
    }

    /// After a call that succeeded. A half-open circuit closes, which is
    /// reported.
    pub fn after(&mut self, module_id: &str, caller_id: Option<&str>) -> (r: Option<CircuitEvent>)
        ensures
            ({
                let caller = caller_key(caller_id);
                let c = old(self).circuit(module_id@, caller);
                &&& final(self).circuit(module_id@, caller) == after_success(
                    c,
                    old(self).settings().window_size as int,
                )
                &&& final(self).same_but(*old(self), module_id@, caller)
                &&& match r {
                    Some(e) => c.state == CircuitBreakerState::HalfOpen && e.event_type@ == "apcore.circuit.closed"@
                        && e.module_id@ == module_id@ && e.caller_id@ == caller && e.errors == 0 && e.samples == 0
                        && e.severity@ == "info"@,
                    None => c.state != CircuitBreakerState::HalfOpen,
                }
            }),
            final(self).is_bounded(),
    {
        proof {
            use_type_invariant(&*self);
        }
        let caller = match caller_id {
            Some(c) => c.to_owned(),
            None => String::new(),
        };
        let mut c = self.take_circuit(module_id, caller.as_str());
        let ghost c0 = c@;
        c.push(true, self.config.window_size);
        let mut event = None;
        if c.state == CircuitBreakerState::HalfOpen {
            c = Circuit::new();
            event = Some(
                CircuitEvent {
                    event_type: "apcore.circuit.closed",
                    module_id: module_id.to_owned(),
                    caller_id: caller.clone(),
                    errors: 0,
                    samples: 0,
                    severity: "info",
                },
            );
        }
        self.put_circuit(module_id, caller.as_str(), c);
        event
    }

    /// After a call that failed. The breaker's own rejections do not count. A
    /// circuit that opens is reported.
    pub fn on_error(&mut self, module_id: &str, caller_id: Option<&str>, error: &ModuleError, now: u64) -> (r: Option<CircuitEvent>)
        ensures
            ({
                let caller = caller_key(caller_id);
                let c = old(self).circuit(module_id@, caller);
                let w = pushed(c.window, false, old(self).settings().window_size as int);
                let counted = error.code != ErrorCode::CircuitBreakerOpen;
                &&& final(self).same_but(*old(self), module_id@, caller)
                &&& final(self).circuit(module_id@, caller) == if counted {
                    after_failure(c, old(self).settings(), now)
                } else {
                    c
                }
                &&& match r {
                    Some(e) => counted && opens_on_failure(c, old(self).settings()) && e.event_type@
                        == "apcore.circuit.opened"@ && e.module_id@ == module_id@ && e.caller_id@ == caller && e.errors
                        == failures(w) && e.samples == w.len() && e.severity@ == "warn"@,
                    None => !counted || !opens_on_failure(c, old(self).settings()),
                }
            }),
            final(self).is_bounded(),
    {
        proof {
            use_type_invariant(&*self);
        }
        if error.code == ErrorCode::CircuitBreakerOpen {
            return None;
        }
        let caller = match caller_id {
            Some(c) => c.to_owned(),
            None => String::new(),
        };
        let mut c = self.take_circuit(module_id, caller.as_str());
        let ghost c0 = c@;
        c.push(false, self.config.window_size);
        let samples: u64 = c.window.len() as u64;
        let errors: u64 = c.failure_count();
        let opens = match c.state {
            CircuitBreakerState::HalfOpen => true,
            CircuitBreakerState::Closed => c.window.len() >= self.config.min_samples
                && self.config.open_threshold.reached_by(errors, samples),
            CircuitBreakerState::Open => false,
        };
        let mut event = None;
        if opens {
            c.state = CircuitBreakerState::Open;
            c.opened_at = Some(now);
            c.probe_in_flight = false;
            c.probe_started_at = None;
            event = Some(
                CircuitEvent {
                    event_type: "apcore.circuit.opened",
                    module_id: module_id.to_owned(),
                    caller_id: caller.clone(),
                    errors,
                    samples,
                    severity: "warn",
                },
            );
        }
        assert(c@ =~= after_failure(c0, self.settings(), now));
        self.put_circuit(module_id, caller.as_str(), c);
        event
    }
}

/// The key of a caller: the empty text for a call without one.
pub open spec fn caller_key(caller_id: Option<&str>) -> Seq<char> {
    match caller_id {
        Some(c) => c@,
        None => Seq::empty(),
    }
}

/// Builder for the circuit breaker.
#[derive(Debug)]
pub struct CircuitBreakerBuilder {
    pub config: CircuitBreakerConfig,
}

impl CircuitBreakerBuilder {
    /// Set the error rate at which a circuit opens.
    pub fn open_threshold(self, value: Rate) -> (r: Self)
        ensures
            r.config == (CircuitBreakerConfig { open_threshold: value, ..self.config }),
    {
        CircuitBreakerBuilder { config: CircuitBreakerConfig { open_threshold: value, ..self.config } }
    }

    /// Set the number of outcomes that a circuit remembers, at least one.
    pub fn window_size(self, value: usize) -> (r: Self)
        ensures
            r.config == (CircuitBreakerConfig { window_size: capacity(value as int) as usize, ..self.config }),
    {
        let window_size: usize = if value < 1 {
            1
        } else {
            value
        };
        CircuitBreakerBuilder { config: CircuitBreakerConfig { window_size, ..self.config } }
    }

    /// Set the time that a circuit stays open before it probes.
    pub fn recovery_window_ms(self, value: u64) -> (r: Self)
        ensures
            r.config == (CircuitBreakerConfig { recovery_window_ms: value, ..self.config }),
    {
        CircuitBreakerBuilder { config: CircuitBreakerConfig { recovery_window_ms: value, ..self.config } }
    }

    /// Set the number of outcomes before a circuit may open.
    pub fn min_samples(self, value: usize) -> (r: Self)
        ensures
            r.config == (CircuitBreakerConfig { min_samples: value, ..self.config }),
    {
        CircuitBreakerBuilder { config: CircuitBreakerConfig { min_samples: value, ..self.config } }
    }

    /// Set the priority.
    pub fn priority(self, value: u16) -> (r: Self)
        ensures
            r.config == (CircuitBreakerConfig { priority: value, ..self.config }),
    {
        CircuitBreakerBuilder { config: CircuitBreakerConfig { priority: value, ..self.config } }
    }

    /// The breaker with this configuration.
    pub fn build(self) -> (r: CircuitBreakerMiddleware)
        ensures
            r.settings() == (CircuitBreakerConfig {
                window_size: capacity(self.config.window_size as int) as usize,
                ..self.config
            }),
            forall|m: Seq<char>, c: Seq<char>| #[trigger] r.circuit(m, c) == fresh_circuit(),
    {
        CircuitBreakerMiddleware::with_parts(self.config)
    }
}

/// An open circuit rejects every call until its recovery time has gone by.
pub proof fn open_rejects_until_recovery(c: CircuitView, now: u64, recovery_ms: u64)
    requires
        c.state == CircuitBreakerState::Open,
        !elapsed(c.opened_at, now, recovery_ms),
    ensures
        !admits(refreshed(c, now, recovery_ms)),
        after_admission(c, now, recovery_ms) == c,
{
}

/// After the recovery time an open circuit lets exactly one call through: the
/// next is rejected as long as the probe is not given up.
pub proof fn one_probe_at_a_time(c: CircuitView, first: u64, second: u64, recovery_ms: u64)
    requires
        c.state == CircuitBreakerState::Open,
        elapsed(c.opened_at, first, recovery_ms),
        !elapsed(Some(first), second, recovery_ms),
    ensures
        admits(refreshed(c, first, recovery_ms)),
        !admits(refreshed(after_admission(c, first, recovery_ms), second, recovery_ms)),
{
}

/// A probe that succeeds closes the circuit; one that fails opens it again.
pub proof fn the_probe_decides(c: CircuitView, config: CircuitBreakerConfig, now: u64)
    requires
        c.state == CircuitBreakerState::HalfOpen,
    ensures
        after_success(c, config.window_size as int) == fresh_circuit(),
        after_failure(c, config, now).state == CircuitBreakerState::Open,
        after_failure(c, config, now).opened_at == Some(now),
{
}

/// A closed circuit whose window cannot hold the samples that opening asks for
/// never opens.
pub proof fn too_few_samples_never_open(c: CircuitView, config: CircuitBreakerConfig, now: u64)
    requires
        c.state == CircuitBreakerState::Closed,
        c.window.len() <= capacity(config.window_size as int),
        config.min_samples > capacity(config.window_size as int),
    ensures
        after_failure(c, config, now).state == CircuitBreakerState::Closed,
        after_failure(c, config, now).window.len() <= capacity(config.window_size as int),
{
}

/// The latest of a list, at most so many.
pub open spec fn latest(s: Seq<bool>, n: int) -> Seq<bool> {
    if s.len() <= n {
        s
    } else {
        s.subrange(s.len() - n, s.len() as int)
    }
}

/// How many of some outcomes were failures.
pub open spec fn failed_of(outcomes: Seq<bool>) -> int {
    outcomes.filter(|success: bool| !success).len() as int
}

/// A circuit that has seen these outcomes, one after the other, from the start.
pub open spec fn circuit_after(outcomes: Seq<bool>, config: CircuitBreakerConfig, now: u64) -> CircuitView
    decreases outcomes.len(),
{
    if outcomes.len() == 0 {
        fresh_circuit()
    } else {
        let c = circuit_after(outcomes.drop_last(), config, now);
        if outcomes.last() {
            after_success(c, config.window_size as int)
        } else {
            after_failure(c, config, now)
        }
    }
}

proof fn lemma_failures_are_counted(window: Seq<bool>)
    ensures
        failures(window) == failed_of(window),
    decreases window.len(),
{
    let bad = |success: bool| !success;
    reveal(Seq::filter);
    if window.len() > 0 {
        lemma_failures_are_counted(window.drop_last());
    }
}

/// Every outcome is remembered last, in front of it the latest others as far as
/// there is room.
pub proof fn an_outcome_is_remembered_last(window: Seq<bool>, success: bool, window_size: int)
    ensures
        ({
            let w = pushed(window, success, window_size);
            let room = if window_size < 1 {
                1
            } else {
                window_size
            };
            &&& w.len() > 0 && w.last() == success
            &&& w == latest(window.push(success), room)
        }),
{
    let room = if window_size < 1 {
        1
    } else {
        window_size
    };
    assert(pushed(window, success, window_size) =~= latest(window.push(success), room));
}

/// A success on a circuit that is not half open is remembered and changes nothing
/// else: while there is room the circuit remembers one outcome more and as many
/// failures as before.
pub proof fn a_success_is_remembered(c: CircuitView, window_size: int)
    requires
        c.state != CircuitBreakerState::HalfOpen,
        window_size >= 1,
    ensures
        ({
            let r = after_success(c, window_size);
            &&& r.window.len() > 0 && r.window.last()
            &&& c.window.len() < window_size ==> r.window.len() == c.window.len() + 1 && failed_of(r.window) == failed_of(
                c.window,
            )
            &&& r.window == latest(c.window.push(true), window_size)
            &&& r.state == c.state && r.opened_at == c.opened_at && r.probe_in_flight == c.probe_in_flight
                && r.probe_started_at == c.probe_started_at
        }),
{
    an_outcome_is_remembered_last(c.window, true, window_size);
    lemma_failures_are_counted(c.window);
    lemma_failures_are_counted(c.window.push(true));
    assert(c.window.push(true).drop_last() =~= c.window);
}

/// A failure is remembered; while there is room the circuit remembers one outcome
/// and one failure more.
pub proof fn a_failure_is_remembered(c: CircuitView, config: CircuitBreakerConfig, now: u64)
    requires
        config.window_size >= 1,
    ensures
        ({
            let r = after_failure(c, config, now);
            &&& r.window.len() > 0 && !r.window.last()
            &&& c.window.len() < config.window_size ==> r.window.len() == c.window.len() + 1 && failed_of(r.window)
                == failed_of(c.window) + 1
            &&& r.window == latest(c.window.push(false), config.window_size as int)
        }),
{
    an_outcome_is_remembered_last(c.window, false, config.window_size as int);
    lemma_failures_are_counted(c.window);
    lemma_failures_are_counted(c.window.push(false));
    assert(c.window.push(false).drop_last() =~= c.window);
}

/// A closed circuit opens on a failure exactly where enough outcomes are known
/// and the part of failures among the latest ones, successes included, has
/// reached the threshold. Else it stays closed.
pub proof fn the_error_rate_opens(c: CircuitView, config: CircuitBreakerConfig, now: u64)
    requires
        c.state == CircuitBreakerState::Closed,
        config.window_size >= 1,
    ensures
        ({
            let seen = latest(c.window.push(false), config.window_size as int);
            let r = after_failure(c, config, now);
            let opens = seen.len() >= config.min_samples && failed_of(seen) * config.open_threshold.den
                >= config.open_threshold.num * seen.len();
            &&& opens ==> r.state == CircuitBreakerState::Open && r.opened_at == Some(now) && !r.probe_in_flight
            &&& !opens ==> r.state == CircuitBreakerState::Closed && r.opened_at == c.opened_at && r.probe_in_flight
                == c.probe_in_flight && r.probe_started_at == c.probe_started_at
        }),
{
    an_outcome_is_remembered_last(c.window, false, config.window_size as int);
    lemma_failures_are_counted(latest(c.window.push(false), config.window_size as int));
}

/// A success never opens a circuit.
pub proof fn a_success_never_opens(c: CircuitView, window_size: int)
    ensures
        c.state == CircuitBreakerState::Closed ==> after_success(c, window_size).state == CircuitBreakerState::Closed,
        c.state == CircuitBreakerState::HalfOpen ==> after_success(c, window_size).state == CircuitBreakerState::Closed
            && after_success(c, window_size).window.len() == 0,
{
}

/// A circuit remembers the latest outcomes of its calls, as many as there is room
/// for, in their order.
pub proof fn the_latest_outcomes_are_remembered(outcomes: Seq<bool>, config: CircuitBreakerConfig, now: u64)
    requires
        config.window_size >= 1,
    ensures
        circuit_after(outcomes, config, now).window == latest(outcomes, config.window_size as int),
        circuit_after(outcomes, config, now).state != CircuitBreakerState::HalfOpen,
    decreases outcomes.len(),
{
    if outcomes.len() > 0 {
        let before = outcomes.drop_last();
        let n = config.window_size as int;
        let c = circuit_after(before, config, now);
        the_latest_outcomes_are_remembered(before, config, now);
        an_outcome_is_remembered_last(c.window, outcomes.last(), n);
        assert(latest(latest(before, n).push(outcomes.last()), n) =~= latest(outcomes, n)) by {
            assert(before.push(outcomes.last()) =~= outcomes);
        }
    }
}

/// A circuit is open after its calls exactly where, after one of the failures
/// among them, enough outcomes were known and the part of failures among the
/// latest ones had reached the threshold.
pub proof fn a_circuit_opens_by_its_calls(outcomes: Seq<bool>, config: CircuitBreakerConfig, now: u64)
    requires
        config.window_size >= 1,
    ensures
        circuit_after(outcomes, config, now).state == CircuitBreakerState::Open <==> exists|i: int|
            0 <= i < outcomes.len() && !(#[trigger] outcomes[i]) && ({
                let seen = latest(outcomes.subrange(0, i + 1), config.window_size as int);
                seen.len() >= config.min_samples && failed_of(seen) * config.open_threshold.den
                    >= config.open_threshold.num * seen.len()
            }),
    decreases outcomes.len(),
{
    if outcomes.len() > 0 {
        let before = outcomes.drop_last();
        let last = outcomes.len() - 1;
        let n = config.window_size as int;
        let c = circuit_after(before, config, now);
        a_circuit_opens_by_its_calls(before, config, now);
        the_latest_outcomes_are_remembered(before, config, now);
        assert(outcomes.subrange(0, last + 1) =~= outcomes);
        assert(before.push(outcomes.last()) =~= outcomes);
        assert(latest(latest(before, n).push(outcomes.last()), n) =~= latest(outcomes, n));
        assert forall|i: int| 0 <= i < last implies before.subrange(0, i + 1) == #[trigger] outcomes.subrange(0, i + 1)
            && before[i] == outcomes[i] by {
            assert(before.subrange(0, i + 1) =~= outcomes.subrange(0, i + 1));
        }
        if c.state == CircuitBreakerState::Open {
            let i = choose|i: int|
                0 <= i < before.len() && !(#[trigger] before[i]) && ({
                    let seen = latest(before.subrange(0, i + 1), n);
                    seen.len() >= config.min_samples && failed_of(seen) * config.open_threshold.den
                        >= config.open_threshold.num * seen.len()
                });
            assert(outcomes.subrange(0, i + 1) == before.subrange(0, i + 1));
            assert(!outcomes[i]);
        } else {
            the_error_rate_opens(c, config, now);
            a_success_never_opens(c, n);
            if circuit_after(outcomes, config, now).state == CircuitBreakerState::Open {
                assert(!outcomes[last]);
            }
            assert forall|i: int| 0 <= i < last && !(#[trigger] outcomes[i]) implies !({
                let seen = latest(outcomes.subrange(0, i + 1), n);
                seen.len() >= config.min_samples && failed_of(seen) * config.open_threshold.den
                    >= config.open_threshold.num * seen.len()
            }) by {
                assert(outcomes.subrange(0, i + 1) == before.subrange(0, i + 1));
                assert(!before[i]);
            }
        }
    }
}

/// A closed circuit lets every call through, an open one none before its recovery
/// time is over, and then the call that probes. The time runs from the opening.
pub proof fn who_is_let_through(c: CircuitView, now: u64, recovery_ms: u64)
    ensures
        c.state == CircuitBreakerState::Closed ==> admits(refreshed(c, now, recovery_ms)) && after_admission(
            c,
            now,
            recovery_ms,
        ) == c,
        c.state == CircuitBreakerState::Open ==> (admits(refreshed(c, now, recovery_ms)) <==> (c.opened_at matches Some(t)
            && now >= t + recovery_ms * 1_000_000 || (c.opened_at is Some && recovery_ms == 0))),
        c.state == CircuitBreakerState::Open && admits(refreshed(c, now, recovery_ms)) ==> ({
            let r = after_admission(c, now, recovery_ms);
            r.state == CircuitBreakerState::HalfOpen && r.probe_in_flight && r.probe_started_at == Some(now) && r.window
                == c.window
        }),
        c.state == CircuitBreakerState::HalfOpen && !c.probe_in_flight ==> admits(refreshed(c, now, recovery_ms)),
        c.state == CircuitBreakerState::HalfOpen && c.probe_in_flight ==> (admits(refreshed(c, now, recovery_ms)) <==> (
        c.probe_started_at matches Some(t) && now >= t + recovery_ms * 1_000_000 || (c.probe_started_at is Some
            && recovery_ms == 0))),
        noted_state(refreshed(c, now, recovery_ms)) == CircuitBreakerState::Open <==> !admits(
            refreshed(c, now, recovery_ms),
        ),
{
}

/// Where two breakers differ in one circuit at most, every other circuit and the
/// configuration are the same.
pub proof fn circuits_are_kept_apart(
    a: CircuitBreakerMiddleware,
    b: CircuitBreakerMiddleware,
    module_id: Seq<char>,
    caller_id: Seq<char>,
    m: Seq<char>,
    c: Seq<char>,
)
    requires
        a.same_but(b, module_id, caller_id),
        m != module_id || c != caller_id,
    ensures
        a.circuit(m, c) == b.circuit(m, c),
        a.settings() == b.settings(),
{
}

/// A call without a caller counts for the empty name, and any other for its
/// caller; the states have their names.
pub proof fn callers_and_states_have_names(c: &str)
    ensures
        caller_key(Some(c)) == c@,
        caller_key(None) == Seq::<char>::empty(),
        state_name(CircuitBreakerState::Closed) == "CLOSED"@,
        state_name(CircuitBreakerState::Open) == "OPEN"@,
        state_name(CircuitBreakerState::HalfOpen) == "HALF_OPEN"@,
{
}

/// A circuit starts closed, with nothing remembered and no probe under way, and so
/// does one that a successful probe closes.
pub proof fn a_circuit_starts_anew(c: CircuitView, window_size: int)
    ensures
        ({
            let f = fresh_circuit();
            &&& f.state is Closed
            &&& f.window.len() == 0
            &&& f.opened_at is None
            &&& !f.probe_in_flight
            &&& f.probe_started_at is None
        }),
        c.state is HalfOpen ==> ({
            let t = after_success(c, window_size);
            &&& t.state is Closed
            &&& t.window.len() == 0
            &&& t.opened_at is None
            &&& !t.probe_in_flight
            &&& t.probe_started_at is None
        }),
{
}

} // verus!
