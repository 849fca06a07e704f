//! Alerts on the error rate and the latency of modules.
use vstd::prelude::*;
use vstd::string::*;
use crate::rate::Rate;
use crate::strmap::StrMap;
use crate::rate;

verus! {

/// The alerts of a module that are active.
#[derive(Debug, Clone, Copy, PartialEq, Eq, Structural)]
pub struct Alerts {
    pub error_rate: bool,
    pub latency: bool,
}

/// What a module did so far: its failed calls out of all its calls, and the
/// latency in nanoseconds that 99 of 100 calls stay within.
#[derive(Debug, Clone, Copy, PartialEq, Eq, Structural)]
pub struct ModuleReading {
    pub errors: u64,
    pub total: u64,
    pub p99_nanos: u64,
}

/// An alert, or the end of one.
#[derive(Debug, Clone, Copy, PartialEq, Eq, Structural)]
pub enum PlatformEvent {
    ErrorThresholdExceeded { errors: u64, total: u64 },
    LatencyThresholdExceeded { p99_nanos: u64 },
    ErrorsRecovered { errors: u64, total: u64 },
    LatencyRecovered { p99_nanos: u64 },
}

impl PlatformEvent {
    /// The type under which the event is emitted.
    pub fn event_type(&self) -> (r: &'static str)
        ensures
            r@ == (match *self {
                PlatformEvent::ErrorThresholdExceeded { .. } => "error_threshold_exceeded"@,
                PlatformEvent::LatencyThresholdExceeded { .. } => "latency_threshold_exceeded"@,
                PlatformEvent::ErrorsRecovered { .. } => "module_health_changed"@,
                PlatformEvent::LatencyRecovered { .. } => "module_health_changed"@,
            }),
    {
        match self {
            PlatformEvent::ErrorThresholdExceeded { .. } => "error_threshold_exceeded",
            PlatformEvent::LatencyThresholdExceeded { .. } => "latency_threshold_exceeded",
            PlatformEvent::ErrorsRecovered { .. } => "module_health_changed",
            PlatformEvent::LatencyRecovered { .. } => "module_health_changed",
        }
    }

    /// The severity with which the event is emitted.
    pub fn severity(&self) -> (r: &'static str)
        ensures
            r@ == (match *self {
                PlatformEvent::ErrorThresholdExceeded { .. } => "warning"@,
                PlatformEvent::LatencyThresholdExceeded { .. } => "warning"@,
                PlatformEvent::ErrorsRecovered { .. } => "info"@,
                PlatformEvent::LatencyRecovered { .. } => "info"@,
            }),
    {
        match self {
            PlatformEvent::ErrorThresholdExceeded { .. } => "warning",
            PlatformEvent::LatencyThresholdExceeded { .. } => "warning",
            PlatformEvent::ErrorsRecovered { .. } => "info",
            PlatformEvent::LatencyRecovered { .. } => "info",
        }
    }
}

/// The whole that failures are held against: without any call the rate is zero.
pub open spec fn rate_base(total: int) -> int {
    if total == 0 {
        1
    } else {
        total
    }
}

/// Whether the error rate of a module has reached the threshold.
pub open spec fn errors_reached(m: ModuleReading, threshold: Rate) -> bool {
    rate::at_least(m.errors as int, rate_base(m.total as int), threshold)
}

/// Whether the error rate of a module is below half the threshold.
pub open spec fn errors_subsided(m: ModuleReading, threshold: Rate) -> bool {
    rate::below_half(m.errors as int, rate_base(m.total as int), threshold)
}

/// Whether the latency of a module exceeds the limit.
pub open spec fn latency_exceeded(m: ModuleReading, limit_nanos: u64) -> bool {
    m.p99_nanos > limit_nanos
}

/// Whether the latency of a module is below half the limit.
pub open spec fn latency_subsided(m: ModuleReading, limit_nanos: u64) -> bool {
    2 * m.p99_nanos < limit_nanos
}

/// The alerts after a failed call.
pub open spec fn alerts_after_error(a: Alerts, m: ModuleReading, threshold: Rate) -> Alerts {
    Alerts { error_rate: a.error_rate || errors_reached(m, threshold), latency: a.latency }
}

/// The event after a failed call: an alert where the threshold is reached and
/// no such alert is active.
pub open spec fn event_after_error(a: Alerts, m: ModuleReading, threshold: Rate) -> Option<PlatformEvent> {
    if !a.error_rate && errors_reached(m, threshold) {
        Some(PlatformEvent::ErrorThresholdExceeded { errors: m.errors, total: m.total })
    } else {
        None
    }
}

/// The alerts after a call that succeeded.
pub open spec fn alerts_after_success(a: Alerts, m: ModuleReading, threshold: Rate, limit_nanos: u64) -> Alerts {
    Alerts {
        error_rate: a.error_rate && !errors_subsided(m, threshold),
        latency: if a.latency {
            !latency_subsided(m, limit_nanos)
        } else {
            latency_exceeded(m, limit_nanos)
        },
    }
}

/// The event on the latency after a call that succeeded.
pub open spec fn latency_event(a: Alerts, m: ModuleReading, limit_nanos: u64) -> Option<PlatformEvent> {
    if !a.latency && latency_exceeded(m, limit_nanos) {
        Some(PlatformEvent::LatencyThresholdExceeded { p99_nanos: m.p99_nanos })
    } else if a.latency && latency_subsided(m, limit_nanos) {
        Some(PlatformEvent::LatencyRecovered { p99_nanos: m.p99_nanos })
    } else {
        None
    }
}

/// The event on the error rate after a call that succeeded.
pub open spec fn recovery_event(a: Alerts, m: ModuleReading, threshold: Rate) -> Option<PlatformEvent> {
    if a.error_rate && errors_subsided(m, threshold) {
        Some(PlatformEvent::ErrorsRecovered { errors: m.errors, total: m.total })
    } else {
        None
    }
}

/// Watches modules and alerts once per excess: another alert comes only after
/// a recovery.
#[derive(Debug)]
pub struct PlatformNotifyMiddleware {
    error_rate_threshold: Rate,
    latency_p99_threshold_nanos: u64,
    alerted: StrMap<Alerts>,
}

impl PlatformNotifyMiddleware {
    /// The error rate from which the middleware alerts.
    pub closed spec fn threshold(self) -> Rate {
        self.error_rate_threshold
    }

    /// The latency beyond which the middleware alerts.
    pub closed spec fn limit(self) -> u64 {
        self.latency_p99_threshold_nanos
    }

    /// The active alerts of a module.
    pub closed spec fn alerts(self, module_id: Seq<char>) -> Alerts {
        if self.alerted@.contains_key(module_id) {
            self.alerted@[module_id]
        } else {
            Alerts { error_rate: false, latency: false }
        }
    }

    /// Whether two middlewares agree but on the alerts of one module.
    pub open spec fn same_but(self, other: Self, module_id: Seq<char>) -> bool {
        &&& self.threshold() == other.threshold()
        &&& self.limit() == other.limit()
        &&& forall|m: Seq<char>| m != module_id ==> #[trigger] self.alerts(m) == other.alerts(m)
    }

    /// A middleware with these thresholds.
    pub fn new(error_rate_threshold: Rate, latency_p99_threshold_nanos: u64) -> (r: Self)
        ensures
            r.threshold() == error_rate_threshold,
            r.limit() == latency_p99_threshold_nanos,
            forall|m: Seq<char>| #[trigger] r.alerts(m) == (Alerts { error_rate: false, latency: false }),
    {
        PlatformNotifyMiddleware { error_rate_threshold, latency_p99_threshold_nanos, alerted: StrMap::new() }
    }

    /// A middleware that alerts from one failure in ten calls and beyond five
    /// seconds.
    pub fn with_defaults() -> (r: Self)
        ensures
            r.threshold() == (Rate { num: 1, den: 10 }),
            r.limit() == 5_000_000_000,
            forall|m: Seq<char>| #[trigger] r.alerts(m) == (Alerts { error_rate: false, latency: false }),
    {
        PlatformNotifyMiddleware::new(Rate { num: 1, den: 10 }, 5_000_000_000)
    }

    /// The name of the middleware.
    pub fn name(&self) -> (r: &'static str)
        ensures
            r@ == "platform_notify"@,
    {
        "platform_notify"
    }

    fn alerts_of(&self, module_id: &str) -> (r: Alerts)
        ensures
            r == self.alerts(module_id@),
    {
        match self.alerted.get(module_id) {
            Some(a) => *a,
            None => Alerts { error_rate: false, latency: false },
        }
    }

    fn set_alerts(&mut self, module_id: &str, a: Alerts)
        ensures
            final(self).same_but(*old(self), module_id@),
            final(self).alerts(module_id@) == a,
    {
        self.alerted.insert(module_id.to_owned(), a);
    }

    /// Alert where the error rate has reached the threshold, unless an alert is
    /// active.
    pub fn check_error_rate_threshold(&mut self, module_id: &str, reading: ModuleReading) -> (r: Option<PlatformEvent>)
        ensures
            r == event_after_error(old(self).alerts(module_id@), reading, old(self).threshold()),
            final(self).same_but(*old(self), module_id@),
            final(self).alerts(module_id@) == alerts_after_error(
                old(self).alerts(module_id@),
                reading,
                old(self).threshold(),
            ),
    {
        let a = self.alerts_of(module_id);
        let base: u64 = if reading.total == 0 {
            1
        } else {
            reading.total
        };
        if !a.error_rate && self.error_rate_threshold.reached_by(reading.errors, base) {
            self.set_alerts(module_id, Alerts { error_rate: true, latency: a.latency });
            Some(PlatformEvent::ErrorThresholdExceeded { errors: reading.errors, total: reading.total })
        } else {
            None
        }
    }

    /// Alert where the latency exceeds the limit, unless an alert is active;
    /// report where it has come below half the limit again.
    pub fn check_latency_threshold(&mut self, module_id: &str, reading: ModuleReading) -> (r: Option<PlatformEvent>)
        ensures
            r == latency_event(old(self).alerts(module_id@), reading, old(self).limit()),
            final(self).same_but(*old(self), module_id@),
            final(self).alerts(module_id@) == (Alerts {
                latency: alerts_after_success(
                    old(self).alerts(module_id@),
                    reading,
                    old(self).threshold(),
                    old(self).limit(),
                ).latency,
                ..old(self).alerts(module_id@)
            }),
    {
        let a = self.alerts_of(module_id);
        let limit: u64 = self.latency_p99_threshold_nanos;
        let p99: u64 = reading.p99_nanos;
        if !a.latency {
            if p99 > limit {
                self.set_alerts(module_id, Alerts { error_rate: a.error_rate, latency: true });
                return Some(PlatformEvent::LatencyThresholdExceeded { p99_nanos: p99 });
            }
            return None;
        }
        if p99 < limit && p99 < limit - p99 {
            self.set_alerts(module_id, Alerts { error_rate: a.error_rate, latency: false });
            return Some(PlatformEvent::LatencyRecovered { p99_nanos: p99 });
        }
        None
    }

    /// Report where the error rate has come below half the threshold while an
    /// alert is active.
    pub fn check_error_recovery(&mut self, module_id: &str, reading: ModuleReading) -> (r: Option<PlatformEvent>)
        ensures
            r == recovery_event(old(self).alerts(module_id@), reading, old(self).threshold()),
            final(self).same_but(*old(self), module_id@),
            final(self).alerts(module_id@) == (Alerts {
                error_rate: alerts_after_success(
                    old(self).alerts(module_id@),
                    reading,
                    old(self).threshold(),
                    old(self).limit(),
                ).error_rate,
                ..old(self).alerts(module_id@)
            }),
    {
        let a = self.alerts_of(module_id);
        if !a.error_rate {
            return None;
        }
        let base: u64 = if reading.total == 0 {
            1
        } else {
            reading.total
        };
        if self.error_rate_threshold.half_exceeds(reading.errors, base) {
            self.set_alerts(module_id, Alerts { error_rate: false, latency: a.latency });
            Some(PlatformEvent::ErrorsRecovered { errors: reading.errors, total: reading.total })
        } else {
            None
        }
    }

    /// The events after a call that succeeded: first on the latency, then on the
    /// error rate.
    pub fn after(&mut self, module_id: &str, reading: ModuleReading) -> (r: (Option<PlatformEvent>, Option<PlatformEvent>))
        ensures
            r.0 == latency_event(old(self).alerts(module_id@), reading, old(self).limit()),
            r.1 == recovery_event(old(self).alerts(module_id@), reading, old(self).threshold()),
            final(self).same_but(*old(self), module_id@),
            final(self).alerts(module_id@) == alerts_after_success(
                old(self).alerts(module_id@),
                reading,
                old(self).threshold(),
                old(self).limit(),
            ),
    {
        let first = self.check_latency_threshold(module_id, reading);
        let second = self.check_error_recovery(module_id, reading);
        (first, second)
    }

    /// The event after a call that failed.
    pub fn on_error(&mut self, module_id: &str, reading: ModuleReading) -> (r: Option<PlatformEvent>)
        ensures
            r == event_after_error(old(self).alerts(module_id@), reading, old(self).threshold()),
            final(self).same_but(*old(self), module_id@),
            final(self).alerts(module_id@) == alerts_after_error(
                old(self).alerts(module_id@),
                reading,
                old(self).threshold(),
            ),
    {
        self.check_error_rate_threshold(module_id, reading)
    }
}

/// While an alert on the error rate is active no second one comes, whatever the
/// module does, until a recovery ends it.
pub proof fn no_second_alert_before_recovery(a: Alerts, m: ModuleReading, threshold: Rate, limit_nanos: u64)
    requires
        a.error_rate,
    ensures
        event_after_error(a, m, threshold) is None,
        alerts_after_error(a, m, threshold).error_rate,
        !alerts_after_success(a, m, threshold, limit_nanos).error_rate ==> recovery_event(a, m, threshold) is Some,
{
}

/// While an alert on the latency is active no second one comes until a recovery
/// ends it.
pub proof fn no_second_latency_alert_before_recovery(a: Alerts, m: ModuleReading, threshold: Rate, limit_nanos: u64)
    requires
        a.latency,
    ensures
        !(latency_event(a, m, limit_nanos) is Some && latency_event(a, m, limit_nanos)->0 is LatencyThresholdExceeded),
        alerts_after_error(a, m, threshold).latency,
        !alerts_after_success(a, m, threshold, limit_nanos).latency ==> latency_event(a, m, limit_nanos) is Some
            && latency_event(a, m, limit_nanos)->0 is LatencyRecovered,
{
}

/// A reading that alerts is not one that recovers: between the two thresholds
/// nothing changes.
pub proof fn alert_and_recovery_exclude_each_other(m: ModuleReading, threshold: Rate)
    ensures
        !(errors_reached(m, threshold) && errors_subsided(m, threshold)),
{
    let x = m.errors * threshold.den;
    assert(x >= 0) by (nonlinear_arith)
        requires
            x == m.errors * threshold.den,
    ;
}

/// A failure raises an alert exactly where none is active and the part of errors
/// among the calls has reached the threshold; the alert tells the numbers and is
/// active from then on.
pub proof fn a_failure_alerts_at_the_threshold(a: Alerts, m: ModuleReading, threshold: Rate)
    requires
        m.total > 0,
    ensures
        ({
            let reached = m.errors * threshold.den >= threshold.num * m.total;
            let r = alerts_after_error(a, m, threshold);
            &&& reached && !a.error_rate ==> event_after_error(a, m, threshold) == Some(
                PlatformEvent::ErrorThresholdExceeded { errors: m.errors, total: m.total },
            )
            &&& !reached || a.error_rate ==> event_after_error(a, m, threshold) is None
            &&& r.error_rate == (a.error_rate || reached)
            &&& r.latency == a.latency
        }),
{
}

/// A success ends an active alert on errors exactly where the part of errors is
/// below half the threshold, and says so; it never raises one.
pub proof fn a_success_ends_an_alert_below_half(a: Alerts, m: ModuleReading, threshold: Rate, limit_nanos: u64)
    requires
        m.total > 0,
    ensures
        ({
            let subsided = 2 * (m.errors * threshold.den) < threshold.num * m.total;
            let r = alerts_after_success(a, m, threshold, limit_nanos);
            &&& a.error_rate && subsided ==> !r.error_rate && recovery_event(a, m, threshold) == Some(
                PlatformEvent::ErrorsRecovered { errors: m.errors, total: m.total },
            )
            &&& a.error_rate && !subsided ==> r.error_rate && recovery_event(a, m, threshold) is None
            &&& !a.error_rate ==> !r.error_rate && recovery_event(a, m, threshold) is None
        }),
{
}

/// A success raises an alert on the latency where none is active and the latency
/// exceeds the limit, and ends an active one where it is below half the limit.
pub proof fn latency_alerts_above_and_ends_below_half(a: Alerts, m: ModuleReading, threshold: Rate, limit_nanos: u64)
    ensures
        ({
            let r = alerts_after_success(a, m, threshold, limit_nanos);
            let e = latency_event(a, m, limit_nanos);
            &&& !a.latency && m.p99_nanos > limit_nanos ==> r.latency && e == Some(
                PlatformEvent::LatencyThresholdExceeded { p99_nanos: m.p99_nanos },
            )
            &&& !a.latency && m.p99_nanos <= limit_nanos ==> !r.latency && e is None
            &&& a.latency && 2 * m.p99_nanos < limit_nanos ==> !r.latency && e == Some(
                PlatformEvent::LatencyRecovered { p99_nanos: m.p99_nanos },
            )
            &&& a.latency && 2 * m.p99_nanos >= limit_nanos ==> r.latency && e is None
        }),
{
}

/// A module without calls counts as one with a single call.
pub proof fn no_calls_count_as_one(m: ModuleReading, threshold: Rate)
    requires
        m.total == 0,
    ensures
        errors_reached(m, threshold) == errors_reached(ModuleReading { total: 1, ..m }, threshold),
        errors_subsided(m, threshold) == errors_subsided(ModuleReading { total: 1, ..m }, threshold),
{
}

/// Where two notifiers differ in the alerts of one module at most, those of every
/// other module and the thresholds are the same.
pub proof fn modules_are_alerted_apart(a: PlatformNotifyMiddleware, b: PlatformNotifyMiddleware, module_id: Seq<char>, m: Seq<char>)
    requires
        a.same_but(b, module_id),
        m != module_id,
    ensures
        a.alerts(m) == b.alerts(m),
        a.threshold() == b.threshold(),
        a.limit() == b.limit(),
{
}

} // verus!
