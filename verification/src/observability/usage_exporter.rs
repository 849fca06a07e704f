//! Periodic export of usage summaries.
use vstd::prelude::*;
use crate::errors::ModuleError;
use crate::json::JsonValue;

verus! {

/// An exporter that does nothing.
#[derive(Debug, Clone, Copy, PartialEq, Eq, Structural)]
pub struct NoopUsageExporter;

impl NoopUsageExporter {
    /// Take a summary, and do nothing with it.
    pub fn export(&self, _summary: &JsonValue) -> (r: Result<(), ModuleError>)
        ensures
            r is Ok,
    {
        Ok(())
    }

    /// There is nothing to release.
    pub fn shutdown(&self) -> (r: Result<(), ModuleError>)
        ensures
            r is Ok,
    {
        Ok(())
    }
}

/// What happens to the driver of an exporter.
#[derive(Debug, Clone, Copy, PartialEq, Eq, Structural)]
pub enum DriverEvent {
    /// It is asked to start.
    Start,
    /// It is asked to stop.
    Stop,
    /// An interval has gone by.
    Tick,
}

/// What is to be done about it.
#[derive(Debug, Clone, Copy, PartialEq, Eq, Structural)]
pub enum DriverAction {
    Nothing,
    /// Begin to wait for intervals.
    Spawn,
    /// Stop waiting for intervals, if that was begun, then shut the exporter down.
    Cancel,
    /// Export a summary of each module. A failure is reported, and waiting goes
    /// on.
    Export,
}

/// Drives an exporter: summaries are exported once for each interval from the
/// start to the stop. The first export comes a full interval after the start.
#[derive(Debug)]
pub struct PeriodicUsageExporter {
    pub interval_ms: u64,
    pub running: bool,
    /// Whether a stop has shut the exporter down since the last start.
    pub stopped: bool,
}

/// The mathematical state of a driver.
pub struct DriverState {
    pub running: bool,
    pub stopped: bool,
}

impl PeriodicUsageExporter {
    /// The state of the driver.
    pub open spec fn state(self) -> DriverState {
        DriverState { running: self.running, stopped: self.stopped }
    }

    /// A driver that is not running.
    pub fn new(interval_ms: u64) -> (r: Self)
        ensures
            r.interval_ms == interval_ms,
            r.state() == fresh_driver(),
    {
        PeriodicUsageExporter { interval_ms, running: false, stopped: false }
    }

    /// What is to be done about an event. To start a second time does nothing,
    /// and so does to stop a second time. A stop shuts the exporter down also
    /// where nothing was started.
    pub fn step(&mut self, event: DriverEvent) -> (r: DriverAction)
        ensures
            final(self).interval_ms == old(self).interval_ms,
            final(self).state() == state_after(old(self).state(), event),
            r == driver_action(old(self).state(), event),
    {
        match event {
            DriverEvent::Start => {
                if self.running {
                    DriverAction::Nothing
                } else {
                    self.running = true;
                    self.stopped = false;
                    DriverAction::Spawn
                }
            },
            DriverEvent::Stop => {
                if self.stopped {
                    DriverAction::Nothing
                } else {
                    self.running = false;
                    self.stopped = true;
                    DriverAction::Cancel
                }
            },
            DriverEvent::Tick => if self.running {
                DriverAction::Export
            } else {
                DriverAction::Nothing
            },
        }
    }
}

/// The state of a driver that was neither started nor stopped.
pub open spec fn fresh_driver() -> DriverState {
    DriverState { running: false, stopped: false }
}

/// The state of the driver after an event.
pub open spec fn state_after(s: DriverState, event: DriverEvent) -> DriverState {
    match event {
        DriverEvent::Start => if s.running {
            s
        } else {
            DriverState { running: true, stopped: false }
        },
        DriverEvent::Stop => if s.stopped {
            s
        } else {
            DriverState { running: false, stopped: true }
        },
        DriverEvent::Tick => s,
    }
}

/// What the driver does about an event.
pub open spec fn driver_action(s: DriverState, event: DriverEvent) -> DriverAction {
    match event {
        DriverEvent::Start => if s.running {
            DriverAction::Nothing
        } else {
            DriverAction::Spawn
        },
        DriverEvent::Stop => if s.stopped {
            DriverAction::Nothing
        } else {
            DriverAction::Cancel
        },
        DriverEvent::Tick => if s.running {
            DriverAction::Export
        } else {
            DriverAction::Nothing
        },
    }
}

/// The state of a driver after events.
pub open spec fn state_after_all(start: DriverState, events: Seq<DriverEvent>) -> DriverState
    decreases events.len(),
{
    if events.len() == 0 {
        start
    } else {
        state_after(state_after_all(start, events.drop_last()), events.last())
    }
}

/// How often an action is taken over events.
pub open spec fn times_taken(start: DriverState, events: Seq<DriverEvent>, action: DriverAction) -> int
    decreases events.len(),
{
    if events.len() == 0 {
        0
    } else {
        times_taken(start, events.drop_last(), action) + (if driver_action(
            state_after_all(start, events.drop_last()),
            events.last(),
        ) == action {
            1int
        } else {
            0int
        })
    }
}

/// Whatever the order of starts, stops and intervals, a driver that runs was not
/// stopped, and the exporter is shut down at most once more than waiting began:
/// there is never more than one wait.
pub proof fn shutdowns_follow_starts(events: Seq<DriverEvent>)
    ensures
        ({
            let s = state_after_all(fresh_driver(), events);
            let spawned = times_taken(fresh_driver(), events, DriverAction::Spawn);
            let shut_down = times_taken(fresh_driver(), events, DriverAction::Cancel);
            &&& !(s.running && s.stopped)
            &&& s.stopped ==> spawned <= shut_down <= spawned + 1
            &&& s.running ==> spawned - 1 <= shut_down <= spawned
            &&& !s.running && !s.stopped ==> spawned == 0 && shut_down == 0
        }),
    decreases events.len(),
{
    if events.len() > 0 {
        shutdowns_follow_starts(events.drop_last());
    }
}

/// Without a start, the exporter is shut down at most once, and not at all after
/// a stop.
pub proof fn shut_down_at_most_once_without_a_start(start: DriverState, events: Seq<DriverEvent>)
    requires
        forall|i: int| 0 <= i < events.len() ==> #[trigger] events[i] != DriverEvent::Start,
    ensures
        times_taken(start, events, DriverAction::Cancel) <= 1,
        start.stopped ==> times_taken(start, events, DriverAction::Cancel) == 0,
        times_taken(start, events, DriverAction::Cancel) == 1 || start.stopped ==> state_after_all(start, events).stopped,
        !start.stopped && events.contains(DriverEvent::Stop) ==> times_taken(start, events, DriverAction::Cancel) == 1,
        !events.contains(DriverEvent::Stop) ==> state_after_all(start, events) == start && times_taken(
            start,
            events,
            DriverAction::Cancel,
        ) == 0,
    decreases events.len(),
{
    if events.len() > 0 {
        let d = events.drop_last();
        assert forall|i: int| 0 <= i < d.len() implies #[trigger] d[i] != DriverEvent::Start by {
            assert(d[i] == events[i]);
        }
        shut_down_at_most_once_without_a_start(start, d);
        let last = events.last();
        assert(events[events.len() - 1] != DriverEvent::Start);
        assert(events =~= d.push(last));
        if events.contains(DriverEvent::Stop) && last != DriverEvent::Stop {
            let i = choose|i: int| 0 <= i < events.len() && events[i] == DriverEvent::Stop;
            assert(d[i] == DriverEvent::Stop);
        }
        if d.contains(DriverEvent::Stop) {
            let i = choose|i: int| 0 <= i < d.len() && d[i] == DriverEvent::Stop;
            assert(events[i] == DriverEvent::Stop);
        }
        if last == DriverEvent::Stop {
            assert(events[events.len() - 1] == DriverEvent::Stop);
        }
    }
}

/// Nothing is exported after a stop, and a second stop does nothing.
pub proof fn nothing_is_exported_after_a_stop(s: DriverState)
    requires
        !(s.running && s.stopped),
    ensures
        driver_action(state_after(s, DriverEvent::Stop), DriverEvent::Tick) is Nothing,
        driver_action(state_after(s, DriverEvent::Stop), DriverEvent::Stop) is Nothing,
{
}

/// An exporter that is not running starts on demand, and a running one goes on.
pub proof fn an_exporter_starts_once(s: DriverState)
    ensures
        !s.running ==> driver_action(s, DriverEvent::Start) is Spawn,
        s.running ==> driver_action(s, DriverEvent::Start) is Nothing && state_after(s, DriverEvent::Start) == s,
        state_after(s, DriverEvent::Start).running,
        !s.running ==> !state_after(s, DriverEvent::Start).stopped,
        driver_action(state_after(s, DriverEvent::Start), DriverEvent::Tick) is Export,
{
}

/// An exporter stops on demand, and nothing stops one that has stopped.
pub proof fn an_exporter_stops_once(s: DriverState)
    ensures
        !s.stopped ==> driver_action(s, DriverEvent::Stop) is Cancel && !state_after(s, DriverEvent::Stop).running,
        s.stopped ==> driver_action(s, DriverEvent::Stop) is Nothing && state_after(s, DriverEvent::Stop) == s,
        state_after(s, DriverEvent::Stop).stopped,
{
}

/// At every turn a running exporter exports, and no other does; a turn changes
/// nothing.
pub proof fn a_running_exporter_exports(s: DriverState)
    ensures
        driver_action(s, DriverEvent::Tick) is Export <==> s.running,
        driver_action(s, DriverEvent::Tick) is Nothing <==> !s.running,
        state_after(s, DriverEvent::Tick) == s,
{
}

/// The state after events is that after the later ones, from where the earlier ones
/// lead.
pub proof fn events_lead_on(start: DriverState, a: Seq<DriverEvent>, b: Seq<DriverEvent>, action: DriverAction)
    ensures
        state_after_all(start, a + b) == state_after_all(state_after_all(start, a), b),
        times_taken(start, a + b, action) == times_taken(start, a, action) + times_taken(
            state_after_all(start, a),
            b,
            action,
        ),
    decreases b.len(),
{
    if b.len() == 0 {
        assert(a + b =~= a);
    } else {
        assert((a + b).drop_last() =~= a + b.drop_last());
        events_lead_on(start, a, b.drop_last(), action);
    }
}

} // verus!
