//! Dispatch of events to subscribers.
use vstd::prelude::*;
use vstd::string::*;
use crate::clock::Timestamp;
use crate::error_code::ErrorCode;
use crate::errors::{ErrorView, ModuleError};
use crate::events::event::{ApCoreEvent, EventView};
use crate::json::{empty_object, Json, JsonValue, put};
use crate::text::str_eq;
use crate::wildcard::matches_wildcard;
use crate::clock;
use crate::error_code;
use crate::errors;
use crate::json;
use crate::text;
use crate::wildcard;

verus! {

/// Type of the event that tells of a delivery that failed for good.
pub const DLQ_EVENT_TYPE: &'static str = "apcore.event.delivery_failed";

/// What the emitter knows of a subscriber.
#[derive(Debug)]
pub struct SubscriberEntry {
    /// Identifier, not necessarily unique.
    pub id: String,
    /// Pattern of the event types that the subscriber wants.
    pub pattern: String,
    /// Event type that the subscriber is bound to, if any.
    pub event_type: Option<String>,
    /// Where the subscriber itself is kept.
    pub handle: u64,
}

/// The mathematical contents of an entry.
#[verifier::ext_equal]
pub struct SubscriberView {
    pub id: Seq<char>,
    pub pattern: Seq<char>,
    pub event_type: Option<Seq<char>>,
    pub handle: u64,
}

impl View for SubscriberEntry {
    type V = SubscriberView;

    open spec fn view(&self) -> SubscriberView {
        SubscriberView {
            id: self.id@,
            pattern: self.pattern@,
            event_type: text::opt_text(self.event_type),
            handle: self.handle,
        }
    }
}

/// The mathematical contents of a list of entries.
pub open spec fn subscribers_view(s: Seq<SubscriberEntry>) -> Seq<SubscriberView> {
    Seq::new(s.len(), |i: int| s[i]@)
}

/// Position of the first subscriber with an identifier.
pub open spec fn first_with_id(s: Seq<SubscriberView>, id: Seq<char>) -> Option<int>
    decreases s.len(),
{
    if s.len() == 0 {
        None
    } else {
        match first_with_id(s.drop_last(), id) {
            Some(i) => Some(i),
            None => if s.last().id == id {
                Some(s.len() - 1)
            } else {
                None
            },
        }
    }
}

/// What is left without the first subscriber with an identifier.
pub open spec fn without_id(s: Seq<SubscriberView>, id: Seq<char>) -> Seq<SubscriberView> {
    match first_with_id(s, id) {
        Some(i) => s.remove(i),
        None => s,
    }
}

/// What is left without the subscribers bound to an event type.
pub open spec fn without_type(s: Seq<SubscriberView>, event_type: Seq<char>) -> Seq<SubscriberView>
    decreases s.len(),
{
    if s.len() == 0 {
        Seq::empty()
    } else if s.last().event_type == Some(event_type) {
        without_type(s.drop_last(), event_type)
    } else {
        without_type(s.drop_last(), event_type).push(s.last())
    }
}

/// The handles of the subscribers that want an event of this type.
pub open spec fn wanting(s: Seq<SubscriberView>, event_type: Seq<char>) -> Seq<u64>
    decreases s.len(),
{
    if s.len() == 0 {
        Seq::empty()
    } else if wildcard::fits(s.last().pattern, event_type) {
        wanting(s.drop_last(), event_type).push(s.last().handle)
    } else {
        wanting(s.drop_last(), event_type)
    }
}

/// The handles of the subscribers that are told of failed deliveries: those
/// whose pattern fits, but for those that want everything.
pub open spec fn wanting_failures(s: Seq<SubscriberView>) -> Seq<u64>
    decreases s.len(),
{
    if s.len() == 0 {
        Seq::empty()
    } else if s.last().pattern != "*"@ && wildcard::fits(s.last().pattern, DLQ_EVENT_TYPE@) {
        wanting_failures(s.drop_last()).push(s.last().handle)
    } else {
        wanting_failures(s.drop_last())
    }
}

/// Where the first subscriber of a prefix stands, it is the first of the whole.
proof fn lemma_first_with_id(s: Seq<SubscriberView>, n: int, id: Seq<char>)
    requires
        0 <= n <= s.len(),
    ensures
        first_with_id(s.subrange(0, n), id) matches Some(i) ==> first_with_id(s, id) == Some(i),
        first_with_id(s, id) matches Some(i) ==> 0 <= i < s.len() && s[i].id == id,
    decreases s.len(),
{
    if s.len() > 0 {
        if n == s.len() {
            assert(s.subrange(0, n) =~= s);
            lemma_first_with_id(s.drop_last(), n - 1, id);
        } else {
            lemma_first_with_id(s.drop_last(), n, id);
            assert(s.drop_last().subrange(0, n) =~= s.subrange(0, n));
        }
        if first_with_id(s.drop_last(), id) is None {
        } else {
            let i = first_with_id(s.drop_last(), id)->0;
            assert(s.drop_last()[i] == s[i]);
        }
    } else {
        assert(s.subrange(0, n) =~= s);
    }
}

/// Who gets which events.
#[derive(Debug)]
pub struct EventEmitter {
    pub subscribers: Vec<SubscriberEntry>,
    pub max_workers: usize,
    pub shut_down: bool,
}

impl Default for EventEmitter {
    fn default() -> (r: Self)
        ensures
            r.entries() == Seq::<SubscriberView>::empty(),
            r.max_workers == 4,
            !r.shut_down,
    {
        EventEmitter::new()
    }
}

impl EventEmitter {
    /// The subscribers in the order of subscription.
    pub open spec fn entries(self) -> Seq<SubscriberView> {
        subscribers_view(self.subscribers@)
    }

    /// Whether a pattern fits an event type.
    pub fn matches_pattern(pattern: &str, event_type: &str) -> (r: bool)
        ensures
            r == wildcard::fits(pattern@, event_type@),
    {
        matches_wildcard(pattern, event_type)
    }

    /// An emitter without subscribers.
    pub fn new() -> (r: Self)
        ensures
            r.entries() == Seq::<SubscriberView>::empty(),
            r.max_workers == 4,
            !r.shut_down,
    {
        let r = EventEmitter { subscribers: Vec::new(), max_workers: 4, shut_down: false };
        assert(r.entries() =~= Seq::empty());
        r
    }

    /// Add a subscriber at the end.
    pub fn subscribe(&mut self, subscriber: SubscriberEntry)
        ensures
            final(self).entries() == old(self).entries().push(subscriber@),
            final(self).max_workers == old(self).max_workers,
            final(self).shut_down == old(self).shut_down,
    {
        let ghost before = self.entries();
        self.subscribers.push(subscriber);
        assert(self.entries() =~= before.push(subscriber@));
    }

    /// Remove the first subscriber that has the identifier of this one.
    pub fn unsubscribe(&mut self, subscriber: &SubscriberEntry) -> (r: bool)
        ensures
            r == first_with_id(old(self).entries(), subscriber@.id) is Some,
            final(self).entries() == without_id(old(self).entries(), subscriber@.id),
            final(self).max_workers == old(self).max_workers,
            final(self).shut_down == old(self).shut_down,
    {
        self.unsubscribe_by_id(subscriber.id.as_str())
    }

    /// Remove the first subscriber with this identifier.
    pub fn unsubscribe_by_id(&mut self, subscriber_id: &str) -> (r: bool)
        ensures
            r == first_with_id(old(self).entries(), subscriber_id@) is Some,
            final(self).entries() == without_id(old(self).entries(), subscriber_id@),
            final(self).max_workers == old(self).max_workers,
            final(self).shut_down == old(self).shut_down,
    {
        let ghost s = self.entries();
        let mut i: usize = 0;
        assert(s.subrange(0, 0) =~= Seq::empty());
        while i < self.subscribers.len()
            invariant
                i <= self.subscribers.len(),
                s == self.entries(),
                *self == *old(self),
                first_with_id(s.subrange(0, i as int), subscriber_id@) is None,
            decreases self.subscribers.len() - i,
        {
            let ghost part = s.subrange(0, i + 1);
            assert(part.drop_last() =~= s.subrange(0, i as int));
            assert(part.last() == self.subscribers@[i as int]@);
            if str_eq(self.subscribers[i].id.as_str(), subscriber_id) {
                proof {
                    lemma_first_with_id(s, i + 1, subscriber_id@);
                    assert(first_with_id(s, subscriber_id@) == Some(i as int));
                }
                let _gone = self.subscribers.remove(i);
                assert(self.entries() =~= s.remove(i as int));
                return true;
            }
            i = i + 1;
        }
        assert(s.subrange(0, s.len() as int) =~= s);
        false
    }

    /// Remove the subscribers bound to this event type; how many there were.
    pub fn unsubscribe_by_event_type(&mut self, event_type: &str) -> (r: usize)
        ensures
            final(self).entries() == without_type(old(self).entries(), event_type@),
            r == old(self).entries().len() - final(self).entries().len(),
            final(self).max_workers == old(self).max_workers,
            final(self).shut_down == old(self).shut_down,
    {
        let ghost s = self.entries();
        let before: usize = self.subscribers.len();
        let mut rest: Vec<SubscriberEntry> = Vec::new();
        std::mem::swap(&mut rest, &mut self.subscribers);
        let mut kept: Vec<SubscriberEntry> = Vec::new();
        assert(s.subrange(0, s.len() as int) =~= s);
        assert(subscribers_view(rest@) =~= s);
        while rest.len() > 0
            invariant
                rest@.len() <= s.len(),
                kept@.len() + rest@.len() <= s.len(),
                s.len() == before,
                subscribers_view(rest@) == s.subrange(0, rest@.len() as int),
                without_type(s, event_type@) == without_type(subscribers_view(rest@), event_type@) + subscribers_view(
                    kept@,
                ),
            decreases rest.len(),
        {
            let ghost prev = subscribers_view(rest@);
            let ghost tail = subscribers_view(kept@);
            let last = rest.pop();
            assert(subscribers_view(rest@) =~= prev.drop_last());
            assert(subscribers_view(rest@) =~= s.subrange(0, rest@.len() as int));
            match last {
                Some(e) => {
                    assert(e@ == prev.last());
                    let bound = match &e.event_type {
                        Some(t) => str_eq(t.as_str(), event_type),
                        None => false,
                    };
                    if !bound {
                        kept.insert(0, e);
                        assert(subscribers_view(kept@) =~= seq![e@] + tail);
                        assert(without_type(prev, event_type@) + tail =~= without_type(prev.drop_last(), event_type@) + (seq![
                            e@,
                        ] + tail));
                    }
                },
                None => {},
            }
        }
        assert(subscribers_view(rest@) =~= Seq::empty());
        assert(without_type(s, event_type@) =~= subscribers_view(kept@));
        self.subscribers = kept;
        before - self.subscribers.len()
    }

    /// The handles of the subscribers that an event goes to, in the order of
    /// subscription; none after shutdown.
    pub fn recipients(&self, event_type: &str) -> (r: Vec<u64>)
        ensures
            r@ == (if self.shut_down {
                Seq::empty()
            } else {
                wanting(self.entries(), event_type@)
            }),
    {
        let mut out: Vec<u64> = Vec::new();
        if self.shut_down {
            return out;
        }
        let ghost s = self.entries();
        let mut i: usize = 0;
        assert(s.subrange(0, 0) =~= Seq::empty());
        while i < self.subscribers.len()
            invariant
                i <= self.subscribers.len(),
                s == self.entries(),
                out@ == wanting(s.subrange(0, i as int), event_type@),
            decreases self.subscribers.len() - i,
        {
            let ghost part = s.subrange(0, i + 1);
            assert(part.drop_last() =~= s.subrange(0, i as int));
            assert(part.last() == self.subscribers@[i as int]@);
            if EventEmitter::matches_pattern(self.subscribers[i].pattern.as_str(), event_type) {
                out.push(self.subscribers[i].handle);
            }
            i = i + 1;
        }
        assert(s.subrange(0, s.len() as int) =~= s);
        out
    }

    /// The handles of the subscribers that an event goes to, where the caller's
    /// pattern fits it too.
    pub fn recipients_filtered(&self, event_type: &str, pattern: &str) -> (r: Vec<u64>)
        ensures
            r@ == (if self.shut_down || !wildcard::fits(pattern@, event_type@) {
                Seq::empty()
            } else {
                wanting(self.entries(), event_type@)
            }),
    {
        if !EventEmitter::matches_pattern(pattern, event_type) {
            return Vec::new();
        }
        self.recipients(event_type)
    }

    /// The handles of the subscribers that are told of a failed delivery.
    pub fn dlq_recipients(&self) -> (r: Vec<u64>)
        ensures
            r@ == wanting_failures(self.entries()),
    {
        let mut out: Vec<u64> = Vec::new();
        let ghost s = self.entries();
        let mut i: usize = 0;
        assert(s.subrange(0, 0) =~= Seq::empty());
        while i < self.subscribers.len()
            invariant
                i <= self.subscribers.len(),
                s == self.entries(),
                out@ == wanting_failures(s.subrange(0, i as int)),
            decreases self.subscribers.len() - i,
        {
            let ghost part = s.subrange(0, i + 1);
            assert(part.drop_last() =~= s.subrange(0, i as int));
            assert(part.last() == self.subscribers@[i as int]@);
            let pattern = self.subscribers[i].pattern.as_str();
            if !str_eq(pattern, "*") && EventEmitter::matches_pattern(pattern, DLQ_EVENT_TYPE) {
                out.push(self.subscribers[i].handle);
            }
            i = i + 1;
        }
        assert(s.subrange(0, s.len() as int) =~= s);
        out
    }

    /// Shut the emitter down; whether pending deliveries are to be waited for,
    /// which is so the first time only.
    pub fn shutdown(&mut self) -> (r: bool)
        ensures
            r == !old(self).shut_down,
            final(self).shut_down,
            final(self).entries() == old(self).entries(),
            final(self).max_workers == old(self).max_workers,
    {
        let first = !self.shut_down;
        self.shut_down = true;
        first
    }

    /// Whether the emitter has been shut down.
    pub fn is_shutdown(&self) -> (r: bool)
        ensures
            r == self.shut_down,
    {
        self.shut_down
    }
}

/// What a flush does about a pending delivery.
#[derive(Debug, Clone, Copy, PartialEq, Eq, Structural)]
pub enum FlushAction {
    /// Wait until it ends.
    Wait,
    /// Wait at most so long.
    WaitAtMost(u64),
    /// Leave it running.
    Leave,
}

/// What a flush that has taken so long does about the next pending delivery. A
/// limit of zero is no limit.
pub fn flush_step(timeout_ms: u64, elapsed_ms: u64) -> (r: FlushAction)
    ensures
        r == (if timeout_ms == 0 {
            FlushAction::Wait
        } else if elapsed_ms >= timeout_ms {
            FlushAction::Leave
        } else {
            FlushAction::WaitAtMost((timeout_ms - elapsed_ms) as u64)
        }),
{
    if timeout_ms == 0 {
        FlushAction::Wait
    } else if elapsed_ms >= timeout_ms {
        FlushAction::Leave
    } else {
        FlushAction::WaitAtMost(timeout_ms - elapsed_ms)
    }
}

/// What comes next in the delivery of an event to a subscriber.
#[derive(Debug)]
pub enum DeliveryStep {
    /// Deliver now.
    Attempt,
    /// There is nothing more to do.
    Done,
    /// Wait, then deliver; the number of failures so far less one tells how
    /// long.
    Backoff(u32),
    /// Every attempt failed; tell those who want to know of it. This is the last
    /// error.
    Exhausted(ModuleError),
    /// Call the failure hook of the subscriber with the last error and the number
    /// of attempts.
    CallHook(ModuleError, u32),
}

/// The mathematical contents of a step.
#[verifier::ext_equal]
pub enum StepView {
    Attempt,
    Done,
    Backoff(u32),
    Exhausted(ErrorView),
    CallHook(ErrorView, u32),
}

impl View for DeliveryStep {
    type V = StepView;

    open spec fn view(&self) -> StepView {
        match self {
            DeliveryStep::Attempt => StepView::Attempt,
            DeliveryStep::Done => StepView::Done,
            DeliveryStep::Backoff(n) => StepView::Backoff(*n),
            DeliveryStep::Exhausted(e) => StepView::Exhausted(e@),
            DeliveryStep::CallHook(e, n) => StepView::CallHook(e@, *n),
        }
    }
}

/// The delivery of an event to a subscriber.
#[derive(Debug)]
pub struct Delivery {
    pub max_attempts: u32,
    pub failures: u32,
}

/// The outcome of an attempt: none, or its error.
pub open spec fn answer_view(answer: Result<(), ModuleError>) -> Option<ErrorView> {
    match answer {
        Ok(_) => None,
        Err(e) => Some(e@),
    }
}

/// What follows an attempt, after so many failures.
pub open spec fn after_attempt(max_attempts: u32, failures: u32, error: Option<ErrorView>) -> StepView {
    match error {
        None => StepView::Done,
        Some(e) => if failures + 1 < max_attempts {
            StepView::Backoff(failures)
        } else {
            StepView::Exhausted(e)
        },
    }
}

impl Delivery {
    /// Start a delivery. Where no attempt is allowed it fails at once.
    pub fn start(max_attempts: u32) -> (r: (Self, DeliveryStep))
        ensures
            r.0 == (Delivery { max_attempts, failures: 0 }),
            match r.1 {
                DeliveryStep::Attempt => max_attempts > 0,
                DeliveryStep::Exhausted(e) => max_attempts == 0 && e@ == errors::plain_error(
                    ErrorCode::GeneralInternalError,
                    "unknown delivery failure"@,
                    e@.timestamp,
                ),
                _ => false,
            },
    {
        let d = Delivery { max_attempts, failures: 0 };
        if max_attempts == 0 {
            return (
                d,
                DeliveryStep::Exhausted(
                    ModuleError::new(ErrorCode::GeneralInternalError, "unknown delivery failure"),
                ),
            );
        }
        (d, DeliveryStep::Attempt)
    }

    /// What follows an attempt.
    pub fn settle(&mut self, answer: Result<(), ModuleError>) -> (r: DeliveryStep)
        requires
            old(self).failures < old(self).max_attempts,
        ensures
            final(self).max_attempts == old(self).max_attempts,
            final(self).failures == old(self).failures + (if answer is Ok {
                0int
            } else {
                1int
            }),
            r@ == after_attempt(old(self).max_attempts, old(self).failures, answer_view(answer)),
    {
        match answer {
            Ok(_) => DeliveryStep::Done,
            Err(e) => {
                let k: u32 = self.failures;
                self.failures = k + 1;
                if self.failures < self.max_attempts {
                    DeliveryStep::Backoff(k)
                } else {
                    DeliveryStep::Exhausted(e)
                }
            },
        }
    }

    /// What follows once those who want to know of the failure were told: the
    /// failure hook, with the error and the number of attempts. The delivery is
    /// over with it.
    pub fn told(&self, error: ModuleError) -> (r: DeliveryStep)
        ensures
            r@ == StepView::CallHook(error@, self.max_attempts),
    {
        DeliveryStep::CallHook(error, self.max_attempts)
    }
}

/// The steps of a delivery whose attempts have these outcomes, after so many
/// failures.
pub open spec fn steps_of(max_attempts: u32, failures: u32, outcomes: Seq<Option<ErrorView>>) -> Seq<StepView>
    decreases outcomes.len(),
{
    if outcomes.len() == 0 {
        Seq::empty()
    } else {
        let next = after_attempt(max_attempts, failures, outcomes[0]);
        seq![StepView::Attempt, next] + match next {
            StepView::Backoff(_) => steps_of(max_attempts, (failures + 1) as u32, outcomes.skip(1)),
            StepView::Exhausted(e) => seq![StepView::CallHook(e, max_attempts)],
            _ => Seq::empty(),
        }
    }
}

/// How many of the steps are attempts.
pub open spec fn attempts_in(s: Seq<StepView>) -> int
    decreases s.len(),
{
    if s.len() == 0 {
        0
    } else {
        attempts_in(s.drop_last()) + (if s.last() is Attempt {
            1int
        } else {
            0int
        })
    }
}

/// How many of the steps call the failure hook.
pub open spec fn hook_calls_in(s: Seq<StepView>) -> int
    decreases s.len(),
{
    if s.len() == 0 {
        0
    } else {
        hook_calls_in(s.drop_last()) + (if s.last() is CallHook {
            1int
        } else {
            0int
        })
    }
}

proof fn lemma_counts_add_up(a: Seq<StepView>, b: Seq<StepView>)
    ensures
        attempts_in(a + b) == attempts_in(a) + attempts_in(b),
        hook_calls_in(a + b) == hook_calls_in(a) + hook_calls_in(b),
    decreases b.len(),
{
    if b.len() == 0 {
        assert(a + b =~= a);
    } else {
        assert((a + b).drop_last() =~= a + b.drop_last());
        lemma_counts_add_up(a, b.drop_last());
    }
}

proof fn lemma_counts_of_two(x: StepView)
    ensures
        attempts_in(seq![StepView::Attempt, x]) == 1 + (if x is Attempt {
            1int
        } else {
            0int
        }),
        hook_calls_in(seq![StepView::Attempt, x]) == (if x is CallHook {
            1int
        } else {
            0int
        }),
        attempts_in(seq![x]) == (if x is Attempt {
            1int
        } else {
            0int
        }),
        hook_calls_in(seq![x]) == (if x is CallHook {
            1int
        } else {
            0int
        }),
{
    let two = seq![StepView::Attempt, x];
    let one = seq![StepView::Attempt];
    assert(two.drop_last() =~= one);
    assert(one.drop_last() =~= Seq::empty());
    assert(seq![x].drop_last() =~= Seq::empty());
    reveal_with_fuel(attempts_in, 3);
    reveal_with_fuel(hook_calls_in, 3);
}

/// A delivery whose every attempt fails is tried as often as is allowed, then
/// those who want to know are told of the last error, and last the failure hook is
/// called, once, with that error and the number of attempts.
pub proof fn a_failure_is_reported_once(max_attempts: u32, failures: u32, outcomes: Seq<Option<ErrorView>>)
    requires
        failures < max_attempts,
        outcomes.len() == max_attempts - failures,
        forall|i: int| 0 <= i < outcomes.len() ==> (#[trigger] outcomes[i]) is Some,
    ensures
        ({
            let s = steps_of(max_attempts, failures, outcomes);
            let last = outcomes.last()->0;
            &&& attempts_in(s) == outcomes.len()
            &&& hook_calls_in(s) == 1
            &&& s.len() >= 2
            &&& s[s.len() - 2] == StepView::Exhausted(last)
            &&& s[s.len() - 1] == StepView::CallHook(last, max_attempts)
        }),
    decreases outcomes.len(),
{
    let next = after_attempt(max_attempts, failures, outcomes[0]);
    let head = seq![StepView::Attempt, next];
    lemma_counts_of_two(next);
    if failures + 1 < max_attempts {
        let rest = outcomes.skip(1);
        assert forall|i: int| 0 <= i < rest.len() implies (#[trigger] rest[i]) is Some by {
            assert(rest[i] == outcomes[i + 1]);
        }
        a_failure_is_reported_once(max_attempts, (failures + 1) as u32, rest);
        lemma_counts_add_up(head, steps_of(max_attempts, (failures + 1) as u32, rest));
        assert(rest.last() == outcomes.last());
    } else {
        let hook = StepView::CallHook(outcomes[0]->0, max_attempts);
        lemma_counts_of_two(hook);
        lemma_counts_add_up(head, seq![hook]);
        assert(steps_of(max_attempts, failures, outcomes) =~= head + seq![hook]);
    }
}

/// A delivery of which one attempt succeeds ends with it: no failure is told, and
/// the failure hook is not called.
pub proof fn a_success_ends_the_delivery(max_attempts: u32, failures: u32, outcomes: Seq<Option<ErrorView>>)
    requires
        failures < max_attempts,
        0 < outcomes.len() <= max_attempts - failures,
        outcomes.last() is None,
        forall|i: int| 0 <= i < outcomes.len() - 1 ==> (#[trigger] outcomes[i]) is Some,
    ensures
        ({
            let s = steps_of(max_attempts, failures, outcomes);
            &&& attempts_in(s) == outcomes.len()
            &&& hook_calls_in(s) == 0
            &&& s.last() is Done
        }),
    decreases outcomes.len(),
{
    let next = after_attempt(max_attempts, failures, outcomes[0]);
    let head = seq![StepView::Attempt, next];
    lemma_counts_of_two(next);
    if outcomes.len() > 1 {
        let rest = outcomes.skip(1);
        assert(outcomes[0] is Some);
        assert forall|i: int| 0 <= i < rest.len() - 1 implies (#[trigger] rest[i]) is Some by {
            assert(rest[i] == outcomes[i + 1]);
        }
        assert(rest.last() == outcomes.last());
        a_success_ends_the_delivery(max_attempts, (failures + 1) as u32, rest);
        lemma_counts_add_up(head, steps_of(max_attempts, (failures + 1) as u32, rest));
    } else {
        assert(outcomes[0] == outcomes.last());
        assert(steps_of(max_attempts, failures, outcomes) =~= head);
    }
}

/// The event that tells of a delivery that failed for good.
pub open spec fn failed_delivery(
    subscriber_type: Seq<char>,
    subscriber_id: Seq<char>,
    event: EventView,
    error: ErrorView,
    attempts: int,
    now: Timestamp,
) -> EventView {
    EventView {
        event_type: DLQ_EVENT_TYPE@,
        timestamp: clock::offset_time_text(now),
        data: Json::Obj(
            map![
                "subscriber_type"@ => Json::Str(subscriber_type),
                "subscriber_id"@ => Json::Str(subscriber_id),
                "original_event"@ => Json::Obj(
                    map![
                        "event_type"@ => Json::Str(event.event_type),
                        "data"@ => event.data,
                        "timestamp"@ => Json::Str(event.timestamp)
                    ],
                ),
                "error"@ => Json::Obj(
                    map!["type"@ => Json::Str(error_code::code_name(error.code)), "message"@ => Json::Str(error.message)],
                ),
                "attempt_count"@ => Json::PosInt(attempts),
                "timestamp"@ => Json::Str(clock::offset_time_text(now))
            ],
        ),
        module_id: None,
        severity: "info"@,
    }
}

/// The event that tells of a delivery that failed for good.
pub fn dlq_event(
    subscriber_type: &str,
    subscriber_id: &str,
    event: &ApCoreEvent,
    error: &ModuleError,
    attempts: u32,
    now: Timestamp,
) -> (r: ApCoreEvent)
    ensures
        r@ == failed_delivery(subscriber_type@, subscriber_id@, event@, error@, attempts as int, now),
{
    broadcast use crate::json::lemma_value_view;
    let mut original = empty_object();
    put(&mut original, "event_type", JsonValue::str(event.event_type.as_str()));
    put(&mut original, "data", event.data.clone());
    put(&mut original, "timestamp", JsonValue::str(event.timestamp.as_str()));
    let mut err = empty_object();
    put(&mut err, "type", JsonValue::str(error.code.name()));
    put(&mut err, "message", JsonValue::str(error.message.as_str()));
    let mut m = empty_object();
    put(&mut m, "subscriber_type", JsonValue::str(subscriber_type));
    put(&mut m, "subscriber_id", JsonValue::str(subscriber_id));
    put(&mut m, "original_event", JsonValue::Object(original));
    put(&mut m, "error", JsonValue::Object(err));
    put(&mut m, "attempt_count", JsonValue::uint(attempts as u64));
    put(&mut m, "timestamp", JsonValue::String(now.to_offset_text()));
    ApCoreEvent::at(DLQ_EVENT_TYPE, JsonValue::Object(m), None, "info", now)
}

/// A subscriber that wants everything is not told of failed deliveries.
pub proof fn catch_all_is_not_told_of_failures(s: Seq<SubscriberView>)
    requires
        forall|i: int| 0 <= i < s.len() ==> (#[trigger] s[i]).pattern == "*"@,
    ensures
        wanting_failures(s) == Seq::<u64>::empty(),
    decreases s.len(),
{
    if s.len() > 0 {
        assert forall|i: int| 0 <= i < s.drop_last().len() implies (#[trigger] s.drop_last()[i]).pattern == "*"@ by {
            assert(s.drop_last()[i] == s[i]);
        }
        catch_all_is_not_told_of_failures(s.drop_last());
        assert(s[s.len() - 1].pattern == "*"@);
    }
}

/// A subscriber that wants everything gets every event.
pub proof fn catch_all_gets_everything(s: Seq<SubscriberView>, i: int, event_type: Seq<char>)
    requires
        0 <= i < s.len(),
        s[i].pattern == "*"@,
    ensures
        wanting(s, event_type).contains(s[i].handle),
    decreases s.len(),
{
    reveal_strlit("*");
    assert("*"@ =~= seq!['*']);
    wildcard::star_fits_everything(event_type);
    let n = wanting(s.drop_last(), event_type);
    if i == s.len() - 1 {
        assert(n.push(s[i].handle)[n.len() as int] == s[i].handle);
    } else {
        catch_all_gets_everything(s.drop_last(), i, event_type);
        let k = choose|k: int| 0 <= k < n.len() && n[k] == s[i].handle;
        assert(wanting(s, event_type)[k] == s[i].handle);
    }
}

/// Unsubscribing takes one subscriber away, or none where none has the identifier.
pub proof fn unsubscribing_takes_one(s: Seq<SubscriberView>, id: Seq<char>)
    ensures
        first_with_id(s, id) is Some ==> without_id(s, id).len() == s.len() - 1,
        first_with_id(s, id) is None ==> without_id(s, id) == s,
{
    lemma_first_with_id(s, s.len() as int, id);
}

/// An event goes to exactly those whose pattern fits its type, in the order in
/// which they subscribed.
pub proof fn those_whose_pattern_fits_get_the_event(s: Seq<SubscriberView>, event_type: Seq<char>)
    ensures
        wanting(s, event_type) == s.filter(|x: SubscriberView| wildcard::fits(x.pattern, event_type)).map_values(
            |x: SubscriberView| x.handle,
        ),
    decreases s.len(),
{
    reveal(Seq::filter);
    let fit = |x: SubscriberView| wildcard::fits(x.pattern, event_type);
    if s.len() > 0 {
        let p = s.drop_last();
        those_whose_pattern_fits_get_the_event(p, event_type);
        if wildcard::fits(s.last().pattern, event_type) {
            assert(s.filter(fit) =~= p.filter(fit).push(s.last()));
        } else {
            assert(s.filter(fit) =~= p.filter(fit));
        }
    }
    assert(wanting(s, event_type) =~= s.filter(fit).map_values(|x: SubscriberView| x.handle));
}

/// A failed delivery is told to exactly those whose pattern fits the type of such
/// events and is not the one that fits everything.
pub proof fn those_who_ask_for_failures_are_told(s: Seq<SubscriberView>)
    ensures
        wanting_failures(s) == s.filter(
            |x: SubscriberView| x.pattern != "*"@ && wildcard::fits(x.pattern, DLQ_EVENT_TYPE@),
        ).map_values(|x: SubscriberView| x.handle),
    decreases s.len(),
{
    reveal(Seq::filter);
    let fit = |x: SubscriberView| x.pattern != "*"@ && wildcard::fits(x.pattern, DLQ_EVENT_TYPE@);
    if s.len() > 0 {
        let p = s.drop_last();
        those_who_ask_for_failures_are_told(p);
        if fit(s.last()) {
            assert(s.filter(fit) =~= p.filter(fit).push(s.last()));
        } else {
            assert(s.filter(fit) =~= p.filter(fit));
        }
    }
    assert(wanting_failures(s) =~= s.filter(fit).map_values(|x: SubscriberView| x.handle));
}

/// To unsubscribe by an identifier takes the first subscriber that has it; the
/// others stay in their order.
pub proof fn the_first_of_an_identifier_leaves(s: Seq<SubscriberView>, id: Seq<char>, i: int)
    requires
        0 <= i < s.len(),
        s[i].id == id,
        forall|j: int| 0 <= j < i ==> (#[trigger] s[j]).id != id,
    ensures
        first_with_id(s, id) == Some(i),
        without_id(s, id) == s.remove(i),
    decreases s.len(),
{
    let p = s.drop_last();
    if i < p.len() {
        assert(p[i] == s[i]);
        assert forall|j: int| 0 <= j < i implies (#[trigger] p[j]).id != id by {
            assert(s[j].id != id);
        }
        the_first_of_an_identifier_leaves(p, id, i);
    } else {
        lemma_none_with_id(p, id);
    }
}

proof fn lemma_none_with_id(s: Seq<SubscriberView>, id: Seq<char>)
    requires
        forall|j: int| 0 <= j < s.len() ==> (#[trigger] s[j]).id != id,
    ensures
        first_with_id(s, id) is None,
    decreases s.len(),
{
    if s.len() > 0 {
        assert forall|j: int| 0 <= j < s.drop_last().len() implies (#[trigger] s.drop_last()[j]).id != id by {
            assert(s[j].id != id);
        }
        assert(s[s.len() - 1].id != id);
        lemma_none_with_id(s.drop_last(), id);
    }
}

/// Where nobody has an identifier, nobody leaves by it.
pub proof fn an_unknown_identifier_takes_nobody(s: Seq<SubscriberView>, id: Seq<char>)
    requires
        forall|j: int| 0 <= j < s.len() ==> (#[trigger] s[j]).id != id,
    ensures
        without_id(s, id) == s,
{
    lemma_none_with_id(s, id);
}

/// To unsubscribe a type takes all subscribers of that type and no others.
pub proof fn all_of_a_type_leave(s: Seq<SubscriberView>, event_type: Seq<char>)
    ensures
        without_type(s, event_type) == s.filter(|x: SubscriberView| x.event_type != Some(event_type)),
        forall|i: int| 0 <= i < s.len() && (#[trigger] s[i]).event_type != Some(event_type) ==> without_type(
            s,
            event_type,
        ).contains(s[i]),
        forall|i: int|
            0 <= i < without_type(s, event_type).len() ==> (#[trigger] without_type(s, event_type)[i]).event_type != Some(
                event_type,
            ),
    decreases s.len(),
{
    reveal(Seq::filter);
    if s.len() > 0 {
        let p = s.drop_last();
        all_of_a_type_leave(p, event_type);
        let r = without_type(s, event_type);
        let q = without_type(p, event_type);
        assert forall|i: int| 0 <= i < s.len() && (#[trigger] s[i]).event_type != Some(event_type) implies r.contains(s[i]) by {
            if i < p.len() {
                assert(p[i] == s[i]);
                assert(q.contains(s[i]));
                let j = choose|j: int| 0 <= j < q.len() && q[j] == s[i];
                assert(r[j] == s[i]);
            } else {
                assert(r.last() == s[i]);
            }
        }
        assert forall|i: int| 0 <= i < r.len() implies (#[trigger] r[i]).event_type != Some(event_type) by {
            if i < q.len() {
                assert(r[i] == q[i]);
            }
        }
    }
}

/// A delivery that succeeds is done; one that fails waits for another attempt as
/// long as there is one, and is given up with its error after the last.
pub proof fn an_attempt_leads_on(max_attempts: u32, failures: u32, e: ErrorView)
    ensures
        after_attempt(max_attempts, failures, None) == StepView::Done,
        failures + 1 < max_attempts ==> after_attempt(max_attempts, failures, Some(e)) == StepView::Backoff(failures),
        failures + 1 >= max_attempts ==> after_attempt(max_attempts, failures, Some(e)) == StepView::Exhausted(e),
{
}

/// The event of a failed delivery tells to whom it failed, which event it was,
/// with what error, and after how many attempts.
pub proof fn a_failed_delivery_is_told_whole(
    subscriber_type: Seq<char>,
    subscriber_id: Seq<char>,
    event: EventView,
    error: ErrorView,
    attempts: int,
    now: Timestamp,
)
    ensures
        ({
            let r = failed_delivery(subscriber_type, subscriber_id, event, error, attempts, now);
            &&& r.event_type == DLQ_EVENT_TYPE@
            &&& json::json_get(r.data, "subscriber_type"@) == Some(Json::Str(subscriber_type))
            &&& json::json_get(r.data, "subscriber_id"@) == Some(Json::Str(subscriber_id))
            &&& json::json_get(r.data, "attempt_count"@) == Some(Json::PosInt(attempts))
            &&& json::json_get(r.data, "original_event"@) matches Some(o) && json::json_get(o, "event_type"@) == Some(
                Json::Str(event.event_type),
            ) && json::json_get(o, "data"@) == Some(event.data) && json::json_get(o, "timestamp"@) == Some(
                Json::Str(event.timestamp),
            )
            &&& json::json_get(r.data, "error"@) matches Some(x) && json::json_get(x, "message"@) == Some(
                Json::Str(error.message),
            ) && json::json_get(x, "type"@) == Some(Json::Str(error_code::code_name(error.code)))
        }),
{
    reveal_strlit("subscriber_type");
    reveal_strlit("subscriber_id");
    reveal_strlit("attempt_count");
    reveal_strlit("original_event");
    reveal_strlit("event_type");
    reveal_strlit("data");
    reveal_strlit("timestamp");
    reveal_strlit("error");
    reveal_strlit("message");
    reveal_strlit("type");
    assert("subscriber_type"@.len() == 15 && "subscriber_id"@.len() == 13 && "attempt_count"@.len() == 13);
    assert("original_event"@.len() == 14 && "event_type"@.len() == 10 && "data"@.len() == 4 && "timestamp"@.len() == 9);
    assert("error"@.len() == 5 && "message"@.len() == 7 && "type"@.len() == 4);
    assert("subscriber_id"@[0] != "attempt_count"@[0] && "data"@[0] != "type"@[0]);
}

} // verus!
