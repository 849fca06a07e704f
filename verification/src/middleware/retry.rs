//! Retries of failed calls.
use vstd::prelude::*;
use vstd::string::*;
use crate::errors::ModuleError;
use crate::json::{empty_object, Json, JsonValue, lookup, put};
use crate::strmap::StrMap;
use crate::text::str_eq;
use crate::json;

verus! {

/// Configuration of retries.
#[derive(Debug)]
pub struct RetryConfig {
    pub max_retries: u32,
    /// `"fixed"`, or anything else for exponential backoff.
    pub strategy: String,
    pub base_delay_ms: u64,
    pub max_delay_ms: u64,
    pub jitter: bool,
}

fn default_strategy() -> (r: String)
    ensures
        r@ == "exponential"@,
{
    "exponential".to_owned()
}

fn default_base_delay() -> (r: u64)
    ensures
        r == 100,
{
    100
}

fn default_max_delay() -> (r: u64)
    ensures
        r == 5000,
{
    5000
}

fn default_jitter() -> (r: bool)
    ensures
        r,
{
    true
}

/// A configuration with this number of retries and defaults for the rest.
pub open spec fn has_retry_defaults(c: RetryConfig, max_retries: int) -> bool {
    c.max_retries == max_retries && c.strategy@ == "exponential"@ && c.base_delay_ms == 100 && c.max_delay_ms == 5000
        && c.jitter
}

impl Default for RetryConfig {
    fn default() -> (r: Self)
        ensures
            has_retry_defaults(r, 3),
    {
        RetryConfig {
            max_retries: 3,
            strategy: default_strategy(),
            base_delay_ms: default_base_delay(),
            max_delay_ms: default_max_delay(),
            jitter: default_jitter(),
        }
    }
}

/// A number doubled so many times.
pub open spec fn doubled(base: nat, times: nat) -> nat
    decreases times,
{
    if times == 0 {
        base
    } else {
        2 * doubled(base, (times - 1) as nat)
    }
}

/// Doubling does not make a number smaller.
pub proof fn lemma_doubled_grows(base: nat, a: nat, b: nat)
    requires
        a <= b,
    ensures
        doubled(base, a) <= doubled(base, b),
    decreases b,
{
    if a < b {
        lemma_doubled_grows(base, a, (b - 1) as nat);
    }
}

/// The delay before a retry, without jitter: the base delay, doubled with each
/// attempt unless the strategy is fixed, and then at most the maximum.
pub open spec fn plain_delay(c: RetryConfig, attempt: nat) -> nat {
    if c.strategy@ == "fixed"@ {
        c.base_delay_ms as nat
    } else if doubled(c.base_delay_ms as nat, attempt) <= c.max_delay_ms {
        doubled(c.base_delay_ms as nat, attempt)
    } else {
        c.max_delay_ms as nat
    }
}

/// The delay in whole milliseconds. Jitter scales it by a factor from one half
/// up to one and a half, in millionths, taken from the clock.
pub open spec fn delay_ms(c: RetryConfig, attempt: nat, nanos: nat) -> nat {
    if c.jitter {
        plain_delay(c, attempt) * (500000 + nanos % 1000000) / 1000000
    } else {
        plain_delay(c, attempt)
    }
}

/// What to do about an error.
#[derive(Debug, Clone, Copy, PartialEq, Eq, Structural)]
pub enum RetryDecision {
    /// Let the error through.
    Propagate,
    /// Run the call again after so many milliseconds.
    RetryAfter(u128),
}

/// The retry middleware. It counts retries per module.
#[derive(Debug)]
pub struct RetryMiddleware {
    pub config: RetryConfig,
    pub retry_counts: StrMap<u32>,
}

impl RetryMiddleware {
    /// The number of retries since a module last succeeded.
    pub open spec fn retries(self, module_id: Seq<char>) -> int {
        if self.retry_counts@.contains_key(module_id) {
            self.retry_counts@[module_id] as int
        } else {
            0
        }
    }

    /// A middleware that has counted nothing.
    pub fn new(config: RetryConfig) -> (r: Self)
        ensures
            r.config == config,
            forall|m: Seq<char>| #[trigger] r.retries(m) == 0,
    {
        RetryMiddleware { config, retry_counts: StrMap::new() }
    }

    /// The name of the middleware.
    pub fn name(&self) -> (r: &'static str)
        ensures
            r@ == "retry"@,
    {
        "retry"
    }

    /// The delay before a retry; `nanos` are those of the clock.
    pub fn calculate_delay(&self, attempt: u32, nanos: u32) -> (r: u128)
        ensures
            r == delay_ms(self.config, attempt as nat, nanos as nat),
    {
        let delay: u64 = if str_eq(self.config.strategy.as_str(), "fixed") {
            self.config.base_delay_ms
        } else {
            capped_doubling(self.config.base_delay_ms, attempt, self.config.max_delay_ms)
        };
        if self.config.jitter {
            let part: u32 = nanos % 1000000;
            let factor: u128 = 500000 + part as u128;
            proof {
                assert(0 <= delay * factor <= 0xffff_ffff_ffff_ffff * 1500000) by (nonlinear_arith)
                    requires
                        0 <= delay <= 0xffff_ffff_ffff_ffff,
                        0 <= factor <= 1500000,
                ;
            }
            (delay as u128) * factor / 1000000
        } else {
            delay as u128
        }
    }

    /// After a success the count of the module starts again.
    pub fn after(&mut self, module_id: &str)
        ensures
            final(self).config == old(self).config,
            final(self).retries(module_id@) == 0,
            forall|m: Seq<char>| m != module_id@ ==> #[trigger] final(self).retries(m) == old(self).retries(m),
    {
        let _count = self.retry_counts.remove(module_id);
    }

    /// After a failure: retry an error that is marked retryable, as long as the
    /// module has retries left.
    pub fn on_error(&mut self, module_id: &str, error: &ModuleError, nanos: u32) -> (r: RetryDecision)
        ensures
            final(self).config == old(self).config,
            forall|m: Seq<char>| m != module_id@ ==> #[trigger] final(self).retries(m) == old(self).retries(m),
            if error.retryable == Some(true) && old(self).retries(module_id@) < old(self).config.max_retries {
                r == RetryDecision::RetryAfter(
                    delay_ms(old(self).config, old(self).retries(module_id@) as nat, nanos as nat) as u128,
                ) && final(self).retries(module_id@) == old(self).retries(module_id@) + 1
            } else {
                r == RetryDecision::Propagate && final(self).retries(module_id@) == old(self).retries(module_id@)
            },
    {
        match error.retryable {
            Some(b) => if !b {
                return RetryDecision::Propagate;
            },
            None => {
                return RetryDecision::Propagate;
            },
        }
        let count: u32 = match self.retry_counts.get(module_id) {
            Some(n) => *n,
            None => 0,
        };
        if count >= self.config.max_retries {
            return RetryDecision::Propagate;
        }
        let delay: u128 = self.calculate_delay(count, nanos);
        self.retry_counts.insert(module_id.to_owned(), count + 1);
        RetryDecision::RetryAfter(delay)
    }
}

/// A number doubled so many times, at most the maximum.
fn capped_doubling(base: u64, times: u32, max: u64) -> (r: u64)
    ensures
        r == (if doubled(base as nat, times as nat) <= max {
            doubled(base as nat, times as nat)
        } else {
            max as nat
        }),
{
    if base == 0 {
        proof {
            lemma_doubled_zero(times as nat);
        }
        return 0;
    }
    let mut d: u128 = base as u128;
    let mut i: u32 = 0;
    while i < times && d <= max as u128
        invariant
            i <= times,
            d == doubled(base as nat, i as nat),
            d <= 2 * 0xffff_ffff_ffff_ffff,
        decreases times - i,
    {
        d = d * 2;
        i = i + 1;
    }
    proof {
        lemma_doubled_grows(base as nat, i as nat, times as nat);
    }
    if d <= max as u128 {
        d as u64
    } else {
        max
    }
}

proof fn lemma_doubled_zero(times: nat)
    ensures
        doubled(0, times) == 0,
    decreases times,
{
    if times > 0 {
        lemma_doubled_zero((times - 1) as nat);
    }
}

/// Without jitter the delay of exponential backoff is at most the maximum.
pub proof fn delay_is_capped(c: RetryConfig, attempt: nat, nanos: nat)
    requires
        c.strategy@ != "fixed"@,
        !c.jitter,
    ensures
        delay_ms(c, attempt, nanos) <= c.max_delay_ms,
{
}

/// Jitter keeps the delay between half the plain delay and one and a half times
/// it.
pub proof fn jitter_stays_in_range(c: RetryConfig, attempt: nat, nanos: nat)
    requires
        c.jitter,
    ensures
        plain_delay(c, attempt) / 2 <= delay_ms(c, attempt, nanos),
        2 * delay_ms(c, attempt, nanos) <= 3 * plain_delay(c, attempt),
{
    let d = plain_delay(c, attempt);
    let f = 500000 + nanos % 1000000;
    assert(500000 <= f < 1500000);
    assert(d * 500000 <= d * f && d * f <= d * 1500000) by (nonlinear_arith)
        requires
            500000 <= f < 1500000,
            d >= 0,
    ;
}

/// Reads a configuration: the number of retries must be given, the rest
/// defaults.
pub open spec fn retry_config_fits(m: Map<Seq<char>, Json>) -> bool {
    &&& m.contains_key("max_retries"@)
    &&& m["max_retries"@] matches Json::PosInt(n) && n <= u32::MAX
    &&& m.contains_key("strategy"@) ==> m["strategy"@] is Str
    &&& m.contains_key("base_delay_ms"@) ==> m["base_delay_ms"@] is PosInt
    &&& m.contains_key("max_delay_ms"@) ==> m["max_delay_ms"@] is PosInt
    &&& m.contains_key("jitter"@) ==> m["jitter"@] is Bool
}

/// The fields of a configuration that are given as a list, in their order; the
/// last ones may be left out.
pub open spec fn listed_retry_fields(s: Seq<Json>) -> Map<Seq<char>, Json> {
    let m0 = Map::<Seq<char>, Json>::empty();
    let m1 = if s.len() > 0 {
        m0.insert("max_retries"@, s[0])
    } else {
        m0
    };
    let m2 = if s.len() > 1 {
        m1.insert("strategy"@, s[1])
    } else {
        m1
    };
    let m3 = if s.len() > 2 {
        m2.insert("base_delay_ms"@, s[2])
    } else {
        m2
    };
    let m4 = if s.len() > 3 {
        m3.insert("max_delay_ms"@, s[3])
    } else {
        m3
    };
    if s.len() > 4 {
        m4.insert("jitter"@, s[4])
    } else {
        m4
    }
}

/// The fields of a configuration: those of an object, or a list of at most all
/// of them.
pub open spec fn retry_fields(v: Json) -> Option<Map<Seq<char>, Json>> {
    match v {
        Json::Obj(m) => Some(m),
        Json::Arr(s) => if s.len() <= 5 {
            Some(listed_retry_fields(s))
        } else {
            None
        },
        _ => None,
    }
}

/// The number under a name, or a default.
pub open spec fn number_or(m: Map<Seq<char>, Json>, k: Seq<char>, default: int) -> int {
    if m.contains_key(k) {
        m[k]->PosInt_0
    } else {
        default
    }
}

/// Whether a configuration has the values of fields, and the defaults for the
/// others.
pub open spec fn has_retry_fields(c: RetryConfig, m: Map<Seq<char>, Json>) -> bool {
    &&& c.max_retries == m["max_retries"@]->PosInt_0
    &&& c.strategy@ == (if m.contains_key("strategy"@) {
        m["strategy"@]->Str_0
    } else {
        "exponential"@
    })
    &&& c.base_delay_ms == number_or(m, "base_delay_ms"@, 100)
    &&& c.max_delay_ms == number_or(m, "max_delay_ms"@, 5000)
    &&& c.jitter == (if m.contains_key("jitter"@) {
        m["jitter"@]->Bool_0
    } else {
        true
    })
}

impl RetryConfig {
    /// Read a configuration from a JSON object of its fields, or from a list of
    /// them.
    pub fn from_json(v: &JsonValue) -> (r: Option<RetryConfig>)
        ensures
            match r {
                Some(c) => retry_fields(v@) matches Some(m) && retry_config_fits(m) && has_retry_fields(c, m),
                None => !(retry_fields(v@) matches Some(m) && retry_config_fits(m)),
            },
    {
        match v.as_object() {
            Some(m) => {
                return RetryConfig::from_fields(m);
            },
            None => {},
        }
        match v.as_array() {
            Some(a) => {
                if a.len() > 5 {
                    return None;
                }
                let mut m = empty_object();
                if a.len() > 0 {
                    put(&mut m, "max_retries", a[0].clone());
                }
                if a.len() > 1 {
                    put(&mut m, "strategy", a[1].clone());
                }
                if a.len() > 2 {
                    put(&mut m, "base_delay_ms", a[2].clone());
                }
                if a.len() > 3 {
                    put(&mut m, "max_delay_ms", a[3].clone());
                }
                if a.len() > 4 {
                    put(&mut m, "jitter", a[4].clone());
                }
                assert(json::object_view(m) =~= listed_retry_fields(json::values_view(a@)));
                RetryConfig::from_fields(&m)
            },
            None => None,
        }
    }

    fn from_fields(m: &StrMap<JsonValue>) -> (r: Option<RetryConfig>)
        ensures
            match r {
                Some(c) => retry_config_fits(json::object_view(*m)) && has_retry_fields(c, json::object_view(*m)),
                None => !retry_config_fits(json::object_view(*m)),
            },
    {
        let max_retries: u32 = match lookup(m, "max_retries") {
            Some(x) => match x.as_u64() {
                Some(n) => if n <= u32::MAX as u64 {
                    n as u32
                } else {
                    return None;
                },
                None => {
                    return None;
                },
            },
            None => {
                return None;
            },
        };
        let strategy = match lookup(m, "strategy") {
            Some(x) => match x.as_str() {
                Some(s) => s.to_owned(),
                None => {
                    return None;
                },
            },
            None => default_strategy(),
        };
        let base_delay_ms: u64 = match lookup(m, "base_delay_ms") {
            Some(x) => match x.as_u64() {
                Some(n) => n,
                None => {
                    return None;
                },
            },
            None => default_base_delay(),
        };
        let max_delay_ms: u64 = match lookup(m, "max_delay_ms") {
            Some(x) => match x.as_u64() {
                Some(n) => n,
                None => {
                    return None;
                },
            },
            None => default_max_delay(),
        };
        let jitter = match lookup(m, "jitter") {
            Some(x) => match x.as_bool() {
                Some(b) => b,
                None => {
                    return None;
                },
            },
            None => default_jitter(),
        };
        Some(RetryConfig { max_retries, strategy, base_delay_ms, max_delay_ms, jitter })
    }
}

/// Without jitter a fixed strategy waits the base delay each time; else the delay
/// is the base delay at first and doubles from attempt to attempt, up to the
/// longest.
pub proof fn delays_double_up_to_the_longest(c: RetryConfig, attempt: nat, nanos: nat)
    requires
        !c.jitter,
    ensures
        c.strategy@ == "fixed"@ ==> delay_ms(c, attempt, nanos) == c.base_delay_ms,
        c.strategy@ != "fixed"@ ==> {
            let now = delay_ms(c, attempt, nanos);
            let then = delay_ms(c, attempt + 1, nanos);
            &&& c.base_delay_ms <= c.max_delay_ms ==> delay_ms(c, 0, nanos) == c.base_delay_ms
            &&& c.base_delay_ms > c.max_delay_ms ==> delay_ms(c, 0, nanos) == c.max_delay_ms
            &&& 2 * now <= c.max_delay_ms ==> then == 2 * now
            &&& 2 * now > c.max_delay_ms ==> then == c.max_delay_ms
        },
{
    lemma_doubled_grows(c.base_delay_ms as nat, attempt, attempt + 1);
    assert(doubled(c.base_delay_ms as nat, attempt + 1) == 2 * doubled(c.base_delay_ms as nat, attempt));
}

/// Jitter takes a delay times a factor from one half to three halves, which grows
/// with the drawn number.
pub proof fn jitter_follows_the_draw(c: RetryConfig, attempt: nat, nanos: nat)
    requires
        c.jitter,
    ensures
        ({
            let plain = delay_ms(RetryConfig { jitter: false, ..c }, attempt, nanos);
            let share = 500_000 + nanos % 1_000_000;
            let r = delay_ms(c, attempt, nanos);
            r * 1_000_000 <= plain * share < (r + 1) * 1_000_000
        }),
{
    let d = RetryConfig { jitter: false, ..c };
    assert(plain_delay(d, attempt) == plain_delay(c, attempt));
    let x = plain_delay(c, attempt) * (500_000 + nanos % 1_000_000);
    assert(x / 1_000_000 * 1_000_000 <= x < (x / 1_000_000 + 1) * 1_000_000);
}

/// What a configuration of retries gives stands; what it leaves out has its
/// default.
pub proof fn retries_are_read_under_their_names(c: RetryConfig, m: Map<Seq<char>, Json>, n: int, t: Seq<char>, b: bool)
    requires
        retry_config_fits(m),
        has_retry_fields(c, m),
    ensures
        m["max_retries"@] == Json::PosInt(n) ==> c.max_retries == n,
        m.contains_key("strategy"@) && m["strategy"@] == Json::Str(t) ==> c.strategy@ == t,
        m.contains_key("base_delay_ms"@) && m["base_delay_ms"@] == Json::PosInt(n) ==> c.base_delay_ms == n,
        m.contains_key("max_delay_ms"@) && m["max_delay_ms"@] == Json::PosInt(n) ==> c.max_delay_ms == n,
        m.contains_key("jitter"@) && m["jitter"@] == Json::Bool(b) ==> c.jitter == b,
        !m.contains_key("strategy"@) ==> c.strategy@ == "exponential"@,
        !m.contains_key("base_delay_ms"@) ==> c.base_delay_ms == 100,
        !m.contains_key("max_delay_ms"@) ==> c.max_delay_ms == 5000,
        !m.contains_key("jitter"@) ==> c.jitter,
{
}

/// A configuration given as a list has its fields in order: how often, by which
/// strategy, the delays and the jitter.
pub proof fn a_list_gives_the_fields_in_order(s: Seq<Json>)
    requires
        s.len() <= 5,
    ensures
        retry_fields(Json::Arr(s)) matches Some(m) && {
            &&& m.contains_key("max_retries"@) == (s.len() > 0)
            &&& s.len() > 0 ==> m["max_retries"@] == s[0]
            &&& m.contains_key("strategy"@) == (s.len() > 1)
            &&& s.len() > 1 ==> m["strategy"@] == s[1]
            &&& m.contains_key("base_delay_ms"@) == (s.len() > 2)
            &&& s.len() > 2 ==> m["base_delay_ms"@] == s[2]
            &&& m.contains_key("max_delay_ms"@) == (s.len() > 3)
            &&& s.len() > 3 ==> m["max_delay_ms"@] == s[3]
            &&& m.contains_key("jitter"@) == (s.len() > 4)
            &&& s.len() > 4 ==> m["jitter"@] == s[4]
        },
{
    reveal_strlit("max_retries");
    reveal_strlit("strategy");
    reveal_strlit("base_delay_ms");
    reveal_strlit("max_delay_ms");
    reveal_strlit("jitter");
    assert("max_retries"@.len() == 11 && "strategy"@.len() == 8 && "base_delay_ms"@.len() == 13 && "max_delay_ms"@.len()
        == 12 && "jitter"@.len() == 6);
}

/// Without a configuration, retries wait 100 ms at first and at most 5 s, with
/// jitter, and twice as long every time.
pub proof fn retries_have_defaults(c: RetryConfig, n: int)
    requires
        has_retry_defaults(c, n),
    ensures
        c.max_retries == n,
        c.strategy@ == "exponential"@,
        c.base_delay_ms == 100,
        c.max_delay_ms == 5000,
        c.jitter,
{
}

} // verus!
