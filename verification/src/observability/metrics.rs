//! Counters and histograms.
use vstd::prelude::*;
use vstd::string::*;
use crate::clock::Timestamp;
use crate::decimals::fraction;
use crate::errors::ModuleError;
use crate::json::{Json, Number};
use crate::observability::labels::sort_labels;
use crate::observability::store::MetricPoint;
use crate::observability::usage::usage_key;
use crate::rate::Rate;
use crate::strmap::StrMap;
use crate::text::{cat3, cat4, cat5, cat7, decimal, str_eq, to_chars};
use crate::decimals;
use crate::error_code;
use crate::events::subscribers;
use crate::middleware::logging;
use crate::observability::labels;
use crate::observability::store;
use crate::observability::usage;
use crate::strmap;
use crate::text;

verus! {

/// Counts the calls of modules.
pub const METRIC_CALLS_TOTAL: &'static str = "apcore_module_calls_total";

/// Counts the errors of modules.
pub const METRIC_ERRORS_TOTAL: &'static str = "apcore_module_errors_total";

/// Observes how long the calls of modules take.
pub const METRIC_DURATION_SECONDS: &'static str = "apcore_module_duration_seconds";

/// The label that names the module.
pub const LABEL_MODULE_ID: &'static str = "module_id";

/// The number of finite buckets of a histogram.
pub const BUCKET_COUNT: usize = 13;

/// The upper bounds of the finite buckets, in nanoseconds.
pub open spec fn bucket_bounds() -> Seq<u64> {
    seq![
        5_000_000u64,
        10_000_000u64,
        25_000_000u64,
        50_000_000u64,
        100_000_000u64,
        250_000_000u64,
        500_000_000u64,
        1_000_000_000u64,
        2_500_000_000u64,
        5_000_000_000u64,
        10_000_000_000u64,
        30_000_000_000u64,
        60_000_000_000u64,
    ]
}

/// The upper bounds of the finite buckets, in seconds.
pub open spec fn bucket_texts() -> Seq<Seq<char>> {
    seq![
        "0.005"@,
        "0.01"@,
        "0.025"@,
        "0.05"@,
        "0.1"@,
        "0.25"@,
        "0.5"@,
        "1"@,
        "2.5"@,
        "5"@,
        "10"@,
        "30"@,
        "60"@,
    ]
}

fn bucket_bound(i: usize) -> (r: u64)
    requires
        i < 13,
    ensures
        r == bucket_bounds()[i as int],
{
    if i == 0 {
        5_000_000
    } else if i == 1 {
        10_000_000
    } else if i == 2 {
        25_000_000
    } else if i == 3 {
        50_000_000
    } else if i == 4 {
        100_000_000
    } else if i == 5 {
        250_000_000
    } else if i == 6 {
        500_000_000
    } else if i == 7 {
        1_000_000_000
    } else if i == 8 {
        2_500_000_000
    } else if i == 9 {
        5_000_000_000
    } else if i == 10 {
        10_000_000_000
    } else if i == 11 {
        30_000_000_000
    } else {
        60_000_000_000
    }
}

fn bucket_text(i: usize) -> (r: &'static str)
    requires
        i < 13,
    ensures
        r@ == bucket_texts()[i as int],
{
    if i == 0 {
        "0.005"
    } else if i == 1 {
        "0.01"
    } else if i == 2 {
        "0.025"
    } else if i == 3 {
        "0.05"
    } else if i == 4 {
        "0.1"
    } else if i == 5 {
        "0.25"
    } else if i == 6 {
        "0.5"
    } else if i == 7 {
        "1"
    } else if i == 8 {
        "2.5"
    } else if i == 9 {
        "5"
    } else if i == 10 {
        "10"
    } else if i == 11 {
        "30"
    } else {
        "60"
    }
}

/// A number, or the largest that can be counted to.
pub open spec fn capped(x: int) -> int {
    if x <= u64::MAX {
        x
    } else {
        u64::MAX as int
    }
}

fn add_capped(a: u64, b: u64) -> (r: u64)
    ensures
        r == capped(a + b),
{
    if a <= u64::MAX - b {
        a + b
    } else {
        u64::MAX
    }
}

// ---------------------------------------------------------------------------
// Keys
// ---------------------------------------------------------------------------

/// A metric: its name and its labels in the order of their names.
#[derive(Debug)]
pub struct MetricKey {
    pub name: String,
    pub labels: Vec<(String, String)>,
}

/// The mathematical contents of a key.
#[verifier::ext_equal]
pub struct KeyView {
    pub name: Seq<char>,
    pub labels: Seq<(Seq<char>, Seq<char>)>,
}

impl View for MetricKey {
    type V = KeyView;

    open spec fn view(&self) -> KeyView {
        KeyView { name: self.name@, labels: labels::label_texts(self.labels@) }
    }
}

/// The labels of a map in the order of their names.
pub open spec fn sorted_list(m: Map<Seq<char>, Seq<char>>) -> Seq<(Seq<char>, Seq<char>)> {
    choose|s: Seq<(Seq<char>, Seq<char>)>| labels::lists(s, m)
}

/// The key of a metric with these labels.
pub open spec fn key_of(name: Seq<char>, labels: Map<Seq<char>, Seq<char>>) -> KeyView {
    KeyView { name, labels: sorted_list(labels) }
}

/// A list of the labels of a map in order is the list.
pub proof fn lemma_sorted_list(s: Seq<(Seq<char>, Seq<char>)>, m: Map<Seq<char>, Seq<char>>)
    requires
        labels::lists(s, m),
    ensures
        sorted_list(m) == s,
{
    labels::sorted_labels_are_unique(sorted_list(m), s);
}

fn make_key(name: &str, labels: &StrMap<String>) -> (r: MetricKey)
    ensures
        r@ == key_of(name@, subscribers::text_map(labels@)),
{
    let sorted = sort_labels(labels);
    proof {
        lemma_sorted_list(labels::label_texts(sorted@), subscribers::text_map(labels@));
    }
    MetricKey { name: name.to_owned(), labels: sorted }
}

fn labels_eq(a: &Vec<(String, String)>, b: &Vec<(String, String)>) -> (r: bool)
    ensures
        r == (labels::label_texts(a@) == labels::label_texts(b@)),
{
    let ghost x = labels::label_texts(a@);
    let ghost y = labels::label_texts(b@);
    if a.len() != b.len() {
        assert(x.len() != y.len());
        return false;
    }
    let mut i: usize = 0;
    while i < a.len()
        invariant
            i <= a.len(),
            a.len() == b.len(),
            x == labels::label_texts(a@),
            y == labels::label_texts(b@),
            forall|j: int| 0 <= j < i ==> x[j] == y[j],
        decreases a.len() - i,
    {
        if !str_eq(a[i].0.as_str(), b[i].0.as_str()) || !str_eq(a[i].1.as_str(), b[i].1.as_str()) {
            assert(x[i as int] != y[i as int]);
            return false;
        }
        i = i + 1;
    }
    assert(x =~= y);
    true
}

fn key_eq(a: &MetricKey, b: &MetricKey) -> (r: bool)
    ensures
        r == (a@ == b@),
{
    str_eq(a.name.as_str(), b.name.as_str()) && labels_eq(&a.labels, &b.labels)
}

/// Position of the metric with a key.
pub open spec fn find_key<V>(s: Seq<(KeyView, V)>, k: KeyView) -> Option<int>
    decreases s.len(),
{
    if s.len() == 0 {
        None
    } else {
        match find_key(s.drop_last(), k) {
            Some(i) => Some(i),
            None => if s.last().0 == k {
                Some(s.len() - 1)
            } else {
                None
            },
        }
    }
}

proof fn lemma_find_key<V>(s: Seq<(KeyView, V)>, n: int, k: KeyView)
    requires
        0 <= n <= s.len(),
    ensures
        find_key(s.subrange(0, n), k) matches Some(i) ==> find_key(s, k) == Some(i),
        find_key(s, k) matches Some(i) ==> 0 <= i < s.len() && s[i].0 == k,
        find_key(s, k) is None ==> forall|j: int| 0 <= j < s.len() ==> (#[trigger] s[j]).0 != k,
    decreases s.len(),
{
    if s.len() > 0 {
        if n == s.len() {
            assert(s.subrange(0, n) =~= s);
            lemma_find_key(s.drop_last(), n - 1, k);
        } else {
            lemma_find_key(s.drop_last(), n, k);
            assert(s.drop_last().subrange(0, n) =~= s.subrange(0, n));
        }
        if find_key(s.drop_last(), k) is Some {
            let i = find_key(s.drop_last(), k)->0;
            assert(s.drop_last()[i] == s[i]);
        } else {
            assert forall|j: int| 0 <= j < s.len() && find_key(s, k) is None implies (#[trigger] s[j]).0 != k by {
                if j < s.len() - 1 {
                    assert(s.drop_last()[j] == s[j]);
                }
            }
        }
    } else {
        assert(s.subrange(0, n) =~= s);
    }
}

// ---------------------------------------------------------------------------
// Histograms
// ---------------------------------------------------------------------------

/// Observed durations, in nanoseconds.
#[derive(Debug)]
pub struct HistogramData {
    pub sum: u64,
    pub count: u64,
    /// For each finite bucket, how many observations lie within its bound.
    pub buckets: Vec<u64>,
}

/// The mathematical contents of a histogram.
#[verifier::ext_equal]
pub struct HistogramView {
    pub sum: int,
    pub count: int,
    pub buckets: Seq<u64>,
}

impl View for HistogramData {
    type V = HistogramView;

    open spec fn view(&self) -> HistogramView {
        HistogramView { sum: self.sum as int, count: self.count as int, buckets: self.buckets@ }
    }
}

/// A histogram without observations.
pub open spec fn empty_histogram() -> HistogramView {
    HistogramView { sum: 0, count: 0, buckets: Seq::new(13, |i: int| 0u64) }
}

/// A histogram after an observation: every bucket whose bound is not below it
/// counts it.
pub open spec fn observed(h: HistogramView, value: int) -> HistogramView {
    HistogramView {
        sum: capped(h.sum + value),
        count: capped(h.count + 1),
        buckets: Seq::new(
            h.buckets.len(),
            |i: int|
                if value <= bucket_bounds()[i] {
                    capped(h.buckets[i] + 1) as u64
                } else {
                    h.buckets[i]
                },
        ),
    }
}

/// Whether a histogram has its buckets, and each counts at most what the next
/// one, and the whole, counts.
pub open spec fn is_cumulative(h: HistogramView) -> bool {
    &&& h.buckets.len() == 13
    &&& forall|i: int, j: int| 0 <= i <= j < 13 ==> (#[trigger] h.buckets[i]) <= (#[trigger] h.buckets[j])
    &&& forall|i: int| 0 <= i < 13 ==> (#[trigger] h.buckets[i]) <= h.count
}

proof fn lemma_bounds_grow()
    ensures
        forall|i: int, j: int| 0 <= i <= j < 13 ==> (#[trigger] bucket_bounds()[i]) <= (#[trigger] bucket_bounds()[j]),
        bucket_bounds().len() == 13,
{
}

/// An observation keeps a histogram cumulative.
pub proof fn buckets_stay_cumulative(h: HistogramView, value: int)
    requires
        is_cumulative(h),
    ensures
        is_cumulative(observed(h, value)),
{
    lemma_bounds_grow();
    let t = observed(h, value);
    assert forall|i: int, j: int| 0 <= i <= j < 13 implies (#[trigger] t.buckets[i]) <= (#[trigger] t.buckets[j]) by {
        assert(h.buckets[i] <= h.buckets[j]);
        assert(bucket_bounds()[i] <= bucket_bounds()[j]);
    }
    assert forall|i: int| 0 <= i < 13 implies (#[trigger] t.buckets[i]) <= t.count by {
        assert(h.buckets[i] <= h.count);
    }
}

impl HistogramData {
    /// A histogram without observations.
    pub fn new() -> (r: Self)
        ensures
            r@ == empty_histogram(),
    {
        let mut buckets: Vec<u64> = Vec::new();
        let mut i: usize = 0;
        while i < BUCKET_COUNT
            invariant
                i <= 13,
                buckets@.len() == i,
                forall|j: int| 0 <= j < i ==> (#[trigger] buckets@[j]) == 0,
            decreases 13 - i,
        {
            buckets.push(0);
            i = i + 1;
        }
        assert(buckets@ =~= empty_histogram().buckets);
        HistogramData { sum: 0, count: 0, buckets }
    }

    /// Add an observation.
    pub fn observe(&mut self, value: u64)
        requires
            old(self)@.buckets.len() == 13,
        ensures
            final(self)@ == observed(old(self)@, value as int),
    {
        let ghost h = self@;
        self.sum = add_capped(self.sum, value);
        self.count = add_capped(self.count, 1);
        let mut i: usize = 0;
        while i < BUCKET_COUNT
            invariant
                i <= 13,
                h.buckets.len() == 13,
                self.buckets@.len() == 13,
                self.sum == capped(h.sum + value),
                self.count == capped(h.count + 1),
                forall|j: int| 0 <= j < i ==> (#[trigger] self.buckets@[j]) == observed(h, value as int).buckets[j],
                forall|j: int| i <= j < 13 ==> (#[trigger] self.buckets@[j]) == h.buckets[j],
            decreases 13 - i,
        {
            if value <= bucket_bound(i) {
                let n: u64 = add_capped(self.buckets[i], 1);
                self.buckets.set(i, n);
            }
            i = i + 1;
        }
        assert(self.buckets@ =~= observed(h, value as int).buckets);
    }

    fn copy(&self) -> (r: Self)
        ensures
            r@ == self@,
    {
        HistogramData { sum: self.sum, count: self.count, buckets: copy_numbers(&self.buckets) }
    }
}

fn copy_numbers(v: &Vec<u64>) -> (r: Vec<u64>)
    ensures
        r@ == v@,
{
    let mut out: Vec<u64> = Vec::new();
    let mut i: usize = 0;
    while i < v.len()
        invariant
            i <= v.len(),
            out@ == v@.subrange(0, i as int),
        decreases v.len() - i,
    {
        out.push(v[i]);
        i = i + 1;
        assert(out@ =~= v@.subrange(0, i as int));
    }
    assert(out@ =~= v@);
    out
}

// ---------------------------------------------------------------------------
// Percentiles
// ---------------------------------------------------------------------------

/// How many of so many observations make up 99 of 100, rounded up.
pub open spec fn p99_target(total: int) -> int {
    (99 * total + 99) / 100
}

fn p99_target_count(total: u64) -> (r: u64)
    ensures
        r == p99_target(total as int),
{
    let n: u128 = (99 * total as u128 + 99) / 100;
    n as u64
}

/// The position in a sorted list of so many values that 99 of 100 stay within.
pub open spec fn p99_index(len: int) -> int {
    if len == 0 {
        0
    } else {
        p99_target(len) - 1
    }
}

fn p99_sorted_index(len: usize) -> (r: usize)
    ensures
        r == p99_index(len as int),
        len > 0 ==> r < len,
{
    if len == 0 {
        return 0;
    }
    let n: u128 = (99 * len as u128 + 99) / 100;
    (n - 1) as usize
}

/// The value that 99 of 100 of the sorted values stay within; zero without any.
pub fn estimate_p99_from_sorted(sorted: &Vec<u64>) -> (r: u64)
    ensures
        r == (if sorted@.len() == 0 {
            0
        } else {
            sorted@[p99_index(sorted@.len() as int)]
        }),
{
    if sorted.len() == 0 {
        return 0;
    }
    sorted[p99_sorted_index(sorted.len())]
}

/// The bound of the first finite bucket that counts at least so many
/// observations.
pub open spec fn first_reaching(b: Seq<(Option<u64>, u64)>, target: int) -> Option<u64>
    decreases b.len(),
{
    if b.len() == 0 {
        None
    } else {
        match first_reaching(b.drop_last(), target) {
            Some(x) => Some(x),
            None => match b.last().0 {
                Some(bound) => if b.last().1 >= target {
                    Some(bound)
                } else {
                    None
                },
                None => None,
            },
        }
    }
}

/// The largest finite bound.
pub open spec fn largest_finite(b: Seq<(Option<u64>, u64)>) -> Option<u64>
    decreases b.len(),
{
    if b.len() == 0 {
        None
    } else {
        let prev = largest_finite(b.drop_last());
        match b.last().0 {
            Some(bound) => match prev {
                Some(x) => Some(
                    if x >= bound {
                        x
                    } else {
                        bound
                    },
                ),
                None => Some(bound),
            },
            None => prev,
        }
    }
}

/// The latency that 99 of 100 observations stay within, as far as the buckets
/// tell; beyond the last finite bucket, its bound.
pub open spec fn p99_estimate(b: Seq<(Option<u64>, u64)>, total: int) -> u64 {
    if total == 0 {
        0
    } else {
        match first_reaching(b, p99_target(total)) {
            Some(x) => x,
            None => match largest_finite(b) {
                Some(x) => x,
                None => 0,
            },
        }
    }
}

proof fn lemma_first_reaching(b: Seq<(Option<u64>, u64)>, n: int, target: int)
    requires
        0 <= n <= b.len(),
        first_reaching(b.subrange(0, n), target) is Some,
    ensures
        first_reaching(b, target) == first_reaching(b.subrange(0, n), target),
    decreases b.len(),
{
    if n == b.len() {
        assert(b.subrange(0, n) =~= b);
    } else {
        assert(b.drop_last().subrange(0, n) =~= b.subrange(0, n));
        lemma_first_reaching(b.drop_last(), n, target);
    }
}

/// The latency that 99 of 100 observations stay within, in nanoseconds. A bucket
/// without a bound is no latency.
pub fn estimate_p99_from_histogram(buckets: &Vec<(Option<u64>, u64)>, total_count: u64) -> (r: u64)
    ensures
        r == p99_estimate(buckets@, total_count as int),
{
    if total_count == 0 {
        return 0;
    }
    let target: u64 = p99_target_count(total_count);
    let mut largest: Option<u64> = None;
    let mut i: usize = 0;
    let ghost b = buckets@;
    assert(b.subrange(0, 0) =~= Seq::empty());
    while i < buckets.len()
        invariant
            i <= buckets.len(),
            b == buckets@,
            total_count > 0,
            target == p99_target(total_count as int),
            largest == largest_finite(b.subrange(0, i as int)),
            first_reaching(b.subrange(0, i as int), target as int) is None,
        decreases buckets.len() - i,
    {
        let ghost part = b.subrange(0, i + 1);
        assert(part.drop_last() =~= b.subrange(0, i as int));
        assert(part.last() == b[i as int]);
        match buckets[i].0 {
            Some(bound) => {
                if buckets[i].1 >= target {
                    proof {
                        lemma_first_reaching(b, i + 1, target as int);
                    }
                    return bound;
                }
                largest = match largest {
                    Some(x) => if x >= bound {
                        Some(x)
                    } else {
                        Some(bound)
                    },
                    None => Some(bound),
                };
            },
            None => {},
        }
        i = i + 1;
    }
    assert(b.subrange(0, b.len() as int) =~= b);
    match largest {
        Some(x) => x,
        None => 0,
    }
}

/// With observations, the estimate is the bound of one of the buckets: a slow
/// module is never reported as one without latency.
pub proof fn an_estimate_is_a_bound(b: Seq<(Option<u64>, u64)>, total: int)
    requires
        total > 0,
        b.len() > 0,
        b[0].0 is Some,
    ensures
        exists|i: int| 0 <= i < b.len() && (#[trigger] b[i]).0 == Some(p99_estimate(b, total)),
{
    lemma_reaching_is_a_bound(b, p99_target(total));
    lemma_largest_is_a_bound(b);
}

proof fn lemma_reaching_is_a_bound(b: Seq<(Option<u64>, u64)>, target: int)
    ensures
        first_reaching(b, target) matches Some(x) ==> exists|i: int| 0 <= i < b.len() && (#[trigger] b[i]).0 == Some(x),
    decreases b.len(),
{
    if b.len() > 0 {
        lemma_reaching_is_a_bound(b.drop_last(), target);
        if first_reaching(b.drop_last(), target) is Some {
            let x = first_reaching(b.drop_last(), target)->0;
            let i = choose|i: int| 0 <= i < b.drop_last().len() && (#[trigger] b.drop_last()[i]).0 == Some(x);
            assert(b[i].0 == Some(x));
        } else {
            assert(b[b.len() - 1] == b.last());
        }
    }
}

proof fn lemma_largest_is_a_bound(b: Seq<(Option<u64>, u64)>)
    ensures
        largest_finite(b) matches Some(x) ==> exists|i: int| 0 <= i < b.len() && (#[trigger] b[i]).0 == Some(x),
        b.len() > 0 && b[0].0 is Some ==> largest_finite(b) is Some,
    decreases b.len(),
{
    if b.len() > 0 {
        let p = b.drop_last();
        lemma_largest_is_a_bound(p);
        assert(b[b.len() - 1] == b.last());
        if largest_finite(p) is Some {
            let x = largest_finite(p)->0;
            let i = choose|i: int| 0 <= i < p.len() && (#[trigger] p[i]).0 == Some(x);
            assert(b[i].0 == Some(x));
        }
        if p.len() > 0 {
            assert(p[0] == b[0]);
        }
    }
}

// ---------------------------------------------------------------------------
// The collector
// ---------------------------------------------------------------------------

/// Counters and histograms by their keys.
#[derive(Debug)]
pub struct MetricsCollector {
    counters: Vec<(MetricKey, u64)>,
    histograms: Vec<(MetricKey, HistogramData)>,
}

/// The mathematical contents of a collector, in the order in which the metrics
/// came.
#[verifier::ext_equal]
pub struct CollectorView {
    pub counters: Seq<(KeyView, u64)>,
    pub histograms: Seq<(KeyView, HistogramView)>,
}

/// The contents of counters.
pub open spec fn counters_view(s: Seq<(MetricKey, u64)>) -> Seq<(KeyView, u64)> {
    Seq::new(s.len(), |i: int| (s[i].0@, s[i].1))
}

/// The contents of histograms.
pub open spec fn histograms_view(s: Seq<(MetricKey, HistogramData)>) -> Seq<(KeyView, HistogramView)> {
    Seq::new(s.len(), |i: int| (s[i].0@, s[i].1@))
}

/// The counters after one of them has grown.
pub open spec fn incremented(s: Seq<(KeyView, u64)>, k: KeyView, amount: int) -> Seq<(KeyView, u64)> {
    match find_key(s, k) {
        Some(i) => s.update(i, (k, capped(s[i].1 + amount) as u64)),
        None => s.push((k, capped(amount) as u64)),
    }
}

/// The histograms after an observation.
pub open spec fn with_observation(s: Seq<(KeyView, HistogramView)>, k: KeyView, value: int) -> Seq<(KeyView, HistogramView)> {
    match find_key(s, k) {
        Some(i) => s.update(i, (k, observed(s[i].1, value))),
        None => s.push((k, observed(empty_histogram(), value))),
    }
}

/// Whether every histogram is cumulative.
pub open spec fn all_cumulative(s: Seq<(KeyView, HistogramView)>) -> bool {
    forall|i: int| 0 <= i < s.len() ==> is_cumulative((#[trigger] s[i]).1)
}

/// Whether no two metrics have the same key.
pub open spec fn distinct_keys<V>(s: Seq<(KeyView, V)>) -> bool {
    forall|i: int, j: int| 0 <= i < s.len() && 0 <= j < s.len() && (#[trigger] s[i]).0 == (#[trigger] s[j]).0 ==> i == j
}

/// Whether each metric stands once in a collector, and its histograms are
/// cumulative.
pub open spec fn is_sound(c: CollectorView) -> bool {
    distinct_keys(c.counters) && distinct_keys(c.histograms) && all_cumulative(c.histograms)
}

/// To put a value under a key where the key is, or at the end where it is not,
/// keeps the keys distinct.
proof fn lemma_keys_stay_distinct<V>(s: Seq<(KeyView, V)>, k: KeyView, v: V)
    requires
        distinct_keys(s),
    ensures
        find_key(s, k) matches Some(i) ==> distinct_keys(s.update(i, (k, v))),
        find_key(s, k) is None ==> distinct_keys(s.push((k, v))),
{
    lemma_find_key(s, s.len() as int, k);
    match find_key(s, k) {
        Some(i) => {
            let t = s.update(i, (k, v));
            assert forall|a: int, b: int| 0 <= a < t.len() && 0 <= b < t.len() && (#[trigger] t[a]).0 == (#[trigger] t[b]).0 implies a
                == b by {
                assert(s[a].0 == s[b].0);
            }
        },
        None => {
            let t = s.push((k, v));
            assert forall|a: int, b: int| 0 <= a < t.len() && 0 <= b < t.len() && (#[trigger] t[a]).0 == (#[trigger] t[b]).0 implies a
                == b by {
                if a < s.len() && b < s.len() {
                    assert(s[a].0 == s[b].0);
                } else if a < s.len() {
                    assert(s[a].0 != k);
                } else if b < s.len() {
                    assert(s[b].0 != k);
                }
            }
        },
    }
}

impl View for MetricsCollector {
    type V = CollectorView;

    closed spec fn view(&self) -> CollectorView {
        CollectorView {
            counters: counters_view(self.counters@),
            histograms: histograms_view(self.histograms@),
        }
    }
}

/// The labels of a call counter.
pub open spec fn call_labels(module_id: Seq<char>, status: Seq<char>) -> Map<Seq<char>, Seq<char>> {
    map!["module_id"@ => module_id, "status"@ => status]
}

/// The labels of an error counter.
pub open spec fn error_labels(module_id: Seq<char>, error_code: Seq<char>) -> Map<Seq<char>, Seq<char>> {
    map!["module_id"@ => module_id, "error_code"@ => error_code]
}

/// The labels of a duration.
pub open spec fn duration_labels(module_id: Seq<char>) -> Map<Seq<char>, Seq<char>> {
    map!["module_id"@ => module_id]
}

impl Default for MetricsCollector {
    fn default() -> (r: Self)
        ensures
            r@ == (CollectorView { counters: Seq::empty(), histograms: Seq::empty() }),
    {
        MetricsCollector::new()
    }
}

impl MetricsCollector {
    #[verifier::type_invariant]
    spec fn well_formed(self) -> bool {
        is_sound(self@)
    }

    /// A collector without metrics.
    pub fn new() -> (r: Self)
        ensures
            r@ == (CollectorView { counters: Seq::empty(), histograms: Seq::empty() }),
    {
        let counters: Vec<(MetricKey, u64)> = Vec::new();
        let histograms: Vec<(MetricKey, HistogramData)> = Vec::new();
        assert(counters_view(counters@) =~= Seq::empty());
        assert(histograms_view(histograms@) =~= Seq::empty());
        MetricsCollector { counters, histograms }
    }

    /// Let a counter grow. Gives the measurement for a store.
    pub fn increment(&mut self, name: &str, labels: &StrMap<String>, amount: u64) -> (r: MetricPoint)
        ensures
            is_sound(final(self)@),
            store::is_observation(r@, name@, subscribers::text_map(labels@), Json::PosInt(amount as int)),
            final(self)@ == (CollectorView {
                counters: incremented(old(self)@.counters, key_of(name@, subscribers::text_map(labels@)), amount as int),
                ..old(self)@
            }),
    {
        let key = make_key(name, labels);
        let ghost s = counters_view(self.counters@);
        proof {
            use_type_invariant(&*self);
        }
        let at = find_counter(&self.counters, &key);
        proof {
            match find_key(s, key@) {
                Some(i) => lemma_keys_stay_distinct(s, key@, capped(s[i].1 + amount) as u64),
                None => lemma_keys_stay_distinct(s, key@, amount),
            }
        }
        let mut list: Vec<(MetricKey, u64)> = Vec::new();
        std::mem::swap(&mut list, &mut self.counters);
        match at {
            Some(i) => {
                assert(s[i as int] == (list@[i as int].0@, list@[i as int].1));
                let n: u64 = add_capped(list[i].1, amount);
                list.set(i, (key, n));
                assert(counters_view(list@) =~= s.update(i as int, (key@, n)));
            },
            None => {
                list.push((key, amount));
                assert(counters_view(list@) =~= s.push((key@, amount)));
            },
        }
        self.counters = list;
        MetricPoint::observed(name, labels, Number::PosInt(amount))
    }

    /// Add an observation, in nanoseconds, to a histogram. Gives the measurement,
    /// in seconds, for a store.
    pub fn observe(&mut self, name: &str, labels: &StrMap<String>, value: u64) -> (r: MetricPoint)
        ensures
            is_sound(final(self)@),
            store::is_observation(r@, name@, subscribers::text_map(labels@), Json::Float(seconds_text(value as nat))),
            final(self)@ == (CollectorView {
                histograms: with_observation(old(self)@.histograms, key_of(name@, subscribers::text_map(labels@)), value as int),
                ..old(self)@
            }),
    {
        let key = make_key(name, labels);
        let ghost s = histograms_view(self.histograms@);
        proof {
            use_type_invariant(&*self);
        }
        let at = find_histogram(&self.histograms, &key);
        proof {
            match find_key(s, key@) {
                Some(i) => lemma_keys_stay_distinct(s, key@, observed(s[i].1, value as int)),
                None => lemma_keys_stay_distinct(s, key@, observed(empty_histogram(), value as int)),
            }
        }
        let mut list: Vec<(MetricKey, HistogramData)> = Vec::new();
        assert(histograms_view(list@) =~= Seq::empty());
        std::mem::swap(&mut list, &mut self.histograms);
        match at {
            Some(i) => {
                assert(s[i as int] == (list@[i as int].0@, list@[i as int].1@));
                assert(is_cumulative(s[i as int].1));
                let mut data = list[i].1.copy();
                data.observe(value);
                proof {
                    buckets_stay_cumulative(s[i as int].1, value as int);
                }
                list.set(i, (key, data));
                assert(histograms_view(list@) =~= s.update(i as int, (key@, data@)));
            },
            None => {
                let mut data = HistogramData::new();
                data.observe(value);
                proof {
                    buckets_stay_cumulative(empty_histogram(), value as int);
                }
                list.push((key, data));
                assert(histograms_view(list@) =~= s.push((key@, data@)));
            },
        }
        assert(all_cumulative(histograms_view(list@)));
        self.histograms = list;
        MetricPoint::observed(name, labels, Number::Float(seconds(value)))
    }

    /// Forget every metric.
    pub fn reset(&mut self)
        ensures
            final(self)@ == (CollectorView { counters: Seq::empty(), histograms: Seq::empty() }),
    {
        *self = MetricsCollector::new();
    }

    /// Count a call of a module. Gives the measurement for a store.
    pub fn increment_calls(&mut self, module_id: &str, status: &str) -> (r: MetricPoint)
        ensures
            is_sound(final(self)@),
            store::is_observation(r@, METRIC_CALLS_TOTAL@, call_labels(module_id@, status@), Json::PosInt(1)),
            final(self)@ == (CollectorView {
                counters: incremented(
                    old(self)@.counters,
                    key_of(METRIC_CALLS_TOTAL@, call_labels(module_id@, status@)),
                    1,
                ),
                ..old(self)@
            }),
    {
        let mut labels: StrMap<String> = StrMap::new();
        labels.insert("module_id".to_owned(), module_id.to_owned());
        labels.insert("status".to_owned(), status.to_owned());
        assert(subscribers::text_map(labels@) =~= call_labels(module_id@, status@)) by {
            lemma_label_names_differ();
        }
        self.increment(METRIC_CALLS_TOTAL, &labels, 1)
    }

    /// Count an error of a module. Gives the measurement for a store.
    pub fn increment_errors(&mut self, module_id: &str, error_code: &str) -> (r: MetricPoint)
        ensures
            is_sound(final(self)@),
            store::is_observation(r@, METRIC_ERRORS_TOTAL@, error_labels(module_id@, error_code@), Json::PosInt(1)),
            final(self)@ == (CollectorView {
                counters: incremented(
                    old(self)@.counters,
                    key_of(METRIC_ERRORS_TOTAL@, error_labels(module_id@, error_code@)),
                    1,
                ),
                ..old(self)@
            }),
    {
        let mut labels: StrMap<String> = StrMap::new();
        labels.insert("module_id".to_owned(), module_id.to_owned());
        labels.insert("error_code".to_owned(), error_code.to_owned());
        assert(subscribers::text_map(labels@) =~= error_labels(module_id@, error_code@)) by {
            lemma_label_names_differ();
        }
        self.increment(METRIC_ERRORS_TOTAL, &labels, 1)
    }

    /// Observe how long a call of a module took, in nanoseconds. Gives the
    /// measurement for a store.
    pub fn observe_duration(&mut self, module_id: &str, nanos: u64) -> (r: MetricPoint)
        ensures
            is_sound(final(self)@),
            store::is_observation(
                r@,
                METRIC_DURATION_SECONDS@,
                duration_labels(module_id@),
                Json::Float(seconds_text(nanos as nat)),
            ),
            final(self)@ == (CollectorView {
                histograms: with_observation(
                    old(self)@.histograms,
                    key_of(METRIC_DURATION_SECONDS@, duration_labels(module_id@)),
                    nanos as int,
                ),
                ..old(self)@
            }),
    {
        let mut labels: StrMap<String> = StrMap::new();
        labels.insert("module_id".to_owned(), module_id.to_owned());
        assert(subscribers::text_map(labels@) =~= duration_labels(module_id@));
        self.observe(METRIC_DURATION_SECONDS, &labels, nanos)
    }
}

proof fn lemma_label_names_differ()
    ensures
        "module_id"@ != "status"@,
        "module_id"@ != "error_code"@,
{
    reveal_strlit("module_id");
    reveal_strlit("status");
    reveal_strlit("error_code");
    assert("module_id"@.len() == 9 && "status"@.len() == 6 && "error_code"@.len() == 10);
}

fn find_counter(v: &Vec<(MetricKey, u64)>, key: &MetricKey) -> (r: Option<usize>)
    ensures
        match r {
            Some(i) => find_key(counters_view(v@), key@) == Some(i as int) && i < v@.len(),
            None => find_key(counters_view(v@), key@) is None,
        },
{
    let ghost s = counters_view(v@);
    let mut i: usize = 0;
    assert(s.subrange(0, 0) =~= Seq::empty());
    while i < v.len()
        invariant
            i <= v.len(),
            s == counters_view(v@),
            find_key(s.subrange(0, i as int), key@) is None,
        decreases v.len() - i,
    {
        let ghost part = s.subrange(0, i + 1);
        assert(part.drop_last() =~= s.subrange(0, i as int));
        assert(part.last() == s[i as int]);
        if key_eq(&v[i].0, key) {
            proof {
                lemma_find_key(s, i + 1, key@);
            }
            return Some(i);
        }
        i = i + 1;
    }
    assert(s.subrange(0, s.len() as int) =~= s);
    None
}

fn find_histogram(v: &Vec<(MetricKey, HistogramData)>, key: &MetricKey) -> (r: Option<usize>)
    ensures
        match r {
            Some(i) => find_key(histograms_view(v@), key@) == Some(i as int) && i < v@.len(),
            None => find_key(histograms_view(v@), key@) is None,
        },
{
    let ghost s = histograms_view(v@);
    let mut i: usize = 0;
    assert(s.subrange(0, 0) =~= Seq::empty());
    while i < v.len()
        invariant
            i <= v.len(),
            s == histograms_view(v@),
            find_key(s.subrange(0, i as int), key@) is None,
        decreases v.len() - i,
    {
        let ghost part = s.subrange(0, i + 1);
        assert(part.drop_last() =~= s.subrange(0, i as int));
        assert(part.last() == s[i as int]);
        if key_eq(&v[i].0, key) {
            proof {
                lemma_find_key(s, i + 1, key@);
            }
            return Some(i);
        }
        i = i + 1;
    }
    assert(s.subrange(0, s.len() as int) =~= s);
    None
}

// ---------------------------------------------------------------------------
// Snapshots
// ---------------------------------------------------------------------------

/// The labels of a key, each as name and value, between commas.
pub open spec fn plain_labels(s: Seq<(Seq<char>, Seq<char>)>) -> Seq<char>
    decreases s.len(),
{
    if s.len() == 0 {
        Seq::empty()
    } else if s.len() == 1 {
        s[0].0 + "="@ + s[0].1
    } else {
        plain_labels(s.drop_last()) + ","@ + (s.last().0 + "="@ + s.last().1)
    }
}

/// The text under which a metric stands in a snapshot.
pub open spec fn key_text(k: KeyView) -> Seq<char> {
    if k.labels.len() == 0 {
        k.name
    } else {
        k.name + "|"@ + plain_labels(k.labels)
    }
}

fn write_key(k: &MetricKey) -> (r: String)
    ensures
        r@ == key_text(k@),
{
    if k.labels.len() == 0 {
        return k.name.clone();
    }
    let ghost s = labels::label_texts(k.labels@);
    let mut out = cat3(k.labels[0].0.as_str(), "=", k.labels[0].1.as_str());
    let mut i: usize = 1;
    assert(s.subrange(0, 1)[0] == s[0]);
    while i < k.labels.len()
        invariant
            1 <= i <= k.labels.len(),
            s == labels::label_texts(k.labels@),
            out@ == plain_labels(s.subrange(0, i as int)),
        decreases k.labels.len() - i,
    {
        let ghost part = s.subrange(0, i + 1);
        assert(part.drop_last() =~= s.subrange(0, i as int));
        assert(part.last() == s[i as int]);
        let pair = cat3(k.labels[i].0.as_str(), "=", k.labels[i].1.as_str());
        out.append(",");
        out.append(pair.as_str());
        i = i + 1;
    }
    assert(s.subrange(0, s.len() as int) =~= s);
    cat3(k.name.as_str(), "|", out.as_str())
}

/// A histogram in a snapshot: the last bucket has no bound and counts every
/// observation.
#[derive(Debug)]
pub struct HistogramSnapshot {
    pub sum_nanos: u64,
    pub count: u64,
    pub buckets: Vec<(Option<u64>, u64)>,
}

/// The mathematical contents of a histogram in a snapshot.
#[verifier::ext_equal]
pub struct HistogramSnapshotView {
    pub sum_nanos: int,
    pub count: int,
    pub buckets: Seq<(Option<u64>, u64)>,
}

impl View for HistogramSnapshot {
    type V = HistogramSnapshotView;

    open spec fn view(&self) -> HistogramSnapshotView {
        HistogramSnapshotView {
            sum_nanos: self.sum_nanos as int,
            count: self.count as int,
            buckets: self.buckets@,
        }
    }
}

/// The buckets of a histogram with their bounds, and the one without.
pub open spec fn bounded_buckets(h: HistogramView) -> Seq<(Option<u64>, u64)> {
    Seq::new(13, |i: int| (Some(bucket_bounds()[i]), h.buckets[i])).push((None, h.count as u64))
}

/// A histogram as it stands in a snapshot.
pub open spec fn histogram_snapshot(h: HistogramView) -> HistogramSnapshotView {
    HistogramSnapshotView { sum_nanos: h.sum, count: h.count, buckets: bounded_buckets(h) }
}

/// The values of all metrics at one time.
#[derive(Debug)]
pub struct MetricsSnapshot {
    pub counters: StrMap<u64>,
    pub histograms: StrMap<HistogramSnapshot>,
}

/// The counters of a snapshot; of two with one text the later stands.
pub open spec fn counter_values(s: Seq<(KeyView, u64)>) -> Map<Seq<char>, u64>
    decreases s.len(),
{
    if s.len() == 0 {
        Map::empty()
    } else {
        counter_values(s.drop_last()).insert(key_text(s.last().0), s.last().1)
    }
}

/// The histograms of a snapshot; of two with one text the later stands.
pub open spec fn histogram_values(s: Seq<(KeyView, HistogramView)>) -> Map<Seq<char>, HistogramSnapshotView>
    decreases s.len(),
{
    if s.len() == 0 {
        Map::empty()
    } else {
        histogram_values(s.drop_last()).insert(key_text(s.last().0), histogram_snapshot(s.last().1))
    }
}

/// The contents of the histograms of a snapshot.
pub open spec fn snapshot_values(m: Map<Seq<char>, HistogramSnapshot>) -> Map<Seq<char>, HistogramSnapshotView> {
    Map::new(|k: Seq<char>| m.contains_key(k), |k: Seq<char>| m[k]@)
}

/// Whether a snapshot is that of a collector.
pub open spec fn is_snapshot(r: MetricsSnapshot, c: CollectorView) -> bool {
    r.counters@ == counter_values(c.counters) && snapshot_values(r.histograms@) == histogram_values(c.histograms)
}

fn take_snapshot(h: &HistogramData) -> (r: HistogramSnapshot)
    requires
        h@.buckets.len() == 13,
    ensures
        r@ == histogram_snapshot(h@),
{
    let mut buckets: Vec<(Option<u64>, u64)> = Vec::new();
    let mut i: usize = 0;
    while i < BUCKET_COUNT
        invariant
            i <= 13,
            h@.buckets.len() == 13,
            buckets@.len() == i,
            forall|j: int| 0 <= j < i ==> (#[trigger] buckets@[j]) == (Some(bucket_bounds()[j]), h@.buckets[j]),
        decreases 13 - i,
    {
        buckets.push((Some(bucket_bound(i)), h.buckets[i]));
        i = i + 1;
    }
    buckets.push((None, h.count));
    assert(buckets@ =~= bounded_buckets(h@));
    HistogramSnapshot { sum_nanos: h.sum, count: h.count, buckets }
}

impl MetricsCollector {
    /// The values of all metrics.
    pub fn snapshot(&self) -> (r: MetricsSnapshot)
        ensures
            is_snapshot(r, self@),
            is_sound(self@),
    {
        proof {
            use_type_invariant(self);
        }
        let mut counters: StrMap<u64> = StrMap::new();
        let ghost s = counters_view(self.counters@);
        let mut i: usize = 0;
        assert(s.subrange(0, 0) =~= Seq::empty());
        while i < self.counters.len()
            invariant
                i <= self.counters.len(),
                s == counters_view(self.counters@),
                counters@ == counter_values(s.subrange(0, i as int)),
            decreases self.counters.len() - i,
        {
            let ghost part = s.subrange(0, i + 1);
            assert(part.drop_last() =~= s.subrange(0, i as int));
            assert(part.last() == s[i as int]);
            counters.insert(write_key(&self.counters[i].0), self.counters[i].1);
            i = i + 1;
        }
        assert(s.subrange(0, s.len() as int) =~= s);
        let mut histograms: StrMap<HistogramSnapshot> = StrMap::new();
        let ghost t = histograms_view(self.histograms@);
        let mut j: usize = 0;
        assert(t.subrange(0, 0) =~= Seq::empty());
        assert(snapshot_values(histograms@) =~= Map::empty());
        while j < self.histograms.len()
            invariant
                j <= self.histograms.len(),
                t == histograms_view(self.histograms@),
                all_cumulative(t),
                snapshot_values(histograms@) == histogram_values(t.subrange(0, j as int)),
            decreases self.histograms.len() - j,
        {
            let ghost part = t.subrange(0, j + 1);
            assert(part.drop_last() =~= t.subrange(0, j as int));
            assert(part.last() == t[j as int]);
            assert(is_cumulative(t[j as int].1));
            let ghost before_insert = histograms@;
            let key = write_key(&self.histograms[j].0);
            let data = take_snapshot(&self.histograms[j].1);
            histograms.insert(key, data);
            assert(snapshot_values(histograms@) =~= snapshot_values(before_insert).insert(key@, data@));
            j = j + 1;
        }
        assert(t.subrange(0, t.len() as int) =~= t);
        MetricsSnapshot { counters, histograms }
    }
}

/// The calls of a module.
#[derive(Debug, Clone, Copy, PartialEq, Eq, Structural)]
pub struct ModuleCallCounts {
    /// Calls that succeeded and calls that failed.
    pub total: u64,
    /// Calls that failed.
    pub errors: u64,
}

impl ModuleCallCounts {
    /// The failed calls as a part of all; zero without any call.
    pub fn error_rate(&self) -> (r: Rate)
        ensures
            r == (if self.total == 0 {
                Rate { num: 0, den: 1 }
            } else {
                Rate { num: self.errors, den: self.total }
            }),
    {
        if self.total == 0 {
            Rate { num: 0, den: 1 }
        } else {
            Rate { num: self.errors, den: self.total }
        }
    }
}

/// The latencies of a module, in nanoseconds.
#[derive(Debug, Clone, Copy, PartialEq, Eq, Structural)]
pub struct ModuleLatencyStats {
    pub sum_nanos: u64,
    /// What 99 of 100 calls stay within.
    pub p99_nanos: u64,
    pub count: u64,
}

/// The text under which the calls of a module with a status stand in a snapshot.
pub open spec fn calls_text(module_id: Seq<char>, status: Seq<char>) -> Seq<char> {
    METRIC_CALLS_TOTAL@ + "|"@ + LABEL_MODULE_ID@ + "="@ + module_id + ",status="@ + status
}

/// The text under which the durations of a module stand in a snapshot.
pub open spec fn durations_text(module_id: Seq<char>) -> Seq<char> {
    METRIC_DURATION_SECONDS@ + "|"@ + LABEL_MODULE_ID@ + "="@ + module_id
}

/// The number under a text, zero without one.
pub open spec fn count_at(m: Map<Seq<char>, u64>, k: Seq<char>) -> int {
    if m.contains_key(k) {
        m[k] as int
    } else {
        0
    }
}

fn read_count(m: &StrMap<u64>, k: &str) -> (r: u64)
    ensures
        r == count_at(m@, k@),
{
    match m.get(k) {
        Some(n) => *n,
        None => 0,
    }
}

fn counter_key(module_id: &str, status: &str) -> (r: String)
    ensures
        r@ == calls_text(module_id@, status@),
{
    cat7(METRIC_CALLS_TOTAL, "|", LABEL_MODULE_ID, "=", module_id, ",status=", status)
}

fn histogram_key(module_id: &str) -> (r: String)
    ensures
        r@ == durations_text(module_id@),
{
    cat5(METRIC_DURATION_SECONDS, "|", LABEL_MODULE_ID, "=", module_id)
}

/// The calls of a module, read from a snapshot.
pub fn extract_module_call_counts(snapshot: &MetricsSnapshot, module_id: &str) -> (r: ModuleCallCounts)
    ensures
        r.errors == count_at(snapshot.counters@, calls_text(module_id@, "error"@)),
        r.total == capped(
            count_at(snapshot.counters@, calls_text(module_id@, "success"@)) + count_at(
                snapshot.counters@,
                calls_text(module_id@, "error"@),
            ),
        ),
{
    let errors: u64 = read_count(&snapshot.counters, counter_key(module_id, "error").as_str());
    let success: u64 = read_count(&snapshot.counters, counter_key(module_id, "success").as_str());
    ModuleCallCounts { total: add_capped(success, errors), errors }
}

/// The latencies of a module, read from a snapshot.
pub fn extract_module_latency_stats(snapshot: &MetricsSnapshot, module_id: &str) -> (r: ModuleLatencyStats)
    ensures
        ({
            let m = snapshot_values(snapshot.histograms@);
            let k = durations_text(module_id@);
            if m.contains_key(k) {
                r.sum_nanos == m[k].sum_nanos && r.count == m[k].count && r.p99_nanos == p99_estimate(
                    m[k].buckets,
                    m[k].count,
                )
            } else {
                r == ModuleLatencyStats { sum_nanos: 0, p99_nanos: 0, count: 0 }
            }
        }),
{
    match snapshot.histograms.get(histogram_key(module_id).as_str()) {
        Some(h) => ModuleLatencyStats {
            sum_nanos: h.sum_nanos,
            p99_nanos: estimate_p99_from_histogram(&h.buckets, h.count),
            count: h.count,
        },
        None => ModuleLatencyStats { sum_nanos: 0, p99_nanos: 0, count: 0 },
    }
}

proof fn lemma_call_labels_in_order(module_id: Seq<char>, status: Seq<char>)
    ensures
        sorted_list(call_labels(module_id, status)) == seq![("module_id"@, module_id), ("status"@, status)],
{
    let s = seq![("module_id"@, module_id), ("status"@, status)];
    reveal_strlit("module_id");
    reveal_strlit("status");
    assert(text::text_before("module_id"@, "status"@)) by {
        assert("module_id"@[0] == 'm' && "status"@[0] == 's');
    }
    assert(labels::in_order(s)) by {
        assert forall|i: int, j: int| 0 <= i < j < s.len() implies text::text_before((#[trigger] s[i]).0, (#[trigger] s[j]).0) by {
            assert(i == 0 && j == 1);
        }
    }
    lemma_label_names_differ();
    assert(strmap::unique_keys(s));
    let m = strmap::pairs_to_map(s);
    strmap::lemma_pair_in_map(s, 0);
    strmap::lemma_pair_in_map(s, 1);
    assert forall|k: Seq<char>| m.contains_key(k) == call_labels(module_id, status).contains_key(k) by {
        if strmap::has_key(s, k) {
            let i = strmap::key_index(s, k);
            assert(s[i].0 == k);
        }
    }
    assert(m =~= call_labels(module_id, status));
    lemma_sorted_list(s, call_labels(module_id, status));
}

/// The text of a call counter is the one that the reader looks for.
pub proof fn reader_and_writer_agree(module_id: Seq<char>, status: Seq<char>)
    ensures
        key_text(key_of(METRIC_CALLS_TOTAL@, call_labels(module_id, status))) == calls_text(module_id, status),
        key_text(key_of(METRIC_DURATION_SECONDS@, duration_labels(module_id))) == durations_text(module_id),
{
    lemma_call_labels_in_order(module_id, status);
    let s = seq![("module_id"@, module_id), ("status"@, status)];
    assert(s.drop_last() =~= seq![("module_id"@, module_id)]);
    let k = key_of(METRIC_CALLS_TOTAL@, call_labels(module_id, status));
    assert(plain_labels(s.drop_last()) == "module_id"@ + "="@ + module_id);
    assert(plain_labels(s) =~= "module_id"@ + "="@ + module_id + ","@ + ("status"@ + "="@ + status));
    reveal_strlit(",status=");
    reveal_strlit(",");
    reveal_strlit("status");
    reveal_strlit("=");
    assert(",status="@ =~= ","@ + ("status"@ + "="@));
    assert(key_text(k) =~= calls_text(module_id, status));
    let d = seq![("module_id"@, module_id)];
    assert(labels::in_order(d));
    assert(strmap::unique_keys(d));
    strmap::lemma_pair_in_map(d, 0);
    assert(strmap::pairs_to_map(d) =~= duration_labels(module_id)) by {
        assert forall|x: Seq<char>| strmap::pairs_to_map(d).contains_key(x) == duration_labels(module_id).contains_key(x) by {
            if strmap::has_key(d, x) {
                assert(d[strmap::key_index(d, x)].0 == x);
            }
        }
    }
    lemma_sorted_list(d, duration_labels(module_id));
    assert(key_text(key_of(METRIC_DURATION_SECONDS@, duration_labels(module_id))) =~= durations_text(module_id));
}

/// What a snapshot holds under the text of a counter that no other counter
/// shares is the value of the counter.
proof fn lemma_counter_value(s: Seq<(KeyView, u64)>, i: int)
    requires
        0 <= i < s.len(),
        forall|j: int| 0 <= j < s.len() && j != i ==> key_text((#[trigger] s[j]).0) != key_text(s[i].0),
    ensures
        counter_values(s).contains_key(key_text(s[i].0)),
        counter_values(s)[key_text(s[i].0)] == s[i].1,
    decreases s.len(),
{
    if i < s.len() - 1 {
        let p = s.drop_last();
        assert forall|j: int| 0 <= j < p.len() && j != i implies key_text((#[trigger] p[j]).0) != key_text(p[i].0) by {
            assert(p[j] == s[j]);
        }
        lemma_counter_value(p, i);
        assert(key_text(s[s.len() - 1].0) != key_text(s[i].0));
    }
}

/// Counting a call is seen by the reader: the number read from a snapshot grows
/// by one, as long as no counter of another metric stands under the same text.
pub proof fn a_counted_call_is_read(s: Seq<(KeyView, u64)>, module_id: Seq<char>, status: Seq<char>)
    requires
        ({
            let k = key_of(METRIC_CALLS_TOTAL@, call_labels(module_id, status));
            &&& distinct_keys(s)
            &&& forall|i: int| 0 <= i < s.len() && key_text((#[trigger] s[i]).0) == key_text(k) ==> s[i].0 == k
        }),
    ensures
        ({
            let k = key_of(METRIC_CALLS_TOTAL@, call_labels(module_id, status));
            count_at(counter_values(incremented(s, k, 1)), calls_text(module_id, status)) == capped(
                count_at(counter_values(s), calls_text(module_id, status)) + 1,
            )
        }),
{
    let k = key_of(METRIC_CALLS_TOTAL@, call_labels(module_id, status));
    reader_and_writer_agree(module_id, status);
    lemma_find_key(s, s.len() as int, k);
    let t = incremented(s, k, 1);
    match find_key(s, k) {
        Some(i) => {
            assert forall|j: int| 0 <= j < s.len() && j != i implies key_text((#[trigger] s[j]).0) != key_text(s[i].0) by {
                if key_text(s[j].0) == key_text(k) {
                    assert(s[j].0 == s[i].0);
                }
            }
            lemma_counter_value(s, i);
            assert forall|j: int| 0 <= j < t.len() && j != i implies key_text((#[trigger] t[j]).0) != key_text(t[i].0) by {
                assert(t[j] == s[j]);
            }
            lemma_counter_value(t, i);
        },
        None => {
            let n = s.len() as int;
            assert forall|j: int| 0 <= j < t.len() && j != n implies key_text((#[trigger] t[j]).0) != key_text(t[n].0) by {
                assert(t[j] == s[j]);
            }
            lemma_counter_value(t, n);
            lemma_no_counter(s, key_text(k));
        },
    }
}

proof fn lemma_no_counter(s: Seq<(KeyView, u64)>, text: Seq<char>)
    requires
        forall|j: int| 0 <= j < s.len() ==> key_text((#[trigger] s[j]).0) != text,
    ensures
        !counter_values(s).contains_key(text),
    decreases s.len(),
{
    if s.len() > 0 {
        let p = s.drop_last();
        assert forall|j: int| 0 <= j < p.len() implies key_text((#[trigger] p[j]).0) != text by {
            assert(p[j] == s[j]);
        }
        lemma_no_counter(p, text);
        assert(key_text(s[s.len() - 1].0) != text);
    }
}

// ---------------------------------------------------------------------------
// Text exposition
// ---------------------------------------------------------------------------

/// What a metric is, in words; its name where nothing is known of it.
pub open spec fn help_of(name: Seq<char>) -> Seq<char> {
    if name == METRIC_CALLS_TOTAL@ {
        "Total module calls"@
    } else if name == METRIC_ERRORS_TOTAL@ {
        "Total module errors"@
    } else if name == METRIC_DURATION_SECONDS@ {
        "Module execution duration"@
    } else {
        name
    }
}

fn metric_help_text(name: &str) -> (r: &str)
    ensures
        r@ == help_of(name@),
{
    if str_eq(name, METRIC_CALLS_TOTAL) {
        "Total module calls"
    } else if str_eq(name, METRIC_ERRORS_TOTAL) {
        "Total module errors"
    } else if str_eq(name, METRIC_DURATION_SECONDS) {
        "Module execution duration"
    } else {
        name
    }
}

/// A character of a label value, escaped where the format needs it.
pub open spec fn escaped_char(c: char) -> Seq<char> {
    if c == '\\' {
        seq!['\\', '\\']
    } else if c == '"' {
        seq!['\\', '"']
    } else if c == '\n' {
        seq!['\\', 'n']
    } else {
        seq![c]
    }
}

/// A label value with backslashes, quotes and line feeds escaped.
pub open spec fn escaped(s: Seq<char>) -> Seq<char>
    decreases s.len(),
{
    if s.len() == 0 {
        Seq::empty()
    } else {
        escaped(s.drop_last()) + escaped_char(s.last())
    }
}

/// A label value with backslashes, quotes and line feeds escaped.
pub fn escape_prometheus_label_value(value: &str) -> (r: String)
    ensures
        r@ == escaped(value@),
{
    let c = to_chars(value);
    let mut out = String::new();
    let mut i: usize = 0;
    assert(c@.subrange(0, 0) =~= Seq::empty());
    while i < c.len()
        invariant
            i <= c.len(),
            out@ == escaped(c@.subrange(0, i as int)),
        decreases c.len() - i,
    {
        let ghost part = c@.subrange(0, i + 1);
        let ghost so_far = out@;
        assert(part.drop_last() =~= c@.subrange(0, i as int));
        assert(part.last() == c@[i as int]);
        if c[i] == '\\' {
            out.push('\\');
            out.push('\\');
        } else if c[i] == '"' {
            out.push('\\');
            out.push('"');
        } else if c[i] == '\n' {
            out.push('\\');
            out.push('n');
        } else {
            out.push(c[i]);
        }
        assert(out@ =~= so_far + escaped_char(c@[i as int]));
        i = i + 1;
    }
    assert(c@.subrange(0, c@.len() as int) =~= c@);
    out
}

/// Whether every quote follows a backslash.
pub open spec fn quotes_follow_backslashes(s: Seq<char>) -> bool {
    forall|i: int| 0 <= i < s.len() && (#[trigger] s[i]) == '"' ==> i > 0 && s[i - 1] == '\\'
}

/// No escaped value holds a line feed, and every quote in it is escaped.
pub proof fn escaped_values_stay_on_their_line(s: Seq<char>)
    ensures
        !escaped(s).contains('\n'),
        quotes_follow_backslashes(escaped(s)),
    decreases s.len(),
{
    if s.len() > 0 {
        let p = escaped(s.drop_last());
        let c = escaped_char(s.last());
        let t = escaped(s);
        escaped_values_stay_on_their_line(s.drop_last());
        assert forall|i: int| 0 <= i < t.len() implies t[i] != '\n' by {
            if i < p.len() {
                assert(t[i] == p[i]);
                if p[i] == '\n' {
                    assert(p.contains('\n'));
                }
            } else {
                assert(t[i] == c[i - p.len()]);
            }
        }
        assert forall|i: int| 0 <= i < t.len() && (#[trigger] t[i]) == '"' implies i > 0 && t[i - 1] == '\\' by {
            if i < p.len() {
                assert(t[i] == p[i]);
                assert(p[i - 1] == '\\');
                assert(t[i - 1] == p[i - 1]);
            } else {
                assert(t[i] == c[i - p.len()]);
                assert(i == p.len() + 1);
                assert(t[i - 1] == c[0]);
            }
        }
    }
}

/// A label as it stands in the text format.
pub open spec fn quoted_label(k: Seq<char>, v: Seq<char>) -> Seq<char> {
    k + "=\""@ + escaped(v) + "\""@
}

/// Labels as they stand in the text format, between commas.
pub open spec fn quoted_labels(s: Seq<(Seq<char>, Seq<char>)>) -> Seq<char>
    decreases s.len(),
{
    if s.len() == 0 {
        Seq::empty()
    } else if s.len() == 1 {
        quoted_label(s[0].0, s[0].1)
    } else {
        quoted_labels(s.drop_last()) + ","@ + quoted_label(s.last().0, s.last().1)
    }
}

/// Labels in braces, or nothing without labels.
pub open spec fn braced_labels(s: Seq<(Seq<char>, Seq<char>)>) -> Seq<char> {
    if s.len() == 0 {
        Seq::empty()
    } else {
        "{"@ + quoted_labels(s) + "}"@
    }
}

fn write_quoted_labels(v: &Vec<(String, String)>) -> (r: String)
    ensures
        r@ == quoted_labels(labels::label_texts(v@)),
{
    let ghost s = labels::label_texts(v@);
    let mut out = String::new();
    if v.len() == 0 {
        return out;
    }
    let mut i: usize = 0;
    assert(s.subrange(0, 0) =~= Seq::empty());
    while i < v.len()
        invariant
            i <= v.len(),
            s == labels::label_texts(v@),
            out@ == quoted_labels(s.subrange(0, i as int)),
        decreases v.len() - i,
    {
        let ghost part = s.subrange(0, i + 1);
        assert(part.drop_last() =~= s.subrange(0, i as int));
        assert(part.last() == s[i as int]);
        let value = escape_prometheus_label_value(v[i].1.as_str());
        let label = cat4(v[i].0.as_str(), "=\"", value.as_str(), "\"");
        if i > 0 {
            out.append(",");
            out.append(label.as_str());
        } else {
            out = label;
        }
        i = i + 1;
    }
    assert(s.subrange(0, s.len() as int) =~= s);
    out
}

fn format_prometheus_labels(v: &Vec<(String, String)>) -> (r: String)
    ensures
        r@ == braced_labels(labels::label_texts(v@)),
{
    if v.len() == 0 {
        return String::new();
    }
    cat3("{", write_quoted_labels(v).as_str(), "}")
}

/// The lines that introduce a metric.
pub open spec fn header(name: Seq<char>, kind: Seq<char>) -> Seq<char> {
    "# HELP "@ + name + " "@ + help_of(name) + "\n# TYPE "@ + name + " "@ + kind + "\n"@
}

fn write_header(out: &mut String, name: &str, kind: &str)
    ensures
        final(out)@ == old(out)@ + header(name@, kind@),
{
    let ghost before = out@;
    let help = metric_help_text(name);
    let mut s = cat5("# HELP ", name, " ", help, "\n# TYPE ");
    s.append(name);
    s.append(" ");
    s.append(kind);
    s.append("\n");
    assert(s@ =~= header(name@, kind@));
    out.append(s.as_str());
}

/// Whether a metric of a name comes in a list.
pub open spec fn has_name<V>(s: Seq<(KeyView, V)>, name: Seq<char>) -> bool {
    exists|i: int| 0 <= i < s.len() && (#[trigger] s[i]).0.name == name
}

/// The lines of a counter that comes after others.
pub open spec fn counter_entry(before: Seq<(KeyView, u64)>, c: (KeyView, u64)) -> Seq<char> {
    let k = c.0;
    let head = if has_name(before, k.name) {
        Seq::empty()
    } else {
        header(k.name, "counter"@)
    };
    head + (k.name + braced_labels(k.labels) + " "@ + text::decimal_text(c.1 as nat) + "\n"@)
}

/// The lines of the counters: each name is introduced once.
pub open spec fn counter_lines(s: Seq<(KeyView, u64)>) -> Seq<char>
    decreases s.len(),
{
    if s.len() == 0 {
        Seq::empty()
    } else {
        counter_lines(s.drop_last()) + counter_entry(s.drop_last(), s.last())
    }
}

/// A bound among the labels of a histogram, in braces.
pub open spec fn bound_labels(labels: Seq<(Seq<char>, Seq<char>)>, bound: Seq<char>) -> Seq<char> {
    if labels.len() == 0 {
        "{le=\""@ + bound + "\"}"@
    } else {
        "{"@ + quoted_labels(labels) + ",le=\""@ + bound + "\"}"@
    }
}

/// The line of a bucket.
pub open spec fn bucket_line(k: KeyView, bound: Seq<char>, count: nat) -> Seq<char> {
    k.name + "_bucket"@ + bound_labels(k.labels, bound) + " "@ + text::decimal_text(count) + "\n"@
}

/// The lines of the first finite buckets.
pub open spec fn bucket_lines(k: KeyView, buckets: Seq<u64>, n: nat) -> Seq<char>
    decreases n,
{
    if n == 0 {
        Seq::empty()
    } else {
        bucket_lines(k, buckets, (n - 1) as nat) + bucket_line(k, bucket_texts()[n - 1], buckets[n - 1] as nat)
    }
}

/// Nanoseconds as a decimal number of seconds.
pub open spec fn seconds_text(nanos: nat) -> Seq<char> {
    decimals::fraction_text(nanos / 1_000_000_000, nanos % 1_000_000_000, 9)
}

/// Nanoseconds as a decimal number of seconds.
pub fn seconds(nanos: u64) -> (r: String)
    ensures
        r@ == seconds_text(nanos as nat),
{
    fraction(nanos / 1_000_000_000, nanos % 1_000_000_000, 9)
}

/// The lines of one histogram, after its introduction.
pub open spec fn histogram_block(k: KeyView, h: HistogramView) -> Seq<char> {
    bucket_lines(k, h.buckets, 13) + bucket_line(k, "+Inf"@, h.count as nat) + (k.name + "_sum"@ + braced_labels(k.labels)
        + " "@ + seconds_text(h.sum as nat) + "\n"@) + (k.name + "_count"@ + braced_labels(k.labels) + " "@ + text::decimal_text(
        h.count as nat,
    ) + "\n"@)
}

/// The lines of a histogram that comes after others.
pub open spec fn histogram_entry(before: Seq<(KeyView, HistogramView)>, h: (KeyView, HistogramView)) -> Seq<char> {
    let head = if has_name(before, h.0.name) {
        Seq::empty()
    } else {
        header(h.0.name, "histogram"@)
    };
    head + histogram_block(h.0, h.1)
}

/// The lines of the histograms: each name is introduced once.
pub open spec fn histogram_lines(s: Seq<(KeyView, HistogramView)>) -> Seq<char>
    decreases s.len(),
{
    if s.len() == 0 {
        Seq::empty()
    } else {
        histogram_lines(s.drop_last()) + histogram_entry(s.drop_last(), s.last())
    }
}

fn write_bucket(out: &mut String, k: &MetricKey, bound: &str, count: u64)
    ensures
        final(out)@ == old(out)@ + bucket_line(k@, bound@, count as nat),
{
    let labels = if k.labels.len() == 0 {
        cat3("{le=\"", bound, "\"}")
    } else {
        let inner = write_quoted_labels(&k.labels);
        cat5("{", inner.as_str(), ",le=\"", bound, "\"}")
    };
    let number = decimal(count);
    let mut s = cat5(k.name.as_str(), "_bucket", labels.as_str(), " ", number.as_str());
    s.append("\n");
    assert(s@ =~= bucket_line(k@, bound@, count as nat));
    out.append(s.as_str());
}

fn write_histogram(out: &mut String, k: &MetricKey, h: &HistogramData)
    requires
        h@.buckets.len() == 13,
    ensures
        final(out)@ == old(out)@ + histogram_block(k@, h@),
{
    let ghost start = out@;
    let mut i: usize = 0;
    assert(start + bucket_lines(k@, h@.buckets, 0) =~= start);
    while i < BUCKET_COUNT
        invariant
            i <= 13,
            h@.buckets.len() == 13,
            out@ == start + bucket_lines(k@, h@.buckets, i as nat),
        decreases 13 - i,
    {
        let ghost so_far = bucket_lines(k@, h@.buckets, i as nat);
        write_bucket(out, k, bucket_text(i), h.buckets[i]);
        i = i + 1;
        assert(out@ =~= start + (so_far + bucket_line(k@, bucket_texts()[i - 1], h@.buckets[i - 1] as nat)));
    }
    write_bucket(out, k, "+Inf", h.count);
    let labels = format_prometheus_labels(&k.labels);
    let sum = seconds(h.sum);
    let mut a = cat5(k.name.as_str(), "_sum", labels.as_str(), " ", sum.as_str());
    a.append("\n");
    let number = decimal(h.count);
    let mut b = cat5(k.name.as_str(), "_count", labels.as_str(), " ", number.as_str());
    b.append("\n");
    out.append(a.as_str());
    out.append(b.as_str());
    assert(out@ =~= start + histogram_block(k@, h@));
}

impl MetricsCollector {
    /// All metrics in the Prometheus text format: the counters, then the
    /// histograms.
    pub fn export_prometheus(&self) -> (r: String)
        ensures
            r@ == counter_lines(self@.counters) + histogram_lines(self@.histograms),
    {
        proof {
            use_type_invariant(self);
        }
        let mut out = write_counters(&self.counters);
        let rest = write_histograms(&self.histograms);
        out.append(rest.as_str());
        out
    }
}

fn write_counter(out: &mut String, v: &Vec<(MetricKey, u64)>, i: usize)
    requires
        i < v@.len(),
    ensures
        final(out)@ == old(out)@ + counter_entry(counters_view(v@).subrange(0, i as int), counters_view(v@)[i as int]),
{
    let ghost start = out@;
    let seen = counter_named_before(v, i);
    if !seen {
        write_header(out, v[i].0.name.as_str(), "counter");
    }
    let labels = format_prometheus_labels(&v[i].0.labels);
    let number = decimal(v[i].1);
    let mut line = cat4(v[i].0.name.as_str(), labels.as_str(), " ", number.as_str());
    line.append("\n");
    out.append(line.as_str());
    assert(out@ =~= start + counter_entry(counters_view(v@).subrange(0, i as int), counters_view(v@)[i as int]));
}

fn write_counters(v: &Vec<(MetricKey, u64)>) -> (r: String)
    ensures
        r@ == counter_lines(counters_view(v@)),
{
    let mut out = String::new();
    let ghost s = counters_view(v@);
    let mut i: usize = 0;
    assert(s.subrange(0, 0) =~= Seq::empty());
    while i < v.len()
        invariant
            i <= v.len(),
            s == counters_view(v@),
            out@ == counter_lines(s.subrange(0, i as int)),
        decreases v.len() - i,
    {
        let ghost part = s.subrange(0, i + 1);
        assert(part.drop_last() =~= s.subrange(0, i as int));
        assert(part.last() == s[i as int]);
        write_counter(&mut out, v, i);
        i = i + 1;
    }
    assert(s.subrange(0, s.len() as int) =~= s);
    out
}

fn write_histogram_entry(out: &mut String, v: &Vec<(MetricKey, HistogramData)>, i: usize)
    requires
        i < v@.len(),
        v@[i as int].1@.buckets.len() == 13,
    ensures
        final(out)@ == old(out)@ + histogram_entry(histograms_view(v@).subrange(0, i as int), histograms_view(v@)[i as int]),
{
    let ghost start = out@;
    let seen = histogram_named_before(v, i);
    if !seen {
        write_header(out, v[i].0.name.as_str(), "histogram");
    }
    write_histogram(out, &v[i].0, &v[i].1);
    assert(out@ =~= start + histogram_entry(histograms_view(v@).subrange(0, i as int), histograms_view(v@)[i as int]));
}

fn write_histograms(v: &Vec<(MetricKey, HistogramData)>) -> (r: String)
    requires
        all_cumulative(histograms_view(v@)),
    ensures
        r@ == histogram_lines(histograms_view(v@)),
{
    let mut out = String::new();
    let ghost s = histograms_view(v@);
    let mut i: usize = 0;
    assert(s.subrange(0, 0) =~= Seq::empty());
    while i < v.len()
        invariant
            i <= v.len(),
            s == histograms_view(v@),
            all_cumulative(s),
            out@ == histogram_lines(s.subrange(0, i as int)),
        decreases v.len() - i,
    {
        let ghost part = s.subrange(0, i + 1);
        assert(part.drop_last() =~= s.subrange(0, i as int));
        assert(part.last() == s[i as int]);
        assert(is_cumulative(s[i as int].1));
        write_histogram_entry(&mut out, v, i);
        i = i + 1;
    }
    assert(s.subrange(0, s.len() as int) =~= s);
    out
}

/// Whether one of the first counters has the name of the next.
fn counter_named_before(v: &Vec<(MetricKey, u64)>, n: usize) -> (r: bool)
    requires
        n < v@.len(),
    ensures
        r == has_name(counters_view(v@).subrange(0, n as int), v@[n as int].0@.name),
{
    let ghost s = counters_view(v@);
    let ghost name = v@[n as int].0@.name;
    let mut j: usize = 0;
    while j < n
        invariant
            j <= n < v@.len(),
            s == counters_view(v@),
            name == v@[n as int].0@.name,
            !has_name(s.subrange(0, j as int), name),
        decreases n - j,
    {
        proof {
            assert(s.subrange(0, j + 1) =~= s.subrange(0, j as int).push(s[j as int]));
            lemma_has_name_push(s.subrange(0, j as int), s[j as int], name);
        }
        if str_eq(v[j].0.name.as_str(), v[n].0.name.as_str()) {
            assert(s.subrange(0, n as int)[j as int].0.name == name);
            return true;
        }
        j = j + 1;
    }
    false
}

/// Whether one of the first histograms has the name of the next.
fn histogram_named_before(v: &Vec<(MetricKey, HistogramData)>, n: usize) -> (r: bool)
    requires
        n < v@.len(),
    ensures
        r == has_name(histograms_view(v@).subrange(0, n as int), v@[n as int].0@.name),
{
    let ghost s = histograms_view(v@);
    let ghost name = v@[n as int].0@.name;
    let mut j: usize = 0;
    while j < n
        invariant
            j <= n < v@.len(),
            s == histograms_view(v@),
            name == v@[n as int].0@.name,
            !has_name(s.subrange(0, j as int), name),
        decreases n - j,
    {
        proof {
            assert(s.subrange(0, j + 1) =~= s.subrange(0, j as int).push(s[j as int]));
            lemma_has_name_push(s.subrange(0, j as int), s[j as int], name);
        }
        if str_eq(v[j].0.name.as_str(), v[n].0.name.as_str()) {
            assert(s.subrange(0, n as int)[j as int].0.name == name);
            return true;
        }
        j = j + 1;
    }
    false
}

proof fn lemma_has_name_push<V>(q: Seq<(KeyView, V)>, x: (KeyView, V), name: Seq<char>)
    ensures
        has_name(q.push(x), name) == (has_name(q, name) || x.0.name == name),
{
    let t = q.push(x);
    if has_name(t, name) {
        let i = choose|i: int| 0 <= i < t.len() && (#[trigger] t[i]).0.name == name;
        if i < q.len() {
            assert(q[i].0.name == name);
        }
    }
    if has_name(q, name) {
        let i = choose|i: int| 0 <= i < q.len() && (#[trigger] q[i]).0.name == name;
        assert(t[i].0.name == name);
    }
    assert(t[q.len() as int] == x);
}

// ---------------------------------------------------------------------------
// The middleware
// ---------------------------------------------------------------------------

/// Measures calls. Times are nanoseconds of a monotonic clock.
#[derive(Debug)]
pub struct MetricsMiddleware {
    pub collector: MetricsCollector,
    pub starts: StrMap<Vec<u64>>,
}

/// The starts of the calls of a trace that are under way, the innermost last.
pub open spec fn starts_of(m: Map<Seq<char>, Vec<u64>>, trace_id: Seq<char>) -> Seq<u64> {
    if m.contains_key(trace_id) {
        m[trace_id]@
    } else {
        Seq::empty()
    }
}

/// The duration since the innermost start, zero without one.
pub open spec fn innermost_duration(s: Seq<u64>, now: int) -> int {
    if s.len() == 0 {
        0
    } else {
        logging::duration_since(s.last() as int, now)
    }
}

/// What is left after the innermost start is taken.
pub open spec fn without_innermost(s: Seq<u64>) -> Seq<u64> {
    if s.len() == 0 {
        s
    } else {
        s.drop_last()
    }
}

/// Whether a measurement is that of the duration of a call.
pub open spec fn is_duration_of(p: store::PointView, module_id: Seq<char>, nanos: int) -> bool {
    store::is_observation(p, METRIC_DURATION_SECONDS@, duration_labels(module_id), Json::Float(seconds_text(nanos as nat)))
}

/// The collector after a call that succeeded.
pub open spec fn after_success_of(c: CollectorView, module_id: Seq<char>, nanos: int) -> CollectorView {
    CollectorView {
        counters: incremented(c.counters, key_of(METRIC_CALLS_TOTAL@, call_labels(module_id, "success"@)), 1),
        histograms: with_observation(
            c.histograms,
            key_of(METRIC_DURATION_SECONDS@, duration_labels(module_id)),
            nanos,
        ),
    }
}

/// The collector after a call that failed.
pub open spec fn after_failure_of(c: CollectorView, module_id: Seq<char>, code: Seq<char>, nanos: int) -> CollectorView {
    CollectorView {
        counters: incremented(
            incremented(c.counters, key_of(METRIC_CALLS_TOTAL@, call_labels(module_id, "error"@)), 1),
            key_of(METRIC_ERRORS_TOTAL@, error_labels(module_id, code)),
            1,
        ),
        histograms: with_observation(
            c.histograms,
            key_of(METRIC_DURATION_SECONDS@, duration_labels(module_id)),
            nanos,
        ),
    }
}

impl MetricsMiddleware {
    /// The calls of a trace that are under way.
    pub open spec fn under_way(self, trace_id: Seq<char>) -> Seq<u64> {
        starts_of(self.starts@, trace_id)
    }

    /// Whether the calls of the other traces are the same.
    pub open spec fn same_but(self, other: Self, trace_id: Seq<char>) -> bool {
        forall|t: Seq<char>| t != trace_id ==> #[trigger] self.under_way(t) == other.under_way(t)
    }

    /// A middleware that measures into a collector.
    pub fn new(collector: MetricsCollector) -> (r: Self)
        ensures
            r.collector == collector,
            forall|t: Seq<char>| #[trigger] r.under_way(t) == Seq::<u64>::empty(),
    {
        MetricsMiddleware { collector, starts: StrMap::new() }
    }

    /// The collector.
    pub fn collector(&self) -> (r: &MetricsCollector)
        ensures
            *r == self.collector,
    {
        &self.collector
    }

    /// The name of the middleware.
    pub fn name(&self) -> (r: &'static str)
        ensures
            r@ == "metrics"@,
    {
        "metrics"
    }

    /// A call starts.
    pub fn before(&mut self, trace_id: &str, now: u64)
        ensures
            final(self).collector == old(self).collector,
            final(self).under_way(trace_id@) == old(self).under_way(trace_id@).push(now),
            final(self).same_but(*old(self), trace_id@),
            final(self).starts@.remove(trace_id@) == old(self).starts@.remove(trace_id@),
            final(self).starts@.contains_key(trace_id@) <==> final(self).under_way(trace_id@).len() > 0,
    {
        let mut stack: Vec<u64> = match self.starts.remove(trace_id) {
            Some(v) => v,
            None => Vec::new(),
        };
        stack.push(now);
        self.starts.insert(trace_id.to_owned(), stack);
    }

    /// Take the innermost start of a trace; how long ago it was.
    pub fn pop_duration(&mut self, trace_id: &str, now: u64) -> (r: u64)
        ensures
            final(self).collector == old(self).collector,
            r == innermost_duration(old(self).under_way(trace_id@), now as int),
            final(self).under_way(trace_id@) == without_innermost(old(self).under_way(trace_id@)),
            final(self).same_but(*old(self), trace_id@),
            final(self).starts@.remove(trace_id@) == old(self).starts@.remove(trace_id@),
            final(self).starts@.contains_key(trace_id@) <==> final(self).under_way(trace_id@).len() > 0,
    {
        let mut stack: Vec<u64> = match self.starts.remove(trace_id) {
            Some(v) => v,
            None => {
                return 0;
            },
        };
        let ghost s = stack@;
        let nanos: u64 = match stack.pop() {
            Some(start) => if now >= start {
                now - start
            } else {
                0
            },
            None => 0,
        };
        if stack.len() > 0 {
            self.starts.insert(trace_id.to_owned(), stack);
        } else {
            assert(without_innermost(s) =~= Seq::empty());
        }
        nanos
    }

    /// A call has succeeded. Gives the measurements for a store: the call and its
    /// duration.
    pub fn after(&mut self, module_id: &str, trace_id: &str, now: u64) -> (r: Vec<MetricPoint>)
        ensures
            r@.len() == 2,
            is_sound(final(self).collector@),
            store::is_observation(r@[0]@, METRIC_CALLS_TOTAL@, call_labels(module_id@, "success"@), Json::PosInt(1)),
            is_duration_of(r@[1]@, module_id@, innermost_duration(old(self).under_way(trace_id@), now as int)),
            final(self).collector@ == after_success_of(
                old(self).collector@,
                module_id@,
                innermost_duration(old(self).under_way(trace_id@), now as int),
            ),
            final(self).under_way(trace_id@) == without_innermost(old(self).under_way(trace_id@)),
            final(self).same_but(*old(self), trace_id@),
            final(self).starts@.remove(trace_id@) == old(self).starts@.remove(trace_id@),
            final(self).starts@.contains_key(trace_id@) <==> final(self).under_way(trace_id@).len() > 0,
    {
        let nanos: u64 = self.pop_duration(trace_id, now);
        let ghost mid = *self;
        let mut points: Vec<MetricPoint> = Vec::new();
        points.push(self.collector.increment_calls(module_id, "success"));
        points.push(self.collector.observe_duration(module_id, nanos));
        assert forall|t: Seq<char>| t != trace_id@ implies #[trigger] self.under_way(t) == old(self).under_way(t) by {
            assert(mid.under_way(t) == old(self).under_way(t));
        }
        points
    }

    /// A call has failed. Gives the measurements for a store: the call, the error
    /// and the duration.
    pub fn on_error(&mut self, module_id: &str, trace_id: &str, error: &ModuleError, now: u64) -> (r: Vec<MetricPoint>)
        ensures
            r@.len() == 3,
            is_sound(final(self).collector@),
            store::is_observation(r@[0]@, METRIC_CALLS_TOTAL@, call_labels(module_id@, "error"@), Json::PosInt(1)),
            store::is_observation(
                r@[1]@,
                METRIC_ERRORS_TOTAL@,
                error_labels(module_id@, error_code::wire_name(error.code)),
                Json::PosInt(1),
            ),
            is_duration_of(r@[2]@, module_id@, innermost_duration(old(self).under_way(trace_id@), now as int)),
            final(self).collector@ == after_failure_of(
                old(self).collector@,
                module_id@,
                error_code::wire_name(error.code),
                innermost_duration(old(self).under_way(trace_id@), now as int),
            ),
            final(self).under_way(trace_id@) == without_innermost(old(self).under_way(trace_id@)),
            final(self).same_but(*old(self), trace_id@),
            final(self).starts@.remove(trace_id@) == old(self).starts@.remove(trace_id@),
            final(self).starts@.contains_key(trace_id@) <==> final(self).under_way(trace_id@).len() > 0,
    {
        let nanos: u64 = self.pop_duration(trace_id, now);
        let ghost mid = *self;
        let mut points: Vec<MetricPoint> = Vec::new();
        points.push(self.collector.increment_calls(module_id, "error"));
        points.push(self.collector.increment_errors(module_id, error.code.wire_str()));
        points.push(self.collector.observe_duration(module_id, nanos));
        assert forall|t: Seq<char>| t != trace_id@ implies #[trigger] self.under_way(t) == old(self).under_way(t) by {
            assert(mid.under_way(t) == old(self).under_way(t));
        }
        points
    }
}

/// A nested call of the same trace leaves the start of the outer call alone: the
/// outer call's duration is the time since its own start.
pub proof fn nesting_keeps_the_outer_start(s: Seq<u64>, outer: u64, inner: u64, end: int)
    ensures
        innermost_duration(without_innermost(s.push(outer).push(inner)), end) == logging::duration_since(outer as int, end),
        without_innermost(without_innermost(s.push(outer).push(inner))) == s,
{
    assert(s.push(outer).push(inner).drop_last() =~= s.push(outer));
    assert(s.push(outer).drop_last() =~= s);
}

/// The key under which an observation is kept in a storage.
pub fn observation_key(name: &str, at: &Timestamp) -> (r: String)
    ensures
        r@ == name@ + ":"@ + decimals::signed_text(usage::nanos_number(*at)),
{
    usage_key(name, at)
}

/// How many of some values do not exceed a bound.
pub open spec fn within(values: Seq<u64>, bound: u64) -> int {
    values.filter(|v: u64| v <= bound).len() as int
}

/// The sum of some values.
pub open spec fn sum_of(values: Seq<u64>) -> int
    decreases values.len(),
{
    if values.len() == 0 {
        0
    } else {
        sum_of(values.drop_last()) + values.last()
    }
}

/// A histogram that has seen these values, one after the other, from the start.
pub open spec fn histogram_of(values: Seq<u64>) -> HistogramView
    decreases values.len(),
{
    if values.len() == 0 {
        empty_histogram()
    } else {
        observed(histogram_of(values.drop_last()), values.last() as int)
    }
}

/// An observation above the bound of a bucket leaves the bucket as it was; one
/// within it adds one. Every observation adds one to the number of observations
/// and itself to their sum.
pub proof fn an_observation_counts_where_it_fits(h: HistogramView, value: int, i: int)
    requires
        h.buckets.len() == 13,
        0 <= i < 13,
        h.buckets[i] < u64::MAX,
        h.count < u64::MAX,
        h.sum + value <= u64::MAX,
    ensures
        observed(h, value).buckets.len() == 13,
        value > bucket_bounds()[i] ==> observed(h, value).buckets[i] == h.buckets[i],
        value <= bucket_bounds()[i] ==> observed(h, value).buckets[i] == h.buckets[i] + 1,
        observed(h, value).count == h.count + 1,
        observed(h, value).sum == h.sum + value,
{
}

/// The histogram of some values: each finite bucket counts exactly those that do
/// not exceed its bound, and all of them are counted and summed up.
pub proof fn buckets_count_what_fits(values: Seq<u64>)
    requires
        values.len() <= u64::MAX,
        sum_of(values) <= u64::MAX,
    ensures
        histogram_of(values).buckets.len() == 13,
        forall|i: int| 0 <= i < 13 ==> #[trigger] histogram_of(values).buckets[i] == within(values, bucket_bounds()[i]),
        histogram_of(values).count == values.len(),
        histogram_of(values).sum == sum_of(values),
    decreases values.len(),
{
    reveal(Seq::filter);
    if values.len() > 0 {
        let p = values.drop_last();
        buckets_count_what_fits(p);
        lemma_bounds_grow();
        assert forall|i: int| 0 <= i < 13 implies #[trigger] histogram_of(values).buckets[i] == within(
            values,
            bucket_bounds()[i],
        ) by {
            let b = bucket_bounds()[i];
            assert(histogram_of(p).buckets[i] == within(p, b));
            lemma_within_bound(p, b);
        }
    }
}

proof fn lemma_within_bound(values: Seq<u64>, bound: u64)
    ensures
        within(values, bound) <= values.len(),
    decreases values.len(),
{
    reveal(Seq::filter);
    if values.len() > 0 {
        lemma_within_bound(values.drop_last(), bound);
    }
}

/// The bounds of the buckets grow.
pub proof fn bounds_grow(i: int, j: int)
    requires
        0 <= i < j < 13,
    ensures
        bucket_bounds()[i] < bucket_bounds()[j],
        bucket_bounds().len() == 13,
{
}

/// The bound of each bucket is written in seconds, as any duration is.
pub proof fn bounds_are_told_in_seconds(i: int)
    requires
        0 <= i < 13,
    ensures
        bucket_texts().len() == 13,
        bucket_texts()[i] == seconds_text(bucket_bounds()[i] as nat),
{
    reveal_strlit(".");
    let n = bucket_bounds()[i] as nat;
    let whole = n / 1_000_000_000;
    let thousandths = (n % 1_000_000_000) / 1_000_000;
    assert(n % 1_000_000_000 == 1_000_000 * thousandths);
    lemma_thousandths(thousandths);
    lemma_small_number(whole);
    if i == 0 {
        reveal_strlit("0.005");
        lemma_three_digits(0, 0, 5);
        assert(seconds_text(n) =~= "0.005"@);
    } else if i == 1 {
        reveal_strlit("0.01");
        lemma_three_digits(0, 1, 0);
        assert(seconds_text(n) =~= "0.01"@);
    } else if i == 2 {
        reveal_strlit("0.025");
        lemma_three_digits(0, 2, 5);
        assert(seconds_text(n) =~= "0.025"@);
    } else if i == 3 {
        reveal_strlit("0.05");
        lemma_three_digits(0, 5, 0);
        assert(seconds_text(n) =~= "0.05"@);
    } else if i == 4 {
        reveal_strlit("0.1");
        lemma_three_digits(1, 0, 0);
        assert(seconds_text(n) =~= "0.1"@);
    } else if i == 5 {
        reveal_strlit("0.25");
        lemma_three_digits(2, 5, 0);
        assert(seconds_text(n) =~= "0.25"@);
    } else if i == 6 {
        reveal_strlit("0.5");
        lemma_three_digits(5, 0, 0);
        assert(seconds_text(n) =~= "0.5"@);
    } else if i == 8 {
        reveal_strlit("2.5");
        lemma_three_digits(5, 0, 0);
        assert(seconds_text(n) =~= "2.5"@);
    } else {
        reveal_strlit("1");
        reveal_strlit("5");
        reveal_strlit("10");
        reveal_strlit("30");
        reveal_strlit("60");
        assert(seconds_text(n) =~= bucket_texts()[i]);
    }
}

proof fn lemma_small_number(n: nat)
    requires
        n < 100,
    ensures
        n < 10 ==> text::decimal_text(n) == seq![text::digit_char(n)],
        n >= 10 ==> text::decimal_text(n) == seq![text::digit_char(n / 10), text::digit_char(n % 10)],
{
    reveal_with_fuel(text::decimal_text, 3);
    if n >= 10 {
        assert(text::decimal_text(n) =~= seq![text::digit_char(n / 10), text::digit_char(n % 10)]);
    }
}

proof fn lemma_one_zero(m: nat, n: nat)
    ensures
        decimals::without_zeros(decimals::fraction_digits(10 * m, n + 1)) == decimals::without_zeros(
            decimals::fraction_digits(m, n),
        ),
{
    let d = decimals::fraction_digits(10 * m, n + 1);
    assert((10 * m) / 10 == m && (10 * m) % 10 == 0);
    assert(d.last() == '0');
    assert(d.drop_last() =~= decimals::fraction_digits(m, n));
}

proof fn lemma_thousandths(m: nat)
    ensures
        decimals::without_zeros(decimals::fraction_digits(1_000_000 * m, 9)) == decimals::without_zeros(
            decimals::fraction_digits(m, 3),
        ),
{
    lemma_one_zero(100_000 * m, 8);
    lemma_one_zero(10_000 * m, 7);
    lemma_one_zero(1_000 * m, 6);
    lemma_one_zero(100 * m, 5);
    lemma_one_zero(10 * m, 4);
    lemma_one_zero(m, 3);
}

proof fn lemma_three_digits(a: nat, b: nat, c: nat)
    requires
        a < 10,
        b < 10,
        c < 10,
    ensures
        ({
            let r = decimals::without_zeros(decimals::fraction_digits(100 * a + 10 * b + c, 3));
            &&& c > 0 ==> r == seq![text::digit_char(a), text::digit_char(b), text::digit_char(c)]
            &&& c == 0 && b > 0 ==> r == seq![text::digit_char(a), text::digit_char(b)]
            &&& c == 0 && b == 0 && a > 0 ==> r == seq![text::digit_char(a)]
        }),
{
    reveal_with_fuel(decimals::fraction_digits, 4);
    reveal_with_fuel(decimals::without_zeros, 4);
    let n = 100 * a + 10 * b + c;
    assert(n % 10 == c && n / 10 == 10 * a + b && (n / 10) % 10 == b && n / 10 / 10 == a);
    let d = decimals::fraction_digits(n, 3);
    assert(d =~= seq![text::digit_char(a), text::digit_char(b), text::digit_char(c)]);
    assert(d.drop_last() =~= seq![text::digit_char(a), text::digit_char(b)]);
    assert(d.drop_last().drop_last() =~= seq![text::digit_char(a)]);
}

proof fn lemma_target(total: int, n: int)
    requires
        total >= 0,
    ensures
        p99_target(total) <= n <==> 100 * n >= 99 * total,
{
}

/// The place in a sorted list up to which 99 of 100 values lie: with the value
/// there they make up at least that part, without it less.
pub proof fn the_place_of_99_of_100(len: int)
    requires
        len > 0,
    ensures
        0 <= p99_index(len) < len,
        100 * (p99_index(len) + 1) >= 99 * len,
        100 * p99_index(len) < 99 * len,
{
    lemma_target(len, p99_index(len) + 1);
    lemma_target(len, p99_index(len));
}

proof fn lemma_first_reaches(b: Seq<(Option<u64>, u64)>, n: int, i: int, target: int)
    requires
        0 <= i < n <= b.len(),
        b[i].0 is Some,
        b[i].1 >= target,
        forall|j: int| 0 <= j < i ==> (#[trigger] b[j]).0 is None || b[j].1 < target,
    ensures
        first_reaching(b.subrange(0, n), target) == b[i].0,
    decreases n,
{
    let part = b.subrange(0, n);
    assert(part.drop_last() =~= b.subrange(0, n - 1));
    assert(part.last() == b[n - 1]);
    if i < n - 1 {
        lemma_first_reaches(b, n - 1, i, target);
    } else {
        lemma_none_reaches(b, n - 1, target);
    }
}

proof fn lemma_none_reaches(b: Seq<(Option<u64>, u64)>, n: int, target: int)
    requires
        0 <= n <= b.len(),
        forall|j: int| 0 <= j < n ==> (#[trigger] b[j]).0 is None || b[j].1 < target,
    ensures
        first_reaching(b.subrange(0, n), target) is None,
    decreases n,
{
    if n > 0 {
        let part = b.subrange(0, n);
        assert(part.drop_last() =~= b.subrange(0, n - 1));
        assert(part.last() == b[n - 1]);
        lemma_none_reaches(b, n - 1, target);
    }
}

/// The estimate is the bound of the first bucket that counts at least 99 of 100
/// observations.
pub proof fn the_first_bucket_with_99_of_100(b: Seq<(Option<u64>, u64)>, total: int, i: int)
    requires
        total > 0,
        0 <= i < b.len(),
        b[i].0 is Some,
        100 * b[i].1 >= 99 * total,
        forall|j: int| 0 <= j < i ==> (#[trigger] b[j]).0 is None || 100 * b[j].1 < 99 * total,
    ensures
        Some(p99_estimate(b, total)) == b[i].0,
{
    lemma_target(total, b[i].1 as int);
    assert forall|j: int| 0 <= j < i implies (#[trigger] b[j]).0 is None || b[j].1 < p99_target(total) by {
        lemma_target(total, b[j].1 as int);
    }
    lemma_first_reaches(b, b.len() as int, i, p99_target(total));
    assert(b.subrange(0, b.len() as int) =~= b);
}

/// Where no bucket with a bound counts 99 of 100 observations, the estimate is the
/// largest bound; without observations it is zero.
pub proof fn beyond_the_buckets_the_largest_bound(b: Seq<(Option<u64>, u64)>, total: int)
    requires
        total > 0,
        forall|j: int| 0 <= j < b.len() ==> (#[trigger] b[j]).0 is None || 100 * b[j].1 < 99 * total,
    ensures
        forall|j: int| 0 <= j < b.len() && (#[trigger] b[j]).0 is Some ==> b[j].0->0 <= p99_estimate(b, total),
        p99_estimate(b, 0) == 0,
{
    assert forall|j: int| 0 <= j < b.len() implies (#[trigger] b[j]).0 is None || b[j].1 < p99_target(total) by {
        lemma_target(total, b[j].1 as int);
    }
    lemma_none_reaches(b, b.len() as int, p99_target(total));
    assert(b.subrange(0, b.len() as int) =~= b);
    lemma_largest(b);
}

proof fn lemma_largest(b: Seq<(Option<u64>, u64)>)
    ensures
        forall|j: int| 0 <= j < b.len() && (#[trigger] b[j]).0 is Some ==> largest_finite(b) is Some && b[j].0->0
            <= largest_finite(b)->0,
    decreases b.len(),
{
    if b.len() > 0 {
        let p = b.drop_last();
        lemma_largest(p);
        assert forall|j: int| 0 <= j < b.len() && (#[trigger] b[j]).0 is Some implies largest_finite(b) is Some && b[j].0->0
            <= largest_finite(b)->0 by {
            if j < p.len() {
                assert(p[j] == b[j]);
                assert(p[j].0 is Some);
            } else {
                assert(b[j] == b.last());
            }
        }
    }
}

/// The latency that is read of some values is the least bound that at least 99 of
/// 100 of them do not exceed.
pub proof fn the_latency_covers_99_of_100(values: Seq<u64>, i: int)
    requires
        0 < values.len() <= u64::MAX,
        sum_of(values) <= u64::MAX,
        0 <= i < 13,
        100 * within(values, bucket_bounds()[i]) >= 99 * values.len(),
        forall|j: int| 0 <= j < i ==> 100 * within(values, #[trigger] bucket_bounds()[j]) < 99 * values.len(),
    ensures
        ({
            let h = histogram_snapshot(histogram_of(values));
            p99_estimate(h.buckets, h.count) == bucket_bounds()[i]
        }),
{
    buckets_count_what_fits(values);
    let h = histogram_of(values);
    let b = bounded_buckets(h);
    assert(h.buckets[i] == within(values, bucket_bounds()[i]));
    assert forall|j: int| 0 <= j < i implies (#[trigger] b[j]).0 is None || 100 * b[j].1 < 99 * values.len() by {
        assert(h.buckets[j] == within(values, bucket_bounds()[j]));
        assert(100 * within(values, bucket_bounds()[j]) < 99 * values.len());
    }
    the_first_bucket_with_99_of_100(b, values.len() as int, i);
}

/// A counter that grows grows by as much as it is told, where it was or as a new
/// one at the end; every other counter stays as it was.
pub proof fn one_counter_grows(s: Seq<(KeyView, u64)>, k: KeyView, amount: int)
    requires
        distinct_keys(s),
        0 <= amount <= u64::MAX,
    ensures
        forall|i: int| 0 <= i < s.len() && (#[trigger] s[i]).0 != k ==> incremented(s, k, amount)[i] == s[i],
        forall|i: int|
            0 <= i < s.len() && (#[trigger] s[i]).0 == k ==> incremented(s, k, amount).len() == s.len() && incremented(
                s,
                k,
                amount,
            )[i].0 == k && (s[i].1 + amount <= u64::MAX ==> incremented(s, k, amount)[i].1 == s[i].1 + amount) && (s[i].1
                + amount > u64::MAX ==> incremented(s, k, amount)[i].1 == u64::MAX),
        (forall|i: int| 0 <= i < s.len() ==> (#[trigger] s[i]).0 != k) ==> incremented(s, k, amount) == s.push(
            (k, amount as u64),
        ),
{
    lemma_find_key(s, s.len() as int, k);
}

/// An observation goes to its own histogram, where it was or as a new one at the
/// end; every other histogram stays as it was.
pub proof fn one_histogram_observes(s: Seq<(KeyView, HistogramView)>, k: KeyView, value: int)
    requires
        distinct_keys(s),
    ensures
        forall|i: int| 0 <= i < s.len() && (#[trigger] s[i]).0 != k ==> with_observation(s, k, value)[i] == s[i],
        forall|i: int|
            0 <= i < s.len() && (#[trigger] s[i]).0 == k ==> with_observation(s, k, value) == s.update(
                i,
                (k, observed(s[i].1, value)),
            ),
        (forall|i: int| 0 <= i < s.len() ==> (#[trigger] s[i]).0 != k) ==> with_observation(s, k, value) == s.push(
            (k, observed(histogram_of(Seq::empty()), value)),
        ),
{
    lemma_find_key(s, s.len() as int, k);
}

/// A call that succeeds counts as one call with the status of a success and is
/// observed with its duration; it counts as no error.
pub proof fn a_success_counts_as_one(c: CollectorView, module_id: Seq<char>, nanos: int)
    ensures
        ({
            let r = after_success_of(c, module_id, nanos);
            &&& r.counters == incremented(
                c.counters,
                key_of("apcore_module_calls_total"@, map!["module_id"@ => module_id, "status"@ => "success"@]),
                1,
            )
            &&& r.histograms == with_observation(
                c.histograms,
                key_of("apcore_module_duration_seconds"@, map!["module_id"@ => module_id]),
                nanos,
            )
        }),
{
}

/// A call that fails counts as one call with the status of an error and as one
/// error of its code, and is observed with its duration.
pub proof fn a_failure_counts_as_one(c: CollectorView, module_id: Seq<char>, code: Seq<char>, nanos: int)
    ensures
        ({
            let r = after_failure_of(c, module_id, code, nanos);
            &&& r.counters == incremented(
                incremented(
                    c.counters,
                    key_of("apcore_module_calls_total"@, map!["module_id"@ => module_id, "status"@ => "error"@]),
                    1,
                ),
                key_of("apcore_module_errors_total"@, map!["module_id"@ => module_id, "error_code"@ => code]),
                1,
            )
            &&& r.histograms == with_observation(
                c.histograms,
                key_of("apcore_module_duration_seconds"@, map!["module_id"@ => module_id]),
                nanos,
            )
        }),
{
}

/// A metric has the labels that it was given, all of them and no others, in the
/// order of their names.
pub proof fn a_metric_has_its_labels(name: Seq<char>, labels: Map<Seq<char>, Seq<char>>, s: Seq<(Seq<char>, Seq<char>)>)
    requires
        labels::lists(s, labels),
    ensures
        key_of(name, labels).name == name,
        key_of(name, labels).labels == s,
        forall|i: int, j: int| 0 <= i < j < s.len() ==> text::text_before((#[trigger] s[i]).0, (#[trigger] s[j]).0),
        forall|k: Seq<char>| #[trigger] labels.contains_key(k) <==> exists|i: int| 0 <= i < s.len() && (#[trigger] s[i]) == (
            k,
            labels[k],
        ),
{
    lemma_sorted_list(s, labels);
    assert forall|k: Seq<char>| #[trigger] labels.contains_key(k) <==> exists|i: int|
        0 <= i < s.len() && (#[trigger] s[i]) == (k, labels[k]) by {
        if labels.contains_key(k) {
            assert(strmap::has_key(s, k));
            let i = strmap::key_index(s, k);
            assert(s[i] == (k, labels[k]));
        }
        if exists|i: int| 0 <= i < s.len() && (#[trigger] s[i]) == (k, labels[k]) {
            let i = choose|i: int| 0 <= i < s.len() && (#[trigger] s[i]) == (k, labels[k]);
            assert(s[i].0 == k);
            assert(strmap::has_key(s, k));
        }
    }
}

/// A snapshot shows every counter under its text with its value, as long as no
/// other counter has the same text.
pub proof fn a_snapshot_shows_every_counter(s: Seq<(KeyView, u64)>, i: int)
    requires
        0 <= i < s.len(),
        forall|j: int| 0 <= j < s.len() && j != i ==> key_text((#[trigger] s[j]).0) != key_text(s[i].0),
    ensures
        counter_values(s).contains_key(key_text(s[i].0)),
        counter_values(s)[key_text(s[i].0)] == s[i].1,
{
    lemma_counter_value(s, i);
}

/// A snapshot shows every histogram under its text with its sum, its number of
/// observations and every bucket with its bound, as long as no other histogram has
/// the same text.
pub proof fn a_snapshot_shows_every_histogram(s: Seq<(KeyView, HistogramView)>, i: int)
    requires
        0 <= i < s.len(),
        s[i].1.buckets.len() == 13,
        0 <= s[i].1.count <= u64::MAX,
        forall|j: int| 0 <= j < s.len() && j != i ==> key_text((#[trigger] s[j]).0) != key_text(s[i].0),
    ensures
        histogram_values(s).contains_key(key_text(s[i].0)),
        ({
            let r = histogram_values(s)[key_text(s[i].0)];
            &&& r.sum_nanos == s[i].1.sum
            &&& r.count == s[i].1.count
            &&& r.buckets.len() == 14
            &&& forall|b: int| 0 <= b < 13 ==> #[trigger] r.buckets[b] == (Some(bucket_bounds()[b]), s[i].1.buckets[b])
            &&& r.buckets[13].0 is None && r.buckets[13].1 == s[i].1.count
        }),
    decreases s.len(),
{
    if i < s.len() - 1 {
        let p = s.drop_last();
        assert forall|j: int| 0 <= j < p.len() && j != i implies key_text((#[trigger] p[j]).0) != key_text(p[i].0) by {
            assert(p[j] == s[j]);
        }
        a_snapshot_shows_every_histogram(p, i);
        assert(key_text(s[s.len() - 1].0) != key_text(s[i].0));
    }
}

/// An escaped text without its escapes, read from the left.
pub open spec fn unescaped(s: Seq<char>) -> Seq<char>
    decreases s.len(),
{
    if s.len() == 0 {
        Seq::empty()
    } else if s[0] == '\\' && s.len() > 1 {
        seq![
            if s[1] == 'n' {
                '\n'
            } else {
                s[1]
            },
        ] + unescaped(s.skip(2))
    } else {
        seq![s[0]] + unescaped(s.skip(1))
    }
}

proof fn lemma_escaped_from_the_left(s: Seq<char>)
    requires
        s.len() > 0,
    ensures
        escaped(s) == escaped_char(s[0]) + escaped(s.skip(1)),
    decreases s.len(),
{
    if s.len() == 1 {
        assert(s.drop_last() =~= Seq::empty());
        assert(s.skip(1) =~= Seq::empty());
        assert(escaped(s) =~= escaped_char(s[0]) + escaped(s.skip(1)));
    } else {
        lemma_escaped_from_the_left(s.drop_last());
        assert(s.drop_last().skip(1) =~= s.skip(1).drop_last());
        assert(escaped(s) =~= escaped_char(s[0]) + escaped(s.skip(1)));
    }
}

/// The value of a label reads back from its escaped form.
pub proof fn an_escaped_value_reads_back(s: Seq<char>)
    ensures
        unescaped(escaped(s)) == s,
    decreases s.len(),
{
    if s.len() > 0 {
        lemma_escaped_from_the_left(s);
        an_escaped_value_reads_back(s.skip(1));
        let e = escaped_char(s[0]);
        let all = escaped(s);
        assert(all.skip(e.len() as int) =~= escaped(s.skip(1)));
        assert(unescaped(all) =~= seq![s[0]] + s.skip(1));
        assert(seq![s[0]] + s.skip(1) =~= s);
    }
}

/// The labels of a metric are written each with its value escaped and in quotes.
pub proof fn every_label_is_written(s: Seq<(Seq<char>, Seq<char>)>, i: int)
    requires
        0 <= i < s.len(),
    ensures
        text::has_infix(braced_labels(s), s[i].0 + "=\""@ + escaped(s[i].1) + "\""@),
{
    lemma_label_in_list(s, i);
    text::a_part_is_kept(quoted_labels(s), s[i].0 + "=\""@ + escaped(s[i].1) + "\""@, "{"@, "}"@);
}

proof fn lemma_label_in_list(s: Seq<(Seq<char>, Seq<char>)>, i: int)
    requires
        0 <= i < s.len(),
    ensures
        text::has_infix(quoted_labels(s), s[i].0 + "=\""@ + escaped(s[i].1) + "\""@),
    decreases s.len(),
{
    let p = s[i].0 + "=\""@ + escaped(s[i].1) + "\""@;
    let none = Seq::<char>::empty();
    assert(none + p + none =~= p);
    text::a_part_stands_between(p, p, none, none);
    if s.len() > 1 {
        let front = quoted_labels(s.drop_last()) + ","@;
        if i == s.len() - 1 {
            text::a_part_is_kept(p, p, front, none);
        } else {
            lemma_label_in_list(s.drop_last(), i);
            text::a_part_is_kept(quoted_labels(s.drop_last()), p, none, ","@ + quoted_label(s.last().0, s.last().1));
            assert(quoted_labels(s) =~= quoted_labels(s.drop_last()) + (","@ + quoted_label(s.last().0, s.last().1)));
        }
    }
}

/// Every counter has its line in the export, with its name, its labels and its
/// value.
pub proof fn every_counter_has_its_line(s: Seq<(KeyView, u64)>, i: int)
    requires
        0 <= i < s.len(),
    ensures
        text::has_infix(
            counter_lines(s),
            s[i].0.name + braced_labels(s[i].0.labels) + " "@ + text::decimal_text(s[i].1 as nat) + "\n"@,
        ),
    decreases s.len(),
{
    let k = s[i].0;
    let line = k.name + braced_labels(k.labels) + " "@ + text::decimal_text(s[i].1 as nat) + "\n"@;
    let none = Seq::<char>::empty();
    let p = s.drop_last();
    if i == s.len() - 1 {
        let head = if has_name(p, k.name) {
            none
        } else {
            header(k.name, "counter"@)
        };
        text::a_part_stands_between(line, line, counter_lines(p) + head, none);
        assert(counter_lines(s) =~= counter_lines(p) + head + line + none);
    } else {
        every_counter_has_its_line(p, i);
        text::a_part_is_kept(counter_lines(p), line, none, counter_entry(p, s.last()));
    }
}

/// Every metric is introduced in the export, where it stands first, with its name
/// and its kind.
pub proof fn every_counter_is_introduced(s: Seq<(KeyView, u64)>, i: int)
    requires
        0 <= i < s.len(),
        forall|j: int| 0 <= j < i ==> (#[trigger] s[j]).0.name != s[i].0.name,
    ensures
        text::has_infix(counter_lines(s), "\n# TYPE "@ + s[i].0.name + " counter\n"@),
    decreases s.len(),
{
    let k = s[i].0;
    let none = Seq::<char>::empty();
    let p = s.drop_last();
    let line = "\n# TYPE "@ + k.name + " counter\n"@;
    reveal_strlit(" counter\n");
    reveal_strlit(" ");
    reveal_strlit("counter");
    reveal_strlit("\n");
    assert(" counter\n"@ =~= " "@ + "counter"@ + "\n"@);
    if i == s.len() - 1 {
        assert(!has_name(p, k.name)) by {
            if has_name(p, k.name) {
                let j = choose|j: int| 0 <= j < p.len() && (#[trigger] p[j]).0.name == k.name;
                assert(s[j].0.name == k.name);
            }
        }
        let front = counter_lines(p) + ("# HELP "@ + k.name + " "@ + help_of(k.name));
        let back = k.name + braced_labels(k.labels) + " "@ + text::decimal_text(s[i].1 as nat) + "\n"@;
        text::a_part_stands_between(line, line, front, back);
        assert(counter_lines(s) =~= front + line + back);
    } else {
        every_counter_is_introduced(p, i);
        text::a_part_is_kept(counter_lines(p), line, none, counter_entry(p, s.last()));
    }
}

proof fn lemma_bucket_in_lines(k: KeyView, buckets: Seq<u64>, n: nat, b: int)
    requires
        0 <= b < n,
    ensures
        text::has_infix(bucket_lines(k, buckets, n), bucket_line(k, bucket_texts()[b], buckets[b] as nat)),
    decreases n,
{
    let line = bucket_line(k, bucket_texts()[b], buckets[b] as nat);
    let none = Seq::<char>::empty();
    let before = bucket_lines(k, buckets, (n - 1) as nat);
    if b == n - 1 {
        text::a_part_stands_between(line, line, before, none);
        assert(bucket_lines(k, buckets, n) =~= before + line + none);
    } else {
        lemma_bucket_in_lines(k, buckets, (n - 1) as nat, b);
        text::a_part_is_kept(before, line, none, bucket_line(k, bucket_texts()[n - 1], buckets[n - 1] as nat));
    }
}

proof fn lemma_block_in_lines(s: Seq<(KeyView, HistogramView)>, i: int)
    requires
        0 <= i < s.len(),
    ensures
        text::has_infix(histogram_lines(s), histogram_block(s[i].0, s[i].1)),
    decreases s.len(),
{
    let block = histogram_block(s[i].0, s[i].1);
    let none = Seq::<char>::empty();
    let p = s.drop_last();
    if i == s.len() - 1 {
        let head = if has_name(p, s[i].0.name) {
            none
        } else {
            header(s[i].0.name, "histogram"@)
        };
        text::a_part_stands_between(block, block, histogram_lines(p) + head, none);
        assert(histogram_lines(s) =~= histogram_lines(p) + head + block + none);
    } else {
        lemma_block_in_lines(p, i);
        text::a_part_is_kept(histogram_lines(p), block, none, histogram_entry(p, s.last()));
    }
}

proof fn lemma_part_of_part(s: Seq<char>, t: Seq<char>, p: Seq<char>)
    requires
        text::has_infix(s, t),
        text::has_infix(t, p),
    ensures
        text::has_infix(s, p),
{
    text::a_part_stands_between(s, t, Seq::empty(), Seq::empty());
    let (a, b) = choose|a: Seq<char>, b: Seq<char>| s == #[trigger] (a + t + b);
    text::a_part_is_kept(t, p, a, b);
}

/// Every histogram has its lines in the export: each bucket with its bound and
/// what it counts, the one without a bound and what all count, the sum in seconds
/// and the number of observations.
pub proof fn every_histogram_has_its_lines(s: Seq<(KeyView, HistogramView)>, i: int, b: int)
    requires
        0 <= i < s.len(),
        0 <= b < 13,
    ensures
        ({
            let k = s[i].0;
            let h = s[i].1;
            let all = histogram_lines(s);
            &&& text::has_infix(
                all,
                k.name + "_bucket"@ + bound_labels(k.labels, bucket_texts()[b]) + " "@ + text::decimal_text(
                    h.buckets[b] as nat,
                ) + "\n"@,
            )
            &&& text::has_infix(
                all,
                k.name + "_bucket"@ + bound_labels(k.labels, "+Inf"@) + " "@ + text::decimal_text(h.count as nat) + "\n"@,
            )
            &&& text::has_infix(
                all,
                k.name + "_sum"@ + braced_labels(k.labels) + " "@ + seconds_text(h.sum as nat) + "\n"@,
            )
            &&& text::has_infix(
                all,
                k.name + "_count"@ + braced_labels(k.labels) + " "@ + text::decimal_text(h.count as nat) + "\n"@,
            )
        }),
{
    let k = s[i].0;
    let h = s[i].1;
    let all = histogram_lines(s);
    let block = histogram_block(k, h);
    let none = Seq::<char>::empty();
    let l1 = bucket_line(k, bucket_texts()[b], h.buckets[b] as nat);
    let buckets = bucket_lines(k, h.buckets, 13);
    let l2 = bucket_line(k, "+Inf"@, h.count as nat);
    let l3 = k.name + "_sum"@ + braced_labels(k.labels) + " "@ + seconds_text(h.sum as nat) + "\n"@;
    let l4 = k.name + "_count"@ + braced_labels(k.labels) + " "@ + text::decimal_text(h.count as nat) + "\n"@;
    lemma_block_in_lines(s, i);
    lemma_bucket_in_lines(k, h.buckets, 13, b);
    text::a_part_is_kept(buckets, l1, none, l2 + l3 + l4);
    assert(block =~= buckets + (l2 + l3 + l4));
    text::a_part_stands_between(block, l2, buckets, l3 + l4);
    assert(block =~= buckets + l2 + (l3 + l4));
    text::a_part_stands_between(block, l3, buckets + l2, l4);
    text::a_part_stands_between(block, l4, buckets + l2 + l3, none);
    assert(block =~= buckets + l2 + l3 + l4 + none);
    lemma_part_of_part(all, block, l1);
    lemma_part_of_part(all, block, l2);
    lemma_part_of_part(all, block, l3);
    lemma_part_of_part(all, block, l4);
}

proof fn lemma_bound_marks()
    ensures
        "{le=\""@ == "{"@ + "le=\""@,
        ",le=\""@ == ","@ + "le=\""@,
        "\"}"@ == "\""@ + "}"@,
{
    reveal_strlit("{le=\"");
    reveal_strlit(",le=\"");
    reveal_strlit("le=\"");
    reveal_strlit("{");
    reveal_strlit(",");
    reveal_strlit("\"}");
    reveal_strlit("\"");
    reveal_strlit("}");
    assert("{le=\""@ =~= "{"@ + "le=\""@);
    assert(",le=\""@ =~= ","@ + "le=\""@);
    assert("\"}"@ =~= "\""@ + "}"@);
}

/// A bucket is told apart by the label of its bound, behind the labels of the
/// metric.
pub proof fn a_bucket_tells_its_bound(labels: Seq<(Seq<char>, Seq<char>)>, bound: Seq<char>)
    ensures
        text::has_infix(bound_labels(labels, bound), "le=\""@ + bound + "\""@),
        labels.len() > 0 ==> text::has_infix(bound_labels(labels, bound), quoted_labels(labels)),
{
    let le = "le=\""@;
    let quote = "\""@;
    let p = le + bound + quote;
    let close = "}"@;
    let open = "{"@;
    let comma = ","@;
    lemma_bound_marks();
    if labels.len() == 0 {
        text::a_part_stands_between(p, p, open, close);
        assert(open + le + bound + (quote + close) =~= open + p + close);
    } else {
        let q = quoted_labels(labels);
        let all = open + q + (comma + le) + bound + (quote + close);
        text::a_part_stands_between(p, p, open + q + comma, close);
        assert(all =~= open + q + comma + p + close);
        text::a_part_stands_between(q, q, open, comma + p + close);
        assert(all =~= open + q + (comma + p + close));
    }
}

/// A duration in nanoseconds is written in seconds: its whole seconds, and what is
/// left of it behind a point.
pub proof fn seconds_read_back(nanos: nat)
    ensures
        nanos % 1_000_000_000 == 0 ==> text::number_of(seconds_text(nanos)) * 1_000_000_000 == nanos,
        nanos % 1_000_000_000 != 0 ==> exists|whole: nat, d: Seq<char>|
            {
                &&& seconds_text(nanos) == #[trigger] (text::decimal_text(whole) + "."@ + d)
                &&& 0 < d.len() <= 9
                &&& whole * 1_000_000_000 + text::number_of(d) * decimals::power_of_ten((9 - d.len()) as nat) == nanos
            },
{
    let whole = nanos / 1_000_000_000;
    let part = nanos % 1_000_000_000;
    reveal_with_fuel(decimals::power_of_ten, 10);
    assert(decimals::power_of_ten(9) == 1_000_000_000);
    text::a_number_reads_back(whole);
    if part != 0 {
        decimals::a_fraction_reads_back(whole, part, 9);
        let d = choose|d: Seq<char>|
            {
                &&& decimals::fraction_text(whole, part, 9) == #[trigger] (text::decimal_text(whole) + "."@ + d)
                &&& 0 < d.len() <= 9
                &&& text::all_digits(d)
                &&& d.last() != '0'
                &&& text::number_of(d) * decimals::power_of_ten((9 - d.len()) as nat) == part
            };
        assert(seconds_text(nanos) == text::decimal_text(whole) + "."@ + d);
    }
}

/// The duration of a call is the time from its own start, the latest that has not
/// ended, to its end; the starts of the calls around it stay.
pub proof fn a_call_takes_the_time_since_its_start(s: Seq<u64>, start: u64, end: int)
    ensures
        end >= start ==> start + innermost_duration(s.push(start), end) == end,
        end < start ==> innermost_duration(s.push(start), end) == 0,
        without_innermost(s.push(start)) == s,
        innermost_duration(Seq::empty(), end) == 0,
{
    assert(s.push(start).drop_last() =~= s);
}

} // verus!
