//! Errors and measurements, kept in the order in which they come.
use vstd::prelude::*;
use vstd::string::*;
use crate::clock::Timestamp;
use crate::json::{Json, Number};
use crate::observability::error_history::{EntryView, ErrorEntry};
use crate::strmap::StrMap;
use crate::text::{clone_opt, str_eq};
use crate::events::subscribers;
use crate::json;
use crate::strmap;
use crate::text;

verus! {

/// A measurement.
#[derive(Debug)]
pub struct MetricPoint {
    pub name: String,
    pub value: Number,
    pub module_id: Option<String>,
    pub labels: StrMap<String>,
    pub timestamp: Timestamp,
}

/// The mathematical contents of a measurement.
#[verifier::ext_equal]
pub struct PointView {
    pub name: Seq<char>,
    pub value: Json,
    pub module_id: Option<Seq<char>>,
    pub labels: Map<Seq<char>, Seq<char>>,
    pub timestamp: Timestamp,
}

impl View for MetricPoint {
    type V = PointView;

    open spec fn view(&self) -> PointView {
        PointView {
            name: self.name@,
            value: json::number_view(self.value),
            module_id: text::opt_text(self.module_id),
            labels: subscribers::text_map(self.labels@),
            timestamp: self.timestamp,
        }
    }
}

/// Whether a measurement is that of a value under a name and labels: its module
/// is the one that the labels name.
pub open spec fn is_observation(p: PointView, name: Seq<char>, labels: Map<Seq<char>, Seq<char>>, value: Json) -> bool {
    p == PointView {
        name,
        value,
        module_id: if labels.contains_key("module_id"@) {
            Some(labels["module_id"@])
        } else {
            None
        },
        labels,
        timestamp: p.timestamp,
    }
}

fn clone_labels(m: &StrMap<String>) -> (r: StrMap<String>)
    ensures
        subscribers::text_map(r@) == subscribers::text_map(m@),
{
    let n: usize = m.len();
    let ghost p = m.pairs();
    let mut out: StrMap<String> = StrMap::new();
    let mut i: usize = 0;
    while i < n
        invariant
            i <= n,
            n == p.len(),
            p == m.pairs(),
            forall|k: Seq<char>| #[trigger]
                out@.contains_key(k) ==> m@.contains_key(k) && out@[k]@ == m@[k]@,
            forall|j: int| 0 <= j < i ==> out@.contains_key((#[trigger] p[j]).0),
        decreases n - i,
    {
        out.insert(m.key_at(i).clone(), m.value_at(i).clone());
        i = i + 1;
    }
    proof {
        assert forall|k: Seq<char>| #[trigger] m@.contains_key(k) implies out@.contains_key(k) by {
            assert(strmap::has_key(p, k));
            assert(p[strmap::key_index(p, k)].0 == k);
        }
        assert(subscribers::text_map(out@) =~= subscribers::text_map(m@));
    }
    out
}

impl Clone for MetricPoint {
    fn clone(&self) -> (r: Self)
        ensures
            r@ == self@,
    {
        MetricPoint {
            name: self.name.clone(),
            value: self.value.clone(),
            module_id: clone_opt(&self.module_id),
            labels: clone_labels(&self.labels),
            timestamp: self.timestamp,
        }
    }
}

impl MetricPoint {
    /// A measurement at the current time.
    pub fn new(name: &str, value: Number) -> (r: Self)
        ensures
            r@ == (PointView {
                name: name@,
                value: json::number_view(value),
                module_id: None,
                labels: Map::empty(),
                timestamp: r.timestamp,
            }),
    {
        let labels: StrMap<String> = StrMap::new();
        assert(subscribers::text_map(labels@) =~= Map::empty());
        MetricPoint { name: name.to_owned(), value, module_id: None, labels, timestamp: Timestamp::now() }
    }

    /// A measurement at the current time with labels, of the module that these
    /// name.
    pub fn observed(name: &str, labels: &StrMap<String>, value: Number) -> (r: Self)
        ensures
            is_observation(r@, name@, subscribers::text_map(labels@), json::number_view(value)),
    {
        let module_id: Option<String> = match labels.get("module_id") {
            Some(id) => Some(id.clone()),
            None => None,
        };
        MetricPoint { name: name.to_owned(), value, module_id, labels: clone_labels(labels), timestamp: Timestamp::now() }
    }

    /// The measurement with a module.
    pub fn with_module_id(self, module_id: &str) -> (r: Self)
        ensures
            r@ == (PointView { module_id: Some(module_id@), ..self@ }),
    {
        MetricPoint {
            name: self.name,
            value: self.value,
            module_id: Some(module_id.to_owned()),
            labels: self.labels,
            timestamp: self.timestamp,
        }
    }

    /// The measurement with labels.
    pub fn with_labels(self, labels: StrMap<String>) -> (r: Self)
        ensures
            r@ == (PointView { labels: subscribers::text_map(labels@), ..self@ }),
    {
        MetricPoint {
            name: self.name,
            value: self.value,
            module_id: self.module_id,
            labels,
            timestamp: self.timestamp,
        }
    }
}

/// The contents of errors.
pub open spec fn entries_view(s: Seq<ErrorEntry>) -> Seq<EntryView> {
    Seq::new(s.len(), |i: int| s[i]@)
}

/// The contents of measurements.
pub open spec fn points_view(s: Seq<MetricPoint>) -> Seq<PointView> {
    Seq::new(s.len(), |i: int| s[i]@)
}

/// The errors of a module, all without one.
pub open spec fn errors_of(s: Seq<EntryView>, module_id: Option<Seq<char>>) -> Seq<EntryView>
    decreases s.len(),
{
    if s.len() == 0 {
        Seq::empty()
    } else if module_id is None || module_id == Some(s.last().module_id) {
        errors_of(s.drop_last(), module_id).push(s.last())
    } else {
        errors_of(s.drop_last(), module_id)
    }
}

/// The first of a list, all without a limit.
pub open spec fn limited<T>(s: Seq<T>, limit: Option<usize>) -> Seq<T> {
    match limit {
        Some(n) => if n < s.len() {
            s.subrange(0, n as int)
        } else {
            s
        },
        None => s,
    }
}

/// Whether a measurement is of a module and has a name, as far as these are
/// asked for.
pub open spec fn is_asked_for(p: PointView, module_id: Option<Seq<char>>, name: Option<Seq<char>>) -> bool {
    (module_id is None || p.module_id == module_id) && (name is None || name == Some(p.name))
}

/// The measurements that are asked for.
pub open spec fn points_of(s: Seq<PointView>, module_id: Option<Seq<char>>, name: Option<Seq<char>>) -> Seq<PointView>
    decreases s.len(),
{
    if s.len() == 0 {
        Seq::empty()
    } else if is_asked_for(s.last(), module_id, name) {
        points_of(s.drop_last(), module_id, name).push(s.last())
    } else {
        points_of(s.drop_last(), module_id, name)
    }
}

/// The mathematical contents of a store.
#[verifier::ext_equal]
pub struct StoreView {
    pub errors: Seq<EntryView>,
    pub metrics: Seq<PointView>,
}

/// Errors and measurements in memory.
#[derive(Debug)]
pub struct InMemoryObservabilityStore {
    errors: Vec<ErrorEntry>,
    metrics: Vec<MetricPoint>,
}

impl View for InMemoryObservabilityStore {
    type V = StoreView;

    closed spec fn view(&self) -> StoreView {
        StoreView { errors: entries_view(self.errors@), metrics: points_view(self.metrics@) }
    }
}

fn is_of_module(asked: Option<&str>, module_id: &str) -> (r: bool)
    ensures
        r == (asked is None || text::opt_str(asked) == Some(module_id@)),
{
    match asked {
        Some(id) => str_eq(id, module_id),
        None => true,
    }
}

impl InMemoryObservabilityStore {
    /// A store without records.
    pub fn new() -> (r: Self)
        ensures
            r@ == (StoreView { errors: Seq::empty(), metrics: Seq::empty() }),
    {
        let r = InMemoryObservabilityStore { errors: Vec::new(), metrics: Vec::new() };
        assert(r@ =~= StoreView { errors: Seq::empty(), metrics: Seq::empty() });
        r
    }

    /// Record an error.
    pub fn record_error(&mut self, entry: ErrorEntry)
        ensures
            final(self)@ == (StoreView { errors: old(self)@.errors.push(entry@), ..old(self)@ }),
    {
        let ghost s = self@;
        self.errors.push(entry);
        assert(self@ =~= StoreView { errors: s.errors.push(entry@), ..s });
    }

    /// The errors of a module, or all, at most so many from the first on.
    pub fn get_errors(&self, module_id: Option<&str>, limit: Option<usize>) -> (r: Vec<ErrorEntry>)
        ensures
            entries_view(r@) == limited(errors_of(self@.errors, text::opt_str(module_id)), limit),
    {
        let ghost s = self@.errors;
        let ghost id = text::opt_str(module_id);
        let mut out: Vec<ErrorEntry> = Vec::new();
        let mut i: usize = 0;
        assert(s.subrange(0, 0) =~= Seq::empty());
        assert(entries_view(out@) =~= Seq::empty());
        while i < self.errors.len()
            invariant
                i <= self.errors.len(),
                s == entries_view(self.errors@),
                id == text::opt_str(module_id),
                entries_view(out@) == errors_of(s.subrange(0, i as int), id),
            decreases self.errors.len() - i,
        {
            let ghost part = s.subrange(0, i + 1);
            assert(part.drop_last() =~= s.subrange(0, i as int));
            assert(part.last() == self.errors@[i as int]@);
            if is_of_module(module_id, self.errors[i].module_id.as_str()) {
                let entry = self.errors[i].clone();
                let ghost prev = entries_view(out@);
                out.push(entry);
                assert(entries_view(out@) =~= prev.push(entry@));
            }
            i = i + 1;
        }
        assert(s.subrange(0, s.len() as int) =~= s);
        let ghost all = entries_view(out@);
        match limit {
            Some(n) => {
                if n < out.len() {
                    out.truncate(n);
                    assert(entries_view(out@) =~= all.subrange(0, n as int));
                }
            },
            None => {},
        }
        out
    }

    /// Record a measurement.
    pub fn record_metric(&mut self, metric: MetricPoint)
        ensures
            final(self)@ == (StoreView { metrics: old(self)@.metrics.push(metric@), ..old(self)@ }),
    {
        let ghost s = self@;
        self.metrics.push(metric);
        assert(self@ =~= StoreView { metrics: s.metrics.push(metric@), ..s });
    }

    /// The measurements of a module and with a name, as far as these are asked
    /// for.
    pub fn get_metrics(&self, module_id: Option<&str>, metric_name: Option<&str>) -> (r: Vec<MetricPoint>)
        ensures
            points_view(r@) == points_of(self@.metrics, text::opt_str(module_id), text::opt_str(metric_name)),
    {
        let ghost s = self@.metrics;
        let ghost id = text::opt_str(module_id);
        let ghost name = text::opt_str(metric_name);
        let mut out: Vec<MetricPoint> = Vec::new();
        let mut i: usize = 0;
        assert(s.subrange(0, 0) =~= Seq::empty());
        assert(points_view(out@) =~= Seq::empty());
        while i < self.metrics.len()
            invariant
                i <= self.metrics.len(),
                s == points_view(self.metrics@),
                id == text::opt_str(module_id),
                name == text::opt_str(metric_name),
                points_view(out@) == points_of(s.subrange(0, i as int), id, name),
            decreases self.metrics.len() - i,
        {
            let ghost part = s.subrange(0, i + 1);
            assert(part.drop_last() =~= s.subrange(0, i as int));
            let p = &self.metrics[i];
            assert(part.last() == p@);
            let of_module = match module_id {
                Some(asked) => match &p.module_id {
                    Some(own) => str_eq(own.as_str(), asked),
                    None => false,
                },
                None => true,
            };
            if of_module && is_of_module(metric_name, p.name.as_str()) {
                let copy = p.clone();
                let ghost prev = points_view(out@);
                out.push(copy);
                assert(points_view(out@) =~= prev.push(copy@));
            }
            i = i + 1;
        }
        assert(s.subrange(0, s.len() as int) =~= s);
        out
    }

    /// Nothing is pending in memory.
    pub fn flush(&mut self)
        ensures
            final(self)@ == old(self)@,
    {
    }

    /// Forget all records.
    pub fn clear(&mut self)
        ensures
            final(self)@ == (StoreView { errors: Seq::empty(), metrics: Seq::empty() }),
    {
        *self = InMemoryObservabilityStore::new();
    }

    /// The name of the kind of store.
    pub fn kind_name(&self) -> (r: &'static str)
        ensures
            r@ == "InMemoryObservabilityStore"@,
    {
        "InMemoryObservabilityStore"
    }
}

impl Default for InMemoryObservabilityStore {
    fn default() -> (r: Self)
        ensures
            r@ == (StoreView { errors: Seq::empty(), metrics: Seq::empty() }),
    {
        InMemoryObservabilityStore::new()
    }
}

/// An error is found again under its module, after those that were recorded
/// before it, and under no other module.
pub proof fn a_recorded_error_is_found(s: Seq<EntryView>, e: EntryView, other: Seq<char>)
    requires
        other != e.module_id,
    ensures
        errors_of(s.push(e), Some(e.module_id)) == errors_of(s, Some(e.module_id)).push(e),
        errors_of(s.push(e), None) == errors_of(s, None).push(e),
        errors_of(s.push(e), Some(other)) == errors_of(s, Some(other)),
{
    assert(s.push(e).drop_last() =~= s);
}

/// A query without a module gives every error, in the order of recording.
pub proof fn an_open_query_gives_all_errors(s: Seq<EntryView>)
    ensures
        errors_of(s, None) == s,
    decreases s.len(),
{
    if s.len() > 0 {
        an_open_query_gives_all_errors(s.drop_last());
        assert(s.drop_last().push(s.last()) =~= s);
    }
}

/// A measurement is found again by its module and name, after those that were
/// recorded before it.
pub proof fn a_recorded_measurement_is_found(s: Seq<PointView>, p: PointView)
    ensures
        points_of(s.push(p), p.module_id, Some(p.name)) == points_of(s, p.module_id, Some(p.name)).push(p),
        points_of(s.push(p), None, None) == points_of(s, None, None).push(p),
{
    assert(s.push(p).drop_last() =~= s);
}

/// A query gives exactly the errors of the module that it asks for, in the order in
/// which they were recorded.
pub proof fn a_query_gives_the_errors_of_a_module(s: Seq<EntryView>, module_id: Seq<char>)
    ensures
        errors_of(s, Some(module_id)) == s.filter(|e: EntryView| e.module_id == module_id),
    decreases s.len(),
{
    reveal(Seq::filter);
    if s.len() > 0 {
        a_query_gives_the_errors_of_a_module(s.drop_last(), module_id);
    }
}

/// A query gives exactly the measurements that have the module and the name that it
/// asks for, as far as it asks for them, in the order in which they were recorded.
pub proof fn a_query_gives_what_it_asks_for(s: Seq<PointView>, module_id: Option<Seq<char>>, name: Option<Seq<char>>)
    ensures
        points_of(s, module_id, name) == s.filter(
            |p: PointView| (module_id is Some ==> p.module_id == module_id) && (name matches Some(n) ==> p.name == n),
        ),
    decreases s.len(),
{
    reveal(Seq::filter);
    let asked = |p: PointView| (module_id is Some ==> p.module_id == module_id) && (name matches Some(n) ==> p.name == n);
    if s.len() > 0 {
        let q = s.drop_last();
        a_query_gives_what_it_asks_for(q, module_id, name);
        assert(asked(s.last()) == is_asked_for(s.last(), module_id, name));
        if asked(s.last()) {
            assert(s.filter(asked) =~= q.filter(asked).push(s.last()));
        } else {
            assert(s.filter(asked) =~= q.filter(asked));
        }
    }
}

/// A limit gives the start of a list, as long as there is so much.
pub proof fn a_limit_gives_the_start(s: Seq<EntryView>, n: usize)
    ensures
        limited(s, None) == s,
        n >= s.len() ==> limited(s, Some(n)) == s,
        n < s.len() ==> limited(s, Some(n)).len() == n && forall|i: int| 0 <= i < n ==> #[trigger] limited(s, Some(n))[i]
            == s[i],
{
}

/// A measurement has the name, the labels and the value that were observed, and the
/// module that its labels name.
pub proof fn a_measurement_tells_what_was_observed(p: PointView, name: Seq<char>, labels: Map<Seq<char>, Seq<char>>, value: Json)
    requires
        is_observation(p, name, labels, value),
    ensures
        p.name == name && p.labels == labels && p.value == value,
        labels.contains_key("module_id"@) ==> p.module_id == Some(labels["module_id"@]),
        !labels.contains_key("module_id"@) ==> p.module_id is None,
{
}

} // verus!
