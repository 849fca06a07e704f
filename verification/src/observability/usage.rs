//! Who used which module, and how it went.
use vstd::prelude::*;
use vstd::string::*;
use crate::clock::Timestamp;
use crate::decimals::{fraction, signed};
use crate::observability::labels::sort_labels;
use crate::observability::metrics::{escape_prometheus_label_value, estimate_p99_from_sorted};
use crate::strmap::StrMap;
use crate::strset::StrSet;
use crate::text::{cat3, clone_opt, decimal, str_eq};
use crate::clock;
use crate::decimals;
use crate::events::subscribers;
use crate::middleware::logging;
use crate::observability::labels;
use crate::observability::metrics;
use crate::strmap;
use crate::text;

verus! {

/// The most records of one hour that are kept.
pub const MAX_RECORDS_PER_BUCKET: usize = 10_000;

/// The most hours of a module that are kept: seven days.
pub const MAX_BUCKETS_PER_MODULE: usize = 168;

/// One use of a module.
#[derive(Debug)]
pub struct UsageRecord {
    pub timestamp: Timestamp,
    pub caller_id: Option<String>,
    pub latency_nanos: u64,
    pub success: bool,
}

/// The mathematical contents of a record.
#[verifier::ext_equal]
pub struct RecordView {
    pub timestamp: Timestamp,
    pub caller_id: Option<Seq<char>>,
    pub latency_nanos: u64,
    pub success: bool,
}

impl View for UsageRecord {
    type V = RecordView;

    open spec fn view(&self) -> RecordView {
        RecordView {
            timestamp: self.timestamp,
            caller_id: text::opt_text(self.caller_id),
            latency_nanos: self.latency_nanos,
            success: self.success,
        }
    }
}

/// The contents of records.
pub open spec fn records_view(s: Seq<UsageRecord>) -> Seq<RecordView> {
    Seq::new(s.len(), |i: int| s[i]@)
}

/// The hour of a point in time, counted from the start of 1970.
pub open spec fn hour_of(t: Timestamp) -> int {
    t.secs as int / 3600
}

fn hour(t: &Timestamp) -> (r: i64)
    requires
        clock::in_calendar(*t),
    ensures
        r == hour_of(*t),
{
    if t.secs >= 0 {
        ((t.secs as u64) / 3600) as i64
    } else {
        let m: u64 = (-(t.secs + 1)) as u64;
        -((m / 3600) as i64) - 1
    }
}

/// The records of one hour.
#[derive(Debug)]
pub struct HourRecords {
    pub hour: i64,
    pub records: Vec<UsageRecord>,
}

/// The contents of hours.
pub open spec fn hours_view(s: Seq<HourRecords>) -> Seq<(int, Seq<RecordView>)> {
    Seq::new(s.len(), |i: int| (s[i].hour as int, records_view(s[i].records@)))
}

/// Records with one more; the oldest leave where there are too many.
pub open spec fn with_latest(s: Seq<RecordView>, r: RecordView) -> Seq<RecordView> {
    if s.len() >= 10_000 {
        s.skip(s.len() - 9_999).push(r)
    } else {
        s.push(r)
    }
}

/// Hours in order with one more record.
pub open spec fn with_record(b: Seq<(int, Seq<RecordView>)>, h: int, r: RecordView) -> Seq<(int, Seq<RecordView>)>
    decreases b.len(),
{
    if b.len() == 0 || b.last().0 < h {
        b.push((h, seq![r]))
    } else if b.last().0 == h {
        b.drop_last().push((h, with_latest(b.last().1, r)))
    } else {
        with_record(b.drop_last(), h, r).push(b.last())
    }
}

/// The latest hours, as many as are kept.
pub open spec fn latest_hours(b: Seq<(int, Seq<RecordView>)>) -> Seq<(int, Seq<RecordView>)> {
    if b.len() > 168 {
        b.skip(b.len() - 168)
    } else {
        b
    }
}

/// The hours of a module after a use.
pub open spec fn after_use(b: Seq<(int, Seq<RecordView>)>, r: RecordView) -> Seq<(int, Seq<RecordView>)> {
    latest_hours(with_record(b, hour_of(r.timestamp), r))
}

/// Whether hours are in order, and as many and as full as may be.
pub open spec fn hours_are_kept(b: Seq<(int, Seq<RecordView>)>) -> bool {
    &&& b.len() <= 168
    &&& forall|i: int, j: int| 0 <= i < j < b.len() ==> (#[trigger] b[i]).0 < (#[trigger] b[j]).0
    &&& forall|i: int| 0 <= i < b.len() ==> (#[trigger] b[i]).1.len() <= 10_000
    &&& forall|i: int| 0 <= i < b.len() ==> -3_000_000_000 < (#[trigger] b[i]).0 < 3_000_000_000
}

/// Whether the hours of every module are in order, and as many and as full as
/// may be.
pub open spec fn all_are_kept(m: Map<Seq<char>, Seq<(int, Seq<RecordView>)>>) -> bool {
    forall|id: Seq<char>| #[trigger] m.contains_key(id) ==> hours_are_kept(m[id])
}

/// All records of hours, in order.
pub open spec fn all_records(b: Seq<(int, Seq<RecordView>)>) -> Seq<RecordView>
    decreases b.len(),
{
    if b.len() == 0 {
        Seq::empty()
    } else {
        all_records(b.drop_last()) + b.last().1
    }
}

/// Hours in order with one more record are in order.
proof fn lemma_with_record(b: Seq<(int, Seq<RecordView>)>, h: int, r: RecordView)
    requires
        forall|i: int, j: int| 0 <= i < j < b.len() ==> (#[trigger] b[i]).0 < (#[trigger] b[j]).0,
        forall|i: int| 0 <= i < b.len() ==> (#[trigger] b[i]).1.len() <= 10_000,
    ensures
        ({
            let t = with_record(b, h, r);
            &&& b.len() <= t.len() <= b.len() + 1
            &&& forall|i: int, j: int| 0 <= i < j < t.len() ==> (#[trigger] t[i]).0 < (#[trigger] t[j]).0
            &&& forall|i: int| 0 <= i < t.len() ==> (#[trigger] t[i]).1.len() <= 10_000
            &&& forall|i: int| 0 <= i < t.len() ==> (#[trigger] t[i]).0 == h || exists|j: int|
                0 <= j < b.len() && (#[trigger] b[j]).0 == t[i].0
        }),
    decreases b.len(),
{
    let t = with_record(b, h, r);
    if b.len() == 0 || b.last().0 < h {
        assert forall|i: int, j: int| 0 <= i < j < t.len() implies (#[trigger] t[i]).0 < (#[trigger] t[j]).0 by {
            assert(t[i] == b[i]);
            if j < b.len() {
                assert(t[j] == b[j]);
            } else if i < b.len() - 1 {
                assert(b[i].0 < b[b.len() - 1].0);
            }
        }
        assert forall|i: int| 0 <= i < t.len() implies (#[trigger] t[i]).0 == h || exists|j: int|
            0 <= j < b.len() && (#[trigger] b[j]).0 == t[i].0 by {
            if i < b.len() {
                assert(b[i].0 == t[i].0);
            }
        }
    } else if b.last().0 == h {
        assert forall|i: int| 0 <= i < t.len() implies (#[trigger] t[i]).0 == b[i].0 by {}
    } else {
        let p = b.drop_last();
        let q = with_record(p, h, r);
        assert forall|i: int, j: int| 0 <= i < j < p.len() implies (#[trigger] p[i]).0 < (#[trigger] p[j]).0 by {
            assert(p[i] == b[i] && p[j] == b[j]);
        }
        assert forall|i: int| 0 <= i < p.len() implies (#[trigger] p[i]).1.len() <= 10_000 by {
            assert(p[i] == b[i]);
        }
        lemma_with_record(p, h, r);
        assert forall|i: int| 0 <= i < q.len() implies (#[trigger] q[i]).0 < b.last().0 by {
            if q[i].0 != h {
                let j = choose|j: int| 0 <= j < p.len() && (#[trigger] p[j]).0 == q[i].0;
                assert(p[j] == b[j]);
                assert(b[j].0 < b[b.len() - 1].0);
            }
        }
        assert forall|i: int, j: int| 0 <= i < j < t.len() implies (#[trigger] t[i]).0 < (#[trigger] t[j]).0 by {
            assert(t[i] == q[i]);
            if j < q.len() {
                assert(t[j] == q[j]);
            }
        }
        assert forall|i: int| 0 <= i < t.len() implies (#[trigger] t[i]).1.len() <= 10_000 by {
            if i < q.len() {
                assert(t[i] == q[i]);
            } else {
                assert(b[b.len() - 1].1.len() <= 10_000);
            }
        }
        assert forall|i: int| 0 <= i < t.len() implies (#[trigger] t[i]).0 == h || exists|j: int|
            0 <= j < b.len() && (#[trigger] b[j]).0 == t[i].0 by {
            if i < q.len() {
                assert(t[i] == q[i]);
                if q[i].0 != h {
                    let j = choose|j: int| 0 <= j < p.len() && (#[trigger] p[j]).0 == q[i].0;
                    assert(b[j].0 == t[i].0);
                }
            } else {
                assert(b[b.len() - 1].0 == t[i].0);
            }
        }
    }
}

/// A use keeps what is kept within its bounds: hours in order, at most 168 of
/// them, with at most 10,000 records each.
pub proof fn memory_stays_bounded(b: Seq<(int, Seq<RecordView>)>, r: RecordView)
    requires
        hours_are_kept(b),
        clock::in_calendar(r.timestamp),
    ensures
        hours_are_kept(after_use(b, r)),
{
    lemma_with_record(b, hour_of(r.timestamp), r);
    let t = with_record(b, hour_of(r.timestamp), r);
    let k = latest_hours(t);
    assert forall|i: int| 0 <= i < t.len() implies -3_000_000_000 < (#[trigger] t[i]).0 < 3_000_000_000 by {
        if t[i].0 != hour_of(r.timestamp) {
            let j = choose|j: int| 0 <= j < b.len() && (#[trigger] b[j]).0 == t[i].0;
            assert(-3_000_000_000 < b[j].0 < 3_000_000_000);
        }
    }
    if t.len() > 168 {
        let d = t.len() - 168;
        assert forall|i: int| 0 <= i < k.len() implies #[trigger] k[i] == t[i + d] by {}
    }
}

/// Where the hour of a record goes.
proof fn lemma_record_at(b: Seq<(int, Seq<RecordView>)>, h: int, r: RecordView, n: int)
    requires
        0 <= n <= b.len(),
        n == 0 || b[n - 1].0 <= h,
        forall|j: int| n <= j < b.len() ==> (#[trigger] b[j]).0 > h,
    ensures
        with_record(b, h, r) == (if n > 0 && b[n - 1].0 == h {
            b.update(n - 1, (h, with_latest(b[n - 1].1, r)))
        } else {
            b.insert(n, (h, seq![r]))
        }),
    decreases b.len(),
{
    if b.len() == n {
        if n > 0 {
            assert(b.last() == b[n - 1]);
            if b[n - 1].0 == h {
                assert(b.drop_last().push((h, with_latest(b.last().1, r))) =~= b.update(
                    n - 1,
                    (h, with_latest(b[n - 1].1, r)),
                ));
            } else {
                assert(b.push((h, seq![r])) =~= b.insert(n, (h, seq![r])));
            }
        } else {
            assert(b.push((h, seq![r])) =~= b.insert(n, (h, seq![r])));
        }
    } else {
        assert(b[b.len() - 1].0 > h);
        let p = b.drop_last();
        assert forall|j: int| n <= j < p.len() implies (#[trigger] p[j]).0 > h by {
            assert(p[j] == b[j]);
        }
        if n > 0 {
            assert(p[n - 1] == b[n - 1]);
        }
        lemma_record_at(p, h, r, n);
        if n > 0 && b[n - 1].0 == h {
            assert(p.update(n - 1, (h, with_latest(b[n - 1].1, r))).push(b.last()) =~= b.update(
                n - 1,
                (h, with_latest(b[n - 1].1, r)),
            ));
        } else {
            assert(p.insert(n, (h, seq![r])).push(b.last()) =~= b.insert(n, (h, seq![r])));
        }
    }
}

/// The uses of a module.
#[derive(Debug)]
pub struct ModuleUsage {
    hours: Vec<HourRecords>,
}

impl View for ModuleUsage {
    type V = Seq<(int, Seq<RecordView>)>;

    closed spec fn view(&self) -> Seq<(int, Seq<RecordView>)> {
        hours_view(self.hours@)
    }
}

fn add_latest(v: &mut Vec<UsageRecord>, r: UsageRecord)
    requires
        old(v)@.len() <= 10_000,
    ensures
        records_view(final(v)@) == with_latest(records_view(old(v)@), r@),
{
    let ghost s = records_view(v@);
    if v.len() >= MAX_RECORDS_PER_BUCKET {
        let _gone = v.remove(0);
        assert(records_view(v@) =~= s.skip(1));
    }
    let ghost t = records_view(v@);
    v.push(r);
    assert(records_view(v@) =~= t.push(r@));
}

impl ModuleUsage {
    #[verifier::type_invariant]
    spec fn well_formed(self) -> bool {
        hours_are_kept(hours_view(self.hours@))
    }

    fn new() -> (r: Self)
        ensures
            r@ == Seq::<(int, Seq<RecordView>)>::empty(),
    {
        let hours: Vec<HourRecords> = Vec::new();
        assert(hours_view(hours@) =~= Seq::empty());
        ModuleUsage { hours }
    }

    fn into_hours(self) -> (r: Vec<HourRecords>)
        ensures
            hours_view(r@) == self@,
            hours_are_kept(self@),
    {
        proof {
            use_type_invariant(&self);
        }
        self.hours
    }

    fn add_record(&mut self, record: UsageRecord)
        requires
            clock::in_calendar(record.timestamp),
        ensures
            final(self)@ == after_use(old(self)@, record@),
            hours_are_kept(final(self)@),
    {
        let mut other = ModuleUsage::new();
        let ghost b = self@;
        std::mem::swap(&mut other, self);
        let mut hours = other.into_hours();
        let h: i64 = hour(&record.timestamp);
        let ghost rec = record@;
        proof {
            memory_stays_bounded(b, rec);
        }
        let mut n: usize = hours.len();
        while n > 0 && hours[n - 1].hour > h
            invariant
                n <= hours.len(),
                b == hours_view(hours@),
                forall|j: int| n <= j < b.len() ==> (#[trigger] b[j]).0 > h,
            decreases n,
        {
            n = n - 1;
            assert(b[n as int].0 == hours@[n as int].hour);
        }
        proof {
            if n > 0 {
                assert(b[n - 1].0 == hours@[n - 1].hour);
            }
            lemma_record_at(b, h as int, rec, n as int);
        }
        if n > 0 && hours[n - 1].hour == h {
            let mut last = hours.remove(n - 1);
            assert(b[n - 1].1 == records_view(last.records@));
            assert(b[n - 1].1.len() <= 10_000);
            add_latest(&mut last.records, record);
            hours.insert(n - 1, last);
            assert(hours_view(hours@) =~= b.update(n - 1, (h as int, with_latest(b[n - 1].1, rec))));
        } else {
            let mut records: Vec<UsageRecord> = Vec::new();
            records.push(record);
            assert(records_view(records@) =~= seq![rec]);
            hours.insert(n, HourRecords { hour: h, records });
            assert(hours_view(hours@) =~= b.insert(n as int, (h as int, seq![rec])));
        }
        let ghost t = hours_view(hours@);
        proof {
            lemma_with_record(b, h as int, rec);
        }
        evict_old_buckets(&mut hours);
        *self = ModuleUsage { hours };
    }
}

fn evict_old_buckets(hours: &mut Vec<HourRecords>)
    requires
        old(hours)@.len() <= 169,
    ensures
        hours_view(final(hours)@) == latest_hours(hours_view(old(hours)@)),
{
    let ghost t = hours_view(hours@);
    if hours.len() > MAX_BUCKETS_PER_MODULE {
        let _gone = hours.remove(0);
        assert(hours_view(hours@) =~= t.skip(1));
    }
}

// ---------------------------------------------------------------------------
// Summaries
// ---------------------------------------------------------------------------

/// How the use of a module changes.
#[derive(Debug, Clone, Copy, PartialEq, Eq, Structural)]
pub enum Trend {
    Stable,
    Rising,
    Declining,
    New,
    Inactive,
}

/// The trend from the uses of a period and of the one before it: more than six
/// fifths is rising, less than four fifths is declining.
pub open spec fn trend_of(current: int, previous: int) -> Trend {
    if current == 0 && previous == 0 {
        Trend::Stable
    } else if current == 0 {
        Trend::Inactive
    } else if previous == 0 {
        Trend::New
    } else if 5 * current > 6 * previous {
        Trend::Rising
    } else if 5 * current < 4 * previous {
        Trend::Declining
    } else {
        Trend::Stable
    }
}

impl Trend {
    /// The name of the trend.
    pub fn as_str(self) -> (r: &'static str)
        ensures
            r@ == (match self {
                Trend::Stable => "stable"@,
                Trend::Rising => "rising"@,
                Trend::Declining => "declining"@,
                Trend::New => "new"@,
                Trend::Inactive => "inactive"@,
            }),
    {
        match self {
            Trend::Stable => "stable",
            Trend::Rising => "rising",
            Trend::Declining => "declining",
            Trend::New => "new",
            Trend::Inactive => "inactive",
        }
    }
}

/// The trend from the uses of a period and of the one before it.
pub fn compute_trend(current: usize, previous: usize) -> (r: Trend)
    ensures
        r == trend_of(current as int, previous as int),
{
    if current == 0 && previous == 0 {
        return Trend::Stable;
    }
    if current == 0 {
        return Trend::Inactive;
    }
    if previous == 0 {
        return Trend::New;
    }
    let a: u128 = 5 * (current as u128);
    if a > 6 * (previous as u128) {
        Trend::Rising
    } else if a < 4 * (previous as u128) {
        Trend::Declining
    } else {
        Trend::Stable
    }
}

/// How many of the uses failed.
pub open spec fn failures_in(s: Seq<RecordView>) -> int
    decreases s.len(),
{
    if s.len() == 0 {
        0
    } else {
        failures_in(s.drop_last()) + (if s.last().success {
            0int
        } else {
            1int
        })
    }
}

/// How long the uses took in all.
pub open spec fn total_latency(s: Seq<RecordView>) -> int
    decreases s.len(),
{
    if s.len() == 0 {
        0
    } else {
        total_latency(s.drop_last()) + s.last().latency_nanos
    }
}

/// The callers that are known.
pub open spec fn callers_of(s: Seq<RecordView>) -> Set<Seq<char>>
    decreases s.len(),
{
    if s.len() == 0 {
        Set::empty()
    } else {
        match s.last().caller_id {
            Some(c) => callers_of(s.drop_last()).insert(c),
            None => callers_of(s.drop_last()),
        }
    }
}

/// A summary of the uses of a module.
#[derive(Debug)]
pub struct UsageStats {
    pub module_id: String,
    pub call_count: u64,
    pub error_count: u64,
    pub total_latency_nanos: u128,
    pub unique_callers: usize,
    pub trend: Trend,
}

/// Whether a summary is that of these uses.
pub open spec fn summarises(r: UsageStats, module_id: Seq<char>, s: Seq<RecordView>, trend: Trend) -> bool {
    &&& r.module_id@ == module_id
    &&& r.call_count == s.len()
    &&& r.error_count == failures_in(s)
    &&& r.total_latency_nanos == total_latency(s)
    &&& r.unique_callers == callers_of(s).len()
    &&& r.trend == trend
}

proof fn lemma_totals(s: Seq<RecordView>)
    ensures
        0 <= failures_in(s) <= s.len(),
        0 <= total_latency(s) <= s.len() * 0xffff_ffff_ffff_ffff,
    decreases s.len(),
{
    if s.len() > 0 {
        lemma_totals(s.drop_last());
    }
}

fn aggregate_records(module_id: &str, records: &Vec<UsageRecord>, trend: Trend) -> (r: UsageStats)
    ensures
        summarises(r, module_id@, records_view(records@), trend),
{
    let ghost s = records_view(records@);
    let mut call_count: u64 = 0;
    let mut error_count: u64 = 0;
    let mut total: u128 = 0;
    let mut callers = StrSet::new();
    let mut i: usize = 0;
    assert(s.subrange(0, 0) =~= Seq::empty());
    while i < records.len()
        invariant
            i <= records.len(),
            s == records_view(records@),
            call_count == i,
            error_count == failures_in(s.subrange(0, i as int)),
            total == total_latency(s.subrange(0, i as int)),
            callers@ == callers_of(s.subrange(0, i as int)),
        decreases records.len() - i,
    {
        let ghost part = s.subrange(0, i + 1);
        assert(part.drop_last() =~= s.subrange(0, i as int));
        assert(part.last() == records@[i as int]@);
        proof {
            lemma_totals(part);
            lemma_totals(s.subrange(0, i as int));
            let n = part.len() as int;
            assert(n * 0xffff_ffff_ffff_ffff <= 0xffff_ffff_ffff_ffff * 0xffff_ffff_ffff_ffff) by (nonlinear_arith)
                requires
                    0 <= n <= 0xffff_ffff_ffff_ffff,
            ;
        }
        call_count = call_count + 1;
        if !records[i].success {
            error_count = error_count + 1;
        }
        total = total + records[i].latency_nanos as u128;
        match &records[i].caller_id {
            Some(c) => {
                callers.insert(c.clone());
            },
            None => {},
        }
        i = i + 1;
    }
    assert(s.subrange(0, s.len() as int) =~= s);
    UsageStats {
        module_id: module_id.to_owned(),
        call_count,
        error_count,
        total_latency_nanos: total,
        unique_callers: callers.len(),
        trend,
    }
}

/// Whether a point in time lies in a window, its ends included.
pub open spec fn in_window(t: Timestamp, start: Timestamp, end: Timestamp) -> bool {
    !clock::before(t, start) && !clock::before(end, t)
}

/// The records of a window.
pub open spec fn windowed(s: Seq<RecordView>, start: Timestamp, end: Timestamp) -> Seq<RecordView>
    decreases s.len(),
{
    if s.len() == 0 {
        Seq::empty()
    } else if in_window(s.last().timestamp, start, end) {
        windowed(s.drop_last(), start, end).push(s.last())
    } else {
        windowed(s.drop_last(), start, end)
    }
}

impl UsageRecord {
    fn copy(&self) -> (r: Self)
        ensures
            r@ == self@,
    {
        UsageRecord {
            timestamp: self.timestamp,
            caller_id: clone_opt(&self.caller_id),
            latency_nanos: self.latency_nanos,
            success: self.success,
        }
    }
}

fn collect_all(hours: &Vec<HourRecords>) -> (r: Vec<UsageRecord>)
    ensures
        records_view(r@) == all_records(hours_view(hours@)),
{
    let ghost b = hours_view(hours@);
    let mut out: Vec<UsageRecord> = Vec::new();
    let mut i: usize = 0;
    assert(b.subrange(0, 0) =~= Seq::empty());
    assert(records_view(out@) =~= Seq::empty());
    while i < hours.len()
        invariant
            i <= hours.len(),
            b == hours_view(hours@),
            records_view(out@) == all_records(b.subrange(0, i as int)),
        decreases hours.len() - i,
    {
        let ghost part = b.subrange(0, i + 1);
        assert(part.drop_last() =~= b.subrange(0, i as int));
        assert(part.last() == b[i as int]);
        let ghost so_far = records_view(out@);
        let records = &hours[i].records;
        let ghost add = records_view(records@);
        let mut j: usize = 0;
        assert(so_far + add.subrange(0, 0) =~= so_far);
        while j < records.len()
            invariant
                j <= records.len(),
                add == records_view(records@),
                records_view(out@) == so_far + add.subrange(0, j as int),
            decreases records.len() - j,
        {
            let copy = records[j].copy();
            let ghost before_push = records_view(out@);
            out.push(copy);
            assert(records_view(out@) =~= before_push.push(copy@));
            j = j + 1;
            assert(records_view(out@) =~= so_far + add.subrange(0, j as int));
        }
        assert(add.subrange(0, add.len() as int) =~= add);
        i = i + 1;
    }
    assert(b.subrange(0, b.len() as int) =~= b);
    out
}

fn collect_records_in_window(records: &Vec<UsageRecord>, start: &Timestamp, end: &Timestamp) -> (r: Vec<UsageRecord>)
    ensures
        records_view(r@) == windowed(records_view(records@), *start, *end),
{
    let ghost s = records_view(records@);
    let mut out: Vec<UsageRecord> = Vec::new();
    let mut i: usize = 0;
    assert(s.subrange(0, 0) =~= Seq::empty());
    assert(records_view(out@) =~= Seq::empty());
    while i < records.len()
        invariant
            i <= records.len(),
            s == records_view(records@),
            records_view(out@) == windowed(s.subrange(0, i as int), *start, *end),
        decreases records.len() - i,
    {
        let ghost part = s.subrange(0, i + 1);
        assert(part.drop_last() =~= s.subrange(0, i as int));
        assert(part.last() == records@[i as int]@);
        let t = records[i].timestamp;
        if !t.is_before(start) && !end.is_before(&t) {
            let copy = records[i].copy();
            let ghost before_push = records_view(out@);
            out.push(copy);
            assert(records_view(out@) =~= before_push.push(copy@));
        }
        i = i + 1;
    }
    assert(s.subrange(0, s.len() as int) =~= s);
    out
}

/// A caller and how its uses went.
#[derive(Debug)]
pub struct CallerStats {
    pub caller_id: String,
    pub call_count: u64,
    pub error_count: u64,
    pub total_latency_nanos: u128,
}

/// The mathematical contents of a caller's statistics.
#[verifier::ext_equal]
pub struct CallerView {
    pub caller_id: Seq<char>,
    pub call_count: int,
    pub error_count: int,
    pub total_latency_nanos: int,
}

impl View for CallerStats {
    type V = CallerView;

    open spec fn view(&self) -> CallerView {
        CallerView {
            caller_id: self.caller_id@,
            call_count: self.call_count as int,
            error_count: self.error_count as int,
            total_latency_nanos: self.total_latency_nanos as int,
        }
    }
}

/// The contents of statistics.
pub open spec fn callers_view(s: Seq<CallerStats>) -> Seq<CallerView> {
    Seq::new(s.len(), |i: int| s[i]@)
}

/// The caller of a use, `unknown` without one.
pub open spec fn caller_name(r: RecordView) -> Seq<char> {
    match r.caller_id {
        Some(c) => c,
        None => "unknown"@,
    }
}

/// The uses of a caller.
pub open spec fn by_caller(s: Seq<RecordView>, caller: Seq<char>) -> Seq<RecordView>
    decreases s.len(),
{
    if s.len() == 0 {
        Seq::empty()
    } else if caller_name(s.last()) == caller {
        by_caller(s.drop_last(), caller).push(s.last())
    } else {
        by_caller(s.drop_last(), caller)
    }
}

/// Whether statistics tell, once for each caller, how its uses went.
pub open spec fn breaks_down(r: Seq<CallerView>, s: Seq<RecordView>) -> bool {
    &&& forall|i: int, j: int| 0 <= i < r.len() && 0 <= j < r.len() && (#[trigger] r[i]).caller_id == (#[trigger] r[j]).caller_id ==> i == j
    &&& forall|i: int| 0 <= i < r.len() ==> tells_of(#[trigger] r[i], s)
    &&& forall|k: int| 0 <= k < s.len() ==> names_caller(r, caller_name(#[trigger] s[k]))
}

/// Whether statistics are those of a caller that has uses.
pub open spec fn tells_of(c: CallerView, s: Seq<RecordView>) -> bool {
    let own = by_caller(s, c.caller_id);
    &&& own.len() > 0
    &&& c.call_count == own.len()
    &&& c.error_count == failures_in(own)
    &&& c.total_latency_nanos == total_latency(own)
}

/// Whether a caller has statistics.
pub open spec fn names_caller(r: Seq<CallerView>, caller: Seq<char>) -> bool {
    exists|i: int| 0 <= i < r.len() && (#[trigger] r[i]).caller_id == caller
}

/// The position of the statistics of a caller.
fn find_caller(v: &Vec<CallerStats>, caller: &str) -> (r: Option<usize>)
    ensures
        match r {
            Some(i) => i < v@.len() && callers_view(v@)[i as int].caller_id == caller@,
            None => !names_caller(callers_view(v@), caller@),
        },
{
    let ghost s = callers_view(v@);
    let mut i: usize = 0;
    while i < v.len()
        invariant
            i <= v.len(),
            s == callers_view(v@),
            forall|j: int| 0 <= j < i ==> (#[trigger] s[j]).caller_id != caller@,
        decreases v.len() - i,
    {
        assert(s[i as int].caller_id == v@[i as int].caller_id@);
        if str_eq(v[i].caller_id.as_str(), caller) {
            return Some(i);
        }
        i = i + 1;
    }
    None
}

proof fn lemma_by_caller_len(s: Seq<RecordView>, c: Seq<char>)
    ensures
        by_caller(s, c).len() <= s.len(),
    decreases s.len(),
{
    if s.len() > 0 {
        lemma_by_caller_len(s.drop_last(), c);
    }
}

proof fn lemma_breakdown_step(r: Seq<CallerView>, t: Seq<CallerView>, s: Seq<RecordView>, at: Option<int>)
    requires
        s.len() > 0,
        breaks_down(r, s.drop_last()),
        ({
            let name = caller_name(s.last());
            let miss = if s.last().success {
                0int
            } else {
                1int
            };
            match at {
                Some(i) => 0 <= i < r.len() && r[i].caller_id == name && t == r.update(
                    i,
                    CallerView {
                        caller_id: name,
                        call_count: r[i].call_count + 1,
                        error_count: r[i].error_count + miss,
                        total_latency_nanos: r[i].total_latency_nanos + s.last().latency_nanos,
                    },
                ),
                None => !names_caller(r, name) && t == r.push(
                    CallerView {
                        caller_id: name,
                        call_count: 1,
                        error_count: miss,
                        total_latency_nanos: s.last().latency_nanos as int,
                    },
                ),
            }
        }),
    ensures
        breaks_down(t, s),
{
    let p = s.drop_last();
    let name = caller_name(s.last());
    let own = by_caller(s, name);
    assert(own.drop_last() =~= by_caller(p, name));
    assert(own.last() == s.last());
    match at {
        Some(i) => {
            assert(tells_of(r[i], p));
            assert forall|j: int| 0 <= j < t.len() implies tells_of(#[trigger] t[j], s) by {
                if j != i {
                    assert(t[j] == r[j]);
                    assert(tells_of(r[j], p));
                    assert(r[j].caller_id != r[i].caller_id);
                }
            }
            assert forall|a: int, b: int|
                0 <= a < t.len() && 0 <= b < t.len() && (#[trigger] t[a]).caller_id == (#[trigger] t[b]).caller_id implies a == b by {
                assert(t[a].caller_id == r[a].caller_id && t[b].caller_id == r[b].caller_id);
            }
            assert forall|k: int| 0 <= k < s.len() implies names_caller(t, caller_name(#[trigger] s[k])) by {
                if k < p.len() {
                    assert(p[k] == s[k]);
                    assert(names_caller(r, caller_name(p[k])));
                    let x = choose|x: int| 0 <= x < r.len() && (#[trigger] r[x]).caller_id == caller_name(p[k]);
                    assert(t[x].caller_id == r[x].caller_id);
                } else {
                    assert(t[i].caller_id == name);
                }
            }
        },
        None => {
            let n = r.len() as int;
            if by_caller(p, name).len() > 0 {
                lemma_by_caller_has(p, name);
                let k = choose|k: int| 0 <= k < p.len() && caller_name(#[trigger] p[k]) == name;
                assert(names_caller(r, caller_name(p[k])));
            }
            assert(by_caller(p, name).len() == 0);
            assert(own =~= seq![s.last()]);
            assert(own.drop_last() =~= Seq::empty());
            assert(failures_in(own.drop_last()) == 0 && total_latency(own.drop_last()) == 0);
            assert forall|j: int| 0 <= j < t.len() implies tells_of(#[trigger] t[j], s) by {
                if j < n {
                    assert(t[j] == r[j]);
                    assert(tells_of(r[j], p));
                    if r[j].caller_id == name {
                        assert(names_caller(r, name));
                    }
                }
            }
            assert forall|a: int, b: int|
                0 <= a < t.len() && 0 <= b < t.len() && (#[trigger] t[a]).caller_id == (#[trigger] t[b]).caller_id implies a == b by {
                if a < n {
                    assert(t[a] == r[a]);
                }
                if b < n {
                    assert(t[b] == r[b]);
                }
                if a < n && b == n {
                    assert(names_caller(r, name));
                }
                if b < n && a == n {
                    assert(names_caller(r, name));
                }
            }
            assert forall|k: int| 0 <= k < s.len() implies names_caller(t, caller_name(#[trigger] s[k])) by {
                if k < p.len() {
                    assert(p[k] == s[k]);
                    assert(names_caller(r, caller_name(p[k])));
                    let x = choose|x: int| 0 <= x < r.len() && (#[trigger] r[x]).caller_id == caller_name(p[k]);
                    assert(t[x] == r[x]);
                } else {
                    assert(t[n].caller_id == name);
                }
            }
        },
    }
}

proof fn lemma_by_caller_has(s: Seq<RecordView>, c: Seq<char>)
    requires
        by_caller(s, c).len() > 0,
    ensures
        exists|k: int| 0 <= k < s.len() && caller_name(#[trigger] s[k]) == c,
    decreases s.len(),
{
    if s.len() > 0 {
        if caller_name(s.last()) == c {
            assert(caller_name(s[s.len() - 1]) == c);
        } else {
            lemma_by_caller_has(s.drop_last(), c);
            let k = choose|k: int| 0 <= k < s.drop_last().len() && caller_name(#[trigger] s.drop_last()[k]) == c;
            assert(caller_name(s[k]) == c);
        }
    }
}

/// The statistics of each caller.
pub fn break_down(records: &Vec<UsageRecord>) -> (r: Vec<CallerStats>)
    ensures
        breaks_down(callers_view(r@), records_view(records@)),
{
    let ghost s = records_view(records@);
    let mut out: Vec<CallerStats> = Vec::new();
    let mut i: usize = 0;
    assert(s.subrange(0, 0) =~= Seq::empty());
    while i < records.len()
        invariant
            i <= records.len(),
            s == records_view(records@),
            breaks_down(callers_view(out@), s.subrange(0, i as int)),
        decreases records.len() - i,
    {
        let ghost part = s.subrange(0, i + 1);
        let ghost prev = s.subrange(0, i as int);
        assert(part.drop_last() =~= prev);
        assert(part.last() == records@[i as int]@);
        let ghost r0 = callers_view(out@);
        let name = match &records[i].caller_id {
            Some(c) => c.clone(),
            None => "unknown".to_owned(),
        };
        let miss: u64 = if records[i].success {
            0
        } else {
            1
        };
        let latency: u128 = records[i].latency_nanos as u128;
        match find_caller(&out, name.as_str()) {
            Some(k) => {
                assert(r0[k as int] == out@[k as int]@);
                proof {
                    assert(tells_of(r0[k as int], prev));
                    let own = by_caller(prev, name@);
                    lemma_totals(own);
                    lemma_by_caller_len(prev, name@);
                    let n = own.len() as int;
                    assert(n * 0xffff_ffff_ffff_ffff <= 0xffff_ffff_ffff_ffff * 0xffff_ffff_ffff_ffff) by (nonlinear_arith)
                        requires
                            0 <= n <= 0xffff_ffff_ffff_ffff,
                    ;
                }
                let updated = CallerStats {
                    caller_id: name,
                    call_count: out[k].call_count + 1,
                    error_count: out[k].error_count + miss,
                    total_latency_nanos: out[k].total_latency_nanos + latency,
                };
                let ghost u = updated@;
                out.set(k, updated);
                proof {
                    assert(callers_view(out@) =~= r0.update(k as int, u));
                    lemma_breakdown_step(r0, callers_view(out@), part, Some(k as int));
                }
            },
            None => {
                let fresh = CallerStats {
                    caller_id: name,
                    call_count: 1,
                    error_count: miss,
                    total_latency_nanos: latency,
                };
                let ghost u = fresh@;
                out.push(fresh);
                proof {
                    assert(callers_view(out@) =~= r0.push(u));
                    lemma_breakdown_step(r0, callers_view(out@), part, None);
                }
            },
        }
        i = i + 1;
    }
    assert(s.subrange(0, s.len() as int) =~= s);
    out
}

/// The hours of every module.
pub open spec fn usage_view(m: Map<Seq<char>, ModuleUsage>) -> Map<Seq<char>, Seq<(int, Seq<RecordView>)>> {
    Map::new(|k: Seq<char>| m.contains_key(k), |k: Seq<char>| m[k]@)
}

/// The hours of a module, none where it has not been used.
pub open spec fn hours_of(m: Map<Seq<char>, Seq<(int, Seq<RecordView>)>>, id: Seq<char>) -> Seq<(int, Seq<RecordView>)> {
    if m.contains_key(id) {
        m[id]
    } else {
        Seq::empty()
    }
}

/// The hours of every module after one more use.
pub open spec fn with_use(
    m: Map<Seq<char>, Seq<(int, Seq<RecordView>)>>,
    id: Seq<char>,
    r: RecordView,
) -> Map<Seq<char>, Seq<(int, Seq<RecordView>)>> {
    m.insert(id, after_use(hours_of(m, id), r))
}

/// Whether summaries tell, once for each module, of its uses.
pub open spec fn tells_of_all(
    r: Seq<UsageStats>,
    m: Map<Seq<char>, Seq<(int, Seq<RecordView>)>>,
    told: spec_fn(Seq<RecordView>) -> Seq<RecordView>,
    trend: spec_fn(Seq<RecordView>) -> Trend,
) -> bool {
    &&& forall|i: int, j: int|
        0 <= i < r.len() && 0 <= j < r.len() && (#[trigger] r[i]).module_id@ == (#[trigger] r[j]).module_id@ ==> i == j
    &&& forall|i: int|
        0 <= i < r.len() ==> m.contains_key((#[trigger] r[i]).module_id@) && summarises(
            r[i],
            r[i].module_id@,
            told(all_records(m[r[i].module_id@])),
            trend(all_records(m[r[i].module_id@])),
        )
    &&& forall|id: Seq<char>| #[trigger]
        m.contains_key(id) ==> exists|i: int| 0 <= i < r.len() && (#[trigger] r[i]).module_id@ == id
}

/// Whether summaries tell, once for each module, of all its uses.
pub open spec fn summarises_all(r: Seq<UsageStats>, m: Map<Seq<char>, Seq<(int, Seq<RecordView>)>>) -> bool {
    tells_of_all(r, m, |s: Seq<RecordView>| s, |s: Seq<RecordView>| Trend::Stable)
}

/// Whether summaries tell, once for each module, of its uses in the period that
/// ends now, with the trend against the period before it.
pub open spec fn summarises_period(
    r: Seq<UsageStats>,
    m: Map<Seq<char>, Seq<(int, Seq<RecordView>)>>,
    earlier: Timestamp,
    start: Timestamp,
    now: Timestamp,
) -> bool {
    tells_of_all(
        r,
        m,
        |s: Seq<RecordView>| windowed(s, start, now),
        |s: Seq<RecordView>| trend_of(windowed(s, start, now).len() as int, windowed(s, earlier, start).len() as int),
    )
}

/// The uses in an hour.
#[derive(Debug)]
pub struct HourlyBucket {
    pub hour: String,
    pub call_count: u64,
    pub error_count: u64,
}

/// The start of an hour.
pub open spec fn hour_start(hour: int) -> Timestamp {
    Timestamp { secs: (hour * 3600) as i64, nanos: 0 }
}

/// How long uses took.
pub open spec fn latencies(s: Seq<RecordView>) -> Seq<u64> {
    Seq::new(s.len(), |i: int| s[i].latency_nanos)
}

/// Values in order.
pub open spec fn ascending(s: Seq<u64>) -> Seq<u64> {
    s.sort_by(|a: u64, b: u64| a <= b)
}

/// The value that so many of 100 of the values stay within; zero without any.
pub open spec fn percentile(s: Seq<u64>, percent: int) -> u64 {
    if s.len() == 0 {
        0
    } else {
        let rank = (s.len() * percent + 99) / 100;
        let at = if rank > s.len() {
            s.len() as int
        } else {
            rank
        };
        ascending(s)[if at > 0 {
            at - 1
        } else {
            0
        }]
    }
}

fn collect_latencies(records: &Vec<UsageRecord>) -> (r: Vec<u64>)
    ensures
        r@ == ascending(latencies(records_view(records@))),
        r@.len() == records@.len(),
{
    let ghost s = latencies(records_view(records@));
    let ghost leq = |a: u64, b: u64| a <= b;
    let mut out: Vec<u64> = Vec::new();
    let mut i: usize = 0;
    assert(s.subrange(0, 0) =~= out@);
    while i < records.len()
        invariant
            i <= records.len(),
            s == latencies(records_view(records@)),
            out@.len() == i,
            out@.to_multiset() == s.subrange(0, i as int).to_multiset(),
            forall|a: int, b: int| 0 <= a < b < out@.len() ==> out@[a] <= out@[b],
        decreases records.len() - i,
    {
        broadcast use vstd::seq_lib::group_to_multiset_ensures;

        let v: u64 = records[i].latency_nanos;
        let mut at: usize = out.len();
        while at > 0 && out[at - 1] > v
            invariant
                at <= out.len(),
                forall|b: int| at <= b < out@.len() ==> out@[b] > v,
            decreases at,
        {
            at = at - 1;
        }
        assert(s.subrange(0, i + 1) =~= s.subrange(0, i as int).push(v));
        let ghost prev = out@;
        out.insert(at, v);
        assert(out@ == prev.insert(at as int, v));
        assert forall|a: int, b: int| 0 <= a < b < out@.len() implies out@[a] <= out@[b] by {
            if a == at {
                assert(out@[b] == prev[b - 1]);
            } else if b == at {
                assert(out@[a] == prev[a]);
                assert(prev[a] <= prev[at - 1]);
            }
        }
        i = i + 1;
    }
    proof {
        assert(s.subrange(0, s.len() as int) =~= s);
        lemma_ascending(out@, s);
    }
    out
}

proof fn lemma_ascending(t: Seq<u64>, s: Seq<u64>)
    requires
        t.to_multiset() == s.to_multiset(),
        forall|a: int, b: int| 0 <= a < b < t.len() ==> t[a] <= t[b],
    ensures
        t == ascending(s),
{
    let leq = |a: u64, b: u64| a <= b;
    assert(vstd::relations::total_ordering(leq));
    s.lemma_sort_by_ensures(leq);
    vstd::seq_lib::lemma_sorted_unique(t, ascending(s), leq);
}

proof fn lemma_ascending_len(s: Seq<u64>)
    ensures
        ascending(s).len() == s.len(),
{
    let leq = |a: u64, b: u64| a <= b;
    assert(vstd::relations::total_ordering(leq));
    s.lemma_sort_by_ensures(leq);
    vstd::seq_lib::to_multiset_len(s);
    vstd::seq_lib::to_multiset_len(ascending(s));
}

/// The value that so many of 100 of the sorted values stay within; zero without
/// any.
fn percentile_from_sorted(sorted: &Vec<u64>, percent: u8) -> (r: u64)
    ensures
        forall|s: Seq<u64>| sorted@ == #[trigger] ascending(s) ==> r == percentile(s, percent as int),
{
    proof {
        assert forall|s: Seq<u64>| sorted@ == #[trigger] ascending(s) implies s.len() == sorted@.len() by {
            lemma_ascending_len(s);
        }
    }
    if sorted.len() == 0 {
        return 0;
    }
    let n: u128 = sorted.len() as u128;
    assert(n * percent <= 0xffff_ffff_ffff_ffff * 255) by (nonlinear_arith)
        requires
            0 <= n <= 0xffff_ffff_ffff_ffff,
            0 <= percent <= 255,
    ;
    assert(0 <= n * percent) by (nonlinear_arith)
        requires
            0 <= n,
            0 <= percent,
    ;
    let rank: u128 = (n * percent as u128 + 99) / 100;
    let at: u128 = if rank > n {
        n
    } else {
        rank
    };
    if at > 0 {
        sorted[(at - 1) as usize]
    } else {
        sorted[0]
    }
}

/// Uses of modules, by module and hour.
#[derive(Debug)]
pub struct UsageCollector {
    modules: StrMap<ModuleUsage>,
}

impl View for UsageCollector {
    type V = Map<Seq<char>, Seq<(int, Seq<RecordView>)>>;

    closed spec fn view(&self) -> Map<Seq<char>, Seq<(int, Seq<RecordView>)>> {
        usage_view(self.modules@)
    }
}

impl ModuleUsage {
    fn records(&self) -> (r: Vec<UsageRecord>)
        ensures
            records_view(r@) == all_records(self@),
    {
        collect_all(&self.hours)
    }

    fn hourly(&self) -> (r: Vec<HourlyBucket>)
        ensures
            r@.len() == self@.len(),
            forall|i: int|
                0 <= i < r@.len() ==> {
                    &&& (#[trigger] r@[i]).hour@ == clock::time_text(hour_start(self@[i].0))
                    &&& r@[i].call_count == self@[i].1.len()
                    &&& r@[i].error_count == failures_in(self@[i].1)
                },
    {
        proof {
            use_type_invariant(self);
        }
        let mut out: Vec<HourlyBucket> = Vec::new();
        let mut i: usize = 0;
        while i < self.hours.len()
            invariant
                i <= self.hours.len(),
                hours_are_kept(self@),
                self@ == hours_view(self.hours@),
                out@.len() == i,
                forall|j: int|
                    0 <= j < i ==> {
                        &&& (#[trigger] out@[j]).hour@ == clock::time_text(hour_start(self@[j].0))
                        &&& out@[j].call_count == self@[j].1.len()
                        &&& out@[j].error_count == failures_in(self@[j].1)
                    },
            decreases self.hours.len() - i,
        {
            let h: i64 = self.hours[i].hour;
            assert(self@[i as int].0 == h);
            assert(self@[i as int].1 == records_view(self.hours@[i as int].records@));
            let start = Timestamp { secs: h * 3600, nanos: 0 };
            let stats = aggregate_records("", &self.hours[i].records, Trend::Stable);
            out.push(
                HourlyBucket { hour: start.to_text(), call_count: stats.call_count, error_count: stats.error_count },
            );
            i = i + 1;
        }
        out
    }
}

impl UsageCollector {
    #[verifier::type_invariant]
    spec fn well_formed(self) -> bool {
        all_are_kept(self@)
    }

    /// A collector without uses.
    pub fn new() -> (r: Self)
        ensures
            r@ == Map::<Seq<char>, Seq<(int, Seq<RecordView>)>>::empty(),
            all_are_kept(r@),
    {
        let r = UsageCollector { modules: StrMap::new() };
        assert(r@ =~= Map::empty());
        r
    }

    /// Record a use of a module at the current time. Gives the record for a
    /// storage.
    pub fn record(&mut self, module_id: &str, caller_id: Option<&str>, latency_nanos: u64, success: bool) -> (r:
        UsageRecord)
        ensures
            clock::in_calendar(r.timestamp),
            r@ == (RecordView {
                timestamp: r.timestamp,
                caller_id: text::opt_str(caller_id),
                latency_nanos,
                success,
            }),
            final(self)@ == with_use(old(self)@, module_id@, r@),
            all_are_kept(final(self)@),
    {
        self.record_at(module_id, caller_id, latency_nanos, success, Timestamp::now())
    }

    /// Record a use of a module at a point in time. Gives the record for a
    /// storage.
    pub fn record_at(
        &mut self,
        module_id: &str,
        caller_id: Option<&str>,
        latency_nanos: u64,
        success: bool,
        at: Timestamp,
    ) -> (r: UsageRecord)
        requires
            clock::in_calendar(at),
        ensures
            r@ == (RecordView { timestamp: at, caller_id: text::opt_str(caller_id), latency_nanos, success }),
            final(self)@ == with_use(old(self)@, module_id@, r@),
            all_are_kept(final(self)@),
    {
        let ghost before_use = self.modules@;
        let mut modules: StrMap<ModuleUsage> = StrMap::new();
        proof {
            use_type_invariant(&*self);
            assert(usage_view(modules@) =~= Map::empty());
        }
        std::mem::swap(&mut modules, &mut self.modules);
        let record = UsageRecord {
            timestamp: at,
            caller_id: match caller_id {
                Some(c) => Some(c.to_owned()),
                None => None,
            },
            latency_nanos,
            success,
        };
        let mut module = match modules.remove(module_id) {
            Some(m) => m,
            None => ModuleUsage::new(),
        };
        module.add_record(record.copy());
        modules.insert(module_id.to_owned(), module);
        assert(usage_view(modules@) =~= with_use(usage_view(before_use), module_id@, record@));
        self.modules = modules;
        record
    }

    /// The summary of all uses of a module; none where it has not been used.
    pub fn get_module_summary(&self, module_id: &str) -> (r: Option<UsageStats>)
        ensures
            match r {
                Some(s) => self@.contains_key(module_id@) && summarises(
                    s,
                    module_id@,
                    all_records(self@[module_id@]),
                    Trend::Stable,
                ),
                None => !self@.contains_key(module_id@),
            },
    {
        match self.modules.get(module_id) {
            Some(m) => Some(aggregate_records(module_id, &m.records(), Trend::Stable)),
            None => None,
        }
    }

    /// The summaries of all uses of each module.
    pub fn get_all_summaries(&self) -> (r: Vec<UsageStats>)
        ensures
            summarises_all(r@, self@),
    {
        let mut out: Vec<UsageStats> = Vec::new();
        let n: usize = self.modules.len();
        let ghost p = self.modules.pairs();
        let mut i: usize = 0;
        while i < n
            invariant
                i <= n,
                n == p.len(),
                p == self.modules.pairs(),
                out@.len() == i,
                forall|j: int|
                    0 <= j < i ==> (#[trigger] out@[j]).module_id@ == p[j].0 && self@.contains_key(p[j].0)
                        && summarises(out@[j], p[j].0, all_records(self@[p[j].0]), Trend::Stable),
            decreases n - i,
        {
            let m = self.modules.value_at(i);
            out.push(aggregate_records(self.modules.key_at(i).as_str(), &m.records(), Trend::Stable));
            i = i + 1;
        }
        proof {
            self.lemma_told(out@);
        }
        out
    }

    proof fn lemma_told(&self, out: Seq<UsageStats>)
        requires
            strmap::unique_keys(self.modules.pairs()),
            out.len() == self.modules.pairs().len(),
            forall|j: int| 0 <= j < out.len() ==> (#[trigger] out[j]).module_id@ == self.modules.pairs()[j].0,
        ensures
            forall|i: int, j: int|
                0 <= i < out.len() && 0 <= j < out.len() && (#[trigger] out[i]).module_id@ == (#[trigger] out[j]).module_id@
                    ==> i == j,
            forall|id: Seq<char>| #[trigger]
                self@.contains_key(id) ==> exists|i: int| 0 <= i < out.len() && (#[trigger] out[i]).module_id@ == id,
    {
        let p = self.modules.pairs();
        assert forall|id: Seq<char>| #[trigger] self@.contains_key(id) implies exists|i: int|
            0 <= i < out.len() && (#[trigger] out[i]).module_id@ == id by {
            assert(strmap::has_key(p, id));
            let i = choose|i: int| 0 <= i < p.len() && (#[trigger] p[i]).0 == id;
            assert(out[i].module_id@ == id);
        }
    }

    /// The summaries of each module over a period that ends now, all uses
    /// without one.
    pub fn get_summary_for_period(&self, period_nanos: Option<i64>) -> (r: Vec<UsageStats>)
        ensures
            match period_nanos {
                None => summarises_all(r@, self@),
                Some(p) => exists|earlier: Timestamp, start: Timestamp, now: Timestamp|
                    clock::nanos_of(start) == clock::nanos_of(now) - p && clock::nanos_of(earlier) == clock::nanos_of(start) - p && #[trigger]
                    summarises_period(r@, self@, earlier, start, now),
            },
    {
        match period_nanos {
            None => self.get_all_summaries(),
            Some(p) => {
                let now = Timestamp::now();
                let start = now.minus(p);
                let earlier = start.minus(p);
                let r = self.summaries_between(&earlier, &start, &now);
                assert(summarises_period(r@, self@, earlier, start, now));
                r
            },
        }
    }

    /// The summaries of each module from `start` to `now`, with the trend
    /// against the uses from `earlier` to `start`.
    pub fn summaries_between(&self, earlier: &Timestamp, start: &Timestamp, now: &Timestamp) -> (r: Vec<UsageStats>)
        ensures
            summarises_period(r@, self@, *earlier, *start, *now),
    {
        let mut out: Vec<UsageStats> = Vec::new();
        let n: usize = self.modules.len();
        let ghost p = self.modules.pairs();
        let mut i: usize = 0;
        while i < n
            invariant
                i <= n,
                n == p.len(),
                p == self.modules.pairs(),
                out@.len() == i,
                forall|j: int|
                    0 <= j < i ==> {
                        let s = all_records(self@[p[j].0]);
                        &&& (#[trigger] out@[j]).module_id@ == p[j].0
                        &&& self@.contains_key(p[j].0)
                        &&& summarises(
                            out@[j],
                            p[j].0,
                            windowed(s, *start, *now),
                            trend_of(windowed(s, *start, *now).len() as int, windowed(s, *earlier, *start).len() as int),
                        )
                    },
            decreases n - i,
        {
            let m = self.modules.value_at(i);
            let records = m.records();
            let current = collect_records_in_window(&records, start, now);
            let previous = collect_records_in_window(&records, earlier, start);
            assert(records_view(current@).len() == current@.len());
            assert(records_view(previous@).len() == previous@.len());
            let trend = compute_trend(current.len(), previous.len());
            out.push(aggregate_records(self.modules.key_at(i).as_str(), &current, trend));
            i = i + 1;
        }
        proof {
            self.lemma_told(out@);
        }
        out
    }

    /// The statistics of each caller of a module.
    pub fn get_caller_breakdown(&self, module_id: &str) -> (r: Vec<CallerStats>)
        ensures
            breaks_down(callers_view(r@), all_records(hours_of(self@, module_id@))),
    {
        match self.modules.get(module_id) {
            Some(m) => break_down(&m.records()),
            None => {
                let none: Vec<UsageRecord> = Vec::new();
                assert(records_view(none@) =~= all_records(hours_of(self@, module_id@)));
                break_down(&none)
            },
        }
    }

    /// The uses of a module by hour, in order.
    pub fn get_hourly_distribution(&self, module_id: &str) -> (r: Vec<HourlyBucket>)
        ensures
            ({
                let b = hours_of(self@, module_id@);
                &&& r@.len() == b.len()
                &&& forall|i: int|
                    0 <= i < r@.len() ==> {
                        &&& (#[trigger] r@[i]).hour@ == clock::time_text(hour_start(b[i].0))
                        &&& r@[i].call_count == b[i].1.len()
                        &&& r@[i].error_count == failures_in(b[i].1)
                    }
            }),
            r@.len() <= 168,
    {
        proof {
            use_type_invariant(self);
        }
        match self.modules.get(module_id) {
            Some(m) => m.hourly(),
            None => Vec::new(),
        }
    }

    /// The latency in nanoseconds that 99 of 100 uses of a module stay within;
    /// zero without any.
    pub fn get_p99_latency_nanos(&self, module_id: &str) -> (r: u64)
        ensures
            ({
                let s = latencies(all_records(hours_of(self@, module_id@)));
                r == (if s.len() == 0 {
                    0
                } else {
                    ascending(s)[metrics::p99_index(s.len() as int)]
                })
            }),
    {
        match self.modules.get(module_id) {
            Some(m) => estimate_p99_from_sorted(&collect_latencies(&m.records())),
            None => 0,
        }
    }

    /// Forget everything.
    pub fn reset(&mut self)
        ensures
            final(self)@ == Map::<Seq<char>, Seq<(int, Seq<RecordView>)>>::empty(),
    {
        let modules: StrMap<ModuleUsage> = StrMap::new();
        assert(usage_view(modules@) =~= Map::empty());
        self.modules = modules;
    }
}

// ---------------------------------------------------------------------------
// Export
// ---------------------------------------------------------------------------

/// What introduces the metrics of the text.
pub const USAGE_HEADER: &'static str = "# HELP apcore_usage_calls_total Total module call count by status\n# TYPE apcore_usage_calls_total counter\n# HELP apcore_usage_error_rate Module error rate (0.0–1.0)\n# TYPE apcore_usage_error_rate gauge\n# HELP apcore_usage_p50_latency_ms Module p50 latency in milliseconds\n# TYPE apcore_usage_p50_latency_ms gauge\n# HELP apcore_usage_p95_latency_ms Module p95 latency in milliseconds\n# TYPE apcore_usage_p95_latency_ms gauge\n# HELP apcore_usage_p99_latency_ms Module p99 latency in milliseconds\n# TYPE apcore_usage_p99_latency_ms gauge\n";

/// Nanoseconds as a decimal number of milliseconds.
pub open spec fn millis_text(nanos: nat) -> Seq<char> {
    decimals::fraction_text(nanos / 1_000_000, nanos % 1_000_000, 6)
}

/// One line of the text.
pub open spec fn usage_line(name: Seq<char>, module_id: Seq<char>, rest: Seq<char>, value: Seq<char>) -> Seq<char> {
    name + "{module_id=\""@ + metrics::escaped(module_id) + rest + value + "\n"@
}

/// The text of an error rate, zero where none is given.
pub open spec fn rate_text(rates: Map<Seq<char>, Seq<char>>, module_id: Seq<char>) -> Seq<char> {
    if rates.contains_key(module_id) {
        rates[module_id]
    } else {
        "0"@
    }
}

/// The lines of a module.
pub open spec fn module_lines(module_id: Seq<char>, s: Seq<RecordView>, rate: Seq<char>) -> Seq<char> {
    let t = latencies(s);
    usage_line(
        "apcore_usage_calls_total"@,
        module_id,
        "\",status=\"success\"} "@,
        text::decimal_text((s.len() - failures_in(s)) as nat),
    ) + usage_line("apcore_usage_calls_total"@, module_id, "\",status=\"error\"} "@, text::decimal_text(failures_in(s) as nat))
        + usage_line("apcore_usage_error_rate"@, module_id, "\"} "@, rate) + usage_line(
        "apcore_usage_p50_latency_ms"@,
        module_id,
        "\"} "@,
        millis_text(percentile(t, 50) as nat),
    ) + usage_line("apcore_usage_p95_latency_ms"@, module_id, "\"} "@, millis_text(percentile(t, 95) as nat))
        + usage_line("apcore_usage_p99_latency_ms"@, module_id, "\"} "@, millis_text(percentile(t, 99) as nat))
}

/// The names of the modules that have been used.
pub open spec fn module_names(m: Map<Seq<char>, Seq<(int, Seq<RecordView>)>>) -> Map<Seq<char>, Seq<char>> {
    Map::new(|k: Seq<char>| m.contains_key(k), |k: Seq<char>| ""@)
}

/// The lines of modules.
pub open spec fn modules_lines(
    names: Seq<(Seq<char>, Seq<char>)>,
    m: Map<Seq<char>, Seq<(int, Seq<RecordView>)>>,
    rates: Map<Seq<char>, Seq<char>>,
) -> Seq<char>
    decreases names.len(),
{
    if names.len() == 0 {
        Seq::empty()
    } else {
        let id = names.last().0;
        modules_lines(names.drop_last(), m, rates) + module_lines(id, all_records(hours_of(m, id)), rate_text(rates, id))
    }
}

fn write_line(out: &mut String, name: &str, module_id: &str, rest: &str, value: &str)
    ensures
        final(out)@ == old(out)@ + usage_line(name@, module_id@, rest@, value@),
{
    let ghost start = out@;
    out.append(name);
    out.append("{module_id=\"");
    out.append(escape_prometheus_label_value(module_id).as_str());
    out.append(rest);
    out.append(value);
    out.append("\n");
    assert(out@ =~= start + usage_line(name@, module_id@, rest@, value@));
}

fn millis(nanos: u64) -> (r: String)
    ensures
        r@ == millis_text(nanos as nat),
{
    fraction(nanos / 1_000_000, nanos % 1_000_000, 6)
}

fn write_module(out: &mut String, module_id: &str, records: &Vec<UsageRecord>, rate: &str)
    ensures
        final(out)@ == old(out)@ + module_lines(module_id@, records_view(records@), rate@),
{
    let ghost start = out@;
    let ghost s = records_view(records@);
    let stats = aggregate_records(module_id, records, Trend::Stable);
    proof {
        lemma_totals(s);
    }
    let sorted = collect_latencies(records);
    let p50: u64 = percentile_from_sorted(&sorted, 50);
    let p95: u64 = percentile_from_sorted(&sorted, 95);
    let p99: u64 = percentile_from_sorted(&sorted, 99);
    let good: u64 = stats.call_count - stats.error_count;
    write_line(out, "apcore_usage_calls_total", module_id, "\",status=\"success\"} ", decimal(good).as_str());
    write_line(out, "apcore_usage_calls_total", module_id, "\",status=\"error\"} ", decimal(stats.error_count).as_str());
    write_line(out, "apcore_usage_error_rate", module_id, "\"} ", rate);
    write_line(out, "apcore_usage_p50_latency_ms", module_id, "\"} ", millis(p50).as_str());
    write_line(out, "apcore_usage_p95_latency_ms", module_id, "\"} ", millis(p95).as_str());
    write_line(out, "apcore_usage_p99_latency_ms", module_id, "\"} ", millis(p99).as_str());
    assert(out@ =~= start + module_lines(module_id@, s, rate@));
}

impl UsageCollector {
    /// The modules that have been used, in the order of their names.
    fn sorted_names(&self) -> (r: Vec<(String, String)>)
        ensures
            labels::label_texts(r@) == metrics::sorted_list(module_names(self@)),
    {
        let mut names: StrMap<String> = StrMap::new();
        let n: usize = self.modules.len();
        let ghost p = self.modules.pairs();
        let mut i: usize = 0;
        while i < n
            invariant
                i <= n,
                n == p.len(),
                p == self.modules.pairs(),
                forall|k: Seq<char>| #[trigger]
                    names@.contains_key(k) <==> exists|j: int| 0 <= j < i && (#[trigger] p[j]).0 == k,
                forall|k: Seq<char>| #[trigger] names@.contains_key(k) ==> names@[k]@ == ""@,
            decreases n - i,
        {
            let ghost prev = names@;
            names.insert(self.modules.key_at(i).clone(), "".to_owned());
            assert forall|k: Seq<char>| #[trigger] names@.contains_key(k) <==> exists|j: int|
                0 <= j < i + 1 && (#[trigger] p[j]).0 == k by {
                if names@.contains_key(k) {
                    if k == p[i as int].0 {
                        assert(p[i as int].0 == k);
                    } else {
                        assert(prev.contains_key(k));
                    }
                }
                if exists|j: int| 0 <= j < i + 1 && (#[trigger] p[j]).0 == k {
                    let j = choose|j: int| 0 <= j < i + 1 && (#[trigger] p[j]).0 == k;
                    if j < i {
                        assert(prev.contains_key(k));
                    }
                }
            }
            i = i + 1;
        }
        let sorted = sort_labels(&names);
        proof {
            assert forall|k: Seq<char>| #[trigger] names@.contains_key(k) <==> self@.contains_key(k) by {
                assert(self@.contains_key(k) <==> strmap::has_key(p, k));
            }
            assert(subscribers::text_map(names@) =~= module_names(self@));
            metrics::lemma_sorted_list(labels::label_texts(sorted@), module_names(self@));
        }
        sorted
    }

    /// The uses in the Prometheus text format, with the modules in the order of
    /// their names. Metrics are introduced even where no module has been used.
    /// The error rates are given as texts by module.
    pub fn export_prometheus(&self, rates: &StrMap<String>) -> (r: String)
        ensures
            r@ == USAGE_HEADER@ + modules_lines(metrics::sorted_list(module_names(self@)), self@, subscribers::text_map(rates@)),
    {
        let mut out = USAGE_HEADER.to_owned();
        let names = self.sorted_names();
        let ghost s = labels::label_texts(names@);
        let ghost m = subscribers::text_map(rates@);
        let mut i: usize = 0;
        assert(s.subrange(0, 0) =~= Seq::empty());
        assert(out@ =~= USAGE_HEADER@ + modules_lines(s.subrange(0, 0), self@, m));
        while i < names.len()
            invariant
                i <= names.len(),
                s == labels::label_texts(names@),
                m == subscribers::text_map(rates@),
                out@ == USAGE_HEADER@ + modules_lines(s.subrange(0, i as int), self@, m),
            decreases names.len() - i,
        {
            let ghost part = s.subrange(0, i + 1);
            assert(part.drop_last() =~= s.subrange(0, i as int));
            let id = names[i].0.as_str();
            assert(part.last() == s[i as int]);
            let records = match self.modules.get(id) {
                Some(u) => u.records(),
                None => Vec::new(),
            };
            assert(records_view(records@) =~= all_records(hours_of(self@, id@)));
            let rate = match rates.get(id) {
                Some(t) => t.as_str(),
                None => "0",
            };
            write_module(&mut out, id, &records, rate);
            assert(out@ =~= USAGE_HEADER@ + modules_lines(part, self@, m));
            i = i + 1;
        }
        assert(s.subrange(0, s.len() as int) =~= s);
        out
    }
}

/// The nanoseconds of a point in time as a 64-bit number, zero where they do
/// not fit.
pub open spec fn nanos_number(t: Timestamp) -> int {
    if i64::MIN <= clock::nanos_of(t) <= i64::MAX {
        clock::nanos_of(t)
    } else {
        0
    }
}

/// The key under which a use is kept in a storage.
pub fn usage_key(module_id: &str, at: &Timestamp) -> (r: String)
    ensures
        r@ == module_id@ + ":"@ + decimals::signed_text(nanos_number(*at)),
{
    let n: i128 = at.secs as i128 * 1_000_000_000 + at.nanos as i128;
    let m: i128 = if -0x8000_0000_0000_0000 <= n && n <= 0x7fff_ffff_ffff_ffff {
        n
    } else {
        0
    };
    cat3(module_id, ":", signed(m).as_str())
}

// ---------------------------------------------------------------------------
// Middleware
// ---------------------------------------------------------------------------

/// Measures how long calls take and records each as a use.
#[derive(Debug)]
pub struct UsageMiddleware {
    pub collector: UsageCollector,
    pub starts: StrMap<u64>,
}

/// How long a call took, zero where its start is not known.
pub open spec fn call_latency(starts: Map<Seq<char>, u64>, trace_id: Seq<char>, now: int) -> int {
    if starts.contains_key(trace_id) {
        logging::duration_since(starts[trace_id] as int, now)
    } else {
        0
    }
}

impl UsageMiddleware {
    /// A middleware that records into a collector.
    pub fn new(collector: UsageCollector) -> (r: Self)
        ensures
            r.collector == collector,
            r.starts@ == Map::<Seq<char>, u64>::empty(),
    {
        UsageMiddleware { collector, starts: StrMap::new() }
    }

    /// The collector.
    pub fn collector(&self) -> (r: &UsageCollector)
        ensures
            *r == self.collector,
    {
        &self.collector
    }

    /// The name of the middleware.
    pub fn name(&self) -> (r: &'static str)
        ensures
            r@ == "usage"@,
    {
        "usage"
    }

    /// A call starts.
    pub fn before(&mut self, trace_id: &str, now: u64)
        ensures
            final(self).collector == old(self).collector,
            final(self).starts@ == old(self).starts@.insert(trace_id@, now),
    {
        self.starts.insert(trace_id.to_owned(), now);
    }

    fn finish(&mut self, module_id: &str, trace_id: &str, caller_id: Option<&str>, now: u64, at: Timestamp, success: bool) -> (r:
        UsageRecord)
        requires
            clock::in_calendar(at),
        ensures
            final(self).starts@ == old(self).starts@.remove(trace_id@),
            r@ == (RecordView {
                timestamp: at,
                caller_id: text::opt_str(caller_id),
                latency_nanos: call_latency(old(self).starts@, trace_id@, now as int) as u64,
                success,
            }),
            final(self).collector@ == with_use(old(self).collector@, module_id@, r@),
    {
        let latency: u64 = match self.starts.remove(trace_id) {
            Some(start) => if now >= start {
                now - start
            } else {
                0
            },
            None => 0,
        };
        self.collector.record_at(module_id, caller_id, latency, success, at)
    }

    /// A call succeeded. Gives the record for a storage.
    pub fn after(&mut self, module_id: &str, trace_id: &str, caller_id: Option<&str>, now: u64, at: Timestamp) -> (r:
        UsageRecord)
        requires
            clock::in_calendar(at),
        ensures
            final(self).starts@ == old(self).starts@.remove(trace_id@),
            r@ == (RecordView {
                timestamp: at,
                caller_id: text::opt_str(caller_id),
                latency_nanos: call_latency(old(self).starts@, trace_id@, now as int) as u64,
                success: true,
            }),
            final(self).collector@ == with_use(old(self).collector@, module_id@, r@),
    {
        self.finish(module_id, trace_id, caller_id, now, at, true)
    }

    /// A call failed. Gives the record for a storage.
    pub fn on_error(&mut self, module_id: &str, trace_id: &str, caller_id: Option<&str>, now: u64, at: Timestamp) -> (r:
        UsageRecord)
        requires
            clock::in_calendar(at),
        ensures
            final(self).starts@ == old(self).starts@.remove(trace_id@),
            r@ == (RecordView {
                timestamp: at,
                caller_id: text::opt_str(caller_id),
                latency_nanos: call_latency(old(self).starts@, trace_id@, now as int) as u64,
                success: false,
            }),
            final(self).collector@ == with_use(old(self).collector@, module_id@, r@),
    {
        self.finish(module_id, trace_id, caller_id, now, at, false)
    }
}

// ---------------------------------------------------------------------------
// Laws
// ---------------------------------------------------------------------------

proof fn lemma_parts_add_up(a: Seq<RecordView>, b: Seq<RecordView>)
    ensures
        failures_in(a + b) == failures_in(a) + failures_in(b),
        total_latency(a + b) == total_latency(a) + total_latency(b),
    decreases b.len(),
{
    if b.len() == 0 {
        assert(a + b =~= a);
    } else {
        assert((a + b).drop_last() =~= a + b.drop_last());
        lemma_parts_add_up(a, b.drop_last());
    }
}

proof fn lemma_use_adds(b: Seq<(int, Seq<RecordView>)>, h: int, r: RecordView)
    requires
        forall|i: int| 0 <= i < b.len() ==> (#[trigger] b[i]).1.len() < 10_000,
    ensures
        all_records(with_record(b, h, r)).len() == all_records(b).len() + 1,
        failures_in(all_records(with_record(b, h, r))) == failures_in(all_records(b)) + failures_in(seq![r]),
        total_latency(all_records(with_record(b, h, r))) == total_latency(all_records(b)) + r.latency_nanos,
        all_records(with_record(b, h, r)).contains(r),
    decreases b.len(),
{
    let t = with_record(b, h, r);
    let one = seq![r];
    assert(one.drop_last() =~= Seq::empty());
    assert(total_latency(one.drop_last()) == 0);
    assert(total_latency(one) == r.latency_nanos);
    if b.len() == 0 || b.last().0 < h {
        assert(t.drop_last() =~= b);
        assert(all_records(t) == all_records(b) + one);
        lemma_parts_add_up(all_records(b), one);
        assert((all_records(b) + one)[all_records(b).len() as int] == r);
    } else if b.last().0 == h {
        let p = all_records(b.drop_last());
        let old_last = b[b.len() - 1].1;
        assert(t.drop_last() =~= b.drop_last());
        assert(all_records(t) == p + old_last.push(r));
        assert(all_records(t) =~= all_records(b) + one);
        lemma_parts_add_up(all_records(b), one);
        assert((all_records(b) + one)[all_records(b).len() as int] == r);
    } else {
        let p = b.drop_last();
        let l = b[b.len() - 1].1;
        assert forall|i: int| 0 <= i < p.len() implies (#[trigger] p[i]).1.len() < 10_000 by {
            assert(p[i] == b[i]);
        }
        lemma_use_adds(p, h, r);
        let q = with_record(p, h, r);
        assert(t.drop_last() =~= q);
        assert(all_records(t) == all_records(q) + l);
        lemma_parts_add_up(all_records(q), l);
        lemma_parts_add_up(all_records(p), l);
        let k = choose|k: int| 0 <= k < all_records(q).len() && all_records(q)[k] == r;
        assert((all_records(q) + l)[k] == r);
    }
}

/// While no hour is full and there is room for one more hour, a use is added
/// to what a summary tells of a module: one call, its failure and its latency.
/// Nothing that was recorded before is lost.
pub proof fn a_use_is_counted(b: Seq<(int, Seq<RecordView>)>, r: RecordView)
    requires
        b.len() < 168,
        forall|i: int| 0 <= i < b.len() ==> (#[trigger] b[i]).1.len() < 10_000,
    ensures
        all_records(after_use(b, r)).len() == all_records(b).len() + 1,
        failures_in(all_records(after_use(b, r))) == failures_in(all_records(b)) + (if r.success {
            0int
        } else {
            1int
        }),
        total_latency(all_records(after_use(b, r))) == total_latency(all_records(b)) + r.latency_nanos,
        all_records(after_use(b, r)).contains(r),
    decreases b.len(),
{
    let h = hour_of(r.timestamp);
    lemma_use_adds(b, h, r);
    let one = seq![r];
    assert(one.drop_last() =~= Seq::empty());
    assert(failures_in(one.drop_last()) == 0);
    assert forall|i: int| 0 <= i < b.len() implies (#[trigger] b[i]).1.len() <= 10_000 by {}
    lemma_with_len(b, h, r);
}

proof fn lemma_with_len(b: Seq<(int, Seq<RecordView>)>, h: int, r: RecordView)
    ensures
        with_record(b, h, r).len() <= b.len() + 1,
    decreases b.len(),
{
    if b.len() > 0 {
        lemma_with_len(b.drop_last(), h, r);
    }
}

/// Uses of one module leave the other modules as they were.
pub proof fn modules_are_counted_apart(
    m: Map<Seq<char>, Seq<(int, Seq<RecordView>)>>,
    id: Seq<char>,
    other: Seq<char>,
    r: RecordView,
)
    requires
        id != other,
    ensures
        hours_of(with_use(m, id, r), other) == hours_of(m, other),
{
}

/// The trend tells whether there were uses: it is `new` exactly where only the
/// current period has some, and `inactive` exactly where only the earlier
/// period has.
pub proof fn trends_tell_of_empty_periods(current: int, previous: int)
    requires
        current >= 0,
        previous >= 0,
    ensures
        trend_of(current, previous) is New <==> current > 0 && previous == 0,
        trend_of(current, previous) is Inactive <==> current == 0 && previous > 0,
{
}

/// An hour holds the times from its start to the start of the next hour.
pub proof fn a_time_lies_in_its_hour(t: Timestamp)
    requires
        clock::in_calendar(t),
    ensures
        hour_start(hour_of(t)).secs <= t.secs,
        t.secs < hour_start(hour_of(t)).secs + 3600,
        hour_start(hour_of(t)).secs as int % 3600 == 0,
        hour_start(hour_of(t)).nanos == 0,
{
}

/// The uses in an hour.
pub open spec fn uses_in_hour(b: Seq<(int, Seq<RecordView>)>, h: int) -> Seq<RecordView>
    decreases b.len(),
{
    if b.len() == 0 {
        Seq::empty()
    } else if b[0].0 == h {
        b[0].1
    } else {
        uses_in_hour(b.skip(1), h)
    }
}

/// The last of some uses, as many as are kept of an hour.
pub open spec fn last_10_000(s: Seq<RecordView>) -> Seq<RecordView> {
    if s.len() > 10_000 {
        s.subrange(s.len() - 10_000, s.len() as int)
    } else {
        s
    }
}

proof fn lemma_hour_found(b: Seq<(int, Seq<RecordView>)>, h: int, n: int)
    requires
        0 <= n < b.len(),
        b[n].0 == h,
        forall|i: int| 0 <= i < n ==> (#[trigger] b[i]).0 != h,
    ensures
        uses_in_hour(b, h) == b[n].1,
    decreases n,
{
    if n > 0 {
        assert(b[0].0 != h);
        let d = b.skip(1);
        assert forall|i: int| 0 <= i < n - 1 implies (#[trigger] d[i]).0 != h by {
            assert(d[i] == b[i + 1]);
        }
        lemma_hour_found(d, h, n - 1);
    }
}

proof fn lemma_hour_missing(b: Seq<(int, Seq<RecordView>)>, h: int)
    requires
        forall|i: int| 0 <= i < b.len() ==> (#[trigger] b[i]).0 != h,
    ensures
        uses_in_hour(b, h) == Seq::<RecordView>::empty(),
    decreases b.len(),
{
    if b.len() > 0 {
        assert(b[0].0 != h);
        let d = b.skip(1);
        assert forall|i: int| 0 <= i < d.len() implies (#[trigger] d[i]).0 != h by {
            assert(d[i] == b[i + 1]);
        }
        lemma_hour_missing(d, h);
    }
}

proof fn lemma_place_of_hour(b: Seq<(int, Seq<RecordView>)>, h: int) -> (n: int)
    requires
        forall|i: int, j: int| 0 <= i < j < b.len() ==> (#[trigger] b[i]).0 < (#[trigger] b[j]).0,
    ensures
        0 <= n <= b.len(),
        n == 0 || b[n - 1].0 <= h,
        forall|j: int| n <= j < b.len() ==> (#[trigger] b[j]).0 > h,
        forall|j: int| 0 <= j < n ==> (#[trigger] b[j]).0 <= h,
    decreases b.len(),
{
    if b.len() == 0 {
        0
    } else if b.last().0 <= h {
        b.len() as int
    } else {
        let d = b.drop_last();
        assert forall|i: int, j: int| 0 <= i < j < d.len() implies (#[trigger] d[i]).0 < (#[trigger] d[j]).0 by {
            assert(d[i] == b[i] && d[j] == b[j]);
        }
        let n = lemma_place_of_hour(d, h);
        assert forall|j: int| n <= j < b.len() implies (#[trigger] b[j]).0 > h by {
            if j < d.len() {
                assert(d[j] == b[j]);
            }
        }
        assert forall|j: int| 0 <= j < n implies (#[trigger] b[j]).0 <= h by {
            assert(d[j] == b[j]);
        }
        n
    }
}

proof fn lemma_hour_kept(b: Seq<(int, Seq<RecordView>)>, t: Seq<(int, Seq<RecordView>)>, g: int)
    requires
        forall|i: int, j: int| 0 <= i < j < b.len() ==> (#[trigger] b[i]).0 < (#[trigger] b[j]).0,
        forall|i: int, j: int| 0 <= i < j < t.len() ==> (#[trigger] t[i]).0 < (#[trigger] t[j]).0,
        forall|i: int| 0 <= i < b.len() && (#[trigger] b[i]).0 == g ==> t.contains(b[i]),
        forall|i: int| 0 <= i < t.len() && (#[trigger] t[i]).0 == g ==> b.contains(t[i]),
    ensures
        uses_in_hour(t, g) == uses_in_hour(b, g),
{
    if exists|i: int| 0 <= i < b.len() && (#[trigger] b[i]).0 == g {
        let i = choose|i: int| 0 <= i < b.len() && (#[trigger] b[i]).0 == g;
        lemma_hour_found(b, g, i);
        let k = choose|k: int| 0 <= k < t.len() && t[k] == b[i];
        lemma_hour_found(t, g, k);
    } else {
        lemma_hour_missing(b, g);
        assert forall|i: int| 0 <= i < t.len() implies (#[trigger] t[i]).0 != g by {
            if t[i].0 == g {
                let k = choose|k: int| 0 <= k < b.len() && b[k] == t[i];
                assert(b[k].0 == g);
            }
        }
        lemma_hour_missing(t, g);
    }
}

/// A use is the last of its hour, of which the last 10000 are kept; the uses of
/// every other hour stay, and the hours stay in order.
pub proof fn a_use_is_kept_in_its_hour(b: Seq<(int, Seq<RecordView>)>, h: int, r: RecordView, g: int)
    requires
        forall|i: int, j: int| 0 <= i < j < b.len() ==> (#[trigger] b[i]).0 < (#[trigger] b[j]).0,
        g != h,
    ensures
        uses_in_hour(with_record(b, h, r), h) == last_10_000(uses_in_hour(b, h).push(r)) || uses_in_hour(b, h).len()
            > 10_000,
        uses_in_hour(with_record(b, h, r), g) == uses_in_hour(b, g),
        forall|i: int, j: int|
            0 <= i < j < with_record(b, h, r).len() ==> (#[trigger] with_record(b, h, r)[i]).0 < (
            #[trigger] with_record(b, h, r)[j]).0,
{
    let n = lemma_place_of_hour(b, h);
    lemma_record_at(b, h, r, n);
    let t = with_record(b, h, r);
    if n > 0 && b[n - 1].0 == h {
        assert forall|i: int| 0 <= i < n - 1 implies (#[trigger] b[i]).0 != h by {
            assert(b[i].0 < b[n - 1].0);
        }
        lemma_hour_found(b, h, n - 1);
        let s = b[n - 1].1;
        assert forall|i: int, j: int| 0 <= i < j < t.len() implies (#[trigger] t[i]).0 < (#[trigger] t[j]).0 by {
            assert(b[i].0 < b[j].0);
        }
        assert forall|i: int| 0 <= i < n - 1 implies (#[trigger] t[i]).0 != h by {
            assert(t[i] == b[i]);
        }
        lemma_hour_found(t, h, n - 1);
        if s.len() <= 10_000 {
            assert(with_latest(s, r) =~= last_10_000(s.push(r)));
        }
        assert forall|i: int| 0 <= i < b.len() && (#[trigger] b[i]).0 == g implies t.contains(b[i]) by {
            assert(t[i] == b[i]);
        }
        assert forall|i: int| 0 <= i < t.len() && (#[trigger] t[i]).0 == g implies b.contains(t[i]) by {
            assert(t[i] == b[i]);
        }
    } else {
        assert forall|i: int| 0 <= i < b.len() implies (#[trigger] b[i]).0 != h by {
            if i < n - 1 {
                assert(b[i].0 < b[n - 1].0);
            }
        }
        lemma_hour_missing(b, h);
        assert forall|i: int, j: int| 0 <= i < j < t.len() implies (#[trigger] t[i]).0 < (#[trigger] t[j]).0 by {
            if i < n && j > n {
                assert(t[i] == b[i] && t[j] == b[j - 1]);
            } else if j < n {
                assert(t[i] == b[i] && t[j] == b[j]);
            } else if i > n {
                assert(t[i] == b[i - 1] && t[j] == b[j - 1]);
            } else if j == n {
                assert(t[i] == b[i]);
                assert(b[i].0 != h);
            } else {
                assert(t[j] == b[j - 1]);
            }
        }
        assert forall|i: int| 0 <= i < n implies (#[trigger] t[i]).0 != h by {
            assert(t[i] == b[i]);
        }
        lemma_hour_found(t, h, n);
        assert(last_10_000(uses_in_hour(b, h).push(r)) =~= seq![r]);
        assert forall|i: int| 0 <= i < b.len() && (#[trigger] b[i]).0 == g implies t.contains(b[i]) by {
            if i < n {
                assert(t[i] == b[i]);
            } else {
                assert(t[i + 1] == b[i]);
            }
        }
        assert forall|i: int| 0 <= i < t.len() && (#[trigger] t[i]).0 == g implies b.contains(t[i]) by {
            if i < n {
                assert(t[i] == b[i]);
            } else {
                assert(t[i] == b[i - 1]);
            }
        }
    }
    lemma_hour_kept(b, t, g);
}

/// Of the hours of a module the last 168 are kept.
pub proof fn the_last_168_hours_are_kept(b: Seq<(int, Seq<RecordView>)>)
    ensures
        b.len() <= 168 ==> latest_hours(b) == b,
        b.len() > 168 ==> latest_hours(b).len() == 168 && b.subrange(b.len() - 168, b.len() as int) == latest_hours(b),
{
}

/// A use is recorded in the hour of its time.
pub proof fn a_use_belongs_to_the_hour_of_its_time(b: Seq<(int, Seq<RecordView>)>, r: RecordView, h: int)
    requires
        hours_are_kept(b),
        b.len() < 168,
        h * 3600 <= r.timestamp.secs < (h + 1) * 3600,
    ensures
        uses_in_hour(after_use(b, r), h) == last_10_000(uses_in_hour(b, h).push(r)),
        uses_in_hour(after_use(b, r), h - 1) == uses_in_hour(b, h - 1),
        uses_in_hour(after_use(b, r), h + 1) == uses_in_hour(b, h + 1),
{
    a_use_is_kept_in_its_hour(b, h, r, h - 1);
    a_use_is_kept_in_its_hour(b, h, r, h + 1);
    lemma_with_len(b, h, r);
    assert(hour_of(r.timestamp) == h);
    let n = lemma_place_of_hour(b, h);
    if n > 0 && b[n - 1].0 == h {
        assert forall|i: int| 0 <= i < n - 1 implies (#[trigger] b[i]).0 != h by {
            assert(b[i].0 < b[n - 1].0);
        }
        lemma_hour_found(b, h, n - 1);
    } else {
        assert forall|i: int| 0 <= i < b.len() implies (#[trigger] b[i]).0 != h by {
            if i < n - 1 {
                assert(b[i].0 < b[n - 1].0);
            }
        }
        lemma_hour_missing(b, h);
    }
}

/// The uses of a module are those of its hours, one hour after the other.
pub proof fn uses_follow_the_hours(a: Seq<(int, Seq<RecordView>)>, b: Seq<(int, Seq<RecordView>)>)
    ensures
        all_records(a + b) == all_records(a) + all_records(b),
        a.len() == 1 ==> all_records(a) == a[0].1,
        a.len() == 0 ==> all_records(a).len() == 0,
    decreases b.len(),
{
    if b.len() == 0 {
        assert(a + b =~= a);
        assert(all_records(a) + all_records(b) =~= all_records(a));
    } else {
        assert((a + b).drop_last() =~= a + b.drop_last());
        uses_follow_the_hours(a, b.drop_last());
        assert(all_records(a + b) =~= all_records(a) + all_records(b));
    }
    if a.len() == 1 {
        assert(a.drop_last() =~= Seq::empty());
        assert(all_records(a.drop_last()) =~= Seq::empty());
        assert(all_records(a) =~= a[0].1);
    }
}

/// The use of a module rises where a period has over 120 of 100 calls of the one
/// before, and declines where it has under 80 of 100.
pub proof fn trends_compare_periods(current: int, previous: int)
    requires
        current > 0,
        previous > 0,
    ensures
        trend_of(current, previous) is Rising <==> 100 * current > 120 * previous,
        trend_of(current, previous) is Declining <==> 100 * current < 80 * previous,
        trend_of(current, previous) is Stable <==> 80 * previous <= 100 * current <= 120 * previous,
        trend_of(0, 0) is Stable,
{
}

/// Failures are the uses without success.
pub proof fn failures_are_counted(s: Seq<RecordView>)
    ensures
        failures_in(s) == s.filter(|r: RecordView| !r.success).len(),
    decreases s.len(),
{
    reveal(Seq::filter);
    if s.len() > 0 {
        failures_are_counted(s.drop_last());
    }
}

/// The total latency of uses is the sum of theirs.
pub proof fn latencies_add_up(a: Seq<RecordView>, b: Seq<RecordView>)
    ensures
        total_latency(a + b) == total_latency(a) + total_latency(b),
        a.len() == 1 ==> total_latency(a) == a[0].latency_nanos,
        a.len() == 0 ==> total_latency(a) == 0,
{
    lemma_parts_add_up(a, b);
    if a.len() == 1 {
        assert(a.drop_last() =~= Seq::empty());
        assert(total_latency(a.drop_last()) == 0);
    }
}

/// The callers are those that some use names.
pub proof fn callers_are_those_named(s: Seq<RecordView>, c: Seq<char>)
    ensures
        callers_of(s).contains(c) <==> exists|i: int| 0 <= i < s.len() && (#[trigger] s[i]).caller_id == Some(c),
    decreases s.len(),
{
    if s.len() > 0 {
        let d = s.drop_last();
        callers_are_those_named(d, c);
        if callers_of(d).contains(c) {
            let i = choose|i: int| 0 <= i < d.len() && (#[trigger] d[i]).caller_id == Some(c);
            assert(s[i].caller_id == Some(c));
        }
        if s.last().caller_id == Some(c) {
            assert(s[s.len() - 1].caller_id == Some(c));
        }
        if exists|i: int| 0 <= i < s.len() && (#[trigger] s[i]).caller_id == Some(c) {
            let i = choose|i: int| 0 <= i < s.len() && (#[trigger] s[i]).caller_id == Some(c);
            if i < d.len() {
                assert(d[i].caller_id == Some(c));
            }
        }
    }
}

/// A time lies in a period that neither starts after it nor ends before it.
pub proof fn a_period_has_its_ends(t: Timestamp, start: Timestamp, end: Timestamp)
    requires
        t.nanos < 1_000_000_000,
        start.nanos < 1_000_000_000,
        end.nanos < 1_000_000_000,
    ensures
        in_window(t, start, end) <==> clock::nanos_of(start) <= clock::nanos_of(t) <= clock::nanos_of(end),
{
}

/// The uses in a period are those whose time lies in it, in order.
pub proof fn a_period_has_its_uses(s: Seq<RecordView>, start: Timestamp, end: Timestamp)
    ensures
        windowed(s, start, end) == s.filter(
            |r: RecordView| !clock::before(r.timestamp, start) && !clock::before(end, r.timestamp),
        ),
    decreases s.len(),
{
    reveal(Seq::filter);
    let inside = |r: RecordView| !clock::before(r.timestamp, start) && !clock::before(end, r.timestamp);
    if s.len() > 0 {
        a_period_has_its_uses(s.drop_last(), start, end);
        assert(windowed(s, start, end) =~= s.filter(inside));
    } else {
        assert(windowed(s, start, end) =~= s.filter(inside));
    }
}

/// The uses of a caller are those that name it, in order; uses that name nobody
/// count for `unknown`.
pub proof fn a_caller_has_its_uses(s: Seq<RecordView>, caller: Seq<char>)
    ensures
        by_caller(s, caller) == s.filter(
            |r: RecordView| r.caller_id == Some(caller) || (r.caller_id is None && caller == "unknown"@),
        ),
    decreases s.len(),
{
    reveal(Seq::filter);
    let own = |r: RecordView| r.caller_id == Some(caller) || (r.caller_id is None && caller == "unknown"@);
    if s.len() > 0 {
        a_caller_has_its_uses(s.drop_last(), caller);
    }
    assert(by_caller(s, caller) =~= s.filter(own));
}

/// A summary tells how many uses there were, how many of them failed, how long
/// they took together and how many callers they had.
pub proof fn a_summary_tells_of_its_uses(r: UsageStats, module_id: Seq<char>, s: Seq<RecordView>, trend: Trend)
    requires
        summarises(r, module_id, s, trend),
    ensures
        r.module_id@ == module_id,
        r.call_count == s.len(),
        r.error_count == s.filter(|u: RecordView| !u.success).len(),
        r.total_latency_nanos == total_latency(s),
        r.unique_callers == callers_of(s).len(),
        r.trend == trend,
{
    failures_are_counted(s);
}

/// A breakdown tells of every caller once: how many uses it made, how many of them
/// failed, and how long they took together.
pub proof fn a_breakdown_tells_of_every_caller(r: Seq<CallerView>, s: Seq<RecordView>, i: int, k: int)
    requires
        breaks_down(r, s),
        0 <= i < r.len(),
        0 <= k < s.len(),
    ensures
        ({
            let own = s.filter(
                |u: RecordView| u.caller_id == Some(r[i].caller_id) || (u.caller_id is None && r[i].caller_id == "unknown"@),
            );
            &&& r[i].call_count == own.len()
            &&& r[i].error_count == own.filter(|u: RecordView| !u.success).len()
            &&& r[i].total_latency_nanos == total_latency(own)
            &&& own.len() > 0
        }),
        s[k].caller_id matches Some(c) ==> exists|j: int| 0 <= j < r.len() && (#[trigger] r[j]).caller_id == c,
        s[k].caller_id is None ==> exists|j: int| 0 <= j < r.len() && (#[trigger] r[j]).caller_id == "unknown"@,
        forall|j: int| 0 <= j < r.len() && (#[trigger] r[j]).caller_id == r[i].caller_id ==> j == i,
{
    a_caller_has_its_uses(s, r[i].caller_id);
    failures_are_counted(by_caller(s, r[i].caller_id));
    assert(tells_of(r[i], s));
    assert(names_caller(r, caller_name(s[k])));
}

/// Summaries of all uses have one for each module.
pub proof fn every_module_is_summed_up(
    r: Seq<UsageStats>,
    m: Map<Seq<char>, Seq<(int, Seq<RecordView>)>>,
    id: Seq<char>,
)
    requires
        summarises_all(r, m),
        m.contains_key(id),
    ensures
        exists|i: int|
            0 <= i < r.len() && (#[trigger] r[i]).module_id@ == id && r[i].call_count == all_records(m[id]).len()
                && r[i].error_count == all_records(m[id]).filter(|u: RecordView| !u.success).len()
                && r[i].total_latency_nanos == total_latency(all_records(m[id])) && r[i].trend is Stable,
        forall|i: int| 0 <= i < r.len() ==> m.contains_key((#[trigger] r[i]).module_id@),
{
    failures_are_counted(all_records(m[id]));
    let i = choose|i: int| 0 <= i < r.len() && (#[trigger] r[i]).module_id@ == id;
    assert(r[i].module_id@ == id);
}

/// Summaries of a period have one for each module, with the uses in the period and
/// the trend against the period before.
pub proof fn every_module_is_summed_up_for_a_period(
    r: Seq<UsageStats>,
    m: Map<Seq<char>, Seq<(int, Seq<RecordView>)>>,
    earlier: Timestamp,
    start: Timestamp,
    now: Timestamp,
    id: Seq<char>,
)
    requires
        summarises_period(r, m, earlier, start, now),
        m.contains_key(id),
    ensures
        ({
            let all = all_records(m[id]);
            let current = all.filter(
                |u: RecordView| !clock::before(u.timestamp, start) && !clock::before(now, u.timestamp),
            );
            let previous = all.filter(
                |u: RecordView| !clock::before(u.timestamp, earlier) && !clock::before(start, u.timestamp),
            );
            exists|i: int|
                0 <= i < r.len() && (#[trigger] r[i]).module_id@ == id && r[i].call_count == current.len()
                    && r[i].error_count == current.filter(|u: RecordView| !u.success).len() && r[i].trend == trend_of(
                    current.len() as int,
                    previous.len() as int,
                )
        }),
{
    let all = all_records(m[id]);
    a_period_has_its_uses(all, start, now);
    a_period_has_its_uses(all, earlier, start);
    failures_are_counted(windowed(all, start, now));
    let i = choose|i: int| 0 <= i < r.len() && (#[trigger] r[i]).module_id@ == id;
    assert(r[i].module_id@ == id);
}

/// A percentile is one of the values: in ascending order it is the first that so
/// many of 100 of them stand up to.
pub proof fn a_percentile_is_reached(s: Seq<u64>, percent: int) -> (at: int)
    requires
        s.len() > 0,
        0 < percent <= 100,
    ensures
        0 <= at < s.len(),
        100 * (at + 1) >= percent * s.len(),
        100 * at < percent * s.len(),
        percentile(s, percent) == ascending(s)[at],
        ascending(s).to_multiset() == s.to_multiset(),
        ascending(s).len() == s.len(),
        forall|i: int, j: int| 0 <= i < j < s.len() ==> ascending(s)[i] <= ascending(s)[j],
        percentile(Seq::empty(), percent) == 0,
{
    let leq = |a: u64, b: u64| a <= b;
    assert(vstd::relations::total_ordering(leq));
    s.lemma_sort_by_ensures(leq);
    lemma_ascending_len(s);
    let n = s.len() as int;
    assert(n <= n * percent <= n * 100) by (nonlinear_arith)
        requires
            n > 0,
            0 < percent <= 100,
    ;
    assert(percent * n == n * percent) by (nonlinear_arith);
    let rank = (n * percent + 99) / 100;
    assert(1 <= rank <= n);
    assert forall|i: int, j: int| 0 <= i < j < s.len() implies ascending(s)[i] <= ascending(s)[j] by {
        assert(leq(ascending(s)[i], ascending(s)[j]));
    }
    rank - 1
}

/// The latencies are those of the uses, in order.
pub proof fn latencies_are_those_of_the_uses(s: Seq<RecordView>, i: int)
    requires
        0 <= i < s.len(),
    ensures
        latencies(s).len() == s.len(),
        latencies(s)[i] == s[i].latency_nanos,
{
}

/// The lines of a module tell of its successes, its failures, its error rate and
/// its latencies.
pub proof fn the_lines_of_a_module(module_id: Seq<char>, s: Seq<RecordView>, rate: Seq<char>)
    ensures
        ({
            let lines = module_lines(module_id, s, rate);
            let id = "{module_id=\""@ + metrics::escaped(module_id);
            let calls = "apcore_usage_calls_total"@ + id;
            let bad = s.filter(|u: RecordView| !u.success).len();
            &&& text::has_infix(
                lines,
                calls + ("\",status=\"success\"} "@ + text::decimal_text((s.len() - bad) as nat) + "\n"@),
            )
            &&& text::has_infix(lines, calls + ("\",status=\"error\"} "@ + text::decimal_text(bad) + "\n"@))
            &&& text::has_infix(lines, "apcore_usage_error_rate"@ + id + ("\"} "@ + rate + "\n"@))
            &&& text::has_infix(
                lines,
                "apcore_usage_p50_latency_ms"@ + id + ("\"} "@ + millis_text(percentile(latencies(s), 50) as nat) + "\n"@),
            )
            &&& text::has_infix(
                lines,
                "apcore_usage_p95_latency_ms"@ + id + ("\"} "@ + millis_text(percentile(latencies(s), 95) as nat) + "\n"@),
            )
            &&& text::has_infix(
                lines,
                "apcore_usage_p99_latency_ms"@ + id + ("\"} "@ + millis_text(percentile(latencies(s), 99) as nat) + "\n"@),
            )
        }),
{
    failures_are_counted(s);
    let bad = failures_in(s);
    let id = "{module_id=\""@ + metrics::escaped(module_id);
    let calls = "apcore_usage_calls_total"@;
    let a = usage_line(calls, module_id, "\",status=\"success\"} "@, text::decimal_text((s.len() - bad) as nat));
    let b = usage_line(calls, module_id, "\",status=\"error\"} "@, text::decimal_text(bad as nat));
    let c = usage_line("apcore_usage_error_rate"@, module_id, "\"} "@, rate);
    let p50 = millis_text(percentile(latencies(s), 50) as nat);
    let p95 = millis_text(percentile(latencies(s), 95) as nat);
    let p99 = millis_text(percentile(latencies(s), 99) as nat);
    let d = usage_line("apcore_usage_p50_latency_ms"@, module_id, "\"} "@, p50);
    let e = usage_line("apcore_usage_p95_latency_ms"@, module_id, "\"} "@, p95);
    let f = usage_line("apcore_usage_p99_latency_ms"@, module_id, "\"} "@, p99);
    assert(module_lines(module_id, s, rate) == a + b + c + d + e + f);
    lemma_six_parts(a, b, c, d, e, f);
    lemma_line_parts(calls, module_id, "\",status=\"success\"} "@, text::decimal_text((s.len() - bad) as nat));
    lemma_line_parts(calls, module_id, "\",status=\"error\"} "@, text::decimal_text(bad as nat));
    lemma_line_parts("apcore_usage_error_rate"@, module_id, "\"} "@, rate);
    lemma_line_parts("apcore_usage_p50_latency_ms"@, module_id, "\"} "@, p50);
    lemma_line_parts("apcore_usage_p95_latency_ms"@, module_id, "\"} "@, p95);
    lemma_line_parts("apcore_usage_p99_latency_ms"@, module_id, "\"} "@, p99);
}

proof fn lemma_line_parts(name: Seq<char>, module_id: Seq<char>, rest: Seq<char>, value: Seq<char>)
    ensures
        usage_line(name, module_id, rest, value) == name + ("{module_id=\""@ + metrics::escaped(module_id)) + (rest
            + value + "\n"@),
{
    assert(usage_line(name, module_id, rest, value) =~= name + ("{module_id=\""@ + metrics::escaped(module_id)) + (rest
        + value + "\n"@));
}

proof fn lemma_six_parts(a: Seq<char>, b: Seq<char>, c: Seq<char>, d: Seq<char>, e: Seq<char>, f: Seq<char>)
    ensures
        ({
            let all = a + b + c + d + e + f;
            text::has_infix(all, a) && text::has_infix(all, b) && text::has_infix(all, c) && text::has_infix(all, d)
                && text::has_infix(all, e) && text::has_infix(all, f)
        }),
{
    let all = a + b + c + d + e + f;
    let none = Seq::<char>::empty();
    text::a_part_stands_between(all, a, none, b + c + d + e + f);
    assert(all =~= none + a + (b + c + d + e + f));
    text::a_part_stands_between(all, b, a, c + d + e + f);
    assert(all =~= a + b + (c + d + e + f));
    text::a_part_stands_between(all, c, a + b, d + e + f);
    assert(all =~= (a + b) + c + (d + e + f));
    text::a_part_stands_between(all, d, a + b + c, e + f);
    assert(all =~= (a + b + c) + d + (e + f));
    text::a_part_stands_between(all, e, a + b + c + d, f);
    text::a_part_stands_between(all, f, a + b + c + d + e, none);
    assert(all =~= (a + b + c + d + e) + f + none);
}

/// The lines of every listed module are written, with its own rate, and with `0`
/// where none is given.
pub proof fn every_module_has_its_lines(
    names: Seq<(Seq<char>, Seq<char>)>,
    m: Map<Seq<char>, Seq<(int, Seq<RecordView>)>>,
    rates: Map<Seq<char>, Seq<char>>,
    i: int,
)
    requires
        0 <= i < names.len(),
        m.contains_key(names[i].0),
    ensures
        rates.contains_key(names[i].0) ==> text::has_infix(
            modules_lines(names, m, rates),
            module_lines(names[i].0, all_records(m[names[i].0]), rates[names[i].0]),
        ),
        !rates.contains_key(names[i].0) ==> text::has_infix(
            modules_lines(names, m, rates),
            module_lines(names[i].0, all_records(m[names[i].0]), "0"@),
        ),
    decreases names.len(),
{
    let d = names.drop_last();
    let id = names.last().0;
    let before = modules_lines(d, m, rates);
    let own = module_lines(id, all_records(hours_of(m, id)), rate_text(rates, id));
    let mine = module_lines(names[i].0, all_records(m[names[i].0]), rate_text(rates, names[i].0));
    if i < d.len() {
        assert(d[i] == names[i]);
        every_module_has_its_lines(d, m, rates, i);
        text::a_part_is_kept(before, mine, Seq::empty(), own);
    } else {
        text::a_part_stands_between(before + own, own, before, Seq::empty());
        assert(before + own + Seq::<char>::empty() =~= before + own);
    }
}

/// Milliseconds are a million nanoseconds; the rest is written as a fraction.
pub proof fn nanoseconds_are_written_as_milliseconds(nanos: nat)
    ensures
        nanos % 1_000_000 == 0 ==> text::number_of(millis_text(nanos)) * 1_000_000 == nanos,
        nanos % 1_000_000 != 0 ==> exists|d: Seq<char>|
            {
                &&& millis_text(nanos) == #[trigger] (text::decimal_text(nanos / 1_000_000) + "."@ + d)
                &&& 0 < d.len() <= 6
                &&& text::all_digits(d)
                &&& d.last() != '0'
                &&& text::number_of(d) * decimals::power_of_ten((6 - d.len()) as nat) == nanos % 1_000_000
            },
{
    text::a_number_reads_back(nanos / 1_000_000);
    reveal_with_fuel(decimals::power_of_ten, 8);
    assert(decimals::power_of_ten(6) == 1_000_000);
    if nanos % 1_000_000 != 0 {
        decimals::a_fraction_reads_back(nanos / 1_000_000, nanos % 1_000_000, 6);
    } else {
        decimals::a_fraction_reads_back(nanos / 1_000_000, 1, 6);
    }
}

/// A call takes the time since its start; without a start it takes none.
pub proof fn a_use_takes_the_time_since_its_start(starts: Map<Seq<char>, u64>, trace_id: Seq<char>, now: int)
    ensures
        starts.contains_key(trace_id) && starts[trace_id] <= now ==> starts[trace_id] + call_latency(starts, trace_id, now)
            == now,
        starts.contains_key(trace_id) && starts[trace_id] > now ==> call_latency(starts, trace_id, now) == 0,
        !starts.contains_key(trace_id) ==> call_latency(starts, trace_id, now) == 0,
{
}

/// A use is kept under the nanoseconds since 1970 where they fit 64 bits, and under
/// zero elsewhere.
pub proof fn a_use_is_kept_under_its_time(t: Timestamp)
    ensures
        -0x8000_0000_0000_0000 <= t.secs * 1_000_000_000 + t.nanos <= 0x7fff_ffff_ffff_ffff ==> nanos_number(t) == t.secs
            * 1_000_000_000 + t.nanos,
        t.secs * 1_000_000_000 + t.nanos < -0x8000_0000_0000_0000 ==> nanos_number(t) == 0,
        t.secs * 1_000_000_000 + t.nanos > 0x7fff_ffff_ffff_ffff ==> nanos_number(t) == 0,
{
}

} // verus!
