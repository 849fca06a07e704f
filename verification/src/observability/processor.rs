//! Finished units of work, collected and exported in batches.
use vstd::prelude::*;
use crate::observability::span::{Span, SpanView};
use crate::observability::span;

verus! {

/// How units of work are collected.
#[derive(Debug, Clone, Copy, PartialEq, Eq, Structural)]
pub struct BatchSpanProcessorConfig {
    pub max_queue_size: usize,
    pub schedule_delay_ms: u64,
    pub max_export_batch_size: usize,
    pub export_timeout_ms: u64,
}

impl Default for BatchSpanProcessorConfig {
    fn default() -> (r: Self)
        ensures
            r == default_batching(),
    {
        BatchSpanProcessorConfig {
            max_queue_size: 2048,
            schedule_delay_ms: 5000,
            max_export_batch_size: 512,
            export_timeout_ms: 30000,
        }
    }
}

/// How units of work are collected unless told otherwise.
pub open spec fn default_batching() -> BatchSpanProcessorConfig {
    BatchSpanProcessorConfig {
        max_queue_size: 2048,
        schedule_delay_ms: 5000,
        max_export_batch_size: 512,
        export_timeout_ms: 30000,
    }
}

/// Builds a [`BatchSpanProcessor`].
#[derive(Debug)]
pub struct BatchSpanProcessorBuilder {
    pub config: BatchSpanProcessorConfig,
}

impl BatchSpanProcessorBuilder {
    /// A builder with the defaults.
    pub fn new() -> (r: Self)
        ensures
            r.config == default_batching(),
    {
        BatchSpanProcessorBuilder { config: BatchSpanProcessorConfig::default() }
    }

    /// How many units of work may wait.
    pub fn max_queue_size(self, n: usize) -> (r: Self)
        ensures
            r.config == (BatchSpanProcessorConfig { max_queue_size: n, ..self.config }),
    {
        BatchSpanProcessorBuilder { config: BatchSpanProcessorConfig { max_queue_size: n, ..self.config } }
    }

    /// How long to wait between two exports.
    pub fn schedule_delay_ms(self, ms: u64) -> (r: Self)
        ensures
            r.config == (BatchSpanProcessorConfig { schedule_delay_ms: ms, ..self.config }),
    {
        BatchSpanProcessorBuilder { config: BatchSpanProcessorConfig { schedule_delay_ms: ms, ..self.config } }
    }

    /// How many units of work are exported at once.
    pub fn max_export_batch_size(self, n: usize) -> (r: Self)
        ensures
            r.config == (BatchSpanProcessorConfig { max_export_batch_size: n, ..self.config }),
    {
        BatchSpanProcessorBuilder { config: BatchSpanProcessorConfig { max_export_batch_size: n, ..self.config } }
    }

    /// How long the last export may take.
    pub fn export_timeout_ms(self, ms: u64) -> (r: Self)
        ensures
            r.config == (BatchSpanProcessorConfig { export_timeout_ms: ms, ..self.config }),
    {
        BatchSpanProcessorBuilder { config: BatchSpanProcessorConfig { export_timeout_ms: ms, ..self.config } }
    }

    /// The processor. Its queue has room for one unit of work at least.
    pub fn build(self) -> (r: BatchSpanProcessor)
        requires
            self.config.max_queue_size > 0,
        ensures
            r@ == (BatchView {
                config: self.config,
                queue: Seq::empty(),
                spans_dropped: 0,
                shutdown_signalled: false,
            }),
    {
        BatchSpanProcessor::new(self.config)
    }
}

/// The mathematical contents of a processor.
#[verifier::ext_equal]
pub struct BatchView {
    pub config: BatchSpanProcessorConfig,
    pub queue: Seq<SpanView>,
    pub spans_dropped: u64,
    pub shutdown_signalled: bool,
}

/// Collects units of work in a queue that is exported batch by batch. What
/// comes while the queue is full is dropped and counted.
#[derive(Debug)]
pub struct BatchSpanProcessor {
    config: BatchSpanProcessorConfig,
    queue: Vec<Span>,
    spans_dropped: u64,
    shutdown_signalled: bool,
}

impl View for BatchSpanProcessor {
    type V = BatchView;

    closed spec fn view(&self) -> BatchView {
        BatchView {
            config: self.config,
            queue: span::spans_view(self.queue@),
            spans_dropped: self.spans_dropped,
            shutdown_signalled: self.shutdown_signalled,
        }
    }
}

/// The next number of dropped units of work; after the largest comes zero.
pub open spec fn one_more_dropped(n: u64) -> u64 {
    if n == u64::MAX {
        0
    } else {
        (n + 1) as u64
    }
}

/// A processor after a unit of work has ended.
pub open spec fn enqueued(b: BatchView, span: SpanView) -> BatchView {
    if b.queue.len() < b.config.max_queue_size {
        BatchView { queue: b.queue.push(span), ..b }
    } else {
        BatchView { spans_dropped: one_more_dropped(b.spans_dropped), ..b }
    }
}

/// How many units of work the next batch holds.
pub open spec fn batch_len(b: BatchView) -> int {
    if b.queue.len() < b.config.max_export_batch_size {
        b.queue.len() as int
    } else {
        b.config.max_export_batch_size as int
    }
}

impl BatchSpanProcessor {
    #[verifier::type_invariant]
    spec fn well_formed(self) -> bool {
        self.queue@.len() <= self.config.max_queue_size
    }

    /// A builder with the defaults.
    pub fn builder() -> (r: BatchSpanProcessorBuilder)
        ensures
            r.config == default_batching(),
    {
        BatchSpanProcessorBuilder::new()
    }

    fn new(config: BatchSpanProcessorConfig) -> (r: Self)
        ensures
            r@ == (BatchView { config, queue: Seq::empty(), spans_dropped: 0, shutdown_signalled: false }),
    {
        let r = BatchSpanProcessor { config, queue: Vec::new(), spans_dropped: 0, shutdown_signalled: false };
        assert(r@.queue =~= Seq::empty());
        r
    }

    /// How many units of work wait.
    pub fn queue_size(&self) -> (r: usize)
        ensures
            r == self@.queue.len(),
            r <= self@.config.max_queue_size,
    {
        proof {
            use_type_invariant(self);
        }
        self.queue.len()
    }

    /// How many units of work were dropped.
    pub fn spans_dropped(&self) -> (r: u64)
        ensures
            r == self@.spans_dropped,
    {
        self.spans_dropped
    }

    /// How many units of work may wait.
    pub fn max_queue_size(&self) -> (r: usize)
        ensures
            r == self@.config.max_queue_size,
    {
        self.config.max_queue_size
    }

    /// A unit of work has ended: it waits where there is room, and is dropped
    /// and counted where there is none.
    pub fn on_span_end(&mut self, span: Span)
        ensures
            final(self)@ == enqueued(old(self)@, span@),
            final(self)@.queue.len() <= final(self)@.config.max_queue_size,
    {
        let ghost b = self@;
        let config = self.config;
        let shutdown_signalled = self.shutdown_signalled;
        let mut dropped: u64 = self.spans_dropped;
        let ghost s = span@;
        let mut queue = self.take_queue();
        let ghost q = queue@;
        if queue.len() < config.max_queue_size {
            queue.push(span);
            assert(span::spans_view(queue@) =~= span::spans_view(q).push(s));
        } else {
            dropped = if dropped == u64::MAX {
                0
            } else {
                dropped + 1
            };
        }
        *self = BatchSpanProcessor { config, queue, spans_dropped: dropped, shutdown_signalled };
    }

    fn take_queue(&mut self) -> (r: Vec<Span>)
        ensures
            span::spans_view(r@) == old(self)@.queue,
            r@.len() <= old(self)@.config.max_queue_size,
            final(self)@ == (BatchView { queue: Seq::empty(), ..old(self)@ }),
    {
        proof {
            use_type_invariant(&*self);
        }
        let mut other = BatchSpanProcessor {
            config: self.config,
            queue: Vec::new(),
            spans_dropped: self.spans_dropped,
            shutdown_signalled: self.shutdown_signalled,
        };
        let ghost b = self@;
        std::mem::swap(&mut other, self);
        assert(self@ =~= BatchView { queue: Seq::empty(), ..b });
        other.into_queue()
    }

    fn into_queue(self) -> (r: Vec<Span>)
        ensures
            span::spans_view(r@) == self@.queue,
            r@.len() <= self@.config.max_queue_size,
    {
        proof {
            use_type_invariant(&self);
        }
        self.queue
    }

    /// Take the next batch out of the queue, for export in order.
    pub fn flush_batch(&mut self) -> (r: Vec<Span>)
        ensures
            span::spans_view(r@) == old(self)@.queue.subrange(0, batch_len(old(self)@)),
            final(self)@ == (BatchView { queue: old(self)@.queue.skip(batch_len(old(self)@)), ..old(self)@ }),
    {
        let ghost b = self@;
        let config = self.config;
        let spans_dropped: u64 = self.spans_dropped;
        let shutdown_signalled = self.shutdown_signalled;
        let mut batch = self.take_queue();
        let ghost all = batch@;
        let n: usize = if batch.len() < config.max_export_batch_size {
            batch.len()
        } else {
            config.max_export_batch_size
        };
        let rest = batch.split_off(n);
        assert(all == batch@ + rest@);
        assert(span::spans_view(all) == b.queue);
        assert(span::spans_view(batch@) =~= b.queue.subrange(0, n as int)) by {
            assert forall|j: int| 0 <= j < n implies span::spans_view(batch@)[j] == b.queue[j] by {
                assert(all[j] == batch@[j]);
            }
        }
        assert(span::spans_view(rest@) =~= b.queue.skip(n as int)) by {
            assert forall|j: int| 0 <= j < rest@.len() implies span::spans_view(rest@)[j] == b.queue[n + j] by {
                assert(all[n + j] == rest@[j]);
            }
        }
        *self = BatchSpanProcessor { config, queue: rest, spans_dropped, shutdown_signalled };
        batch
    }

    /// Whether the worker that exports batches may end: nothing more can come,
    /// and nothing waits.
    pub fn worker_may_end(&self, closed: bool) -> (r: bool)
        ensures
            r == (closed && self@.queue.len() == 0),
    {
        closed && self.queue.len() == 0
    }

    /// The processor is shut down. Gives whether its worker is to be told, which
    /// holds the first time.
    pub fn signal_shutdown(&mut self) -> (r: bool)
        ensures
            r == !old(self)@.shutdown_signalled,
            final(self)@ == (BatchView { shutdown_signalled: true, ..old(self)@ }),
    {
        let first = !self.shutdown_signalled;
        let config = self.config;
        let spans_dropped: u64 = self.spans_dropped;
        let queue = self.take_queue();
        *self = BatchSpanProcessor { config, queue, spans_dropped, shutdown_signalled: true };
        first
    }

    /// Take everything that still waits, for the last export.
    pub fn drain(&mut self) -> (r: Vec<Span>)
        ensures
            span::spans_view(r@) == old(self)@.queue,
            final(self)@ == (BatchView { queue: Seq::empty(), ..old(self)@ }),
    {
        self.take_queue()
    }
}

/// The queue never grows beyond its limit.
pub proof fn the_queue_stays_bounded(b: BatchView, span: SpanView)
    requires
        b.queue.len() <= b.config.max_queue_size,
    ensures
        enqueued(b, span).queue.len() <= b.config.max_queue_size,
{
}

/// A unit of work that ends either waits or is counted as dropped, never both
/// and never neither.
pub proof fn each_span_waits_or_is_counted(b: BatchView, span: SpanView)
    requires
        b.spans_dropped < u64::MAX,
    ensures
        enqueued(b, span).queue.len() + enqueued(b, span).spans_dropped == b.queue.len() + b.spans_dropped + 1,
{
}

/// Units of work leave in the order in which they came: a batch is what came
/// first, and what it leaves is the rest.
pub proof fn batches_keep_the_order(b: BatchView)
    ensures
        b.queue.subrange(0, batch_len(b)) + b.queue.skip(batch_len(b)) == b.queue,
        b.queue.subrange(0, batch_len(b)).len() <= b.config.max_export_batch_size,
{
    assert(b.queue.subrange(0, batch_len(b)) + b.queue.skip(batch_len(b)) =~= b.queue);
}

/// A span waits behind the others where there is room; where there is none it is
/// dropped, and those that wait stay.
pub proof fn a_span_waits_last_or_is_dropped(b: BatchView, span: SpanView)
    ensures
        b.queue.len() < b.config.max_queue_size ==> enqueued(b, span).queue == b.queue.push(span) && enqueued(
            b,
            span,
        ).spans_dropped == b.spans_dropped,
        b.queue.len() >= b.config.max_queue_size ==> enqueued(b, span).queue == b.queue && (b.spans_dropped < u64::MAX
            ==> enqueued(b, span).spans_dropped == b.spans_dropped + 1),
        enqueued(b, span).config == b.config && enqueued(b, span).shutdown_signalled == b.shutdown_signalled,
{
}

/// A batch is as full as it may be: it takes everything that waits, or as much as
/// one export may hold.
pub proof fn a_batch_is_full_or_takes_all(b: BatchView)
    ensures
        0 <= batch_len(b) <= b.queue.len(),
        batch_len(b) == b.queue.len() || batch_len(b) == b.config.max_export_batch_size,
        batch_len(b) <= b.config.max_export_batch_size,
{
}

/// Every dropped span is counted, until the count starts anew.
pub proof fn dropped_spans_are_counted(n: u64)
    ensures
        n < u64::MAX ==> one_more_dropped(n) == n + 1,
        one_more_dropped(u64::MAX) == 0,
{
}

} // verus!
