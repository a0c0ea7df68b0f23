//! Timing rules: the slow-path threshold and the rolling batch mean.
//!
//! Durations come in as nanoseconds and are compared as they come; the log
//! reports them in whole microseconds.

use vstd::prelude::*;
use crate::diagnostic::Diagnostic;

verus! {

/// A command or an iteration that takes longer than this, ten milliseconds
/// in nanoseconds, is reported as slow.
pub const SLOW_THRESHOLD_NANOS: u64 = 10_000_000;

/// Number of commands over which the mean processing time is taken.
pub const BATCH_SIZE: u32 = 100;

/// The whole microseconds in `nanos` nanoseconds.
pub open spec fn whole_micros(nanos: int) -> int {
    nanos / 1000
}

/// Whether a span of `nanos` nanoseconds is over the slow-path threshold:
/// longer than ten milliseconds, by however little.
pub open spec fn over_threshold(nanos: int) -> bool {
    nanos > SLOW_THRESHOLD_NANOS
}

/// How long one command took: decoding it, and dispatching it.
#[derive(Clone, Copy, Debug, PartialEq, Eq, Structural)]
pub struct TimingSample {
    pub decode_nanos: u64,
    pub dispatch_nanos: u64,
}

impl TimingSample {
    /// Decoding and dispatching together, in nanoseconds.
    pub open spec fn spec_total_nanos(self) -> nat {
        (self.decode_nanos + self.dispatch_nanos) as nat
    }

    /// The entry that reports this sample as slow: both durations and their
    /// sum, each in whole microseconds.
    pub open spec fn slow_entry(self) -> Diagnostic {
        Diagnostic::SlowCommand {
            decode_micros: whole_micros(self.decode_nanos as int) as u64,
            dispatch_micros: whole_micros(self.dispatch_nanos as int) as u64,
            total_micros: whole_micros(self.spec_total_nanos() as int) as u64,
        }
    }

    /// What the sample adds to the log: its slow-path entry where the total
    /// is over the threshold, nothing otherwise.
    pub open spec fn spec_slow(self) -> Option<Diagnostic> {
        if over_threshold(self.spec_total_nanos() as int) {
            Some(self.slow_entry())
        } else {
            None
        }
    }

    /// Decoding and dispatching together, in nanoseconds.
    pub fn total_nanos(self) -> (r: u128)
        ensures
            r == self.spec_total_nanos(),
    {
        self.decode_nanos as u128 + self.dispatch_nanos as u128
    }

    /// The slow-path entry for this sample, if its total is over the
    /// threshold.
    #[verifier::when_used_as_spec(spec_slow)]
    pub fn slow(self) -> (r: Option<Diagnostic>)
        ensures
            r == self.spec_slow(),
    {
        let total: u128 = self.total_nanos();
        if total > SLOW_THRESHOLD_NANOS as u128 {
            Some(
                Diagnostic::SlowCommand {
                    decode_micros: self.decode_nanos / 1000,
                    dispatch_micros: self.dispatch_nanos / 1000,
                    total_micros: (total / 1000) as u64,
                },
            )
        } else {
            None
        }
    }
}

/// What one whole iteration of `nanos` nanoseconds adds to the log: an entry
/// with its whole microseconds where it is over the threshold.
pub open spec fn spec_slow_iteration(nanos: u64) -> Option<Diagnostic> {
    if over_threshold(nanos as int) {
        Some(Diagnostic::SlowIteration { micros: whole_micros(nanos as int) as u64 })
    } else {
        None
    }
}

/// The slow-iteration entry for an iteration that took `nanos` nanoseconds, if
/// that is over the threshold.
#[verifier::when_used_as_spec(spec_slow_iteration)]
pub fn slow_iteration(nanos: u64) -> (r: Option<Diagnostic>)
    ensures
        r == spec_slow_iteration(nanos),
{
    if nanos > SLOW_THRESHOLD_NANOS {
        Some(Diagnostic::SlowIteration { micros: nanos / 1000 })
    } else {
        None
    }
}

/// Mathematical model of the accumulator: the commands since the last
/// report, and the time they took together.
pub struct BatchView {
    pub count: nat,
    pub total_nanos: nat,
}

impl BatchView {
    /// The accumulator with nothing in it.
    pub open spec fn empty() -> BatchView {
        BatchView { count: 0, total_nanos: 0 }
    }

    /// The accumulator after one more sample of `nanos` nanoseconds, and the
    /// mean in whole microseconds that is reported where the sample completes
    /// a batch. A completed batch leaves the accumulator empty.
    pub open spec fn recorded(self, nanos: nat) -> (BatchView, Option<nat>) {
        if self.count + 1 == BATCH_SIZE {
            (BatchView::empty(), Some(batch_mean(self.total_nanos + nanos)))
        } else {
            (BatchView { count: self.count + 1, total_nanos: self.total_nanos + nanos }, None)
        }
    }

    /// What holds of every accumulator at rest: its batch is not full, and
    /// its total is that of as many samples as it counts, each the sum of two
    /// `u64`. An accumulator that counts nothing has a total of zero.
    pub open spec fn valid(self) -> bool {
        &&& self.count < BATCH_SIZE
        &&& self.total_nanos <= self.count * (2 * u64::MAX)
    }

    /// The accumulator after each of `samples`, in order.
    pub open spec fn recorded_all(self, samples: Seq<nat>) -> BatchView
        decreases samples.len(),
    {
        if samples.len() == 0 {
            self
        } else {
            self.recorded_all(samples.drop_last()).recorded(samples.last()).0
        }
    }

    /// What the `i`-th of `samples` reports.
    pub open spec fn report_at(self, samples: Seq<nat>, i: int) -> Option<nat> {
        self.recorded_all(samples.take(i)).recorded(samples[i]).1
    }
}

/// The sum of `samples`.
pub open spec fn sum_of(samples: Seq<nat>) -> nat
    decreases samples.len(),
{
    if samples.len() == 0 {
        0
    } else {
        sum_of(samples.drop_last()) + samples.last()
    }
}

/// The mean over a full batch that took `total_nanos`, in whole microseconds.
pub open spec fn batch_mean(total_nanos: nat) -> nat {
    (whole_micros(total_nanos as int) / BATCH_SIZE as int) as nat
}

/// The rolling accumulator of processing times.
#[derive(Debug)]
pub struct BatchStats {
    count: u32,
    total_nanos: u128,
}

impl View for BatchStats {
    type V = BatchView;

    closed spec fn view(&self) -> BatchView {
        BatchView { count: self.count as nat, total_nanos: self.total_nanos as nat }
    }
}

impl BatchStats {
    /// The accumulator is valid whenever it is at rest.
    #[verifier::type_invariant]
    spec fn well_formed(self) -> bool {
        self@.valid()
    }

    /// An empty accumulator.
    pub fn new() -> (r: BatchStats)
        ensures
            r@ == BatchView::empty(),
    {
        BatchStats { count: 0, total_nanos: 0 }
    }

    /// Commands recorded since the last report.
    pub fn count(&self) -> (r: u32)
        ensures
            r == self@.count,
            self@.valid(),
    {
        proof {
            use_type_invariant(self);
        }
        self.count
    }

    /// Time taken by the commands recorded since the last report.
    pub fn total_nanos(&self) -> (r: u128)
        ensures
            r == self@.total_nanos,
    {
        self.total_nanos
    }

    /// Adds one sample. Where it completes a batch, returns the mean time per
    /// command of that batch in whole microseconds, and starts over.
    pub fn record(&mut self, sample: TimingSample) -> (mean: Option<u64>)
        ensures
            old(self)@.valid(),
            final(self)@.valid(),
            final(self)@ == old(self)@.recorded(sample.spec_total_nanos()).0,
            match mean {
                Some(m) => old(self)@.recorded(sample.spec_total_nanos()).1 == Some(m as nat),
                None => old(self)@.recorded(sample.spec_total_nanos()).1 is None,
            },
    {
        proof {
            use_type_invariant(&*self);
        }
        let total: u128 = self.total_nanos + sample.total_nanos();
        if self.count + 1 == BATCH_SIZE {
            self.total_nanos = 0;
            self.count = 0;
            Some((total / 1000 / (BATCH_SIZE as u128)) as u64)
        } else {
            self.count = self.count + 1;
            self.total_nanos = total;
            None
        }
    }
}

/// Until a batch is full nothing is reported and nothing is reset: the
/// accumulator counts the samples and adds them up.
pub proof fn lemma_batch_in_progress(batch: BatchView, samples: Seq<nat>)
    requires
        batch.count + samples.len() < BATCH_SIZE,
    ensures
        batch.recorded_all(samples) == (BatchView {
            count: batch.count + samples.len(),
            total_nanos: batch.total_nanos + sum_of(samples),
        }),
        forall|i: int| 0 <= i < samples.len() ==> batch.report_at(samples, i) is None,
    decreases samples.len(),
{
    if samples.len() > 0 {
        let shorter = samples.drop_last();
        lemma_batch_in_progress(batch, shorter);
        assert forall|i: int| 0 <= i < samples.len() implies batch.report_at(samples, i) is None by {
            if i < shorter.len() {
                assert(samples.take(i) =~= shorter.take(i));
                assert(batch.report_at(shorter, i) is None);
            }
        }
    }
}

/// The sample that fills a batch reports the mean over the batch and leaves
/// the accumulator empty; no sample before it reports anything.
pub proof fn lemma_batch_complete(batch: BatchView, samples: Seq<nat>)
    requires
        samples.len() > 0,
        batch.count + samples.len() == BATCH_SIZE,
    ensures
        batch.recorded_all(samples) == BatchView::empty(),
        batch.report_at(samples, samples.len() - 1) == Some(
            batch_mean(batch.total_nanos + sum_of(samples)),
        ),
        forall|i: int| 0 <= i < samples.len() - 1 ==> batch.report_at(samples, i) is None,
{
    let shorter = samples.drop_last();
    lemma_batch_in_progress(batch, shorter);
    assert forall|i: int| 0 <= i < samples.len() - 1 implies batch.report_at(samples, i) is None by {
        assert(samples.take(i) =~= shorter.take(i));
        assert(batch.report_at(shorter, i) is None);
    }
}

/// The accumulator counts modulo the batch size: after any samples it holds
/// as many as were recorded since the last multiple of a hundred, and it is
/// empty, total included, whenever that is none.
pub proof fn lemma_count_wraps(batch: BatchView, samples: Seq<nat>)
    requires
        batch.count < BATCH_SIZE,
    ensures
        batch.recorded_all(samples).count == (batch.count + samples.len()) % (BATCH_SIZE as nat),
        (batch.count + samples.len()) % (BATCH_SIZE as nat) == 0 && samples.len() > 0
            ==> batch.recorded_all(samples) == BatchView::empty(),
    decreases samples.len(),
{
    if samples.len() > 0 {
        lemma_count_wraps(batch, samples.drop_last());
    }
}

} // verus!
