//! Latency profiler: the sliding window of per-stage timing samples and
//! the statistics drained from it about once a second.
//!
//! Durations are carried as whole microseconds.  Hot-path workers push
//! samples into the window best-effort (the guarded handoff lives with
//! the embedding application, which drops a sample rather than block);
//! the reporter drains the window and summarizes each metric.

use vstd::prelude::*;

use vstd::arithmetic::div_mod::lemma_div_is_ordered;
use vstd::arithmetic::div_mod::lemma_div_multiples_vanish;
use vstd::seq_lib::to_multiset_insert;

verus! {

/// One reporting interval's worth of timing samples, one vector per
/// metric, in microseconds.
pub struct EncoderProfileWindow {
    /// Time a feeder batch took end to end.
    pub feeder_batch_us: Vec<u64>,
    /// How long samples had been queued when the feeder claimed them.
    pub feeder_queue_us: Vec<u64>,
    /// Time spent writing and flushing the process input pipe.
    pub stdin_io_us: Vec<u64>,
    /// Time spent blocked reading the process output pipe.
    pub stdout_read_wait_us: Vec<u64>,
    /// How long encoded bytes had been queued toward the output sink.
    pub output_queue_us: Vec<u64>,
    /// Time lost backing off while the output ring was full.
    pub output_backpressure_us: Vec<u64>,
}

impl EncoderProfileWindow {
    /// An empty window.
    pub fn new() -> (w: EncoderProfileWindow)
        ensures
            w.feeder_batch_us@.len() == 0,
            w.feeder_queue_us@.len() == 0,
            w.stdin_io_us@.len() == 0,
            w.stdout_read_wait_us@.len() == 0,
            w.output_queue_us@.len() == 0,
            w.output_backpressure_us@.len() == 0,
    {
        EncoderProfileWindow {
            feeder_batch_us: Vec::new(),
            feeder_queue_us: Vec::new(),
            stdin_io_us: Vec::new(),
            stdout_read_wait_us: Vec::new(),
            output_queue_us: Vec::new(),
            output_backpressure_us: Vec::new(),
        }
    }

    /// Records one feeder pass.
    pub fn record_feeder(&mut self, batch_us: u64, queue_us: u64, io_us: u64)
        ensures
            final(self).feeder_batch_us@ == old(self).feeder_batch_us@.push(batch_us),
            final(self).feeder_queue_us@ == old(self).feeder_queue_us@.push(queue_us),
            final(self).stdin_io_us@ == old(self).stdin_io_us@.push(io_us),
            final(self).stdout_read_wait_us@ == old(self).stdout_read_wait_us@,
            final(self).output_queue_us@ == old(self).output_queue_us@,
            final(self).output_backpressure_us@ == old(self).output_backpressure_us@,
    {
        self.feeder_batch_us.push(batch_us);
        self.feeder_queue_us.push(queue_us);
        self.stdin_io_us.push(io_us);
    }

    /// Records one reader pass.
    pub fn record_reader(&mut self, read_wait_us: u64, queue_us: u64, backpressure_us: u64)
        ensures
            final(self).stdout_read_wait_us@ == old(self).stdout_read_wait_us@.push(read_wait_us),
            final(self).output_queue_us@ == old(self).output_queue_us@.push(queue_us),
            final(self).output_backpressure_us@ == old(self).output_backpressure_us@.push(
                backpressure_us,
            ),
            final(self).feeder_batch_us@ == old(self).feeder_batch_us@,
            final(self).feeder_queue_us@ == old(self).feeder_queue_us@,
            final(self).stdin_io_us@ == old(self).stdin_io_us@,
    {
        self.stdout_read_wait_us.push(read_wait_us);
        self.output_queue_us.push(queue_us);
        self.output_backpressure_us.push(backpressure_us);
    }

    /// Whether the window holds no sample at all: the reporter then skips
    /// the interval instead of draining it.
    pub fn is_empty(&self) -> (b: bool)
        ensures
            b <==> self.feeder_batch_us@.len() == 0 && self.feeder_queue_us@.len() == 0
                && self.stdin_io_us@.len() == 0 && self.stdout_read_wait_us@.len() == 0
                && self.output_queue_us@.len() == 0 && self.output_backpressure_us@.len() == 0,
    {
        self.feeder_batch_us.is_empty() && self.feeder_queue_us.is_empty()
            && self.stdin_io_us.is_empty() && self.stdout_read_wait_us.is_empty()
            && self.output_queue_us.is_empty() && self.output_backpressure_us.is_empty()
    }
}

/// Statistics of one metric over one reporting interval.
#[derive(Debug, Clone, Copy, PartialEq, Eq)]
pub struct MetricSummary {
    /// How many samples the interval held.
    pub count: usize,
    /// Mean, rounded down.
    pub avg_us: u64,
    /// Median (lower of the two middle samples).
    pub p50_us: u64,
    /// 95th percentile.
    pub p95_us: u64,
    /// Largest sample.
    pub max_us: u64,
}

/// Nondecreasing order.
pub open spec fn spec_sorted(s: Seq<u64>) -> bool {
    forall|i: int, j: int| 0 <= i < j < s.len() ==> s[i] <= s[j]
}

/// The sum of a sequence of samples.
pub open spec fn spec_sum(s: Seq<u64>) -> int
    decreases s.len(),
{
    if s.len() == 0 {
        0
    } else {
        spec_sum(s.drop_last()) + s.last()
    }
}

/// The sum of samples is bounded by count times the largest value the
/// type can hold.
pub proof fn lemma_sum_bound(s: Seq<u64>)
    ensures
        0 <= spec_sum(s) <= s.len() * (u64::MAX as int),
    decreases s.len(),
{
    if s.len() > 0 {
        lemma_sum_bound(s.drop_last());
    }
}

/// Inserts `v` into a sorted vector at its ordered position.
fn insert_sorted(out: &mut Vec<u64>, v: u64)
    requires
        spec_sorted(old(out)@),
    ensures
        spec_sorted(final(out)@),
        final(out)@.to_multiset() == old(out)@.to_multiset().insert(v),
        final(out)@.len() == old(out)@.len() + 1,
{
    let mut j: usize = 0;
    while j < out.len() && out[j] <= v
        invariant
            j <= out@.len(),
            spec_sorted(out@),
            out@ == old(out)@,
            forall|k: int| 0 <= k < j ==> out@[k] <= v,
        decreases out@.len() - j,
    {
        j = j + 1;
    }
    out.insert(j, v);
    proof {
        to_multiset_insert(old(out)@, j as int, v);
    }
}

/// Sorts the samples in place (nondecreasing); the collection of samples
/// is unchanged.
pub fn sort_samples(values: &mut Vec<u64>)
    ensures
        spec_sorted(final(values)@),
        final(values)@.to_multiset() == old(values)@.to_multiset(),
        final(values)@.len() == old(values)@.len(),
{
    let mut sorted_vals: Vec<u64> = Vec::new();
    proof {
        broadcast use vstd::seq_lib::group_to_multiset_ensures;

        assert(sorted_vals@.to_multiset().add(values@.to_multiset()) =~= old(
            values,
        )@.to_multiset());
    }
    loop
        invariant
            spec_sorted(sorted_vals@),
            sorted_vals@.to_multiset().add(values@.to_multiset()) == old(values)@.to_multiset(),
            sorted_vals@.len() + values@.len() == old(values)@.len(),
        ensures
            spec_sorted(sorted_vals@),
            values@.len() == 0,
            sorted_vals@.to_multiset() == old(values)@.to_multiset(),
            sorted_vals@.len() == old(values)@.len(),
        decreases values@.len(),
    {
        let ghost before = values@;
        match values.pop() {
            Some(v) => {
                proof {
                    broadcast use vstd::seq_lib::group_to_multiset_ensures;

                    assert(values@.push(v) =~= before);
                    assert(before.to_multiset() =~= values@.to_multiset().insert(v));
                }
                insert_sorted(&mut sorted_vals, v);
                proof {
                    assert(sorted_vals@.to_multiset().add(values@.to_multiset()) =~= old(
                        values,
                    )@.to_multiset());
                }
            },
            None => {
                proof {
                    broadcast use vstd::seq_lib::group_to_multiset_ensures;

                    assert(sorted_vals@.to_multiset().add(values@.to_multiset())
                        =~= sorted_vals@.to_multiset());
                }
                break ;
            },
        }
    }
    *values = sorted_vals;
}

/// The sum of the samples, exactly.
fn sum_samples(values: &Vec<u64>) -> (s: u128)
    ensures
        s == spec_sum(values@),
{
    let mut s: u128 = 0;
    let mut i: usize = 0;
    proof {
        assert(values@.take(0) =~= Seq::<u64>::empty());
    }
    while i < values.len()
        invariant
            i <= values@.len(),
            s == spec_sum(values@.take(i as int)),
            0 <= s <= i * (u64::MAX as int),
        decreases values@.len() - i,
    {
        proof {
            assert(values@.take(i + 1).drop_last() =~= values@.take(i as int));
            assert(values@.take(i + 1).last() == values@[i as int]);
        }
        s = s + values[i] as u128;
        i = i + 1;
    }
    proof {
        assert(values@.take(values@.len() as int) =~= values@);
    }
    s
}

/// Summarizes one metric of the drained window: sorts the samples and
/// reports their count, rounded-down mean, median, 95th percentile and
/// maximum.  An interval without samples has no summary.
pub fn summarize_us(values: &mut Vec<u64>) -> (r: Option<MetricSummary>)
    ensures
        r is Some <==> old(values)@.len() > 0,
        spec_sorted(final(values)@),
        final(values)@.to_multiset() == old(values)@.to_multiset(),
        final(values)@.len() == old(values)@.len(),
        r is Some ==> ({
            let s = r->Some_0;
            let n = old(values)@.len() as int;
            &&& s.count == n
            &&& s.avg_us == spec_sum(old(values)@) / n
            &&& s.p50_us == final(values)@[(n - 1) * 50 / 100]
            &&& s.p95_us == final(values)@[(n - 1) * 95 / 100]
            &&& s.max_us == final(values)@[n - 1]
        }),
{
    if values.len() == 0 {
        return None;
    }
    let count = values.len();
    let sum = sum_samples(values);
    sort_samples(values);
    proof {
        lemma_sum_bound(old(values)@);
        lemma_div_multiples_vanish(u64::MAX as int, count as int);
        lemma_div_is_ordered(spec_sum(old(values)@), count as int * (u64::MAX as int), count as int);
        lemma_div_is_ordered(0, spec_sum(old(values)@), count as int);
        lemma_percentile_index(count as int, 50);
        lemma_percentile_index(count as int, 95);
    }
    let avg = (sum / count as u128) as u64;
    let p50_idx = (((count - 1) as u128) * 50 / 100) as usize;
    let p95_idx = (((count - 1) as u128) * 95 / 100) as usize;
    let p50 = values[p50_idx];
    let p95 = values[p95_idx];
    let max = values[count - 1];
    Some(MetricSummary { count, avg_us: avg, p50_us: p50, p95_us: p95, max_us: max })
}

/// A percentile index computed as `(count - 1) * p / 100` for `p <= 100`
/// stays within the vector.
pub proof fn lemma_percentile_index(count: int, p: int)
    requires
        count >= 1,
        0 <= p <= 100,
    ensures
        0 <= (count - 1) * p / 100 <= count - 1,
{
    vstd::arithmetic::mul::lemma_mul_nonnegative(count - 1, p);
    lemma_div_is_ordered(0, (count - 1) * p, 100);
    vstd::arithmetic::mul::lemma_mul_inequality(p, 100, count - 1);
    lemma_div_multiples_vanish(count - 1, 100);
    lemma_div_is_ordered((count - 1) * p, (count - 1) * 100, 100);
    assert((count - 1) * 100 == 100 * (count - 1)) by (nonlinear_arith);
    assert(p * (count - 1) == (count - 1) * p) by (nonlinear_arith);
}

} // verus!
