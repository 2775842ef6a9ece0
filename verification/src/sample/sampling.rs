use vstd::prelude::*;
use vstd::slice::slice_subrange;

use super::Summary;
use crate::sensors::Hygrometer;

verus! {

/// The number of readings that are taken and thrown away before sampling
/// proper, for the converter to settle.
pub const WARMUP_READS: usize = 3;

/// The sum of `samples`.
pub open spec fn total(samples: Seq<u16>) -> nat
    decreases samples.len(),
{
    if samples.len() == 0 {
        0
    } else {
        total(samples.drop_last()) + samples.last() as nat
    }
}

/// The mean of `samples`, rounded up to a whole number.
pub open spec fn mean_rounded_up(samples: Seq<u16>) -> int {
    (total(samples) + samples.len() - 1) / (samples.len() as int)
}

/// Whether `value` is the least of `samples`.
pub open spec fn is_lowest(value: u16, samples: Seq<u16>) -> bool {
    &&& forall|k: int| 0 <= k < samples.len() ==> value <= samples[k]
    &&& exists|k: int| 0 <= k < samples.len() && samples[k] == value
}

/// Whether `value` is the greatest of `samples`.
pub open spec fn is_highest(value: u16, samples: Seq<u16>) -> bool {
    &&& forall|k: int| 0 <= k < samples.len() ==> value >= samples[k]
    &&& exists|k: int| 0 <= k < samples.len() && samples[k] == value
}

/// The sum of some samples lies between their number times a lower bound and
/// their number times an upper bound of them.
pub proof fn lemma_total_bounds(samples: Seq<u16>, low: u16, high: u16)
    requires
        forall|k: int| 0 <= k < samples.len() ==> low <= #[trigger] samples[k] && samples[k] <= high,
    ensures
        samples.len() * low <= total(samples) <= samples.len() * high,
    decreases samples.len(),
{
    if samples.len() > 0 {
        let front = samples.drop_last();
        lemma_total_bounds(front, low, high);
        assert(samples.len() * low == front.len() * low + low) by (nonlinear_arith)
            requires
                samples.len() == front.len() + 1,
        ;
        assert(samples.len() * high == front.len() * high + high) by (nonlinear_arith)
            requires
                samples.len() == front.len() + 1,
        ;
    }
}

/// The mean of some samples, rounded up, lies between a lower and an upper
/// bound of them.
pub proof fn lemma_mean_bounds(samples: Seq<u16>, low: u16, high: u16)
    requires
        samples.len() > 0,
        forall|k: int| 0 <= k < samples.len() ==> low <= #[trigger] samples[k] && samples[k] <= high,
    ensures
        low <= mean_rounded_up(samples) <= high,
{
    lemma_total_bounds(samples, low, high);
    let n = samples.len() as int;
    let t = total(samples) as int;
    assert(low <= (t + n - 1) / n <= high) by (nonlinear_arith)
        requires
            n > 0,
            n * low <= t <= n * high,
    ;
}

/// Whether `summary` sums up `samples`: it holds their number, the least and
/// the greatest of them, and their mean, rounded up.
pub open spec fn summarizes(summary: Summary, samples: Seq<u16>) -> bool {
    &&& summary.n == samples.len()
    &&& is_lowest(summary.min, samples)
    &&& is_highest(summary.max, samples)
    &&& summary.avg == mean_rounded_up(samples)
}

/// Sums up the samples of one measurement cycle of `sensor`.
pub fn summarize(samples: &[u16], sensor: Hygrometer) -> (summary: Summary)
    requires
        0 < samples@.len() <= u8::MAX,
    ensures
        summarizes(summary, samples@),
        summary.hygrometer == sensor,
        summary.min <= summary.avg <= summary.max,
{
    let n = samples.len();
    let mut sum: u32 = 0;
    let mut min: u16 = u16::MAX;
    let mut max: u16 = u16::MIN;
    let ghost mut min_at: int = 0;
    let ghost mut max_at: int = 0;
    let mut i: usize = 0;
    while i < n
        invariant
            i <= n,
            n == samples@.len(),
            n <= u8::MAX,
            sum == total(samples@.take(i as int)),
            sum <= i * 65535,
            forall|k: int| 0 <= k < i ==> min <= #[trigger] samples@[k] && samples@[k] <= max,
            i == 0 ==> min == u16::MAX && max == u16::MIN,
            i > 0 ==> 0 <= min_at < i && samples@[min_at] == min,
            i > 0 ==> 0 <= max_at < i && samples@[max_at] == max,
        decreases n - i,
    {
        let sample = samples[i];
        proof {
            assert(samples@.take(i + 1).drop_last() =~= samples@.take(i as int));
        }
        if sample >= max {
            max = sample;
            proof {
                max_at = i as int;
            }
        }
        if sample <= min {
            min = sample;
            proof {
                min_at = i as int;
            }
        }
        sum += sample as u32;
        i += 1;
    }
    proof {
        assert(samples@.take(n as int) =~= samples@);
        lemma_mean_bounds(samples@, min, max);
    }
    let avg = ((sum + (n as u32 - 1)) / (n as u32)) as u16;
    Summary { n: n as u8, avg, min, max, hygrometer: sensor }
}

/// Whether `value` is something that a function of type `R` can return.
pub open spec fn returned_by<R: FnMut() -> u16>(value: u16) -> bool {
    exists|f: R| call_ensures(f, (), value)
}

/// Runs one measurement cycle of `n` samples and sums it up.
///
/// The sensor is switched on with `toggle_sensor` and given time to settle
/// with `warmup_delay`. Then `adc_read` is called for the warm-up reads,
/// which count for nothing, and once for each sample. After the last sample
/// the sensor is switched off with `toggle_sensor`.
///
/// The three functions must accept a call at any time. What `adc_read`
/// returns is for the hardware to decide: the summary is that of `n` values
/// which it returned.
pub fn perform_sampling<T: FnMut(), W: FnMut(), R: FnMut() -> u16>(
    n: u8,
    toggle_sensor: &mut T,
    warmup_delay: &mut W,
    adc_read: &mut R,
    sensor: Hygrometer,
) -> (summary: Summary)
    requires
        n > 0,
        forall|f: T| call_requires(f, ()),
        forall|f: W| call_requires(f, ()),
        forall|f: R| call_requires(f, ()),
    ensures
        summary.n == n,
        summary.hygrometer == sensor,
        summary.min <= summary.avg <= summary.max,
        exists|samples: Seq<u16>|
            {
                &&& summarizes(summary, samples)
                &&& forall|k: int| 0 <= k < samples.len() ==> returned_by::<R>(#[trigger] samples[k])
            },
{
    let mut samples = [0u16; 255];

    toggle_sensor();
    warmup_delay();

    let mut warmup: usize = 0;
    while warmup < WARMUP_READS
        invariant
            forall|f: R| call_requires(f, ()),
        decreases WARMUP_READS - warmup,
    {
        adc_read();
        warmup += 1;
    }

    let mut i: usize = 0;
    while i < n as usize
        invariant
            i <= n,
            forall|f: R| call_requires(f, ()),
            forall|k: int| 0 <= k < i ==> returned_by::<R>(#[trigger] samples@[k]),
        decreases n - i,
    {
        let ghost reader = *adc_read;
        let sample = adc_read();
        assert(call_ensures(reader, (), sample));
        samples[i] = sample;
        i += 1;
    }
    toggle_sensor();

    let taken = slice_subrange(samples.as_slice(), 0, n as usize);
    let summary = summarize(taken, sensor);
    proof {
        assert forall|k: int| 0 <= k < taken@.len() implies returned_by::<R>(
            #[trigger] taken@[k],
        ) by {
            assert(taken@[k] == samples@[k]);
        }
    }
    summary
}

} // verus!
