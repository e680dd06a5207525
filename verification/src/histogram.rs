//! A histogram of how long allocations live.
use vstd::prelude::*;

use crate::text::append_decimal;

verus! {

/// The number of buckets of a [`MillisHistogram`].
pub const NUM_BUCKETS: usize = 6;

/// The bucket that counts a duration: under 1s, under 5s, under 10s, under 30s, under 100s, longer.
pub open spec fn bucket_of(millis: u64) -> int {
    if millis < 1_000 {
        0
    } else if millis < 5_000 {
        1
    } else if millis < 10_000 {
        2
    } else if millis < 30_000 {
        3
    } else if millis < 100_000 {
        4
    } else {
        5
    }
}

/// The label of a bucket in a report: its upper bound in seconds, which for the last bucket is the
/// longest duration that a `u64` of milliseconds can hold.
pub open spec fn bucket_label(bucket: int) -> Seq<char> {
    if bucket == 0 {
        "1.00s: "@
    } else if bucket == 1 {
        "5.00s: "@
    } else if bucket == 2 {
        "10.00s: "@
    } else if bucket == 3 {
        "30.00s: "@
    } else if bucket == 4 {
        "100.00s: "@
    } else {
        "18446744073709552.00s: "@
    }
}

/// The first `n` buckets of a report, each as its label, its count and a separator.
pub open spec fn bucket_texts(counts: Seq<u64>, n: nat) -> Seq<char>
    decreases n,
{
    if n == 0 {
        Seq::empty()
    } else {
        bucket_texts(counts, (n - 1) as nat) + bucket_label(n - 1) + crate::text::decimal(
            counts[n - 1] as nat,
        ) + ", "@
    }
}

/// The sum of the first `n` counts.
pub open spec fn total_count(counts: Seq<u64>, n: nat) -> nat
    decreases n,
{
    if n == 0 {
        0
    } else {
        total_count(counts, (n - 1) as nat) + counts[n - 1] as nat
    }
}

/// What a [`MillisHistogram`] holds.
#[verifier::ext_equal]
pub struct HistogramView {
    /// How many samples fell into each bucket.
    pub counts: Seq<u64>,
    /// All sampled durations together.
    pub sum: u64,
    /// How many samples there were.
    pub count: u64,
}

impl HistogramView {
    /// No samples.
    pub open spec fn empty() -> Self {
        HistogramView { counts: Seq::new(NUM_BUCKETS as nat, |i: int| 0u64), sum: 0, count: 0 }
    }

    /// One more sample, in the bucket that it falls into.  Each total wraps around at the end of
    /// its range.
    pub open spec fn with_sample(self, millis: u64) -> Self {
        HistogramView {
            counts: self.counts.update(
                bucket_of(millis),
                self.counts[bucket_of(millis)].wrapping_add(1),
            ),
            sum: self.sum.wrapping_add(millis),
            count: self.count.wrapping_add(1),
        }
    }

    /// The text of a report, given the average in seconds as text.
    pub open spec fn report_text(self, avg_secs: Seq<char>) -> Seq<char> {
        "Histogram avg: "@ + avg_secs + "secs {"@ + bucket_texts(self.counts, NUM_BUCKETS as nat)
            + "}"@
    }
}

/// Really simple histogram for tracking allocation durations.
/// Based on fixed buckets of <1s, <5s, <10s, <30s, <100s, longer.
#[derive(Copy, Clone, Debug)]
pub struct MillisHistogram {
    counts: [u64; NUM_BUCKETS],
    sum: u64,
    count: u64,
}

impl View for MillisHistogram {
    type V = HistogramView;

    closed spec fn view(&self) -> HistogramView {
        HistogramView { counts: self.counts@, sum: self.sum, count: self.count }
    }
}

impl Default for MillisHistogram {
    fn default() -> (h: Self)
        ensures
            h@ == HistogramView::empty(),
    {
        Self::new()
    }
}

impl MillisHistogram {
    /// A histogram without samples.
    pub fn new() -> (h: Self)
        ensures
            h@ == HistogramView::empty(),
    {
        let h = MillisHistogram { counts: [0; NUM_BUCKETS], sum: 0, count: 0 };
        assert(h@ =~= HistogramView::empty());
        h
    }

    /// Counts a duration: one more sample, in the bucket that it falls into.
    pub fn add_sample(&mut self, millis: u64)
        ensures
            final(self)@ == old(self)@.with_sample(millis),
    {
        self.count = self.count.wrapping_add(1);
        self.sum = self.sum.wrapping_add(millis);
        let bucket: usize = if millis < 1_000 {
            0
        } else if millis < 5_000 {
            1
        } else if millis < 10_000 {
            2
        } else if millis < 30_000 {
            3
        } else if millis < 100_000 {
            4
        } else {
            5
        };
        self.counts[bucket] = self.counts[bucket].wrapping_add(1);
    }

    /// The sum of all samples and their number, whose quotient is the average.
    pub fn totals(&self) -> (r: (u64, u64))
        ensures
            r == (self@.sum, self@.count),
    {
        (self.sum, self.count)
    }

    /// The count of each bucket.
    pub fn counts(&self) -> (r: [u64; NUM_BUCKETS])
        ensures
            r@ == self@.counts,
    {
        self.counts
    }

    fn label(bucket: usize) -> (r: &'static str)
        requires
            bucket < NUM_BUCKETS,
        ensures
            r@ == bucket_label(bucket as int),
    {
        if bucket == 0 {
            "1.00s: "
        } else if bucket == 1 {
            "5.00s: "
        } else if bucket == 2 {
            "10.00s: "
        } else if bucket == 3 {
            "30.00s: "
        } else if bucket == 4 {
            "100.00s: "
        } else {
            "18446744073709552.00s: "
        }
    }

    /// A one-line report, given the average in seconds as text.
    pub fn report(&self, avg_secs: &str) -> (r: String)
        ensures
            r@ == self@.report_text(avg_secs@),
    {
        let mut out = "Histogram avg: ".to_owned();
        out.append(avg_secs);
        out.append("secs {");
        let ghost head = out@;
        let mut i: usize = 0;
        while i < NUM_BUCKETS
            invariant
                i <= NUM_BUCKETS,
                out@ == head + bucket_texts(self.counts@, i as nat),
            decreases NUM_BUCKETS - i,
        {
            out.append(Self::label(i));
            append_decimal(&mut out, self.counts[i]);
            out.append(", ");
            i += 1;
            assert(out@ =~= head + bucket_texts(self.counts@, i as nat));
        }
        out.append("}");
        out
    }
}

/// Every sample is counted in exactly one bucket: as long as the bucket counts add up to the number
/// of samples, they still do after another sample, up to the end of the counters' range.
pub proof fn law_buckets_partition_samples(before: HistogramView, millis: u64)
    requires
        before.counts.len() == NUM_BUCKETS,
        total_count(before.counts, NUM_BUCKETS as nat) == before.count,
        before.count < u64::MAX,
    ensures
        total_count(before.with_sample(millis).counts, NUM_BUCKETS as nat) == before.with_sample(
            millis,
        ).count,
{
    reveal_with_fuel(total_count, 7);
}

/// An empty histogram counts no samples in any bucket.
pub proof fn law_empty_histogram_has_no_samples()
    ensures
        HistogramView::empty().counts.len() == NUM_BUCKETS,
        total_count(HistogramView::empty().counts, NUM_BUCKETS as nat) == 0,
        HistogramView::empty().count == 0,
{
    reveal_with_fuel(total_count, 7);
}

} // verus!
