//! Stats of stack traces: what each call changes, what they are ranked by and what reports say.
use vstd::prelude::*;

use crate::callstack::StdCallstack;
use crate::histogram::{HistogramView, MillisHistogram};
use crate::profiler::YingProfiler;
use crate::stack_stats::{
    Measurement, ReportFigures, ReportQuotients, StackStats, StackStatsView,
};
use crate::symbols::{FriendlyView, SymbolMap};
use crate::thread_state::YingThreadLocal;

verus! {

/// The upper bounds of the buckets of a histogram but the last, which has none: 1, 5, 10, 30 and 100
/// seconds.
pub open spec fn bounds() -> Seq<u64> {
    seq![1_000, 5_000, 10_000, 30_000, 100_000]
}

/// Whether a duration belongs into a bucket: it is below the bucket's bound, and not below the bound
/// before.
pub open spec fn belongs(millis: u64, bucket: int) -> bool {
    &&& 0 <= bucket < 6
    &&& bucket < 5 ==> millis < bounds()[bucket]
    &&& bucket > 0 ==> millis >= bounds()[bucket - 1]
}

/// A sample grows the one bucket that it belongs into by one, the number of samples by one and their
/// sum by its own length, each modulo the counters' range, and changes nothing else.
pub proof fn law_sample_grows_the_bucket_it_belongs_into(millis: u64, bucket: int)
    requires
        belongs(millis, bucket),
    ensures
        forall|h: &mut MillisHistogram| #[trigger]
            call_ensures(MillisHistogram::add_sample, (h, millis), ()) && (*h)@.counts.len() == 6
                ==> {
                &&& final(h)@.counts.len() == 6
                &&& final(h)@.counts[bucket] as int == ((*h)@.counts[bucket] + 1) % (u64::MAX + 1)
                &&& forall|other: int|
                    0 <= other < 6 && other != bucket ==> #[trigger] final(h)@.counts[other]
                        == (*h)@.counts[other]
                &&& final(h)@.count as int == ((*h)@.count + 1) % (u64::MAX + 1)
                &&& final(h)@.sum as int == ((*h)@.sum + millis) % (u64::MAX + 1)
            },
        forall|view: HistogramView|
            view.counts.len() == 6 ==> {
                let after = #[trigger] view.with_sample(millis);
                &&& after.counts.len() == 6
                &&& after.counts[bucket] as int == (view.counts[bucket] + 1) % (u64::MAX + 1)
                &&& forall|other: int|
                    0 <= other < 6 && other != bucket ==> #[trigger] after.counts[other]
                        == view.counts[other]
                &&& after.count as int == (view.count + 1) % (u64::MAX + 1)
                &&& after.sum as int == (view.sum + millis) % (u64::MAX + 1)
            },
{
    assert(crate::histogram::bucket_of(millis) == bucket);
}

/// A new histogram has six empty buckets and no samples, and what it hands out is what it holds.
pub proof fn law_histograms_start_empty_and_show_their_counts()
    ensures
        forall|h: MillisHistogram| #[trigger]
            call_ensures(MillisHistogram::new, (), h) ==> {
                &&& h@.counts.len() == 6 && h@.sum == 0 && h@.count == 0
                &&& forall|i: int| 0 <= i < 6 ==> #[trigger] h@.counts[i] == 0
            },
        forall|h: MillisHistogram, r: (u64, u64)| #[trigger]
            call_ensures(MillisHistogram::totals, (&h,), r) ==> r.0 == h@.sum && r.1 == h@.count,
        forall|h: MillisHistogram, r: [u64; 6]| #[trigger]
            call_ensures(MillisHistogram::counts, (&h,), r) ==> r@ == h@.counts,
{
}

/// How the bound of a bucket is written: in seconds.
pub open spec fn bound_text(bucket: int) -> Seq<char> {
    if bucket == 0 {
        "1.00s: "@
    } else if bucket == 1 {
        "5.00s: "@
    } else if bucket == 2 {
        "10.00s: "@
    } else if bucket == 3 {
        "30.00s: "@
    } else if bucket == 4 {
        "100.00s: "@
    } else {
        "18446744073709552.00s: "@
    }
}

/// Whether `part` is what a report says of a bucket: its bound in seconds and its count in decimal.
pub open spec fn reports_bucket(part: Seq<char>, bucket: int, count: u64) -> bool {
    exists|n: Seq<char>| #[trigger]
        super::text::says(n, count as nat, 10) && part == bound_text(bucket) + n + ", "@
}

/// Whether there is one part for each of the first `n` buckets, in order, and they make up `text`.
pub open spec fn reports_buckets(text: Seq<char>, counts: Seq<u64>, n: nat) -> bool {
    exists|parts: Seq<Seq<char>>| #[trigger]
        parts.flatten_alt() == text && parts.len() == n && forall|i: int|
            0 <= i < n ==> reports_bucket(#[trigger] parts[i], i, counts[i])
}

proof fn lemma_bucket_parts(counts: Seq<u64>, n: nat)
    requires
        n <= 6,
    ensures
        reports_buckets(crate::histogram::bucket_texts(counts, n), counts, n),
    decreases n,
{
    if n == 0 {
        let parts = Seq::<Seq<char>>::empty();
        assert(parts.flatten_alt() =~= crate::histogram::bucket_texts(counts, 0));
    } else {
        let m = (n - 1) as nat;
        lemma_bucket_parts(counts, m);
        let front = choose|parts: Seq<Seq<char>>| #[trigger]
            parts.flatten_alt() == crate::histogram::bucket_texts(counts, m) && parts.len() == m
                && forall|i: int|
                0 <= i < m ==> reports_bucket(#[trigger] parts[i], i, counts[i]);
        let digits = crate::text::decimal(counts[n - 1] as nat);
        super::text::law_numbers_read_back(counts[n - 1] as nat);
        assert(super::text::says(digits, counts[n - 1] as nat, 10));
        let part = bound_text(n - 1) + digits + ", "@;
        assert(reports_bucket(part, n - 1, counts[n - 1]));
        super::stacks::lemma_flatten_push(front, part);
        assert(front.push(part).flatten_alt() =~= crate::histogram::bucket_texts(counts, n));
    }
}

/// A report on a histogram gives the average and, for each of the six buckets in order, its bound in
/// seconds and its count in decimal.
pub proof fn law_histogram_reports_give_every_count(view: HistogramView, avg_secs: Seq<char>)
    ensures
        exists|buckets: Seq<char>|
            {
                &&& #[trigger] reports_buckets(buckets, view.counts, 6)
                &&& view.report_text(avg_secs) == "Histogram avg: "@ + avg_secs + "secs {"@ + buckets
                    + "}"@
            },
        forall|h: MillisHistogram, avg: &str, r: String|
            h@ == view && avg@ == avg_secs && #[trigger] call_ensures(
                MillisHistogram::report,
                (&h, avg),
                r,
            ) ==> r@ == view.report_text(avg_secs),
{
    lemma_bucket_parts(view.counts, 6);
    assert(reports_buckets(crate::histogram::bucket_texts(view.counts, 6), view.counts, 6));
}

/// Bytes allocated and not freed, none where more has been freed than allocated.
pub open spec fn difference(allocated: u64, freed: u64) -> int {
    if allocated >= freed {
        allocated - freed
    } else {
        0
    }
}

/// A stack trace retains what it has allocated less what it has freed, whatever else is known of it,
/// and that is what it is ranked by for retained bytes; for allocated bytes it is ranked by what it
/// has allocated.
pub proof fn law_ranked_by_what_is_measured(view: StackStatsView)
    ensures
        view.retained() == difference(view.allocated_bytes, view.freed_bytes),
        view.measured(Measurement::RetainedBytes) == difference(
            view.allocated_bytes,
            view.freed_bytes,
        ),
        view.measured(Measurement::AllocatedBytes) == view.allocated_bytes,
        forall|s: StackStats, r: u64| #[trigger]
            call_ensures(StackStats::retained_profiled_bytes, (&s,), r) ==> r == difference(
                s.allocated_bytes,
                s.freed_bytes,
            ),
        forall|s: StackStats, r: u64| #[trigger]
            call_ensures(StackStats::measured_bytes, (&s, Measurement::RetainedBytes), r) ==> r
                == difference(s.allocated_bytes, s.freed_bytes),
        forall|s: StackStats, r: u64| #[trigger]
            call_ensures(StackStats::measured_bytes, (&s, Measurement::AllocatedBytes), r) ==> r
                == s.allocated_bytes,
{
}

/// What stats say of themselves is what they hold.
pub proof fn law_stats_are_seen_whole(s: StackStats)
    ensures
        s@.stack == s.stack@,
        s@.allocated_bytes == s.allocated_bytes,
        s@.num_allocations == s.num_allocations,
        s@.freed_bytes == s.freed_bytes,
        s@.num_frees == s.num_frees,
        s@.hist == s.hist@,
        forall|r: StackStats| #[trigger] call_ensures(StackStats::clone, (&s,), r) ==> r == s,
{
}

/// Stats start with nothing but their first allocation, if there is one.
pub proof fn law_stats_start_with_their_first_allocation(stack: StdCallstack, bytes: u64)
    ensures
        forall|s: StackStats| #[trigger]
            call_ensures(StackStats::new, (stack, Some(bytes)), s) ==> {
                &&& s.stack@ == stack@
                &&& s.allocated_bytes == bytes && s.num_allocations == 1
                &&& s.freed_bytes == 0 && s.num_frees == 0 && s.hist@.count == 0
            },
        forall|s: StackStats| #[trigger]
            call_ensures(StackStats::new, (stack, None::<u64>), s) ==> {
                &&& s.stack@ == stack@
                &&& s.allocated_bytes == 0 && s.num_allocations == 0
                &&& s.freed_bytes == 0 && s.num_frees == 0 && s.hist@.count == 0
            },
        ({
            let fresh = StackStatsView::fresh(stack@, Some(bytes));
            &&& fresh.stack == stack@ && fresh.allocated_bytes == bytes
            &&& fresh.num_allocations == 1 && fresh.freed_bytes == 0 && fresh.num_frees == 0
            &&& fresh.hist.count == 0 && fresh.hist.sum == 0 && fresh.hist.counts.len() == 6
        }),
{
}

/// Another allocation adds one to the allocations and its size to the bytes allocated; a free adds one
/// to the frees, its size to the bytes freed and how long it lived to the histogram; a change of size
/// adds the difference to the bytes allocated.  Each total is taken modulo its range, and nothing
/// else changes.
pub proof fn law_stats_count_each_call_once(size: u64, new_size: u64, millis: u64)
    ensures
        forall|s: &mut StackStats| #[trigger]
            call_ensures(StackStats::update_alloc_stats, (s, size), ()) ==> {
                &&& final(s).num_allocations as int == ((*s).num_allocations + 1) % (u64::MAX + 1)
                &&& final(s).allocated_bytes as int == ((*s).allocated_bytes + size) % (u64::MAX + 1)
                &&& final(s).freed_bytes == (*s).freed_bytes
                &&& final(s).num_frees == (*s).num_frees
                &&& final(s).hist@ == (*s).hist@
                &&& final(s).stack@ == (*s).stack@
            },
        forall|s: &mut StackStats| #[trigger]
            call_ensures(StackStats::update_free_stats, (s, size, millis), ()) ==> {
                &&& final(s).num_frees as int == ((*s).num_frees + 1) % (u64::MAX + 1)
                &&& final(s).freed_bytes as int == ((*s).freed_bytes + size) % (u64::MAX + 1)
                &&& final(s).hist@.count as int == ((*s).hist@.count + 1) % (u64::MAX + 1)
                &&& final(s).hist@.sum as int == ((*s).hist@.sum + millis) % (u64::MAX + 1)
                &&& final(s).hist@ == (*s).hist@.with_sample(millis)
                &&& final(s).allocated_bytes == (*s).allocated_bytes
                &&& final(s).num_allocations == (*s).num_allocations
                &&& final(s).stack@ == (*s).stack@
            },
        forall|s: &mut StackStats| #[trigger]
            call_ensures(StackStats::update_realloc_stats, (s, size, new_size), ()) ==> {
                &&& final(s).allocated_bytes as int == ((*s).allocated_bytes - size + new_size) % (
                u64::MAX + 1)
                &&& final(s).num_allocations == (*s).num_allocations
                &&& final(s).num_frees == (*s).num_frees
                &&& final(s).freed_bytes == (*s).freed_bytes
                &&& final(s).hist@ == (*s).hist@
                &&& final(s).stack@ == (*s).stack@
            },
        forall|v: StackStatsView|
            {
                let after = #[trigger] v.with_alloc(size);
                &&& after.num_allocations as int == (v.num_allocations + 1) % (u64::MAX + 1)
                &&& after.allocated_bytes as int == (v.allocated_bytes + size) % (u64::MAX + 1)
                &&& after.freed_bytes == v.freed_bytes && after.num_frees == v.num_frees
                &&& after.hist == v.hist && after.stack == v.stack
            },
        forall|v: StackStatsView|
            {
                let after = #[trigger] v.with_free(size, millis);
                &&& after.num_frees as int == (v.num_frees + 1) % (u64::MAX + 1)
                &&& after.freed_bytes as int == (v.freed_bytes + size) % (u64::MAX + 1)
                &&& after.hist.count as int == (v.hist.count + 1) % (u64::MAX + 1)
                &&& after.hist.sum as int == (v.hist.sum + millis) % (u64::MAX + 1)
                &&& after.hist == v.hist.with_sample(millis)
                &&& after.allocated_bytes == v.allocated_bytes
                &&& after.num_allocations == v.num_allocations && after.stack == v.stack
            },
        forall|v: StackStatsView|
            {
                let after = #[trigger] v.with_resize(size, new_size);
                &&& after.allocated_bytes as int == (v.allocated_bytes - size + new_size) % (u64::MAX
                    + 1)
                &&& after.num_allocations == v.num_allocations && after.num_frees == v.num_frees
                &&& after.freed_bytes == v.freed_bytes && after.hist == v.hist
                &&& after.stack == v.stack
            },
{
}

/// The figures of a report are quotients of what the stack trace has allocated, retains and how long
/// its allocations lived, by what the profiler has allocated and retains, and by what it has
/// allocated and freed itself.
pub proof fn law_figures_are_quotients_of_what_is_measured(
    s: StackStats,
    allocated: u64,
    retained: u64,
)
    ensures
        forall|q: ReportQuotients| #[trigger]
            call_ensures(StackStats::quotients, (&s, allocated, retained), q) ==> {
                let own = difference(s.allocated_bytes, s.freed_bytes);
                &&& q.allocated.0 == s.allocated_bytes && q.allocated.1 == allocated
                &&& q.retained_of_all.0 == own && q.retained_of_all.1 == retained
                &&& q.retained_of_allocated.0 == own
                &&& q.retained_of_allocated.1 == s.allocated_bytes
                &&& q.lifetime_millis.0 == s.hist@.sum && q.lifetime_millis.1 == s.hist@.count
            },
        forall|p: YingProfiler, q: ReportQuotients| #[trigger]
            call_ensures(StackStats::report_quotients, (&s, &p), q) ==> {
                let own = difference(s.allocated_bytes, s.freed_bytes);
                &&& q.allocated.0 == s.allocated_bytes
                &&& q.allocated.1 == p@.counters.profiled_allocated
                &&& q.retained_of_all.0 == own
                &&& q.retained_of_all.1 == p@.counters.profiled_retained
                &&& q.retained_of_allocated.0 == own
                &&& q.retained_of_allocated.1 == s.allocated_bytes
                &&& q.lifetime_millis.0 == s.hist@.sum && q.lifetime_millis.1 == s.hist@.count
            },
{
}

/// The first line of a report: bytes allocated, their share, and the number of allocations.
pub open spec fn first_line(bytes: Seq<char>, pct: Seq<char>, allocations: Seq<char>) -> Seq<char> {
    bytes + " profiled bytes allocated ("@ + pct + "%) ("@ + allocations + " allocations)\n"@
}

/// The second line of a report: bytes retained, and the number of frees.
pub open spec fn second_line(bytes: Seq<char>, frees: Seq<char>) -> Seq<char> {
    "  "@ + bytes + " profiled bytes retained  ("@ + frees + " frees)\n"@
}

/// The third line of a report: the shares of the bytes retained.
pub open spec fn third_line(of_all: Seq<char>, of_allocated: Seq<char>) -> Seq<char> {
    "    ("@ + of_all + "% of all retained profiled allocs) ("@ + of_allocated
        + "% of allocated bytes)\n"@
}

/// A report says in its first line how much and how often the stack trace has allocated, in its second
/// how much it retains and how often it has freed, in its third the shares, then how long allocations
/// lived, and then the stack trace itself.
pub proof fn law_reports_say_what_was_counted(
    view: StackStatsView,
    figures: ReportFigures,
    symbols: Map<u64, Seq<FriendlyView>>,
    with_filenames: bool,
    expand_frames: bool,
)
    ensures
        exists|a: Seq<char>, n: Seq<char>, r: Seq<char>, f: Seq<char>|
            {
                &&& #[trigger] super::text::says(a, view.allocated_bytes as nat, 10)
                &&& #[trigger] super::text::says(n, view.num_allocations as nat, 10)
                &&& #[trigger] super::text::says(
                    r,
                    difference(view.allocated_bytes, view.freed_bytes) as nat,
                    10,
                )
                &&& #[trigger] super::text::says(f, view.num_frees as nat, 10)
                &&& view.report_text(figures, symbols, with_filenames, expand_frames) == first_line(
                    a,
                    figures.allocated_pct@,
                    n,
                ) + second_line(r, f) + third_line(
                    figures.retained_pct_all@,
                    figures.retained_pct_allocs@,
                ) + ("  "@ + view.hist.report_text(figures.avg_secs@) + "\n"@) + (
                crate::callstack::stack_text(
                    view.stack,
                    symbols,
                    with_filenames,
                    true,
                    expand_frames,
                ) + "\n"@)
            },
        forall|s: StackStats, m: &SymbolMap, report: String|
            s@ == view && crate::symbols::symbol_views(m@) == symbols && #[trigger] call_ensures(
                StackStats::report_with_symbols,
                (&s, &figures, m, with_filenames, expand_frames),
                report,
            ) ==> report@ == view.report_text(figures, symbols, with_filenames, expand_frames),
        forall|s: StackStats, p: &mut YingProfiler, tl: &mut YingThreadLocal, report: String|
            s@ == view && (*p)@.state.symbols == symbols && #[trigger] call_ensures(
                StackStats::rich_report,
                (&s, p, tl, with_filenames, expand_frames, &figures),
                report,
            ) ==> report@ == view.report_text(figures, symbols, with_filenames, expand_frames),
{
    let a = crate::text::decimal(view.allocated_bytes as nat);
    let n = crate::text::decimal(view.num_allocations as nat);
    let r = crate::text::decimal(view.retained() as nat);
    let f = crate::text::decimal(view.num_frees as nat);
    super::text::law_numbers_read_back(view.allocated_bytes as nat);
    super::text::law_numbers_read_back(view.num_allocations as nat);
    super::text::law_numbers_read_back(view.retained() as nat);
    super::text::law_numbers_read_back(view.num_frees as nat);
    assert(super::text::says(a, view.allocated_bytes as nat, 10));
    assert(super::text::says(n, view.num_allocations as nat, 10));
    assert(super::text::says(
        r,
        difference(view.allocated_bytes, view.freed_bytes) as nat,
        10,
    ));
    assert(super::text::says(f, view.num_frees as nat, 10));
    assert(view.report_text(figures, symbols, with_filenames, expand_frames) =~= first_line(
        a,
        figures.allocated_pct@,
        n,
    ) + second_line(r, f) + third_line(figures.retained_pct_all@, figures.retained_pct_allocs@) + (
    "  "@ + view.hist.report_text(figures.avg_secs@) + "\n"@) + (crate::callstack::stack_text(
        view.stack,
        symbols,
        with_filenames,
        true,
        expand_frames,
    ) + "\n"@));
}

/// First lines with different numbers of allocations differ, and so do second lines with different
/// numbers of frees.
pub proof fn law_lines_tell_counts_apart(
    bytes: Seq<char>,
    pct: Seq<char>,
    a: Seq<char>,
    b: Seq<char>,
)
    requires
        a != b,
    ensures
        first_line(bytes, pct, a) != first_line(bytes, pct, b),
        second_line(bytes, a) != second_line(bytes, b),
{
    let head = bytes + " profiled bytes allocated ("@ + pct + "%) ("@;
    let head2 = "  "@ + bytes + " profiled bytes retained  ("@;
    let (la, lb) = (first_line(bytes, pct, a), first_line(bytes, pct, b));
    let (sa, sb) = (second_line(bytes, a), second_line(bytes, b));
    assert(la.len() == head.len() + a.len() + " allocations)\n"@.len());
    assert(lb.len() == head.len() + b.len() + " allocations)\n"@.len());
    assert(sa.len() == head2.len() + a.len() + " frees)\n"@.len());
    assert(sb.len() == head2.len() + b.len() + " frees)\n"@.len());
    if la == lb {
        assert(a.len() == b.len());
        assert(la.subrange(head.len() as int, (head.len() + a.len()) as int) =~= a);
        assert(lb.subrange(head.len() as int, (head.len() + b.len()) as int) =~= b);
    }
    if sa == sb {
        assert(a.len() == b.len());
        assert(sa.subrange(head2.len() as int, (head2.len() + a.len()) as int) =~= a);
        assert(sb.subrange(head2.len() as int, (head2.len() + b.len()) as int) =~= b);
    }
}

} // verus!
