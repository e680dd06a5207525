//! What is recorded of each call, and what can be read from it.
use backtrace::Backtrace;
use vstd::prelude::*;

use crate::backtraces::FrameView;
use crate::flamegraph::Drawing;
use crate::profiler::{
    begin_alloc, begin_free, begin_realloc, deny_giant_allocation, recorded_free, recorded_realloc,
    Allocated, ByteCounters, YingProfiler,
};
use crate::ranking::sort_descending;
use crate::stack_stats::{Measurement, ReportFigures, StackStats, StackStatsView};
use crate::state::{denial_headline, StateView, YingState};
use crate::thread_state::{exit_profiler, try_enter_profiler, YingThreadLocal};
use crate::utils::{gen_flamegraph, gen_flamegraph_if_it_fits};

verus! {

/// Whether `after` has one allocation more than `before`, of `size` bytes, and is the same otherwise.
pub open spec fn one_allocation_more(
    before: StackStatsView,
    after: StackStatsView,
    size: u64,
) -> bool {
    &&& after.num_allocations as int == (before.num_allocations + 1) % (u64::MAX + 1)
    &&& after.allocated_bytes as int == (before.allocated_bytes + size) % (u64::MAX + 1)
    &&& after.freed_bytes == before.freed_bytes
    &&& after.num_frees == before.num_frees
    &&& after.hist == before.hist
    &&& after.stack == before.stack
}

/// Whether these are the stats of a stack trace with a single allocation of `size` bytes.
pub open spec fn single_allocation(stats: StackStatsView, stack: Seq<u64>, size: u64) -> bool {
    &&& stats.stack == stack
    &&& stats.num_allocations == 1 && stats.allocated_bytes == size
    &&& stats.num_frees == 0 && stats.freed_bytes == 0
    &&& stats.hist.count == 0 && stats.hist.sum == 0 && stats.hist.counts.len() == 6
    &&& forall|i: int| 0 <= i < 6 ==> #[trigger] stats.hist.counts[i] == 0
}

/// Whether `after` is `before` with an allocation recorded: it is counted with the stack trace that
/// made it and with no other, and its pointer is outstanding since `now`, unless it already was.
pub open spec fn records_alloc(
    before: StateView,
    after: StateView,
    ptr: u64,
    size: u64,
    frames: Seq<FrameView>,
    now: u64,
) -> bool {
    let stack = crate::state::stack_of(frames);
    let hash = crate::callstack::hash_of(stack);
    &&& forall|h: u64| #[trigger]
        after.stats.contains_key(h) <==> before.stats.contains_key(h) || h == hash
    &&& forall|h: u64|
        before.stats.contains_key(h) && h != hash ==> #[trigger] after.stats[h] == before.stats[h]
    &&& before.stats.contains_key(hash) ==> one_allocation_more(
        before.stats[hash],
        after.stats[hash],
        size,
    ) && after.symbols == before.symbols
    &&& !before.stats.contains_key(hash) ==> single_allocation(after.stats[hash], stack, size)
        && after.symbols == crate::callstack::populated(
        before.symbols,
        stack,
        frames,
        crate::callstack::depth_from(stack, 0),
    )
    &&& forall|p: u64| #[trigger]
        after.outstanding.contains_key(p) <==> before.outstanding.contains_key(p) || p == ptr
    &&& forall|p: u64|
        before.outstanding.contains_key(p) ==> #[trigger] after.outstanding[p]
            == before.outstanding[p]
    &&& !before.outstanding.contains_key(ptr) ==> after.outstanding[ptr].0 == hash
        && after.outstanding[ptr].1 == now
}

/// Whether `after` is `before` with a free recorded: nothing has changed if the pointer was not
/// outstanding; if it was, it no longer is, and its stack trace, and no other, has one free more, of
/// an allocation that lived from when it was made until `now`.
pub open spec fn records_free(
    before: StateView,
    after: StateView,
    ptr: u64,
    size: u64,
    now: u64,
) -> bool {
    &&& !before.outstanding.contains_key(ptr) ==> after == before
    &&& before.outstanding.contains_key(ptr) ==> {
        let hash = before.outstanding[ptr].0;
        let start = before.outstanding[ptr].1;
        let lived = if now >= start {
            now - start
        } else {
            0
        };
        let (b, a) = (before.stats[hash], after.stats[hash]);
        &&& after.symbols == before.symbols
        &&& forall|p: u64| #[trigger]
            after.outstanding.contains_key(p) <==> before.outstanding.contains_key(p) && p != ptr
        &&& forall|p: u64|
            after.outstanding.contains_key(p) ==> #[trigger] after.outstanding[p]
                == before.outstanding[p]
        &&& forall|h: u64| #[trigger]
            after.stats.contains_key(h) <==> before.stats.contains_key(h)
        &&& forall|h: u64|
            before.stats.contains_key(h) && h != hash ==> #[trigger] after.stats[h]
                == before.stats[h]
        &&& a.num_frees as int == (b.num_frees + 1) % (u64::MAX + 1)
        &&& a.freed_bytes as int == (b.freed_bytes + size) % (u64::MAX + 1)
        &&& a.hist.count as int == (b.hist.count + 1) % (u64::MAX + 1)
        &&& a.hist.sum as int == (b.hist.sum + lived) % (u64::MAX + 1)
        &&& a.hist == b.hist.with_sample(lived as u64)
        &&& a.num_allocations == b.num_allocations && a.allocated_bytes == b.allocated_bytes
        &&& a.stack == b.stack
    }
}

/// Whether `after` is `before` with a change of size recorded: nothing has changed if the pointer was
/// not outstanding; if it was, the new one stands in its place, since the same time and for the same
/// stack trace, whose bytes allocated, and nothing else of any stack trace, follow the size.
pub open spec fn records_realloc(
    before: StateView,
    after: StateView,
    ptr: u64,
    new_ptr: u64,
    old_size: u64,
    new_size: u64,
) -> bool {
    &&& !before.outstanding.contains_key(ptr) ==> after == before
    &&& before.outstanding.contains_key(ptr) ==> {
        let hash = before.outstanding[ptr].0;
        let (b, a) = (before.stats[hash], after.stats[hash]);
        &&& after.symbols == before.symbols
        &&& forall|p: u64| #[trigger]
            after.outstanding.contains_key(p) <==> p == new_ptr || (before.outstanding.contains_key(
                p,
            ) && p != ptr)
        &&& forall|p: u64|
            before.outstanding.contains_key(p) && p != ptr && p != new_ptr ==> #[trigger]
                after.outstanding[p] == before.outstanding[p]
        &&& after.outstanding[new_ptr] == before.outstanding[ptr]
        &&& forall|h: u64| #[trigger]
            after.stats.contains_key(h) <==> before.stats.contains_key(h)
        &&& forall|h: u64|
            before.stats.contains_key(h) && h != hash ==> #[trigger] after.stats[h]
                == before.stats[h]
        &&& a.allocated_bytes as int == (b.allocated_bytes - old_size + new_size) % (u64::MAX + 1)
        &&& a.num_allocations == b.num_allocations && a.num_frees == b.num_frees
        &&& a.freed_bytes == b.freed_bytes && a.hist == b.hist && a.stack == b.stack
    }
}

proof fn lemma_records(
    s: StateView,
    ptr: u64,
    new_ptr: u64,
    size: u64,
    new_size: u64,
    frames: Seq<FrameView>,
    now: u64,
)
    ensures
        records_alloc(s, s.with_alloc(ptr, size, frames, now), ptr, size, frames, now),
        s.consistent() ==> records_free(s, s.with_free(ptr, size, now), ptr, size, now),
        s.consistent() ==> records_realloc(
            s,
            s.with_realloc(ptr, new_ptr, size, new_size),
            ptr,
            new_ptr,
            size,
            new_size,
        ),
{
}

/// Whether a backtrace is resolved where it has to be: if its stack trace is not known yet and wants
/// symbols that the backtrace does not show.
pub open spec fn resolves(s: StateView, before: Backtrace, after: Backtrace) -> bool {
    let (b, a) = (crate::backtraces::frames_of(before), crate::backtraces::frames_of(after));
    let stack = crate::state::stack_of(b);
    if s.stats.contains_key(crate::callstack::hash_of(stack)) {
        a == b
    } else {
        super::stacks::resolved_for(s.symbols, stack, b, a)
    }
}

/// Whether each frame of a stack trace that is not known yet and wants symbols has been resolved.
pub open spec fn resolved_where_wanted(s: StateView, frames: Seq<FrameView>) -> bool {
    let stack = crate::state::stack_of(frames);
    forall|j: int| #[trigger]
        super::stacks::wants_symbols(s.symbols, stack, j) ==> frames[j + 3].symbols is Some
}

proof fn lemma_resolved_where_wanted(s: StateView, frames: Seq<FrameView>)
    requires
        s.resolved_where_new(frames),
    ensures
        resolved_where_wanted(s, frames),
{
    let stack = crate::state::stack_of(frames);
    assert forall|j: int| #[trigger]
        super::stacks::wants_symbols(s.symbols, stack, j) implies frames[j + 3].symbols is Some by {
        super::stacks::lemma_wants_symbols(s.symbols, stack, j);
    }
}

/// Recording a call leaves what [`records_alloc`], [`records_free`] and [`records_realloc`] say, at the
/// time that is handed in, and reports whether the pointer was outstanding.
pub proof fn law_calls_are_recorded_as_they_were_made(tl: YingThreadLocal)
    ensures
        forall|s: &mut YingState, ptr: u64, size: u64, bt: &mut Backtrace, now: u64| #[trigger]
            call_ensures(YingState::record_alloc, (s, &tl, ptr, size, bt, now), ())
                ==> records_alloc(
                (*s)@,
                final(s)@,
                ptr,
                size,
                crate::backtraces::frames_of(*final(bt)),
                now,
            ) && resolves((*s)@, *bt, *final(bt)),
        forall|s: &mut YingState, ptr: u64, size: u64, now: u64, sampled: bool|
            (*s).wf() && #[trigger] call_ensures(
                YingState::record_free,
                (s, &tl, ptr, size, now),
                sampled,
            ) ==> records_free((*s)@, final(s)@, ptr, size, now) && sampled
                == (*s)@.outstanding.contains_key(ptr),
        forall|
            s: &mut YingState,
            ptr: u64,
            new_ptr: u64,
            old_size: u64,
            new_size: u64,
            sampled: bool,
        |
            (*s).wf() && #[trigger] call_ensures(
                YingState::record_realloc,
                (s, &tl, ptr, new_ptr, old_size, new_size),
                sampled,
            ) ==> records_realloc((*s)@, final(s)@, ptr, new_ptr, old_size, new_size) && sampled
                == (*s)@.outstanding.contains_key(ptr),
{
    assert forall|
        s: StateView,
        ptr: u64,
        size: u64,
        frames: Seq<FrameView>,
        now: u64,
    | records_alloc(s, #[trigger] s.with_alloc(ptr, size, frames, now), ptr, size, frames, now) by {
        lemma_records(s, ptr, 0, size, 0, frames, now);
    }
    assert forall|s: &mut YingState, ptr: u64, size: u64, bt: &mut Backtrace, now: u64| #[trigger]
        call_ensures(YingState::record_alloc, (s, &tl, ptr, size, bt, now), ()) implies resolves(
        (*s)@,
        *bt,
        *final(bt),
    ) by {
        let frames = crate::backtraces::frames_of(*bt);
        if !(*s)@.knows_stack(frames) {
            super::stacks::lemma_resolved_for(
                (*s)@.symbols,
                crate::state::stack_of(frames),
                frames,
                crate::backtraces::frames_of(*final(bt)),
            );
        }
    }
    assert forall|s: StateView, ptr: u64, size: u64, now: u64|
        s.consistent() implies records_free(
        s,
        #[trigger] s.with_free(ptr, size, now),
        ptr,
        size,
        now,
    ) by {
        lemma_records(s, ptr, 0, size, 0, Seq::empty(), now);
    }
    assert forall|s: StateView, ptr: u64, new_ptr: u64, old_size: u64, new_size: u64|
        s.consistent() implies records_realloc(
        s,
        #[trigger] s.with_realloc(ptr, new_ptr, old_size, new_size),
        ptr,
        new_ptr,
        old_size,
        new_size,
    ) by {
        lemma_records(s, ptr, new_ptr, old_size, new_size, Seq::empty(), 0);
    }
}

/// An allocation that is profiled is outstanding since a reading of the clock, as it was read, and a
/// free that is profiled ends at one: how long an allocation lived is the one less the other.
pub proof fn law_lifetimes_are_differences_of_clock_readings(
    tl: YingThreadLocal,
    ptr: u64,
    size: u64,
    freed_size: u64,
)
    ensures
        forall|s: &mut YingState| #[trigger]
            call_ensures(YingState::profile_alloc, (s, &tl, ptr, size), ()) ==> exists|
                frames: Seq<FrameView>,
                now: u64,
            | #[trigger]
                records_alloc((*s)@, final(s)@, ptr, size, frames, now)
                    && crate::state::is_clock_reading(now) && ((*s)@.stats.contains_key(
                    crate::callstack::hash_of(crate::state::stack_of(frames)),
                ) || resolved_where_wanted((*s)@, frames)),
        forall|s: &mut YingState, sampled: bool|
            (*s).wf() && #[trigger] call_ensures(
                YingState::profile_free,
                (s, &tl, ptr, size),
                sampled,
            ) ==> (sampled == (*s)@.outstanding.contains_key(ptr) && exists|now: u64| #[trigger]
                records_free((*s)@, final(s)@, ptr, size, now) && crate::state::is_clock_reading(
                    now,
                )),
        forall|s: &mut YingState, t: &mut YingState, sampled: bool|
            {
                &&& !(*s)@.outstanding.contains_key(ptr)
                &&& #[trigger] call_ensures(YingState::profile_alloc, (s, &tl, ptr, size), ())
                &&& *t == *final(s)
                &&& #[trigger] call_ensures(
                    YingState::profile_free,
                    (t, &tl, ptr, freed_size),
                    sampled,
                )
            } ==> exists|start: u64, end: u64|
                {
                    let hash = final(s)@.outstanding[ptr].0;
                    let lived = if end >= start {
                        end - start
                    } else {
                        0
                    };
                    &&& #[trigger] crate::state::is_clock_reading(start)
                    &&& #[trigger] crate::state::is_clock_reading(end)
                    &&& final(s)@.outstanding[ptr].1 == start
                    &&& sampled
                    &&& final(t)@.stats[hash].hist.sum as int == (final(s)@.stats[hash].hist.sum
                        + lived) % (u64::MAX + 1)
                    &&& final(t)@.stats[hash].hist == final(s)@.stats[hash].hist.with_sample(
                        lived as u64,
                    )
                },
{
    assert forall|s: &mut YingState| #[trigger]
        call_ensures(YingState::profile_alloc, (s, &tl, ptr, size), ()) implies exists|
        frames: Seq<FrameView>,
        now: u64,
    | #[trigger]
        records_alloc((*s)@, final(s)@, ptr, size, frames, now) && crate::state::is_clock_reading(
            now,
        ) && ((*s)@.stats.contains_key(
            crate::callstack::hash_of(crate::state::stack_of(frames)),
        ) || resolved_where_wanted((*s)@, frames)) by {
        let (frames, now) = choose|frames: Seq<FrameView>, now: u64| #[trigger]
            (*s)@.with_alloc(ptr, size, frames, now) == final(s)@ && crate::state::is_clock_reading(
                now,
            ) && (!(*s)@.knows_stack(frames) ==> (*s)@.resolved_where_new(frames));
        if !(*s)@.knows_stack(frames) {
            lemma_resolved_where_wanted((*s)@, frames);
        }
        lemma_records((*s)@, ptr, 0, size, 0, frames, now);
        assert(records_alloc((*s)@, final(s)@, ptr, size, frames, now));
    }
    assert forall|f: u64, s: &mut YingState, sampled: bool|
        (*s).wf() && #[trigger] call_ensures(
            YingState::profile_free,
            (s, &tl, ptr, f),
            sampled,
        ) implies (sampled == (*s)@.outstanding.contains_key(ptr) && exists|now: u64| #[trigger]
        records_free((*s)@, final(s)@, ptr, f, now) && crate::state::is_clock_reading(now)) by {
        let now = choose|now: u64| #[trigger]
            (*s)@.with_free(ptr, f, now) == final(s)@ && crate::state::is_clock_reading(now);
        lemma_records((*s)@, ptr, 0, f, 0, Seq::empty(), now);
        assert(records_free((*s)@, final(s)@, ptr, f, now));
    }
}

/// Every way of reading the state shows what is recorded, and to reset it forgets the stats and the
/// outstanding allocations, but no symbols.
pub proof fn law_readers_show_what_is_recorded(tl: YingThreadLocal)
    ensures
        forall|s: YingState, n: usize| #[trigger]
            call_ensures(YingState::num_outstanding_allocs, (&s, &tl), n) ==> n == s@.outstanding.len() || (n
                == usize::MAX && s@.outstanding.len() > n),
        forall|s: YingState, n: usize| #[trigger]
            call_ensures(YingState::num_stack_traces, (&s, &tl), n) ==> n == s@.stats.len() || (n
                == usize::MAX && s@.stats.len() > n),
        forall|s: YingState, n: usize| #[trigger]
            call_ensures(YingState::symbol_map_size, (&s, &tl), n) ==> n == s@.symbols.len() || (n
                == usize::MAX && s@.symbols.len() > n),
        forall|s: YingState, ptr: u64, r: bool| #[trigger]
            call_ensures(YingState::is_outstanding, (&s, &tl, ptr), r) ==> r
                == s@.outstanding.contains_key(ptr),
        forall|s: YingState, hash: u64, r: Option<StackStats>| #[trigger]
            call_ensures(YingState::get_stats_for_stack_hash, (&s, &tl, hash), r) ==> {
                &&& r is Some <==> s@.stats.contains_key(hash)
                &&& r is Some ==> r->0@ == s@.stats[hash]
            },
        forall|s: &mut YingState| #[trigger]
            call_ensures(YingState::reset, (s, &tl), ()) ==> {
                &&& final(s)@.stats == Map::<u64, StackStatsView>::empty()
                &&& final(s)@.outstanding == Map::<u64, (u64, u64)>::empty()
                &&& final(s)@.symbols == (*s)@.symbols
            },
{
}

/// Every way of reading the profiler shows what its state holds and leaves it as it is, with a state
/// to record in; to reset it forgets the stats and the outstanding allocations, and nothing else.
pub proof fn law_profilers_show_what_is_recorded()
    ensures
        forall|p: &mut YingProfiler, t: &mut YingThreadLocal, n: usize| #[trigger]
            call_ensures(YingProfiler::num_outstanding_allocs, (p, t), n) ==> {
                &&& n == (*p)@.state.outstanding.len() || (n == usize::MAX
                    && (*p)@.state.outstanding.len() > n)
                &&& final(p)@.state == (*p)@.state && final(p)@.counters == (*p)@.counters
            },
        forall|p: &mut YingProfiler, t: &mut YingThreadLocal, n: usize| #[trigger]
            call_ensures(YingProfiler::num_stack_traces, (p, t), n) ==> {
                &&& n == (*p)@.state.stats.len() || (n == usize::MAX && (*p)@.state.stats.len() > n)
                &&& final(p)@.state == (*p)@.state && final(p)@.counters == (*p)@.counters
            },
        forall|p: &mut YingProfiler, t: &mut YingThreadLocal, n: usize| #[trigger]
            call_ensures(YingProfiler::symbol_map_size, (p, t), n) ==> {
                &&& n == (*p)@.state.symbols.len() || (n == usize::MAX && (*p)@.state.symbols.len()
                    > n)
                &&& final(p)@.state == (*p)@.state && final(p)@.counters == (*p)@.counters
            },
        forall|p: &mut YingProfiler, t: &mut YingThreadLocal| #[trigger]
            call_ensures(YingProfiler::reset_state_for_testing_only, (p, t), ()) ==> {
                &&& final(p)@.initialized
                &&& final(p)@.state.stats == Map::<u64, StackStatsView>::empty()
                &&& final(p)@.state.outstanding == Map::<u64, (u64, u64)>::empty()
                &&& final(p)@.state.symbols == (*p)@.state.symbols
                &&& final(p)@.counters == (*p)@.counters
                &&& final(p).ratio() == (*p).ratio() && final(p).limit() == (*p).limit()
            },
        forall|p: &mut YingProfiler, t: &mut YingThreadLocal, r: &YingState| #[trigger]
            call_ensures(YingProfiler::get_state, (p, t), r) ==> {
                &&& r@ == (*p)@.state
                &&& final(p)@.initialized && final(p)@.state == (*p)@.state
                &&& final(p)@.counters == (*p)@.counters
            },
{
}

/// Whoever reads the profiler is inside it meanwhile, and leaves the thread as it was.
pub proof fn law_readers_leave_the_thread_as_it_was()
    ensures
        forall|p: &mut YingProfiler, t: &mut YingThreadLocal, n: usize|
            (*t).alloc_lock < u32::MAX && #[trigger] call_ensures(
                YingProfiler::symbol_map_size,
                (p, t),
                n,
            ) ==> *final(t) == *t,
        forall|p: &mut YingProfiler, t: &mut YingThreadLocal, n: usize|
            (*t).alloc_lock < u32::MAX && #[trigger] call_ensures(
                YingProfiler::num_outstanding_allocs,
                (p, t),
                n,
            ) ==> *final(t) == *t,
        forall|p: &mut YingProfiler, t: &mut YingThreadLocal, n: usize|
            (*t).alloc_lock < u32::MAX && #[trigger] call_ensures(
                YingProfiler::num_stack_traces,
                (p, t),
                n,
            ) ==> *final(t) == *t,
        forall|p: &mut YingProfiler, t: &mut YingThreadLocal, k: usize, r: Vec<StackStats>|
            (*t).alloc_lock < u32::MAX && #[trigger] call_ensures(
                YingProfiler::top_k_stacks_by_allocated,
                (p, t, k),
                r,
            ) ==> *final(t) == *t,
        forall|p: &mut YingProfiler, t: &mut YingThreadLocal, k: usize, r: Vec<StackStats>|
            (*t).alloc_lock < u32::MAX && #[trigger] call_ensures(
                YingProfiler::top_k_stacks_by_retained,
                (p, t, k),
                r,
            ) ==> *final(t) == *t,
        forall|p: &mut YingProfiler, t: &mut YingThreadLocal, r: ()|
            (*t).alloc_lock < u32::MAX && #[trigger] call_ensures(
                YingProfiler::reset_state_for_testing_only,
                (p, t),
                r,
            ) ==> *final(t) == *t,
        forall|p: &mut YingProfiler, t: &mut YingThreadLocal, r: &YingState|
            (*t).alloc_lock < u32::MAX && #[trigger] call_ensures(
                YingProfiler::get_state,
                (p, t),
                r,
            ) ==> *final(t) == *t,
        forall|p: &mut YingProfiler, t: &mut YingThreadLocal, ptr: u64, size: usize, r: Allocated|
            (*t).alloc_lock < u32::MAX && #[trigger] call_ensures(
                YingProfiler::check_and_deny_giant_allocations,
                (p, t, ptr, size),
                r,
            ) ==> *final(t) == *t,
        forall|p: &mut YingProfiler, t: &mut YingThreadLocal, m: Measurement, r: Drawing|
            (*t).alloc_lock < u32::MAX && #[trigger] call_ensures(
                gen_flamegraph,
                (p, t, m),
                r,
            ) ==> *final(t) == *t,
        forall|p: &mut YingProfiler, t: &mut YingThreadLocal, m: Measurement, r: Option<Drawing>|
            (*t).alloc_lock < u32::MAX && #[trigger] call_ensures(
                gen_flamegraph_if_it_fits,
                (p, t, m),
                r,
            ) ==> *final(t) == *t,
        forall|p: &mut YingProfiler, t: &mut YingThreadLocal, s: StackStats, m: Measurement, r: String|
            (*t).alloc_lock < u32::MAX && #[trigger] call_ensures(
                StackStats::dtrace_report,
                (&s, p, t, m),
                r,
            ) ==> *final(t) == *t,
        forall|p: &mut YingProfiler, t: &mut YingThreadLocal, s: StackStats, a: bool, b: bool, f: ReportFigures, r: String|
            (*t).alloc_lock < u32::MAX && #[trigger] call_ensures(
                StackStats::rich_report,
                (&s, p, t, a, b, &f),
                r,
            ) ==> *final(t) == *t,
{
}

/// The list of stack traces has each of them once, with its bytes, from most to least.
pub proof fn law_lists_are_in_descending_order(tl: YingThreadLocal, measurement: Measurement)
    ensures
        forall|s: YingState, items: Vec<(u64, u64)>| #[trigger]
            call_ensures(YingState::stack_list_desc, (&s, &tl, measurement), items) ==> {
                &&& forall|i: int, j: int|
                    0 <= i <= j < items@.len() ==> (#[trigger] items@[i]).1 >= (#[trigger] items@[j]).1
                &&& forall|i: int, j: int|
                    0 <= i < j < items@.len() ==> (#[trigger] items@[i]).0 != (#[trigger] items@[j]).0
                &&& forall|h: u64| #[trigger]
                    s@.stats.contains_key(h) <==> exists|i: int|
                        0 <= i < items@.len() && (#[trigger] items@[i]).0 == h
                &&& forall|i: int|
                    0 <= i < items@.len() ==> (#[trigger] items@[i]).1 == bytes_of(
                        s@.stats[items@[i].0],
                        measurement,
                    )
            },
        forall|items: Vec<(u64, u64)>, r: Vec<(u64, u64)>| #[trigger]
            call_ensures(sort_descending, (items,), r) ==> {
                &&& r@.to_multiset() == items@.to_multiset()
                &&& forall|i: int, j: int|
                    0 <= i <= j < r@.len() ==> (#[trigger] r@[i]).1 >= (#[trigger] r@[j]).1
            },
{
    assert forall|s: YingState, items: Vec<(u64, u64)>| #[trigger]
        call_ensures(YingState::stack_list_desc, (&s, &tl, measurement), items) implies ({
        &&& forall|h: u64| #[trigger]
            s@.stats.contains_key(h) <==> exists|i: int|
                0 <= i < items@.len() && (#[trigger] items@[i]).0 == h
        &&& forall|i: int|
            0 <= i < items@.len() ==> (#[trigger] items@[i]).1 == bytes_of(
                s@.stats[items@[i].0],
                measurement,
            )
    }) by {
        assert forall|i: int| 0 <= i < items@.len() implies (#[trigger] items@[i]).1 == bytes_of(
            s@.stats[items@[i].0],
            measurement,
        ) by {
            super::stats::law_ranked_by_what_is_measured(s@.stats[items@[i].0]);
        }
        assert forall|h: u64| #[trigger] s@.stats.contains_key(h) implies exists|i: int|
            0 <= i < items@.len() && (#[trigger] items@[i]).0 == h by {
            let item = (h, s@.stats[h].measured(measurement));
            assert(items@.contains(item));
            let i = choose|i: int| 0 <= i < items@.len() && items@[i] == item;
            assert(items@[i].0 == h);
        }
    }
}

/// The bytes that are measured: those allocated, or those allocated and not freed.
pub open spec fn bytes_of(stats: StackStatsView, measurement: Measurement) -> int {
    match measurement {
        Measurement::AllocatedBytes => stats.allocated_bytes as int,
        Measurement::RetainedBytes => super::stats::difference(
            stats.allocated_bytes,
            stats.freed_bytes,
        ),
    }
}

/// Whether `r` are stack traces with the most bytes, from most to least: as many as were asked for or
/// all, each one that is recorded and none twice, and none that is missing has more bytes than one
/// that is there.
pub open spec fn are_the_top(
    stats: Map<u64, StackStatsView>,
    measurement: Measurement,
    k: usize,
    r: Seq<StackStats>,
) -> bool {
    &&& r.len() == k || (r.len() < k && r.len() == stats.len())
    &&& forall|i: int, j: int|
        0 <= i <= j < r.len() ==> bytes_of((#[trigger] r[i])@, measurement) >= bytes_of(
            (#[trigger] r[j])@,
            measurement,
        )
    &&& exists|hashes: Seq<u64>|
        {
            &&& hashes.len() == r.len()
            &&& #[trigger] hashes.no_duplicates()
            &&& forall|i: int|
                0 <= i < r.len() ==> stats.contains_key(#[trigger] hashes[i]) && r[i]@
                    == stats[hashes[i]]
            &&& forall|h: u64, i: int|
                #![trigger stats.contains_key(h), r[i]]
                stats.contains_key(h) && !hashes.contains(h) && 0 <= i < r.len() ==> bytes_of(
                    stats[h],
                    measurement,
                ) <= bytes_of(r[i]@, measurement)
        }
}

/// The top stack traces are those with the most bytes allocated, or allocated less freed, as was asked
/// for.
pub proof fn law_top_stack_traces_have_the_most_bytes(tl: YingThreadLocal)
    ensures
        forall|s: YingState, measurement: Measurement, k: usize, r: Vec<StackStats>| #[trigger]
            call_ensures(YingState::top_k_stacks, (&s, &tl, measurement, k), r) ==> are_the_top(
                s@.stats,
                measurement,
                k,
                r@,
            ),
        forall|p: &mut YingProfiler, t: &mut YingThreadLocal, k: usize, r: Vec<StackStats>| #[trigger]
            call_ensures(YingProfiler::top_k_stacks_by_retained, (p, t, k), r) ==> are_the_top(
                (*p)@.state.stats,
                Measurement::RetainedBytes,
                k,
                r@,
            ) && final(p)@.state == (*p)@.state && final(p)@.counters == (*p)@.counters,
        forall|p: &mut YingProfiler, t: &mut YingThreadLocal, k: usize, r: Vec<StackStats>| #[trigger]
            call_ensures(YingProfiler::top_k_stacks_by_allocated, (p, t, k), r) ==> are_the_top(
                (*p)@.state.stats,
                Measurement::AllocatedBytes,
                k,
                r@,
            ) && final(p)@.state == (*p)@.state && final(p)@.counters == (*p)@.counters,
        forall|stats: Map<u64, StackStatsView>, measurement: Measurement, k: usize, r: Seq<StackStats>|
            #[trigger]
            crate::state::are_top_k(stats, measurement, k as nat, r) ==> are_the_top(
                stats,
                measurement,
                k,
                r,
            ),
{
    assert forall|
        stats: Map<u64, StackStatsView>,
        measurement: Measurement,
        k: usize,
        r: Seq<StackStats>,
    | #[trigger] crate::state::are_top_k(stats, measurement, k as nat, r) implies are_the_top(
        stats,
        measurement,
        k,
        r,
    ) by {
        let hashes = choose|hashes: Seq<u64>| #[trigger]
            crate::ranking::is_top_k(stats, measurement, k as nat, hashes) && hashes.len()
                == r.len() && forall|i: int|
                0 <= i < r.len() ==> (#[trigger] r[i])@ == stats[hashes[i]];
        assert forall|v: StackStatsView| #[trigger] v.measured(measurement) == bytes_of(
            v,
            measurement,
        ) by {
            super::stats::law_ranked_by_what_is_measured(v);
        }
        assert forall|i: int, j: int| 0 <= i <= j < r.len() implies bytes_of(
            (#[trigger] r[i])@,
            measurement,
        ) >= bytes_of((#[trigger] r[j])@, measurement) by {
            assert(stats[hashes[i]].measured(measurement) >= stats[hashes[j]].measured(measurement));
        }
        assert(hashes.no_duplicates());
        assert forall|i: int| 0 <= i < r.len() implies stats.contains_key(#[trigger] hashes[i])
            && r[i]@ == stats[hashes[i]] by {
            assert(r[i]@ == stats[hashes[i]]);
        }
        assert forall|h: u64, i: int|
            #![trigger stats.contains_key(h), r[i]]
            stats.contains_key(h) && !hashes.contains(h) && 0 <= i < r.len() implies bytes_of(
            stats[h],
            measurement,
        ) <= bytes_of(r[i]@, measurement) by {
            assert(stats[h].measured(measurement) <= stats[hashes[i]].measured(measurement));
            assert(r[i]@ == stats[hashes[i]]);
        }
    }
}

/// An allocation is denied exactly if the profiler is initialized and the request is greater than the
/// limit: the limit itself is still granted, the next size is not, and neither is any greater one.
pub proof fn law_denied_beyond_the_limit(limit: u64, size: usize)
    ensures
        forall|r: bool| #[trigger]
            call_ensures(deny_giant_allocation, (size, limit, false), r) ==> !r,
        forall|r: bool| #[trigger]
            call_ensures(deny_giant_allocation, (size, limit, true), r) ==> (r <==> size - limit >= 1),
        !crate::profiler::denied(size, limit, false),
        crate::profiler::denied(size, limit, true) <==> size - limit >= 1,
{
}

/// Whether `after` is `before` with nothing but the symbols of the stack trace added that asked for
/// `size` bytes, and `warning` says that they were denied: first how many, in decimal, and then the
/// stack trace, with its files and with everything inlined.
pub open spec fn tells_of_denial(
    before: StateView,
    after: StateView,
    size: u64,
    frames: Seq<FrameView>,
    warning: Seq<char>,
) -> bool {
    let stack = crate::state::stack_of(frames);
    &&& after.stats == before.stats
    &&& after.outstanding == before.outstanding
    &&& after.symbols == crate::callstack::populated(
        before.symbols,
        stack,
        frames,
        crate::callstack::depth_from(stack, 0),
    )
    &&& exists|n: Seq<char>| #[trigger]
        super::text::says(n, size as nat, 10) && warning == "WARNING: Huge memory allocation of "@
            + n + " bytes denied by Ying profiler\n"@ + "Stack trace:\n"@
            + crate::callstack::stack_text(stack, after.symbols, true, true, true) + "\n"@
}

proof fn lemma_tells_of_denial(s: StateView, size: u64, frames: Seq<FrameView>)
    ensures
        tells_of_denial(
            s,
            s.with_denial(frames),
            size,
            frames,
            crate::state::denial_text(size, frames, s.with_denial(frames).symbols),
        ),
{
    super::text::law_numbers_read_back(size as nat);
    assert(super::text::says(crate::text::decimal(size as nat), size as nat, 10));
}

/// The warning about a denied allocation names its size in decimal, and then shows the stack trace.
pub proof fn law_denials_name_the_size(size: u64, tl: YingThreadLocal)
    ensures
        forall|r: String| #[trigger]
            call_ensures(denial_headline, (size,), r) ==> exists|n: Seq<char>| #[trigger]
                super::text::says(n, size as nat, 10) && r@
                    == "WARNING: Huge memory allocation of "@ + n
                    + " bytes denied by Ying profiler\n"@,
        forall|s: &mut YingState, bt: &mut Backtrace, r: String| #[trigger]
            call_ensures(YingState::denial_report, (s, &tl, size, bt), r) ==> tells_of_denial(
                (*s)@,
                final(s)@,
                size,
                crate::backtraces::frames_of(*final(bt)),
                r@,
            ) && super::stacks::resolved_for(
                (*s)@.symbols,
                crate::state::stack_of(crate::backtraces::frames_of(*bt)),
                crate::backtraces::frames_of(*bt),
                crate::backtraces::frames_of(*final(bt)),
            ),
        forall|s: &mut YingState, r: String| #[trigger]
            call_ensures(YingState::report_denial, (s, &tl, size), r) ==> exists|
                frames: Seq<FrameView>,
            | #[trigger] tells_of_denial((*s)@, final(s)@, size, frames, r@),
{
    super::text::law_numbers_read_back(size as nat);
    assert(super::text::says(crate::text::decimal(size as nat), size as nat, 10));
    assert forall|s: &mut YingState, bt: &mut Backtrace, r: String| #[trigger]
        call_ensures(YingState::denial_report, (s, &tl, size, bt), r) implies tells_of_denial(
        (*s)@,
        final(s)@,
        size,
        crate::backtraces::frames_of(*final(bt)),
        r@,
    ) && super::stacks::resolved_for(
        (*s)@.symbols,
        crate::state::stack_of(crate::backtraces::frames_of(*bt)),
        crate::backtraces::frames_of(*bt),
        crate::backtraces::frames_of(*final(bt)),
    ) by {
        super::stacks::lemma_resolved_for(
            (*s)@.symbols,
            crate::state::stack_of(crate::backtraces::frames_of(*bt)),
            crate::backtraces::frames_of(*bt),
            crate::backtraces::frames_of(*final(bt)),
        );
        lemma_tells_of_denial((*s)@, size, crate::backtraces::frames_of(*final(bt)));
    }
    assert forall|s: &mut YingState, r: String| #[trigger]
        call_ensures(YingState::report_denial, (s, &tl, size), r) implies exists|
        frames: Seq<FrameView>,
    | #[trigger] tells_of_denial((*s)@, final(s)@, size, frames, r@) by {
        let frames = choose|frames: Seq<FrameView>|
            {
                &&& final(s)@ == #[trigger] (*s)@.with_denial(frames)
                &&& r@ == crate::state::denial_text(size, frames, final(s)@.symbols)
            };
        lemma_tells_of_denial((*s)@, size, frames);
    }
}

/// Checking an allocation hands the pointer back and leaves everything as it is, unless the profiler
/// is initialized and the request is beyond the limit: then there is no pointer, and a warning tells
/// of it.
pub proof fn law_giant_allocations_are_denied(ptr: u64, size: usize)
    ensures
        forall|p: &mut YingProfiler, tl: &mut YingThreadLocal, r: Allocated| #[trigger]
            call_ensures(
                YingProfiler::check_and_deny_giant_allocations,
                (p, tl, ptr, size),
                r,
            ) ==> {
                let denied = (*p)@.initialized && size > (*p).limit();
                &&& !denied ==> r.ptr == ptr && r.warning is None && final(p)@ == (*p)@
                    && *final(tl) == *tl
                &&& denied ==> r.ptr == 0 && r.warning is Some && final(p)@.initialized && final(p)@.counters == (*p)@.counters && exists|frames: Seq<FrameView>| #[trigger]
                    tells_of_denial(
                        (*p)@.state,
                        final(p)@.state,
                        size as u64,
                        frames,
                        r.warning->0@,
                    )
            },
{
    assert forall|p: &mut YingProfiler, tl: &mut YingThreadLocal, r: Allocated| #[trigger]
        call_ensures(
            YingProfiler::check_and_deny_giant_allocations,
            (p, tl, ptr, size),
            r,
        ) && (*p)@.initialized && size > (*p).limit() implies r.warning is Some && exists|
        frames: Seq<FrameView>,
    | #[trigger]
        tells_of_denial(
            (*p)@.state,
            final(p)@.state,
            size as u64,
            frames,
            r.warning->0@,
        ) by {
        lemma_denial_is_told((*p)@, final(p)@, size, r);
    }
}

proof fn lemma_denial_is_told(
    before: crate::profiler::ProfilerView,
    after: crate::profiler::ProfilerView,
    size: usize,
    r: Allocated,
)
    requires
        crate::profiler::is_denial(before, after, size, r),
    ensures
        r.ptr == 0,
        r.warning is Some,
        exists|frames: Seq<FrameView>| #[trigger]
            tells_of_denial(before.state, after.state, size as u64, frames, r.warning->0@),
{
    let frames = choose|frames: Seq<FrameView>|
        {
            &&& after == #[trigger] before.after_denial(frames)
            &&& r.warning matches Some(warning) && warning@ == crate::state::denial_text(
                size as u64,
                frames,
                after.state.symbols,
            )
        };
    lemma_tells_of_denial(before.state, size as u64, frames);
}

/// A thread enters the profiler exactly if it is outside and, where the call is sampled, its counter
/// is a multiple of the ratio.  Outside, each sampled call counts one up.  Entering locks the thread
/// once, leaving unlocks it once.
pub proof fn law_threads_enter_one_call_in_ratio(ratio: u32)
    requires
        ratio > 0,
    ensures
        forall|tl: &mut YingThreadLocal, entered: bool|
            (*tl).alloc_lock > 0 && #[trigger] call_ensures(
                try_enter_profiler,
                (tl, Some(ratio)),
                entered,
            ) ==> !entered && *final(tl) == *tl,
        forall|tl: &mut YingThreadLocal, entered: bool|
            (*tl).alloc_lock == 0 && #[trigger] call_ensures(
                try_enter_profiler,
                (tl, Some(ratio)),
                entered,
            ) ==> {
                &&& entered <==> (*tl).sample_count as int % ratio as int == 0
                &&& final(tl).sample_count as int == ((*tl).sample_count + 1) % (u32::MAX + 1)
                &&& final(tl).alloc_lock == if entered {
                    1int
                } else {
                    0int
                }
            },
        forall|tl: &mut YingThreadLocal, entered: bool| #[trigger]
            call_ensures(try_enter_profiler, (tl, None::<u32>), entered) ==> {
                &&& entered <==> (*tl).alloc_lock == 0
                &&& final(tl).sample_count == (*tl).sample_count
                &&& entered ==> final(tl).alloc_lock == 1
                &&& !entered ==> final(tl).alloc_lock == (*tl).alloc_lock
            },
        forall|tl: &mut YingThreadLocal| #[trigger]
            call_ensures(exit_profiler, (tl,), ()) ==> {
                &&& final(tl).sample_count == (*tl).sample_count
                &&& (*tl).alloc_lock > 0 ==> final(tl).alloc_lock == (*tl).alloc_lock - 1
                &&& (*tl).alloc_lock == 0 ==> final(tl).alloc_lock == 0
            },
        forall|tl: &mut YingThreadLocal| #[trigger]
            call_ensures(YingThreadLocal::release_allocator_lock, (tl,), ()) ==> {
                &&& final(tl).sample_count == (*tl).sample_count
                &&& (*tl).alloc_lock > 0 ==> final(tl).alloc_lock == (*tl).alloc_lock - 1
                &&& (*tl).alloc_lock == 0 ==> final(tl).alloc_lock == 0
            },
        forall|tl: &mut YingThreadLocal| #[trigger]
            call_ensures(YingThreadLocal::set_allocator_lock, (tl,), ()) ==> {
                &&& final(tl).sample_count == (*tl).sample_count
                &&& (*tl).alloc_lock < u32::MAX ==> final(tl).alloc_lock == (*tl).alloc_lock + 1
                &&& (*tl).alloc_lock == u32::MAX ==> final(tl).alloc_lock == u32::MAX
            },
        forall|tl: &mut YingThreadLocal, sampled: bool| #[trigger]
            call_ensures(YingThreadLocal::should_sample, (tl, ratio), sampled) ==> {
                &&& sampled <==> (*tl).sample_count as int % ratio as int == 0
                &&& final(tl).sample_count as int == ((*tl).sample_count + 1) % (u32::MAX + 1)
                &&& final(tl).alloc_lock == (*tl).alloc_lock
            },
        forall|tl: &mut YingThreadLocal| #[trigger]
            call_ensures(YingThreadLocal::test_only_reset_sampling_counter, (tl,), ()) ==> final(tl).sample_count == 0 && final(tl).alloc_lock == (*tl).alloc_lock,
        forall|p: YingProfiler, tl: &mut YingThreadLocal| #[trigger]
            call_ensures(YingProfiler::testing_only_guarantee_next_sample, (&p, tl), ()) ==> final(tl).sample_count == 0 && final(tl).alloc_lock == (*tl).alloc_lock,
        forall|tl: YingThreadLocal, r: bool| #[trigger]
            call_ensures(YingThreadLocal::is_allocator_locked, (&tl,), r) ==> (r <==> tl.alloc_lock
                != 0),
        forall|tl: YingThreadLocal| #[trigger]
            call_ensures(YingThreadLocal::new, (), tl) ==> tl.alloc_lock == 0 && tl.sample_count
                == 0,
{
}

/// Whether a counter shows this number, or the number a whole turn of its range up or down.
pub open spec fn wraps_to(number: int, counter: usize) -> bool {
    ||| counter == number
    ||| counter == number + usize::MAX + 1
    ||| counter == number - usize::MAX - 1
}

/// Whether the counters have changed by these amounts, each up to a whole turn of its range.
pub open spec fn moved(
    before: ByteCounters,
    after: ByteCounters,
    total: int,
    allocated: int,
    retained: int,
) -> bool {
    &&& wraps_to(before.total_retained + total, after.total_retained)
    &&& wraps_to(before.profiled_allocated + allocated, after.profiled_allocated)
    &&& wraps_to(before.profiled_retained + retained, after.profiled_retained)
}

proof fn lemma_moved(c: ByteCounters, size: usize, new_size: usize)
    ensures
        moved(c, c.changed(ByteCounters::of_alloc(size, true)), size as int, size as int, size as int),
        moved(c, c.changed(ByteCounters::of_alloc(size, false)), size as int, 0, 0),
        ({
            let freed = c.changed(ByteCounters::of_free(size));
            let (sampled, not) = (
                ByteCounters::of_recorded_free(size, true),
                ByteCounters::of_recorded_free(size, false),
            );
            &&& moved(c, freed, -size, 0, 0)
            &&& moved(c, freed.changed(sampled), -size, 0, -size)
            &&& moved(c, freed.changed(not), -size, 0, 0)
        }),
        ({
            let resized = c.changed(ByteCounters::of_realloc(size, new_size));
            let growth = new_size - size;
            let (sampled, not) = (
                ByteCounters::of_recorded_realloc(size, new_size, true),
                ByteCounters::of_recorded_realloc(size, new_size, false),
            );
            &&& moved(c, resized, growth, 0, 0)
            &&& moved(c, resized.changed(sampled), growth, 0, growth)
            &&& moved(c, resized.changed(not), growth, 0, 0)
        }),
{
}

/// Every allocation that succeeds adds its size to the total of retained bytes, and a sampled one also
/// to the profiled counters.
pub proof fn law_allocations_are_counted(ptr: u64, size: usize)
    requires
        ptr != 0,
    ensures
        forall|p: &mut YingProfiler, tl: &mut YingThreadLocal, r: Allocated|
            #[trigger] call_ensures(YingProfiler::on_alloc, (p, tl, ptr, size), r) && (size <= (
            *p).limit() || !(*p)@.initialized) ==> {
                let sampled = (*tl).alloc_lock == 0 && (*tl).sample_count as int % (*p).ratio() as int
                    == 0;
                &&& r.ptr == ptr && r.warning is None
                &&& final(p).ratio() == (*p).ratio() && final(p).limit() == (*p).limit()
                &&& final(p)@.initialized == ((*p)@.initialized || sampled)
                &&& final(tl).alloc_lock == (*tl).alloc_lock
                &&& (*tl).alloc_lock > 0 ==> final(tl).sample_count == (*tl).sample_count
                &&& (*tl).alloc_lock == 0 ==> final(tl).sample_count as int == ((*tl).sample_count
                    + 1) % (u32::MAX + 1)
                &&& sampled ==> moved(
                    (*p)@.counters,
                    final(p)@.counters,
                    size as int,
                    size as int,
                    size as int,
                )
                &&& !sampled ==> moved((*p)@.counters, final(p)@.counters, size as int, 0, 0)
                    && final(p)@.state == (*p)@.state
                &&& sampled ==> exists|frames: Seq<FrameView>, now: u64| #[trigger]
                    records_alloc(
                        (*p)@.state,
                        final(p)@.state,
                        ptr,
                        size as u64,
                        frames,
                        now,
                    ) && crate::state::is_clock_reading(now)
            },
        forall|p: &mut YingProfiler, tl: &mut YingThreadLocal, r: Allocated|
            #[trigger] call_ensures(YingProfiler::on_alloc, (p, tl, ptr, size), r) && size > (
            *p).limit() && (*p)@.initialized ==> {
                &&& r.ptr == 0 && r.warning is Some
                &&& final(p)@.counters == (*p)@.counters
                &&& exists|frames: Seq<FrameView>| #[trigger]
                    tells_of_denial(
                        (*p)@.state,
                        final(p)@.state,
                        size as u64,
                        frames,
                        r.warning->0@,
                    )
            },
{
    assert forall|p: &mut YingProfiler, tl: &mut YingThreadLocal, r: Allocated|
        #[trigger] call_ensures(YingProfiler::on_alloc, (p, tl, ptr, size), r) && size > (
        *p).limit() && (*p)@.initialized implies r.warning is Some && exists|
        frames: Seq<FrameView>,
    | #[trigger]
        tells_of_denial(
            (*p)@.state,
            final(p)@.state,
            size as u64,
            frames,
            r.warning->0@,
        ) by {
        lemma_denial_is_told((*p)@, final(p)@, size, r);
    }
    assert forall|p: &mut YingProfiler, tl: &mut YingThreadLocal, r: Allocated|
        #[trigger] call_ensures(YingProfiler::on_alloc, (p, tl, ptr, size), r) && (size <= (
        *p).limit() || !(*p)@.initialized) implies ({
        let sampled = (*tl).alloc_lock == 0 && (*tl).sample_count as int % (*p).ratio() as int
                    == 0;
        &&& r.ptr == ptr && r.warning is None
        &&& final(p)@.initialized == ((*p)@.initialized || sampled)
        &&& final(tl).alloc_lock == (*tl).alloc_lock
        &&& (*tl).alloc_lock > 0 ==> final(tl).sample_count == (*tl).sample_count
        &&& (*tl).alloc_lock == 0 ==> final(tl).sample_count as int == ((*tl).sample_count + 1) % (
        u32::MAX + 1)
        &&& sampled ==> moved(
            (*p)@.counters,
            final(p)@.counters,
            size as int,
            size as int,
            size as int,
        )
        &&& !sampled ==> moved((*p)@.counters, final(p)@.counters, size as int, 0, 0) && final(p)@.state == (*p)@.state
        &&& sampled ==> exists|frames: Seq<FrameView>, now: u64| #[trigger]
            records_alloc((*p)@.state, final(p)@.state, ptr, size as u64, frames, now)
                && crate::state::is_clock_reading(now)
    }) by {
        let sampled = (*tl).may_enter(Some((*p).ratio()));
        assert(sampled <==> (*tl).alloc_lock == 0 && (*tl).sample_count as int
            % (*p).ratio() as int == 0);
        assert(!crate::profiler::denied(size, (*p).limit(), (*p)@.initialized));
        let (frames, now) = choose|frames: Seq<FrameView>, now: u64|
            {
                &&& final(p)@ == #[trigger] (*p)@.after_alloc(sampled, ptr, size, frames, now)
                &&& sampled ==> crate::state::is_clock_reading(now)
            };
        assert(final(tl).alloc_lock == (*tl).alloc_lock);
        assert((*tl).alloc_lock > 0 ==> final(tl).sample_count == (*tl).sample_count);
        assert((*tl).alloc_lock == 0 ==> final(tl).sample_count as int == ((*tl).sample_count + 1) % (
        u32::MAX + 1));
        lemma_moved((*p)@.counters, size, 0);
        lemma_records((*p)@.state, ptr, 0, size as u64, 0, frames, now);
        if sampled {
            assert(records_alloc(
                (*p)@.state,
                final(p)@.state,
                ptr,
                size as u64,
                frames,
                now,
            ));
        }
    }
}

/// Every free takes its size off the total of retained bytes, and one of a sampled allocation, made
/// outside the profiler, also off the profiled bytes retained.
pub proof fn law_frees_are_counted(ptr: u64, size: usize)
    ensures
        forall|p: &mut YingProfiler, tl: &mut YingThreadLocal|
            (*p).wf() && #[trigger] call_ensures(YingProfiler::on_dealloc, (p, tl, ptr, size), ())
                ==> {
                let recorded = (*p)@.initialized && (*tl).alloc_lock == 0;
                let known = recorded && (*p)@.state.outstanding.contains_key(ptr);
                &&& *final(tl) == *tl && final(p)@.initialized == (*p)@.initialized
                &&& final(p).ratio() == (*p).ratio() && final(p).limit() == (*p).limit()
                &&& known ==> moved((*p)@.counters, final(p)@.counters, -size, 0, -size)
                &&& !known ==> moved((*p)@.counters, final(p)@.counters, -size, 0, 0)
                &&& !recorded ==> final(p)@.state == (*p)@.state
                &&& recorded ==> exists|now: u64| #[trigger]
                    records_free((*p)@.state, final(p)@.state, ptr, size as u64, now)
                        && crate::state::is_clock_reading(now)
            },
{
    assert forall|p: &mut YingProfiler, tl: &mut YingThreadLocal|
        (*p).wf() && #[trigger] call_ensures(
            YingProfiler::on_dealloc,
            (p, tl, ptr, size),
            (),
        ) implies ({
        let recorded = (*p)@.initialized && (*tl).alloc_lock == 0;
        let known = recorded && (*p)@.state.outstanding.contains_key(ptr);
        &&& known ==> moved((*p)@.counters, final(p)@.counters, -size, 0, -size)
        &&& !known ==> moved((*p)@.counters, final(p)@.counters, -size, 0, 0)
        &&& !recorded ==> final(p)@.state == (*p)@.state
        &&& recorded ==> exists|now: u64| #[trigger]
            records_free((*p)@.state, final(p)@.state, ptr, size as u64, now)
                && crate::state::is_clock_reading(now)
    }) by {
        let recorded = crate::profiler::recorded((*p)@.initialized, *tl);
        let now = choose|now: u64|
            {
                &&& final(p)@ == #[trigger] (*p)@.after_free(recorded, ptr, size, now)
                &&& recorded ==> crate::state::is_clock_reading(now)
            };
        lemma_moved((*p)@.counters, size, 0);
        lemma_records((*p)@.state, ptr, 0, size as u64, 0, Seq::empty(), now);
        if recorded {
            assert(records_free((*p)@.state, final(p)@.state, ptr, size as u64, now));
        }
    }
}

/// Every change of size that succeeds moves the total of retained bytes by the difference, and one of
/// a sampled allocation, made outside the profiler, also the profiled bytes retained.
pub proof fn law_changes_of_size_are_counted(
    ptr: u64,
    old_size: usize,
    new_ptr: u64,
    new_size: usize,
)
    requires
        new_ptr != 0,
    ensures
        forall|p: &mut YingProfiler, tl: &mut YingThreadLocal, r: Allocated|
            (*p).wf() && (new_size <= (*p).limit() || !(*p)@.initialized) && #[trigger] call_ensures(
                YingProfiler::on_realloc,
                (p, tl, ptr, old_size, new_ptr, new_size),
                r,
            ) ==> {
                let recorded = (*p)@.initialized && (*tl).alloc_lock == 0;
                let known = recorded && (*p)@.state.outstanding.contains_key(ptr);
                let growth = new_size - old_size;
                &&& r.ptr == new_ptr && r.warning is None && *final(tl) == *tl
                &&& final(p)@.initialized == (*p)@.initialized
                &&& final(p).ratio() == (*p).ratio() && final(p).limit() == (*p).limit()
                &&& known ==> moved((*p)@.counters, final(p)@.counters, growth, 0, growth)
                &&& !known ==> moved((*p)@.counters, final(p)@.counters, growth, 0, 0)
                &&& !recorded ==> final(p)@.state == (*p)@.state
                &&& recorded ==> records_realloc(
                    (*p)@.state,
                    final(p)@.state,
                    ptr,
                    new_ptr,
                    old_size as u64,
                    new_size as u64,
                )
            },
        forall|p: &mut YingProfiler, tl: &mut YingThreadLocal, r: Allocated|
            new_size > (*p).limit() && (*p)@.initialized && #[trigger] call_ensures(
                YingProfiler::on_realloc,
                (p, tl, ptr, old_size, new_ptr, new_size),
                r,
            ) ==> {
                &&& r.ptr == 0 && r.warning is Some
                &&& final(p)@.counters == (*p)@.counters
                &&& exists|frames: Seq<FrameView>| #[trigger]
                    tells_of_denial(
                        (*p)@.state,
                        final(p)@.state,
                        new_size as u64,
                        frames,
                        r.warning->0@,
                    )
            },
{
    assert forall|p: &mut YingProfiler, tl: &mut YingThreadLocal, r: Allocated|
        new_size > (*p).limit() && (*p)@.initialized && #[trigger] call_ensures(
            YingProfiler::on_realloc,
            (p, tl, ptr, old_size, new_ptr, new_size),
            r,
        ) implies r.warning is Some && exists|frames: Seq<FrameView>| #[trigger]
        tells_of_denial(
            (*p)@.state,
            final(p)@.state,
            new_size as u64,
            frames,
            r.warning->0@,
        ) by {
        lemma_denial_is_told((*p)@, final(p)@, new_size, r);
    }
    assert forall|p: &mut YingProfiler, tl: &mut YingThreadLocal, r: Allocated|
        (*p).wf() && (new_size <= (*p).limit() || !(*p)@.initialized) && #[trigger] call_ensures(
            YingProfiler::on_realloc,
            (p, tl, ptr, old_size, new_ptr, new_size),
            r,
        ) implies ({
        let recorded = (*p)@.initialized && (*tl).alloc_lock == 0;
        let known = recorded && (*p)@.state.outstanding.contains_key(ptr);
        let growth = new_size - old_size;
        &&& r.ptr == new_ptr && r.warning is None
        &&& known ==> moved((*p)@.counters, final(p)@.counters, growth, 0, growth)
        &&& !known ==> moved((*p)@.counters, final(p)@.counters, growth, 0, 0)
        &&& !recorded ==> final(p)@.state == (*p)@.state
        &&& recorded ==> records_realloc(
            (*p)@.state,
            final(p)@.state,
            ptr,
            new_ptr,
            old_size as u64,
            new_size as u64,
        )
    }) by {
        lemma_moved((*p)@.counters, old_size, new_size);
        lemma_records(
            (*p)@.state,
            ptr,
            new_ptr,
            old_size as u64,
            new_size as u64,
            Seq::empty(),
            0,
        );
    }
}

/// The parts that decide a call say the same as the whole: how the counters move and whether the call
/// is recorded.
pub proof fn law_decisions_move_the_counters(
    ratio: u32,
    initialized: bool,
    size: usize,
    new_size: usize,
)
    requires
        ratio > 0,
    ensures
        forall|tl: &mut YingThreadLocal, r: (ByteCounters, bool)| #[trigger]
            call_ensures(begin_alloc, (tl, ratio, size), r) ==> {
                &&& r.1 <==> (*tl).alloc_lock == 0 && (*tl).sample_count as int % ratio as int == 0
                &&& r.0.total_retained == size
                &&& r.0.profiled_allocated == if r.1 {
                    size
                } else {
                    0
                }
                &&& r.0.profiled_retained == r.0.profiled_allocated
            },
        forall|tl: &mut YingThreadLocal, r: (ByteCounters, bool)| #[trigger]
            call_ensures(begin_free, (tl, initialized, size), r) ==> {
                &&& r.1 <==> initialized && (*tl).alloc_lock == 0
                &&& wraps_to(-size, r.0.total_retained)
                &&& r.0.profiled_allocated == 0 && r.0.profiled_retained == 0
            },
        forall|tl: &mut YingThreadLocal, r: (ByteCounters, bool)| #[trigger]
            call_ensures(begin_realloc, (tl, initialized, size, new_size), r) ==> {
                &&& r.1 <==> initialized && (*tl).alloc_lock == 0
                &&& wraps_to(new_size - size, r.0.total_retained)
                &&& r.0.profiled_allocated == 0 && r.0.profiled_retained == 0
            },
        forall|sampled: bool, r: ByteCounters| #[trigger]
            call_ensures(recorded_free, (size, sampled), r) ==> {
                &&& r.total_retained == 0 && r.profiled_allocated == 0
                &&& !sampled ==> r.profiled_retained == 0
                &&& sampled ==> wraps_to(-size, r.profiled_retained)
            },
        forall|sampled: bool, r: ByteCounters| #[trigger]
            call_ensures(recorded_realloc, (size, new_size, sampled), r) ==> {
                &&& r.total_retained == 0 && r.profiled_allocated == 0
                &&& !sampled ==> r.profiled_retained == 0
                &&& sampled ==> wraps_to(new_size - size, r.profiled_retained)
            },
        forall|c: &mut ByteCounters, d: ByteCounters| #[trigger]
            call_ensures(ByteCounters::change, (c, d), ()) ==> moved(
                *c,
                *final(c),
                d.total_retained as int,
                d.profiled_allocated as int,
                d.profiled_retained as int,
            ),
        forall|p: YingProfiler, n: usize| #[trigger]
            call_ensures(YingProfiler::total_retained_bytes, (&p,), n) ==> n
                == p@.counters.total_retained,
        forall|p: YingProfiler, n: usize| #[trigger]
            call_ensures(YingProfiler::profiled_bytes_allocated, (&p,), n) ==> n
                == p@.counters.profiled_allocated,
        forall|p: YingProfiler, n: usize| #[trigger]
            call_ensures(YingProfiler::profiled_bytes_retained, (&p,), n) ==> n
                == p@.counters.profiled_retained,
{
}

/// A new profiler has the ratio and the limit that it is made with, 500 and 64 GiB if none are given,
/// and has counted and recorded nothing.
pub proof fn law_profilers_start_with_nothing_counted(ratio: u32, limit: usize)
    ensures
        forall|p: YingProfiler| #[trigger]
            call_ensures(YingProfiler::new, (ratio, limit), p) ==> {
                &&& p.ratio() == ratio && p.limit() == limit && !p@.initialized
                &&& p@.state.stats.dom() == Set::<u64>::empty()
                &&& p@.state.outstanding.dom() == Set::<u64>::empty()
                &&& p@.state.symbols.dom() == Set::<u64>::empty()
                &&& p@.counters.total_retained == 0 && p@.counters.profiled_allocated == 0
                    && p@.counters.profiled_retained == 0
            },
        forall|p: YingProfiler| #[trigger]
            call_ensures(YingProfiler::default, (), p) ==> {
                &&& p.ratio() == 500 && p.limit() == 64 * 1024 * 1024 * 1024 && !p@.initialized
                &&& p@.state.stats.dom() == Set::<u64>::empty()
                &&& p@.state.outstanding.dom() == Set::<u64>::empty()
                &&& p@.state.symbols.dom() == Set::<u64>::empty()
                &&& p@.counters.total_retained == 0 && p@.counters.profiled_allocated == 0
                    && p@.counters.profiled_retained == 0
            },
{
    assert(StateView::empty().stats.dom() =~= Set::<u64>::empty());
    assert(StateView::empty().outstanding.dom() =~= Set::<u64>::empty());
    assert(StateView::empty().symbols.dom() =~= Set::<u64>::empty());
}

} // verus!
