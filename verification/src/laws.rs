//! What holds of the profiler as a whole, whatever the sequence of calls.
pub mod flamegraphs;
pub mod maps;
pub mod records;
pub mod runners;
pub mod stacks;
pub mod stats;
pub mod text;

use vstd::prelude::*;

use crate::profiler::{ByteCounters, ProfilerView};
use crate::state::StateView;
use crate::thread_state::YingThreadLocal;

verus! {

/// Every outstanding allocation belongs to a stack trace that has stats, and every stack trace is
/// filed under its hash, at the start and after every operation.
pub proof fn law_state_stays_consistent(
    s: StateView,
    ptr: u64,
    new_ptr: u64,
    size: u64,
    new_size: u64,
    frames: Seq<crate::backtraces::FrameView>,
    now: u64,
)
    requires
        s.consistent(),
    ensures
        StateView::empty().consistent(),
        s.with_alloc(ptr, size, frames, now).consistent(),
        s.with_free(ptr, size, now).consistent(),
        s.with_realloc(ptr, new_ptr, size, new_size).consistent(),
        s.with_denial(frames).consistent(),
        s.reset().consistent(),
{
}

/// Whatever a thread allocates, frees or resizes while it is inside the profiler touches no profiler
/// state and no profiled counter: only the total of retained bytes follows it.
pub proof fn law_calls_inside_the_profiler_are_not_profiled(
    p: ProfilerView,
    tl: YingThreadLocal,
    sampling_ratio: u32,
    ptr: u64,
    new_ptr: u64,
    size: usize,
    new_size: usize,
    frames: Seq<crate::backtraces::FrameView>,
    now: u64,
)
    requires
        tl.locked(),
    ensures
        p.after_alloc(tl.may_enter(Some(sampling_ratio)), ptr, size, frames, now) == (ProfilerView {
            counters: ByteCounters {
                total_retained: p.counters.total_retained.wrapping_add(size),
                ..p.counters
            },
            ..p
        }),
        p.after_free(crate::profiler::recorded(p.initialized, tl), ptr, size, now) == (
        ProfilerView {
            counters: ByteCounters {
                total_retained: p.counters.total_retained.wrapping_sub(size),
                ..p.counters
            },
            ..p
        }),
        p.after_realloc(
            crate::profiler::recorded(p.initialized, tl),
            ptr,
            new_ptr,
            size,
            new_size,
        ) == (ProfilerView {
            counters: ByteCounters {
                total_retained: p.counters.total_retained.wrapping_sub(size).wrapping_add(new_size),
                ..p.counters
            },
            ..p
        }),
        crate::profiler::thread_after_call(tl, Some(sampling_ratio)) == tl,
        crate::profiler::thread_after_call(tl, None) == tl,
{
}

/// A call leaves a thread with its guard as it was, whether the call was profiled or not.
pub proof fn law_calls_keep_the_guard(tl: YingThreadLocal, sampling_ratio: Option<u32>)
    ensures
        crate::profiler::thread_after_call(tl, sampling_ratio).alloc_lock == tl.alloc_lock,
{
}

/// An allocation that is not sampled, once freed, leaves the profiler as it was.
pub proof fn law_unsampled_alloc_then_free(
    p: ProfilerView,
    entered: bool,
    ptr: u64,
    size: usize,
    frames: Seq<crate::backtraces::FrameView>,
    start: u64,
    end: u64,
)
    requires
        !p.state.outstanding.contains_key(ptr),
    ensures
        p.after_alloc(false, ptr, size, frames, start).after_free(entered, ptr, size, end) == p,
{
}

/// A sampled allocation, once its free is recorded, leaves the retained bytes and the outstanding
/// allocations as they were.  What stays is that its stack trace has one more allocation and one
/// more free of that size, and a sample of how long it lived.
pub proof fn law_sampled_alloc_then_free(
    p: ProfilerView,
    ptr: u64,
    size: usize,
    frames: Seq<crate::backtraces::FrameView>,
    start: u64,
    end: u64,
)
    requires
        !p.state.outstanding.contains_key(ptr),
    ensures
        ({
            let q = p.after_alloc(true, ptr, size, frames, start).after_free(true, ptr, size, end);
            let stack = crate::state::stack_of(frames);
            let hash = crate::callstack::hash_of(stack);
            let before = if p.state.stats.contains_key(hash) {
                p.state.stats[hash]
            } else {
                crate::stack_stats::StackStatsView::fresh(stack, None)
            };
            &&& q.counters.total_retained == p.counters.total_retained
            &&& q.counters.profiled_retained == p.counters.profiled_retained
            &&& q.counters.profiled_allocated == p.counters.profiled_allocated.wrapping_add(size)
            &&& q.state.outstanding == p.state.outstanding
            &&& q.state.stats == p.state.stats.insert(
                hash,
                before.with_alloc(size as u64).with_free(
                    size as u64,
                    end.saturating_sub(start),
                ),
            )
            &&& before.allocated_bytes + size <= u64::MAX && before.freed_bytes + size <= u64::MAX
                ==> q.state.stats[hash].retained() == before.retained()
        }),
{
    let q = p.after_alloc(true, ptr, size, frames, start).after_free(true, ptr, size, end);
    let stack = crate::state::stack_of(frames);
    let hash = crate::callstack::hash_of(stack);
    let before = if p.state.stats.contains_key(hash) {
        p.state.stats[hash]
    } else {
        crate::stack_stats::StackStatsView::fresh(stack, None)
    };
    assert(q.state.outstanding =~= p.state.outstanding);
    assert(q.state.stats =~= p.state.stats.insert(
        hash,
        before.with_alloc(size as u64).with_free(size as u64, end.saturating_sub(start)),
    ));
}

/// A change of size is recorded as the same allocation: it keeps its stack trace and the time it was
/// made, counts neither as another allocation nor as a free, and touches no other stack trace.
pub proof fn law_realloc_is_the_same_allocation(
    s: StateView,
    ptr: u64,
    new_ptr: u64,
    old_size: u64,
    new_size: u64,
)
    requires
        s.consistent(),
        s.outstanding.contains_key(ptr),
    ensures
        ({
            let after = s.with_realloc(ptr, new_ptr, old_size, new_size);
            let hash = s.outstanding[ptr].0;
            &&& after.outstanding == s.outstanding.remove(ptr).insert(
                new_ptr,
                s.outstanding[ptr],
            )
            &&& after.symbols == s.symbols
            &&& after.stats.dom() == s.stats.dom()
            &&& forall|h: u64| #[trigger]
                s.stats.contains_key(h) && h != hash ==> after.stats[h] == s.stats[h]
            &&& after.stats[hash].num_allocations == s.stats[hash].num_allocations
            &&& after.stats[hash].num_frees == s.stats[hash].num_frees
            &&& after.stats[hash].freed_bytes == s.stats[hash].freed_bytes
            &&& after.stats[hash].hist == s.stats[hash].hist
            &&& after.stats[hash].stack == s.stats[hash].stack
            &&& 0 <= s.stats[hash].allocated_bytes - old_size + new_size <= u64::MAX
                ==> after.stats[hash].allocated_bytes == s.stats[hash].allocated_bytes - old_size
                + new_size
        }),
{
    let after = s.with_realloc(ptr, new_ptr, old_size, new_size);
    assert(after.stats.dom() =~= s.stats.dom());
}

/// A sampled allocation that is resized before it is freed leaves the retained bytes and the
/// outstanding allocations as they were, and its stack trace counts one allocation and one free.
pub proof fn law_sampled_alloc_realloc_free(
    p: ProfilerView,
    ptr: u64,
    new_ptr: u64,
    size: usize,
    new_size: usize,
    frames: Seq<crate::backtraces::FrameView>,
    start: u64,
    end: u64,
)
    requires
        !p.state.outstanding.contains_key(ptr),
        !p.state.outstanding.contains_key(new_ptr),
    ensures
        ({
            let q = p.after_alloc(true, ptr, size, frames, start).after_realloc(
                true,
                ptr,
                new_ptr,
                size,
                new_size,
            ).after_free(true, new_ptr, new_size, end);
            let stack = crate::state::stack_of(frames);
            let hash = crate::callstack::hash_of(stack);
            let before = if p.state.stats.contains_key(hash) {
                p.state.stats[hash]
            } else {
                crate::stack_stats::StackStatsView::fresh(stack, None)
            };
            let after = q.state.stats[hash];
            &&& q.counters.total_retained == p.counters.total_retained
            &&& q.counters.profiled_retained == p.counters.profiled_retained
            &&& q.state.outstanding == p.state.outstanding
            &&& after.num_allocations == before.num_allocations.wrapping_add(1)
            &&& after.num_frees == before.num_frees.wrapping_add(1)
            &&& after.hist == before.hist.with_sample(end.saturating_sub(start))
            &&& before.allocated_bytes + size <= u64::MAX && before.allocated_bytes + new_size
                <= u64::MAX && before.freed_bytes + new_size <= u64::MAX ==> after.retained()
                == before.retained()
        }),
{
    let q = p.after_alloc(true, ptr, size, frames, start).after_realloc(
        true,
        ptr,
        new_ptr,
        size,
        new_size,
    ).after_free(true, new_ptr, new_size, end);
    assert(q.state.outstanding =~= p.state.outstanding);
}

/// A denied allocation leaves no trace in the counters, the stats and the outstanding allocations.
pub proof fn law_denied_allocation_is_not_counted(
    p: ProfilerView,
    frames: Seq<crate::backtraces::FrameView>,
)
    ensures
        p.after_denial(frames).counters == p.counters,
        p.after_denial(frames).state.stats == p.state.stats,
        p.after_denial(frames).state.outstanding == p.state.outstanding,
        p.after_denial(frames).initialized == p.initialized,
{
}

/// A stack trace never retains more than it has allocated.
pub proof fn law_retained_is_at_most_allocated(stats: crate::stack_stats::StackStatsView)
    ensures
        stats.retained() <= stats.allocated_bytes,
{
}

/// The outstanding allocations of one stack trace.
pub open spec fn outstanding_of(s: StateView, hash: u64) -> Set<u64> {
    s.outstanding.dom().filter(|ptr: u64| s.outstanding[ptr].0 == hash)
}

/// Whether each stack trace has at least as many allocations as it has frees and outstanding
/// allocations together.  It has more where an allocation's free was not recorded, so that its
/// pointer could be allocated again.
pub open spec fn accounted(s: StateView) -> bool {
    &&& s.outstanding.dom().finite()
    &&& forall|hash: u64| #[trigger]
        s.stats.contains_key(hash) ==> outstanding_of(s, hash).len() + s.stats[hash].num_frees
            <= s.stats[hash].num_allocations
}

proof fn lemma_alloc_accounted(
    s: StateView,
    ptr: u64,
    size: u64,
    frames: Seq<crate::backtraces::FrameView>,
    now: u64,
)
    requires
        s.consistent(),
        accounted(s),
        forall|hash: u64| #[trigger]
            s.stats.contains_key(hash) ==> s.stats[hash].num_allocations < u64::MAX,
    ensures
        accounted(s.with_alloc(ptr, size, frames, now)),
{
    let after = s.with_alloc(ptr, size, frames, now);
    let here = crate::callstack::hash_of(crate::state::stack_of(frames));
    assert forall|hash: u64| #[trigger] after.stats.contains_key(hash) implies outstanding_of(
        after,
        hash,
    ).len() + after.stats[hash].num_frees <= after.stats[hash].num_allocations by {
        let set = outstanding_of(s, hash);
        if !s.stats.contains_key(hash) {
            assert(set =~= Set::empty());
        }
        if !s.outstanding.contains_key(ptr) && hash == here {
            assert(outstanding_of(after, hash) =~= set.insert(ptr));
        } else {
            assert(outstanding_of(after, hash) =~= set);
        }
    }
}

proof fn lemma_free_accounted(s: StateView, ptr: u64, size: u64, now: u64)
    requires
        s.consistent(),
        accounted(s),
    ensures
        accounted(s.with_free(ptr, size, now)),
{
    let after = s.with_free(ptr, size, now);
    if s.outstanding.contains_key(ptr) {
        let here = s.outstanding[ptr].0;
        assert forall|hash: u64| #[trigger] after.stats.contains_key(hash) implies outstanding_of(
            after,
            hash,
        ).len() + after.stats[hash].num_frees <= after.stats[hash].num_allocations by {
            let set = outstanding_of(s, hash);
            assert(s.stats.contains_key(hash));
            if hash == here {
                assert(set.contains(ptr));
                assert(outstanding_of(after, hash) =~= set.remove(ptr));
            } else {
                assert(outstanding_of(after, hash) =~= set);
            }
        }
    }
}

proof fn lemma_realloc_accounted(
    s: StateView,
    ptr: u64,
    new_ptr: u64,
    old_size: u64,
    new_size: u64,
)
    requires
        s.consistent(),
        accounted(s),
    ensures
        accounted(s.with_realloc(ptr, new_ptr, old_size, new_size)),
{
    let after = s.with_realloc(ptr, new_ptr, old_size, new_size);
    if s.outstanding.contains_key(ptr) {
        let here = s.outstanding[ptr].0;
        assert forall|hash: u64| #[trigger] after.stats.contains_key(hash) implies outstanding_of(
            after,
            hash,
        ).len() + after.stats[hash].num_frees <= after.stats[hash].num_allocations by {
            let set = outstanding_of(s, hash);
            assert(s.stats.contains_key(hash));
            if hash == here {
                assert(set.contains(ptr));
                assert(outstanding_of(after, hash) =~= set.remove(ptr).insert(new_ptr));
            } else {
                assert(outstanding_of(after, hash) =~= set.remove(new_ptr));
            }
        }
    }
}

/// No stack trace ever has more frees and outstanding allocations together than allocations, at the
/// start and after every operation, as long as no allocation counter is at the end of its range.
pub proof fn law_frees_never_exceed_allocations(
    s: StateView,
    ptr: u64,
    new_ptr: u64,
    size: u64,
    new_size: u64,
    frames: Seq<crate::backtraces::FrameView>,
    now: u64,
)
    requires
        s.consistent(),
        accounted(s),
        forall|hash: u64| #[trigger]
            s.stats.contains_key(hash) ==> s.stats[hash].num_allocations < u64::MAX,
    ensures
        accounted(StateView::empty()),
        accounted(s.with_alloc(ptr, size, frames, now)),
        accounted(s.with_free(ptr, size, now)),
        accounted(s.with_realloc(ptr, new_ptr, size, new_size)),
        accounted(s.with_denial(frames)),
        accounted(s.reset()),
{
    lemma_alloc_accounted(s, ptr, size, frames, now);
    lemma_free_accounted(s, ptr, size, now);
    lemma_realloc_accounted(s, ptr, new_ptr, size, new_size);
    assert forall|hash: u64| #[trigger] s.with_denial(frames).stats.contains_key(
        hash,
    ) implies outstanding_of(s.with_denial(frames), hash).len()
        + s.with_denial(frames).stats[hash].num_frees
        <= s.with_denial(frames).stats[hash].num_allocations by {
        assert(outstanding_of(s.with_denial(frames), hash) =~= outstanding_of(s, hash));
    }
}

} // verus!
