//! The profiler: what each call of the allocator leads to, and what can be read from it.
//!
//! Every call falls into two parts.  The first decides, from the thread's own state and a few plain
//! values, how the byte counters change and whether the call is profiled; it touches no profiler
//! state, so it may run at any time.  The second records the call in the [`YingState`], and runs
//! only on a thread that has entered the profiler.
use vstd::prelude::*;

use crate::stack_stats::{Measurement, StackStats};
use crate::state::{MapSizing, YingState};
use crate::thread_state::{exit_profiler, try_enter_profiler, YingThreadLocal};
use crate::utils::{
    ProfilerRunner, DEFAULT_CHECK_INTERVAL_SECS, DEFAULT_PCT_CHANGE_TRIGGER, DEFAULT_REPORTING_PATH,
};

verus! {

/// The size beyond which a single allocation is denied by default: 64 GiB.
pub const DEFAULT_GIANT_ALLOC_LIMIT: u64 = 68_719_476_736;

/// The profiler's byte counters, or a change of them.  A change is added with each counter wrapping
/// around, so that what a counter goes down by is the difference from zero.
#[derive(Copy, Clone, Debug, PartialEq, Eq, Structural)]
pub struct ByteCounters {
    /// Outstanding retained bytes, not just of sampled but of all allocations.
    pub total_retained: usize,
    /// Bytes allocated by sampled allocations.
    pub profiled_allocated: usize,
    /// Bytes retained by sampled allocations.
    pub profiled_retained: usize,
}

impl ByteCounters {
    /// All counters zero.
    pub open spec fn zero() -> Self {
        ByteCounters { total_retained: 0, profiled_allocated: 0, profiled_retained: 0 }
    }

    /// The counters after a change.
    pub open spec fn changed(self, change: Self) -> Self {
        ByteCounters {
            total_retained: self.total_retained.wrapping_add(change.total_retained),
            profiled_allocated: self.profiled_allocated.wrapping_add(change.profiled_allocated),
            profiled_retained: self.profiled_retained.wrapping_add(change.profiled_retained),
        }
    }

    /// The change by an allocation, which only a sampled one makes to the profiled counters.
    pub open spec fn of_alloc(size: usize, sampled: bool) -> Self {
        ByteCounters {
            total_retained: size,
            profiled_allocated: if sampled {
                size
            } else {
                0
            },
            profiled_retained: if sampled {
                size
            } else {
                0
            },
        }
    }

    /// The change that every free makes.
    pub open spec fn of_free(size: usize) -> Self {
        ByteCounters { total_retained: 0usize.wrapping_sub(size), ..Self::zero() }
    }

    /// The change that freeing an allocation makes on top if it was sampled.
    pub open spec fn of_recorded_free(size: usize, sampled: bool) -> Self {
        ByteCounters {
            profiled_retained: if sampled {
                0usize.wrapping_sub(size)
            } else {
                0
            },
            ..Self::zero()
        }
    }

    /// What a number of bytes goes up by, or down where the new size is smaller.
    pub open spec fn growth(old_size: usize, new_size: usize) -> usize {
        new_size.wrapping_sub(old_size)
    }

    /// The change that every change of an allocation's size makes.
    pub open spec fn of_realloc(old_size: usize, new_size: usize) -> Self {
        ByteCounters { total_retained: Self::growth(old_size, new_size), ..Self::zero() }
    }

    /// The change that it makes on top if the allocation was sampled.
    pub open spec fn of_recorded_realloc(old_size: usize, new_size: usize, sampled: bool) -> Self {
        ByteCounters {
            profiled_retained: if sampled {
                Self::growth(old_size, new_size)
            } else {
                0
            },
            ..Self::zero()
        }
    }

    /// All counters zero.
    pub fn new() -> (r: Self)
        ensures
            r == Self::zero(),
    {
        ByteCounters { total_retained: 0, profiled_allocated: 0, profiled_retained: 0 }
    }

    /// Makes a change.
    pub fn change(&mut self, change: ByteCounters)
        ensures
            *final(self) == old(self).changed(change),
    {
        self.total_retained = self.total_retained.wrapping_add(change.total_retained);
        self.profiled_allocated = self.profiled_allocated.wrapping_add(change.profiled_allocated);
        self.profiled_retained = self.profiled_retained.wrapping_add(change.profiled_retained);
    }
}

/// Whether an allocation of `size` bytes is denied: it is greater than the limit.  There is an edge
/// case where the check cannot happen, while the profiler is not initialized.
pub open spec fn denied(size: usize, single_alloc_limit: u64, initialized: bool) -> bool {
    size > single_alloc_limit && initialized
}

/// Whether an allocation of `size` bytes is denied.
pub fn deny_giant_allocation(size: usize, single_alloc_limit: u64, initialized: bool) -> (r: bool)
    ensures
        r == denied(size, single_alloc_limit, initialized),
{
    size as u64 > single_alloc_limit && initialized
}

/// The first part of an allocation that succeeded: how the counters change, and whether the thread
/// has entered the profiler to record it.
pub fn begin_alloc(tl: &mut YingThreadLocal, sampling_ratio: u32, size: usize) -> (r: (
    ByteCounters,
    bool,
))
    requires
        !old(tl).locked() ==> sampling_ratio > 0,
    ensures
        *final(tl) == old(tl).after_attempt(Some(sampling_ratio)),
        r.1 == old(tl).may_enter(Some(sampling_ratio)),
        r.0 == ByteCounters::of_alloc(size, r.1),
{
    let entered: bool = try_enter_profiler(tl, Some(sampling_ratio));
    let profiled: usize = if entered {
        size
    } else {
        0
    };
    (
        ByteCounters {
            total_retained: size,
            profiled_allocated: profiled,
            profiled_retained: profiled,
        },
        entered,
    )
}

/// Whether a free or a change of size is recorded: there is a state to record it in, and the thread
/// is not inside the profiler.
pub open spec fn recorded(initialized: bool, tl: YingThreadLocal) -> bool {
    initialized && tl.may_enter(None)
}

/// The first part of a free: how the counters change, and whether the thread has entered the
/// profiler to record it.  The re-entrancy check comes before any profiler state is touched.
pub fn begin_free(tl: &mut YingThreadLocal, initialized: bool, size: usize) -> (r: (
    ByteCounters,
    bool,
))
    ensures
        r.1 == recorded(initialized, *old(tl)),
        *final(tl) == (if initialized {
            old(tl).after_attempt(None)
        } else {
            *old(tl)
        }),
        r.0 == ByteCounters::of_free(size),
{
    let zero: usize = 0;
    let change = ByteCounters {
        total_retained: zero.wrapping_sub(size),
        profiled_allocated: 0,
        profiled_retained: 0,
    };
    if !initialized {
        return (change, false);
    }
    (change, try_enter_profiler(tl, None))
}

/// The first part of a change of size that succeeded: how the counters change, and whether the
/// thread has entered the profiler to record it.
pub fn begin_realloc(
    tl: &mut YingThreadLocal,
    initialized: bool,
    old_size: usize,
    new_size: usize,
) -> (r: (ByteCounters, bool))
    ensures
        r.1 == recorded(initialized, *old(tl)),
        *final(tl) == (if initialized {
            old(tl).after_attempt(None)
        } else {
            *old(tl)
        }),
        r.0 == ByteCounters::of_realloc(old_size, new_size),
{
    let change = ByteCounters {
        total_retained: new_size.wrapping_sub(old_size),
        profiled_allocated: 0,
        profiled_retained: 0,
    };
    if !initialized {
        return (change, false);
    }
    (change, try_enter_profiler(tl, None))
}

/// How the counters change on top when a free has been recorded.
pub fn recorded_free(size: usize, sampled: bool) -> (r: ByteCounters)
    ensures
        r == ByteCounters::of_recorded_free(size, sampled),
{
    let zero: usize = 0;
    let profiled: usize = if sampled {
        zero.wrapping_sub(size)
    } else {
        0
    };
    ByteCounters { total_retained: 0, profiled_allocated: 0, profiled_retained: profiled }
}

/// How the counters change on top when a change of size has been recorded.
pub fn recorded_realloc(old_size: usize, new_size: usize, sampled: bool) -> (r: ByteCounters)
    ensures
        r == ByteCounters::of_recorded_realloc(old_size, new_size, sampled),
{
    let profiled: usize = if sampled {
        new_size.wrapping_sub(old_size)
    } else {
        0
    };
    ByteCounters { total_retained: 0, profiled_allocated: 0, profiled_retained: profiled }
}

/// What a [`YingProfiler`] holds.
#[verifier::ext_equal]
pub struct ProfilerView {
    /// Whether there is a state to record in.
    pub initialized: bool,
    /// What has been recorded.
    pub state: crate::state::StateView,
    /// The byte counters.
    pub counters: ByteCounters,
}

impl ProfilerView {
    /// The profiler with a state to record in.
    pub open spec fn ready(self) -> Self {
        ProfilerView { initialized: true, ..self }
    }

    /// The profiler after an allocation that succeeded, which is recorded where the thread has
    /// entered the profiler.
    pub open spec fn after_alloc(
        self,
        entered: bool,
        ptr: u64,
        size: usize,
        frames: Seq<crate::backtraces::FrameView>,
        now: u64,
    ) -> Self {
        ProfilerView {
            initialized: self.initialized || entered,
            state: if entered {
                self.state.with_alloc(ptr, size as u64, frames, now)
            } else {
                self.state
            },
            counters: self.counters.changed(ByteCounters::of_alloc(size, entered)),
        }
    }

    /// The profiler after a free, which is recorded where the thread has entered the profiler.
    pub open spec fn after_free(self, entered: bool, ptr: u64, size: usize, now: u64) -> Self {
        let counters = self.counters.changed(ByteCounters::of_free(size));
        if entered {
            ProfilerView {
                state: self.state.with_free(ptr, size as u64, now),
                counters: counters.changed(
                    ByteCounters::of_recorded_free(size, self.state.outstanding.contains_key(ptr)),
                ),
                ..self
            }
        } else {
            ProfilerView { counters, ..self }
        }
    }

    /// The profiler after a change of size that succeeded, which is recorded where the thread has
    /// entered the profiler.
    pub open spec fn after_realloc(
        self,
        entered: bool,
        ptr: u64,
        new_ptr: u64,
        old_size: usize,
        new_size: usize,
    ) -> Self {
        let counters = self.counters.changed(ByteCounters::of_realloc(old_size, new_size));
        if entered {
            ProfilerView {
                state: self.state.with_realloc(ptr, new_ptr, old_size as u64, new_size as u64),
                counters: counters.changed(
                    ByteCounters::of_recorded_realloc(
                        old_size,
                        new_size,
                        self.state.outstanding.contains_key(ptr),
                    ),
                ),
                ..self
            }
        } else {
            ProfilerView { counters, ..self }
        }
    }

    /// The profiler after an allocation has been denied.
    pub open spec fn after_denial(
        self,
        frames: Seq<crate::backtraces::FrameView>,
    ) -> Self {
        ProfilerView { state: self.state.with_denial(frames), ..self }
    }
}

/// What a thread's state is after a call that has tried to enter the profiler, and has left it again
/// where it had entered.
pub open spec fn thread_after_call(
    tl: YingThreadLocal,
    sampling_ratio: Option<u32>,
) -> YingThreadLocal {
    if tl.may_enter(sampling_ratio) {
        tl.after_attempt(sampling_ratio).with_lock_released()
    } else {
        tl.after_attempt(sampling_ratio)
    }
}

/// What an allocation comes to: the pointer, zero where there is none, and the warning to print
/// where the allocation has been denied.
pub struct Allocated {
    /// The pointer.
    pub ptr: u64,
    /// The warning.
    pub warning: Option<String>,
}

/// Whether an allocation of `size` bytes has been denied: there is no pointer, and the warning shows
/// the stack trace that asked for it, whose symbols have been looked up.
pub open spec fn is_denial(
    before: ProfilerView,
    after: ProfilerView,
    size: usize,
    r: Allocated,
) -> bool {
    &&& r.ptr == 0
    &&& exists|frames: Seq<crate::backtraces::FrameView>|
        {
            &&& after == #[trigger] before.after_denial(frames)
            &&& before.state.resolved_where_new(frames)
            &&& r.warning matches Some(warning) && warning@ == crate::state::denial_text(
                size as u64,
                frames,
                after.state.symbols,
            )
        }
}

/// Ying is a memory profiling Allocator wrapper.
/// Ying is the Chinese word for an eagle.
pub struct YingProfiler {
    // Allocation sampling ratio.  Eg: 500 means 1 in 500 allocations are sampled.
    sampling_ratio: u32,
    // Prevent and dump stack trace for giant single allocations beyond a certain size
    single_alloc_limit: u64,
    sizing: MapSizing,
    counters: ByteCounters,
    // Statistics... lazily initialized later
    state: Option<YingState>,
}

impl View for YingProfiler {
    type V = ProfilerView;

    closed spec fn view(&self) -> ProfilerView {
        ProfilerView {
            initialized: self.state is Some,
            state: match self.state {
                Some(state) => state@,
                None => crate::state::StateView::empty(),
            },
            counters: self.counters,
        }
    }
}

impl YingProfiler {
    /// The number of allocations for every sampled allocation.
    pub closed spec fn ratio(&self) -> u32 {
        self.sampling_ratio
    }

    /// The size beyond which a single allocation is denied.
    pub closed spec fn limit(&self) -> u64 {
        self.single_alloc_limit
    }

    /// What the sizes of the maps depend on.
    pub closed spec fn map_sizing(&self) -> MapSizing {
        self.sizing
    }

    /// Every part of the state is in order.
    pub closed spec fn parts_wf(&self) -> bool {
        self.state matches Some(state) ==> state.parts_wf()
    }

    /// Every part of the state is in order, and they are consistent with each other.
    pub open spec fn wf(&self) -> bool {
        self.parts_wf() && self@.state.consistent()
    }

    /// How many shards each map has, or will have once the state is made.
    pub closed spec fn shard_counts(&self) -> Seq<nat> {
        match self.state {
            Some(state) => state.shard_counts(),
            None => self.sizing.shard_counts(),
        }
    }

    /// Whether this is `before` but for what the view shows.
    pub open spec fn same_settings(&self, before: &Self) -> bool {
        &&& self.ratio() == before.ratio()
        &&& self.limit() == before.limit()
        &&& self.map_sizing() == before.map_sizing()
        &&& self.shard_counts() == before.shard_counts()
    }

    /// sampling_ratio: number of allocations for every sampled allocation
    pub fn new(sampling_ratio: u32, single_alloc_limit: usize) -> (r: Self)
        ensures
            r.wf(),
            r.ratio() == sampling_ratio,
            r.limit() == single_alloc_limit,
            r.map_sizing() == (MapSizing { capacity_override: None, cpus: None }),
            r.shard_counts() == r.map_sizing().shard_counts(),
            r@ == (ProfilerView {
                initialized: false,
                state: crate::state::StateView::empty(),
                counters: ByteCounters::zero(),
            }),
    {
        YingProfiler {
            sampling_ratio,
            single_alloc_limit: single_alloc_limit as u64,
            sizing: MapSizing { capacity_override: None, cpus: None },
            counters: ByteCounters::new(),
            state: None,
        }
    }

    /// A profiler that samples 1 in 500 allocations and denies those beyond 64 GiB.
    pub fn default() -> (r: Self)
        ensures
            r.wf(),
            r.ratio() == 500,
            r.limit() == DEFAULT_GIANT_ALLOC_LIMIT,
            r.map_sizing() == (MapSizing { capacity_override: None, cpus: None }),
            r.shard_counts() == r.map_sizing().shard_counts(),
            r@ == (ProfilerView {
                initialized: false,
                state: crate::state::StateView::empty(),
                counters: ByteCounters::zero(),
            }),
    {
        YingProfiler {
            sampling_ratio: 500,
            single_alloc_limit: DEFAULT_GIANT_ALLOC_LIMIT,
            sizing: MapSizing { capacity_override: None, cpus: None },
            counters: ByteCounters::new(),
            state: None,
        }
    }

    /// Sets what the sizes of the maps depend on once the state is made.
    pub fn set_map_sizing(&mut self, sizing: MapSizing)
        requires
            old(self).wf(),
        ensures
            final(self).wf(),
            final(self).ratio() == old(self).ratio(),
            final(self).limit() == old(self).limit(),
            final(self)@ == old(self)@,
            final(self).map_sizing() == sizing,
            final(self).shard_counts() == (if old(self)@.initialized {
                old(self).shard_counts()
            } else {
                sizing.shard_counts()
            }),
    {
        self.sizing = sizing;
    }

    /// The runner that reports periodically with the usual settings: a 5 minute check interval, a
    /// 10% change before a report is written, output to `ying-profiles`, flamegraphs on, retained
    /// rather than allocated memory, and inlined frames left unexpanded.
    ///
    /// This is a convenience only, and adds no capability of its own.
    pub fn start_profiling(&self) -> (runner: ProfilerRunner)
        ensures
            runner@ == crate::utils::RunnerView::started(),
    {
        ProfilerRunner::new(
            DEFAULT_CHECK_INTERVAL_SECS,
            DEFAULT_PCT_CHANGE_TRIGGER,
            DEFAULT_REPORTING_PATH,
            false,
            true,
            false,
        )
    }

    /// Makes sure that there is a state to record in.
    fn init_state(&mut self, tl: &YingThreadLocal)
        requires
            tl.locked(),
            old(self).wf(),
        ensures
            final(self).wf(),
            final(self).same_settings(old(self)),
            final(self).state is Some,
            final(self)@ == old(self)@.ready(),
    {
        if self.state.is_none() {
            self.state = Some(YingState::new(self.sizing));
        }
    }

    /// The state to record in, for a thread that is inside the profiler.
    pub(crate) fn get_state_locked<'a>(&'a mut self, tl: &YingThreadLocal) -> (r: &'a YingState)
        requires
            tl.locked(),
            old(self).wf(),
        ensures
            final(self).wf(),
            final(self).same_settings(old(self)),
            final(self)@ == old(self)@.ready(),
            r.wf(),
            r@ == old(self)@.state,
            r.shard_counts() == old(self).shard_counts(),
    {
        self.init_state(tl);
        self.state.as_ref().unwrap()
    }

    /// The state to record in, which is made when it is first asked for.
    pub fn get_state<'a>(&'a mut self, tl: &mut YingThreadLocal) -> (r: &'a YingState)
        requires
            old(self).wf(),
        ensures
            *final(tl) == old(tl).after_lock_out(),
            final(self).wf(),
            final(self).same_settings(old(self)),
            final(self)@ == old(self)@.ready(),
            r.wf(),
            r@ == old(self)@.state,
            r.shard_counts() == old(self).shard_counts(),
            !old(self)@.initialized ==> r.shard_counts() == old(self).map_sizing().shard_counts(),
    {
        // We need to lock out the profiler here, to ensure no tracking of allocations or messes
        tl.set_allocator_lock();
        self.init_state(&*tl);
        exit_profiler(tl);
        self.state.as_ref().unwrap()
    }

    /// Total outstanding retained bytes (not just sampled but all allocations).
    pub fn total_retained_bytes(&self) -> (r: usize)
        ensures
            r == self@.counters.total_retained,
    {
        self.counters.total_retained
    }

    /// Total bytes allocated for profiled allocations.
    pub fn profiled_bytes_allocated(&self) -> (r: usize)
        ensures
            r == self@.counters.profiled_allocated,
    {
        self.counters.profiled_allocated
    }

    /// Profiled bytes retained - retained memory usage amongst profiled allocations.
    pub fn profiled_bytes_retained(&self) -> (r: usize)
        ensures
            r == self@.counters.profiled_retained,
    {
        self.counters.profiled_retained
    }

    /// Number of instruction pointers whose symbols are known.
    pub fn symbol_map_size(&mut self, tl: &mut YingThreadLocal) -> (n: usize)
        requires
            old(self).wf(),
        ensures
            *final(tl) == old(tl).after_lock_out(),
            final(self).wf(),
            final(self).same_settings(old(self)),
            final(self)@ == old(self)@.ready(),
            old(self)@.state.symbols.dom().finite(),
            n == crate::state::at_most_max(old(self)@.state.symbols.len()),
    {
        tl.set_allocator_lock();
        let r = self.get_state_locked(&*tl).symbol_map_size(&*tl);
        exit_profiler(tl);
        r
    }

    /// Number of entries for outstanding sampled allocations map.
    pub fn num_outstanding_allocs(&mut self, tl: &mut YingThreadLocal) -> (n: usize)
        requires
            old(self).wf(),
        ensures
            *final(tl) == old(tl).after_lock_out(),
            final(self).wf(),
            final(self).same_settings(old(self)),
            final(self)@ == old(self)@.ready(),
            old(self)@.state.outstanding.dom().finite(),
            n == crate::state::at_most_max(old(self)@.state.outstanding.len()),
    {
        tl.set_allocator_lock();
        let r = self.get_state_locked(&*tl).num_outstanding_allocs(&*tl);
        exit_profiler(tl);
        r
    }

    /// Number of distinct stack traces that have been sampled.
    pub fn num_stack_traces(&mut self, tl: &mut YingThreadLocal) -> (n: usize)
        requires
            old(self).wf(),
        ensures
            *final(tl) == old(tl).after_lock_out(),
            final(self).wf(),
            final(self).same_settings(old(self)),
            final(self)@ == old(self)@.ready(),
            old(self)@.state.stats.dom().finite(),
            n == crate::state::at_most_max(old(self)@.state.stats.len()),
    {
        tl.set_allocator_lock();
        let r = self.get_state_locked(&*tl).num_stack_traces(&*tl);
        exit_profiler(tl);
        r
    }

    /// Get the top k stack traces by total profiled bytes allocated, in descending order.
    /// Note that "profiled bytes" refers to the bytes allocated during sampling by this profiler.
    pub fn top_k_stacks_by_allocated(&mut self, tl: &mut YingThreadLocal, k: usize) -> (r: Vec<StackStats>)
        requires
            old(self).wf(),
        ensures
            *final(tl) == old(tl).after_lock_out(),
            final(self).wf(),
            final(self).same_settings(old(self)),
            final(self)@ == old(self)@.ready(),
            crate::state::are_top_k(
                old(self)@.state.stats,
                Measurement::AllocatedBytes,
                k as nat,
                r@,
            ),
    {
        tl.set_allocator_lock();
        let r = self.get_state_locked(&*tl).top_k_stacks(&*tl, Measurement::AllocatedBytes, k);
        exit_profiler(tl);
        r
    }

    /// Get the top k stack traces by retained sampled memory, in descending order.
    pub fn top_k_stacks_by_retained(&mut self, tl: &mut YingThreadLocal, k: usize) -> (r: Vec<StackStats>)
        requires
            old(self).wf(),
        ensures
            *final(tl) == old(tl).after_lock_out(),
            final(self).wf(),
            final(self).same_settings(old(self)),
            final(self)@ == old(self)@.ready(),
            crate::state::are_top_k(
                old(self)@.state.stats,
                Measurement::RetainedBytes,
                k as nat,
                r@,
            ),
    {
        tl.set_allocator_lock();
        let r = self.get_state_locked(&*tl).top_k_stacks(&*tl, Measurement::RetainedBytes, k);
        exit_profiler(tl);
        r
    }

    /// Forgets all stats and outstanding allocations.
    pub fn reset_state_for_testing_only(&mut self, tl: &mut YingThreadLocal)
        requires
            old(self).wf(),
        ensures
            *final(tl) == old(tl).after_lock_out(),
            final(self).wf(),
            final(self).same_settings(old(self)),
            final(self)@ == (ProfilerView {
                state: old(self)@.state.reset(),
                ..old(self)@.ready()
            }),
    {
        tl.set_allocator_lock();
        self.init_state(&*tl);
        match &mut self.state {
            Some(state) => {
                state.reset(&*tl);
            },
            None => {},
        }
        exit_profiler(tl);
    }

    /// Guarantees that the next allocation on the thread is sampled, unless it happens inside the
    /// profiler.
    pub fn testing_only_guarantee_next_sample(&self, tl: &mut YingThreadLocal)
        ensures
            *final(tl) == (YingThreadLocal { sample_count: 0, ..*old(tl) }),
            self.ratio() > 0 && !old(tl).locked() ==> final(tl).may_enter(Some(self.ratio())),
    {
        tl.test_only_reset_sampling_counter();
        proof {
            if self.ratio() > 0 && !old(tl).locked() {
                crate::thread_state::law_reset_guarantees_next_sample(*old(tl), self.ratio());
            }
        }
    }

    /// Hands the pointer back, or denies the allocation and says so in a warning.
    pub fn check_and_deny_giant_allocations(
        &mut self,
        tl: &mut YingThreadLocal,
        ptr: u64,
        size: usize,
    ) -> (r: Allocated)
        requires
            old(self).wf(),
        ensures
            final(self).wf(),
            final(self).same_settings(old(self)),
            !denied(size, old(self).limit(), old(self)@.initialized) ==> r == (Allocated {
                ptr,
                warning: None,
            }) && final(self)@ == old(self)@ && *final(tl) == *old(tl),
            denied(size, old(self).limit(), old(self)@.initialized) ==> {
                &&& *final(tl) == old(tl).after_lock_out()
                &&& is_denial(old(self)@, final(self)@, size, r)
            },
    {
        if !deny_giant_allocation(size, self.single_alloc_limit, self.state.is_some()) {
            return Allocated { ptr, warning: None };
        }
        // Prevent allocation sampling while we are telling the world who did this
        tl.set_allocator_lock();
        let mut warning: Option<String> = None;
        match &mut self.state {
            Some(state) => {
                warning = Some(state.report_denial(&*tl, size as u64));
            },
            None => {},
        }
        exit_profiler(tl);
        proof {
            let frames = choose|frames: Seq<crate::backtraces::FrameView>|
                {
                    &&& self@.state == #[trigger] old(self)@.state.with_denial(frames)
                    &&& old(self)@.state.resolved_where_new(frames)
                    &&& warning->0@ == crate::state::denial_text(
                        size as u64,
                        frames,
                        self@.state.symbols,
                    )
                };
            assert(self@ == old(self)@.after_denial(frames));
        }
        Allocated { ptr: 0, warning }
    }

    /// Accounts for an allocation, given what the system allocator has returned for it.
    pub fn on_alloc(&mut self, tl: &mut YingThreadLocal, ptr: u64, size: usize) -> (r: Allocated)
        requires
            old(self).wf(),
            ptr != 0 && !denied(size, old(self).limit(), old(self)@.initialized) && !old(tl).locked()
                ==> old(self).ratio() > 0,
        ensures
            final(self).wf(),
            final(self).same_settings(old(self)),
            denied(size, old(self).limit(), old(self)@.initialized) ==> {
                &&& *final(tl) == old(tl).after_lock_out()
                &&& is_denial(old(self)@, final(self)@, size, r)
            },
            !denied(size, old(self).limit(), old(self)@.initialized) ==> r == (Allocated {
                ptr,
                warning: None,
            }),
            !denied(size, old(self).limit(), old(self)@.initialized) && ptr == 0 ==> final(self)@
                == old(self)@ && *final(tl) == *old(tl),
            !denied(size, old(self).limit(), old(self)@.initialized) && ptr != 0 ==> {
                &&& *final(tl) == thread_after_call(*old(tl), Some(old(self).ratio()))
                &&& exists|
                    frames: Seq<crate::backtraces::FrameView>,
                    now: u64,
                |
                    {
                        &&& final(self)@ == #[trigger] old(self)@.after_alloc(
                            old(tl).may_enter(Some(old(self).ratio())),
                            ptr,
                            size,
                            frames,
                            now,
                        )
                        &&& old(tl).may_enter(Some(old(self).ratio()))
                            ==> crate::state::is_clock_reading(now)
                        &&& old(tl).may_enter(Some(old(self).ratio()))
                            && !old(self)@.state.knows_stack(frames)
                            ==> old(self)@.state.resolved_where_new(frames)
                    }
            },
    {
        let allocated = self.check_and_deny_giant_allocations(tl, ptr, size);
        if allocated.ptr == 0 {
            return allocated;
        }
        let (change, entered): (ByteCounters, bool) = begin_alloc(tl, self.sampling_ratio, size);
        self.counters.change(change);
        if entered {
            self.init_state(&*tl);
            match &mut self.state {
                Some(state) => {
                    state.profile_alloc(&*tl, ptr, size as u64);
                },
                None => {},
            }
            exit_profiler(tl);
            proof {
                let (frames, now) = choose|
                    frames: Seq<crate::backtraces::FrameView>,
                    now: u64,
                |
                    {
                        &&& self@.state == #[trigger] old(self)@.state.with_alloc(
                            ptr,
                            size as u64,
                            frames,
                            now,
                        )
                        &&& crate::state::is_clock_reading(now)
                        &&& !old(self)@.state.knows_stack(frames)
                            ==> old(self)@.state.resolved_where_new(frames)
                    };
                assert(old(self)@.after_alloc(true, ptr, size, frames, now) =~= self@);
            }
        } else {
            assert(old(self)@.after_alloc(false, ptr, size, Seq::empty(), 0)
                =~= self@);
        }
        allocated
    }

    /// Accounts for a free.
    pub fn on_dealloc(&mut self, tl: &mut YingThreadLocal, ptr: u64, size: usize)
        requires
            old(self).wf(),
        ensures
            final(self).wf(),
            final(self).same_settings(old(self)),
            !old(self)@.initialized ==> *final(tl) == *old(tl),
            old(self)@.initialized ==> *final(tl) == thread_after_call(*old(tl), None),
            exists|now: u64|
                {
                    &&& final(self)@ == #[trigger] old(self)@.after_free(
                        recorded(old(self)@.initialized, *old(tl)),
                        ptr,
                        size,
                        now,
                    )
                    &&& recorded(old(self)@.initialized, *old(tl))
                        ==> crate::state::is_clock_reading(now)
                },
    {
        let (change, entered): (ByteCounters, bool) = begin_free(tl, self.state.is_some(), size);
        self.counters.change(change);
        if entered {
            let mut sampled: bool = false;
            match &mut self.state {
                Some(state) => {
                    sampled = state.profile_free(&*tl, ptr, size as u64);
                },
                None => {},
            }
            self.counters.change(recorded_free(size, sampled));
            exit_profiler(tl);
            proof {
                let now = choose|now: u64| #[trigger]
                    old(self)@.state.with_free(ptr, size as u64, now) == self@.state
                        && crate::state::is_clock_reading(now);
                assert(old(self)@.after_free(true, ptr, size, now) =~= self@);
            }
        } else {
            assert(old(self)@.after_free(false, ptr, size, 0) =~= self@);
        }
    }

    /// Accounts for a change of size, given what the system allocator has returned for the new
    /// size.  Reallocations count as the same allocation.
    pub fn on_realloc(
        &mut self,
        tl: &mut YingThreadLocal,
        ptr: u64,
        old_size: usize,
        new_ptr: u64,
        new_size: usize,
    ) -> (r: Allocated)
        requires
            old(self).wf(),
        ensures
            final(self).wf(),
            final(self).same_settings(old(self)),
            denied(new_size, old(self).limit(), old(self)@.initialized) ==> {
                &&& *final(tl) == old(tl).after_lock_out()
                &&& is_denial(old(self)@, final(self)@, new_size, r)
            },
            !denied(new_size, old(self).limit(), old(self)@.initialized) ==> r == (Allocated {
                ptr: new_ptr,
                warning: None,
            }),
            !denied(new_size, old(self).limit(), old(self)@.initialized) && new_ptr == 0
                ==> final(self)@ == old(self)@ && *final(tl) == *old(tl),
            !denied(new_size, old(self).limit(), old(self)@.initialized) && new_ptr != 0 ==> {
                &&& *final(tl) == (if old(self)@.initialized {
                    thread_after_call(*old(tl), None)
                } else {
                    *old(tl)
                })
                &&& final(self)@ == old(self)@.after_realloc(
                    recorded(old(self)@.initialized, *old(tl)),
                    ptr,
                    new_ptr,
                    old_size,
                    new_size,
                )
            },
    {
        let allocated = self.check_and_deny_giant_allocations(tl, new_ptr, new_size);
        if allocated.ptr == 0 {
            return allocated;
        }
        let (change, entered): (ByteCounters, bool) = begin_realloc(
            tl,
            self.state.is_some(),
            old_size,
            new_size,
        );
        self.counters.change(change);
        if entered {
            let mut sampled: bool = false;
            match &mut self.state {
                Some(state) => {
                    sampled = state.record_realloc(
                        &*tl,
                        ptr,
                        new_ptr,
                        old_size as u64,
                        new_size as u64,
                    );
                },
                None => {},
            }
            self.counters.change(recorded_realloc(old_size, new_size, sampled));
            exit_profiler(tl);
        }
        assert(self@ =~= old(self)@.after_realloc(entered, ptr, new_ptr, old_size, new_size));
        allocated
    }
}

} // verus!
