//! The re-entrancy guard and the sampling counter that each thread carries.
//!
//! The profiler runs inside the global allocator, so everything it allocates re-enters it.  Each
//! thread therefore has a guard that is checked before any profiler state is touched: while it is
//! held, allocations on that thread are passed through and never profiled.
use vstd::prelude::*;

verus! {

/// One thread's re-entrancy guard and sampling counter.
#[derive(Copy, Clone, Debug, PartialEq, Eq, Structural)]
pub struct YingThreadLocal {
    /// Counts up for every time we enter a no-allocator critical section (ie where we have to touch
    /// allocator state or cause an allocation within profiling-related code and don't want sampling
    /// of re-entrant allocations done).  Nonzero prevents allocator from sampling.
    pub alloc_lock: u32,
    /// How many sampling decisions this thread has made.
    pub sample_count: u32,
}

impl YingThreadLocal {
    /// Whether the guard is held.
    pub open spec fn locked(self) -> bool {
        self.alloc_lock > 0
    }

    /// The state with the guard taken once more.
    pub open spec fn with_lock_taken(self) -> Self {
        YingThreadLocal { alloc_lock: self.alloc_lock.saturating_add(1), ..self }
    }

    /// The state with the guard released once.
    pub open spec fn with_lock_released(self) -> Self {
        YingThreadLocal { alloc_lock: self.alloc_lock.saturating_sub(1), ..self }
    }

    /// The state after the guard has been held for a while.
    pub open spec fn after_lock_out(self) -> Self {
        self.with_lock_taken().with_lock_released()
    }

    /// Whether the next sampling decision is to sample.
    pub open spec fn due(self, ratio: u32) -> bool {
        self.sample_count as int % ratio as int == 0
    }

    /// The state after one sampling decision.
    pub open spec fn ticked(self) -> Self {
        YingThreadLocal { sample_count: self.sample_count.wrapping_add(1), ..self }
    }

    /// The state after `n` sampling decisions.
    pub open spec fn ticked_times(self, n: nat) -> Self
        decreases n,
    {
        if n == 0 {
            self
        } else {
            self.ticked_times((n - 1) as nat).ticked()
        }
    }

    /// Whether an attempt to enter the profiler succeeds, given the sampling ratio where the entry
    /// is subject to sampling.
    pub open spec fn may_enter(self, sampling_ratio: Option<u32>) -> bool {
        !self.locked() && (sampling_ratio matches Some(ratio) ==> self.due(ratio))
    }

    /// The state after an attempt to enter the profiler.  A sampling decision is made only where
    /// the guard was free.
    pub open spec fn after_attempt(self, sampling_ratio: Option<u32>) -> Self {
        if self.locked() {
            self
        } else {
            let counted = if sampling_ratio is Some {
                self.ticked()
            } else {
                self
            };
            if self.may_enter(sampling_ratio) {
                counted.with_lock_taken()
            } else {
                counted
            }
        }
    }

    /// A thread's initial state: not locked, nothing counted.
    pub fn new() -> (tl: Self)
        ensures
            tl == (YingThreadLocal { alloc_lock: 0, sample_count: 0 }),
    {
        YingThreadLocal { alloc_lock: 0, sample_count: 0 }
    }

    /// Whether the guard is held.
    pub fn is_allocator_locked(&self) -> (r: bool)
        ensures
            r == self.locked(),
    {
        self.alloc_lock > 0
    }

    /// Takes the guard once more.
    pub fn set_allocator_lock(&mut self)
        ensures
            *final(self) == old(self).with_lock_taken(),
    {
        self.alloc_lock = self.alloc_lock.saturating_add(1);
    }

    /// Releases the guard once.
    pub fn release_allocator_lock(&mut self)
        ensures
            *final(self) == old(self).with_lock_released(),
    {
        self.alloc_lock = self.alloc_lock.saturating_sub(1);
    }

    /// Obtains the counter, checks for sampling ratio, and updates counter in one go.
    pub fn should_sample(&mut self, ratio: u32) -> (r: bool)
        requires
            ratio > 0,
        ensures
            r == old(self).due(ratio),
            *final(self) == old(self).ticked(),
    {
        let count: u32 = self.sample_count;
        self.sample_count = count.wrapping_add(1);
        count % ratio == 0
    }

    /// Resets counter to 0 to guarantee that the next attempt to enter with a ratio will sample.
    /// For testing only.
    pub fn test_only_reset_sampling_counter(&mut self)
        ensures
            *final(self) == (YingThreadLocal { sample_count: 0, ..*old(self) }),
    {
        self.sample_count = 0;
    }
}

/// Takes the re-entrancy guard if this thread is not already inside the profiler, reporting whether
/// the caller now owns it and must release it.
pub fn try_enter_profiler(tl: &mut YingThreadLocal, sampling_ratio: Option<u32>) -> (entered: bool)
    requires
        !old(tl).locked() ==> (sampling_ratio matches Some(ratio) ==> ratio > 0),
    ensures
        entered == old(tl).may_enter(sampling_ratio),
        *final(tl) == old(tl).after_attempt(sampling_ratio),
{
    if tl.is_allocator_locked() {
        return false;
    }
    // Only consume a sampling tick when we were not already locked out
    if let Some(ratio) = sampling_ratio {
        if !tl.should_sample(ratio) {
            return false;
        }
    }
    tl.set_allocator_lock();
    true
}

/// Releases the guard that a successful [`try_enter_profiler`] took.
pub fn exit_profiler(tl: &mut YingThreadLocal)
    ensures
        *final(tl) == old(tl).with_lock_released(),
{
    tl.release_allocator_lock();
}

/// A thread that is inside the profiler never enters it again, and the attempt leaves no trace.
pub proof fn law_locked_thread_never_enters(tl: YingThreadLocal, sampling_ratio: Option<u32>)
    requires
        tl.locked(),
    ensures
        !tl.may_enter(sampling_ratio),
        tl.after_attempt(sampling_ratio) == tl,
{
}

/// Locking out the profiler for a while leaves a thread as it was, and the thread is locked in
/// between, however often it was locked before.
pub proof fn law_lock_out_restores(tl: YingThreadLocal)
    requires
        tl.alloc_lock < u32::MAX,
    ensures
        tl.with_lock_taken().locked(),
        tl.after_lock_out() == tl,
{
}

/// Entering the profiler and leaving it again frees the guard and keeps the sampling decision.
pub proof fn law_enter_then_exit(tl: YingThreadLocal, sampling_ratio: Option<u32>)
    requires
        tl.may_enter(sampling_ratio),
    ensures
        tl.after_attempt(sampling_ratio).locked(),
        tl.after_attempt(sampling_ratio).with_lock_released() == (if sampling_ratio is Some {
            tl.ticked()
        } else {
            tl
        }),
{
}

/// With the counter reset, the next attempt to enter is sampled, whatever the ratio.
pub proof fn law_reset_guarantees_next_sample(tl: YingThreadLocal, ratio: u32)
    requires
        ratio > 0,
        !tl.locked(),
    ensures
        (YingThreadLocal { sample_count: 0, ..tl }).may_enter(Some(ratio)),
{
    assert(0int % ratio as int == 0) by (nonlinear_arith)
        requires
            ratio > 0,
    ;
}

proof fn lemma_ticked_times(tl: YingThreadLocal, n: nat)
    requires
        tl.sample_count + n <= u32::MAX,
    ensures
        tl.ticked_times(n).sample_count == tl.sample_count + n,
        tl.ticked_times(n).alloc_lock == tl.alloc_lock,
    decreases n,
{
    if n > 0 {
        lemma_ticked_times(tl, (n - 1) as nat);
    }
}

/// One in `ratio` is sampled: of `ratio` sampling decisions in a row, exactly one says yes.
/// The run of decisions is one in which the counter does not wrap around.
pub proof fn law_one_in_ratio_is_sampled(tl: YingThreadLocal, ratio: u32)
    requires
        ratio > 0,
        tl.sample_count + ratio - 1 <= u32::MAX,
    ensures
        exists|i: nat|
            i < ratio && #[trigger] tl.ticked_times(i).due(ratio) && forall|j: nat|
                j < ratio && #[trigger] tl.ticked_times(j).due(ratio) ==> j == i,
{
    let c = tl.sample_count as int;
    let r = ratio as int;
    let i = ((r - c % r) % r) as nat;
    vstd::arithmetic::div_mod::lemma_mod_bound(c, r);
    vstd::arithmetic::div_mod::lemma_mod_bound(r - c % r, r);
    assert((c + i) % r == 0) by {
        if c % r == 0 {
            vstd::arithmetic::div_mod::lemma_mod_self_0(r);
        } else {
            vstd::arithmetic::div_mod::lemma_small_mod((r - c % r) as nat, r as nat);
            vstd::arithmetic::div_mod::lemma_fundamental_div_mod(c, r);
            assert(c + i == r * (c / r + 1)) by (nonlinear_arith)
                requires
                    c == r * (c / r) + c % r,
                    i == r - c % r,
            ;
            vstd::arithmetic::div_mod::lemma_mod_multiples_basic(c / r + 1, r);
            assert(r * (c / r + 1) == (c / r + 1) * r) by (nonlinear_arith);
        }
    }
    lemma_ticked_times(tl, i);
    assert(tl.ticked_times(i).due(ratio));
    assert forall|j: nat| j < ratio && #[trigger] tl.ticked_times(j).due(ratio) implies j == i by {
        lemma_ticked_times(tl, j);
        let a = c + i;
        let b = c + j;
        vstd::arithmetic::div_mod::lemma_fundamental_div_mod(a, r);
        vstd::arithmetic::div_mod::lemma_fundamental_div_mod(b, r);
        let qa = a / r;
        let qb = b / r;
        assert(qa == qb) by (nonlinear_arith)
            requires
                a == r * qa,
                b == r * qb,
                -r < a - b < r,
                r > 0,
        ;
    }
}

} // verus!
