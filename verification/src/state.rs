//! What the profiler records of allocations, and what can be read from it.
use backtrace::Backtrace;
use coarsetime::Clock;
use vstd::prelude::*;

use crate::backtraces::capture_unresolved;
use crate::callstack::StdCallstack;
use crate::ranking::sort_descending;
use crate::sharded_map::ShardedMap;
use crate::stack_stats::{Measurement, StackStats};
use crate::symbols::{SymbolMap, SymbolRegexes};
use crate::text::append_decimal;
use crate::thread_state::YingThreadLocal;

verus! {

/// `Clock::recent_since_epoch` of the `coarsetime` crate: the time of its last update since the Unix
/// epoch, in milliseconds (`Duration::as_millis`).  Nothing is stated of it, as it depends on when the
/// clock was last updated.
#[verifier::external_body]
fn now_millis() -> u64 {
    Clock::recent_since_epoch().as_millis()
}

/// Whether `now` is a reading of the clock: something that reading it may have returned.
pub closed spec fn is_clock_reading(now: u64) -> bool {
    call_ensures(now_millis, (), now)
}

/// A reading of the clock is what reading it returned, as it is.
proof fn law_clock_reading_is_what_the_clock_returned()
    ensures
        forall|now: u64| #[trigger] is_clock_reading(now) <==> call_ensures(now_millis, (), now),
{
}

/// Reads the clock.
fn read_clock() -> (now: u64)
    ensures
        is_clock_reading(now),
{
    let clock = now_millis;
    clock()
}

/// What the sizes of the profiler's maps depend on.
#[derive(Copy, Clone, Debug)]
pub struct MapSizing {
    /// Overrides the initial capacity of every map.  For testing only.
    pub capacity_override: Option<usize>,
    /// The number of CPUs, where it is known.
    pub cpus: Option<usize>,
}

impl MapSizing {
    /// How many shards each map has: symbols, stats and outstanding allocations.
    pub open spec fn shard_counts(self) -> Seq<nat> {
        Seq::new(3, |i: int| crate::sharded_map::shard_count(self.cpus))
    }

    /// The initial capacity of each map: symbols, stats and outstanding allocations.
    pub fn capacities(&self) -> (r: (usize, usize, usize))
        ensures
            r == (match self.capacity_override {
                Some(n) => (n, n, n),
                None => (1000usize, 1000usize, 5000usize),
            }),
    {
        match self.capacity_override {
            Some(n) => (n, n, n),
            None => (1000, 1000, 5000),
        }
    }
}

/// What a [`YingState`] holds.
#[verifier::ext_equal]
pub struct StateView {
    /// The symbols of each instruction pointer seen.
    pub symbols: Map<u64, Seq<crate::symbols::FriendlyView>>,
    /// The stats of each stack trace, by its hash.
    pub stats: Map<u64, crate::stack_stats::StackStatsView>,
    /// The outstanding sampled allocations: for each pointer the hash of the stack trace that it was
    /// allocated from, and when that was, in milliseconds since the epoch.
    pub outstanding: Map<u64, (u64, u64)>,
}

impl StateView {
    /// Nothing recorded.
    pub open spec fn empty() -> Self {
        StateView { symbols: Map::empty(), stats: Map::empty(), outstanding: Map::empty() }
    }

    /// Whether every outstanding allocation belongs to a stack trace that has stats, and every stack
    /// trace is filed under its hash.
    pub open spec fn consistent(self) -> bool {
        &&& forall|ptr: u64| #[trigger]
            self.outstanding.contains_key(ptr) ==> self.stats.contains_key(self.outstanding[ptr].0)
        &&& forall|hash: u64| #[trigger]
            self.stats.contains_key(hash) ==> crate::callstack::hash_of(self.stats[hash].stack)
                == hash
    }

    /// The state after a sampled allocation, from a backtrace that has the frames `frames` once it
    /// has been resolved as far as was needed.
    pub open spec fn with_alloc(
        self,
        ptr: u64,
        size: u64,
        frames: Seq<crate::backtraces::FrameView>,
        now: u64,
    ) -> Self {
        let stack = stack_of(frames);
        let hash = crate::callstack::hash_of(stack);
        StateView {
            symbols: if self.stats.contains_key(hash) {
                self.symbols
            } else {
                crate::callstack::populated(
                    self.symbols,
                    stack,
                    frames,
                    crate::callstack::depth_from(stack, 0),
                )
            },
            stats: self.stats.insert(
                hash,
                if self.stats.contains_key(hash) {
                    self.stats[hash].with_alloc(size)
                } else {
                    crate::stack_stats::StackStatsView::fresh(stack, Some(size))
                },
            ),
            outstanding: if self.outstanding.contains_key(ptr) {
                self.outstanding
            } else {
                self.outstanding.insert(ptr, (hash, now))
            },
        }
    }

    /// Whether there are stats of the stack trace that is kept of these frames.
    pub open spec fn knows_stack(self, frames: Seq<crate::backtraces::FrameView>) -> bool {
        self.stats.contains_key(crate::callstack::hash_of(stack_of(frames)))
    }

    /// Whether an allocation with these frames needs symbols that a backtrace with these frames does
    /// not show yet.
    pub open spec fn needs_symbols(self, frames: Seq<crate::backtraces::FrameView>) -> bool {
        let stack = stack_of(frames);
        !self.knows_stack(frames) && crate::callstack::needs_resolving(
            self.symbols,
            stack,
            frames,
            crate::callstack::depth_from(stack, 0),
        )
    }

    /// Whether each of these frames that gets an entry in the symbol map has been resolved.
    pub open spec fn resolved_where_new(self, frames: Seq<crate::backtraces::FrameView>) -> bool {
        let stack = stack_of(frames);
        forall|j: int|
            0 <= j < crate::callstack::depth_from(stack, 0) && #[trigger] crate::callstack::newly_seen(
                self.symbols,
                stack,
                j,
            ) ==> frames[j + crate::callstack::TOP_FRAMES_TO_SKIP].symbols is Some
    }

    /// The state after a pointer has been freed.
    pub open spec fn with_free(self, ptr: u64, size: u64, now: u64) -> Self {
        if self.outstanding.contains_key(ptr) {
            let (hash, alloc_ts) = self.outstanding[ptr];
            StateView {
                stats: if self.stats.contains_key(hash) {
                    self.stats.insert(
                        hash,
                        self.stats[hash].with_free(size, now.saturating_sub(alloc_ts)),
                    )
                } else {
                    self.stats
                },
                outstanding: self.outstanding.remove(ptr),
                ..self
            }
        } else {
            self
        }
    }

    /// The state after an allocation has moved from `ptr` to `new_ptr` and changed its size.  It is
    /// still the same allocation, of the same stack trace and made at the same time.
    pub open spec fn with_realloc(
        self,
        ptr: u64,
        new_ptr: u64,
        old_size: u64,
        new_size: u64,
    ) -> Self {
        if self.outstanding.contains_key(ptr) {
            let (hash, alloc_ts) = self.outstanding[ptr];
            StateView {
                stats: if self.stats.contains_key(hash) {
                    self.stats.insert(hash, self.stats[hash].with_resize(old_size, new_size))
                } else {
                    self.stats
                },
                outstanding: self.outstanding.remove(ptr).insert(new_ptr, (hash, alloc_ts)),
                ..self
            }
        } else {
            self
        }
    }

    /// The state after an allocation has been denied: only the symbols of the stack trace that
    /// asked for it are new.
    pub open spec fn with_denial(self, frames: Seq<crate::backtraces::FrameView>) -> Self {
        let stack = stack_of(frames);
        StateView {
            symbols: crate::callstack::populated(
                self.symbols,
                stack,
                frames,
                crate::callstack::depth_from(stack, 0),
            ),
            ..self
        }
    }

    /// The state without stats and outstanding allocations.
    pub open spec fn reset(self) -> Self {
        StateView { stats: Map::empty(), outstanding: Map::empty(), ..self }
    }
}

/// The stack trace that is kept of a backtrace.
pub open spec fn stack_of(frames: Seq<crate::backtraces::FrameView>) -> Seq<u64> {
    crate::callstack::kept_frames(
        crate::backtraces::frame_ips(frames),
        crate::callstack::MAX_NUM_FRAMES as nat,
    )
}

/// The first line of the warning about an allocation of `size` bytes that has been denied.
pub open spec fn denial_headline_text(size: u64) -> Seq<char> {
    "WARNING: Huge memory allocation of "@ + crate::text::decimal(size as nat)
        + " bytes denied by Ying profiler\n"@
}

/// The first line of the warning about an allocation of `size` bytes that has been denied, which
/// touches no state.
pub fn denial_headline(size: u64) -> (warning: String)
    ensures
        warning@ == denial_headline_text(size),
{
    let mut warning = "WARNING: Huge memory allocation of ".to_owned();
    append_decimal(&mut warning, size);
    warning.append(" bytes denied by Ying profiler\n");
    warning
}

/// The warning about an allocation of `size` bytes that has been denied.
pub open spec fn denial_text(
    size: u64,
    frames: Seq<crate::backtraces::FrameView>,
    symbols: Map<u64, Seq<crate::symbols::FriendlyView>>,
) -> Seq<char> {
    denial_headline_text(size) + "Stack trace:\n"@ + crate::callstack::stack_text(
        stack_of(frames),
        symbols,
        true,
        true,
        true,
    ) + "\n"@
}

/// A number, or `usize::MAX` if it is larger than that.
pub open spec fn at_most_max(n: nat) -> nat {
    if n <= usize::MAX {
        n
    } else {
        usize::MAX as nat
    }
}

/// Whether `r` are the stats of the top `k` stack traces, in descending order.
pub open spec fn are_top_k(
    stats: Map<u64, crate::stack_stats::StackStatsView>,
    measurement: Measurement,
    k: nat,
    r: Seq<StackStats>,
) -> bool {
    exists|hashes: Seq<u64>| #[trigger]
        crate::ranking::is_top_k(stats, measurement, k, hashes) && hashes.len() == r.len()
            && forall|i: int| 0 <= i < r.len() ==> (#[trigger] r[i])@ == stats[hashes[i]]
}

/// A map of stats with each [`StackStats`] as its view.
pub open spec fn stats_views(m: Map<u64, StackStats>) -> Map<
    u64,
    crate::stack_stats::StackStatsView,
> {
    m.map_values(|s: StackStats| s@)
}

/// What the profiler records: symbols, stats of each stack trace and outstanding allocations.
///
/// Whoever touches it is inside the profiler: every access takes the state of the thread, and asks
/// that its guard is held.
pub struct YingState {
    symbol_map: SymbolMap,
    // Main map of stack hash to StackStats
    stack_stats: ShardedMap<StackStats>,
    // Map of outstanding sampled allocations.  Used to figure out amount of outstanding allocations
    // and statistics about how long lived outstanding allocations are.
    // (*ptr as u64 -> (stack hash, start_timestamp_epoch_millis))
    outstanding_allocs: ShardedMap<(u64, u64)>,
    regexes: SymbolRegexes,
}

impl View for YingState {
    type V = StateView;

    closed spec fn view(&self) -> StateView {
        StateView {
            symbols: crate::symbols::symbol_views(self.symbol_map@),
            stats: stats_views(self.stack_stats@),
            outstanding: self.outstanding_allocs@,
        }
    }
}

impl YingState {
    /// Every part is in order.
    pub closed spec fn parts_wf(&self) -> bool {
        &&& self.symbol_map.wf()
        &&& self.stack_stats.wf()
        &&& self.outstanding_allocs.wf()
        &&& self.regexes.wf()
    }

    /// Every part is in order, and they are consistent with each other.
    pub open spec fn wf(&self) -> bool {
        self.parts_wf() && self@.consistent()
    }

    /// How many shards each map has: symbols, stats and outstanding allocations.
    pub closed spec fn shard_counts(&self) -> Seq<nat> {
        seq![
            self.symbol_map.num_shards(),
            self.stack_stats.num_shards(),
            self.outstanding_allocs.num_shards(),
        ]
    }

    /// A state in which nothing is recorded.
    pub fn new(sizing: MapSizing) -> (r: Self)
        ensures
            r.wf(),
            r@ == StateView::empty(),
            r.shard_counts() == sizing.shard_counts(),
    {
        let (symbol_capacity, stack_capacity, outstanding_capacity): (usize, usize, usize) =
            sizing.capacities();
        let r = YingState {
            symbol_map: ShardedMap::with_capacity(symbol_capacity, sizing.cpus),
            stack_stats: ShardedMap::with_capacity(stack_capacity, sizing.cpus),
            outstanding_allocs: ShardedMap::with_capacity(outstanding_capacity, sizing.cpus),
            regexes: SymbolRegexes::new(),
        };
        assert(r@ =~= StateView::empty());
        assert(r.shard_counts() =~= sizing.shard_counts());
        r
    }

    /// Records a sampled allocation made where the backtrace says.
    pub fn record_alloc(
        &mut self,
        tl: &YingThreadLocal,
        ptr: u64,
        size: u64,
        bt: &mut Backtrace,
        now: u64,
    )
        requires
            tl.locked(),
            old(self).wf(),
        ensures
            final(self).wf(),
            final(self).shard_counts() == old(self).shard_counts(),
            crate::backtraces::ips_of(*final(bt)) == crate::backtraces::ips_of(*old(bt)),
            crate::backtraces::resolved_if(
                crate::backtraces::frames_of(*old(bt)),
                crate::backtraces::frames_of(*final(bt)),
                old(self)@.needs_symbols(crate::backtraces::frames_of(*old(bt))),
            ),
            final(self)@ == old(self)@.with_alloc(
                ptr,
                size,
                crate::backtraces::frames_of(*final(bt)),
                now,
            ),
    {
        // 1. Create a Callstack, check if there is a similar stack
        let stack = StdCallstack::from_backtrace_unresolved(bt);
        let hash: u64 = stack.compute_hash();
        if self.stack_stats.contains_key(hash) {
            // 2. Update stats
            let update = |stats: &mut StackStats|
                ensures
                    final(stats)@ == old(stats)@.with_alloc(size)
            {
                stats.update_alloc_stats(size);
            };
            self.stack_stats.update(hash, update);
        } else {
            // 3. Resolve symbols if needed (new stack entry)
            stack.populate_symbol_map(bt, &mut self.symbol_map, &self.regexes);
            self.stack_stats.insert(hash, StackStats::new(stack, Some(size)));
        }
        // 4. Record allocation so we can track outstanding vs transient allocs
        let keep = |existing: &mut (u64, u64)|
            ensures
                *final(existing) == *old(existing)
        { };
        let create = || -> (entry: (u64, u64))
            ensures
                entry == (hash, now)
        { (hash, now) };
        self.outstanding_allocs.update_or_insert_with(ptr, keep, create);
        assert(self@ =~= old(self)@.with_alloc(
            ptr,
            size,
            crate::backtraces::frames_of(*bt),
            now,
        ));
    }

    /// Records a sampled allocation made by the caller at this time.  Always inlined, so that the
    /// caller's frame is the first one.
    #[inline(always)]
    pub fn profile_alloc(&mut self, tl: &YingThreadLocal, ptr: u64, size: u64)
        requires
            tl.locked(),
            old(self).wf(),
        ensures
            final(self).wf(),
            final(self).shard_counts() == old(self).shard_counts(),
            exists|frames: Seq<crate::backtraces::FrameView>, now: u64|
                {
                    &&& #[trigger] old(self)@.with_alloc(ptr, size, frames, now) == final(self)@
                    &&& is_clock_reading(now)
                    &&& !old(self)@.knows_stack(frames) ==> old(self)@.resolved_where_new(frames)
                },
    {
        // Get unresolved backtrace for speed
        let mut bt = capture_unresolved();
        let ghost captured = crate::backtraces::frames_of(bt);
        let now: u64 = read_clock();
        self.record_alloc(tl, ptr, size, &mut bt, now);
        proof {
            lemma_resolved_where_new(
                old(self)@,
                captured,
                crate::backtraces::frames_of(bt),
                !old(self)@.knows_stack(captured),
            );
        }
    }

    /// Records that a pointer has been freed at this time, and reports whether it was a sampled
    /// allocation.
    pub fn profile_free(&mut self, tl: &YingThreadLocal, ptr: u64, size: u64) -> (sampled: bool)
        requires
            tl.locked(),
            old(self).wf(),
        ensures
            final(self).wf(),
            final(self).shard_counts() == old(self).shard_counts(),
            sampled == old(self)@.outstanding.contains_key(ptr),
            exists|now: u64| #[trigger]
                old(self)@.with_free(ptr, size, now) == final(self)@ && is_clock_reading(now),
    {
        let now: u64 = read_clock();
        self.record_free(tl, ptr, size, now)
    }

    /// The warning about an allocation of `size` bytes by the caller that has been denied.  Always
    /// inlined, so that the caller's frame is the first one.
    #[inline(always)]
    pub fn report_denial(&mut self, tl: &YingThreadLocal, size: u64) -> (warning: String)
        requires
            tl.locked(),
            old(self).wf(),
        ensures
            final(self).wf(),
            final(self).shard_counts() == old(self).shard_counts(),
            exists|frames: Seq<crate::backtraces::FrameView>|
                {
                    &&& final(self)@ == #[trigger] old(self)@.with_denial(frames)
                    &&& old(self)@.resolved_where_new(frames)
                    &&& warning@ == denial_text(size, frames, final(self)@.symbols)
                },
    {
        let mut bt = capture_unresolved();
        let ghost captured = crate::backtraces::frames_of(bt);
        let warning = self.denial_report(tl, size, &mut bt);
        proof {
            lemma_resolved_where_new(
                old(self)@,
                captured,
                crate::backtraces::frames_of(bt),
                true,
            );
        }
        warning
    }

    /// Records that a pointer has been freed, and reports whether it was a sampled allocation.
    pub fn record_free(&mut self, tl: &YingThreadLocal, ptr: u64, size: u64, now: u64) -> (sampled:
        bool)
        requires
            tl.locked(),
            old(self).wf(),
        ensures
            final(self).wf(),
            final(self).shard_counts() == old(self).shard_counts(),
            sampled == old(self)@.outstanding.contains_key(ptr),
            final(self)@ == old(self)@.with_free(ptr, size, now),
    {
        // If the allocation was recorded in outstanding_allocs, then remove it and update stats
        // about number of bytes freed etc.
        match self.outstanding_allocs.remove(ptr) {
            Some((hash, alloc_ts)) => {
                let alloc_time_ms: u64 = now.saturating_sub(alloc_ts);
                let update = |stats: &mut StackStats|
                    ensures
                        final(stats)@ == old(stats)@.with_free(size, alloc_time_ms)
                {
                    stats.update_free_stats(size, alloc_time_ms);
                };
                self.stack_stats.update(hash, update);
                assert(self@ =~= old(self)@.with_free(ptr, size, now));
                true
            },
            None => {
                assert(self@ =~= old(self)@);
                false
            },
        }
    }

    /// Records that an allocation has moved and changed its size, and reports whether it was a
    /// sampled one.
    pub fn record_realloc(
        &mut self,
        tl: &YingThreadLocal,
        ptr: u64,
        new_ptr: u64,
        old_size: u64,
        new_size: u64,
    ) -> (sampled: bool)
        requires
            tl.locked(),
            old(self).wf(),
        ensures
            final(self).wf(),
            final(self).shard_counts() == old(self).shard_counts(),
            sampled == old(self)@.outstanding.contains_key(ptr),
            final(self)@ == old(self)@.with_realloc(ptr, new_ptr, old_size, new_size),
    {
        // If the old pointer was in outstanding_allocs, move it and make a new entry, keeping the
        // old starting timestamp.  Also update stack stats.
        match self.outstanding_allocs.remove(ptr) {
            Some((hash, alloc_ts)) => {
                self.outstanding_allocs.insert(new_ptr, (hash, alloc_ts));
                let update = |stats: &mut StackStats|
                    ensures
                        final(stats)@ == old(stats)@.with_resize(old_size, new_size)
                {
                    stats.update_realloc_stats(old_size, new_size);
                };
                self.stack_stats.update(hash, update);
                assert(self@ =~= old(self)@.with_realloc(ptr, new_ptr, old_size, new_size));
                true
            },
            None => {
                assert(self@ =~= old(self)@);
                false
            },
        }
    }

    /// The warning about an allocation of `size` bytes that has been denied, with the stack trace
    /// that asked for it.
    pub fn denial_report(&mut self, tl: &YingThreadLocal, size: u64, bt: &mut Backtrace) -> (warning:
        String)
        requires
            tl.locked(),
            old(self).wf(),
        ensures
            final(self).wf(),
            final(self).shard_counts() == old(self).shard_counts(),
            crate::backtraces::ips_of(*final(bt)) == crate::backtraces::ips_of(*old(bt)),
            crate::backtraces::resolved_if(
                crate::backtraces::frames_of(*old(bt)),
                crate::backtraces::frames_of(*final(bt)),
                crate::callstack::needs_resolving(
                    old(self)@.symbols,
                    stack_of(crate::backtraces::frames_of(*old(bt))),
                    crate::backtraces::frames_of(*old(bt)),
                    crate::callstack::depth_from(
                        stack_of(crate::backtraces::frames_of(*old(bt))),
                        0,
                    ),
                ),
            ),
            final(self)@ == old(self)@.with_denial(
                crate::backtraces::frames_of(*final(bt)),
            ),
            warning@ == denial_text(
                size,
                crate::backtraces::frames_of(*final(bt)),
                final(self)@.symbols,
            ),
    {
        let stack = StdCallstack::from_backtrace_unresolved(bt);
        stack.populate_symbol_map(bt, &mut self.symbol_map, &self.regexes);
        let mut warning = denial_headline(size);
        warning.append("Stack trace:\n");
        warning.append(
            stack.with_symbols_and_filename(&self.symbol_map, true).render().as_str(),
        );
        warning.append("\n");
        assert(self@ =~= old(self)@.with_denial(
            crate::backtraces::frames_of(*bt),
        ));
        warning
    }

    /// The symbols of each instruction pointer seen.
    pub fn symbols(&self, tl: &YingThreadLocal) -> (r: &SymbolMap)
        requires
            tl.locked(),
            self.wf(),
        ensures
            r.wf(),
            crate::symbols::symbol_views(r@) == self@.symbols,
    {
        &self.symbol_map
    }

    /// Number of instruction pointers whose symbols are known.
    pub fn symbol_map_size(&self, tl: &YingThreadLocal) -> (n: usize)
        requires
            tl.locked(),
            self.wf(),
        ensures
            self@.symbols.dom().finite(),
            n == at_most_max(self@.symbols.len()),
    {
        let n: usize = self.symbol_map.len();
        assert(self@.symbols.dom() =~= self.symbol_map@.dom());
        n
    }

    /// Number of entries for outstanding sampled allocations map.
    pub fn num_outstanding_allocs(&self, tl: &YingThreadLocal) -> (n: usize)
        requires
            tl.locked(),
            self.wf(),
        ensures
            self@.outstanding.dom().finite(),
            n == at_most_max(self@.outstanding.len()),
    {
        self.outstanding_allocs.len()
    }

    /// Number of distinct stack traces that have been sampled.
    pub fn num_stack_traces(&self, tl: &YingThreadLocal) -> (n: usize)
        requires
            tl.locked(),
            self.wf(),
        ensures
            self@.stats.dom().finite(),
            n == at_most_max(self@.stats.len()),
    {
        let n: usize = self.stack_stats.len();
        assert(self@.stats.dom() =~= self.stack_stats@.dom());
        n
    }

    /// A list of stack IDs (stack_hash, bytes) in order from highest number of bytes to lowest.
    pub fn stack_list_desc(&self, tl: &YingThreadLocal, measurement: Measurement) -> (items: Vec<
        (u64, u64),
    >)
        requires
            tl.locked(),
            self.wf(),
        ensures
            crate::ranking::is_ranking(self@.stats, measurement, items@),
    {
        let project = |stack_hash: u64, stats: &StackStats| -> (item: (u64, u64))
            ensures
                item == (stack_hash, stats@.measured(measurement))
        { (stack_hash, stats.measured_bytes(measurement)) };
        let items = self.stack_stats.map_to_vec(project);
        proof {
            let keys = choose|keys: Seq<u64>| #[trigger]
                crate::sharded_map::lists_keys(self.stack_stats@, keys) && keys.len() == items@.len()
                    && forall|i: int|
                    0 <= i < items@.len() ==> call_ensures(
                        project,
                        (keys[i], &self.stack_stats@[keys[i]]),
                        #[trigger] items@[i],
                    );
            assert forall|i: int| 0 <= i < items@.len() implies #[trigger] items@[i] == (
                keys[i],
                self@.stats[keys[i]].measured(measurement),
            ) && self@.stats.contains_key(keys[i]) by {
                assert(keys.contains(keys[i]));
            }
            assert forall|hash: u64| #[trigger]
                self@.stats.contains_key(hash) implies items@.contains(
                (hash, self@.stats[hash].measured(measurement)),
            ) by {
                assert(keys.contains(hash));
                let i = choose|i: int| 0 <= i < keys.len() && keys[i] == hash;
                assert(items@[i] == (hash, self@.stats[hash].measured(measurement)));
            }
            assert(crate::ranking::lists_stacks(self@.stats, measurement, items@));
        }
        let sorted = sort_descending(items);
        proof {
            crate::ranking::lemma_sorted_lists_stacks(
                self@.stats,
                measurement,
                items@,
                sorted@,
            );
        }
        sorted
    }

    /// The stats of the stack trace with the given hash.
    pub fn get_stats_for_stack_hash(&self, tl: &YingThreadLocal, stack_hash: u64) -> (r: Option<
        StackStats,
    >)
        requires
            tl.locked(),
            self.wf(),
        ensures
            r is Some <==> self@.stats.contains_key(stack_hash),
            r matches Some(stats) ==> stats@ == self@.stats[stack_hash],
    {
        self.stack_stats.get_cloned(stack_hash)
    }

    /// The top k stack traces by measured bytes, in descending order.
    pub fn top_k_stacks(&self, tl: &YingThreadLocal, measurement: Measurement, k: usize) -> (r: Vec<
        StackStats,
    >)
        requires
            tl.locked(),
            self.wf(),
        ensures
            are_top_k(self@.stats, measurement, k as nat, r@),
    {
        let items = self.stack_list_desc(tl, measurement);
        let ghost mut hashes: Seq<u64> = Seq::empty();
        let mut r: Vec<StackStats> = Vec::new();
        while r.len() < k && r.len() < items.len()
            invariant
                tl.locked(),
                self.wf(),
                crate::ranking::is_ranking(self@.stats, measurement, items@),
                r@.len() <= k,
                r@.len() <= items@.len(),
                hashes.len() == r@.len(),
                forall|i: int| 0 <= i < hashes.len() ==> #[trigger] hashes[i] == items@[i].0,
                forall|i: int|
                    0 <= i < r@.len() ==> (#[trigger] r@[i])@ == self@.stats[hashes[i]],
            decreases items.len() - r.len(),
        {
            let stack_hash: u64 = items[r.len()].0;
            proof {
                hashes = hashes.push(stack_hash);
            }
            match self.get_stats_for_stack_hash(tl, stack_hash) {
                Some(stats) => {
                    r.push(stats);
                },
                None => {
                    assert(false);
                },
            }
        }
        proof {
            crate::ranking::lemma_top_of_ranking(
                self@.stats,
                measurement,
                items@,
                k as nat,
                hashes,
            );
        }
        r
    }

    /// Whether a pointer is an outstanding sampled allocation.
    pub fn is_outstanding(&self, tl: &YingThreadLocal, ptr: u64) -> (r: bool)
        requires
            tl.locked(),
            self.wf(),
        ensures
            r == self@.outstanding.contains_key(ptr),
    {
        self.outstanding_allocs.contains_key(ptr)
    }

    /// Forgets all stats and outstanding allocations.  For testing only.
    pub fn reset(&mut self, tl: &YingThreadLocal)
        requires
            tl.locked(),
            old(self).wf(),
        ensures
            final(self).wf(),
            final(self).shard_counts() == old(self).shard_counts(),
            final(self)@ == old(self)@.reset(),
    {
        self.stack_stats.clear();
        self.outstanding_allocs.clear();
        assert(self@ =~= old(self)@.reset());
    }
}

/// A stack trace that is looked up in an unresolved backtrace leaves each frame resolved that gets an
/// entry in the symbol map.
proof fn lemma_resolved_where_new(
    s: StateView,
    captured: Seq<crate::backtraces::FrameView>,
    frames: Seq<crate::backtraces::FrameView>,
    looked_up: bool,
)
    requires
        forall|i: int| 0 <= i < captured.len() ==> (#[trigger] captured[i]).symbols is None,
        crate::backtraces::frame_ips(frames) == crate::backtraces::frame_ips(captured),
        crate::backtraces::resolved_if(
            captured,
            frames,
            looked_up && crate::callstack::needs_resolving(
                s.symbols,
                stack_of(captured),
                captured,
                crate::callstack::depth_from(stack_of(captured), 0),
            ),
        ),
    ensures
        looked_up ==> s.resolved_where_new(frames),
{
    let stack = stack_of(captured);
    let depth = crate::callstack::depth_from(stack, 0);
    crate::callstack::lemma_depth_fits(
        crate::backtraces::frame_ips(captured),
        crate::callstack::MAX_NUM_FRAMES as nat,
    );
    if looked_up {
        assert forall|j: int|
            0 <= j < depth && #[trigger] crate::callstack::newly_seen(
                s.symbols,
                stack,
                j,
            ) implies frames[j + crate::callstack::TOP_FRAMES_TO_SKIP].symbols is Some by {
            assert(captured[j + crate::callstack::TOP_FRAMES_TO_SKIP].shown().len() == 0);
        }
    }
}

} // verus!
