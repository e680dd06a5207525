//! What is known of each stack trace that allocates.
use vstd::prelude::*;

use crate::callstack::StdCallstack;
use crate::flamegraph::stack_block;
use crate::histogram::MillisHistogram;
use crate::profiler::YingProfiler;
use crate::symbols::SymbolMap;
use crate::text::append_decimal;
use crate::thread_state::{exit_profiler, YingThreadLocal};

verus! {

/// What a stack trace is ranked by.
#[derive(Copy, Clone, Debug, PartialEq, Eq, Structural)]
pub enum Measurement {
    /// All bytes allocated.
    AllocatedBytes,
    /// Bytes allocated and not freed.
    RetainedBytes,
}

/// What a [`StackStats`] holds.
#[verifier::ext_equal]
pub struct StackStatsView {
    /// The frames of the stack trace.
    pub stack: Seq<u64>,
    /// Bytes allocated from this stack trace.
    pub allocated_bytes: u64,
    /// Allocations from this stack trace.
    pub num_allocations: u64,
    /// Bytes of these allocations that have been freed.
    pub freed_bytes: u64,
    /// How many of these allocations have been freed.
    pub num_frees: u64,
    /// How long the freed allocations lived.
    pub hist: crate::histogram::HistogramView,
}

impl StackStatsView {
    /// The stats of a stack trace that is new, with its first allocation if there is one.
    pub open spec fn fresh(stack: Seq<u64>, initial_alloc_bytes: Option<u64>) -> Self {
        StackStatsView {
            stack,
            allocated_bytes: match initial_alloc_bytes {
                Some(bytes) => bytes,
                None => 0,
            },
            num_allocations: if initial_alloc_bytes is Some {
                1
            } else {
                0
            },
            freed_bytes: 0,
            num_frees: 0,
            hist: crate::histogram::HistogramView::empty(),
        }
    }

    /// The stats after another allocation.  Each total wraps around at the end of its range.
    pub open spec fn with_alloc(self, size: u64) -> Self {
        StackStatsView {
            num_allocations: self.num_allocations.wrapping_add(1),
            allocated_bytes: self.allocated_bytes.wrapping_add(size),
            ..self
        }
    }

    /// The stats after an allocation that lived for `alloc_time_ms` has been freed.
    pub open spec fn with_free(self, size: u64, alloc_time_ms: u64) -> Self {
        StackStatsView {
            num_frees: self.num_frees.wrapping_add(1),
            freed_bytes: self.freed_bytes.wrapping_add(size),
            hist: self.hist.with_sample(alloc_time_ms),
            ..self
        }
    }

    /// The stats after an allocation has changed its size, which counts neither as another
    /// allocation nor as a free.
    pub open spec fn with_resize(self, old_size: u64, new_size: u64) -> Self {
        StackStatsView {
            allocated_bytes: if new_size > old_size {
                self.allocated_bytes.wrapping_add((new_size - old_size) as u64)
            } else {
                self.allocated_bytes.wrapping_sub((old_size - new_size) as u64)
            },
            ..self
        }
    }

    /// Bytes allocated and not freed.
    pub open spec fn retained(self) -> u64 {
        self.allocated_bytes.saturating_sub(self.freed_bytes)
    }

    /// The bytes that a stack trace is ranked by.
    pub open spec fn measured(self, measurement: Measurement) -> u64 {
        match measurement {
            Measurement::AllocatedBytes => self.allocated_bytes,
            Measurement::RetainedBytes => self.retained(),
        }
    }

    /// The text of a report, given its figures as text.
    pub open spec fn report_text(
        self,
        figures: ReportFigures,
        symbols: Map<u64, Seq<crate::symbols::FriendlyView>>,
        with_filenames: bool,
        expand_frames: bool,
    ) -> Seq<char> {
        crate::text::decimal(self.allocated_bytes as nat) + " profiled bytes allocated ("@
            + figures.allocated_pct@ + "%) ("@ + crate::text::decimal(self.num_allocations as nat)
            + " allocations)\n"@ + "  "@ + crate::text::decimal(self.retained() as nat)
            + " profiled bytes retained  ("@ + crate::text::decimal(self.num_frees as nat)
            + " frees)\n"@ + "    ("@ + figures.retained_pct_all@
            + "% of all retained profiled allocs) ("@ + figures.retained_pct_allocs@
            + "% of allocated bytes)\n"@ + "  "@ + self.hist.report_text(figures.avg_secs@) + "\n"@
            + crate::callstack::stack_text(
            self.stack,
            symbols,
            with_filenames,
            true,
            expand_frames,
        ) + "\n"@
    }
}

/// The quotients that a report shows, each as its dividend and its divisor.
#[derive(Copy, Clone, Debug, PartialEq, Eq)]
pub struct ReportQuotients {
    /// Allocated bytes of this stack trace out of all profiled bytes allocated.
    pub allocated: (u64, u64),
    /// Retained bytes of this stack trace out of all profiled bytes retained.
    pub retained_of_all: (u64, u64),
    /// Retained bytes out of allocated bytes, both of this stack trace.
    pub retained_of_allocated: (u64, u64),
    /// The milliseconds that the freed allocations lived, by their number.
    pub lifetime_millis: (u64, u64),
}

/// The [`ReportQuotients`] as a report shows them: percentages, and an average in seconds.
pub struct ReportFigures {
    /// Allocated bytes of this stack trace in percent of all profiled bytes allocated.
    pub allocated_pct: String,
    /// Retained bytes of this stack trace in percent of all profiled bytes retained.
    pub retained_pct_all: String,
    /// Retained bytes in percent of allocated bytes, both of this stack trace.
    pub retained_pct_allocs: String,
    /// The seconds that the freed allocations lived on average.
    pub avg_secs: String,
}

/// Central struct collecting stats about each stack trace.
#[derive(Debug)]
pub struct StackStats {
    /// The stack trace.
    pub stack: StdCallstack,
    /// Bytes allocated from this stack trace.
    pub allocated_bytes: u64,
    /// Allocations from this stack trace.
    pub num_allocations: u64,
    /// Bytes of these allocations that have been freed.
    pub freed_bytes: u64,
    /// How many of these allocations have been freed.
    pub num_frees: u64,
    /// How long the freed allocations lived.
    pub hist: MillisHistogram,
}

impl Clone for StackStats {
    fn clone(&self) -> (r: Self)
        ensures
            r == *self,
    {
        StackStats {
            stack: self.stack.clone(),
            allocated_bytes: self.allocated_bytes,
            num_allocations: self.num_allocations,
            freed_bytes: self.freed_bytes,
            num_frees: self.num_frees,
            hist: self.hist,
        }
    }
}

impl View for StackStats {
    type V = StackStatsView;

    open spec fn view(&self) -> StackStatsView {
        StackStatsView {
            stack: self.stack@,
            allocated_bytes: self.allocated_bytes,
            num_allocations: self.num_allocations,
            freed_bytes: self.freed_bytes,
            num_frees: self.num_frees,
            hist: self.hist@,
        }
    }
}

impl StackStats {
    /// The stats of a stack trace that is new, with its first allocation if there is one.
    pub fn new(stack: StdCallstack, initial_alloc_bytes: Option<u64>) -> (r: Self)
        ensures
            r@ == StackStatsView::fresh(stack@, initial_alloc_bytes),
    {
        let (allocated_bytes, num_allocations): (u64, u64) = match initial_alloc_bytes {
            Some(bytes) => (bytes, 1),
            None => (0, 0),
        };
        StackStats {
            stack,
            allocated_bytes,
            num_allocations,
            freed_bytes: 0,
            num_frees: 0,
            hist: MillisHistogram::new(),
        }
    }

    /// Update stats when there is another allocation.
    pub fn update_alloc_stats(&mut self, size: u64)
        ensures
            final(self)@ == old(self)@.with_alloc(size),
    {
        self.num_allocations = self.num_allocations.wrapping_add(1);
        self.allocated_bytes = self.allocated_bytes.wrapping_add(size);
    }

    /// Update stats when an allocation is freed.
    pub fn update_free_stats(&mut self, size: u64, alloc_time_ms: u64)
        ensures
            final(self)@ == old(self)@.with_free(size, alloc_time_ms),
    {
        self.num_frees = self.num_frees.wrapping_add(1);
        self.freed_bytes = self.freed_bytes.wrapping_add(size);
        self.hist.add_sample(alloc_time_ms);
    }

    /// Update stats when an allocation changes its size.
    pub fn update_realloc_stats(&mut self, old_size: u64, new_size: u64)
        ensures
            final(self)@ == old(self)@.with_resize(old_size, new_size),
    {
        if new_size > old_size {
            self.allocated_bytes = self.allocated_bytes.wrapping_add(new_size - old_size);
        } else {
            self.allocated_bytes = self.allocated_bytes.wrapping_sub(old_size - new_size);
        }
        // Don't change number of allocations or frees
    }

    /// The number of "retained" bytes as seen by this stack from sampling.
    pub fn retained_profiled_bytes(&self) -> (r: u64)
        ensures
            r == self@.retained(),
    {
        // NOTE: saturating_sub here is really important, freed could be slightly bigger than
        // allocated
        self.allocated_bytes.saturating_sub(self.freed_bytes)
    }

    /// The bytes that this stack trace is ranked by.
    pub fn measured_bytes(&self, measurement: Measurement) -> (r: u64)
        ensures
            r == self@.measured(measurement),
    {
        match measurement {
            Measurement::AllocatedBytes => self.allocated_bytes,
            Measurement::RetainedBytes => self.retained_profiled_bytes(),
        }
    }

    /// What each figure of a report is the quotient of, given the profiled bytes of all stack
    /// traces together.
    pub fn quotients(&self, profiled_allocated: u64, profiled_retained: u64) -> (r: ReportQuotients)
        ensures
            r == (ReportQuotients {
                allocated: (self@.allocated_bytes, profiled_allocated),
                retained_of_all: (self@.retained(), profiled_retained),
                retained_of_allocated: (self@.retained(), self@.allocated_bytes),
                lifetime_millis: (self@.hist.sum, self@.hist.count),
            }),
    {
        let retained: u64 = self.retained_profiled_bytes();
        ReportQuotients {
            allocated: (self.allocated_bytes, profiled_allocated),
            retained_of_all: (retained, profiled_retained),
            retained_of_allocated: (retained, self.allocated_bytes),
            lifetime_millis: self.hist.totals(),
        }
    }

    /// The multi-line report of these stats with the given symbols.
    pub fn report_with_symbols(
        &self,
        figures: &ReportFigures,
        symbols: &SymbolMap,
        with_filenames: bool,
        expand_frames: bool,
    ) -> (report: String)
        requires
            symbols.wf(),
        ensures
            report@ == self@.report_text(
                *figures,
                crate::symbols::symbol_views(symbols@),
                with_filenames,
                expand_frames,
            ),
    {
        let mut report = String::new();
        append_decimal(&mut report, self.allocated_bytes);
        assert(report@ =~= crate::text::decimal(self.allocated_bytes as nat));
        report.append(" profiled bytes allocated (");
        report.append(figures.allocated_pct.as_str());
        report.append("%) (");
        append_decimal(&mut report, self.num_allocations);
        report.append(" allocations)\n");
        report.append("  ");
        append_decimal(&mut report, self.retained_profiled_bytes());
        report.append(" profiled bytes retained  (");
        append_decimal(&mut report, self.num_frees);
        report.append(" frees)\n");
        report.append("    (");
        report.append(figures.retained_pct_all.as_str());
        report.append("% of all retained profiled allocs) (");
        report.append(figures.retained_pct_allocs.as_str());
        report.append("% of allocated bytes)\n");
        report.append("  ");
        report.append(self.hist.report(figures.avg_secs.as_str()).as_str());
        report.append("\n");
        let decorated_stack = if with_filenames {
            self.stack.with_symbols_and_filename(symbols, expand_frames)
        } else {
            self.stack.with_symbols(symbols, expand_frames)
        };
        report.append(decorated_stack.render().as_str());
        report.append("\n");
        report
    }

    /// What each figure of a report on these stats is the quotient of.
    pub fn report_quotients(&self, profiler: &YingProfiler) -> (r: ReportQuotients)
        ensures
            r == (ReportQuotients {
                allocated: (self@.allocated_bytes, profiler@.counters.profiled_allocated as u64),
                retained_of_all: (
                    self@.retained(),
                    profiler@.counters.profiled_retained as u64,
                ),
                retained_of_allocated: (self@.retained(), self@.allocated_bytes),
                lifetime_millis: (self@.hist.sum, self@.hist.count),
            }),
    {
        self.quotients(
            profiler.profiled_bytes_allocated() as u64,
            profiler.profiled_bytes_retained() as u64,
        )
    }

    /// Create a rich multi-line report of this StackStats
    /// * with_filenames - add source filenames to stack trace
    /// * expand_frames - show the symbols inlined into each frame
    /// * figures - the quotients of [`StackStats::report_quotients`] as text
    pub fn rich_report(
        &self,
        profiler: &mut YingProfiler,
        tl: &mut YingThreadLocal,
        with_filenames: bool,
        expand_frames: bool,
        figures: &ReportFigures,
    ) -> (report: String)
        requires
            old(profiler).wf(),
        ensures
            final(profiler).wf(),
            final(profiler).same_settings(old(profiler)),
            final(profiler)@ == old(profiler)@.ready(),
            *final(tl) == old(tl).after_lock_out(),
            report@ == self@.report_text(
                *figures,
                old(profiler)@.state.symbols,
                with_filenames,
                expand_frames,
            ),
    {
        tl.set_allocator_lock();
        let symbols = profiler.get_state_locked(&*tl).symbols(&*tl);
        let report = self.report_with_symbols(figures, symbols, with_filenames, expand_frames);
        exit_profiler(tl);
        report
    }

    /// A report of this stack and its measured bytes that is compatible with the output of `dtrace`.
    pub fn dtrace_report(
        &self,
        profiler: &mut YingProfiler,
        tl: &mut YingThreadLocal,
        measurement: Measurement,
    ) -> (report: String)
        requires
            old(profiler).wf(),
        ensures
            final(profiler).wf(),
            final(profiler).same_settings(old(profiler)),
            final(profiler)@ == old(profiler)@.ready(),
            *final(tl) == old(tl).after_lock_out(),
            report@ == crate::flamegraph::block_text(
                crate::flamegraph::shown_names(self@.stack, old(profiler)@.state.symbols),
                self@.measured(measurement),
            ),
    {
        tl.set_allocator_lock();
        let report = stack_block(self, profiler.get_state_locked(&*tl).symbols(&*tl), measurement);
        exit_profiler(tl);
        report
    }
}

} // verus!
