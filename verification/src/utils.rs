//! Periodic reports and flamegraphs: what is reported, when, and under which name.
use vstd::prelude::*;

use crate::flamegraph::{stacks_fit, Drawing, FoldedStacks, FLAMEGRAPH_STACKS};
use crate::profiler::YingProfiler;
use crate::stack_stats::{Measurement, ReportFigures, StackStats};
use crate::state::YingState;
use crate::symbols::SymbolMap;
use crate::text::append_decimal;
use crate::thread_state::{exit_profiler, YingThreadLocal};

verus! {

/// How often memory is checked by default, in seconds.
pub const DEFAULT_CHECK_INTERVAL_SECS: usize = 300;

/// The change in retained memory that triggers a report by default, in percent.
pub const DEFAULT_PCT_CHANGE_TRIGGER: usize = 10;

/// Where reports are written if profiling is started without further settings.
pub const DEFAULT_REPORTING_PATH: &'static str = "ying-profiles";

/// The retained memory that the first check compares with: 20 MB.
pub const INITIAL_RETAINED_MEM: usize = 20_971_520;

/// The number of bytes of a megabyte.
pub const BYTES_PER_MB: usize = 1_048_576;

/// How many stack traces a report shows.
pub const REPORTED_STACKS: usize = 10;

/// What a [`ProfilerRunner`] is set to.
#[verifier::ext_equal]
pub struct RunnerView {
    /// Number of seconds in between memory checks.
    pub check_interval_secs: usize,
    /// Percent change in retained memory to trigger a report.
    pub report_pct_change_trigger: usize,
    /// Path to write top retained memory reports to.
    pub reporting_path: Seq<char>,
    /// Whether inlined call stack symbols are expanded.
    pub expand_frames: bool,
    /// Whether flamegraphs are generated.
    pub gen_flamegraphs: bool,
    /// Whether allocated memory is measured instead of retained memory.
    pub measure_allocated_not_retained: bool,
}

impl RunnerView {
    /// The default settings.
    pub open spec fn defaults() -> Self {
        RunnerView {
            check_interval_secs: DEFAULT_CHECK_INTERVAL_SECS,
            report_pct_change_trigger: DEFAULT_PCT_CHANGE_TRIGGER,
            reporting_path: Seq::empty(),
            expand_frames: false,
            gen_flamegraphs: false,
            measure_allocated_not_retained: false,
        }
    }

    /// The settings that profiling is started with if nothing else is said.
    pub open spec fn started() -> Self {
        RunnerView {
            reporting_path: DEFAULT_REPORTING_PATH@,
            gen_flamegraphs: true,
            ..Self::defaults()
        }
    }

    /// What stack traces are ranked by.
    pub open spec fn measurement(self) -> Measurement {
        if self.measure_allocated_not_retained {
            Measurement::AllocatedBytes
        } else {
            Measurement::RetainedBytes
        }
    }
}

/// A background thread that dumps out stats, flamegraphs, and does other periodic cleanup.
/// 1. Dumps out top retained memory stats to both logs and disk
/// 2. Can optionally dump out flamegraphs
/// 3. Lets you choose between dumping retained or allocated reports/flamegraphs
///
/// The runner thread will check the amount of retained memory as estimated by this profiler,
/// every `check_interval_secs`.  If the retained memory changes from the previous time by more than
/// `report_pct_change_trigger`, then it will dump out a memory report of the top either retained or
/// allocated stack traces as a file to the chosen `reporting_path` directory on disk.  The file will
/// have the ISO8601 timestamp and the amount of retained memory in the filename for convenience.
/// Optionally, a flamegraph will also be dumped.
#[derive(Debug, PartialEq)]
pub struct ProfilerRunner {
    /// Number of seconds in between memory checks.
    pub check_interval_secs: usize,
    /// Percent change in retained memory to trigger a report.
    pub report_pct_change_trigger: usize,
    /// Path to write top retained memory reports to.
    pub reporting_path: String,
    /// Expand inlined call stack symbols with a > ?
    pub expand_frames: bool,
    /// Generate flamegraphs at reporting_path.
    pub gen_flamegraphs: bool,
    /// True=measure allocated memory instead of False=measure retained memory.
    pub measure_allocated_not_retained: bool,
}

impl View for ProfilerRunner {
    type V = RunnerView;

    open spec fn view(&self) -> RunnerView {
        RunnerView {
            check_interval_secs: self.check_interval_secs,
            report_pct_change_trigger: self.report_pct_change_trigger,
            reporting_path: self.reporting_path@,
            expand_frames: self.expand_frames,
            gen_flamegraphs: self.gen_flamegraphs,
            measure_allocated_not_retained: self.measure_allocated_not_retained,
        }
    }
}

impl Clone for ProfilerRunner {
    fn clone(&self) -> (r: Self)
        ensures
            r@ == self@,
    {
        ProfilerRunner::new(
            self.check_interval_secs,
            self.report_pct_change_trigger,
            self.reporting_path.as_str(),
            self.expand_frames,
            self.gen_flamegraphs,
            self.measure_allocated_not_retained,
        )
    }
}

/// Creates a new ProfilerRunner with default values.  Writes reports to current directory, does not
/// expand frames, every 5 minute checks on memory, 10% change triggers report.  No flamegraphs,
/// retained memory.
impl Default for ProfilerRunner {
    fn default() -> (r: Self)
        ensures
            r@ == RunnerView::defaults(),
    {
        let path = String::new();
        let r = Self::new(
            DEFAULT_CHECK_INTERVAL_SECS,
            DEFAULT_PCT_CHANGE_TRIGGER,
            path.as_str(),
            false,
            false,
            false,
        );
        assert(r@ =~= RunnerView::defaults());
        r
    }
}

impl ProfilerRunner {
    /// Creates a new ProfilerRunner with specific parameters.
    pub fn new(
        check_interval_secs: usize,
        report_pct_change_trigger: usize,
        reporting_path: &str,
        expand_frames: bool,
        gen_flamegraphs: bool,
        measure_allocated_not_retained: bool,
    ) -> (r: Self)
        ensures
            r@ == (RunnerView {
                check_interval_secs,
                report_pct_change_trigger,
                reporting_path: reporting_path@,
                expand_frames,
                gen_flamegraphs,
                measure_allocated_not_retained,
            }),
    {
        ProfilerRunner {
            check_interval_secs,
            report_pct_change_trigger,
            reporting_path: reporting_path.to_owned(),
            expand_frames,
            gen_flamegraphs,
            measure_allocated_not_retained,
        }
    }

    /// What stack traces are ranked by.
    pub fn measurement(&self) -> (r: Measurement)
        ensures
            r == self@.measurement(),
    {
        if self.measure_allocated_not_retained {
            Measurement::AllocatedBytes
        } else {
            Measurement::RetainedBytes
        }
    }

    /// The stack traces that a report shows.
    pub fn top_stacks(&self, state: &YingState, tl: &YingThreadLocal) -> (r: Vec<StackStats>)
        requires
            tl.locked(),
            state.wf(),
        ensures
            crate::state::are_top_k(
                state@.stats,
                self@.measurement(),
                REPORTED_STACKS as nat,
                r@,
            ),
    {
        state.top_k_stacks(tl, self.measurement(), REPORTED_STACKS)
    }

    /// The report on one of these stack traces, given its figures as text.
    pub fn report_on(&self, stats: &StackStats, figures: &ReportFigures, symbols: &SymbolMap) -> (r:
        String)
        requires
            symbols.wf(),
        ensures
            r@ == stats@.report_text(
                *figures,
                crate::symbols::symbol_views(symbols@),
                false,
                self@.expand_frames,
            ),
    {
        stats.report_with_symbols(figures, symbols, false, self.expand_frames)
    }

    /// What a report says of these stack traces, one after the other, given the figures of each.
    pub fn report_text(
        &self,
        stacks: &Vec<StackStats>,
        figures: &Vec<ReportFigures>,
        symbols: &SymbolMap,
    ) -> (r: String)
        requires
            symbols.wf(),
            stacks@.len() == figures@.len(),
        ensures
            r@ == entries_text(
                self@,
                stacks@,
                figures@,
                crate::symbols::symbol_views(symbols@),
                stacks@.len(),
            ),
    {
        let ghost views = crate::symbols::symbol_views(symbols@);
        let mut r = String::new();
        let mut i: usize = 0;
        assert(r@ =~= entries_text(self@, stacks@, figures@, views, 0));
        while i < stacks.len()
            invariant
                symbols.wf(),
                views == crate::symbols::symbol_views(symbols@),
                stacks@.len() == figures@.len(),
                i <= stacks@.len(),
                r@ == entries_text(self@, stacks@, figures@, views, i as nat),
            decreases stacks.len() - i,
        {
            r.append("---\n");
            r.append(self.report_on(&stacks[i], &figures[i], symbols).as_str());
            r.append("\n\n");
            i += 1;
        }
        r
    }

    /// The names of the files to write at `timestamp`, when `retained` bytes are retained.
    pub fn files(&self, timestamp: &str, retained: usize) -> (r: ReportFiles)
        ensures
            r.report@ == file_name(timestamp@, retained, "report"@),
            r.flamegraph is Some <==> self@.gen_flamegraphs,
            r.flamegraph matches Some(name) ==> name@ == file_name(timestamp@, retained, "svg"@),
    {
        ReportFiles {
            report: make_file_name(timestamp, retained, "report"),
            flamegraph: if self.gen_flamegraphs {
                Some(make_file_name(timestamp, retained, "svg"))
            } else {
                None
            },
        }
    }
}

/// The names of the files that a report is written to.
#[derive(Debug)]
pub struct ReportFiles {
    /// The report.
    pub report: String,
    /// The flamegraph, where one is generated.
    pub flamegraph: Option<String>,
}

/// What a [`ProfilerRunnerBuilder`] has been told: each setting, where there is one.
#[verifier::ext_equal]
pub struct BuilderView {
    /// Number of seconds in between memory checks.
    pub check_interval_secs: Option<usize>,
    /// Percent change in retained memory to trigger a report.
    pub report_pct_change_trigger: Option<usize>,
    /// Path to write top retained memory reports to.
    pub reporting_path: Option<Seq<char>>,
    /// Whether inlined call stack symbols are expanded.
    pub expand_frames: Option<bool>,
    /// Whether flamegraphs are generated.
    pub gen_flamegraphs: Option<bool>,
    /// Whether allocated memory is measured instead of retained memory.
    pub measure_allocated_not_retained: Option<bool>,
}

impl BuilderView {
    /// No setting.
    pub open spec fn unset() -> Self {
        BuilderView {
            check_interval_secs: None,
            report_pct_change_trigger: None,
            reporting_path: None,
            expand_frames: None,
            gen_flamegraphs: None,
            measure_allocated_not_retained: None,
        }
    }

    /// The settings, with the default for each that has been left out.
    pub open spec fn built(self) -> RunnerView {
        let defaults = RunnerView::defaults();
        RunnerView {
            check_interval_secs: match self.check_interval_secs {
                Some(v) => v,
                None => defaults.check_interval_secs,
            },
            report_pct_change_trigger: match self.report_pct_change_trigger {
                Some(v) => v,
                None => defaults.report_pct_change_trigger,
            },
            reporting_path: match self.reporting_path {
                Some(v) => v,
                None => defaults.reporting_path,
            },
            expand_frames: match self.expand_frames {
                Some(v) => v,
                None => defaults.expand_frames,
            },
            gen_flamegraphs: match self.gen_flamegraphs {
                Some(v) => v,
                None => defaults.gen_flamegraphs,
            },
            measure_allocated_not_retained: match self.measure_allocated_not_retained {
                Some(v) => v,
                None => defaults.measure_allocated_not_retained,
            },
        }
    }
}

/// Why a runner cannot be built.
#[derive(Debug, PartialEq)]
pub enum ProfilerRunnerBuilderError {
    /// A setting without a default has been left out.
    UninitializedField(String),
}

/// Builds a [`ProfilerRunner`], with the default for each setting that is left out.
#[derive(Debug)]
pub struct ProfilerRunnerBuilder {
    check_interval_secs: Option<usize>,
    report_pct_change_trigger: Option<usize>,
    reporting_path: Option<String>,
    expand_frames: Option<bool>,
    gen_flamegraphs: Option<bool>,
    measure_allocated_not_retained: Option<bool>,
}

impl View for ProfilerRunnerBuilder {
    type V = BuilderView;

    closed spec fn view(&self) -> BuilderView {
        BuilderView {
            check_interval_secs: self.check_interval_secs,
            report_pct_change_trigger: self.report_pct_change_trigger,
            reporting_path: match self.reporting_path {
                Some(path) => Some(path@),
                None => None,
            },
            expand_frames: self.expand_frames,
            gen_flamegraphs: self.gen_flamegraphs,
            measure_allocated_not_retained: self.measure_allocated_not_retained,
        }
    }
}

impl Default for ProfilerRunnerBuilder {
    fn default() -> (r: Self)
        ensures
            r@ == BuilderView::unset(),
    {
        ProfilerRunnerBuilder {
            check_interval_secs: None,
            report_pct_change_trigger: None,
            reporting_path: None,
            expand_frames: None,
            gen_flamegraphs: None,
            measure_allocated_not_retained: None,
        }
    }
}

impl ProfilerRunnerBuilder {
    /// Sets the number of seconds in between memory checks.
    pub fn check_interval_secs(&mut self, value: usize) -> (r: &mut Self)
        ensures
            r@ == (BuilderView { check_interval_secs: Some(value), ..old(self)@ }),
            *final(self) == *final(r),
    {
        self.check_interval_secs = Some(value);
        self
    }

    /// Sets the percent change in retained memory to trigger a report.
    pub fn report_pct_change_trigger(&mut self, value: usize) -> (r: &mut Self)
        ensures
            r@ == (BuilderView { report_pct_change_trigger: Some(value), ..old(self)@ }),
            *final(self) == *final(r),
    {
        self.report_pct_change_trigger = Some(value);
        self
    }

    /// Sets the path to write top retained memory reports to.
    pub fn reporting_path(&mut self, value: &str) -> (r: &mut Self)
        ensures
            r@ == (BuilderView { reporting_path: Some(value@), ..old(self)@ }),
            *final(self) == *final(r),
    {
        self.reporting_path = Some(value.to_owned());
        self
    }

    /// Sets whether inlined call stack symbols are expanded.
    pub fn expand_frames(&mut self, value: bool) -> (r: &mut Self)
        ensures
            r@ == (BuilderView { expand_frames: Some(value), ..old(self)@ }),
            *final(self) == *final(r),
    {
        self.expand_frames = Some(value);
        self
    }

    /// Sets whether flamegraphs are generated.
    pub fn gen_flamegraphs(&mut self, value: bool) -> (r: &mut Self)
        ensures
            r@ == (BuilderView { gen_flamegraphs: Some(value), ..old(self)@ }),
            *final(self) == *final(r),
    {
        self.gen_flamegraphs = Some(value);
        self
    }

    /// Sets whether allocated memory is measured instead of retained memory.
    pub fn measure_allocated_not_retained(&mut self, value: bool) -> (r: &mut Self)
        ensures
            r@ == (BuilderView { measure_allocated_not_retained: Some(value), ..old(self)@ }),
            *final(self) == *final(r),
    {
        self.measure_allocated_not_retained = Some(value);
        self
    }

    /// Builds the runner.  As every setting has a default, this always succeeds.
    pub fn build(&self) -> (r: Result<ProfilerRunner, ProfilerRunnerBuilderError>)
        ensures
            r matches Ok(runner) && runner@ == self@.built(),
    {
        let reporting_path = match &self.reporting_path {
            Some(path) => path.clone(),
            None => String::new(),
        };
        let runner = ProfilerRunner {
            check_interval_secs: self.check_interval_secs.unwrap_or(DEFAULT_CHECK_INTERVAL_SECS),
            report_pct_change_trigger: self.report_pct_change_trigger.unwrap_or(
                DEFAULT_PCT_CHANGE_TRIGGER,
            ),
            reporting_path,
            expand_frames: self.expand_frames.unwrap_or(false),
            gen_flamegraphs: self.gen_flamegraphs.unwrap_or(false),
            measure_allocated_not_retained: self.measure_allocated_not_retained.unwrap_or(false),
        };
        assert(runner@ =~= self@.built());
        Ok(runner)
    }
}

/// The difference of two numbers.
pub open spec fn distance(a: usize, b: usize) -> int {
    if a >= b {
        a - b
    } else {
        b - a
    }
}

/// Whether memory has changed by more than `trigger` percent.  From nothing, any memory at all is such
/// a change.
pub open spec fn significant(last: usize, new: usize, trigger: usize) -> bool {
    if last == 0 {
        new != 0
    } else {
        distance(new, last) * 100 > trigger * last
    }
}

/// The retained memory that the next check compares with.
#[derive(Copy, Clone, Debug, PartialEq, Eq, Structural)]
pub struct MemoryWatch {
    /// The retained memory when it was last reported.
    pub last_retained: usize,
}

impl MemoryWatch {
    /// The watch before the first report.
    pub fn new() -> (r: Self)
        ensures
            r.last_retained == INITIAL_RETAINED_MEM,
    {
        MemoryWatch { last_retained: INITIAL_RETAINED_MEM }
    }

    /// Whether the retained memory has changed enough to be reported.  If so, the next check
    /// compares with what it is now.
    pub fn check(&mut self, runner: &ProfilerRunner, retained: usize) -> (report: bool)
        ensures
            report == significant(
                old(self).last_retained,
                retained,
                runner@.report_pct_change_trigger,
            ),
            final(self).last_retained == (if report {
                retained
            } else {
                old(self).last_retained
            }),
    {
        let last: usize = self.last_retained;
        let trigger: usize = runner.report_pct_change_trigger;
        let report: bool = if last == 0 {
            retained != 0
        } else {
            let change: usize = if retained >= last {
                retained - last
            } else {
                last - retained
            };
            assert(trigger * last <= u128::MAX) by (nonlinear_arith)
                requires
                    trigger <= u64::MAX,
                    last <= u64::MAX,
            ;
            assert(0 <= trigger * last) by (nonlinear_arith);
            change as u128 * 100 > trigger as u128 * last as u128
        };
        if report {
            self.last_retained = retained;
        }
        report
    }
}

/// The name of a file that is written at `timestamp`, when `retained` bytes are retained: based on
/// timestamp and number of MBs.
pub open spec fn file_name(timestamp: Seq<char>, retained: usize, extension: Seq<char>) -> Seq<
    char,
> {
    "ying."@ + timestamp + "."@ + crate::text::decimal((retained / BYTES_PER_MB) as nat) + "MB."@
        + extension
}

fn make_file_name(timestamp: &str, retained: usize, extension: &str) -> (r: String)
    ensures
        r@ == file_name(timestamp@, retained, extension@),
{
    let mut r = "ying.".to_owned();
    r.append(timestamp);
    r.append(".");
    append_decimal(&mut r, (retained / BYTES_PER_MB) as u64);
    r.append("MB.");
    r.append(extension);
    r
}

/// The reports on the first `n` stack traces as they stand in a file.
pub open spec fn entries_text(
    runner: RunnerView,
    stacks: Seq<StackStats>,
    figures: Seq<ReportFigures>,
    symbols: Map<u64, Seq<crate::symbols::FriendlyView>>,
    n: nat,
) -> Seq<char>
    decreases n,
{
    if n == 0 {
        Seq::empty()
    } else {
        entries_text(runner, stacks, figures, symbols, (n - 1) as nat) + "---\n"@
            + stacks[n - 1]@.report_text(figures[n - 1], symbols, false, runner.expand_frames)
            + "\n\n"@
    }
}

/// Whether the stack traces that a flamegraph shows have few enough bytes to be drawn.
pub open spec fn top_bytes_fit(
    stats: Map<u64, crate::stack_stats::StackStatsView>,
    measurement: Measurement,
) -> bool {
    forall|stacks: Seq<StackStats>| #[trigger]
        crate::state::are_top_k(stats, measurement, FLAMEGRAPH_STACKS as nat, stacks)
            ==> crate::flamegraph::bytes_fit(stacks, measurement)
}

pub(crate) proof fn lemma_same_bytes(
    stats: Map<u64, crate::stack_stats::StackStatsView>,
    measurement: Measurement,
    k: nat,
    a: Seq<StackStats>,
    b: Seq<StackStats>,
    n: nat,
)
    requires
        crate::state::are_top_k(stats, measurement, k, a),
        crate::state::are_top_k(stats, measurement, k, b),
        n <= a.len(),
    ensures
        a.len() == b.len(),
        crate::flamegraph::bytes_total(a, measurement, n) == crate::flamegraph::bytes_total(
            b,
            measurement,
            n,
        ),
    decreases n,
{
    let x = choose|hashes: Seq<u64>| #[trigger]
        crate::ranking::is_top_k(stats, measurement, k, hashes) && hashes.len() == a.len()
            && forall|i: int| 0 <= i < a.len() ==> (#[trigger] a[i])@ == stats[hashes[i]];
    let y = choose|hashes: Seq<u64>| #[trigger]
        crate::ranking::is_top_k(stats, measurement, k, hashes) && hashes.len() == b.len()
            && forall|i: int| 0 <= i < b.len() ==> (#[trigger] b[i])@ == stats[hashes[i]];
    crate::ranking::law_bytes_at_each_rank_are_the_same(stats, measurement, k, x, y);
    if n > 0 {
        lemma_same_bytes(stats, measurement, k, a, b, (n - 1) as nat);
        assert(a[n - 1]@ == stats[x[n - 1]]);
        assert(b[n - 1]@ == stats[y[n - 1]]);
    }
}

/// Whether the stack traces that a flamegraph shows have few enough bytes to be drawn.
pub fn flamegraph_fits(state: &YingState, tl: &YingThreadLocal, measurement: Measurement) -> (r: bool)
    requires
        tl.locked(),
        state.wf(),
    ensures
        r == top_bytes_fit(state@.stats, measurement),
{
    let top_stacks = state.top_k_stacks(tl, measurement, FLAMEGRAPH_STACKS);
    let r: bool = stacks_fit(&top_stacks, measurement);
    proof {
        assert forall|stacks: Seq<StackStats>| #[trigger]
            crate::state::are_top_k(
                state@.stats,
                measurement,
                FLAMEGRAPH_STACKS as nat,
                stacks,
            ) implies crate::flamegraph::bytes_fit(stacks, measurement) == r by {
            lemma_same_bytes(
                state@.stats,
                measurement,
                FLAMEGRAPH_STACKS as nat,
                top_stacks@,
                stacks,
                top_stacks@.len(),
            );
        }
    }
    r
}

/// Whether `lines` are the folded lines of some choice of the top stack traces.
pub open spec fn folds_top_stacks(
    state: crate::state::StateView,
    measurement: Measurement,
    lines: Seq<u8>,
) -> bool {
    exists|stacks: Seq<StackStats>| #[trigger]
        crate::state::are_top_k(state.stats, measurement, FLAMEGRAPH_STACKS as nat, stacks)
            && lines == crate::flamegraph::folded(
            crate::flamegraph::blocks_text(
                crate::flamegraph::blocks_of(stacks, state.symbols, measurement),
                stacks.len(),
            ),
        )
}

/// Folds the stack traces that a flamegraph shows.
pub fn fold_top_stacks(state: &YingState, tl: &YingThreadLocal, measurement: Measurement) -> (r:
    FoldedStacks)
    requires
        tl.locked(),
        state.wf(),
        top_bytes_fit(state@.stats, measurement),
    ensures
        r.wf(),
        folds_top_stacks(state@, measurement, r@),
{
    let top_stacks = state.top_k_stacks(tl, measurement, FLAMEGRAPH_STACKS);
    FoldedStacks::fold(&top_stacks, state.symbols(tl), measurement)
}

/// Function to produce a FlameGraph as an SVG.
/// Specify whether to measure retained or allocated bytes.
pub fn gen_flamegraph(
    profiler: &mut YingProfiler,
    tl: &mut YingThreadLocal,
    measurement: Measurement,
) -> (r: Drawing)
    requires
        old(profiler).wf(),
        top_bytes_fit(old(profiler)@.state.stats, measurement),
    ensures
        final(profiler).wf(),
        final(profiler).same_settings(old(profiler)),
        final(profiler)@ == old(profiler)@.ready(),
        *final(tl) == old(tl).after_lock_out(),
        exists|lines: Seq<u8>| #[trigger]
            folds_top_stacks(old(profiler)@.state, measurement, lines) && r.shows(lines),
{
    tl.set_allocator_lock();
    let folded = fold_top_stacks(profiler.get_state_locked(&*tl), &*tl, measurement);
    let drawing = folded.draw();
    exit_profiler(tl);
    assert(folds_top_stacks(old(profiler)@.state, measurement, folded@));
    drawing
}

/// Produces a FlameGraph as [`gen_flamegraph`] does, unless the stack traces have too many bytes to be
/// drawn.
pub fn gen_flamegraph_if_it_fits(
    profiler: &mut YingProfiler,
    tl: &mut YingThreadLocal,
    measurement: Measurement,
) -> (r: Option<Drawing>)
    requires
        old(profiler).wf(),
    ensures
        final(profiler).wf(),
        final(profiler).same_settings(old(profiler)),
        final(profiler)@ == old(profiler)@.ready(),
        *final(tl) == old(tl).after_lock_out(),
        r is Some <==> top_bytes_fit(old(profiler)@.state.stats, measurement),
        r matches Some(drawing) ==> exists|lines: Seq<u8>| #[trigger]
            folds_top_stacks(old(profiler)@.state, measurement, lines) && drawing.shows(lines),
{
    tl.set_allocator_lock();
    let state = profiler.get_state_locked(&*tl);
    let mut drawing: Option<Drawing> = None;
    if flamegraph_fits(state, &*tl, measurement) {
        let folded = fold_top_stacks(state, &*tl, measurement);
        assert(folds_top_stacks(old(profiler)@.state, measurement, folded@));
        drawing = Some(folded.draw());
    }
    exit_profiler(tl);
    drawing
}

/// A builder that is told nothing builds the default runner.
pub proof fn law_builder_defaults_what_is_left_out()
    ensures
        BuilderView::unset().built() == RunnerView::defaults(),
{
}

/// Starting to profile without further settings is the same as building a runner with these
/// settings: 5 minute interval, 10% trigger, flamegraphs on, retained memory, output to
/// `ying-profiles`.
pub proof fn law_starting_is_building()
    ensures
        RunnerView::started() == (BuilderView {
            check_interval_secs: Some(300),
            report_pct_change_trigger: Some(10),
            reporting_path: Some("ying-profiles"@),
            gen_flamegraphs: Some(true),
            measure_allocated_not_retained: Some(false),
            ..BuilderView::unset()
        }).built(),
{
}

/// After a report there is none until memory changes again.
pub proof fn law_no_report_without_change(retained: usize, trigger: usize)
    ensures
        !significant(retained, retained, trigger),
{
    assert(trigger * retained >= 0) by (nonlinear_arith);
}

/// A change that is enough for a higher trigger is enough for a lower one.
pub proof fn law_lower_trigger_reports_more(last: usize, new: usize, low: usize, high: usize)
    requires
        low <= high,
        significant(last, new, high),
    ensures
        significant(last, new, low),
{
    assert(low * last <= high * last) by (nonlinear_arith)
        requires
            low <= high,
    ;
}

} // verus!
