//! When memory is reported, what a report holds, and what a runner is set to.
use vstd::prelude::*;

use crate::profiler::YingProfiler;
use crate::stack_stats::{Measurement, ReportFigures, StackStats};
use crate::state::YingState;
use crate::symbols::{FriendlyView, SymbolMap};
use crate::thread_state::YingThreadLocal;
use crate::utils::{
    MemoryWatch, ProfilerRunner, ProfilerRunnerBuilder, ProfilerRunnerBuilderError, ReportFiles,
    RunnerView,
};

verus! {

/// Memory is reported exactly if it has grown to more than `100 + trigger` percent of what it was, or
/// shrunk to less than `100 - trigger` percent, and from nothing if there is any now.  After a report
/// the next check compares with what it is now, otherwise with what it was.
pub proof fn law_memory_is_reported_beyond_the_trigger(runner: ProfilerRunner, retained: usize)
    ensures
        forall|w: &mut MemoryWatch, report: bool| #[trigger]
            call_ensures(MemoryWatch::check, (w, &runner, retained), report) ==> {
                let last = (*w).last_retained;
                let trigger = runner.report_pct_change_trigger;
                &&& last == 0 ==> (report <==> retained > 0)
                &&& last > 0 && retained >= last ==> (report <==> 100 * retained > (100 + trigger)
                    * last)
                &&& last > 0 && retained < last ==> (report <==> 100 * retained < (100 - trigger)
                    * last)
                &&& report ==> final(w).last_retained == retained
                &&& !report ==> final(w).last_retained == last
            },
        forall|w: MemoryWatch| #[trigger]
            call_ensures(MemoryWatch::new, (), w) ==> w.last_retained == 20 * 1024 * 1024,
{
    assert forall|w: &mut MemoryWatch, report: bool| #[trigger]
        call_ensures(MemoryWatch::check, (w, &runner, retained), report) implies ({
        let last = (*w).last_retained;
        let trigger = runner.report_pct_change_trigger;
        &&& last == 0 ==> (report <==> retained > 0)
        &&& last > 0 && retained >= last ==> (report <==> 100 * retained > (100 + trigger) * last)
        &&& last > 0 && retained < last ==> (report <==> 100 * retained < (100 - trigger) * last)
    }) by {
        let last = (*w).last_retained as int;
        let trigger = runner.report_pct_change_trigger as int;
        assert((100 + trigger) * last == 100 * last + trigger * last) by (nonlinear_arith);
        assert((100 - trigger) * last == 100 * last - trigger * last) by (nonlinear_arith);
    }
}

/// Whether `name` is that of a file with this extension: the time, and how many whole MB are retained.
pub open spec fn is_file_name(
    name: Seq<char>,
    timestamp: Seq<char>,
    retained: usize,
    extension: Seq<char>,
) -> bool {
    exists|n: Seq<char>, mb: nat|
        {
            &&& #[trigger] super::text::says(n, mb, 10)
            &&& mb * 1_048_576 <= retained < (mb + 1) * 1_048_576
            &&& name == "ying."@ + timestamp + "."@ + n + "MB."@ + extension
        }
}

/// Files are named after the time and how many whole MB are retained, and a flamegraph is written
/// exactly if the runner is set to.
pub proof fn law_files_are_named_after_what_is_retained(
    runner: ProfilerRunner,
    timestamp: &str,
    retained: usize,
)
    ensures
        forall|r: ReportFiles| #[trigger]
            call_ensures(ProfilerRunner::files, (&runner, timestamp, retained), r) ==> {
                &&& is_file_name(r.report@, timestamp@, retained, "report"@)
                &&& r.flamegraph is Some <==> runner.gen_flamegraphs
                &&& r.flamegraph is Some ==> is_file_name(
                    r.flamegraph->0@,
                    timestamp@,
                    retained,
                    "svg"@,
                )
            },
{
    let mb = (retained / 1_048_576) as nat;
    super::text::law_numbers_read_back(mb);
    assert(super::text::says(crate::text::decimal(mb), mb, 10));
}

/// What a report file says of one stack trace.
pub open spec fn entry(
    stats: StackStats,
    figures: ReportFigures,
    symbols: Map<u64, Seq<FriendlyView>>,
    expand_frames: bool,
) -> Seq<char> {
    "---\n"@ + stats@.report_text(figures, symbols, false, expand_frames) + "\n\n"@
}

proof fn lemma_entries(
    runner: RunnerView,
    stacks: Seq<StackStats>,
    figures: Seq<ReportFigures>,
    symbols: Map<u64, Seq<FriendlyView>>,
    n: nat,
)
    ensures
        crate::utils::entries_text(runner, stacks, figures, symbols, n) == Seq::new(
            n,
            |i: int| entry(stacks[i], figures[i], symbols, runner.expand_frames),
        ).flatten_alt(),
    decreases n,
{
    let part = |i: int| entry(stacks[i], figures[i], symbols, runner.expand_frames);
    if n == 0 {
        assert(Seq::new(n, part) =~= Seq::empty());
    } else {
        let m = (n - 1) as nat;
        lemma_entries(runner, stacks, figures, symbols, m);
        assert(Seq::new(n, part) =~= Seq::new(m, part).push(part(n - 1)));
        super::stacks::lemma_flatten_push(Seq::new(m, part), part(n - 1));
        assert(crate::utils::entries_text(runner, stacks, figures, symbols, n) =~= Seq::new(
            n,
            part,
        ).flatten_alt());
    }
}

/// A report file has the reports on all stack traces in order, each with its own figures, without file
/// names, and with inlined symbols exactly if the runner is set to expand frames.
pub proof fn law_report_files_have_every_stack_trace(runner: ProfilerRunner, symbols: SymbolMap)
    ensures
        forall|stacks: Vec<StackStats>, figures: Vec<ReportFigures>, r: String| #[trigger]
            call_ensures(ProfilerRunner::report_text, (&runner, &stacks, &figures, &symbols), r)
                ==> r@ == Seq::new(
                stacks@.len(),
                |i: int|
                    entry(
                        stacks@[i],
                        figures@[i],
                        crate::symbols::symbol_views(symbols@),
                        runner.expand_frames,
                    ),
            ).flatten_alt(),
        forall|stats: StackStats, figures: ReportFigures, r: String| #[trigger]
            call_ensures(ProfilerRunner::report_on, (&runner, &stats, &figures, &symbols), r) ==> r@
                == stats@.report_text(
                figures,
                crate::symbols::symbol_views(symbols@),
                false,
                runner.expand_frames,
            ),
{
    let views = crate::symbols::symbol_views(symbols@);
    assert forall|stacks: Vec<StackStats>, figures: Vec<ReportFigures>, r: String| #[trigger]
        call_ensures(
            ProfilerRunner::report_text,
            (&runner, &stacks, &figures, &symbols),
            r,
        ) implies r@ == Seq::new(
        stacks@.len(),
        |i: int| entry(stacks@[i], figures@[i], views, runner.expand_frames),
    ).flatten_alt() by {
        lemma_entries(runner@, stacks@, figures@, views, stacks@.len());
        assert(Seq::new(
            stacks@.len(),
            |i: int| entry(stacks@[i], figures@[i], views, runner@.expand_frames),
        ) =~= Seq::new(
            stacks@.len(),
            |i: int| entry(stacks@[i], figures@[i], views, runner.expand_frames),
        ));
    }
}

/// A report shows the ten stack traces with the most bytes: of all that were allocated if the runner is
/// set to measure those, otherwise of those that are retained.
pub proof fn law_runners_report_the_top_ten(
    runner: ProfilerRunner,
    state: YingState,
    tl: YingThreadLocal,
)
    ensures
        forall|m: Measurement| #[trigger]
            call_ensures(ProfilerRunner::measurement, (&runner,), m) ==> (m
                == Measurement::AllocatedBytes <==> runner.measure_allocated_not_retained),
        forall|r: Vec<StackStats>| #[trigger]
            call_ensures(ProfilerRunner::top_stacks, (&runner, &state, &tl), r)
                ==> super::records::are_the_top(
                state@.stats,
                if runner.measure_allocated_not_retained {
                    Measurement::AllocatedBytes
                } else {
                    Measurement::RetainedBytes
                },
                10,
                r@,
            ),
{
    assert forall|r: Vec<StackStats>| #[trigger]
        call_ensures(
            ProfilerRunner::top_stacks,
            (&runner, &state, &tl),
            r,
        ) implies super::records::are_the_top(
        state@.stats,
        if runner.measure_allocated_not_retained {
            Measurement::AllocatedBytes
        } else {
            Measurement::RetainedBytes
        },
        10,
        r@,
    ) by {
        super::records::law_top_stack_traces_have_the_most_bytes(tl);
        let k: usize = 10;
        assert(crate::state::are_top_k(state@.stats, runner@.measurement(), k as nat, r@));
    }
}

/// A runner is set to what it is made with; by default it checks every 300 seconds for a change of more
/// than 10 percent, writes to the current directory, neither expands frames nor generates flamegraphs,
/// and measures retained memory.  Profiling that is just started differs in two ways: it writes to
/// `ying-profiles`, and it generates flamegraphs.
pub proof fn law_runners_are_set_to_what_they_are_given(profiler: YingProfiler)
    ensures
        forall|
            secs: usize,
            pct: usize,
            path: &str,
            expand: bool,
            flamegraphs: bool,
            allocated: bool,
            r: ProfilerRunner,
        | #[trigger]
            call_ensures(
                ProfilerRunner::new,
                (secs, pct, path, expand, flamegraphs, allocated),
                r,
            ) ==> {
                &&& r.check_interval_secs == secs && r.report_pct_change_trigger == pct
                &&& r.reporting_path@ == path@ && r.expand_frames == expand
                &&& r.gen_flamegraphs == flamegraphs
                &&& r.measure_allocated_not_retained == allocated
            },
        forall|r: ProfilerRunner| #[trigger]
            call_ensures(ProfilerRunner::default, (), r) ==> {
                &&& r.check_interval_secs == 300 && r.report_pct_change_trigger == 10
                &&& r.reporting_path@.len() == 0 && !r.expand_frames && !r.gen_flamegraphs
                &&& !r.measure_allocated_not_retained
            },
        forall|r: ProfilerRunner| #[trigger]
            call_ensures(YingProfiler::start_profiling, (&profiler,), r) ==> {
                &&& r.check_interval_secs == 300 && r.report_pct_change_trigger == 10
                &&& r.reporting_path@ == "ying-profiles"@ && !r.expand_frames && r.gen_flamegraphs
                &&& !r.measure_allocated_not_retained
            },
        forall|s: ProfilerRunner, r: ProfilerRunner| #[trigger]
            call_ensures(ProfilerRunner::clone, (&s,), r) ==> {
                &&& r.check_interval_secs == s.check_interval_secs
                &&& r.report_pct_change_trigger == s.report_pct_change_trigger
                &&& r.reporting_path@ == s.reporting_path@ && r.expand_frames == s.expand_frames
                &&& r.gen_flamegraphs == s.gen_flamegraphs
                &&& r.measure_allocated_not_retained == s.measure_allocated_not_retained
            },
{
}

/// A builder always builds, with each setting as it was last given, and the default for what was never
/// given: 300 seconds, 10 percent, the current directory, and everything else off.
pub proof fn law_builders_keep_what_they_are_given(b: ProfilerRunnerBuilder)
    ensures
        forall|r: Result<ProfilerRunner, ProfilerRunnerBuilderError>| #[trigger]
            call_ensures(ProfilerRunnerBuilder::build, (&b,), r) ==> {
                &&& r is Ok
                &&& b@.check_interval_secs is Some ==> r->Ok_0.check_interval_secs
                    == b@.check_interval_secs->0
                &&& b@.check_interval_secs is None ==> r->Ok_0.check_interval_secs == 300
                &&& b@.report_pct_change_trigger is Some ==> r->Ok_0.report_pct_change_trigger
                    == b@.report_pct_change_trigger->0
                &&& b@.report_pct_change_trigger is None ==> r->Ok_0.report_pct_change_trigger == 10
                &&& b@.reporting_path is Some ==> r->Ok_0.reporting_path@ == b@.reporting_path->0
                &&& b@.reporting_path is None ==> r->Ok_0.reporting_path@.len() == 0
                &&& r->Ok_0.expand_frames <==> b@.expand_frames == Some(true)
                &&& r->Ok_0.gen_flamegraphs <==> b@.gen_flamegraphs == Some(true)
                &&& r->Ok_0.measure_allocated_not_retained <==> b@.measure_allocated_not_retained
                    == Some(true)
            },
        forall|d: ProfilerRunnerBuilder| #[trigger]
            call_ensures(ProfilerRunnerBuilder::default, (), d) ==> {
                &&& d@.check_interval_secs is None && d@.report_pct_change_trigger is None
                &&& d@.reporting_path is None && d@.expand_frames is None
                &&& d@.gen_flamegraphs is None && d@.measure_allocated_not_retained is None
            },
{
}

/// Each setting that a builder is given changes that setting, and no other.
pub proof fn law_builders_change_one_setting_at_a_time()
    ensures
        forall|b: &mut ProfilerRunnerBuilder, v: usize, r: &mut ProfilerRunnerBuilder| #[trigger]
            call_ensures(ProfilerRunnerBuilder::check_interval_secs, (b, v), r) ==> {
                let (x, y) = ((*b)@, (*r)@);
                &&& *final(b) == *final(r)
                &&& y.check_interval_secs == Some(v)
                &&& y.report_pct_change_trigger == x.report_pct_change_trigger
                &&& y.reporting_path == x.reporting_path && y.expand_frames == x.expand_frames
                &&& y.gen_flamegraphs == x.gen_flamegraphs
                &&& y.measure_allocated_not_retained == x.measure_allocated_not_retained
            },
        forall|b: &mut ProfilerRunnerBuilder, v: usize, r: &mut ProfilerRunnerBuilder| #[trigger]
            call_ensures(ProfilerRunnerBuilder::report_pct_change_trigger, (b, v), r) ==> {
                let (x, y) = ((*b)@, (*r)@);
                &&& *final(b) == *final(r)
                &&& y.report_pct_change_trigger == Some(v)
                &&& y.check_interval_secs == x.check_interval_secs
                &&& y.reporting_path == x.reporting_path && y.expand_frames == x.expand_frames
                &&& y.gen_flamegraphs == x.gen_flamegraphs
                &&& y.measure_allocated_not_retained == x.measure_allocated_not_retained
            },
        forall|b: &mut ProfilerRunnerBuilder, v: &str, r: &mut ProfilerRunnerBuilder| #[trigger]
            call_ensures(ProfilerRunnerBuilder::reporting_path, (b, v), r) ==> {
                let (x, y) = ((*b)@, (*r)@);
                &&& *final(b) == *final(r)
                &&& y.reporting_path == Some(v@)
                &&& y.check_interval_secs == x.check_interval_secs
                &&& y.report_pct_change_trigger == x.report_pct_change_trigger
                &&& y.expand_frames == x.expand_frames && y.gen_flamegraphs == x.gen_flamegraphs
                &&& y.measure_allocated_not_retained == x.measure_allocated_not_retained
            },
        forall|b: &mut ProfilerRunnerBuilder, v: bool, r: &mut ProfilerRunnerBuilder| #[trigger]
            call_ensures(ProfilerRunnerBuilder::expand_frames, (b, v), r) ==> {
                let (x, y) = ((*b)@, (*r)@);
                &&& *final(b) == *final(r)
                &&& y.expand_frames == Some(v)
                &&& y.check_interval_secs == x.check_interval_secs
                &&& y.report_pct_change_trigger == x.report_pct_change_trigger
                &&& y.reporting_path == x.reporting_path && y.gen_flamegraphs == x.gen_flamegraphs
                &&& y.measure_allocated_not_retained == x.measure_allocated_not_retained
            },
        forall|b: &mut ProfilerRunnerBuilder, v: bool, r: &mut ProfilerRunnerBuilder| #[trigger]
            call_ensures(ProfilerRunnerBuilder::gen_flamegraphs, (b, v), r) ==> {
                let (x, y) = ((*b)@, (*r)@);
                &&& *final(b) == *final(r)
                &&& y.gen_flamegraphs == Some(v)
                &&& y.check_interval_secs == x.check_interval_secs
                &&& y.report_pct_change_trigger == x.report_pct_change_trigger
                &&& y.reporting_path == x.reporting_path && y.expand_frames == x.expand_frames
                &&& y.measure_allocated_not_retained == x.measure_allocated_not_retained
            },
        forall|b: &mut ProfilerRunnerBuilder, v: bool, r: &mut ProfilerRunnerBuilder| #[trigger]
            call_ensures(ProfilerRunnerBuilder::measure_allocated_not_retained, (b, v), r) ==> {
                let (x, y) = ((*b)@, (*r)@);
                &&& *final(b) == *final(r)
                &&& y.measure_allocated_not_retained == Some(v)
                &&& y.check_interval_secs == x.check_interval_secs
                &&& y.report_pct_change_trigger == x.report_pct_change_trigger
                &&& y.reporting_path == x.reporting_path && y.expand_frames == x.expand_frames
                &&& y.gen_flamegraphs == x.gen_flamegraphs
            },
{
}

} // verus!
