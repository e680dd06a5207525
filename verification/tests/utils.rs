use ying_profiler::sharded_map::ShardedMap;
use ying_profiler::stack_stats::ReportFigures;
use ying_profiler::symbols::SymbolMap;
use ying_profiler::utils::{
    MemoryWatch, ProfilerRunner, ProfilerRunnerBuilder,
    DEFAULT_CHECK_INTERVAL_SECS, DEFAULT_PCT_CHANGE_TRIGGER, DEFAULT_REPORTING_PATH,
};
use ying_profiler::callstack::{Measurement, StackStats, StdCallstack};
use ying_profiler::YingProfiler;

#[test]
fn test_profiler_runner_builder() {
    let runner = ProfilerRunnerBuilder::default()
        .gen_flamegraphs(true)
        .build()
        .unwrap();
    assert_eq!(runner.check_interval_secs, 300);
    assert!(runner.gen_flamegraphs);
    assert_eq!(runner.report_pct_change_trigger, 10);
    assert_eq!(runner.reporting_path, "");
}

#[test]
fn builder_without_settings_builds_the_default() {
    let runner = ProfilerRunnerBuilder::default().build().unwrap();
    assert_eq!(runner, ProfilerRunner::default());
    assert_eq!(runner, ProfilerRunner::new(300, 10, "", false, false, false));
    assert_eq!(runner.measurement(), Measurement::RetainedBytes);
}

#[test]
fn builder_takes_every_setting() {
    let runner = ProfilerRunnerBuilder::default()
        .check_interval_secs(60usize)
        .report_pct_change_trigger(5usize)
        .reporting_path("/var/log/ying")
        .expand_frames(true)
        .gen_flamegraphs(true)
        .measure_allocated_not_retained(true)
        .build()
        .unwrap();
    assert_eq!(
        runner,
        ProfilerRunner::new(60, 5, "/var/log/ying", true, true, true)
    );
    assert_eq!(runner.measurement(), Measurement::AllocatedBytes);
}

#[test]
fn start_profiling_is_a_built_runner() {
    let started = YingProfiler::default().start_profiling();
    let built = ProfilerRunnerBuilder::default()
        .check_interval_secs(DEFAULT_CHECK_INTERVAL_SECS)
        .report_pct_change_trigger(DEFAULT_PCT_CHANGE_TRIGGER)
        .reporting_path(DEFAULT_REPORTING_PATH)
        .gen_flamegraphs(true)
        .measure_allocated_not_retained(false)
        .build()
        .unwrap();
    assert_eq!(started, built);
    assert_eq!(started, ProfilerRunner::new(300, 10, "ying-profiles", false, true, false));
}

const MB: usize = 1024 * 1024;

#[test]
fn first_check_compares_with_twenty_megabytes() {
    let runner = ProfilerRunner::default();
    for (retained, report) in [
        (20 * MB, false),
        (21 * MB, false),
        (22 * MB, false),
        (22 * MB + 1, true),
        (18 * MB, false),
        (18 * MB - 1, true),
        (0, true),
    ] {
        let mut watch = MemoryWatch::new();
        assert_eq!(watch.check(&runner, retained), report, "{retained}");
        assert_eq!(
            watch.last_retained,
            if report { retained } else { 20 * MB }
        );
    }
}

#[test]
fn small_changes_add_up_until_they_are_reported() {
    let runner = ProfilerRunner::default();
    let mut watch = MemoryWatch::new();
    assert!(watch.check(&runner, 100 * MB));
    assert!(!watch.check(&runner, 100 * MB));
    assert!(!watch.check(&runner, 104 * MB));
    assert!(!watch.check(&runner, 110 * MB));
    assert!(watch.check(&runner, 111 * MB));
    assert!(!watch.check(&runner, 115 * MB));
}

#[test]
fn from_nothing_any_memory_is_reported() {
    let runner = ProfilerRunner::default();
    let mut watch = MemoryWatch { last_retained: 0 };
    assert!(!watch.check(&runner, 0));
    assert!(watch.check(&runner, 1));
}

#[test]
fn lower_trigger_reports_more() {
    let check = |trigger: usize| {
        let runner = ProfilerRunner::new(300, trigger, "", false, false, false);
        MemoryWatch { last_retained: 1000 }.check(&runner, 1070)
    };
    assert!(check(0));
    assert!(check(6));
    assert!(!check(7));
    assert!(!check(usize::MAX));
}

#[test]
fn check_does_not_overflow() {
    let runner = ProfilerRunner::new(1, usize::MAX, "", false, false, false);
    let mut watch = MemoryWatch {
        last_retained: usize::MAX,
    };
    assert!(!watch.check(&runner, 0));
}

#[test]
fn file_names_hold_timestamp_and_megabytes() {
    let dt = "2024-05-06T07:08:09Z";
    let files = ProfilerRunner::default().files(dt, 123 * MB + 5);
    assert_eq!(files.report, "ying.2024-05-06T07:08:09Z.123MB.report");
    assert_eq!(files.flamegraph, None);
    let files = YingProfiler::default().start_profiling().files(dt, 0);
    assert_eq!(files.report, "ying.2024-05-06T07:08:09Z.0MB.report");
    assert_eq!(files.flamegraph.unwrap(), "ying.2024-05-06T07:08:09Z.0MB.svg");
}

fn figures(avg_secs: &str) -> ReportFigures {
    ReportFigures {
        allocated_pct: "1.00".to_string(),
        retained_pct_all: "2.00".to_string(),
        retained_pct_allocs: "3.00".to_string(),
        avg_secs: avg_secs.to_string(),
    }
}

#[test]
fn report_separates_its_entries() {
    let runner = ProfilerRunner::new(300, 10, "", true, false, false);
    let symbols: SymbolMap = ShardedMap::with_capacity(0, None);
    assert_eq!(runner.report_text(&vec![], &vec![], &symbols), "");

    let stack = |ip: u64| StdCallstack::from_ips(&[1, 2, 3, ip]);
    let stacks = vec![
        StackStats::new(stack(4), Some(10)),
        StackStats::new(stack(5), Some(20)),
    ];
    let all = vec![figures("4.00"), figures("5.00")];
    let one = stacks[0].report_with_symbols(&all[0], &symbols, false, true);
    let two = stacks[1].report_with_symbols(&all[1], &symbols, false, true);
    assert_eq!(runner.report_on(&stacks[0], &all[0], &symbols), one);
    assert_eq!(
        runner.report_text(&stacks, &all, &symbols),
        format!("---\n{one}\n\n---\n{two}\n\n")
    );
}

#[test]
fn no_report_without_change() {
    for trigger in [0, 1, 10, usize::MAX] {
        let runner = ProfilerRunner::new(300, trigger, "", false, false, false);
        for last_retained in [0, 1, 100 * MB] {
            assert!(!MemoryWatch { last_retained }.check(&runner, last_retained));
        }
    }
}
