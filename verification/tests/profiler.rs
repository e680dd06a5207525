use std::hint::black_box;

use coarsetime::{Clock, Duration};
use ying_profiler::callstack::{Measurement, StackStats, StdCallstack};
use ying_profiler::profiler::{
    begin_alloc, begin_free, begin_realloc, deny_giant_allocation, recorded_free,
    recorded_realloc, Allocated, ByteCounters,
};
use ying_profiler::stack_stats::{ReportFigures, ReportQuotients};
use ying_profiler::state::{denial_headline, MapSizing, YingState};
use ying_profiler::thread_state::YingThreadLocal;
use ying_profiler::utils::{
    flamegraph_fits, fold_top_stacks, gen_flamegraph, gen_flamegraph_if_it_fits,
};
use ying_profiler::YingProfiler;

const NUM_ALLOCS: usize = 4000;
/// A thread that is inside the profiler.
const INSIDE: YingThreadLocal = YingThreadLocal {
    alloc_lock: 1,
    sample_count: 0,
};

const LIMIT: usize = 64 * 1024 * 1024 * 1024;

fn percent(q: (u64, u64)) -> String {
    format!("{:.2}", (q.0 as f64) * 100.0 / (q.1 as f64))
}

fn figures(q: &ReportQuotients) -> ReportFigures {
    let average_millis = q.lifetime_millis.0 as f64 / q.lifetime_millis.1 as f64;
    ReportFigures {
        allocated_pct: percent(q.allocated),
        retained_pct_all: percent(q.retained_of_all),
        retained_pct_allocs: percent(q.retained_of_allocated),
        avg_secs: format!("{:.2}", average_millis / 1000.0),
    }
}

fn report(s: &StackStats, profiler: &mut YingProfiler, filenames: bool, expand: bool) -> String {
    let mut tl = YingThreadLocal::new();
    let figures = figures(&s.report_quotients(profiler));
    let report = s.rich_report(profiler, &mut tl, filenames, expand, &figures);
    assert_eq!(tl, YingThreadLocal::new());
    report
}

fn pointer(n: usize) -> u64 {
    0x7f00_0000_0000 + (n as u64) * 512
}

fn allocate_all(profiler: &mut YingProfiler, tl: &mut YingThreadLocal) {
    for n in 0..NUM_ALLOCS {
        let r = profiler.on_alloc(tl, pointer(n), 512);
        assert_eq!(r.ptr, pointer(n));
        assert!(r.warning.is_none());
    }
}

#[test]
fn basic_allocation_free_test() {
    let mut profiler = YingProfiler::new(5, LIMIT);
    let mut tl = YingThreadLocal::new();
    profiler.reset_state_for_testing_only(&mut tl);

    allocate_all(&mut profiler, &mut tl);

    // Check allocation stats
    let allocated_now = profiler.total_retained_bytes();
    assert_eq!(allocated_now, NUM_ALLOCS * 512);
    assert_eq!(profiler.profiled_bytes_allocated(), NUM_ALLOCS / 5 * 512);
    assert_eq!(profiler.num_outstanding_allocs(&mut tl), NUM_ALLOCS / 5);

    let top_stacks = profiler.top_k_stacks_by_allocated(&mut tl, 5);
    for s in &top_stacks {
        println!("---\n{}\n", report(s, &mut profiler, false, true));
    }
    assert!(!top_stacks.is_empty());

    // The top stat should be for our allocations
    let stat = &top_stacks[0];
    assert_eq!(stat.freed_bytes, 0);
    let allocated = stat.allocated_bytes;
    assert_eq!(allocated / stat.num_allocations, 512);

    // Now drop half of those items.  The freed stats should update.
    for n in NUM_ALLOCS / 2..NUM_ALLOCS {
        profiler.on_dealloc(&mut tl, pointer(n), 512);
    }

    // After freeing memory - less memory should be allocated
    let allocated2 = profiler.total_retained_bytes();
    assert!(allocated2 < allocated_now);

    let top_stacks = profiler.top_k_stacks_by_allocated(&mut tl, 5);
    assert!(!top_stacks.is_empty());
    let stat = &top_stacks[0];
    println!(
        "\n---xxx after dropping xxx---\n{}",
        report(stat, &mut profiler, false, true)
    );

    // Number of freed bytes should be roughly half
    assert!(stat.freed_bytes > 0);
    assert!(stat.retained_profiled_bytes() > 0);
}

#[test]
fn test_giant_allocation() {
    let mut profiler = YingProfiler::new(5, LIMIT);
    let mut tl = YingThreadLocal::new();
    profiler.reset_state_for_testing_only(&mut tl);

    // Create an allocation that's way too giant.
    let giant = 128 * 1024 * 1024 * 1024;
    let r = profiler.on_alloc(&mut tl, pointer(0), giant);

    // We should get back a null pointer so allocation should fail.
    assert_eq!(r.ptr, 0);
    let warning = r.warning.unwrap();
    assert!(warning.starts_with(
        "WARNING: Huge memory allocation of 137438953472 bytes denied by Ying profiler\n\
         Stack trace:\nCallback <hash = 0x"
    ));
    assert_eq!(profiler.total_retained_bytes(), 0);
    assert_eq!(profiler.num_outstanding_allocs(&mut tl), 0);
    assert_eq!(profiler.num_stack_traces(&mut tl), 0);
    assert!(profiler.symbol_map_size(&mut tl) > 0);
    assert_eq!(tl, YingThreadLocal::new());

    let r = profiler.on_realloc(&mut tl, pointer(0), 8, pointer(1), giant);
    assert_eq!(r.ptr, 0);
    assert!(r.warning.is_some());
}

// Prints out stack traces and also inserts new symbols at the same time
#[test]
fn test_print_allocations_deadlock() {
    let mut profiler = YingProfiler::new(5, LIMIT);
    let mut tl = YingThreadLocal::new();
    allocate_all(&mut profiler, &mut tl);

    let top_stacks = profiler.top_k_stacks_by_allocated(&mut tl, 5);
    assert!(!top_stacks.is_empty());

    // Reset counter to guarantee next allocation will sample
    println!("before potential deadlock");
    profiler.testing_only_guarantee_next_sample(&mut tl);
    let before = profiler.profiled_bytes_allocated();
    profiler.on_alloc(&mut tl, pointer(NUM_ALLOCS), 64);
    assert_eq!(profiler.profiled_bytes_allocated(), before + 64);

    for s in &top_stacks {
        println!("---\n{}\n", report(s, &mut profiler, false, false));
    }
}

#[test]
fn denial_starts_beyond_the_limit_once_initialized() {
    assert!(!deny_giant_allocation(100, 100, true));
    assert!(deny_giant_allocation(101, 100, true));
    assert!(!deny_giant_allocation(99, 100, true));
    assert!(!deny_giant_allocation(101, 100, false));

    let mut profiler = YingProfiler::new(1, 100);
    let mut tl = YingThreadLocal::new();
    profiler.reset_state_for_testing_only(&mut tl);
    assert_eq!(profiler.on_alloc(&mut tl, pointer(0), 100).ptr, pointer(0));
    assert_eq!(profiler.on_alloc(&mut tl, pointer(1), 101).ptr, 0);
    assert_eq!(profiler.total_retained_bytes(), 100);
}

#[test]
fn ratio_is_not_looked_at_without_a_sampling_decision() {
    let mut profiler = YingProfiler::new(0, 100);
    let mut free = YingThreadLocal::new();
    assert_eq!(profiler.on_alloc(&mut free, 0, 64).ptr, 0);
    profiler.reset_state_for_testing_only(&mut free);
    assert!(profiler.on_alloc(&mut free, pointer(0), 101).warning.is_some());
    let mut inside = YingThreadLocal {
        alloc_lock: 1,
        sample_count: 9,
    };
    assert_eq!(profiler.on_alloc(&mut inside, pointer(0), 64).ptr, pointer(0));
    assert!(!begin_alloc(&mut inside, 0, 64).1);
    assert_eq!((inside.alloc_lock, inside.sample_count), (1, 9));
    assert_eq!(profiler.total_retained_bytes(), 64);
}

#[test]
fn capacities_can_be_overridden() {
    let sizing = |capacity_override| MapSizing {
        capacity_override,
        cpus: None,
    };
    assert_eq!(sizing(None).capacities(), (1000, 1000, 5000));
    assert_eq!(sizing(Some(1)).capacities(), (1, 1, 1));
}

#[test]
fn first_part_of_calls_on_a_free_thread() {
    let mut tl = YingThreadLocal::new();
    let (change, entered) = begin_alloc(&mut tl, 5, 64);
    assert!(entered);
    assert_eq!(
        change,
        ByteCounters {
            total_retained: 64,
            profiled_allocated: 64,
            profiled_retained: 64,
        }
    );
    // Inside the profiler nothing is profiled
    let (change, entered) = begin_alloc(&mut tl, 5, 64);
    assert!(!entered);
    assert_eq!(
        change,
        ByteCounters {
            total_retained: 64,
            profiled_allocated: 0,
            profiled_retained: 0,
        }
    );
    let (change, entered) = begin_free(&mut tl, true, 1);
    assert!(!entered);
    assert_eq!(change.total_retained, usize::MAX);
    let (change, entered) = begin_realloc(&mut tl, true, 10, 4);
    assert!(!entered);
    assert_eq!(change.total_retained, 0usize.wrapping_sub(6));

    let mut fresh = YingThreadLocal::new();
    assert!(!begin_free(&mut fresh, false, 1).1);
    assert!(!begin_realloc(&mut fresh, false, 1, 2).1);
    assert_eq!(fresh, YingThreadLocal::new());
    assert!(begin_free(&mut fresh, true, 1).1);
}

#[test]
fn second_part_changes_only_what_is_retained() {
    assert_eq!(recorded_free(10, false), ByteCounters::new());
    assert_eq!(
        recorded_free(10, true).profiled_retained,
        0usize.wrapping_sub(10)
    );
    assert_eq!(recorded_realloc(10, 30, true).profiled_retained, 20);
    assert_eq!(recorded_realloc(10, 30, false), ByteCounters::new());
}

#[test]
fn failed_allocation_changes_nothing() {
    let mut profiler = YingProfiler::new(1, LIMIT);
    let mut tl = YingThreadLocal::new();
    let Allocated { ptr, warning } = profiler.on_alloc(&mut tl, 0, 64);
    assert_eq!(ptr, 0);
    assert!(warning.is_none());
    assert_eq!(tl, YingThreadLocal::new());
    assert_eq!(profiler.total_retained_bytes(), 0);
}

#[test]
fn unsampled_allocation_leaves_nothing_behind() {
    let mut profiler = YingProfiler::new(1000, LIMIT);
    let mut tl = YingThreadLocal {
        alloc_lock: 0,
        sample_count: 1,
    };
    profiler.on_alloc(&mut tl, pointer(0), 64);
    assert_eq!(profiler.total_retained_bytes(), 64);
    profiler.on_dealloc(&mut tl, pointer(0), 64);
    assert_eq!(profiler.total_retained_bytes(), 0);
    assert_eq!(profiler.profiled_bytes_allocated(), 0);
    assert_eq!(profiler.num_stack_traces(&mut tl), 0);
}

#[test]
fn sampled_allocation_leaves_only_its_counts_behind() {
    let mut profiler = YingProfiler::new(1, LIMIT);
    let mut tl = YingThreadLocal::new();
    profiler.on_alloc(&mut tl, pointer(0), 64);
    assert_eq!(profiler.num_outstanding_allocs(&mut tl), 1);
    profiler.on_dealloc(&mut tl, pointer(0), 64);
    assert_eq!(profiler.num_outstanding_allocs(&mut tl), 0);
    assert_eq!(profiler.total_retained_bytes(), 0);
    assert_eq!(profiler.profiled_bytes_retained(), 0);
    assert_eq!(profiler.profiled_bytes_allocated(), 64);
    let top = profiler.top_k_stacks_by_retained(&mut tl, 3);
    assert_eq!(top.len(), 1);
    assert_eq!(
        (top[0].num_allocations, top[0].num_frees, top[0].retained_profiled_bytes()),
        (1, 1, 0)
    );
    assert_eq!(top[0].hist.totals().1, 1);
    assert_eq!(tl.alloc_lock, 0);
}

#[test]
fn reallocation_is_the_same_allocation() {
    let mut profiler = YingProfiler::new(1, LIMIT);
    let mut tl = YingThreadLocal::new();
    profiler.on_alloc(&mut tl, pointer(0), 100);
    let r = profiler.on_realloc(&mut tl, pointer(0), 100, pointer(1), 300);
    assert_eq!(r.ptr, pointer(1));
    assert_eq!(profiler.num_outstanding_allocs(&mut tl), 1);
    let top = profiler.top_k_stacks_by_allocated(&mut tl, 1);
    assert_eq!(
        (top[0].allocated_bytes, top[0].num_allocations, top[0].num_frees, top[0].freed_bytes),
        (300, 1, 0, 0)
    );
    assert_eq!(profiler.total_retained_bytes(), 300);
    assert_eq!(profiler.profiled_bytes_retained(), 300);
    assert_eq!(profiler.profiled_bytes_allocated(), 100);

    // Shrinking counts too
    profiler.on_realloc(&mut tl, pointer(1), 300, pointer(2), 50);
    assert_eq!(profiler.total_retained_bytes(), 50);
    let top = profiler.top_k_stacks_by_allocated(&mut tl, 1);
    assert_eq!(top[0].allocated_bytes, 50);

    profiler.on_dealloc(&mut tl, pointer(2), 50);
    assert_eq!(profiler.total_retained_bytes(), 0);
    assert_eq!(profiler.profiled_bytes_retained(), 0);
    assert_eq!(profiler.num_outstanding_allocs(&mut tl), 0);
    let top = profiler.top_k_stacks_by_allocated(&mut tl, 1);
    assert_eq!((top[0].num_allocations, top[0].num_frees), (1, 1));
    assert_eq!(top[0].retained_profiled_bytes(), 0);
}

#[test]
fn nothing_is_profiled_inside_the_profiler() {
    let mut profiler = YingProfiler::new(1, LIMIT);
    let mut tl = YingThreadLocal::new();
    profiler.on_alloc(&mut tl, pointer(0), 100);
    let mut inside = YingThreadLocal {
        alloc_lock: 1,
        sample_count: 0,
    };
    profiler.on_alloc(&mut inside, pointer(1), 10);
    profiler.on_realloc(&mut inside, pointer(0), 100, pointer(2), 200);
    profiler.on_dealloc(&mut inside, pointer(0), 7);
    assert_eq!(inside.alloc_lock, 1);
    assert_eq!(inside.sample_count, 0);
    assert_eq!(profiler.total_retained_bytes(), 203);
    assert_eq!(profiler.profiled_bytes_allocated(), 100);
    assert_eq!(profiler.profiled_bytes_retained(), 100);
    assert_eq!(profiler.num_outstanding_allocs(&mut tl), 1);
}

#[test]
fn pointer_that_is_outstanding_keeps_its_entry() {
    let mut state = YingState::new(MapSizing {
        capacity_override: Some(1),
        cpus: Some(4),
    });
    let mut bt = backtrace::Backtrace::new_unresolved();
    state.record_alloc(&INSIDE, pointer(0), 10, &mut bt, 1_000);
    state.record_alloc(&INSIDE, pointer(0), 20, &mut bt, 9_000);
    assert_eq!(state.num_outstanding_allocs(&INSIDE), 1);
    assert_eq!(state.num_stack_traces(&INSIDE), 1);
    assert!(state.record_free(&INSIDE, pointer(0), 20, 3_000));
    assert!(!state.record_free(&INSIDE, pointer(0), 20, 3_000));
    let top = state.top_k_stacks(&INSIDE, Measurement::AllocatedBytes, 5);
    // It lived from the first time on: two seconds
    assert_eq!(top[0].hist.counts(), [0, 1, 0, 0, 0, 0]);
    assert_eq!((top[0].num_allocations, top[0].num_frees), (2, 1));
    assert_eq!(top[0].retained_profiled_bytes(), 10);
}

#[test]
fn stack_traces_are_filed_under_their_hash() {
    let mut state = YingState::new(MapSizing {
        capacity_override: None,
        cpus: None,
    });
    let mut bt = backtrace::Backtrace::new_unresolved();
    let hash = StdCallstack::from_backtrace_unresolved(&bt).compute_hash();
    assert!(state.get_stats_for_stack_hash(&INSIDE, hash).is_none());
    state.record_alloc(&INSIDE, pointer(0), 10, &mut bt, 1_000);
    let stats = state.get_stats_for_stack_hash(&INSIDE, hash).unwrap();
    assert_eq!(stats.stack.compute_hash(), hash);
    assert_eq!(state.stack_list_desc(&INSIDE, Measurement::AllocatedBytes), vec![(hash, 10)]);
}

#[test]
fn frees_and_outstanding_never_exceed_allocations() {
    let mut state = YingState::new(MapSizing {
        capacity_override: None,
        cpus: None,
    });
    let mut bt = backtrace::Backtrace::new_unresolved();
    let mut seed: u64 = 1;
    for _ in 0..2_000 {
        seed = seed.wrapping_mul(6364136223846793005).wrapping_add(1442695040888963407);
        let ptr = (seed >> 33) % 20;
        match (seed >> 60) % 3 {
            0 => state.record_alloc(&INSIDE, ptr, 8, &mut bt, 0),
            1 => {
                state.record_free(&INSIDE, ptr, 8, 0);
            }
            _ => {
                state.record_realloc(&INSIDE, ptr, (ptr * 7) % 20, 8, 8);
            }
        }
        for s in state.top_k_stacks(&INSIDE, Measurement::AllocatedBytes, 1) {
            let outstanding = state.num_outstanding_allocs(&INSIDE) as u64;
            assert!(outstanding + s.num_frees <= s.num_allocations);
        }
    }
}

#[test]
fn lifetimes_survive_reallocation_and_never_go_negative() {
    let mut state = YingState::new(MapSizing {
        capacity_override: None,
        cpus: None,
    });
    let mut bt = backtrace::Backtrace::new_unresolved();
    state.record_alloc(&INSIDE, pointer(0), 10, &mut bt, 1_000);
    assert!(state.record_realloc(&INSIDE, pointer(0), pointer(1), 10, 30));
    assert!(!state.record_realloc(&INSIDE, pointer(0), pointer(1), 10, 30));
    assert!(state.record_free(&INSIDE, pointer(1), 30, 13_000));
    state.record_alloc(&INSIDE, pointer(2), 10, &mut bt, 5_000);
    assert!(state.record_free(&INSIDE, pointer(2), 10, 4_000));
    let top = state.top_k_stacks(&INSIDE, Measurement::AllocatedBytes, 1);
    assert_eq!(top[0].hist.totals(), (12_000, 2));
}

#[test]
fn lifetimes_are_read_from_the_clock() {
    let mut profiler = YingProfiler::new(1, LIMIT);
    let mut tl = YingThreadLocal::new();
    Clock::set_recent_since_epoch(Duration::from_secs(1_000));
    profiler.on_alloc(&mut tl, pointer(0), 100);
    Clock::set_recent_since_epoch(Duration::from_secs(1_012));
    profiler.on_dealloc(&mut tl, pointer(0), 100);
    let top = profiler.top_k_stacks_by_allocated(&mut tl, 1);
    assert_eq!(top[0].hist.totals(), (12_000, 1));
    assert_eq!(top[0].hist.counts(), [0, 0, 0, 1, 0, 0]);
}

#[test]
fn reset_forgets_stats_but_not_symbols() {
    let mut profiler = YingProfiler::new(1, LIMIT);
    let mut tl = YingThreadLocal::new();
    profiler.on_alloc(&mut tl, pointer(0), 100);
    let symbols = profiler.symbol_map_size(&mut tl);
    assert!(symbols > 0);
    profiler.reset_state_for_testing_only(&mut tl);
    assert_eq!(profiler.num_stack_traces(&mut tl), 0);
    assert_eq!(profiler.num_outstanding_allocs(&mut tl), 0);
    assert_eq!(profiler.symbol_map_size(&mut tl), symbols);
    assert_eq!(profiler.total_retained_bytes(), 100);
}

/// Allocates from a call stack of its own for each depth.
fn allocate_at_depth(
    profiler: &mut YingProfiler,
    tl: &mut YingThreadLocal,
    depth: usize,
    n: usize,
    size: usize,
) -> u64 {
    if depth == 0 {
        return black_box(profiler.on_alloc(tl, pointer(n), size).ptr);
    }
    let ptr = allocate_at_depth(profiler, tl, depth - 1, n, size);
    black_box(ptr) + black_box(0)
}

#[test]
fn top_stacks_come_in_descending_order() {
    let mut profiler = YingProfiler::new(1, LIMIT);
    profiler.set_map_sizing(MapSizing {
        capacity_override: None,
        cpus: Some(8),
    });
    let mut tl = YingThreadLocal::new();
    allocate_at_depth(&mut profiler, &mut tl, 3, 0, 1000);
    allocate_at_depth(&mut profiler, &mut tl, 6, 1, 300);
    allocate_at_depth(&mut profiler, &mut tl, 9, 2, 300);
    profiler.on_dealloc(&mut tl, pointer(0), 1000);
    assert_eq!(profiler.num_stack_traces(&mut tl), 3);

    let bytes = |stacks: Vec<StackStats>| -> Vec<(u64, u64)> {
        stacks
            .iter()
            .map(|s| (s.allocated_bytes, s.retained_profiled_bytes()))
            .collect()
    };
    assert_eq!(
        bytes(profiler.top_k_stacks_by_allocated(&mut tl, 10)),
        vec![(1000, 0), (300, 300), (300, 300)]
    );
    assert_eq!(
        bytes(profiler.top_k_stacks_by_retained(&mut tl, 10)),
        vec![(300, 300), (300, 300), (1000, 0)]
    );
    assert_eq!(bytes(profiler.top_k_stacks_by_allocated(&mut tl, 1)), vec![(1000, 0)]);
    assert!(profiler.top_k_stacks_by_allocated(&mut tl, 0).is_empty());
}

#[test]
fn stats_start_with_their_first_allocation() {
    let stack = StdCallstack::from_ips(&[1, 2, 3, 4]);
    let none = StackStats::new(stack.clone(), None);
    assert_eq!((none.allocated_bytes, none.num_allocations), (0, 0));
    let mut some = StackStats::new(stack, Some(99));
    assert_eq!((some.allocated_bytes, some.num_allocations), (99, 1));
    // Freed could be slightly bigger than allocated
    some.update_free_stats(100, 5);
    assert_eq!(some.retained_profiled_bytes(), 0);
    some.update_alloc_stats(11);
    assert_eq!(some.retained_profiled_bytes(), 10);
    assert_eq!(some.measured_bytes(Measurement::AllocatedBytes), 110);
    assert_eq!(some.measured_bytes(Measurement::RetainedBytes), 10);
    some.update_realloc_stats(11, 5);
    assert_eq!(some.allocated_bytes, 104);
}

#[test]
fn rich_report_is_laid_out_in_lines() {
    let mut profiler = YingProfiler::new(1, LIMIT);
    let mut s = StackStats::new(StdCallstack::from_ips(&[1, 2, 3, 4]), Some(1000));
    s.update_free_stats(250, 2_000);
    let q = s.quotients(4000, 1500);
    assert_eq!(
        q,
        ReportQuotients {
            allocated: (1000, 4000),
            retained_of_all: (750, 1500),
            retained_of_allocated: (750, 1000),
            lifetime_millis: (2_000, 1),
        }
    );
    assert_eq!(
        s.rich_report(&mut profiler, &mut YingThreadLocal::new(), false, false, &figures(&q)),
        format!(
            "1000 profiled bytes allocated (25.00%) (1 allocations)\n  \
             750 profiled bytes retained  (1 frees)\n    \
             (50.00% of all retained profiled allocs) (75.00% of allocated bytes)\n  \
             Histogram avg: 2.00secs {{1.00s: 0, 5.00s: 1, 10.00s: 0, 30.00s: 0, 100.00s: 0, \
             18446744073709552.00s: 0, }}\n\
             Callback <hash = 0x{:0x}>\n\n",
            s.stack.compute_hash()
        )
    );
}

#[test]
fn flamegraph_shows_the_stacks() {
    let mut profiler = YingProfiler::new(1, LIMIT);
    let mut tl = YingThreadLocal::new();
    allocate_at_depth(&mut profiler, &mut tl, 4, 0, 1000);
    let drawing = gen_flamegraph(&mut profiler, &mut tl, Measurement::AllocatedBytes);
    assert_eq!(drawing.result, Ok(()));
    assert!(!tl.is_allocator_locked());
    let text = String::from_utf8(drawing.svg).unwrap();
    assert!(text.starts_with("<?xml"));
    assert!(text.contains("<svg"));
    assert!(text.contains("1,000 samples"));
}

#[test]
fn flamegraph_without_stacks_is_a_drawing_of_the_error() {
    let mut profiler = YingProfiler::new(1, LIMIT);
    let mut tl = YingThreadLocal::new();
    let drawing = gen_flamegraph_if_it_fits(&mut profiler, &mut tl, Measurement::RetainedBytes);
    let drawing = drawing.unwrap();
    assert!(drawing.result.unwrap_err().contains("No stack counts found"));
    let text = String::from_utf8(drawing.svg).unwrap();
    assert!(text.contains("ERROR: No valid input provided to flamegraph"));
}

#[test]
fn flamegraph_of_too_many_bytes_does_not_fit() {
    let mut state = YingState::new(MapSizing {
        capacity_override: None,
        cpus: None,
    });
    let mut bt = backtrace::Backtrace::new_unresolved();
    let most = (usize::MAX / 100 - 16) as u64;
    state.record_alloc(&INSIDE, pointer(0), most, &mut bt, 0);
    assert!(flamegraph_fits(&state, &INSIDE, Measurement::AllocatedBytes));
    state.record_alloc(&INSIDE, pointer(1), 1, &mut bt, 0);
    assert!(!flamegraph_fits(&state, &INSIDE, Measurement::AllocatedBytes));
    assert!(state.record_free(&INSIDE, pointer(1), 1, 0));
    assert!(flamegraph_fits(&state, &INSIDE, Measurement::RetainedBytes));
    let folded = fold_top_stacks(&state, &INSIDE, Measurement::RetainedBytes);
    assert!(folded.draw().result.is_ok());
}

/// Neither capturing nor recording adds a frame: the same ones are skipped as of a backtrace that is
/// captured right here.
#[test]
fn recording_adds_no_frames() {
    let mut state = YingState::new(MapSizing {
        capacity_override: None,
        cpus: None,
    });
    let bt = backtrace::Backtrace::new_unresolved();
    state.profile_alloc(&INSIDE, pointer(0), 64);
    let top = state.top_k_stacks(&INSIDE, Measurement::AllocatedBytes, 1);
    let ips: Vec<u64> = bt.frames().iter().map(|f| f.ip() as u64).collect();
    assert!(ips.len() > 3);
    assert_eq!(top[0].stack.frames(), StdCallstack::from_ips(&ips).frames());
}

#[test]
fn outstanding_pointers_are_known() {
    let mut state = YingState::new(MapSizing {
        capacity_override: None,
        cpus: None,
    });
    state.profile_alloc(&INSIDE, pointer(0), 64);
    assert!(state.is_outstanding(&INSIDE, pointer(0)));
    assert!(!state.is_outstanding(&INSIDE, pointer(1)));
    assert!(state.profile_free(&INSIDE, pointer(0), 64));
    assert!(!state.is_outstanding(&INSIDE, pointer(0)));
}

#[test]
fn bytes_at_each_rank_do_not_depend_on_the_choice_among_equals() {
    let mut tl = YingThreadLocal::new();
    let mut profiler = YingProfiler::new(1, LIMIT);
    for (n, size) in [7, 7, 9, 7, 3].into_iter().enumerate() {
        allocate_at_depth(&mut profiler, &mut tl, 3 * n + 3, n, size);
    }
    let all: Vec<u64> = vec![9, 7, 7, 7, 3];
    for k in 0..7 {
        let top = profiler.top_k_stacks_by_allocated(&mut tl, k);
        let bytes: Vec<u64> = top.iter().map(|s| s.allocated_bytes).collect();
        assert_eq!(bytes, all[..k.min(5)]);
    }
}

#[test]
fn headline_of_a_denial() {
    assert_eq!(
        denial_headline(70),
        "WARNING: Huge memory allocation of 70 bytes denied by Ying profiler\n"
    );
}
