use ying_profiler::thread_state::{exit_profiler, try_enter_profiler, YingThreadLocal};

#[test]
fn guard_is_taken_and_released() {
    let mut tl = YingThreadLocal::new();
    assert!(!tl.is_allocator_locked());
    tl.set_allocator_lock();
    tl.set_allocator_lock();
    assert!(tl.is_allocator_locked());
    tl.release_allocator_lock();
    assert!(tl.is_allocator_locked());
    tl.release_allocator_lock();
    assert!(!tl.is_allocator_locked());
    // Releasing a free guard does nothing
    tl.release_allocator_lock();
    assert_eq!(tl, YingThreadLocal::new());
}

#[test]
fn guard_saturates() {
    let mut tl = YingThreadLocal {
        alloc_lock: u32::MAX,
        sample_count: 3,
    };
    tl.set_allocator_lock();
    assert_eq!(tl.alloc_lock, u32::MAX);
}

#[test]
fn first_of_every_ratio_is_sampled() {
    let mut tl = YingThreadLocal::new();
    let sampled: Vec<u32> = (0..12).filter(|_| tl.should_sample(5)).collect();
    assert_eq!(sampled, vec![0, 5, 10]);
    assert_eq!(tl.sample_count, 12);
}

#[test]
fn sampling_counter_wraps_around() {
    let mut tl = YingThreadLocal {
        alloc_lock: 0,
        sample_count: u32::MAX,
    };
    assert!(!tl.should_sample(2));
    assert_eq!(tl.sample_count, 0);
    assert!(tl.should_sample(2));
}

#[test]
fn reset_guarantees_the_next_sample() {
    for ratio in [1, 2, 500, u32::MAX] {
        let mut tl = YingThreadLocal {
            alloc_lock: 0,
            sample_count: 77,
        };
        tl.test_only_reset_sampling_counter();
        assert!(try_enter_profiler(&mut tl, Some(ratio)));
    }
}

#[test]
fn locked_thread_neither_enters_nor_counts() {
    let mut tl = YingThreadLocal::new();
    assert!(try_enter_profiler(&mut tl, None));
    let inside = tl;
    assert!(!try_enter_profiler(&mut tl, None));
    assert!(!try_enter_profiler(&mut tl, Some(1)));
    assert!(!try_enter_profiler(&mut tl, Some(0)));
    assert_eq!(tl, inside);
    exit_profiler(&mut tl);
    assert_eq!(tl, YingThreadLocal::new());
}

#[test]
fn unsampled_attempt_counts_but_does_not_lock() {
    let mut tl = YingThreadLocal {
        alloc_lock: 0,
        sample_count: 1,
    };
    assert!(!try_enter_profiler(&mut tl, Some(5)));
    assert_eq!(
        tl,
        YingThreadLocal {
            alloc_lock: 0,
            sample_count: 2,
        }
    );
}

#[test]
fn one_in_ratio_is_sampled() {
    for start in [0u32, 1, 3, 12345] {
        let mut tl = YingThreadLocal {
            alloc_lock: 0,
            sample_count: start,
        };
        let sampled = (0..7).filter(|_| tl.should_sample(7)).count();
        assert_eq!(sampled, 1);
    }
}
