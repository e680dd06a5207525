use ying_profiler::histogram::MillisHistogram;

#[test]
fn samples_fall_into_the_bucket_below_each_bound() {
    let mut h = MillisHistogram::new();
    for millis in [0, 999] {
        h.add_sample(millis);
    }
    assert_eq!(h.counts(), [2, 0, 0, 0, 0, 0]);
    for millis in [1_000, 4_999, 5_000, 9_999, 10_000, 29_999, 30_000, 99_999, 100_000, u64::MAX] {
        h.add_sample(millis);
    }
    assert_eq!(h.counts(), [2, 2, 2, 2, 2, 2]);
    assert_eq!(h.totals().1, 12);
}

#[test]
fn totals_are_sum_and_number() {
    let mut h = MillisHistogram::default();
    assert_eq!(h.totals(), (0, 0));
    h.add_sample(1_500);
    h.add_sample(2_500);
    assert_eq!(h.totals(), (4_000, 2));
}

#[test]
fn sum_wraps_around() {
    let mut h = MillisHistogram::new();
    h.add_sample(u64::MAX);
    h.add_sample(3);
    assert_eq!(h.totals(), (2, 2));
}

#[test]
fn report_lists_every_bucket() {
    let mut h = MillisHistogram::new();
    h.add_sample(10);
    h.add_sample(7_000);
    h.add_sample(8_000);
    h.add_sample(1_000_000);
    assert_eq!(
        h.report("253.75"),
        "Histogram avg: 253.75secs {1.00s: 1, 5.00s: 0, 10.00s: 2, 30.00s: 0, 100.00s: 0, \
         18446744073709552.00s: 1, }"
    );
}

#[test]
fn labels_are_the_bounds_in_seconds() {
    let bounds: [u64; 6] = [1000, 5_000, 10_000, 30_000, 100_000, u64::MAX];
    let mut expected = format!("Histogram avg: {:.2}secs {{", f64::NAN);
    for bound in bounds {
        expected.push_str(&format!("{:.2}s: {}, ", bound as f64 / 1000.0, 0));
    }
    expected.push('}');
    assert_eq!(MillisHistogram::new().report("NaN"), expected);
}

#[test]
fn bucket_counts_add_up_to_the_number_of_samples() {
    let mut h = MillisHistogram::new();
    let mut millis: u64 = 1;
    for n in 1..60u64 {
        h.add_sample(millis);
        millis = millis.wrapping_mul(7) % 300_000;
        assert_eq!(h.counts().iter().sum::<u64>(), n);
        assert_eq!(h.totals().1, n);
    }
}
