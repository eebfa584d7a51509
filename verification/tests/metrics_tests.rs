use champ::metrics::{network_totals, reuse_cached_sample, TrafficBaseline};

#[test]
fn network_totals_add_every_interface() {
    let per_interface = vec![(100u64, 10u64), (250, 20), (0, 5)];
    assert_eq!(network_totals(&per_interface), (350, 35));
}

#[test]
fn network_totals_of_no_interface_are_zero() {
    assert_eq!(network_totals(&Vec::new()), (0, 0));
}

#[test]
fn network_totals_hold_at_the_maximum() {
    let per_interface = vec![(u64::MAX - 1, 1u64), (5, u64::MAX)];
    assert_eq!(network_totals(&per_interface), (u64::MAX, u64::MAX));
}

#[test]
fn cached_sample_is_reused_only_inside_the_interval() {
    assert!(reuse_cached_sample(0, true));
    assert!(reuse_cached_sample(1_499_999_999, true));
    assert!(!reuse_cached_sample(1_500_000_000, true));
    assert!(!reuse_cached_sample(10, false));
}

#[test]
fn traffic_baseline_counts_bytes_since_the_last_sample() {
    let mut baseline = TrafficBaseline::new(1000, 500);
    assert_eq!(baseline.advance(1600, 700), (600, 200));
    assert_eq!(baseline, TrafficBaseline::new(1600, 700));
}

#[test]
fn traffic_baseline_reads_a_reset_counter_as_no_traffic() {
    let mut baseline = TrafficBaseline::new(1000, 500);
    assert_eq!(baseline.advance(10, 900), (0, 400));
    assert_eq!(baseline.advance(30, 900), (20, 0));
}
