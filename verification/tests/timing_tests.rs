use membench::timing::{throughput_millibytes_per_sec, trial_elapsed};

#[test]
fn elapsed_spans_first_start_to_last_end() {
    let times = vec![(40u64, 90u64), (60, 120), (55, 80)];
    assert_eq!(trial_elapsed(50, &times), 80);
}

#[test]
fn the_coordinator_instant_can_be_the_reference_start() {
    let times = vec![(70u64, 90u64)];
    assert_eq!(trial_elapsed(50, &times), 40);
}

#[test]
fn throughput_is_the_exact_quotient() {
    // A gibibyte in half a second is two gibibytes per second.
    assert_eq!(
        throughput_millibytes_per_sec(1_073_741_824, 500_000_000),
        Some(2_147_483_648_000)
    );
}

#[test]
fn zero_elapsed_time_is_guarded_not_divided() {
    assert_eq!(throughput_millibytes_per_sec(1024, 0), None);
}

#[test]
fn absurdly_fast_rates_are_guarded() {
    assert_eq!(throughput_millibytes_per_sec(u64::MAX, 1), None);
}
