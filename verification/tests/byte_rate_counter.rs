use plane_core::byte_rate_counter::ByteRateCounter;
use plane_core::rates::{add_bytes_down, add_bytes_down_at, add_bytes_up, add_bytes_up_at, LinkRates, LINK_RATE_WINDOW_NANOS};

const SEC: u128 = 1_000_000_000;

#[test]
fn new_counter_is_empty_with_one_second_window() {
    let mut c = ByteRateCounter::new();
    assert_eq!(c.sample_interval_nanos(), SEC);
    assert_eq!(c.count_at(5 * SEC), 0);
    let mut d = ByteRateCounter::default();
    assert_eq!(d.sample_interval_nanos(), SEC);
    assert_eq!(d.count_at(0), 0);
}

#[test]
fn samples_inside_the_window_are_summed() {
    let mut c = ByteRateCounter::over_internal(SEC);
    c.update_at(10 * SEC, 100);
    c.update_at(10 * SEC + SEC / 2, 50);
    assert_eq!(c.count_at(10 * SEC + SEC / 2), 150);
    // exactly one interval old is still inside
    assert_eq!(c.count_at(11 * SEC), 150);
}

#[test]
fn samples_older_than_the_window_are_dropped() {
    let mut c = ByteRateCounter::over_internal(SEC);
    c.update_at(10 * SEC, 100);
    c.update_at(10 * SEC + SEC / 2, 50);
    assert_eq!(c.count_at(11 * SEC + 1), 50);
    assert_eq!(c.count_at(12 * SEC), 0);
}

#[test]
fn trimming_stops_at_first_unexpired_sample() {
    // A sample stamped later than a following one shields it from trimming.
    let mut c = ByteRateCounter::over_internal(SEC);
    c.update_at(10 * SEC, 7);
    c.update_at(5 * SEC, 3);
    // at 10 s the 5 s sample is expired but sits behind an unexpired one
    assert_eq!(c.count_at(10 * SEC), 10);
    // once the first sample expires both go
    assert_eq!(c.count_at(12 * SEC), 0);
}

#[test]
fn update_trims_at_the_update_instant() {
    let mut c = ByteRateCounter::over_internal(SEC);
    c.update_at(1 * SEC, 1000);
    c.update_at(3 * SEC, 1);
    assert_eq!(c.count_at(3 * SEC), 1);
}

#[test]
fn count_twice_at_same_instant_is_stable() {
    let mut c = ByteRateCounter::over_internal(2 * SEC);
    c.update_at(1 * SEC, 5);
    c.update_at(2 * SEC, 6);
    let a = c.count_at(3 * SEC + 1);
    let b = c.count_at(3 * SEC + 1);
    assert_eq!(a, 6);
    assert_eq!(a, b);
}

#[test]
fn later_count_is_never_larger() {
    let mut c = ByteRateCounter::over_internal(SEC);
    for i in 0..10u128 {
        c.update_at(i * SEC / 10, 10);
    }
    let mut last = c.count_at(SEC);
    for t in 1..30u128 {
        let now = SEC + t * SEC / 10;
        let n = c.count_at(now);
        assert!(n <= last);
        last = n;
    }
    assert_eq!(last, 0);
}

#[test]
fn clock_based_update_and_count() {
    let mut c = ByteRateCounter::new();
    c.update(42);
    c.update(8);
    assert_eq!(c.count(), 50);
}

#[test]
fn link_rates_start_without_counters() {
    let r = LinkRates::new();
    assert!(r.up.is_none());
    assert!(r.down.is_none());
}

#[test]
fn link_rates_create_quarter_second_counters() {
    let mut r = LinkRates::new();
    add_bytes_up(&mut r, 12);
    assert!(r.down.is_none());
    let up = r.up.as_mut().unwrap();
    assert_eq!(up.sample_interval_nanos(), LINK_RATE_WINDOW_NANOS);
    assert_eq!(LINK_RATE_WINDOW_NANOS, 250_000_000);
    assert_eq!(up.count(), 12);
    add_bytes_up(&mut r, 3);
    add_bytes_down(&mut r, 7);
    assert_eq!(r.up.as_mut().unwrap().count(), 15);
    assert_eq!(r.down.as_mut().unwrap().count(), 7);
}

#[test]
fn received_bytes_stay_counted_for_a_quarter_second() {
    let mut r = LinkRates::new();
    let t0 = 40 * SEC;
    add_bytes_down_at(&mut r, 9, t0);
    assert!(r.up.is_none());
    let down = r.down.as_mut().unwrap();
    assert!(down.count_at(t0 + LINK_RATE_WINDOW_NANOS) >= 9);
    assert_eq!(down.count_at(t0 + LINK_RATE_WINDOW_NANOS + 1), 0);
    add_bytes_up_at(&mut r, 4, t0);
    assert_eq!(r.up.as_mut().unwrap().count_at(t0 + 1), 4);
}

#[test]
fn trim_drops_the_expired_front() {
    let mut c = ByteRateCounter::over_internal(SEC);
    c.update_at(10 * SEC, 100);
    c.update_at(11 * SEC, 50);
    c.trim(11 * SEC + 1);
    assert_eq!(c.running_total(), 50);
    c.trim(11 * SEC + 1);
    assert_eq!(c.running_total(), 50);
    c.trim(13 * SEC);
    assert_eq!(c.running_total(), 0);
}
