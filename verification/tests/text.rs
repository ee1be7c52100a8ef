use plane_core::clock::{unix_time_of, UnixTime};
use plane_core::text::{digit_str, file_name_at, push_decimal, push_three_digits, timestamped_file_name};

#[test]
fn decimal_rendering() {
    for (n, s) in [(0u64, "0"), (7, "7"), (10, "10"), (1234, "1234"), (u64::MAX, "18446744073709551615")] {
        let mut out = String::from("x");
        push_decimal(&mut out, n);
        assert_eq!(out, format!("x{s}"));
    }
    for d in 0..10u64 {
        assert_eq!(digit_str(d), d.to_string());
    }
}

#[test]
fn three_digit_rendering() {
    for (n, s) in [(0u64, "000"), (5, "005"), (42, "042"), (999, "999"), (1234, "234")] {
        let mut out = String::new();
        push_three_digits(&mut out, n);
        assert_eq!(out, s);
    }
}

#[test]
fn file_name_layout() {
    let t = UnixTime { secs: 1_700_000_000, subsec_nanos: 7_999_999 };
    assert_eq!(file_name_at("log", "txt", t), "log_1700000000.007.txt");
    let t = UnixTime { secs: 0, subsec_nanos: 999_999_999 };
    assert_eq!(file_name_at("rx", "bin", t), "rx_0.999.bin");
}

#[test]
fn timestamped_file_name_has_prefix_and_extension() {
    let name = timestamped_file_name("tx", "bin");
    assert!(name.starts_with("tx_"));
    assert!(name.ends_with(".bin"));
    let middle = &name[3..name.len() - 4];
    let (secs, millis) = middle.split_once('.').unwrap();
    assert!(secs.parse::<u64>().unwrap() > 1_600_000_000);
    assert_eq!(millis.len(), 3);
    assert!(millis.chars().all(|c| c.is_ascii_digit()));
}

#[test]
fn unix_time_helpers() {
    let t = UnixTime { secs: 3, subsec_nanos: 250_000_001 };
    assert_eq!(t.total_nanos(), 3_250_000_001);
    assert_eq!(t.subsec_millis(), 250);
    let e = UnixTime::epoch();
    assert_eq!(e.total_nanos(), 0);
    let now = plane_core::clock::unix_time_now();
    assert!(now.subsec_nanos < 1_000_000_000);
    assert!(now.secs > 1_600_000_000);
}

#[test]
fn clock_before_epoch_reads_as_epoch() {
    assert_eq!(unix_time_of(None), UnixTime { secs: 0, subsec_nanos: 0 });
    assert_eq!(unix_time_of(Some((5, 7))), UnixTime { secs: 5, subsec_nanos: 7 });
}
