use plane_core::serial_link::{after_link_outcome, LinkLogLevel, LinkOutcome, LinkRetry, find_radio_port, is_rpi_boot_device, rpi_boot_device_connected};

#[test]
fn rpi_boot_device_ids() {
    assert!(is_rpi_boot_device(0x2E8A, 0x0003));
    assert!(!is_rpi_boot_device(0x2E8A, 0x000A));
    assert!(!is_rpi_boot_device(0x1234, 0x0003));
    assert!(!rpi_boot_device_connected(&vec![]));
    assert!(!rpi_boot_device_connected(&vec![(0x1d6b, 0x0002), (0x2E8A, 0x0005)]));
    assert!(rpi_boot_device_connected(&vec![(0x1d6b, 0x0002), (0x2E8A, 0x0003)]));
}

#[test]
fn radio_port_is_first_usb_port_with_serial() {
    let ports = vec![None, Some("OTHER".to_string()), Some("B000IV2L".to_string()), Some("B000IV2L".to_string())];
    assert_eq!(find_radio_port(&ports, "B000IV2L"), Some(2));
    assert_eq!(find_radio_port(&ports, "MISSING"), None);
    assert_eq!(find_radio_port(&vec![], "B000IV2L"), None);
}

#[test]
fn link_retries_after_each_outcome() {
    assert_eq!(
        after_link_outcome(LinkOutcome::OpenFailed),
        LinkRetry { level: LinkLogLevel::Warn, delay_secs: 2 }
    );
    assert_eq!(
        after_link_outcome(LinkOutcome::TasksEnded),
        LinkRetry { level: LinkLogLevel::Error, delay_secs: 0 }
    );
    assert_eq!(
        after_link_outcome(LinkOutcome::TasksFailed),
        LinkRetry { level: LinkLogLevel::Warn, delay_secs: 2 }
    );
}
