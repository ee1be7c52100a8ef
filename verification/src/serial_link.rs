//! Finding the ground station's radio among the serial ports, and spotting
//! the flight controller's board on USB once it rebooted into its
//! bootloader.

use vstd::prelude::*;

verus! {

/// USB vendor id of the board in bootloader mode.
pub const RPI_BOOT_VENDOR_ID: u16 = 0x2E8A;

/// USB product id of the board in bootloader mode.
pub const RPI_BOOT_PRODUCT_ID: u16 = 0x0003;

pub open spec fn spec_is_rpi_boot_device(vendor_id: u16, product_id: u16) -> bool {
    vendor_id == RPI_BOOT_VENDOR_ID && product_id == RPI_BOOT_PRODUCT_ID
}

/// Whether a USB device with these ids is the board in bootloader mode.
pub fn is_rpi_boot_device(vendor_id: u16, product_id: u16) -> (b: bool)
    ensures
        b == spec_is_rpi_boot_device(vendor_id, product_id),
{
    vendor_id == RPI_BOOT_VENDOR_ID && product_id == RPI_BOOT_PRODUCT_ID
}

/// Whether any of the connected USB devices, given by vendor and product
/// id, is the board in bootloader mode.
pub fn rpi_boot_device_connected(devices: &Vec<(u16, u16)>) -> (b: bool)
    ensures
        b == exists|i: int|
            0 <= i < devices@.len() && #[trigger] spec_is_rpi_boot_device(devices@[i].0, devices@[i].1),
{
    for i in 0..devices.len()
        invariant
            forall|j: int| 0 <= j < i ==> !#[trigger] spec_is_rpi_boot_device(devices@[j].0, devices@[j].1),
    {
        let (v, p) = devices[i];
        if is_rpi_boot_device(v, p) {
            return true;
        }
    }
    false
}

/// The first port that is a USB port with the given serial number. A port is
/// given by the serial number of its USB device, `None` for a port that is
/// not on USB or has none.
pub fn find_radio_port(ports: &Vec<Option<String>>, serial_number: &str) -> (found: Option<usize>)
    ensures
        match found {
            Some(i) => {
                &&& i < ports@.len()
                &&& ports@[i as int] matches Some(s) && s@ == serial_number@
                &&& forall|j: int|
                    0 <= j < i ==> !(#[trigger] ports@[j] matches Some(s) && s@ == serial_number@)
            },
            None => forall|j: int|
                0 <= j < ports@.len() ==> !(#[trigger] ports@[j] matches Some(s) && s@ == serial_number@),
        },
{
    let wanted = serial_number.to_owned();
    for i in 0..ports.len()
        invariant
            wanted@ == serial_number@,
            forall|j: int|
                0 <= j < i ==> !(#[trigger] ports@[j] matches Some(s) && s@ == serial_number@),
    {
        match &ports[i] {
            Some(s) => {
                if *s == wanted {
                    return Some(i);
                }
            },
            None => {},
        }
    }
    None
}

/// Seconds the ground station waits before it opens the radio's port again
/// after a failure.
pub const RECONNECT_DELAY_SECS: u64 = 2;

/// How one attempt to run the radio link ended.
#[derive(Debug, Clone, Copy, PartialEq, Eq, Structural)]
pub enum LinkOutcome {
    /// The port could not be opened.
    OpenFailed,
    /// The reading and writing tasks both ended without an error.
    TasksEnded,
    /// One of the reading and writing tasks failed.
    TasksFailed,
}

/// How loudly an ended attempt is logged.
#[derive(Debug, Clone, Copy, PartialEq, Eq, Structural)]
pub enum LinkLogLevel {
    Warn,
    Error,
}

/// What the ground station does after an attempt: log it, then wait this
/// many seconds and try again.
#[derive(Debug, Clone, Copy, PartialEq, Eq, Structural)]
pub struct LinkRetry {
    pub level: LinkLogLevel,
    pub delay_secs: u64,
}

/// The retry after an attempt to run the radio link ended. A failure (of the
/// port or of a task) is a warning and is retried after
/// `RECONNECT_DELAY_SECS`; tasks that end on their own should not, so that
/// is an error, retried at once.
pub fn after_link_outcome(outcome: LinkOutcome) -> (retry: LinkRetry)
    ensures
        retry == (match outcome {
            LinkOutcome::OpenFailed => LinkRetry { level: LinkLogLevel::Warn, delay_secs: RECONNECT_DELAY_SECS },
            LinkOutcome::TasksEnded => LinkRetry { level: LinkLogLevel::Error, delay_secs: 0 },
            LinkOutcome::TasksFailed => LinkRetry { level: LinkLogLevel::Warn, delay_secs: RECONNECT_DELAY_SECS },
        }),
{
    match outcome {
        LinkOutcome::OpenFailed => LinkRetry { level: LinkLogLevel::Warn, delay_secs: RECONNECT_DELAY_SECS },
        LinkOutcome::TasksEnded => LinkRetry { level: LinkLogLevel::Error, delay_secs: 0 },
        LinkOutcome::TasksFailed => LinkRetry { level: LinkLogLevel::Warn, delay_secs: RECONNECT_DELAY_SECS },
    }
}

} // verus!
