//! The PWM period of the flight controller's servo and motor outputs.

use vstd::prelude::*;

verus! {

/// The counter top for a PWM slice: the number of counter ticks per output
/// cycle at the given system clock, output frequency and clock divider,
/// cut to 16 bits, less one (the counter counts from 0 to top).
pub open spec fn spec_pwm_period(clock_freq_hz: u32, duty_cycle_hz: u32, divider: u8) -> int {
    ((clock_freq_hz as int / (duty_cycle_hz * divider)) % 0x1_0000) - 1
}

/// The counter top for a PWM slice. The product of frequency and divider
/// must be a nonzero 32-bit number, and the tick count, cut to 16 bits, must
/// be at least one.
pub fn pwm_period(clock_freq_hz: u32, duty_cycle_hz: u32, divider: u8) -> (period: u16)
    requires
        0 < duty_cycle_hz * divider <= u32::MAX,
        (clock_freq_hz as int / (duty_cycle_hz * divider)) % 0x1_0000 >= 1,
    ensures
        period == spec_pwm_period(clock_freq_hz, duty_cycle_hz, divider),
{
    let cycle = duty_cycle_hz * divider as u32;
    let ticks = clock_freq_hz / cycle;
    let truncated = (ticks % 0x1_0000) as u16;
    truncated - 1
}

} // verus!
