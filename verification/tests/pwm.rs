use plane_core::pwm::pwm_period;

#[test]
fn pwm_period_for_servo_outputs() {
    // 125 MHz system clock, 50 Hz servo frame, divider 64
    assert_eq!(pwm_period(125_000_000, 50, 64), 39_061);
    // the tick count is cut to 16 bits before the top is taken
    assert_eq!(pwm_period(150_000_000, 50, 16), 56_427);
    assert_eq!(pwm_period(1000, 1, 1), 999);
}
