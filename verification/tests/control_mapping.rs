use plane_core::control_mapping::{ControlMapping, GcsEvent, PadAxis, PadButton, PadEvent};

fn map(event: PadEvent<f32>) -> Option<GcsEvent<f32>> {
    ControlMapping::default().map_to_message(event)
}

#[test]
fn default_buttons() {
    assert!(matches!(map(PadEvent::ButtonPressed { button: PadButton::LeftTrigger, code: 1 }), Some(GcsEvent::Disarm)));
    assert!(matches!(map(PadEvent::ButtonPressed { button: PadButton::DPadRight, code: 1 }), Some(GcsEvent::NextTrim)));
    assert!(matches!(map(PadEvent::ButtonPressed { button: PadButton::DPadLeft, code: 1 }), Some(GcsEvent::PreviousTrim)));
    assert!(matches!(map(PadEvent::ButtonPressed { button: PadButton::DPadUp, code: 1 }), Some(GcsEvent::MoreTrim)));
    assert!(matches!(map(PadEvent::ButtonPressed { button: PadButton::DPadDown, code: 1 }), Some(GcsEvent::LessTrim)));
    assert!(matches!(map(PadEvent::ButtonPressed { button: PadButton::South, code: 65852 }), Some(GcsEvent::Exit)));
    assert!(map(PadEvent::ButtonPressed { button: PadButton::South, code: 65851 }).is_none());
    // pressing the arm button does nothing; releasing it arms
    assert!(map(PadEvent::ButtonPressed { button: PadButton::RightTrigger, code: 3 }).is_none());
    assert!(matches!(map(PadEvent::ButtonReleased { button: PadButton::RightTrigger }), Some(GcsEvent::Arm)));
}

#[test]
fn disarm_button_disarms_on_every_event() {
    assert!(matches!(map(PadEvent::ButtonRepeated { button: PadButton::LeftTrigger }), Some(GcsEvent::Disarm)));
    assert!(matches!(map(PadEvent::ButtonReleased { button: PadButton::LeftTrigger }), Some(GcsEvent::Disarm)));
    // the disarm button wins even when its code is the exit code
    assert!(matches!(map(PadEvent::ButtonPressed { button: PadButton::LeftTrigger, code: 65852 }), Some(GcsEvent::Disarm)));
    assert!(map(PadEvent::ButtonRepeated { button: PadButton::DPadUp }).is_none());
}

#[test]
fn default_axes_pass_values_through() {
    assert!(matches!(map(PadEvent::AxisChanged { axis: PadAxis::LeftStickY, value: 0.5 }), Some(GcsEvent::Pitch(v)) if v == 0.5));
    assert!(matches!(map(PadEvent::AxisChanged { axis: PadAxis::RightStickX, value: -0.25 }), Some(GcsEvent::Yaw(v)) if v == -0.25));
    assert!(matches!(map(PadEvent::AxisChanged { axis: PadAxis::LeftStickX, value: 1.0 }), Some(GcsEvent::Roll(v)) if v == 1.0));
    assert!(matches!(map(PadEvent::AxisChanged { axis: PadAxis::RightStickY, value: 0.75 }), Some(GcsEvent::Throttle(v)) if v == 0.75));
    assert!(map(PadEvent::AxisChanged { axis: PadAxis::LeftZ, value: 0.75 }).is_none());
    assert!(map(PadEvent::Other).is_none());
    assert!(map(PadEvent::Disconnected).is_none());
}
