use plane_core::commands::{Axis, FcInput, FlightAction, FlightState, PilotAction, PilotState, TrimEdit};
use plane_core::control_mapping::{GcsEvent, PadEvent};

#[test]
fn pilot_arms_and_disarms_with_announcements() {
    let mut s = PilotState::new();
    assert!(!s.armed && s.running);
    assert!(matches!(s.on_event(GcsEvent::<f32>::Arm), PilotAction::AnnounceArmed));
    assert!(s.armed);
    assert!(matches!(s.on_event(GcsEvent::<f32>::Arm), PilotAction::Nothing));
    assert!(matches!(s.on_event(GcsEvent::<f32>::Disarm), PilotAction::AnnounceDisarmed));
    assert!(!s.armed);
    assert!(matches!(s.on_event(GcsEvent::<f32>::Disarm), PilotAction::Nothing));
}

#[test]
fn pilot_axes_trims_and_exit() {
    let mut s = PilotState::new();
    assert!(matches!(s.on_event(GcsEvent::Pitch(0.5f32)), PilotAction::SetAxis(Axis::Pitch, v) if v == 0.5));
    assert!(matches!(s.on_event(GcsEvent::Throttle(0.2f32)), PilotAction::SetAxis(Axis::Throttle, v) if v == 0.2));
    assert!(!s.new_trim);
    assert!(matches!(s.on_event(GcsEvent::<f32>::MoreTrim), PilotAction::EditTrim(TrimEdit::More)));
    assert!(s.new_trim);
    assert!(matches!(s.on_event(GcsEvent::<f32>::Exit), PilotAction::AnnounceExit));
    assert!(!s.running);
}

#[test]
fn pilot_stops_when_pad_disconnects() {
    let mut s = PilotState::new();
    s.on_pad_event(&PadEvent::<f32>::Other);
    assert!(s.running);
    s.on_pad_event(&PadEvent::<f32>::Disconnected);
    assert!(!s.running);
}

#[test]
fn flight_throttle_idle_unless_armed() {
    let mut s = FlightState::new();
    assert_eq!(s.throttle(0.8f32, 0.0), 0.0);
    assert!(matches!(s.on_input(FcInput::<(), f32>::Controls(0.8)), FlightAction::ApplyControls(v) if v == 0.8));
    assert_eq!(s.throttle(0.8f32, 0.0), 0.0);
    assert!(matches!(s.on_input(FcInput::<(), ()>::Arm), FlightAction::DriveOutputs));
    assert_eq!(s.throttle(0.8f32, 0.0), 0.8);
    assert!(matches!(s.on_input(FcInput::<(), ()>::Disarm), FlightAction::DriveOutputs));
    assert_eq!(s.throttle(0.8f32, 0.0), 0.0);
    assert!(matches!(s.on_input(FcInput::<u8, ()>::Trim(3)), FlightAction::ApplyTrim(3)));
    assert!(matches!(s.on_input(FcInput::<(), ()>::ResetToUsbBoot), FlightAction::RebootToBootloader));
    assert!(!s.armed);
}

#[test]
fn pilot_stays_stopped_after_exit() {
    let mut s = PilotState::new();
    s.on_event(GcsEvent::<f32>::Exit);
    s.on_event(GcsEvent::<f32>::Arm);
    s.on_event(GcsEvent::Pitch(0.1f32));
    assert!(!s.running);
    assert!(s.armed);
}
