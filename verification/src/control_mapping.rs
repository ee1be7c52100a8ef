//! Gamepad events and the pilot commands they map to.
//!
//! An axis carries a position of type `V`, handed through unchanged.

use vstd::prelude::*;

verus! {

/// A gamepad button.
#[derive(Debug, Clone, Copy, PartialEq, Eq, Structural)]
pub enum PadButton {
    South,
    East,
    North,
    West,
    C,
    Z,
    LeftTrigger,
    LeftTrigger2,
    RightTrigger,
    RightTrigger2,
    Select,
    Start,
    Mode,
    LeftThumb,
    RightThumb,
    DPadUp,
    DPadDown,
    DPadLeft,
    DPadRight,
    Unknown,
}

/// A gamepad axis.
#[derive(Debug, Clone, Copy, PartialEq, Eq, Structural)]
pub enum PadAxis {
    LeftStickX,
    LeftStickY,
    LeftZ,
    RightStickX,
    RightStickY,
    RightZ,
    DPadX,
    DPadY,
    Unknown,
}

/// An event from a gamepad.
#[derive(Debug)]
pub enum PadEvent<V> {
    /// A button went down; `code` is the platform's code for it.
    ButtonPressed { button: PadButton, code: u32 },
    /// A held button repeated.
    ButtonRepeated { button: PadButton },
    /// A button came up.
    ButtonReleased { button: PadButton },
    /// An axis moved to `value`.
    AxisChanged { axis: PadAxis, value: V },
    /// The gamepad went away.
    Disconnected,
    /// Anything else (connections, analog button changes, ...).
    Other,
}

/// A command of the pilot.
#[derive(Debug)]
pub enum GcsEvent<V> {
    /// Desired pitch offset for the elevators, -1..1.
    Pitch(V),
    /// Desired yaw offset for the tail, -1..1.
    Yaw(V),
    /// Desired roll offset for the ailerons, -1..1.
    Roll(V),
    /// Desired throttle: the axis position as the gamepad reports it.
    Throttle(V),
    Arm,
    Disarm,
    NextTrim,
    PreviousTrim,
    MoreTrim,
    LessTrim,
    Exit,
}

/// Which buttons and axes mean what.
pub struct ControlMapping {
    pub pitch: PadAxis,
    pub yaw: PadAxis,
    pub roll: PadAxis,
    pub throttle: PadAxis,
    pub arm: PadButton,
    pub disarm: PadButton,
    pub next_trim: PadButton,
    pub prev_trim: PadButton,
    pub more_trim: PadButton,
    pub less_trim: PadButton,
    pub exit_ev_code: u32,
}

impl ControlMapping {
    /// The command an event stands for under this mapping. Each kind of
    /// event is checked against the mapping in a fixed order; the disarm
    /// button comes first.
    pub open spec fn spec_map<V>(&self, event: PadEvent<V>) -> Option<GcsEvent<V>> {
        match event {
            PadEvent::ButtonPressed { button, code } => {
                if button == self.disarm {
                    Some(GcsEvent::Disarm)
                } else if button == self.next_trim {
                    Some(GcsEvent::NextTrim)
                } else if button == self.prev_trim {
                    Some(GcsEvent::PreviousTrim)
                } else if button == self.more_trim {
                    Some(GcsEvent::MoreTrim)
                } else if button == self.less_trim {
                    Some(GcsEvent::LessTrim)
                } else if code == self.exit_ev_code {
                    Some(GcsEvent::Exit)
                } else {
                    None
                }
            },
            PadEvent::ButtonRepeated { button } => {
                if button == self.disarm {
                    Some(GcsEvent::Disarm)
                } else {
                    None
                }
            },
            PadEvent::ButtonReleased { button } => {
                if button == self.disarm {
                    Some(GcsEvent::Disarm)
                } else if button == self.arm {
                    Some(GcsEvent::Arm)
                } else {
                    None
                }
            },
            PadEvent::AxisChanged { axis, value } => {
                if axis == self.pitch {
                    Some(GcsEvent::Pitch(value))
                } else if axis == self.yaw {
                    Some(GcsEvent::Yaw(value))
                } else if axis == self.roll {
                    Some(GcsEvent::Roll(value))
                } else if axis == self.throttle {
                    Some(GcsEvent::Throttle(value))
                } else {
                    None
                }
            },
            PadEvent::Disconnected => None,
            PadEvent::Other => None,
        }
    }

    /// The command an event stands for, if any.
    pub fn map_to_message<V>(&self, event: PadEvent<V>) -> (msg: Option<GcsEvent<V>>)
        ensures
            msg == self.spec_map(event),
    {
        match event {
            PadEvent::ButtonPressed { button, code } => {
                if button == self.disarm {
                    return Some(GcsEvent::Disarm);
                } else if button == self.next_trim {
                    return Some(GcsEvent::NextTrim);
                } else if button == self.prev_trim {
                    return Some(GcsEvent::PreviousTrim);
                } else if button == self.more_trim {
                    return Some(GcsEvent::MoreTrim);
                } else if button == self.less_trim {
                    return Some(GcsEvent::LessTrim);
                }
                if code == self.exit_ev_code {
                    return Some(GcsEvent::Exit);
                }
            },
            PadEvent::ButtonRepeated { button } => {
                if button == self.disarm {
                    return Some(GcsEvent::Disarm);
                }
            },
            PadEvent::ButtonReleased { button } => {
                if button == self.disarm {
                    return Some(GcsEvent::Disarm);
                } else if button == self.arm {
                    return Some(GcsEvent::Arm);
                }
            },
            PadEvent::AxisChanged { axis, value } => {
                if axis == self.pitch {
                    return Some(GcsEvent::Pitch(value));
                } else if axis == self.yaw {
                    return Some(GcsEvent::Yaw(value));
                } else if axis == self.roll {
                    return Some(GcsEvent::Roll(value));
                } else if axis == self.throttle {
                    return Some(GcsEvent::Throttle(value));
                }
            },
            PadEvent::Disconnected => {},
            PadEvent::Other => {},
        }
        None
    }
}

impl Default for ControlMapping {
    /// Left stick: pitch and roll; right stick: yaw and throttle; right
    /// trigger arms, left trigger disarms; the d-pad edits trims.
    fn default() -> (m: Self)
        ensures
            m.pitch == PadAxis::LeftStickY,
            m.yaw == PadAxis::RightStickX,
            m.roll == PadAxis::LeftStickX,
            m.throttle == PadAxis::RightStickY,
            m.arm == PadButton::RightTrigger,
            m.disarm == PadButton::LeftTrigger,
            m.next_trim == PadButton::DPadRight,
            m.prev_trim == PadButton::DPadLeft,
            m.more_trim == PadButton::DPadUp,
            m.less_trim == PadButton::DPadDown,
            m.exit_ev_code == 65852,
    {
        ControlMapping {
            pitch: PadAxis::LeftStickY,
            yaw: PadAxis::RightStickX,
            roll: PadAxis::LeftStickX,
            throttle: PadAxis::RightStickY,
            arm: PadButton::RightTrigger,
            disarm: PadButton::LeftTrigger,
            next_trim: PadButton::DPadRight,
            prev_trim: PadButton::DPadLeft,
            more_trim: PadButton::DPadUp,
            less_trim: PadButton::DPadDown,
            exit_ev_code: 65852,
        }
    }
}

/// Whatever happens on the disarm button (pressed, repeated or released)
/// disarms, under any mapping.
pub proof fn lemma_disarm_button_always_disarms<V>(m: ControlMapping, code: u32)
    ensures
        m.spec_map(PadEvent::<V>::ButtonPressed { button: m.disarm, code }) == Some(GcsEvent::<V>::Disarm),
        m.spec_map(PadEvent::<V>::ButtonRepeated { button: m.disarm }) == Some(GcsEvent::<V>::Disarm),
        m.spec_map(PadEvent::<V>::ButtonReleased { button: m.disarm }) == Some(GcsEvent::<V>::Disarm),
{
}

/// Only releasing the arm button arms, and never when it is also the
/// disarm button.
pub proof fn lemma_only_arm_release_arms<V>(m: ControlMapping, event: PadEvent<V>)
    ensures
        m.spec_map(event) == Some(GcsEvent::<V>::Arm) <==> (event == PadEvent::<V>::ButtonReleased {
            button: m.arm,
        } && m.arm != m.disarm),
{
}

/// An axis position reaches the command unchanged.
pub proof fn lemma_axis_value_passed_through<V>(m: ControlMapping, axis: PadAxis, value: V)
    ensures
        m.spec_map(PadEvent::AxisChanged { axis, value }) matches Some(e) ==> (match e {
            GcsEvent::Pitch(v) => v == value && axis == m.pitch,
            GcsEvent::Yaw(v) => v == value && axis == m.yaw,
            GcsEvent::Roll(v) => v == value && axis == m.roll,
            GcsEvent::Throttle(v) => v == value && axis == m.throttle,
            _ => false,
        }),
{
}

/// Releasing a button disarms for the disarm button, arms for the arm
/// button, and does nothing for any other button.
pub proof fn lemma_release_acts_only_for_arm_and_disarm<V>(m: ControlMapping, button: PadButton)
    ensures
        m.spec_map(PadEvent::<V>::ButtonReleased { button }) == (if button == m.disarm {
            Some(GcsEvent::<V>::Disarm)
        } else if button == m.arm {
            Some(GcsEvent::<V>::Arm)
        } else {
            None
        }),
{
}

/// Trim commands come only from presses of buttons; holding or releasing a
/// button, or moving an axis, never edits a trim.
pub proof fn lemma_trims_only_from_presses<V>(m: ControlMapping, event: PadEvent<V>)
    ensures
        m.spec_map(event) matches Some(e) && (e is NextTrim || e is PreviousTrim || e is MoreTrim
            || e is LessTrim) ==> event is ButtonPressed,
{
}

/// A press of a trim button that is not the disarm button gives that trim
/// command (checked in the order next, previous, more, less).
pub proof fn lemma_trim_button_press<V>(m: ControlMapping, code: u32)
    ensures
        m.next_trim != m.disarm ==> m.spec_map(PadEvent::<V>::ButtonPressed { button: m.next_trim, code })
            == Some(GcsEvent::<V>::NextTrim),
        m.prev_trim != m.disarm && m.prev_trim != m.next_trim ==> m.spec_map(
            PadEvent::<V>::ButtonPressed { button: m.prev_trim, code },
        ) == Some(GcsEvent::<V>::PreviousTrim),
{
}

/// Each stick reaches the command of its own axis, with its value.
pub proof fn lemma_each_axis_its_own_command<V>(m: ControlMapping, value: V)
    ensures
        m.spec_map(PadEvent::AxisChanged { axis: m.pitch, value }) == Some(GcsEvent::Pitch(value)),
        m.yaw != m.pitch ==> m.spec_map(PadEvent::AxisChanged { axis: m.yaw, value }) == Some(
            GcsEvent::Yaw(value),
        ),
        m.roll != m.pitch && m.roll != m.yaw ==> m.spec_map(PadEvent::AxisChanged { axis: m.roll, value })
            == Some(GcsEvent::Roll(value)),
        m.throttle != m.pitch && m.throttle != m.yaw && m.throttle != m.roll ==> m.spec_map(
            PadEvent::AxisChanged { axis: m.throttle, value },
        ) == Some(GcsEvent::Throttle(value)),
{
}

} // verus!
