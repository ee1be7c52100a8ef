//! The decisions of the two control loops.
//!
//! On the ground, pilot commands arm, disarm, edit trims, steer and stop the
//! ground station. On the plane, commands from the ground arm, disarm, set
//! trims and controls, or reboot the board; the throttle stays idle unless
//! armed. Positions, trims and controls are handed through as they are.

use crate::control_mapping::{GcsEvent, PadEvent};
use vstd::prelude::*;

verus! {

/// The stick a position is for.
#[derive(Debug, Clone, Copy, PartialEq, Eq, Structural)]
pub enum Axis {
    Pitch,
    Yaw,
    Roll,
    Throttle,
}

/// An edit of the trims.
#[derive(Debug, Clone, Copy, PartialEq, Eq, Structural)]
pub enum TrimEdit {
    Next,
    Previous,
    More,
    Less,
}

/// What the ground station does for a pilot command.
#[derive(Debug)]
pub enum PilotAction<V> {
    /// Shape and store the new position of a stick.
    SetAxis(Axis, V),
    /// Apply a trim edit; the trims then go to the plane and to disk.
    EditTrim(TrimEdit),
    /// Tell the pilot that the plane is now armed.
    AnnounceArmed,
    /// Tell the pilot that the plane is now disarmed.
    AnnounceDisarmed,
    /// Tell the pilot that the ground station stops.
    AnnounceExit,
    Nothing,
}

/// The state of the ground station's control loop.
pub struct PilotState {
    pub armed: bool,
    pub running: bool,
    /// A trim was edited since the trims were last sent.
    pub new_trim: bool,
}

impl PilotState {
    /// Disarmed and running.
    pub fn new() -> (s: Self)
        ensures
            !s.armed,
            s.running,
            !s.new_trim,
    {
        PilotState { armed: false, running: true, new_trim: false }
    }

    /// The state after a pilot command.
    pub open spec fn spec_next<V>(self, event: GcsEvent<V>) -> PilotState {
        match event {
            GcsEvent::Arm => PilotState { armed: true, ..self },
            GcsEvent::Disarm => PilotState { armed: false, ..self },
            GcsEvent::NextTrim | GcsEvent::PreviousTrim | GcsEvent::MoreTrim | GcsEvent::LessTrim => {
                PilotState { new_trim: true, ..self }
            },
            GcsEvent::Exit => PilotState { running: false, ..self },
            _ => self,
        }
    }

    /// The action for a pilot command in this state.
    pub open spec fn spec_action<V>(self, event: GcsEvent<V>) -> PilotAction<V> {
        match event {
            GcsEvent::Pitch(v) => PilotAction::SetAxis(Axis::Pitch, v),
            GcsEvent::Yaw(v) => PilotAction::SetAxis(Axis::Yaw, v),
            GcsEvent::Roll(v) => PilotAction::SetAxis(Axis::Roll, v),
            GcsEvent::Throttle(v) => PilotAction::SetAxis(Axis::Throttle, v),
            GcsEvent::Arm => if self.armed {
                PilotAction::Nothing
            } else {
                PilotAction::AnnounceArmed
            },
            GcsEvent::Disarm => if self.armed {
                PilotAction::AnnounceDisarmed
            } else {
                PilotAction::Nothing
            },
            GcsEvent::NextTrim => PilotAction::EditTrim(TrimEdit::Next),
            GcsEvent::PreviousTrim => PilotAction::EditTrim(TrimEdit::Previous),
            GcsEvent::MoreTrim => PilotAction::EditTrim(TrimEdit::More),
            GcsEvent::LessTrim => PilotAction::EditTrim(TrimEdit::Less),
            GcsEvent::Exit => PilotAction::AnnounceExit,
        }
    }

    /// Takes a pilot command: updates the state and says what to do.
    pub fn on_event<V>(&mut self, event: GcsEvent<V>) -> (action: PilotAction<V>)
        ensures
            *final(self) == old(self).spec_next(event),
            action == old(self).spec_action(event),
    {
        match event {
            GcsEvent::Pitch(v) => PilotAction::SetAxis(Axis::Pitch, v),
            GcsEvent::Yaw(v) => PilotAction::SetAxis(Axis::Yaw, v),
            GcsEvent::Roll(v) => PilotAction::SetAxis(Axis::Roll, v),
            GcsEvent::Throttle(v) => PilotAction::SetAxis(Axis::Throttle, v),
            GcsEvent::Arm => {
                let was = self.armed;
                self.armed = true;
                if was {
                    PilotAction::Nothing
                } else {
                    PilotAction::AnnounceArmed
                }
            },
            GcsEvent::Disarm => {
                let was = self.armed;
                self.armed = false;
                if was {
                    PilotAction::AnnounceDisarmed
                } else {
                    PilotAction::Nothing
                }
            },
            GcsEvent::NextTrim => {
                self.new_trim = true;
                PilotAction::EditTrim(TrimEdit::Next)
            },
            GcsEvent::PreviousTrim => {
                self.new_trim = true;
                PilotAction::EditTrim(TrimEdit::Previous)
            },
            GcsEvent::MoreTrim => {
                self.new_trim = true;
                PilotAction::EditTrim(TrimEdit::More)
            },
            GcsEvent::LessTrim => {
                self.new_trim = true;
                PilotAction::EditTrim(TrimEdit::Less)
            },
            GcsEvent::Exit => {
                self.running = false;
                PilotAction::AnnounceExit
            },
        }
    }

    /// The ground station stops when the gamepad goes away.
    pub fn on_pad_event<V>(&mut self, event: &PadEvent<V>)
        ensures
            final(self).running == (old(self).running && !(*event is Disconnected)),
            final(self).armed == old(self).armed,
            final(self).new_trim == old(self).new_trim,
    {
        match event {
            PadEvent::Disconnected => self.running = false,
            _ => {},
        }
    }
}

/// Only an arm command arms: every other command leaves a disarmed ground
/// station disarmed, and a disarm command always disarms.
pub proof fn lemma_only_arm_arms<V>(s: PilotState, event: GcsEvent<V>)
    ensures
        !s.armed && s.spec_next(event).armed ==> event is Arm,
        event is Disarm ==> !s.spec_next(event).armed,
{
}

/// Once stopped, the ground station stays stopped.
pub proof fn lemma_stop_is_final<V>(s: PilotState, event: GcsEvent<V>)
    ensures
        !s.running ==> !s.spec_next(event).running,
{
}

/// A command of the ground station, carrying a trim configuration of type
/// `T` or control positions of type `C`.
#[derive(Debug)]
pub enum FcInput<T, C> {
    Trim(T),
    Controls(C),
    Arm,
    Disarm,
    ResetToUsbBoot,
}

/// What the flight controller does for a command.
#[derive(Debug)]
pub enum FlightAction<T, C> {
    /// Store the trims, derive the surface limits from them, then drive the outputs.
    ApplyTrim(T),
    /// Store the control positions, then drive the outputs.
    ApplyControls(C),
    /// Drive the outputs with what is stored.
    DriveOutputs,
    /// Reboot into the USB bootloader.
    RebootToBootloader,
}

/// The state of the flight controller's control loop.
pub struct FlightState {
    pub armed: bool,
}

impl FlightState {
    /// Disarmed.
    pub fn new() -> (s: Self)
        ensures
            !s.armed,
    {
        FlightState { armed: false }
    }

    pub open spec fn spec_next<T, C>(self, input: FcInput<T, C>) -> FlightState {
        match input {
            FcInput::Arm => FlightState { armed: true },
            FcInput::Disarm => FlightState { armed: false },
            _ => self,
        }
    }

    pub open spec fn spec_action<T, C>(input: FcInput<T, C>) -> FlightAction<T, C> {
        match input {
            FcInput::Trim(t) => FlightAction::ApplyTrim(t),
            FcInput::Controls(c) => FlightAction::ApplyControls(c),
            FcInput::Arm => FlightAction::DriveOutputs,
            FcInput::Disarm => FlightAction::DriveOutputs,
            FcInput::ResetToUsbBoot => FlightAction::RebootToBootloader,
        }
    }

    /// Takes a command: updates the state and says what to do.
    pub fn on_input<T, C>(&mut self, input: FcInput<T, C>) -> (action: FlightAction<T, C>)
        ensures
            *final(self) == old(self).spec_next(input),
            action == Self::spec_action(input),
    {
        match input {
            FcInput::Trim(t) => FlightAction::ApplyTrim(t),
            FcInput::Controls(c) => FlightAction::ApplyControls(c),
            FcInput::Arm => {
                self.armed = true;
                FlightAction::DriveOutputs
            },
            FcInput::Disarm => {
                self.armed = false;
                FlightAction::DriveOutputs
            },
            FcInput::ResetToUsbBoot => FlightAction::RebootToBootloader,
        }
    }

    /// The throttle to drive: the commanded one when armed, idle otherwise.
    pub fn throttle<V>(&self, commanded: V, idle: V) -> (v: V)
        ensures
            v == (if self.armed {
                commanded
            } else {
                idle
            }),
    {
        if self.armed {
            commanded
        } else {
            idle
        }
    }
}

/// A disarmed plane only arms on an arm command, and keeps its motor idle
/// until then, whatever else it is sent.
pub proof fn lemma_disarmed_stays_idle<T, C>(s: FlightState, input: FcInput<T, C>)
    requires
        !s.armed,
        !(input is Arm),
    ensures
        !s.spec_next(input).armed,
{
}

/// Each stick command sets its own axis to the stick's value, in any state,
/// and leaves the state as it was.
pub proof fn lemma_stick_sets_its_own_axis<V>(s: PilotState, v: V)
    ensures
        s.spec_action(GcsEvent::Pitch(v)) == PilotAction::SetAxis(Axis::Pitch, v),
        s.spec_action(GcsEvent::Yaw(v)) == PilotAction::SetAxis(Axis::Yaw, v),
        s.spec_action(GcsEvent::Roll(v)) == PilotAction::SetAxis(Axis::Roll, v),
        s.spec_action(GcsEvent::Throttle(v)) == PilotAction::SetAxis(Axis::Throttle, v),
        s.spec_next(GcsEvent::Pitch(v)) == s,
        s.spec_next(GcsEvent::Yaw(v)) == s,
        s.spec_next(GcsEvent::Roll(v)) == s,
        s.spec_next(GcsEvent::Throttle(v)) == s,
{
}

/// Arming leaves the plane armed and is announced only when it was
/// disarmed; disarming leaves it disarmed and is announced only when it was
/// armed.
pub proof fn lemma_arm_disarm_announced_on_change<V>(s: PilotState)
    ensures
        s.spec_next(GcsEvent::<V>::Arm).armed,
        s.spec_action(GcsEvent::<V>::Arm) is AnnounceArmed <==> !s.armed,
        s.spec_action(GcsEvent::<V>::Arm) is Nothing <==> s.armed,
        !s.spec_next(GcsEvent::<V>::Disarm).armed,
        s.spec_action(GcsEvent::<V>::Disarm) is AnnounceDisarmed <==> s.armed,
        s.spec_action(GcsEvent::<V>::Disarm) is Nothing <==> !s.armed,
{
}

/// Each trim command edits the trims in its own way and marks them for
/// sending.
pub proof fn lemma_trim_commands_edit_trims<V>(s: PilotState)
    ensures
        s.spec_action(GcsEvent::<V>::NextTrim) == PilotAction::<V>::EditTrim(TrimEdit::Next),
        s.spec_action(GcsEvent::<V>::PreviousTrim) == PilotAction::<V>::EditTrim(TrimEdit::Previous),
        s.spec_action(GcsEvent::<V>::MoreTrim) == PilotAction::<V>::EditTrim(TrimEdit::More),
        s.spec_action(GcsEvent::<V>::LessTrim) == PilotAction::<V>::EditTrim(TrimEdit::Less),
        s.spec_next(GcsEvent::<V>::NextTrim).new_trim,
        s.spec_next(GcsEvent::<V>::PreviousTrim).new_trim,
        s.spec_next(GcsEvent::<V>::MoreTrim).new_trim,
        s.spec_next(GcsEvent::<V>::LessTrim).new_trim,
{
}

} // verus!
