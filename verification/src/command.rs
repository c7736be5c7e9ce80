//! The closed set of commands that a frame can carry.
use vstd::prelude::*;

verus! {

#[derive(Debug, Clone, Copy, PartialEq, Eq, Structural)]
pub enum Command {
    /// Check if the device is alive and responding.
    Check,
    /// Get information about the device.
    InfoGet,
    /// Set the configuration of the device. Persists across reboots.
    ConfigSet,
    /// Get the configuration of the device.
    ConfigGet,
    /// Set the output states. Resets after reboot.
    OutputSet,
    /// Get the output states.
    OutputGet,
    /// Get the input values, averaged over the reads since the previous
    /// `InputGet` or `InputGetFull`, and reset the accumulated data.
    InputGet,
    /// Get the input statistics and reset the accumulated data.
    InputGetFull,
    /// Set the input calibrations. Persists across reboots.
    InputSetCalibrations,
    /// Get the input calibrations.
    InputGetCalibrations,
    /// Set the input thresholds. Persists across reboots.
    InputSetThresholds,
    /// Get the input thresholds.
    InputGetThresholds,
    /// Get the times of the last debounced threshold crossings of each input.
    InputGetThresholdTimes,
    /// Get the current threshold states of the inputs.
    InputGetThresholdStates,
    /// Reboot the device.
    Reboot,
}

impl Command {
    /// The command id on the wire.
    pub open spec fn code(self) -> u16 {
        match self {
            Command::Check => 0,
            Command::InfoGet => 1,
            Command::ConfigSet => 2,
            Command::ConfigGet => 3,
            Command::OutputSet => 4,
            Command::OutputGet => 5,
            Command::InputGet => 6,
            Command::InputGetFull => 7,
            Command::InputSetCalibrations => 8,
            Command::InputGetCalibrations => 9,
            Command::InputSetThresholds => 10,
            Command::InputGetThresholds => 11,
            Command::InputGetThresholdTimes => 12,
            Command::InputGetThresholdStates => 13,
            Command::Reboot => 14,
        }
    }

    /// The command with the given id, if there is one.
    pub open spec fn of_code(code: u16) -> Option<Command> {
        if code == 0 {
            Some(Command::Check)
        } else if code == 1 {
            Some(Command::InfoGet)
        } else if code == 2 {
            Some(Command::ConfigSet)
        } else if code == 3 {
            Some(Command::ConfigGet)
        } else if code == 4 {
            Some(Command::OutputSet)
        } else if code == 5 {
            Some(Command::OutputGet)
        } else if code == 6 {
            Some(Command::InputGet)
        } else if code == 7 {
            Some(Command::InputGetFull)
        } else if code == 8 {
            Some(Command::InputSetCalibrations)
        } else if code == 9 {
            Some(Command::InputGetCalibrations)
        } else if code == 10 {
            Some(Command::InputSetThresholds)
        } else if code == 11 {
            Some(Command::InputGetThresholds)
        } else if code == 12 {
            Some(Command::InputGetThresholdTimes)
        } else if code == 13 {
            Some(Command::InputGetThresholdStates)
        } else if code == 14 {
            Some(Command::Reboot)
        } else {
            None
        }
    }

    pub fn to_u16(self) -> (code: u16)
        ensures
            code == self.code(),
    {
        match self {
            Command::Check => 0,
            Command::InfoGet => 1,
            Command::ConfigSet => 2,
            Command::ConfigGet => 3,
            Command::OutputSet => 4,
            Command::OutputGet => 5,
            Command::InputGet => 6,
            Command::InputGetFull => 7,
            Command::InputSetCalibrations => 8,
            Command::InputGetCalibrations => 9,
            Command::InputSetThresholds => 10,
            Command::InputGetThresholds => 11,
            Command::InputGetThresholdTimes => 12,
            Command::InputGetThresholdStates => 13,
            Command::Reboot => 14,
        }
    }

    /// The command with the given id; `None` for an id above 14.
    pub fn try_from_u16(code: u16) -> (command: Option<Command>)
        ensures
            command == Command::of_code(code),
    {
        match code {
            0 => Some(Command::Check),
            1 => Some(Command::InfoGet),
            2 => Some(Command::ConfigSet),
            3 => Some(Command::ConfigGet),
            4 => Some(Command::OutputSet),
            5 => Some(Command::OutputGet),
            6 => Some(Command::InputGet),
            7 => Some(Command::InputGetFull),
            8 => Some(Command::InputSetCalibrations),
            9 => Some(Command::InputGetCalibrations),
            10 => Some(Command::InputSetThresholds),
            11 => Some(Command::InputGetThresholds),
            12 => Some(Command::InputGetThresholdTimes),
            13 => Some(Command::InputGetThresholdStates),
            14 => Some(Command::Reboot),
            _ => None,
        }
    }

    /// Every command is found again from its id, and from no other.
    pub proof fn lemma_code_round_trip(self)
        ensures
            Command::of_code(self.code()) == Some(self),
            forall|code: u16| Command::of_code(code) == Some(self) ==> code == self.code(),
    {
    }
}

} // verus!
