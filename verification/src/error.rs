//! The error taxonomy of a training run.

use vstd::prelude::*;

verus! {

/// What can go fatally wrong during training.  Configuration- and
/// checkpoint-level failures abort the whole run; a clock overflow is fatal
/// to the simulation unit it happens in.
#[derive(Debug, Clone, Copy, PartialEq, Eq, Structural)]
pub enum TrainError {
    /// Resumed parameters differ from the active configuration.
    ConfigMismatch,
    /// A checkpoint or parameter file did not deserialize.
    CheckpointCorrupt,
    /// A generation produced no scored brains, or the survivor set is empty.
    EmptyPopulationOrSurvivors,
    /// Advancing the simulated clock overflowed the time representation.
    ClockOverflow,
}

impl TrainError {
    /// The description each error carries.
    pub open spec fn spec_describe(self) -> Seq<char> {
        match self {
            TrainError::ConfigMismatch => "resumed parameters differ from the active configuration"@,
            TrainError::CheckpointCorrupt => "checkpoint or parameter data did not parse"@,
            TrainError::EmptyPopulationOrSurvivors => "no scored brains or no survivors"@,
            TrainError::ClockOverflow => "the simulated clock overflowed"@,
        }
    }

    /// A short description of the error.
    pub fn describe(&self) -> (r: &'static str)
        ensures
            r@ == self.spec_describe(),
            r@.len() > 0,
    {
        let r = match self {
            TrainError::ConfigMismatch => "resumed parameters differ from the active configuration",
            TrainError::CheckpointCorrupt => "checkpoint or parameter data did not parse",
            TrainError::EmptyPopulationOrSurvivors => "no scored brains or no survivors",
            TrainError::ClockOverflow => "the simulated clock overflowed",
        };
        proof {
            reveal_strlit("resumed parameters differ from the active configuration");
            reveal_strlit("checkpoint or parameter data did not parse");
            reveal_strlit("no scored brains or no survivors");
            reveal_strlit("the simulated clock overflowed");
        }
        r
    }
}

} // verus!
