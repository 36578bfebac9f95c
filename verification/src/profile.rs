//! Decisions of the velocity profiles that do not depend on the profile
//! arithmetic.

use vstd::prelude::*;

verus! {

/// The quantity of a motion profile that is asked for, named by how often
/// the position is differentiated.
#[derive(Clone, Copy, Debug, PartialEq, Eq, Structural)]
pub enum Derivative {
    Position,
    Velocity,
    Acceleration,
    Jerk,
}

/// What a trapezoidal ramp does on its next step.
#[derive(Clone, Copy, Debug, PartialEq, Eq, Structural)]
pub enum RampMode {
    /// No step is left.
    Idle,
    /// Speed up toward the maximum velocity.
    RampUp,
    /// Keep the maximum velocity.
    Plateau,
    /// Slow down.
    RampDown,
}

impl RampMode {
    /// The mode of a ramp that has `steps_left` steps to go and would need
    /// `steps_to_stop` steps to slow down to its exit velocity. Running out
    /// of steps ends the ramp; running out of room to slow down forces the
    /// way down whatever the velocity is; otherwise the ramp slows down above
    /// the maximum velocity, holds it when it is reached, and speeds up
    /// below it.
    pub open spec fn select(
        steps_left: int,
        steps_to_stop: int,
        above_max_velocity: bool,
        reached_max_velocity: bool,
    ) -> RampMode {
        if steps_left == 0 {
            RampMode::Idle
        } else if steps_left <= steps_to_stop || above_max_velocity {
            RampMode::RampDown
        } else if reached_max_velocity {
            RampMode::Plateau
        } else {
            RampMode::RampUp
        }
    }

    /// Decides what the ramp does on its next step.
    pub fn compute(
        steps_left: u32,
        steps_to_stop: u32,
        above_max_velocity: bool,
        reached_max_velocity: bool,
    ) -> (r: RampMode)
        ensures
            r == Self::select(
                steps_left as int,
                steps_to_stop as int,
                above_max_velocity,
                reached_max_velocity,
            ),
    {
        if steps_left == 0 {
            return RampMode::Idle;
        }
        if steps_left <= steps_to_stop {
            return RampMode::RampDown;
        }
        if above_max_velocity {
            RampMode::RampDown
        } else if reached_max_velocity {
            RampMode::Plateau
        } else {
            RampMode::RampUp
        }
    }
}

} // verus!
