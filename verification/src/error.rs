//! The ways in which an operation on a game can fail.

use vstd::prelude::*;

verus! {

/// Why an operation was refused.
#[derive(Debug, Clone, Copy, PartialEq, Eq, Structural)]
pub enum GameError {
    /// The destination is not among the tiles the robot can slide to.
    InvalidMove,
    /// There is no robot with the given index.
    RobotNotFound,
    /// A bounded run of random draws ended without an acceptable draw.
    InternalInvariant,
}

impl GameError {
    /// What [`GameError::message`] returns.
    pub open spec fn spec_message(&self) -> Seq<char> {
        match self {
            GameError::InvalidMove => "invalid move"@,
            GameError::RobotNotFound => "robot not found"@,
            GameError::InternalInvariant => "internal invariant violated"@,
        }
    }

    /// A short description of the error.
    pub fn message(&self) -> (text: &'static str)
        ensures
            text@ == self.spec_message(),
    {
        match self {
            GameError::InvalidMove => "invalid move",
            GameError::RobotNotFound => "robot not found",
            GameError::InternalInvariant => "internal invariant violated",
        }
    }
}

} // verus!
