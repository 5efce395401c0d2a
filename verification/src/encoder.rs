//! What the rotary encoder reports on each poll.

use vstd::prelude::*;

verus! {

/// What happened to the encoder knob since the last update.
#[derive(Clone, Copy, PartialEq, Eq, Structural, Debug)]
pub enum Rot {
    Idle,
    Cw,
    Ccw,
}

impl Rot {
    /// The change of the encoder count that this movement makes: one step up
    /// for a clockwise detent, one down for a counter-clockwise one.
    pub open spec fn delta(self) -> int {
        match self {
            Rot::Idle => 0,
            Rot::Cw => 1,
            Rot::Ccw => -1,
        }
    }
}

} // verus!
