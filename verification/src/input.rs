//! What the player is holding down during a tick.

use vstd::prelude::*;

verus! {

/// The state of the three controls, as the host read it for this tick.
#[derive(Clone, Copy, Debug, PartialEq, Eq, Structural)]
pub struct Input {
    /// The move-left signal.
    pub left: bool,
    /// The move-right signal.
    pub right: bool,
    /// The fire signal.
    pub fire: bool,
}

impl Input {
    /// The net horizontal direction: `-1` for left, `1` for right, `0` where
    /// neither or both are held.
    pub open spec fn spec_horizontal(self) -> int {
        (if self.right { 1int } else { 0int }) - (if self.left { 1int } else { 0int })
    }

    /// The net horizontal direction: `-1` for left, `1` for right, `0` where
    /// neither or both are held.
    pub fn horizontal(&self) -> (direction: i8)
        ensures
            direction == self.spec_horizontal(),
            -1 <= direction <= 1,
    {
        let mut direction: i8 = 0;
        if self.left {
            direction -= 1;
        }
        if self.right {
            direction += 1;
        }
        direction
    }

    /// The state of the controls from its three signals.
    pub fn new(left: bool, right: bool, fire: bool) -> (input: Input)
        ensures
            input == (Input { left, right, fire }),
    {
        Input { left, right, fire }
    }
}

} // verus!
