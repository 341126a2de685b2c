//! The two sides of the game.

use vstd::prelude::*;

verus! {

#[derive(Copy, Clone, Debug, PartialEq, Eq, Structural, Hash)]
pub enum Player {
    White,
    Black,
}

impl Player {
    /// The other side.
    pub fn opposite(&self) -> (r: Self)
        ensures
            r == self.spec_opposite(),
    {
        match self {
            Player::White => Player::Black,
            Player::Black => Player::White,
        }
    }

    /// Spec view of `opposite`.
    pub open spec fn spec_opposite(self) -> Player {
        match self {
            Player::White => Player::Black,
            Player::Black => Player::White,
        }
    }

    /// Spec view of `index`.
    pub open spec fn spec_index(self) -> int {
        match self {
            Player::White => 0,
            Player::Black => 1,
        }
    }

    /// Table index of the side, in `[0, 1]`.
    pub fn index(&self) -> (r: usize)
        ensures
            r == self.spec_index(),
    {
        match self {
            Player::White => 0,
            Player::Black => 1,
        }
    }
}

} // verus!
