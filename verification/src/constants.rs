//! Engine-wide numeric constants.

use vstd::prelude::*;

verus! {

/// Undo records preallocated per game.
pub const GAME_HISTORY_CAPACITY: usize = 256;

/// Moves preallocated per generated move list.
pub const MOVE_LIST_CAPACITY: usize = 256;

/// Score of a mate, far beyond any material sum; the mate distance is
/// subtracted so that nearer mates score better.
pub const CHECKMATE_EVAL: i32 = 2_000_000_000;

/// Score of a drawn position.
pub const DRAW_EVAL: i32 = 0;

} // verus!
