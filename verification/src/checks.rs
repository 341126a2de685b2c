//! Attack and check queries.

use vstd::prelude::*;

use crate::attacks::{
    spec_bishop_attacks, spec_king_attack, spec_knight_attack, spec_pawn_attacks_black,
    spec_pawn_attacks_white, spec_rook_attacks,
};
use crate::player::Player;
use crate::position::Position;
use crate::utility::lsb;

verus! {

/// Spec view of `is_square_attacked`: some piece of `by_player`
/// reaches `sq` — a pawn diagonally (asked in reverse: which squares
/// could a pawn have attacked `sq` from), a knight or king by its
/// table, a slider along its rays over the full occupancy.
pub open spec fn spec_is_square_attacked(pos: Position, sq: int, by_player: Player) -> bool {
    let friend = if by_player is White {
        pos.w
    } else {
        pos.b
    };
    let pawn = if by_player is White {
        spec_pawn_attacks_black(sq as u64)
    } else {
        spec_pawn_attacks_white(sq as u64)
    };
    let bishop = spec_bishop_attacks(pos.occupied, sq);
    let rook = spec_rook_attacks(pos.occupied, sq);
    ||| pawn & friend.pawns > 0
    ||| spec_knight_attack(sq as u64) & friend.knights > 0
    ||| bishop & friend.bishops > 0
    ||| rook & friend.rooks > 0
    ||| (rook | bishop) & friend.queens > 0
    ||| spec_king_attack(sq as u64) & friend.king > 0
}

/// Does any piece of `by_player` attack square `sq`?
pub fn is_square_attacked(pos: &Position, sq: usize, by_player: Player) -> (r: bool)
    requires
        sq < 64,
    ensures
        r == spec_is_square_attacked(*pos, sq as int, by_player),
{
    let friend = match by_player {
        Player::White => &pos.w,
        Player::Black => &pos.b,
    };

    let pawn: u64 = match by_player {
        Player::White => crate::attacks::pawn_attacks_black(sq as u8),
        Player::Black => crate::attacks::pawn_attacks_white(sq as u8),
    };
    let knight: u64 = crate::attacks::generate_knight_attack(sq as u8);
    let bishop: u64 = crate::attacks::bishop_attack_set(pos.occupied, sq);
    let rook: u64 = crate::attacks::rook_attack_set(pos.occupied, sq);
    let queen: u64 = rook | bishop;
    let king: u64 = crate::attacks::generate_king_attack(sq as u8);

    pawn & friend.pawns > 0 || knight & friend.knights > 0 || bishop & friend.bishops > 0 || rook
        & friend.rooks > 0 || queen & friend.queens > 0 || king & friend.king > 0
}

/// Spec view of `is_king_in_check`. A side with no king on the board
/// counts as not in check; such boards only arise from degenerate
/// inputs.
pub open spec fn spec_is_king_in_check(pos: Position, player: Player) -> bool {
    let king_bb = if player is White {
        pos.w.king
    } else {
        pos.b.king
    };
    if king_bb == 0 {
        false
    } else {
        spec_is_square_attacked(
            pos,
            vstd::std_specs::bits::u64_trailing_zeros(king_bb) as int,
            player.spec_opposite(),
        )
    }
}

/// Is the king of `player` attacked by the other side?
pub fn is_king_in_check(pos: &Position, player: Player) -> (r: bool)
    ensures
        r == spec_is_king_in_check(*pos, player),
{
    let king_bb: u64 = match player {
        Player::White => pos.w.king,
        Player::Black => pos.b.king,
    };
    if king_bb == 0 {
        return false;
    }
    let sq: u8 = lsb(king_bb);
    proof {
        vstd::std_specs::bits::axiom_u64_trailing_zeros(king_bb);
    }
    is_square_attacked(pos, sq as usize, player.opposite())
}

} // verus!
