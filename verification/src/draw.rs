//! Insufficient-material detection.

use vstd::prelude::*;

use crate::bits::count_bits;
use crate::piece::Piece;
use crate::position::Position;
use crate::utility::{is_square_color_white, lsb, spec_square_color_white};

verus! {

/// Total number of pieces of a position, kings included.
pub open spec fn spec_total_pieces(pos: Position) -> int {
    (count_bits(pos.w.pawns) as int) + count_bits(pos.w.knights) + count_bits(pos.w.bishops) + count_bits(
        pos.w.rooks,
    ) + count_bits(pos.w.queens) + count_bits(pos.w.king) + count_bits(pos.b.pawns) + count_bits(
        pos.b.knights,
    ) + count_bits(pos.b.bishops) + count_bits(pos.b.rooks) + count_bits(pos.b.queens)
        + count_bits(pos.b.king)
}

/// Spec view of `is_insufficient_material`: bare kings; one lone
/// minor piece; or a single bishop each, the two standing on squares
/// of one colour.
pub open spec fn spec_insufficient_material(pos: Position) -> bool {
    let total = spec_total_pieces(pos);
    let w_minors = count_bits(pos.w.bishops) + count_bits(pos.w.knights);
    let b_minors = count_bits(pos.b.bishops) + count_bits(pos.b.knights);
    if total == 2 {
        true
    } else if total == 3 {
        (w_minors == 1 && b_minors == 0) || (w_minors == 0 && b_minors == 1)
    } else if total == 4 && count_bits(pos.w.bishops) == 1 && count_bits(pos.b.bishops) == 1
        && count_bits(pos.w.knights) == 0 && count_bits(pos.b.knights) == 0 {
        spec_square_color_white(vstd::std_specs::bits::u64_trailing_zeros(pos.w.bishops) as u8)
            == spec_square_color_white(
            vstd::std_specs::bits::u64_trailing_zeros(pos.b.bishops) as u8,
        )
    } else {
        false
    }
}

/// Neither side can force mate with the material on the board.
pub fn is_insufficient_material(pos: &Position) -> (r: bool)
    ensures
        r == spec_insufficient_material(*pos),
{
    proof {
        crate::bits::lemma_count_bits_below_bound(pos.w.pawns, 64);
        crate::bits::lemma_count_bits_below_bound(pos.w.knights, 64);
        crate::bits::lemma_count_bits_below_bound(pos.w.bishops, 64);
        crate::bits::lemma_count_bits_below_bound(pos.w.rooks, 64);
        crate::bits::lemma_count_bits_below_bound(pos.w.queens, 64);
        crate::bits::lemma_count_bits_below_bound(pos.w.king, 64);
        crate::bits::lemma_count_bits_below_bound(pos.b.pawns, 64);
        crate::bits::lemma_count_bits_below_bound(pos.b.knights, 64);
        crate::bits::lemma_count_bits_below_bound(pos.b.bishops, 64);
        crate::bits::lemma_count_bits_below_bound(pos.b.rooks, 64);
        crate::bits::lemma_count_bits_below_bound(pos.b.queens, 64);
        crate::bits::lemma_count_bits_below_bound(pos.b.king, 64);
    }
    let total_pieces: u32 = pos.w.count_all() + pos.b.count_all();

    let w_bishops: u32 = pos.w.count(Piece::Bishop);
    let w_knights: u32 = pos.w.count(Piece::Knight);
    let b_bishops: u32 = pos.b.count(Piece::Bishop);
    let b_knights: u32 = pos.b.count(Piece::Knight);

    if total_pieces == 2 {
        return true;
    }

    let white_minors: u32 = w_bishops + w_knights;
    let black_minors: u32 = b_bishops + b_knights;

    if total_pieces == 3 {
        return (white_minors == 1 && black_minors == 0) || (white_minors == 0 && black_minors
            == 1);
    }

    if total_pieces == 4 && w_bishops == 1 && b_bishops == 1 && w_knights == 0 && b_knights == 0 {
        proof {
            crate::bits::lemma_count_bits_positive(pos.w.bishops);
            crate::bits::lemma_count_bits_positive(pos.b.bishops);
            vstd::std_specs::bits::axiom_u64_trailing_zeros(pos.w.bishops);
            vstd::std_specs::bits::axiom_u64_trailing_zeros(pos.b.bishops);
        }
        let wb_sq: u8 = lsb(pos.w.bishops);
        let bb_sq: u8 = lsb(pos.b.bishops);
        let same_color: bool = is_square_color_white(wb_sq) == is_square_color_white(bb_sq);
        return same_color;
    }

    false
}

} // verus!
