//! Material evaluation: piece values summed for White minus Black.

use vstd::prelude::*;

use crate::bits::count_bits;
use crate::position::Position;

verus! {

/// Spec view of `evaluate`: the material balance, positive for White.
pub open spec fn spec_evaluate(pos: Position) -> int {
    100 * count_bits(pos.w.pawns) + 300 * count_bits(pos.w.knights) + 330 * count_bits(
        pos.w.bishops,
    ) + 500 * count_bits(pos.w.rooks) + 900 * count_bits(pos.w.queens) + 100000 * count_bits(
        pos.w.king,
    ) - 100 * count_bits(pos.b.pawns) - 300 * count_bits(pos.b.knights) - 330 * count_bits(
        pos.b.bishops,
    ) - 500 * count_bits(pos.b.rooks) - 900 * count_bits(pos.b.queens) - 100000 * count_bits(
        pos.b.king,
    )
}

/// The material balance of the position in centipawns, positive when
/// White is ahead.
pub fn evaluate(pos: &Position) -> (score: i32)
    ensures
        score == spec_evaluate(*pos),
        -100_000_000 < score < 100_000_000,
{
    proof {
        crate::bits::lemma_count_bits_below_bound(pos.w.pawns, 64);
        crate::bits::lemma_count_bits_below_bound(pos.w.knights, 64);
        crate::bits::lemma_count_bits_below_bound(pos.w.bishops, 64);
        crate::bits::lemma_count_bits_below_bound(pos.w.rooks, 64);
        crate::bits::lemma_count_bits_below_bound(pos.w.queens, 64);
        crate::bits::lemma_count_bits_below_bound(pos.w.king, 64);
        crate::bits::lemma_count_bits_below_bound(pos.b.pawns, 64);
        crate::bits::lemma_count_bits_below_bound(pos.b.knights, 64);
        crate::bits::lemma_count_bits_below_bound(pos.b.bishops, 64);
        crate::bits::lemma_count_bits_below_bound(pos.b.rooks, 64);
        crate::bits::lemma_count_bits_below_bound(pos.b.queens, 64);
        crate::bits::lemma_count_bits_below_bound(pos.b.king, 64);
    }
    let mut score: i64 = 0;
    score = score + 100 * (crate::utility::popcount(pos.w.pawns) as i64);
    score = score + 300 * (crate::utility::popcount(pos.w.knights) as i64);
    score = score + 330 * (crate::utility::popcount(pos.w.bishops) as i64);
    score = score + 500 * (crate::utility::popcount(pos.w.rooks) as i64);
    score = score + 900 * (crate::utility::popcount(pos.w.queens) as i64);
    score = score + 100_000 * (crate::utility::popcount(pos.w.king) as i64);
    score = score - 100 * (crate::utility::popcount(pos.b.pawns) as i64);
    score = score - 300 * (crate::utility::popcount(pos.b.knights) as i64);
    score = score - 330 * (crate::utility::popcount(pos.b.bishops) as i64);
    score = score - 500 * (crate::utility::popcount(pos.b.rooks) as i64);
    score = score - 900 * (crate::utility::popcount(pos.b.queens) as i64);
    score = score - 100_000 * (crate::utility::popcount(pos.b.king) as i64);
    score as i32
}

} // verus!
