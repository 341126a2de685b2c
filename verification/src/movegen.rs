//! Pseudo-legal move generation: every move the side to move can
//! play by piece motion alone, king safety left to the caller.

use vstd::prelude::*;

use crate::attacks::{
    spec_bishop_attacks, spec_king_attack, spec_knight_attack, spec_rook_attacks,
};
use crate::bits::{
    get_bit, lemma_and_comm, lemma_and_bits, lemma_and_not_bits, lemma_get_without_bit,
    lemma_not_bits, lemma_one_bit, lemma_or_bits, lemma_rank_edges, lemma_shl_bits, lemma_shr_bits,
};
use crate::bitboard::lemma_disjoint_bits;
use crate::board;
use crate::chess_move::{CastlingSide, Move};
use crate::checks::is_square_attacked;
use crate::make::{make_exec_ok, move_ok, on_last_rank, pos_unions_ok};
use crate::piece::Piece;
use crate::player::Player;
use crate::position::{friendly_set, hostile_set, pos_wf, Position};
use crate::utility::{bit, pop_lsb, signed_shift, spec_signed_shift};

verus! {

/// The position's castling rights and en-passant square speak true:
/// a held right has the king and that rook on their home squares, and
/// a set en-passant square is an empty square directly behind an
/// enemy pawn that could have just double-pushed. Positions reached
/// from the standard start always satisfy this; hand-written setups
/// may not.
pub open spec fn pos_consistent(pos: Position) -> bool {
    &&& pos_wf(pos)
    &&& (pos.castling.white_kingside ==> get_bit(pos.w.king, board::E1 as u64) && get_bit(
        pos.w.rooks,
        board::H1 as u64,
    ))
    &&& (pos.castling.white_queenside ==> get_bit(pos.w.king, board::E1 as u64) && get_bit(
        pos.w.rooks,
        board::A1 as u64,
    ))
    &&& (pos.castling.black_kingside ==> get_bit(pos.b.king, board::E8 as u64) && get_bit(
        pos.b.rooks,
        board::H8 as u64,
    ))
    &&& (pos.castling.black_queenside ==> get_bit(pos.b.king, board::E8 as u64) && get_bit(
        pos.b.rooks,
        board::A8 as u64,
    ))
    &&& match pos.en_passant_square {
        Some(sq) => {
            &&& !get_bit(pos.occupied, sq as u64)
            &&& if pos.player_to_move is White {
                &&& 40 <= sq < 48
                &&& get_bit(pos.b.pawns, (sq - 8) as u64)
            } else {
                &&& 16 <= sq < 24
                &&& get_bit(pos.w.pawns, (sq + 8) as u64)
            }
        },
        None => true,
    }
}

/// No move of the batch from `start` on carries a castling flag.
pub open spec fn no_castling_from(moves: Seq<Move>, start: int) -> bool {
    forall|i: int|
        start <= i < moves.len() ==> !(#[trigger] moves[i]).kingside_castling
            && !moves[i].queenside_castling
}

/// What every move of a freshly generated batch satisfies: enough for
/// the in-place update always, and full support when the position's
/// rights and en-passant square speak true.
pub open spec fn moves_ok_from(pos: Position, moves: Seq<Move>, start: int) -> bool {
    forall|i: int|
        start <= i < moves.len() ==> make_exec_ok(pos, #[trigger] moves[i]) && (pos_consistent(pos)
            ==> move_ok(pos, moves[i]))
}

/// Every pseudo-legal move of the side to move: pawn moves by board
/// shifts, piece moves by attack sets, castling under its rules. The
/// castling moves among them are exactly the admitted ones.
pub fn pseudo_moves(pos: &Position) -> (moves: Vec<Move>)
    requires
        pos_unions_ok(*pos),
    ensures
        moves_ok_from(*pos, moves@, 0),
        moves@.contains(Move::spec_castling(pos.player_to_move, CastlingSide::KingSide))
            <==> spec_castling_available(*pos, CastlingSide::KingSide),
        moves@.contains(Move::spec_castling(pos.player_to_move, CastlingSide::QueenSide))
            <==> spec_castling_available(*pos, CastlingSide::QueenSide),
        forall|i: int|
            0 <= i < moves@.len() && ((#[trigger] moves@[i]).kingside_castling
                || moves@[i].queenside_castling) ==> moves@[i] == Move::spec_castling(
                pos.player_to_move,
                CastlingSide::KingSide,
            ) || moves@[i] == Move::spec_castling(pos.player_to_move, CastlingSide::QueenSide),
{
    let mut moves: Vec<Move> = Vec::with_capacity(crate::constants::MOVE_LIST_CAPACITY);
    generate_pseudo_pawn_moves(pos, &mut moves);
    generate_pseudo_moves_for_piece(pos, Piece::Knight, &mut moves);
    generate_pseudo_moves_for_piece(pos, Piece::Bishop, &mut moves);
    generate_pseudo_moves_for_piece(pos, Piece::Rook, &mut moves);
    generate_pseudo_moves_for_piece(pos, Piece::Queen, &mut moves);
    generate_pseudo_moves_for_piece(pos, Piece::King, &mut moves);
    let ghost quiet_len = moves@.len() as int;
    proof {
        assert(no_castling_from(moves@, 0));
    }
    generate_pseudo_castling_moves(pos, &mut moves);
    proof {
        let ks = Move::spec_castling(pos.player_to_move, CastlingSide::KingSide);
        let qs = Move::spec_castling(pos.player_to_move, CastlingSide::QueenSide);
        assert(ks.to != qs.to);
        if spec_castling_available(*pos, CastlingSide::KingSide) {
            assert(moves@[quiet_len] == ks);
            assert(moves@.contains(ks));
        }
        if spec_castling_available(*pos, CastlingSide::QueenSide) {
            assert(moves@.last() == qs);
            assert(moves@.contains(qs));
        }
        assert forall|i: int|
            0 <= i < moves@.len() && ((#[trigger] moves@[i]).kingside_castling
                || moves@[i].queenside_castling) implies moves@[i] == ks || moves@[i] == qs by {
            if i >= quiet_len {
                assert(moves@.len() - quiet_len <= 2);
            }
        }
        if moves@.contains(ks) {
            let i = choose|i: int| 0 <= i < moves@.len() && moves@[i] == ks;
            assert(i >= quiet_len);
            assert(spec_castling_available(*pos, CastlingSide::KingSide)) by {
                if !spec_castling_available(*pos, CastlingSide::KingSide) {
                    assert(moves@[i] == qs);
                }
            }
        }
        if moves@.contains(qs) {
            let i = choose|i: int| 0 <= i < moves@.len() && moves@[i] == qs;
            assert(i >= quiet_len);
            assert(spec_castling_available(*pos, CastlingSide::QueenSide)) by {
                if !spec_castling_available(*pos, CastlingSide::QueenSide) {
                    assert(moves@[i] == ks);
                }
            }
        }
    }
    moves
}

/// Knight attack squares from `sq`, own pieces masked out.
pub fn knight_attacks(_pos: &Position, sq: usize, friendly: u64) -> (r: u64)
    requires
        sq < 64,
    ensures
        r == spec_knight_attack(sq as u64) & !friendly,
{
    crate::attacks::generate_knight_attack(sq as u8) & !friendly
}

/// Bishop attack squares from `sq` over the position's occupancy,
/// own pieces masked out.
pub fn bishop_attacks(pos: &Position, sq: usize, friendly: u64) -> (r: u64)
    requires
        sq < 64,
    ensures
        r == spec_bishop_attacks(pos.occupied, sq as int) & !friendly,
{
    crate::attacks::bishop_attack_set(pos.occupied, sq) & !friendly
}

/// Rook attack squares from `sq` over the position's occupancy, own
/// pieces masked out.
pub fn rook_attacks(pos: &Position, sq: usize, friendly: u64) -> (r: u64)
    requires
        sq < 64,
    ensures
        r == spec_rook_attacks(pos.occupied, sq as int) & !friendly,
{
    crate::attacks::rook_attack_set(pos.occupied, sq) & !friendly
}

/// Queen attack squares: rook and bishop rays united.
pub fn queen_attacks(pos: &Position, sq: usize, friendly: u64) -> (r: u64)
    requires
        sq < 64,
    ensures
        r == (spec_rook_attacks(pos.occupied, sq as int) & !friendly) | (spec_bishop_attacks(
            pos.occupied,
            sq as int,
        ) & !friendly),
{
    let rook: u64 = rook_attacks(pos, sq, friendly);
    let bishop: u64 = bishop_attacks(pos, sq, friendly);
    rook | bishop
}

/// King attack squares from `sq`, own pieces masked out.
pub fn king_attacks(_pos: &Position, sq: usize, friendly: u64) -> (r: u64)
    requires
        sq < 64,
    ensures
        r == spec_king_attack(sq as u64) & !friendly,
{
    crate::attacks::generate_king_attack(sq as u8) & !friendly
}

/// A target square a pawn move to `t` may use: the source square is
/// on the board and holds a friendly pawn, the capture flag matches
/// the target, and the special flags fit the move's shape.
pub open spec fn pawn_target_ok(
    pos: Position,
    t: u64,
    offset: int,
    capture: bool,
    promotion: bool,
    en_passant: bool,
) -> bool {
    let from = t - offset;
    &&& t < 64
    &&& 0 <= from < 64
    &&& from != t
    &&& get_bit(friendly_set(pos).pawns, from as u64)
    &&& (!en_passant ==> capture == get_bit(hostile_set(pos).all, t))
    &&& (!capture ==> !get_bit(pos.occupied, t))
    &&& (en_passant ==> capture && pos.en_passant_square == Some(t as u8) && (
    if pos.player_to_move is White {
        t >= 8
    } else {
        t < 56
    }))
    &&& (promotion ==> on_last_rank(pos.player_to_move, t as u8) && offset != 16 && offset != -16)
    &&& (offset == 16 || offset == -16 ==> !capture && !promotion && !en_passant)
}

/// Emit one pawn move per set bit of `to_mask` (four on promotion,
/// one per promotion piece).
#[verifier::loop_isolation(false)]
fn add_pawn_moves(
    moves: &mut Vec<Move>,
    to_mask: u64,
    offset: i8,
    capture: bool,
    promotion: bool,
    en_passant: bool,
    pos: Ghost<Position>,
)
    requires
        -16 <= offset <= 16,
        offset != 0,
        !(promotion && en_passant),
        forall|t: u64|
            t < 64 && #[trigger] get_bit(to_mask, t) ==> pawn_target_ok(
                pos@,
                t,
                offset as int,
                capture,
                promotion,
                en_passant,
            ),
    ensures
        final(moves)@.len() >= old(moves)@.len(),
        forall|i: int| 0 <= i < old(moves)@.len() ==> final(moves)@[i] == old(moves)@[i],
        moves_ok_from(pos@, final(moves)@, old(moves)@.len() as int),
        no_castling_from(final(moves)@, old(moves)@.len() as int),
{
    let mut bb: u64 = to_mask;
    while bb != 0
        invariant
            forall|t: u64| t < 64 && #[trigger] get_bit(bb, t) ==> get_bit(to_mask, t),
            moves@.len() >= old(moves)@.len(),
            forall|i: int| 0 <= i < old(moves)@.len() ==> moves@[i] == old(moves)@[i],
            moves_ok_from(pos@, moves@, old(moves)@.len() as int),
            no_castling_from(moves@, old(moves)@.len() as int),
        decreases bb,
    {
        let ghost bb_before = bb;
        let to: u8 = pop_lsb(&mut bb);
        proof {
            assert forall|t: u64| t < 64 && #[trigger] get_bit(bb, t) implies get_bit(
                to_mask,
                t,
            ) by {
                lemma_get_without_bit(bb_before, to as u64, t);
            }
            assert(pawn_target_ok(pos@, to as u64, offset as int, capture, promotion, en_passant));
            assert(bb < bb_before) by (bit_vector)
                requires
                    bb == bb_before & !(1u64 << (to as u64)),
                    bb_before & (1u64 << (to as u64)) != 0,
            ;
        }
        let from: u8 = if offset >= 0 {
            to - (offset as u8)
        } else {
            to + ((-offset) as u8)
        };
        if promotion {
            let mq = Move::pawn(from, to, capture, Some(Piece::Queen), false);
            let mr = Move::pawn(from, to, capture, Some(Piece::Rook), false);
            let mb = Move::pawn(from, to, capture, Some(Piece::Bishop), false);
            let mn = Move::pawn(from, to, capture, Some(Piece::Knight), false);
            proof {
                lemma_pawn_move_ok(pos@, to as u64, offset as int, capture, true, false, mq);
                lemma_pawn_move_ok(pos@, to as u64, offset as int, capture, true, false, mr);
                lemma_pawn_move_ok(pos@, to as u64, offset as int, capture, true, false, mb);
                lemma_pawn_move_ok(pos@, to as u64, offset as int, capture, true, false, mn);
            }
            push_checked(moves, mq, pos);
            push_checked(moves, mr, pos);
            push_checked(moves, mb, pos);
            push_checked(moves, mn, pos);
        } else if en_passant {
            let m = Move::pawn(from, to, capture, None, true);
            proof {
                lemma_pawn_move_ok(pos@, to as u64, offset as int, capture, false, true, m);
            }
            push_checked(moves, m, pos);
        } else {
            let m = Move::pawn(from, to, capture, None, false);
            proof {
                lemma_pawn_move_ok(pos@, to as u64, offset as int, capture, false, false, m);
            }
            push_checked(moves, m, pos);
        }
    }
}

/// Append a move known to be supported.
fn push_checked(moves: &mut Vec<Move>, m: Move, pos: Ghost<Position>)
    requires
        make_exec_ok(pos@, m),
        pos_consistent(pos@) ==> move_ok(pos@, m),
    ensures
        final(moves)@ == old(moves)@.push(m),
{
    moves.push(m);
}

/// One pawn move of shape `(offset, capture, promotion, en_passant)`
/// to target `t` is supported.
proof fn lemma_pawn_move_ok(
    pos: Position,
    t: u64,
    offset: int,
    capture: bool,
    promotion: bool,
    en_passant: bool,
    m: Move,
)
    requires
        pawn_target_ok(pos, t, offset, capture, promotion, en_passant),
        m.from == t - offset,
        m.to == t,
        m.piece is Pawn,
        m.capture == capture,
        m.en_passant == en_passant,
        m.double_push == (m.to == m.from + 16 || m.from == m.to + 16),
        !m.kingside_castling,
        !m.queenside_castling,
        match m.promotion {
            Some(pp) => promotion && !(pp is Pawn) && !(pp is King),
            None => !promotion,
        },
    ensures
        make_exec_ok(pos, m),
        pos_consistent(pos) ==> move_ok(pos, m),
{
    if pos_consistent(pos) {
        lemma_or_bits(pos.w.all, pos.b.all, t);
        lemma_disjoint_bits(t);
        if en_passant {
            assert(!get_bit(pos.occupied, t));
        }
        assert(!get_bit(friendly_set(pos).all, t));
    }
}

/// Generate the side to move's pawn moves as bulk shifts of the pawn
/// board: single and double pushes onto empty squares, diagonal
/// captures, promotions on the last rank, and en-passant captures.
#[verifier::loop_isolation(false)]
pub fn generate_pseudo_pawn_moves(pos: &Position, moves: &mut Vec<Move>)
    requires
        pos_unions_ok(*pos),
    ensures
        final(moves)@.len() >= old(moves)@.len(),
        forall|i: int| 0 <= i < old(moves)@.len() ==> final(moves)@[i] == old(moves)@[i],
        moves_ok_from(*pos, final(moves)@, old(moves)@.len() as int),
        no_castling_from(final(moves)@, old(moves)@.len() as int),
{
    let empty: u64 = !pos.occupied;
    let en_passant_bb: u64 = match pos.en_passant_square {
        Some(sq) => 1u64 << sq,
        None => 0u64,
    };
    let white: bool = matches!(pos.player_to_move, Player::White);
    let pawns: u64 = if white {
        pos.w.pawns
    } else {
        pos.b.pawns
    };
    let enemy: u64 = if white {
        pos.b.all
    } else {
        pos.w.all
    };
    let left_offset: i8 = if white {
        7
    } else {
        -7
    };
    let forward_offset: i8 = if white {
        8
    } else {
        -8
    };
    let right_offset: i8 = if white {
        9
    } else {
        -9
    };
    let start_rank: u64 = if white {
        board::RANK_2
    } else {
        board::RANK_7
    };
    let promo_rank: u64 = if white {
        board::RANK_8
    } else {
        board::RANK_1
    };
    let mask_right: u64 = if white {
        !board::FILE_H
    } else {
        !board::FILE_A
    };
    let mask_left: u64 = if white {
        !board::FILE_A
    } else {
        !board::FILE_H
    };

    let single: u64 = signed_shift(pawns, forward_offset) & empty;
    let double: u64 = signed_shift(signed_shift(pawns & start_rank, forward_offset) & empty,
        forward_offset) & empty;
    let left: u64 = signed_shift(pawns & mask_left, left_offset) & enemy;
    let right: u64 = signed_shift(pawns & mask_right, right_offset) & enemy;

    let promo_push: u64 = single & promo_rank;
    let promo_left: u64 = left & promo_rank;
    let promo_right: u64 = right & promo_rank;

    let non_promo_push: u64 = single & !promo_rank;
    let non_promo_left: u64 = left & !promo_rank;
    let non_promo_right: u64 = right & !promo_rank;

    let ep_left: u64 = signed_shift(pawns & mask_left, left_offset) & en_passant_bb;
    let ep_right: u64 = signed_shift(pawns & mask_right, right_offset) & en_passant_bb;

    proof {
        assert forall|t: u64| t < 64 && #[trigger] get_bit(single, t) implies {
            &&& 0 <= t - (forward_offset as int) < 64
            &&& get_bit(friendly_set(*pos).pawns, (t - forward_offset as int) as u64)
            &&& !get_bit(pos.occupied, t)
        } by {
            lemma_not_bits(pos.occupied, t);
            if white {
                lemma_and_bits(pawns << 8, !pos.occupied, t);
                lemma_shl_bits(pawns, 8, t);
            } else {
                lemma_and_bits(pawns >> 8, !pos.occupied, t);
                lemma_shr_bits(pawns, 8, t);
            }
        }
        assert forall|t: u64| t < 64 && #[trigger] get_bit(double, t) implies pawn_target_ok(
            *pos,
            t,
            2 * forward_offset as int,
            false,
            false,
            false,
        ) by {
            lemma_not_bits(pos.occupied, t);
            lemma_or_bits(pos.w.all, pos.b.all, t);
            if white {
                let mid = ((pawns & start_rank) << 8) & !pos.occupied;
                lemma_and_bits(mid << 8, !pos.occupied, t);
                lemma_shl_bits(mid, 8, t);
                if t >= 8 {
                    lemma_not_bits(pos.occupied, (t - 8) as u64);
                    lemma_and_bits((pawns & start_rank) << 8, !pos.occupied, (t - 8) as u64);
                    lemma_shl_bits(pawns & start_rank, 8, (t - 8) as u64);
                    if t >= 16 {
                        lemma_and_bits(pawns, start_rank, (t - 16) as u64);
                    }
                }
            } else {
                let mid = ((pawns & start_rank) >> 8) & !pos.occupied;
                lemma_and_bits(mid >> 8, !pos.occupied, t);
                lemma_shr_bits(mid, 8, t);
                if t + 8 < 64 {
                    lemma_not_bits(pos.occupied, (t + 8) as u64);
                    lemma_and_bits((pawns & start_rank) >> 8, !pos.occupied, (t + 8) as u64);
                    lemma_shr_bits(pawns & start_rank, 8, (t + 8) as u64);
                    if t + 16 < 64 {
                        lemma_and_bits(pawns, start_rank, (t + 16) as u64);
                    }
                }
            }
        }
        assert forall|t: u64| t < 64 && #[trigger] get_bit(left, t) implies {
            &&& 0 <= t - (left_offset as int) < 64
            &&& get_bit(friendly_set(*pos).pawns, (t - left_offset as int) as u64)
            &&& get_bit(hostile_set(*pos).all, t)
        } by {
            if white {
                lemma_and_bits((pawns & mask_left) << 7, enemy, t);
                lemma_shl_bits(pawns & mask_left, 7, t);
                if t >= 7 {
                    lemma_and_bits(pawns, mask_left, (t - 7) as u64);
                }
            } else {
                lemma_and_bits((pawns & mask_left) >> 7, enemy, t);
                lemma_shr_bits(pawns & mask_left, 7, t);
                if t + 7 < 64 {
                    lemma_and_bits(pawns, mask_left, (t + 7) as u64);
                }
            }
        }
        assert forall|t: u64| t < 64 && #[trigger] get_bit(right, t) implies {
            &&& 0 <= t - (right_offset as int) < 64
            &&& get_bit(friendly_set(*pos).pawns, (t - right_offset as int) as u64)
            &&& get_bit(hostile_set(*pos).all, t)
        } by {
            if white {
                lemma_and_bits((pawns & mask_right) << 9, enemy, t);
                lemma_shl_bits(pawns & mask_right, 9, t);
                if t >= 9 {
                    lemma_and_bits(pawns, mask_right, (t - 9) as u64);
                }
            } else {
                lemma_and_bits((pawns & mask_right) >> 9, enemy, t);
                lemma_shr_bits(pawns & mask_right, 9, t);
                if t + 9 < 64 {
                    lemma_and_bits(pawns, mask_right, (t + 9) as u64);
                }
            }
        }
        assert forall|t: u64| t < 64 && #[trigger] get_bit(promo_push, t) implies pawn_target_ok(
            *pos,
            t,
            forward_offset as int,
            false,
            true,
            false,
        ) by {
            lemma_and_bits(single, promo_rank, t);
            lemma_rank_edges(t);
            lemma_or_bits(pos.w.all, pos.b.all, t);
        }
        assert forall|t: u64| t < 64 && #[trigger] get_bit(promo_left, t) implies pawn_target_ok(
            *pos,
            t,
            left_offset as int,
            true,
            true,
            false,
        ) by {
            lemma_and_bits(left, promo_rank, t);
            lemma_rank_edges(t);
        }
        assert forall|t: u64| t < 64 && #[trigger] get_bit(promo_right, t) implies pawn_target_ok(
            *pos,
            t,
            right_offset as int,
            true,
            true,
            false,
        ) by {
            lemma_and_bits(right, promo_rank, t);
            lemma_rank_edges(t);
        }
        assert forall|t: u64| t < 64 && #[trigger] get_bit(non_promo_push, t) implies
            pawn_target_ok(*pos, t, forward_offset as int, false, false, false) by {
            lemma_and_not_bits(single, promo_rank, t);
            lemma_or_bits(pos.w.all, pos.b.all, t);
        }
        assert forall|t: u64| t < 64 && #[trigger] get_bit(non_promo_left, t) implies
            pawn_target_ok(*pos, t, left_offset as int, true, false, false) by {
            lemma_and_not_bits(left, promo_rank, t);
        }
        assert forall|t: u64| t < 64 && #[trigger] get_bit(non_promo_right, t) implies
            pawn_target_ok(*pos, t, right_offset as int, true, false, false) by {
            lemma_and_not_bits(right, promo_rank, t);
        }
        assert forall|t: u64| t < 64 && #[trigger] get_bit(ep_left, t) implies pawn_target_ok(
            *pos,
            t,
            left_offset as int,
            true,
            false,
            true,
        ) by {
            match pos.en_passant_square {
                Some(sq) => {
                    lemma_and_bits(spec_signed_shift(pawns & mask_left, left_offset), 1u64 << sq, t);
                    lemma_one_bit(sq as u64, t);
                    if white {
                        lemma_shl_bits(pawns & mask_left, 7, t);
                        if t >= 7 {
                            lemma_and_bits(pawns, mask_left, (t - 7) as u64);
                            lemma_not_bits(board::FILE_A, (t - 7) as u64);
                            crate::bits::lemma_file_edges((t - 7) as u64);
                        }
                    } else {
                        lemma_shr_bits(pawns & mask_left, 7, t);
                        if t + 7 < 64 {
                            lemma_and_bits(pawns, mask_left, (t + 7) as u64);
                            lemma_not_bits(board::FILE_H, (t + 7) as u64);
                            crate::bits::lemma_file_edges((t + 7) as u64);
                        }
                    }
                },
                None => {
                    crate::bits::lemma_zero_bits();
                    lemma_and_bits(spec_signed_shift(pawns & mask_left, left_offset), 0u64, t);
                },
            }
        }
        assert forall|t: u64| t < 64 && #[trigger] get_bit(ep_right, t) implies pawn_target_ok(
            *pos,
            t,
            right_offset as int,
            true,
            false,
            true,
        ) by {
            match pos.en_passant_square {
                Some(sq) => {
                    lemma_and_bits(
                        spec_signed_shift(pawns & mask_right, right_offset),
                        1u64 << sq,
                        t,
                    );
                    lemma_one_bit(sq as u64, t);
                    if white {
                        lemma_shl_bits(pawns & mask_right, 9, t);
                        if t >= 9 {
                            lemma_and_bits(pawns, mask_right, (t - 9) as u64);
                        }
                    } else {
                        lemma_shr_bits(pawns & mask_right, 9, t);
                        if t + 9 < 64 {
                            lemma_and_bits(pawns, mask_right, (t + 9) as u64);
                        }
                    }
                },
                None => {
                    crate::bits::lemma_zero_bits();
                    lemma_and_bits(spec_signed_shift(pawns & mask_right, right_offset), 0u64, t);
                },
            }
        }
    }

    add_pawn_moves(moves, non_promo_push, forward_offset, false, false, false, Ghost(*pos));
    add_pawn_moves(
        moves,
        double,
        2 * forward_offset,
        false,
        false,
        false,
        Ghost(*pos),
    );
    add_pawn_moves(moves, non_promo_left, left_offset, true, false, false, Ghost(*pos));
    add_pawn_moves(moves, non_promo_right, right_offset, true, false, false, Ghost(*pos));

    add_pawn_moves(moves, promo_push, forward_offset, false, true, false, Ghost(*pos));
    add_pawn_moves(moves, promo_left, left_offset, true, true, false, Ghost(*pos));
    add_pawn_moves(moves, promo_right, right_offset, true, true, false, Ghost(*pos));

    add_pawn_moves(moves, ep_left, left_offset, true, false, true, Ghost(*pos));
    add_pawn_moves(moves, ep_right, right_offset, true, false, true, Ghost(*pos));
}

/// Generate moves of one non-pawn piece kind: iterate the pieces,
/// look attack squares up, and emit one move per reachable square.
#[verifier::loop_isolation(false)]
pub fn generate_pseudo_moves_for_piece(pos: &Position, piece_type: Piece, moves: &mut Vec<Move>)
    requires
        pos_unions_ok(*pos),
        !(piece_type is Pawn),
    ensures
        final(moves)@.len() >= old(moves)@.len(),
        forall|i: int| 0 <= i < old(moves)@.len() ==> final(moves)@[i] == old(moves)@[i],
        moves_ok_from(*pos, final(moves)@, old(moves)@.len() as int),
        no_castling_from(final(moves)@, old(moves)@.len() as int),
{
    let white: bool = matches!(pos.player_to_move, Player::White);
    let friendly: u64 = if white {
        pos.w.all
    } else {
        pos.b.all
    };
    let hostile: u64 = if white {
        pos.b.all
    } else {
        pos.w.all
    };

    let mut pieces: u64 = match piece_type {
        Piece::Knight => if white {
            pos.w.knights
        } else {
            pos.b.knights
        },
        Piece::Bishop => if white {
            pos.w.bishops
        } else {
            pos.b.bishops
        },
        Piece::Rook => if white {
            pos.w.rooks
        } else {
            pos.b.rooks
        },
        Piece::Queen => if white {
            pos.w.queens
        } else {
            pos.b.queens
        },
        Piece::King => if white {
            pos.w.king
        } else {
            pos.b.king
        },
        Piece::Pawn => 0,
    };
    let ghost pieces0 = pieces;
    assert(pieces0 == crate::bitboard::piece_board(friendly_set(*pos), piece_type));

    while pieces != 0
        invariant
            forall|t: u64| t < 64 && #[trigger] get_bit(pieces, t) ==> get_bit(pieces0, t),
            moves@.len() >= old(moves)@.len(),
            forall|i: int| 0 <= i < old(moves)@.len() ==> moves@[i] == old(moves)@[i],
            moves_ok_from(*pos, moves@, old(moves)@.len() as int),
            no_castling_from(moves@, old(moves)@.len() as int),
        decreases pieces,
    {
        let ghost pieces_before = pieces;
        let from: u8 = pop_lsb(&mut pieces);
        proof {
            assert forall|t: u64| t < 64 && #[trigger] get_bit(pieces, t) implies get_bit(
                pieces0,
                t,
            ) by {
                lemma_get_without_bit(pieces_before, from as u64, t);
            }
            assert(pieces < pieces_before) by (bit_vector)
                requires
                    pieces == pieces_before & !(1u64 << (from as u64)),
                    pieces_before & (1u64 << (from as u64)) != 0,
            ;
            crate::bitboard::lemma_union_membership(
                friendly_set(*pos).pawns,
                friendly_set(*pos).knights,
                friendly_set(*pos).bishops,
                friendly_set(*pos).rooks,
                friendly_set(*pos).queens,
                friendly_set(*pos).king,
                from as u64,
            );
        }
        let mut attacks_bb: u64 = match piece_type {
            Piece::Knight => knight_attacks(pos, from as usize, friendly),
            Piece::Bishop => bishop_attacks(pos, from as usize, friendly),
            Piece::Rook => rook_attacks(pos, from as usize, friendly),
            Piece::Queen => queen_attacks(pos, from as usize, friendly),
            Piece::King => king_attacks(pos, from as usize, friendly),
            Piece::Pawn => 0,
        };
        let ghost att0 = attacks_bb;
        proof {
            assert forall|t: u64| t < 64 implies !(#[trigger] get_bit(att0, t) && get_bit(
                friendly,
                t,
            )) by {
                match piece_type {
                    Piece::Queen => {
                        lemma_or_bits(
                            spec_rook_attacks(pos.occupied, from as int) & !friendly,
                            spec_bishop_attacks(pos.occupied, from as int) & !friendly,
                            t,
                        );
                        lemma_and_not_bits(spec_rook_attacks(pos.occupied, from as int), friendly, t);
                        lemma_and_not_bits(
                            spec_bishop_attacks(pos.occupied, from as int),
                            friendly,
                            t,
                        );
                    },
                    Piece::Knight => {
                        lemma_and_not_bits(spec_knight_attack(from as u64), friendly, t);
                    },
                    Piece::Bishop => {
                        lemma_and_not_bits(
                            spec_bishop_attacks(pos.occupied, from as int),
                            friendly,
                            t,
                        );
                    },
                    Piece::Rook => {
                        lemma_and_not_bits(spec_rook_attacks(pos.occupied, from as int), friendly, t);
                    },
                    Piece::King => {
                        lemma_and_not_bits(spec_king_attack(from as u64), friendly, t);
                    },
                    Piece::Pawn => {
                        crate::bits::lemma_zero_bits();
                    },
                }
            }
        }
        while attacks_bb != 0
            invariant
                forall|t: u64| t < 64 && #[trigger] get_bit(attacks_bb, t) ==> get_bit(att0, t),
                moves@.len() >= old(moves)@.len(),
                forall|i: int| 0 <= i < old(moves)@.len() ==> moves@[i] == old(moves)@[i],
                moves_ok_from(*pos, moves@, old(moves)@.len() as int),
                no_castling_from(moves@, old(moves)@.len() as int),
            decreases attacks_bb,
        {
            let ghost att_before = attacks_bb;
            let to: u8 = pop_lsb(&mut attacks_bb);
            proof {
                assert forall|t: u64| t < 64 && #[trigger] get_bit(attacks_bb, t) implies get_bit(
                    att0,
                    t,
                ) by {
                    lemma_get_without_bit(att_before, to as u64, t);
                }
                assert(attacks_bb < att_before) by (bit_vector)
                    requires
                        attacks_bb == att_before & !(1u64 << (to as u64)),
                        att_before & (1u64 << (to as u64)) != 0,
                ;
            }
            let capture: bool = (bit(to as usize) & hostile) > 0;
            proof {
                lemma_and_comm(1u64 << (to as u64), hostile);
                assert(capture == get_bit(hostile_set(*pos).all, to as u64));
                assert(!get_bit(friendly, to as u64));
            }
            push_checked(moves, Move::new(from, to, piece_type, capture), Ghost(*pos));
        }
    }
}

/// Does the position admit castling to `side`: the right still held,
/// the crossing squares empty, and no square of the king's path
/// attacked?
pub open spec fn spec_castling_available(pos: Position, side: CastlingSide) -> bool {
    let white = pos.player_to_move is White;
    let right = if white {
        if side is KingSide {
            pos.castling.white_kingside
        } else {
            pos.castling.white_queenside
        }
    } else {
        if side is KingSide {
            pos.castling.black_kingside
        } else {
            pos.castling.black_queenside
        }
    };
    let home: u64 = if white {
        4
    } else {
        60
    };
    let empty_ok = if side is KingSide {
        pos.occupied & ((1u64 << home) | (1u64 << (home + 1)) | (1u64 << (home + 2))) == (1u64
            << home)
    } else {
        pos.occupied & ((1u64 << (home - 3)) | (1u64 << (home - 2)) | (1u64 << (home - 1)) | (1u64
            << home)) == (1u64 << home)
    };
    let path_ok = if side is KingSide {
        &&& !crate::checks::spec_is_square_attacked(
            pos,
            home as int,
            pos.player_to_move.spec_opposite(),
        )
        &&& !crate::checks::spec_is_square_attacked(
            pos,
            home as int + 1,
            pos.player_to_move.spec_opposite(),
        )
        &&& !crate::checks::spec_is_square_attacked(
            pos,
            home as int + 2,
            pos.player_to_move.spec_opposite(),
        )
    } else {
        &&& !crate::checks::spec_is_square_attacked(
            pos,
            home as int,
            pos.player_to_move.spec_opposite(),
        )
        &&& !crate::checks::spec_is_square_attacked(
            pos,
            home as int - 1,
            pos.player_to_move.spec_opposite(),
        )
        &&& !crate::checks::spec_is_square_attacked(
            pos,
            home as int - 2,
            pos.player_to_move.spec_opposite(),
        )
    };
    right && empty_ok && path_ok
}

/// Generate the castling moves the position admits, and only those:
/// one per side whose right is held, whose crossing squares are empty,
/// and whose king path is unattacked — kingside first.
pub fn generate_pseudo_castling_moves(pos: &Position, moves: &mut Vec<Move>)
    ensures
        final(moves)@.len() == old(moves)@.len() + (
        if spec_castling_available(*pos, CastlingSide::KingSide) {
            1int
        } else {
            0int
        }) + (if spec_castling_available(*pos, CastlingSide::QueenSide) {
            1int
        } else {
            0int
        }),
        forall|i: int| 0 <= i < old(moves)@.len() ==> final(moves)@[i] == old(moves)@[i],
        moves_ok_from(*pos, final(moves)@, old(moves)@.len() as int),
        spec_castling_available(*pos, CastlingSide::KingSide) ==> final(moves)@[old(
            moves,
        )@.len() as int] == Move::spec_castling(pos.player_to_move, CastlingSide::KingSide),
        spec_castling_available(*pos, CastlingSide::QueenSide) ==> final(moves)@.last()
            == Move::spec_castling(pos.player_to_move, CastlingSide::QueenSide),
{
    let white: bool = matches!(pos.player_to_move, Player::White);
    let kingside_mask: u64 = if white {
        bit(4) | bit(5) | bit(6)
    } else {
        bit(60) | bit(61) | bit(62)
    };
    let queenside_between: u64 = if white {
        bit(1) | bit(2) | bit(3) | bit(4)
    } else {
        bit(57) | bit(58) | bit(59) | bit(60)
    };
    let king_bb: u64 = if white {
        bit(4)
    } else {
        bit(60)
    };

    let white_kingside: bool = pos.castling.white_kingside && white;
    let white_queenside: bool = pos.castling.white_queenside && white;
    let black_kingside: bool = pos.castling.black_kingside && !white;
    let black_queenside: bool = pos.castling.black_queenside && !white;

    let kingside_empty: bool = pos.occupied & kingside_mask == king_bb;
    let queenside_empty: bool = pos.occupied & queenside_between == king_bb;

    proof {
        lemma_castle_empties(pos.occupied);
    }

    let enemy: Player = pos.player_to_move.opposite();

    // The king's path: its home square, the square it crosses, and
    // its destination, to either side.
    let king_home: usize = if white {
        4
    } else {
        60
    };
    let home_safe: bool = !is_square_attacked(pos, king_home, enemy);
    let kingside_not_attacked: bool = home_safe && !is_square_attacked(pos, king_home + 1, enemy)
        && !is_square_attacked(pos, king_home + 2, enemy);
    let queenside_not_attacked: bool = home_safe && !is_square_attacked(pos, king_home - 1, enemy)
        && !is_square_attacked(pos, king_home - 2, enemy);

    if (white_kingside || black_kingside) && kingside_empty && kingside_not_attacked {
        let m = Move::castling(pos.player_to_move, CastlingSide::KingSide);
        proof {
            if pos_consistent(*pos) {
                assert(crate::make::castling_move_ok(*pos, m));
            }
        }
        push_checked(moves, m, Ghost(*pos));
    }

    if (white_queenside || black_queenside) && queenside_empty && queenside_not_attacked {
        let m = Move::castling(pos.player_to_move, CastlingSide::QueenSide);
        proof {
            if pos_consistent(*pos) {
                assert(crate::make::castling_move_ok(*pos, m));
            }
        }
        push_checked(moves, m, Ghost(*pos));
    }
}

/// What the castling masks' occupancy equations say of the crossing
/// squares.
proof fn lemma_castle_empties(occ: u64)
    by (bit_vector)
    ensures
        occ & ((1u64 << 4) | (1u64 << 5) | (1u64 << 6)) == (1u64 << 4) ==> occ & (1u64 << 5) == 0
            && occ & (1u64 << 6) == 0,
        occ & ((1u64 << 1) | (1u64 << 2) | (1u64 << 3) | (1u64 << 4)) == (1u64 << 4) ==> occ & (
        1u64 << 2) == 0 && occ & (1u64 << 3) == 0,
        occ & ((1u64 << 60) | (1u64 << 61) | (1u64 << 62)) == (1u64 << 60) ==> occ & (1u64 << 61)
            == 0 && occ & (1u64 << 62) == 0,
        occ & ((1u64 << 57) | (1u64 << 58) | (1u64 << 59) | (1u64 << 60)) == (1u64 << 60) ==> occ
            & (1u64 << 58) == 0 && occ & (1u64 << 59) == 0,
{
}

} // verus!
