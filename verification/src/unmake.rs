//! Reverting a move: the undo record and the unmake step.

use vstd::prelude::*;

use crate::bitboard::{spec_clear_square, spec_place_piece, union_boards, BitboardSet};
use crate::board;
use crate::chess_move::{CastlingRights, Move};
use crate::piece::Piece;
use crate::player::Player;
use crate::position::Position;

verus! {

/// Everything needed to revert one made move: the move itself, the
/// captured piece if any, and the pre-move castling rights, en-passant
/// square, halfmove clock and hash.
#[derive(Clone, Copy)]
pub struct UndoData {
    pub move_to_undo: Move,
    pub captured_piece: Option<Piece>,
    pub castling: CastlingRights,
    pub en_passant_square: Option<u8>,
    pub halfmove_clock: usize,
    pub zobrist_hash: u64,
}

/// The rook's home square for the castling move `m` of `player`.
pub open spec fn spec_castle_rook_from(player: Player, m: Move) -> u8 {
    if m.kingside_castling {
        if player is White {
            board::H1
        } else {
            board::H8
        }
    } else {
        if player is White {
            board::A1
        } else {
            board::A8
        }
    }
}

/// The rook's landing square for the castling move `m` of `player`.
pub open spec fn spec_castle_rook_to(player: Player, m: Move) -> u8 {
    if m.kingside_castling {
        if player is White {
            board::F1
        } else {
            board::F8
        }
    } else {
        if player is White {
            board::D1
        } else {
            board::D8
        }
    }
}

/// The square of the pawn removed by an en-passant capture to `to`.
pub open spec fn spec_ep_capture_square(player: Player, to: u8) -> u8 {
    if player is White {
        (to - 8) as u8
    } else {
        (to + 8) as u8
    }
}

/// An undo record fit to be applied on `pos`: its squares are on the
/// board, the en-passant capture square exists, and a captured piece
/// is recorded exactly for plain captures.
pub open spec fn undo_wf(pos: Position, undo: UndoData) -> bool {
    let m = undo.move_to_undo;
    let who = pos.player_to_move.spec_opposite();
    &&& m.from < 64
    &&& m.to < 64
    &&& (!(m.kingside_castling || m.queenside_castling) && m.en_passant ==> if who is White {
        m.to >= 8
    } else {
        m.to < 56
    })
    &&& (!(m.kingside_castling || m.queenside_castling) && m.capture && !m.en_passant
        ==> undo.captured_piece is Some)
    &&& match undo.en_passant_square {
        Some(sq) => sq < 64,
        None => true,
    }
}

/// The position after reverting `undo` on `pos`: snapshot fields come
/// back from the record, the moved piece returns to its source, a
/// captured piece returns to its square, and the unions are recomputed.
pub open spec fn spec_unmake(pos: Position, undo: UndoData) -> Position {
    let who = pos.player_to_move.spec_opposite();
    let m = undo.move_to_undo;
    let f = if who is White {
        pos.w
    } else {
        pos.b
    };
    let h = if who is White {
        pos.b
    } else {
        pos.w
    };
    let f1 = if m.kingside_castling || m.queenside_castling {
        spec_place_piece(
            spec_clear_square(
                spec_place_piece(spec_clear_square(f, m.to), m.from, Piece::King),
                spec_castle_rook_to(who, m),
            ),
            spec_castle_rook_from(who, m),
            Piece::Rook,
        )
    } else if m.promotion is Some {
        spec_place_piece(spec_clear_square(f, m.to), m.from, Piece::Pawn)
    } else {
        spec_place_piece(spec_clear_square(f, m.to), m.from, m.piece)
    };
    let h1 = if m.kingside_castling || m.queenside_castling {
        h
    } else if m.en_passant {
        spec_place_piece(h, spec_ep_capture_square(who, m.to), Piece::Pawn)
    } else if m.capture {
        spec_place_piece(h, m.to, undo.captured_piece->Some_0)
    } else {
        h
    };
    let w1 = if who is White {
        f1
    } else {
        h1
    };
    let b1 = if who is White {
        h1
    } else {
        f1
    };
    Position {
        w: (BitboardSet { all: union_boards(w1), ..w1 }),
        b: (BitboardSet { all: union_boards(b1), ..b1 }),
        occupied: union_boards(w1) | union_boards(b1),
        player_to_move: who,
        en_passant_square: undo.en_passant_square,
        castling: undo.castling,
        zobrist_hash: undo.zobrist_hash,
    }
}

/// Revert the move recorded in `undo`; the clock comes back from the
/// record as well.
pub fn unmake_move(pos: &mut Position, undo: UndoData, halfmove_clock: &mut usize)
    requires
        undo_wf(*old(pos), undo),
    ensures
        *final(pos) == spec_unmake(*old(pos), undo),
        *final(halfmove_clock) == undo.halfmove_clock,
        final(pos).zobrist_hash == undo.zobrist_hash,
        final(pos).castling == undo.castling,
        final(pos).en_passant_square == undo.en_passant_square,
        final(pos).player_to_move == old(pos).player_to_move.spec_opposite(),
        crate::make::pos_unions_ok(*final(pos)) <== (match undo.en_passant_square {
            Some(sq) => sq < 64,
            None => true,
        }),
{
    let who = pos.player_to_move.opposite();
    let m = undo.move_to_undo;

    pos.castling = undo.castling;
    pos.en_passant_square = undo.en_passant_square;
    pos.zobrist_hash = undo.zobrist_hash;
    *halfmove_clock = undo.halfmove_clock;
    pos.player_to_move = who;

    if m.is_castling() {
        undo_castling(pos, &m, who);
    } else {
        let (friendly, hostile) = pos.perspective_mut(who);
        if m.promotion.is_some() {
            undo_promotion(friendly, &m);
        } else {
            undo_non_promotion_move(friendly, &m);
        }

        if m.en_passant {
            undo_en_passant(hostile, &m, who);
        } else if m.capture {
            undo_capture(hostile, &m, undo.captured_piece.unwrap());
        }
    }

    pos.update();
}

/// Walk the king and the rook back to their home squares.
fn undo_castling(pos: &mut Position, m: &Move, who: Player)
    requires
        m.from < 64,
        m.to < 64,
        m.kingside_castling || m.queenside_castling,
        who == old(pos).player_to_move,
    ensures
        *final(pos) == (Position {
            w: if who is White {
                spec_place_piece(
                    spec_clear_square(
                        spec_place_piece(spec_clear_square(old(pos).w, m.to), m.from, Piece::King),
                        spec_castle_rook_to(who, *m),
                    ),
                    spec_castle_rook_from(who, *m),
                    Piece::Rook,
                )
            } else {
                old(pos).w
            },
            b: if who is Black {
                spec_place_piece(
                    spec_clear_square(
                        spec_place_piece(spec_clear_square(old(pos).b, m.to), m.from, Piece::King),
                        spec_castle_rook_to(who, *m),
                    ),
                    spec_castle_rook_from(who, *m),
                    Piece::Rook,
                )
            } else {
                old(pos).b
            },
            ..*old(pos)
        }),
{
    let (friendly, _hostile) = pos.perspective_mut(who);

    let (rook_from, rook_to): (u8, u8) = match (who, m.kingside_castling) {
        (Player::White, true) => (board::H1, board::F1),
        (Player::White, false) => (board::A1, board::D1),
        (Player::Black, true) => (board::H8, board::F8),
        (Player::Black, false) => (board::A8, board::D8),
    };

    friendly.unset_bit(m.to);
    friendly.set_bit(m.from, Piece::King);

    friendly.unset_bit(rook_to);
    friendly.set_bit(rook_from, Piece::Rook);
}

/// Take the promoted piece off the board and restore the pawn.
fn undo_promotion(friendly: &mut BitboardSet, m: &Move)
    requires
        m.from < 64,
        m.to < 64,
    ensures
        *final(friendly) == spec_place_piece(
            spec_clear_square(*old(friendly), m.to),
            m.from,
            Piece::Pawn,
        ),
{
    friendly.unset_bit(m.to);
    friendly.set_bit(m.from, Piece::Pawn);
}

/// Walk the moved piece back to its source square.
fn undo_non_promotion_move(friendly: &mut BitboardSet, m: &Move)
    requires
        m.from < 64,
        m.to < 64,
    ensures
        *final(friendly) == spec_place_piece(
            spec_clear_square(*old(friendly), m.to),
            m.from,
            m.piece,
        ),
{
    friendly.unset_bit(m.to);
    friendly.set_bit(m.from, m.piece);
}

/// Restore a captured piece on the target square.
fn undo_capture(hostile: &mut BitboardSet, m: &Move, captured: Piece)
    requires
        m.to < 64,
    ensures
        *final(hostile) == spec_place_piece(*old(hostile), m.to, captured),
{
    hostile.set_bit(m.to, captured);
}

/// Restore the pawn taken by an en-passant capture.
fn undo_en_passant(hostile: &mut BitboardSet, m: &Move, who: Player)
    requires
        m.to < 64,
        who is White ==> m.to >= 8,
        who is Black ==> m.to < 56,
    ensures
        *final(hostile) == spec_place_piece(
            *old(hostile),
            spec_ep_capture_square(who, m.to),
            Piece::Pawn,
        ),
{
    let sq: u8 = match who {
        Player::White => m.to - 8,
        Player::Black => m.to + 8,
    };
    hostile.set_bit(sq, Piece::Pawn);
}

} // verus!
