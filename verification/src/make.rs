//! Applying a move: the precondition a generated move meets, the
//! functional description of the step, and the in-place update.

use vstd::prelude::*;

use crate::bitboard::{
    piece_board, spec_clear_square, spec_place_piece, union_boards, with_piece_board, BitboardSet,
    BitOps,
};
use crate::bits::{get_bit, with_bit, without_bit};
use crate::board;
use crate::chess_move::{CastlingRights, CastlingSide, Move};
use crate::piece::Piece;
use crate::player::Player;
use crate::position::{friendly_set, hostile_set, pos_wf, Position};
use crate::unmake::{
    spec_castle_rook_from, spec_castle_rook_to, spec_ep_capture_square, UndoData,
};
use crate::zobrist::{
    castling_key, ep_hash, piece_key, side_key, zobrist_castling_key, zobrist_en_passant_file_key,
    zobrist_piece_key, zobrist_side_black_key,
};

verus! {

/// Is `sq` on the last rank from `player`'s perspective?
pub open spec fn on_last_rank(player: Player, sq: u8) -> bool {
    if player is White {
        sq >= 56
    } else {
        sq < 8
    }
}

/// A castling move that the position supports: the move is the
/// canonical castling record of the side to move, the right is still
/// held, the king and the rook stand on their home squares, the
/// squares they enter are free, and no square of the king's path is
/// attacked.
pub open spec fn castling_move_ok(pos: Position, m: Move) -> bool {
    let mover = pos.player_to_move;
    let f = friendly_set(pos);
    let side = if m.kingside_castling {
        CastlingSide::KingSide
    } else {
        CastlingSide::QueenSide
    };
    let right = if mover is White {
        if m.kingside_castling {
            pos.castling.white_kingside
        } else {
            pos.castling.white_queenside
        }
    } else {
        if m.kingside_castling {
            pos.castling.black_kingside
        } else {
            pos.castling.black_queenside
        }
    };
    &&& m == Move::spec_castling(mover, side)
    &&& right
    &&& get_bit(f.king, m.from as u64)
    &&& get_bit(f.rooks, spec_castle_rook_from(mover, m) as u64)
    &&& !get_bit(pos.w.all | pos.b.all, m.to as u64)
    &&& !get_bit(pos.w.all | pos.b.all, spec_castle_rook_to(mover, m) as u64)
    &&& !crate::checks::spec_is_square_attacked(pos, m.from as int, mover.spec_opposite())
    &&& !crate::checks::spec_is_square_attacked(
        pos,
        ((m.from + m.to) / 2) as int,
        mover.spec_opposite(),
    )
    &&& !crate::checks::spec_is_square_attacked(pos, m.to as int, mover.spec_opposite())
}

/// A move the position supports, as move generation produces them:
/// squares are on the board, the flags are mutually consistent, the
/// moved piece stands on its source square, the target square holds
/// what the capture flag claims, and the special flags match the
/// position's state.
pub open spec fn move_ok(pos: Position, m: Move) -> bool {
    let f = friendly_set(pos);
    let h = hostile_set(pos);
    &&& m.from < 64
    &&& m.to < 64
    &&& m.from != m.to
    &&& !(m.kingside_castling && m.queenside_castling)
    &&& if m.kingside_castling || m.queenside_castling {
        castling_move_ok(pos, m)
    } else {
        &&& get_bit(piece_board(f, m.piece), m.from as u64)
        &&& !get_bit(f.all, m.to as u64)
        &&& match m.promotion {
            Some(pp) => {
                &&& m.piece is Pawn
                &&& !(pp is Pawn)
                &&& !(pp is King)
                &&& on_last_rank(pos.player_to_move, m.to)
            },
            None => true,
        }
        &&& if m.en_passant {
            &&& m.capture
            &&& m.piece is Pawn
            &&& m.promotion is None
            &&& pos.en_passant_square == Some(m.to)
            &&& !get_bit(h.all, m.to as u64)
            &&& if pos.player_to_move is White {
                &&& m.to >= 8
                &&& get_bit(h.pawns, (m.to - 8) as u64)
            } else {
                &&& m.to < 56
                &&& get_bit(h.pawns, (m.to + 8) as u64)
            }
        } else {
            m.capture == get_bit(h.all, m.to as u64)
        }
        &&& (m.double_push ==> {
            &&& m.piece is Pawn
            &&& !m.capture
            &&& m.promotion is None
            &&& (m.to == m.from + 16 || m.from == m.to + 16)
        })
    }
}

/// The mover's and the waiting side's boards after the move, before
/// the unions are recomputed.
pub open spec fn spec_apply_boards(pos: Position, m: Move) -> (BitboardSet, BitboardSet) {
    let mover = pos.player_to_move;
    let f = friendly_set(pos);
    let h = hostile_set(pos);
    if m.kingside_castling || m.queenside_castling {
        let f1 = BitboardSet {
            king: with_bit(without_bit(f.king, m.from as u64), m.to as u64),
            rooks: with_bit(
                without_bit(f.rooks, spec_castle_rook_from(mover, m) as u64),
                spec_castle_rook_to(mover, m) as u64,
            ),
            ..f
        };
        (f1, h)
    } else {
        let f1 = match m.promotion {
            Some(pp) => {
                let cleared = BitboardSet { pawns: without_bit(f.pawns, m.from as u64), ..f };
                with_piece_board(
                    cleared,
                    pp,
                    with_bit(piece_board(cleared, pp), m.to as u64),
                )
            },
            None => with_piece_board(
                f,
                m.piece,
                with_bit(without_bit(piece_board(f, m.piece), m.from as u64), m.to as u64),
            ),
        };
        let h1 = if m.en_passant {
            BitboardSet {
                pawns: without_bit(
                    h.pawns,
                    spec_ep_capture_square(mover, m.to) as u64,
                ),
                ..h
            }
        } else if m.capture {
            spec_clear_square(h, m.to)
        } else {
            h
        };
        (f1, h1)
    }
}

/// The castling rights after the move: castling or a king move
/// withdraws both of the mover's rights, a rook move from a corner
/// withdraws that corner's right, and capturing on a corner withdraws
/// the right tied to it.
pub open spec fn spec_new_castling(pos: Position, m: Move) -> CastlingRights {
    let mover = pos.player_to_move;
    let c = pos.castling;
    if m.kingside_castling || m.queenside_castling {
        c.spec_reset(mover)
    } else {
        let c1 = if m.piece is King {
            c.spec_reset(mover)
        } else if m.piece is Rook && c.spec_any(mover) {
            if m.from == board::A1 || m.from == board::A8 {
                c.spec_reset_side(mover, CastlingSide::QueenSide)
            } else if m.from == board::H1 || m.from == board::H8 {
                c.spec_reset_side(mover, CastlingSide::KingSide)
            } else {
                c
            }
        } else {
            c
        };
        if m.capture && !m.en_passant {
            if m.to == board::A1 {
                c1.spec_reset_side(Player::White, CastlingSide::QueenSide)
            } else if m.to == board::H1 {
                c1.spec_reset_side(Player::White, CastlingSide::KingSide)
            } else if m.to == board::A8 {
                c1.spec_reset_side(Player::Black, CastlingSide::QueenSide)
            } else if m.to == board::H8 {
                c1.spec_reset_side(Player::Black, CastlingSide::KingSide)
            } else {
                c1
            }
        } else {
            c1
        }
    }
}

/// The en-passant square after the move: the skipped square of a
/// double push, otherwise none.
pub open spec fn spec_new_ep(m: Move) -> Option<u8> {
    if m.double_push {
        Some(((m.from + m.to) / 2) as u8)
    } else {
        None
    }
}

/// The halfmove clock after the move: reset by a pawn move or a
/// capture, otherwise one more.
pub open spec fn spec_new_clock(m: Move, clock: nat) -> nat {
    if !(m.kingside_castling || m.queenside_castling) && (m.piece is Pawn || m.capture) {
        0
    } else {
        clock + 1
    }
}

/// The xor of the piece-square keys the move toggles.
pub open spec fn spec_move_piece_keys(pos: Position, m: Move) -> u64 {
    let mover = pos.player_to_move;
    let opp = mover.spec_opposite();
    let h = hostile_set(pos);
    if m.kingside_castling || m.queenside_castling {
        piece_key(Piece::King, mover, m.from as u64) ^ piece_key(Piece::King, mover, m.to as u64)
            ^ piece_key(Piece::Rook, mover, spec_castle_rook_from(mover, m) as u64) ^ piece_key(
            Piece::Rook,
            mover,
            spec_castle_rook_to(mover, m) as u64,
        )
    } else {
        (match m.promotion {
            Some(pp) => piece_key(Piece::Pawn, mover, m.from as u64) ^ piece_key(
                pp,
                mover,
                m.to as u64,
            ),
            None => piece_key(m.piece, mover, m.from as u64) ^ piece_key(
                m.piece,
                mover,
                m.to as u64,
            ),
        }) ^ (if m.en_passant {
            piece_key(Piece::Pawn, opp, spec_ep_capture_square(mover, m.to) as u64)
        } else if m.capture {
            match h.spec_what(m.to) {
                Some(cp) => piece_key(cp, opp, m.to as u64),
                None => 0u64,
            }
        } else {
            0u64
        })
    }
}

/// The xor the move applies to the hash: out with the old en-passant
/// and castling keys, in with the new ones, the toggled piece keys,
/// and the side key.
pub open spec fn spec_hash_delta(pos: Position, m: Move) -> u64 {
    ep_hash(pos.en_passant_square) ^ ep_hash(spec_new_ep(m)) ^ castling_key(
        pos.castling.spec_encode(),
    ) ^ castling_key(spec_new_castling(pos, m).spec_encode()) ^ spec_move_piece_keys(pos, m)
        ^ side_key()
}

/// The position after the move: boards as `spec_apply_boards` leaves
/// them with the unions recomputed, rights, en-passant square and
/// side updated, and the hash advanced by the move's key delta.
pub open spec fn spec_make(pos: Position, m: Move) -> Position {
    let mover = pos.player_to_move;
    let fh = spec_apply_boards(pos, m);
    let w1 = if mover is White {
        fh.0
    } else {
        fh.1
    };
    let b1 = if mover is White {
        fh.1
    } else {
        fh.0
    };
    Position {
        w: (BitboardSet { all: union_boards(w1), ..w1 }),
        b: (BitboardSet { all: union_boards(b1), ..b1 }),
        occupied: union_boards(w1) | union_boards(b1),
        player_to_move: mover.spec_opposite(),
        en_passant_square: spec_new_ep(m),
        castling: spec_new_castling(pos, m),
        zobrist_hash: pos.zobrist_hash ^ spec_hash_delta(pos, m),
    }
}

/// Both unions are in order and an en-passant square, if set, is on
/// the board: the part of the position's invariant that every
/// accepted input has and that each make re-establishes by
/// recomputing the unions.
pub open spec fn pos_unions_ok(pos: Position) -> bool {
    &&& pos.w.all == union_boards(pos.w)
    &&& pos.b.all == union_boards(pos.b)
    &&& pos.occupied == pos.w.all | pos.b.all
    &&& match pos.en_passant_square {
        Some(sq) => sq < 64,
        None => true,
    }
}

/// What the in-place update itself needs of a move: squares on the
/// board, one castling side at most, a capture target where the flag
/// claims one, and an en-passant target square with room for the
/// captured pawn's square.
pub open spec fn make_exec_ok(pos: Position, m: Move) -> bool {
    let h = hostile_set(pos);
    &&& m.from < 64
    &&& m.to < 64
    &&& !(m.kingside_castling && m.queenside_castling)
    &&& (!(m.kingside_castling || m.queenside_castling) ==> {
        &&& (m.capture && !m.en_passant ==> get_bit(h.all, m.to as u64))
        &&& (m.en_passant ==> if pos.player_to_move is White {
            m.to >= 8
        } else {
            m.to < 56
        })
    })
}

/// A move the position fully supports also meets the update's own
/// needs.
pub proof fn lemma_move_ok_exec(pos: Position, m: Move)
    requires
        move_ok(pos, m),
    ensures
        make_exec_ok(pos, m),
{
}

/// The undo record `make_move` leaves behind: the move, the captured
/// piece if any, and the pre-move snapshot fields.
pub open spec fn spec_undo(pos: Position, m: Move, clock: nat) -> UndoData {
    UndoData {
        move_to_undo: m,
        captured_piece: if m.kingside_castling || m.queenside_castling {
            None
        } else if m.en_passant {
            None
        } else if m.capture {
            hostile_set(pos).spec_what(m.to)
        } else {
            None
        },
        castling: pos.castling,
        en_passant_square: pos.en_passant_square,
        halfmove_clock: clock as usize,
        zobrist_hash: pos.zobrist_hash,
    }
}

/// Apply `m` to the position in place, advance the clock, and return
/// what is needed to revert the step.
pub fn make_move(pos: &mut Position, m: &Move, halfmove_clock: &mut usize) -> (undo: UndoData)
    requires
        pos_unions_ok(*old(pos)),
        make_exec_ok(*old(pos), *m),
        *old(halfmove_clock) < 1_000_000_000,
    ensures
        *final(pos) == spec_make(*old(pos), *m),
        *final(halfmove_clock) == spec_new_clock(*m, *old(halfmove_clock) as nat),
        undo == spec_undo(*old(pos), *m, *old(halfmove_clock) as nat),
{
    let who_made_move = pos.player_to_move;

    let mut undo = UndoData {
        move_to_undo: *m,
        captured_piece: None,
        castling: pos.castling,
        en_passant_square: pos.en_passant_square,
        halfmove_clock: *halfmove_clock,
        zobrist_hash: pos.zobrist_hash,
    };

    update_en_passant_square(pos, m);

    if m.is_castling() {
        handle_castling(pos, m, who_made_move);
        *halfmove_clock = *halfmove_clock + 1;
    } else {
        update_castling_rights(&mut pos.castling, m, who_made_move);

        if matches!(m.piece, Piece::Pawn) || m.capture {
            *halfmove_clock = 0;
        } else {
            *halfmove_clock = *halfmove_clock + 1;
        }

        let mut hash: u64 = pos.zobrist_hash;
        let mut castling = pos.castling;

        let (friendly, hostile) = pos.perspective_mut(who_made_move);

        match m.promotion {
            Some(promotion_piece) => {
                handle_promotion(friendly, m, &mut hash, who_made_move, promotion_piece);
            },
            None => {
                handle_non_promotion_move(friendly, m, &mut hash, who_made_move);
            },
        }

        if m.en_passant {
            handle_en_passant(hostile, m, &mut hash, who_made_move);
        } else if m.capture {
            let captured = hostile.what(m.to);
            proof {
                crate::bitboard::lemma_what_some(hostile_set(*old(pos)), m.to);
            }
            undo.captured_piece = captured;
            handle_capture(hostile, m, &mut hash, &mut castling, who_made_move,
                captured.unwrap());
        }

        pos.castling = castling;
        pos.zobrist_hash = hash;
    }

    update_castling_hash(pos, undo.castling);
    finalize_move(pos);

    proof {
        let target = spec_make(*old(pos), *m);
        let h0 = old(pos).zobrist_hash;
        let eo = ep_hash(old(pos).en_passant_square);
        let en = ep_hash(spec_new_ep(*m));
        let co = castling_key(old(pos).castling.spec_encode());
        let cn = castling_key(spec_new_castling(*old(pos), *m).spec_encode());
        let s = side_key();
        let mover = old(pos).player_to_move;
        assert(pos.castling == target.castling);
        assert(pos.en_passant_square == target.en_passant_square);
        assert(pos.player_to_move == target.player_to_move);
        assert(pos.w == target.w);
        assert(pos.b == target.b);
        assert(pos.occupied == target.occupied);
        if m.kingside_castling || m.queenside_castling {
            let k1 = piece_key(Piece::King, mover, m.from as u64);
            let k2 = piece_key(Piece::King, mover, m.to as u64);
            let k3 = piece_key(Piece::Rook, mover, spec_castle_rook_from(mover, *m) as u64);
            let k4 = piece_key(Piece::Rook, mover, spec_castle_rook_to(mover, *m) as u64);
            lemma_shuffle_castle_hash(h0, eo, en, k1, k2, k3, k4, co, cn, s);
        } else {
            let p1 = if m.promotion is Some {
                piece_key(Piece::Pawn, mover, m.from as u64)
            } else {
                piece_key(m.piece, mover, m.from as u64)
            };
            let p2 = if m.promotion is Some {
                piece_key(m.promotion->Some_0, mover, m.to as u64)
            } else {
                piece_key(m.piece, mover, m.to as u64)
            };
            let ck = if m.en_passant {
                piece_key(
                    Piece::Pawn,
                    mover.spec_opposite(),
                    spec_ep_capture_square(mover, m.to) as u64,
                )
            } else if m.capture {
                match hostile_set(*old(pos)).spec_what(m.to) {
                    Some(cp) => piece_key(cp, mover.spec_opposite(), m.to as u64),
                    None => 0u64,
                }
            } else {
                0u64
            };
            if m.en_passant || m.capture {
                assert(pos.zobrist_hash == h0 ^ eo ^ en ^ p1 ^ p2 ^ ck ^ co ^ cn ^ s);
            } else {
                assert(pos.zobrist_hash == h0 ^ eo ^ en ^ p1 ^ p2 ^ co ^ cn ^ s);
            }
            lemma_shuffle_normal_hash(h0, eo, en, p1, p2, ck, co, cn, s);
            assert(target.zobrist_hash == h0 ^ (eo ^ en ^ co ^ cn ^ ((p1 ^ p2) ^ ck) ^ s));
        }
        assert(pos.zobrist_hash == target.zobrist_hash);
    }
    undo
}

/// How the castling branch's hash updates regroup into the move's
/// key delta.
proof fn lemma_shuffle_castle_hash(
    h: u64,
    eo: u64,
    en: u64,
    k1: u64,
    k2: u64,
    k3: u64,
    k4: u64,
    co: u64,
    cn: u64,
    s: u64,
)
    by (bit_vector)
    ensures
        h ^ eo ^ en ^ k1 ^ k2 ^ k3 ^ k4 ^ co ^ cn ^ s == h ^ (eo ^ en ^ co ^ cn ^ (k1 ^ k2 ^ k3
            ^ k4) ^ s),
{
}

/// How the plain branch's hash updates regroup into the move's key
/// delta, with and without a capture key.
proof fn lemma_shuffle_normal_hash(
    h: u64,
    eo: u64,
    en: u64,
    p1: u64,
    p2: u64,
    ck: u64,
    co: u64,
    cn: u64,
    s: u64,
)
    by (bit_vector)
    ensures
        h ^ eo ^ en ^ p1 ^ p2 ^ ck ^ co ^ cn ^ s == h ^ (eo ^ en ^ co ^ cn ^ ((p1 ^ p2) ^ ck)
            ^ s),
        ck == 0 ==> h ^ eo ^ en ^ p1 ^ p2 ^ co ^ cn ^ s == h ^ (eo ^ en ^ co ^ cn ^ ((p1 ^ p2)
            ^ ck) ^ s),
{
}

/// Both sides' boards stay well formed and mutually disjoint through
/// a supported move, and `occupied` stays their union: the first two
/// structural invariants of the position survive every make.
pub proof fn lemma_make_preserves_wf(pos: Position, m: Move)
    requires
        pos_wf(pos),
        move_ok(pos, m),
    ensures
        pos_wf(spec_make(pos, m)),
{
    let mover = pos.player_to_move;
    let f = friendly_set(pos);
    let h = hostile_set(pos);
    let fh = spec_apply_boards(pos, m);
    let f1 = fh.0;
    let h1 = fh.1;
    lemma_and_comm_or_comm();
    assert(f.all & h.all == 0);
    let mf = 1u64 << (m.from as u64);
    let mt = 1u64 << (m.to as u64);
    if m.kingside_castling || m.queenside_castling {
        let rf = spec_castle_rook_from(mover, m);
        let rt = spec_castle_rook_to(mover, m);
        let mrf = 1u64 << (rf as u64);
        let mrt = 1u64 << (rt as u64);
        crate::bits::lemma_or_bits(pos.w.all, pos.b.all, m.to as u64);
        crate::bits::lemma_or_bits(pos.w.all, pos.b.all, rt as u64);
        let s1 = with_piece_board(f, Piece::King, without_bit(f.king, m.from as u64));
        crate::bitboard::lemma_board_del_bit(f, Piece::King, m.from as u64);
        let s2 = with_piece_board(s1, Piece::King, with_bit(piece_board(s1, Piece::King), m.to as u64));
        crate::bits::lemma_get_without_bit(f.all, m.from as u64, m.to as u64);
        crate::bitboard::lemma_board_add_bit(s1, Piece::King, m.to as u64);
        let s3 = with_piece_board(s2, Piece::Rook, without_bit(f.rooks, rf as u64));
        crate::bitboard::lemma_board_del_bit(s2, Piece::Rook, rf as u64);
        let s4 = with_piece_board(s3, Piece::Rook, with_bit(piece_board(s3, Piece::Rook), rt as u64));
        crate::bits::lemma_get_without_bit(union_boards(s2), rf as u64, rt as u64);
        crate::bits::lemma_get_with_bit(union_boards(s1), m.to as u64, rt as u64);
        crate::bits::lemma_get_without_bit(f.all, m.from as u64, rt as u64);
        crate::bitboard::lemma_board_add_bit(s3, Piece::Rook, rt as u64);
        assert(f1 == s4);
        assert(crate::bitboard::boards_disjoint(f1));
        assert(union_boards(f1) == with_bit(
            without_bit(with_bit(without_bit(f.all, m.from as u64), m.to as u64), rf as u64),
            rt as u64,
        ));
        lemma_cross_two_in(f.all, h.all, mf, mt, mrf, mrt);
        assert(union_boards(f1) & union_boards(h1) == 0);
    } else {
        crate::bits::lemma_or_bits(pos.w.all, pos.b.all, m.to as u64);
        match m.promotion {
            Some(pp) => {
                let s1 = with_piece_board(f, Piece::Pawn, without_bit(f.pawns, m.from as u64));
                crate::bitboard::lemma_board_del_bit(f, Piece::Pawn, m.from as u64);
                crate::bits::lemma_get_without_bit(f.all, m.from as u64, m.to as u64);
                crate::bitboard::lemma_board_add_bit(s1, pp, m.to as u64);
                assert(f1 == with_piece_board(s1, pp, with_bit(piece_board(s1, pp), m.to as u64)));
            },
            None => {
                let s1 = with_piece_board(
                    f,
                    m.piece,
                    without_bit(piece_board(f, m.piece), m.from as u64),
                );
                crate::bitboard::lemma_board_del_bit(f, m.piece, m.from as u64);
                crate::bits::lemma_get_without_bit(f.all, m.from as u64, m.to as u64);
                crate::bitboard::lemma_board_add_bit(s1, m.piece, m.to as u64);
                assert(f1 == with_piece_board(
                    s1,
                    m.piece,
                    with_bit(piece_board(s1, m.piece), m.to as u64),
                ));
            },
        }
        assert(crate::bitboard::boards_disjoint(f1));
        assert(union_boards(f1) == with_bit(without_bit(f.all, m.from as u64), m.to as u64));
        if m.en_passant {
            let cap = spec_ep_capture_square(mover, m.to);
            let mc = 1u64 << (cap as u64);
            crate::bitboard::lemma_board_del_bit(h, Piece::Pawn, cap as u64);
            assert(crate::bitboard::boards_disjoint(h1));
            assert(union_boards(h1) == without_bit(h.all, cap as u64));
            lemma_cross_moved(f.all, h.all, mf, mt, mc);
        } else if m.capture {
            crate::bitboard::lemma_clear_square_wf(h, m.to);
            assert(h1 == crate::bitboard::spec_clear_square(h, m.to));
            assert(crate::bitboard::boards_disjoint(h1));
            assert(union_boards(h1) == without_bit(h.all, m.to as u64));
            lemma_cross_moved(f.all, h.all, mf, mt, mt);
        } else {
            assert(h1 == h);
            lemma_cross_moved(f.all, h.all, mf, mt, 0u64);
        }
        assert(union_boards(f1) & union_boards(h1) == 0);
    }
    lemma_and_comm_or_comm();
}

/// Conjunction and disjunction of boards commute.
proof fn lemma_and_comm_or_comm()
    by (bit_vector)
    ensures
        forall|x: u64, y: u64| #[trigger] (x & y) == y & x,
{
}

/// A side that lost one square and gained one stays clear of the
/// other side, whether the other side kept its squares, lost the
/// entered one, or lost another.
proof fn lemma_cross_moved(a: u64, b: u64, mf: u64, mt: u64, mc: u64)
    by (bit_vector)
    requires
        a & b == 0,
    ensures
        mt & b == 0 ==> (((a & !mf) | mt) & b) == 0,
        (((a & !mf) | mt) & (b & !mt)) == 0,
        mt & b == 0 ==> (((a & !mf) | mt) & (b & !mc)) == 0,
{
}

/// A side that moved two pieces onto free squares stays clear of the
/// unchanged other side.
proof fn lemma_cross_two_in(a: u64, b: u64, mf: u64, mt: u64, mrf: u64, mrt: u64)
    by (bit_vector)
    requires
        a & b == 0,
        mt & b == 0,
        mrt & b == 0,
    ensures
        (((((a & !mf) | mt) & !mrf) | mrt) & b) == 0,
{
}

/// Drop the old en-passant file key from the hash, set the new
/// en-passant square, and add its file key if a double push made one.
fn update_en_passant_square(new: &mut Position, m: &Move)
    requires
        m.from < 64,
        m.to < 64,
        match old(new).en_passant_square {
            Some(sq) => sq < 64,
            None => true,
        },
    ensures
        *final(new) == (Position {
            en_passant_square: spec_new_ep(*m),
            zobrist_hash: old(new).zobrist_hash ^ ep_hash(old(new).en_passant_square) ^ ep_hash(
                spec_new_ep(*m),
            ),
            ..*old(new)
        }),
{
    proof {
        crate::bits::lemma_xor_laws();
    }
    match new.en_passant_square {
        Some(prev_ep_sq) => {
            new.zobrist_hash = new.zobrist_hash ^ zobrist_en_passant_file_key(prev_ep_sq % 8);
        },
        None => {},
    }

    if m.double_push {
        let new_ep_sq: u8 = (m.from + m.to) / 2;
        new.zobrist_hash = new.zobrist_hash ^ zobrist_en_passant_file_key(new_ep_sq % 8);
        new.en_passant_square = Some(new_ep_sq);
    } else {
        new.en_passant_square = None;
    }
}

/// Move the king and the rook, toggle their four keys, and withdraw
/// the mover's rights.
fn handle_castling(new: &mut Position, m: &Move, who_made_move: Player)
    requires
        m.from < 64,
        m.to < 64,
        m.kingside_castling || m.queenside_castling,
        who_made_move == old(new).player_to_move,
    ensures
        *final(new) == (Position {
            w: if who_made_move is White {
                castled_boards(old(new).w, who_made_move, *m)
            } else {
                old(new).w
            },
            b: if who_made_move is Black {
                castled_boards(old(new).b, who_made_move, *m)
            } else {
                old(new).b
            },
            castling: old(new).castling.spec_reset(who_made_move),
            zobrist_hash: old(new).zobrist_hash ^ piece_key(
                Piece::King,
                who_made_move,
                m.from as u64,
            ) ^ piece_key(Piece::King, who_made_move, m.to as u64) ^ piece_key(
                Piece::Rook,
                who_made_move,
                spec_castle_rook_from(who_made_move, *m) as u64,
            ) ^ piece_key(
                Piece::Rook,
                who_made_move,
                spec_castle_rook_to(who_made_move, *m) as u64,
            ),
            ..*old(new)
        }),
{
    let (rook_from, rook_to): (u8, u8) = match (who_made_move, m.kingside_castling) {
        (Player::White, true) => (board::H1, board::F1),
        (Player::White, false) => (board::A1, board::D1),
        (Player::Black, true) => (board::H8, board::F8),
        (Player::Black, false) => (board::A8, board::D8),
    };
    let friendly = match who_made_move {
        Player::White => &mut new.w,
        Player::Black => &mut new.b,
    };

    friendly.king = friendly.king.unset_bit(m.from).set_bit(m.to);
    friendly.rooks = friendly.rooks.unset_bit(rook_from).set_bit(rook_to);

    new.zobrist_hash = new.zobrist_hash ^ zobrist_piece_key(Piece::King, who_made_move, m.from);
    new.zobrist_hash = new.zobrist_hash ^ zobrist_piece_key(Piece::King, who_made_move, m.to);
    new.zobrist_hash = new.zobrist_hash ^ zobrist_piece_key(Piece::Rook, who_made_move, rook_from);
    new.zobrist_hash = new.zobrist_hash ^ zobrist_piece_key(Piece::Rook, who_made_move, rook_to);

    new.castling.reset(who_made_move);
}

/// A side's boards after its king and rook walked their castling
/// squares.
pub open spec fn castled_boards(f: BitboardSet, player: Player, m: Move) -> BitboardSet {
    BitboardSet {
        king: with_bit(without_bit(f.king, m.from as u64), m.to as u64),
        rooks: with_bit(
            without_bit(f.rooks, spec_castle_rook_from(player, m) as u64),
            spec_castle_rook_to(player, m) as u64,
        ),
        ..f
    }
}

/// Withdraw the rights a king or corner-rook move gives up.
fn update_castling_rights(castling: &mut CastlingRights, m: &Move, who_made_move: Player)
    ensures
        *final(castling) == if m.piece is King {
            old(castling).spec_reset(who_made_move)
        } else if m.piece is Rook && old(castling).spec_any(who_made_move) {
            if m.from == board::A1 || m.from == board::A8 {
                old(castling).spec_reset_side(who_made_move, CastlingSide::QueenSide)
            } else if m.from == board::H1 || m.from == board::H8 {
                old(castling).spec_reset_side(who_made_move, CastlingSide::KingSide)
            } else {
                *old(castling)
            }
        } else {
            *old(castling)
        },
{
    match m.piece {
        Piece::King => castling.reset(who_made_move),
        Piece::Rook => {
            if castling.any(who_made_move) {
                if m.from == board::A1 || m.from == board::A8 {
                    castling.reset_side(who_made_move, CastlingSide::QueenSide);
                } else if m.from == board::H1 || m.from == board::H8 {
                    castling.reset_side(who_made_move, CastlingSide::KingSide);
                }
            }
        },
        _ => {},
    }
}

/// Replace the pawn on the source square by the promoted piece on the
/// target square, toggling both keys.
fn handle_promotion(
    friendly: &mut BitboardSet,
    m: &Move,
    hash: &mut u64,
    who_made_move: Player,
    promotion_piece: Piece,
)
    requires
        m.from < 64,
        m.to < 64,
    ensures
        *final(friendly) == with_piece_board(
            (BitboardSet { pawns: without_bit(old(friendly).pawns, m.from as u64), ..*old(friendly) }),
            promotion_piece,
            with_bit(
                piece_board(
                    (BitboardSet {
                        pawns: without_bit(old(friendly).pawns, m.from as u64),
                        ..*old(friendly)
                    }),
                    promotion_piece,
                ),
                m.to as u64,
            ),
        ),
        *final(hash) == *old(hash) ^ piece_key(Piece::Pawn, who_made_move, m.from as u64)
            ^ piece_key(promotion_piece, who_made_move, m.to as u64),
{
    friendly.pawns = friendly.pawns.unset_bit(m.from);
    let bb = friendly.piece_to_bb_mut(promotion_piece);
    *bb = bb.set_bit(m.to);
    *hash = *hash ^ zobrist_piece_key(Piece::Pawn, who_made_move, m.from);
    *hash = *hash ^ zobrist_piece_key(promotion_piece, who_made_move, m.to);
}

/// Walk the moved piece from its source to its target square,
/// toggling both keys.
fn handle_non_promotion_move(
    friendly: &mut BitboardSet,
    m: &Move,
    hash: &mut u64,
    who_made_move: Player,
)
    requires
        m.from < 64,
        m.to < 64,
    ensures
        *final(friendly) == with_piece_board(
            *old(friendly),
            m.piece,
            with_bit(without_bit(piece_board(*old(friendly), m.piece), m.from as u64), m.to as u64),
        ),
        *final(hash) == *old(hash) ^ piece_key(m.piece, who_made_move, m.from as u64) ^ piece_key(
            m.piece,
            who_made_move,
            m.to as u64,
        ),
{
    let bb = friendly.piece_to_bb_mut(m.piece);
    *bb = bb.unset_bit(m.from).set_bit(m.to);
    *hash = *hash ^ zobrist_piece_key(m.piece, who_made_move, m.from);
    *hash = *hash ^ zobrist_piece_key(m.piece, who_made_move, m.to);
}

/// Remove the pawn an en-passant capture takes, toggling its key.
fn handle_en_passant(hostile: &mut BitboardSet, m: &Move, hash: &mut u64, who_made_move: Player)
    requires
        m.to < 64,
        who_made_move is White ==> m.to >= 8,
        who_made_move is Black ==> m.to < 56,
    ensures
        *final(hostile) == (BitboardSet {
            pawns: without_bit(
                old(hostile).pawns,
                spec_ep_capture_square(who_made_move, m.to) as u64,
            ),
            ..*old(hostile)
        }),
        *final(hash) == *old(hash) ^ piece_key(
            Piece::Pawn,
            who_made_move.spec_opposite(),
            spec_ep_capture_square(who_made_move, m.to) as u64,
        ),
{
    let captured_pawn_sq: u8 = match who_made_move {
        Player::White => m.to - 8,
        Player::Black => m.to + 8,
    };
    hostile.pawns = hostile.pawns.unset_bit(captured_pawn_sq);
    *hash = *hash ^ zobrist_piece_key(Piece::Pawn, who_made_move.opposite(), captured_pawn_sq);
}

/// Take the captured piece off the board, toggle its key, and
/// withdraw a right if a corner rook square was captured.
fn handle_capture(
    hostile: &mut BitboardSet,
    m: &Move,
    hash: &mut u64,
    castling: &mut CastlingRights,
    who_made_move: Player,
    captured_piece: Piece,
)
    requires
        m.to < 64,
    ensures
        *final(hostile) == spec_clear_square(*old(hostile), m.to),
        *final(hash) == *old(hash) ^ piece_key(
            captured_piece,
            who_made_move.spec_opposite(),
            m.to as u64,
        ),
        *final(castling) == if m.to == board::A1 {
            old(castling).spec_reset_side(Player::White, CastlingSide::QueenSide)
        } else if m.to == board::H1 {
            old(castling).spec_reset_side(Player::White, CastlingSide::KingSide)
        } else if m.to == board::A8 {
            old(castling).spec_reset_side(Player::Black, CastlingSide::QueenSide)
        } else if m.to == board::H8 {
            old(castling).spec_reset_side(Player::Black, CastlingSide::KingSide)
        } else {
            *old(castling)
        },
{
    hostile.unset_bit(m.to);
    *hash = *hash ^ zobrist_piece_key(captured_piece, who_made_move.opposite(), m.to);

    if m.to == board::A1 {
        castling.reset_side(Player::White, CastlingSide::QueenSide);
    } else if m.to == board::H1 {
        castling.reset_side(Player::White, CastlingSide::KingSide);
    } else if m.to == board::A8 {
        castling.reset_side(Player::Black, CastlingSide::QueenSide);
    } else if m.to == board::H8 {
        castling.reset_side(Player::Black, CastlingSide::KingSide);
    }
}

/// Swap the old castling mask's key for the new one.
fn update_castling_hash(new: &mut Position, old_castling: CastlingRights)
    ensures
        *final(new) == (Position {
            zobrist_hash: old(new).zobrist_hash ^ castling_key(old_castling.spec_encode())
                ^ castling_key(old(new).castling.spec_encode()),
            ..*old(new)
        }),
{
    new.zobrist_hash = new.zobrist_hash ^ zobrist_castling_key(old_castling.encode());
    new.zobrist_hash = new.zobrist_hash ^ zobrist_castling_key(new.castling.encode());
}

/// Recompute the unions, hand the move to the other side, and toggle
/// the side key.
fn finalize_move(new: &mut Position)
    ensures
        *final(new) == (Position {
            w: (BitboardSet { all: union_boards(old(new).w), ..old(new).w }),
            b: (BitboardSet { all: union_boards(old(new).b), ..old(new).b }),
            occupied: union_boards(old(new).w) | union_boards(old(new).b),
            player_to_move: old(new).player_to_move.spec_opposite(),
            zobrist_hash: old(new).zobrist_hash ^ side_key(),
            ..*old(new)
        }),
{
    new.update();
    new.player_to_move = new.player_to_move.opposite();
    new.zobrist_hash = new.zobrist_hash ^ zobrist_side_black_key();
}

} // verus!
