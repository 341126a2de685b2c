//! The make/unmake round-trip law: reverting a made move restores
//! the position bit for bit.

use vstd::prelude::*;

use crate::bitboard::{
    lemma_other_boards_absent, lemma_subboard_absent, lemma_what_characterises, piece_board,
    set_wf, spec_clear_square, spec_place_piece, union_boards, with_piece_board, BitboardSet,
};

use crate::bits::{
    get_bit, lemma_clear_absent, lemma_get_with_bit, lemma_get_without_bit, lemma_or_bits,
    lemma_restore_present, lemma_undo_add, with_bit, without_bit,
};
use crate::chess_move::Move;
use crate::make::{move_ok, spec_apply_boards, spec_make, spec_undo};
use crate::piece::Piece;
use crate::player::Player;
use crate::position::{friendly_set, hostile_set, pos_wf, Position};
use crate::unmake::{spec_castle_rook_from, spec_castle_rook_to, spec_ep_capture_square, spec_unmake};

verus! {

/// The six piece boards of the two sides agree.
pub open spec fn same_piece_boards(a: BitboardSet, b: BitboardSet) -> bool {
    &&& a.pawns == b.pawns
    &&& a.knights == b.knights
    &&& a.bishops == b.bishops
    &&& a.rooks == b.rooks
    &&& a.queens == b.queens
    &&& a.king == b.king
}

/// Taking the moved piece back from its target to its source square
/// restores the side's boards.
proof fn lemma_restore_moved(f: BitboardSet, p: Piece, from: u8, to: u8, ms: BitboardSet)
    requires
        set_wf(f),
        from < 64,
        to < 64,
        get_bit(piece_board(f, p), from as u64),
        !get_bit(f.all, to as u64),
        same_piece_boards(
            ms,
            with_piece_board(
                f,
                p,
                with_bit(without_bit(piece_board(f, p), from as u64), to as u64),
            ),
        ),
    ensures
        same_piece_boards(spec_place_piece(spec_clear_square(ms, to), from, p), f),
{
    let bb = piece_board(f, p);
    lemma_subboard_absent(f, to as u64);
    lemma_get_without_bit(bb, from as u64, to as u64);
    lemma_undo_add(without_bit(bb, from as u64), to as u64);
    lemma_restore_present(bb, from as u64);
    lemma_clear_absent(f.pawns, to as u64);
    lemma_clear_absent(f.knights, to as u64);
    lemma_clear_absent(f.bishops, to as u64);
    lemma_clear_absent(f.rooks, to as u64);
    lemma_clear_absent(f.queens, to as u64);
    lemma_clear_absent(f.king, to as u64);
}

/// Taking a promoted piece off and putting the pawn back restores the
/// side's boards.
proof fn lemma_restore_promoted(f: BitboardSet, pp: Piece, from: u8, to: u8, ms: BitboardSet)
    requires
        set_wf(f),
        from < 64,
        to < 64,
        !(pp is Pawn),
        get_bit(f.pawns, from as u64),
        !get_bit(f.all, to as u64),
        same_piece_boards(
            ms,
            ({
                let cleared = BitboardSet { pawns: without_bit(f.pawns, from as u64), ..f };
                with_piece_board(cleared, pp, with_bit(piece_board(cleared, pp), to as u64))
            }),
        ),
    ensures
        same_piece_boards(spec_place_piece(spec_clear_square(ms, to), from, Piece::Pawn), f),
{
    lemma_subboard_absent(f, to as u64);
    lemma_get_without_bit(f.pawns, from as u64, to as u64);
    lemma_clear_absent(without_bit(f.pawns, from as u64), to as u64);
    lemma_undo_add(piece_board(f, pp), to as u64);
    lemma_restore_present(f.pawns, from as u64);
    lemma_clear_absent(f.knights, to as u64);
    lemma_clear_absent(f.bishops, to as u64);
    lemma_clear_absent(f.rooks, to as u64);
    lemma_clear_absent(f.queens, to as u64);
    lemma_clear_absent(f.king, to as u64);
}

/// Walking the king and the rook home restores the side's boards.
proof fn lemma_restore_castled(f: BitboardSet, from: u8, to: u8, rf: u8, rt: u8, ms: BitboardSet)
    requires
        set_wf(f),
        from < 64,
        to < 64,
        rf < 64,
        rt < 64,
        to != rt,
        to != rf,
        rt != rf,
        rt != from,
        get_bit(f.king, from as u64),
        get_bit(f.rooks, rf as u64),
        !get_bit(f.all, to as u64),
        !get_bit(f.all, rt as u64),
        same_piece_boards(
            ms,
            (BitboardSet {
                king: with_bit(without_bit(f.king, from as u64), to as u64),
                rooks: with_bit(without_bit(f.rooks, rf as u64), rt as u64),
                ..f
            }),
        ),
    ensures
        same_piece_boards(
            spec_place_piece(
                spec_clear_square(
                    spec_place_piece(spec_clear_square(ms, to), from, Piece::King),
                    rt,
                ),
                rf,
                Piece::Rook,
            ),
            f,
        ),
{
    lemma_subboard_absent(f, to as u64);
    lemma_subboard_absent(f, rt as u64);
    lemma_get_without_bit(f.king, from as u64, to as u64);
    lemma_undo_add(without_bit(f.king, from as u64), to as u64);
    lemma_restore_present(f.king, from as u64);
    lemma_clear_absent(f.king, rt as u64);
    lemma_get_without_bit(f.rooks, rf as u64, to as u64);
    lemma_get_with_bit(without_bit(f.rooks, rf as u64), rt as u64, to as u64);
    lemma_clear_absent(with_bit(without_bit(f.rooks, rf as u64), rt as u64), to as u64);
    lemma_get_without_bit(f.rooks, rf as u64, rt as u64);
    lemma_undo_add(without_bit(f.rooks, rf as u64), rt as u64);
    lemma_restore_present(f.rooks, rf as u64);
    lemma_clear_absent(f.pawns, to as u64);
    lemma_clear_absent(f.pawns, rt as u64);
    lemma_clear_absent(f.knights, to as u64);
    lemma_clear_absent(f.knights, rt as u64);
    lemma_clear_absent(f.bishops, to as u64);
    lemma_clear_absent(f.bishops, rt as u64);
    lemma_clear_absent(f.queens, to as u64);
    lemma_clear_absent(f.queens, rt as u64);
}

/// Putting the captured piece back on its square restores the waiting
/// side's boards.
proof fn lemma_restore_captured(h: BitboardSet, cp: Piece, to: u8, hs: BitboardSet)
    requires
        set_wf(h),
        to < 64,
        get_bit(piece_board(h, cp), to as u64),
        same_piece_boards(hs, spec_clear_square(h, to)),
    ensures
        same_piece_boards(spec_place_piece(hs, to, cp), h),
{
    lemma_other_boards_absent(h, cp, to as u64);
    lemma_restore_present(piece_board(h, cp), to as u64);
    if !(cp is Pawn) {
        assert(!get_bit(piece_board(h, Piece::Pawn), to as u64));
        lemma_clear_absent(h.pawns, to as u64);
    }
    if !(cp is Knight) {
        assert(!get_bit(piece_board(h, Piece::Knight), to as u64));
        lemma_clear_absent(h.knights, to as u64);
    }
    if !(cp is Bishop) {
        assert(!get_bit(piece_board(h, Piece::Bishop), to as u64));
        lemma_clear_absent(h.bishops, to as u64);
    }
    if !(cp is Rook) {
        assert(!get_bit(piece_board(h, Piece::Rook), to as u64));
        lemma_clear_absent(h.rooks, to as u64);
    }
    if !(cp is Queen) {
        assert(!get_bit(piece_board(h, Piece::Queen), to as u64));
        lemma_clear_absent(h.queens, to as u64);
    }
    if !(cp is King) {
        assert(!get_bit(piece_board(h, Piece::King), to as u64));
        lemma_clear_absent(h.king, to as u64);
    }
}

/// Putting the en-passant pawn back restores the waiting side's
/// boards.
proof fn lemma_restore_ep_pawn(h: BitboardSet, cap: u8, hs: BitboardSet)
    requires
        cap < 64,
        get_bit(h.pawns, cap as u64),
        same_piece_boards(hs, (BitboardSet { pawns: without_bit(h.pawns, cap as u64), ..h })),
    ensures
        same_piece_boards(spec_place_piece(hs, cap, Piece::Pawn), h),
{
    lemma_restore_present(h.pawns, cap as u64);
}

/// Unmaking a just-made supported move restores the position: every
/// board, the castling rights, the en-passant square, the side to
/// move, and the hash come back bit for bit, and the clock returns
/// from the undo record.
#[verifier::rlimit(100)]
pub proof fn lemma_unmake_reverses_make(pos: Position, m: Move, clock: nat)
    requires
        pos_wf(pos),
        move_ok(pos, m),
    ensures
        spec_unmake(spec_make(pos, m), spec_undo(pos, m, clock)) == pos,
{
    let mover = pos.player_to_move;
    let f = friendly_set(pos);
    let h = hostile_set(pos);
    let fh = spec_apply_boards(pos, m);
    let f1 = fh.0;
    let h1 = fh.1;
    let p2 = spec_make(pos, m);
    let u = spec_undo(pos, m, clock);
    let back = spec_unmake(p2, u);

    assert(p2.player_to_move.spec_opposite() == mover);

    let fsrc = if mover is White {
        p2.w
    } else {
        p2.b
    };
    let hsrc = if mover is White {
        p2.b
    } else {
        p2.w
    };
    assert(same_piece_boards(fsrc, f1));
    assert(same_piece_boards(hsrc, h1));

    let fr = if m.kingside_castling || m.queenside_castling {
        spec_place_piece(
            spec_clear_square(
                spec_place_piece(spec_clear_square(fsrc, m.to), m.from, Piece::King),
                spec_castle_rook_to(mover, m),
            ),
            spec_castle_rook_from(mover, m),
            Piece::Rook,
        )
    } else if m.promotion is Some {
        spec_place_piece(spec_clear_square(fsrc, m.to), m.from, Piece::Pawn)
    } else {
        spec_place_piece(spec_clear_square(fsrc, m.to), m.from, m.piece)
    };
    let hr = if m.kingside_castling || m.queenside_castling {
        hsrc
    } else if m.en_passant {
        spec_place_piece(hsrc, spec_ep_capture_square(mover, m.to), Piece::Pawn)
    } else if m.capture {
        spec_place_piece(hsrc, m.to, u.captured_piece->Some_0)
    } else {
        hsrc
    };

    if m.kingside_castling || m.queenside_castling {
        let rf = spec_castle_rook_from(mover, m);
        let rt = spec_castle_rook_to(mover, m);
        lemma_or_bits(pos.w.all, pos.b.all, m.to as u64);
        lemma_or_bits(pos.w.all, pos.b.all, rt as u64);
        lemma_restore_castled(f, m.from, m.to, rf, rt, fsrc);
        assert(same_piece_boards(fr, f));
        assert(same_piece_boards(hr, h));
    } else {
        match m.promotion {
            Some(pp) => {
                lemma_restore_promoted(f, pp, m.from, m.to, fsrc);
            },
            None => {
                lemma_restore_moved(f, m.piece, m.from, m.to, fsrc);
            },
        }
        assert(same_piece_boards(fr, f));
        if m.en_passant {
            let cap = spec_ep_capture_square(mover, m.to);
            lemma_restore_ep_pawn(h, cap, hsrc);
        } else if m.capture {
            let cp = h.spec_what(m.to)->Some_0;
            crate::bitboard::lemma_what_some(h, m.to);
            lemma_what_characterises(h, m.to, cp);
            lemma_restore_captured(h, cp, m.to, hsrc);
        }
        assert(same_piece_boards(hr, h));
    }

    let wr = if mover is White {
        fr
    } else {
        hr
    };
    let br = if mover is White {
        hr
    } else {
        fr
    };
    assert(same_piece_boards(wr, pos.w));
    assert(same_piece_boards(br, pos.b));
    assert(union_boards(wr) == pos.w.all);
    assert(union_boards(br) == pos.b.all);
    assert(back.w == pos.w);
    assert(back.b == pos.b);
    assert(back == pos);
}

/// The white-side member of a friendly/hostile pair.
pub open spec fn side_pair_w(f: BitboardSet, h: BitboardSet, mover: Player) -> BitboardSet {
    if mover is White {
        f
    } else {
        h
    }
}

/// The black-side member of a friendly/hostile pair.
pub open spec fn side_pair_b(f: BitboardSet, h: BitboardSet, mover: Player) -> BitboardSet {
    if mover is White {
        h
    } else {
        f
    }
}

/// Clearing a present bit is an xor; adding an absent one as well.
proof fn lemma_bit_ops_as_xor(bb: u64, n: u64)
    by (bit_vector)
    requires
        n < 64,
    ensures
        get_bit(bb, n) ==> without_bit(bb, n) == bb ^ (1u64 << n),
        !get_bit(bb, n) ==> with_bit(bb, n) == bb ^ (1u64 << n),
{
}

/// Replacing the mover's board of kind `p` by its bit-flipped value
/// flips exactly that board of the pair.
proof fn lemma_friendly_flip(f: BitboardSet, h: BitboardSet, mover: Player, p: Piece, sq: u64, f2: BitboardSet)
    requires
        sq < 64,
        f2 == crate::bitboard::with_piece_board(f, p, piece_board(f, p) ^ (1u64 << sq)),
    ensures
        crate::zobrist::boards_flip_except(
            side_pair_w(f, h, mover),
            side_pair_b(f, h, mover),
            side_pair_w(f2, h, mover),
            side_pair_b(f2, h, mover),
            p,
            mover,
            sq,
        ),
{
    let w1 = side_pair_w(f, h, mover);
    let b1 = side_pair_b(f, h, mover);
    let w2 = side_pair_w(f2, h, mover);
    let b2 = side_pair_b(f2, h, mover);
    assert forall|pc: Piece, pl2: Player|
        !(pc == p && pl2 == mover) implies #[trigger] crate::zobrist::side_board(w2, b2, pl2, pc)
        == crate::zobrist::side_board(w1, b1, pl2, pc) by {
        if pl2 == mover {
            assert(piece_board(f2, pc) == piece_board(f, pc));
        }
    }
    assert(crate::zobrist::side_board(w2, b2, mover, p) == piece_board(f2, p));
}

/// Clearing the captured square from the waiting side flips exactly
/// the captured piece's board of the pair.
proof fn lemma_hostile_clear_flip(f: BitboardSet, h: BitboardSet, mover: Player, cp: Piece, to: u8)
    requires
        set_wf(h),
        to < 64,
        get_bit(piece_board(h, cp), to as u64),
    ensures
        crate::zobrist::boards_flip_except(
            side_pair_w(f, h, mover),
            side_pair_b(f, h, mover),
            side_pair_w(f, spec_clear_square(h, to), mover),
            side_pair_b(f, spec_clear_square(h, to), mover),
            cp,
            mover.spec_opposite(),
            to as u64,
        ),
{
    let h2 = spec_clear_square(h, to);
    let opp = mover.spec_opposite();
    let w1 = side_pair_w(f, h, mover);
    let b1 = side_pair_b(f, h, mover);
    let w2 = side_pair_w(f, h2, mover);
    let b2 = side_pair_b(f, h2, mover);
    lemma_other_boards_absent(h, cp, to as u64);
    lemma_bit_ops_as_xor(piece_board(h, cp), to as u64);
    assert forall|pc: Piece, pl2: Player|
        !(pc == cp && pl2 == opp) implies #[trigger] crate::zobrist::side_board(w2, b2, pl2, pc)
        == crate::zobrist::side_board(w1, b1, pl2, pc) by {
        if pl2 == opp {
            assert(piece_board(h2, pc) == without_bit(piece_board(h, pc), to as u64));
            assert(!get_bit(piece_board(h, pc), to as u64));
            lemma_clear_absent(piece_board(h, pc), to as u64);
        }
    }
    assert(crate::zobrist::side_board(w2, b2, opp, cp) == without_bit(
        piece_board(h, cp),
        to as u64,
    ));
}

/// Folding a chain of up to four toggled keys into one delta.
proof fn lemma_fold_keys(p0: u64, k1: u64, k2: u64, k3: u64, k4: u64)
    by (bit_vector)
    ensures
        (p0 ^ k1) ^ k2 == p0 ^ ((k1 ^ k2) ^ 0),
        ((p0 ^ k1) ^ k2) ^ k3 == p0 ^ ((k1 ^ k2) ^ k3),
        (((p0 ^ k1) ^ k2) ^ k3) ^ k4 == p0 ^ (((k1 ^ k2) ^ k3) ^ k4),
{
}

/// Assembling the incremental hash: the old hash with the move's key
/// delta equals the new position's hash from scratch.
proof fn lemma_hash_assembly(
    p0: u64,
    p2: u64,
    mk: u64,
    c0: u64,
    c2: u64,
    e0: u64,
    e2: u64,
    s0: u64,
    s2: u64,
    sk: u64,
)
    by (bit_vector)
    requires
        p2 == p0 ^ mk,
        (s0 == 0 && s2 == sk) || (s0 == sk && s2 == 0),
    ensures
        (p0 ^ c0 ^ e0 ^ s0) ^ (e0 ^ e2 ^ c0 ^ c2 ^ mk ^ sk) == p2 ^ c2 ^ e2 ^ s2,
{
}

/// An incrementally kept hash stays the from-scratch hash through
/// every supported move.
#[verifier::rlimit(100)]
#[verifier::spinoff_prover]
pub proof fn lemma_make_preserves_hash(pos: Position, m: Move)
    requires
        pos_wf(pos),
        move_ok(pos, m),
        crate::position::hash_ok(pos),
    ensures
        crate::position::hash_ok(spec_make(pos, m)),
{
    let mover = pos.player_to_move;
    let opp = mover.spec_opposite();
    let f = friendly_set(pos);
    let h = hostile_set(pos);
    let fh = spec_apply_boards(pos, m);
    let f1 = fh.0;
    let h1 = fh.1;
    let p2 = spec_make(pos, m);
    let mt = m.to as u64;
    let mf = m.from as u64;
    let p0 = crate::zobrist::pieces_hash(pos.w, pos.b);

    assert(pos.w == side_pair_w(f, h, mover));
    assert(pos.b == side_pair_b(f, h, mover));

    if m.kingside_castling || m.queenside_castling {
        let rf = spec_castle_rook_from(mover, m) as u64;
        let rt = spec_castle_rook_to(mover, m) as u64;
        let k1 = crate::zobrist::piece_key(Piece::King, mover, mf);
        let k2 = crate::zobrist::piece_key(Piece::King, mover, mt);
        let k3 = crate::zobrist::piece_key(Piece::Rook, mover, rf);
        let k4 = crate::zobrist::piece_key(Piece::Rook, mover, rt);
        lemma_or_bits(pos.w.all, pos.b.all, mt);
        lemma_or_bits(pos.w.all, pos.b.all, rt);
        lemma_subboard_absent(f, mt);
        lemma_subboard_absent(f, rt);
        let fa = crate::bitboard::with_piece_board(f, Piece::King, without_bit(f.king, mf));
        lemma_bit_ops_as_xor(f.king, mf);
        lemma_friendly_flip(f, h, mover, Piece::King, mf, fa);
        crate::zobrist::lemma_pieces_hash_flip(
            side_pair_w(f, h, mover),
            side_pair_b(f, h, mover),
            side_pair_w(fa, h, mover),
            side_pair_b(fa, h, mover),
            Piece::King,
            mover,
            mf,
        );
        let fb = crate::bitboard::with_piece_board(
            fa,
            Piece::King,
            with_bit(piece_board(fa, Piece::King), mt),
        );
        lemma_get_without_bit(f.king, mf, mt);
        lemma_bit_ops_as_xor(piece_board(fa, Piece::King), mt);
        lemma_friendly_flip(fa, h, mover, Piece::King, mt, fb);
        crate::zobrist::lemma_pieces_hash_flip(
            side_pair_w(fa, h, mover),
            side_pair_b(fa, h, mover),
            side_pair_w(fb, h, mover),
            side_pair_b(fb, h, mover),
            Piece::King,
            mover,
            mt,
        );
        let fc = crate::bitboard::with_piece_board(fb, Piece::Rook, without_bit(f.rooks, rf));
        lemma_bit_ops_as_xor(f.rooks, rf);
        lemma_friendly_flip(fb, h, mover, Piece::Rook, rf, fc);
        crate::zobrist::lemma_pieces_hash_flip(
            side_pair_w(fb, h, mover),
            side_pair_b(fb, h, mover),
            side_pair_w(fc, h, mover),
            side_pair_b(fc, h, mover),
            Piece::Rook,
            mover,
            rf,
        );
        let fd = crate::bitboard::with_piece_board(
            fc,
            Piece::Rook,
            with_bit(piece_board(fc, Piece::Rook), rt),
        );
        lemma_get_without_bit(f.rooks, rf, rt);
        lemma_bit_ops_as_xor(piece_board(fc, Piece::Rook), rt);
        lemma_friendly_flip(fc, h, mover, Piece::Rook, rt, fd);
        crate::zobrist::lemma_pieces_hash_flip(
            side_pair_w(fc, h, mover),
            side_pair_b(fc, h, mover),
            side_pair_w(fd, h, mover),
            side_pair_b(fd, h, mover),
            Piece::Rook,
            mover,
            rt,
        );
        assert(same_piece_boards(p2.w, side_pair_w(fd, h, mover)));
        assert(same_piece_boards(p2.b, side_pair_b(fd, h, mover)));
        crate::zobrist::lemma_pieces_hash_same(
            p2.w,
            p2.b,
            side_pair_w(fd, h, mover),
            side_pair_b(fd, h, mover),
        );
        lemma_fold_keys(p0, k1, k2, k3, k4);
        assert(crate::zobrist::pieces_hash(p2.w, p2.b) == p0
            ^ crate::make::spec_move_piece_keys(pos, m));
    } else {
        let kfrom = if m.promotion is Some {
            crate::zobrist::piece_key(Piece::Pawn, mover, mf)
        } else {
            crate::zobrist::piece_key(m.piece, mover, mf)
        };
        let kto = if m.promotion is Some {
            crate::zobrist::piece_key(m.promotion->Some_0, mover, mt)
        } else {
            crate::zobrist::piece_key(m.piece, mover, mt)
        };
        lemma_subboard_absent(f, mt);
        let moved_piece = if m.promotion is Some {
            Piece::Pawn
        } else {
            m.piece
        };
        let placed_piece = if m.promotion is Some {
            m.promotion->Some_0
        } else {
            m.piece
        };
        let fa = crate::bitboard::with_piece_board(
            f,
            moved_piece,
            without_bit(piece_board(f, moved_piece), mf),
        );
        lemma_bit_ops_as_xor(piece_board(f, moved_piece), mf);
        lemma_friendly_flip(f, h, mover, moved_piece, mf, fa);
        crate::zobrist::lemma_pieces_hash_flip(
            side_pair_w(f, h, mover),
            side_pair_b(f, h, mover),
            side_pair_w(fa, h, mover),
            side_pair_b(fa, h, mover),
            moved_piece,
            mover,
            mf,
        );
        let fb = crate::bitboard::with_piece_board(
            fa,
            placed_piece,
            with_bit(piece_board(fa, placed_piece), mt),
        );
        lemma_get_without_bit(piece_board(f, moved_piece), mf, mt);
        lemma_bit_ops_as_xor(piece_board(fa, placed_piece), mt);
        lemma_friendly_flip(fa, h, mover, placed_piece, mt, fb);
        crate::zobrist::lemma_pieces_hash_flip(
            side_pair_w(fa, h, mover),
            side_pair_b(fa, h, mover),
            side_pair_w(fb, h, mover),
            side_pair_b(fb, h, mover),
            placed_piece,
            mover,
            mt,
        );
        assert(same_piece_boards(f1, fb));
        if m.en_passant {
            let cap = spec_ep_capture_square(mover, m.to);
            let kcap = crate::zobrist::piece_key(Piece::Pawn, opp, cap as u64);
            let hb = crate::bitboard::with_piece_board(
                h,
                Piece::Pawn,
                without_bit(h.pawns, cap as u64),
            );
            lemma_bit_ops_as_xor(h.pawns, cap as u64);
            lemma_friendly_flip(h, fb, opp, Piece::Pawn, cap as u64, hb);
            assert(side_pair_w(h, fb, opp) == side_pair_w(fb, h, mover));
            assert(side_pair_b(h, fb, opp) == side_pair_b(fb, h, mover));
            assert(side_pair_w(hb, fb, opp) == side_pair_w(fb, hb, mover));
            assert(side_pair_b(hb, fb, opp) == side_pair_b(fb, hb, mover));
            crate::zobrist::lemma_pieces_hash_flip(
                side_pair_w(fb, h, mover),
                side_pair_b(fb, h, mover),
                side_pair_w(fb, hb, mover),
                side_pair_b(fb, hb, mover),
                Piece::Pawn,
                opp,
                cap as u64,
            );
            assert(same_piece_boards(h1, hb));
            crate::zobrist::lemma_pieces_hash_same(
                p2.w,
                p2.b,
                side_pair_w(fb, hb, mover),
                side_pair_b(fb, hb, mover),
            );
            lemma_fold_keys(p0, kfrom, kto, kcap, 0);
        } else if m.capture {
            let cp = h.spec_what(m.to)->Some_0;
            crate::bitboard::lemma_what_some(h, m.to);
            lemma_what_characterises(h, m.to, cp);
            let kcap = crate::zobrist::piece_key(cp, opp, mt);
            lemma_hostile_clear_flip(fb, h, mover, cp, m.to);
            crate::zobrist::lemma_pieces_hash_flip(
                side_pair_w(fb, h, mover),
                side_pair_b(fb, h, mover),
                side_pair_w(fb, spec_clear_square(h, m.to), mover),
                side_pair_b(fb, spec_clear_square(h, m.to), mover),
                cp,
                opp,
                mt,
            );
            assert(same_piece_boards(h1, spec_clear_square(h, m.to)));
            crate::zobrist::lemma_pieces_hash_same(
                p2.w,
                p2.b,
                side_pair_w(fb, spec_clear_square(h, m.to), mover),
                side_pair_b(fb, spec_clear_square(h, m.to), mover),
            );
            lemma_fold_keys(p0, kfrom, kto, kcap, 0);
        } else {
            assert(same_piece_boards(h1, h));
            crate::zobrist::lemma_pieces_hash_same(
                p2.w,
                p2.b,
                side_pair_w(fb, h, mover),
                side_pair_b(fb, h, mover),
            );
            lemma_fold_keys(p0, kfrom, kto, 0, 0);
        }
        assert(crate::zobrist::pieces_hash(p2.w, p2.b) == p0
            ^ crate::make::spec_move_piece_keys(pos, m));
    }

    let s0 = crate::zobrist::side_hash(mover);
    let s2 = crate::zobrist::side_hash(opp);
    assert((s0 == 0 && s2 == crate::zobrist::side_key()) || (s0 == crate::zobrist::side_key()
        && s2 == 0));
    lemma_hash_assembly(
        p0,
        crate::zobrist::pieces_hash(p2.w, p2.b),
        crate::make::spec_move_piece_keys(pos, m),
        crate::zobrist::castling_key(pos.castling.spec_encode()),
        crate::zobrist::castling_key(crate::make::spec_new_castling(pos, m).spec_encode()),
        crate::zobrist::ep_hash(pos.en_passant_square),
        crate::zobrist::ep_hash(crate::make::spec_new_ep(m)),
        s0,
        s2,
        crate::zobrist::side_key(),
    );
}

} // verus!
