//! Zobrist hashing: per-feature 64-bit keys derived from a fixed
//! integer mixer, and the from-scratch hash of a position.
//!
//! The keys play the role of pre-computed random tables: every feature
//! (piece kind on a square for a side, castling mask, en-passant file,
//! Black to move) has one fixed key, and a position's hash is the
//! exclusive or of the keys of its features.

use vstd::prelude::*;

use crate::bitboard::BitboardSet;
use crate::bits::get_bit;
use crate::piece::Piece;
use crate::player::Player;
use crate::position::Position;

verus! {

pub type ZobristHash = u64;

/// Spec view of the 64-bit finalising mixer the keys come from.
#[verifier::opaque]
pub open spec fn spec_mix64(z: u64) -> u64 {
    let a = z ^ (z >> 30);
    let b = (((a as nat) * 0xBF58476D1CE4E5B9nat) % 0x1_0000_0000_0000_0000nat) as u64;
    let c = b ^ (b >> 27);
    let d = (((c as nat) * 0x94D049BB133111EBnat) % 0x1_0000_0000_0000_0000nat) as u64;
    d ^ (d >> 31)
}

/// The 64-bit finalising mixer: xor-shifts and odd-constant products
/// scramble the index into a well-spread key.
pub fn mix64(z: u64) -> (r: u64)
    ensures
        r == spec_mix64(z),
{
    proof {
        reveal(crate::zobrist::spec_mix64);
    }
    let a: u64 = z ^ (z >> 30);
    let b: u64 = a.wrapping_mul(0xBF58476D1CE4E5B9);
    let c: u64 = b ^ (b >> 27);
    let d: u64 = c.wrapping_mul(0x94D049BB133111EB);
    d ^ (d >> 31)
}

/// Key of a piece kind of one side standing on one square.
pub open spec fn piece_key(piece: Piece, player: Player, sq: u64) -> u64 {
    spec_mix64((1 + piece.spec_index() * 128 + player.spec_index() * 64 + sq) as u64)
}

/// Key of a four-bit castling-rights mask.
pub open spec fn castling_key(mask: u8) -> u64 {
    spec_mix64((769 + mask) as u64)
}

/// Key of an en-passant file.
pub open spec fn en_passant_file_key(file: u8) -> u64 {
    spec_mix64((785 + file) as u64)
}

/// Key of the side to move being Black.
pub open spec fn side_key() -> u64 {
    spec_mix64(793u64)
}

/// The key of a piece of one side on one square.
pub fn zobrist_piece_key(piece: Piece, player: Player, sq: u8) -> (r: u64)
    requires
        sq < 64,
    ensures
        r == piece_key(piece, player, sq as u64),
{
    let idx: u64 = 1 + (piece.index() as u64) * 128 + (player.index() as u64) * 64 + (sq as u64);
    mix64(idx)
}

/// The key of a castling-rights mask.
pub fn zobrist_castling_key(mask: u8) -> (r: u64)
    requires
        mask < 16,
    ensures
        r == castling_key(mask),
{
    mix64(769 + (mask as u64))
}

/// The key of an en-passant file.
pub fn zobrist_en_passant_file_key(file: u8) -> (r: u64)
    requires
        file < 8,
    ensures
        r == en_passant_file_key(file),
{
    mix64(785 + (file as u64))
}

/// The key of Black having the move.
pub fn zobrist_side_black_key() -> (r: u64)
    ensures
        r == side_key(),
{
    mix64(793)
}

/// Key contribution of one board: its key if the square is occupied
/// on it, zero otherwise.
pub open spec fn board_contrib(bb: u64, piece: Piece, player: Player, sq: u64) -> u64 {
    if get_bit(bb, sq) {
        piece_key(piece, player, sq)
    } else {
        0u64
    }
}

/// Key contribution of one square: the xor of the contributions of
/// the twelve piece boards at that square.
pub open spec fn square_keys(w: BitboardSet, b: BitboardSet, sq: u64) -> u64 {
    board_contrib(w.pawns, Piece::Pawn, Player::White, sq) ^ board_contrib(
        w.knights,
        Piece::Knight,
        Player::White,
        sq,
    ) ^ board_contrib(w.bishops, Piece::Bishop, Player::White, sq) ^ board_contrib(
        w.rooks,
        Piece::Rook,
        Player::White,
        sq,
    ) ^ board_contrib(w.queens, Piece::Queen, Player::White, sq) ^ board_contrib(
        w.king,
        Piece::King,
        Player::White,
        sq,
    ) ^ board_contrib(b.pawns, Piece::Pawn, Player::Black, sq) ^ board_contrib(
        b.knights,
        Piece::Knight,
        Player::Black,
        sq,
    ) ^ board_contrib(b.bishops, Piece::Bishop, Player::Black, sq) ^ board_contrib(
        b.rooks,
        Piece::Rook,
        Player::Black,
        sq,
    ) ^ board_contrib(b.queens, Piece::Queen, Player::Black, sq) ^ board_contrib(
        b.king,
        Piece::King,
        Player::Black,
        sq,
    )
}

/// Xor of the square contributions of squares `[0, n)`.
pub open spec fn pieces_hash_below(w: BitboardSet, b: BitboardSet, n: int) -> u64
    decreases n,
{
    if n <= 0 {
        0u64
    } else {
        pieces_hash_below(w, b, n - 1) ^ square_keys(w, b, (n - 1) as u64)
    }
}

/// Xor of the piece-square keys of every occupied square.
pub open spec fn pieces_hash(w: BitboardSet, b: BitboardSet) -> u64 {
    pieces_hash_below(w, b, 64)
}

/// Key of the en-passant state: the file key if a square is set.
pub open spec fn ep_hash(ep: Option<u8>) -> u64 {
    match ep {
        Some(sq) => en_passant_file_key(sq % 8),
        None => 0u64,
    }
}

/// Key of the side to move.
pub open spec fn side_hash(player: Player) -> u64 {
    if player is Black {
        side_key()
    } else {
        0u64
    }
}

/// The from-scratch Zobrist hash of a position: xor of every occupied
/// square's piece key, the castling-mask key, the en-passant file key
/// if an en-passant square is set, and the side key if Black moves.
pub open spec fn zobrist_of(pos: Position) -> u64 {
    pieces_hash(pos.w, pos.b) ^ castling_key(pos.castling.spec_encode()) ^ ep_hash(
        pos.en_passant_square,
    ) ^ side_hash(pos.player_to_move)
}

/// Compute the Zobrist hash of a position from scratch.
pub fn zobrist_hash(pos: &Position) -> (r: u64)
    ensures
        r == zobrist_of(*pos),
{
    let mut hash: u64 = 0;
    let mut sq: usize = 0;
    while sq < 64
        invariant
            sq <= 64,
            hash == pieces_hash_below(pos.w, pos.b, sq as int),
        decreases 64 - sq,
    {
        let mut sq_acc: u64 = 0;
        sq_acc = sq_acc ^ key_if(pos.w.pawns, Piece::Pawn, Player::White, sq as u8);
        sq_acc = sq_acc ^ key_if(pos.w.knights, Piece::Knight, Player::White, sq as u8);
        sq_acc = sq_acc ^ key_if(pos.w.bishops, Piece::Bishop, Player::White, sq as u8);
        sq_acc = sq_acc ^ key_if(pos.w.rooks, Piece::Rook, Player::White, sq as u8);
        sq_acc = sq_acc ^ key_if(pos.w.queens, Piece::Queen, Player::White, sq as u8);
        sq_acc = sq_acc ^ key_if(pos.w.king, Piece::King, Player::White, sq as u8);
        sq_acc = sq_acc ^ key_if(pos.b.pawns, Piece::Pawn, Player::Black, sq as u8);
        sq_acc = sq_acc ^ key_if(pos.b.knights, Piece::Knight, Player::Black, sq as u8);
        sq_acc = sq_acc ^ key_if(pos.b.bishops, Piece::Bishop, Player::Black, sq as u8);
        sq_acc = sq_acc ^ key_if(pos.b.rooks, Piece::Rook, Player::Black, sq as u8);
        sq_acc = sq_acc ^ key_if(pos.b.queens, Piece::Queen, Player::Black, sq as u8);
        sq_acc = sq_acc ^ key_if(pos.b.king, Piece::King, Player::Black, sq as u8);
        proof {
            crate::bits::lemma_xor_laws();
            assert(sq_acc == square_keys(pos.w, pos.b, sq as u64));
        }
        hash = hash ^ sq_acc;
        sq = sq + 1;
    }
    hash = hash ^ zobrist_castling_key(pos.castling.encode());
    match pos.en_passant_square {
        Some(ep_sq) => {
            hash = hash ^ zobrist_en_passant_file_key(ep_sq % 8);
        },
        None => {},
    }
    match pos.player_to_move {
        Player::Black => {
            hash = hash ^ zobrist_side_black_key();
        },
        Player::White => {},
    }
    proof {
        crate::bits::lemma_xor_laws();
    }
    hash
}

/// The board of kind `pc` of side `pl` among the two sides' boards.
pub open spec fn side_board(w: BitboardSet, b: BitboardSet, pl: Player, pc: Piece) -> u64 {
    crate::bitboard::piece_board(
        if pl is White {
            w
        } else {
            b
        },
        pc,
    )
}

/// The two board pairs agree everywhere except the one board of
/// `(pc, pl)`, which differs by the single bit of `sq`.
pub open spec fn boards_flip_except(
    w1: BitboardSet,
    b1: BitboardSet,
    w2: BitboardSet,
    b2: BitboardSet,
    p: Piece,
    pl: Player,
    sq: u64,
) -> bool {
    &&& forall|pc: Piece, pl2: Player|
        !(pc == p && pl2 == pl) ==> #[trigger] side_board(w2, b2, pl2, pc) == side_board(
            w1,
            b1,
            pl2,
            pc,
        )
    &&& side_board(w2, b2, pl, p) == side_board(w1, b1, pl, p) ^ (1u64 << sq)
}

/// Flipping one bit of a board flips exactly that bit.
proof fn lemma_xor_flip_bit(bb: u64, n: u64, m: u64)
    by (bit_vector)
    requires
        n < 64,
        m < 64,
    ensures
        get_bit(bb ^ (1u64 << n), m) == if m == n {
            !get_bit(bb, m)
        } else {
            get_bit(bb, m)
        },
{
}

/// Changing one term of the twelve-term xor chain by `d` changes the
/// chain by `d`.
#[verifier::spinoff_prover]
proof fn lemma_chain12_delta(
    t1: u64,
    t2: u64,
    t3: u64,
    t4: u64,
    t5: u64,
    t6: u64,
    t7: u64,
    t8: u64,
    t9: u64,
    t10: u64,
    t11: u64,
    t12: u64,
    d: u64,
)
    by (bit_vector)
    ensures
        (t1 ^ d) ^ t2 ^ t3 ^ t4 ^ t5 ^ t6 ^ t7 ^ t8 ^ t9 ^ t10 ^ t11 ^ t12 == (t1 ^ t2 ^ t3 ^ t4
            ^ t5 ^ t6 ^ t7 ^ t8 ^ t9 ^ t10 ^ t11 ^ t12) ^ d,
        t1 ^ (t2 ^ d) ^ t3 ^ t4 ^ t5 ^ t6 ^ t7 ^ t8 ^ t9 ^ t10 ^ t11 ^ t12 == (t1 ^ t2 ^ t3 ^ t4
            ^ t5 ^ t6 ^ t7 ^ t8 ^ t9 ^ t10 ^ t11 ^ t12) ^ d,
        t1 ^ t2 ^ (t3 ^ d) ^ t4 ^ t5 ^ t6 ^ t7 ^ t8 ^ t9 ^ t10 ^ t11 ^ t12 == (t1 ^ t2 ^ t3 ^ t4
            ^ t5 ^ t6 ^ t7 ^ t8 ^ t9 ^ t10 ^ t11 ^ t12) ^ d,
        t1 ^ t2 ^ t3 ^ (t4 ^ d) ^ t5 ^ t6 ^ t7 ^ t8 ^ t9 ^ t10 ^ t11 ^ t12 == (t1 ^ t2 ^ t3 ^ t4
            ^ t5 ^ t6 ^ t7 ^ t8 ^ t9 ^ t10 ^ t11 ^ t12) ^ d,
        t1 ^ t2 ^ t3 ^ t4 ^ (t5 ^ d) ^ t6 ^ t7 ^ t8 ^ t9 ^ t10 ^ t11 ^ t12 == (t1 ^ t2 ^ t3 ^ t4
            ^ t5 ^ t6 ^ t7 ^ t8 ^ t9 ^ t10 ^ t11 ^ t12) ^ d,
        t1 ^ t2 ^ t3 ^ t4 ^ t5 ^ (t6 ^ d) ^ t7 ^ t8 ^ t9 ^ t10 ^ t11 ^ t12 == (t1 ^ t2 ^ t3 ^ t4
            ^ t5 ^ t6 ^ t7 ^ t8 ^ t9 ^ t10 ^ t11 ^ t12) ^ d,
        t1 ^ t2 ^ t3 ^ t4 ^ t5 ^ t6 ^ (t7 ^ d) ^ t8 ^ t9 ^ t10 ^ t11 ^ t12 == (t1 ^ t2 ^ t3 ^ t4
            ^ t5 ^ t6 ^ t7 ^ t8 ^ t9 ^ t10 ^ t11 ^ t12) ^ d,
        t1 ^ t2 ^ t3 ^ t4 ^ t5 ^ t6 ^ t7 ^ (t8 ^ d) ^ t9 ^ t10 ^ t11 ^ t12 == (t1 ^ t2 ^ t3 ^ t4
            ^ t5 ^ t6 ^ t7 ^ t8 ^ t9 ^ t10 ^ t11 ^ t12) ^ d,
        t1 ^ t2 ^ t3 ^ t4 ^ t5 ^ t6 ^ t7 ^ t8 ^ (t9 ^ d) ^ t10 ^ t11 ^ t12 == (t1 ^ t2 ^ t3 ^ t4
            ^ t5 ^ t6 ^ t7 ^ t8 ^ t9 ^ t10 ^ t11 ^ t12) ^ d,
        t1 ^ t2 ^ t3 ^ t4 ^ t5 ^ t6 ^ t7 ^ t8 ^ t9 ^ (t10 ^ d) ^ t11 ^ t12 == (t1 ^ t2 ^ t3 ^ t4
            ^ t5 ^ t6 ^ t7 ^ t8 ^ t9 ^ t10 ^ t11 ^ t12) ^ d,
        t1 ^ t2 ^ t3 ^ t4 ^ t5 ^ t6 ^ t7 ^ t8 ^ t9 ^ t10 ^ (t11 ^ d) ^ t12 == (t1 ^ t2 ^ t3 ^ t4
            ^ t5 ^ t6 ^ t7 ^ t8 ^ t9 ^ t10 ^ t11 ^ t12) ^ d,
        t1 ^ t2 ^ t3 ^ t4 ^ t5 ^ t6 ^ t7 ^ t8 ^ t9 ^ t10 ^ t11 ^ (t12 ^ d) == (t1 ^ t2 ^ t3 ^ t4
            ^ t5 ^ t6 ^ t7 ^ t8 ^ t9 ^ t10 ^ t11 ^ t12) ^ d,
{
}

/// One square's contribution moves by the flipped board's key at the
/// flipped square and nowhere else.
#[verifier::rlimit(100)]
#[verifier::spinoff_prover]
proof fn lemma_square_keys_flip(
    w1: BitboardSet,
    b1: BitboardSet,
    w2: BitboardSet,
    b2: BitboardSet,
    p: Piece,
    pl: Player,
    sq: u64,
    m: u64,
)
    requires
        boards_flip_except(w1, b1, w2, b2, p, pl, sq),
        sq < 64,
        m < 64,
    ensures
        square_keys(w2, b2, m) == if m == sq {
            square_keys(w1, b1, m) ^ piece_key(p, pl, sq)
        } else {
            square_keys(w1, b1, m)
        },
{
    assert(board_contrib(w2.pawns, Piece::Pawn, Player::White, m) == (
        if p == Piece::Pawn && pl == Player::White && m == sq {
        board_contrib(w1.pawns, Piece::Pawn, Player::White, m) ^ piece_key(p, pl, sq)
    } else {
        board_contrib(w1.pawns, Piece::Pawn, Player::White, m)
    })) by {
        if p == Piece::Pawn && pl == Player::White {
            assert(w2.pawns == w1.pawns ^ (1u64 << sq));
            lemma_xor_flip_bit(w1.pawns, sq, m);
            lemma_xor_unit(piece_key(p, pl, sq));
        } else {
            assert(side_board(w2, b2, Player::White, Piece::Pawn) == side_board(
                w1,
                b1,
                Player::White,
                Piece::Pawn,
            ));
        }
    }
    assert(board_contrib(w2.knights, Piece::Knight, Player::White, m) == (
        if p == Piece::Knight && pl == Player::White && m == sq {
        board_contrib(w1.knights, Piece::Knight, Player::White, m) ^ piece_key(p, pl, sq)
    } else {
        board_contrib(w1.knights, Piece::Knight, Player::White, m)
    })) by {
        if p == Piece::Knight && pl == Player::White {
            assert(w2.knights == w1.knights ^ (1u64 << sq));
            lemma_xor_flip_bit(w1.knights, sq, m);
            lemma_xor_unit(piece_key(p, pl, sq));
        } else {
            assert(side_board(w2, b2, Player::White, Piece::Knight) == side_board(
                w1,
                b1,
                Player::White,
                Piece::Knight,
            ));
        }
    }
    assert(board_contrib(w2.bishops, Piece::Bishop, Player::White, m) == (
        if p == Piece::Bishop && pl == Player::White && m == sq {
        board_contrib(w1.bishops, Piece::Bishop, Player::White, m) ^ piece_key(p, pl, sq)
    } else {
        board_contrib(w1.bishops, Piece::Bishop, Player::White, m)
    })) by {
        if p == Piece::Bishop && pl == Player::White {
            assert(w2.bishops == w1.bishops ^ (1u64 << sq));
            lemma_xor_flip_bit(w1.bishops, sq, m);
            lemma_xor_unit(piece_key(p, pl, sq));
        } else {
            assert(side_board(w2, b2, Player::White, Piece::Bishop) == side_board(
                w1,
                b1,
                Player::White,
                Piece::Bishop,
            ));
        }
    }
    assert(board_contrib(w2.rooks, Piece::Rook, Player::White, m) == (
        if p == Piece::Rook && pl == Player::White && m == sq {
        board_contrib(w1.rooks, Piece::Rook, Player::White, m) ^ piece_key(p, pl, sq)
    } else {
        board_contrib(w1.rooks, Piece::Rook, Player::White, m)
    })) by {
        if p == Piece::Rook && pl == Player::White {
            assert(w2.rooks == w1.rooks ^ (1u64 << sq));
            lemma_xor_flip_bit(w1.rooks, sq, m);
            lemma_xor_unit(piece_key(p, pl, sq));
        } else {
            assert(side_board(w2, b2, Player::White, Piece::Rook) == side_board(
                w1,
                b1,
                Player::White,
                Piece::Rook,
            ));
        }
    }
    assert(board_contrib(w2.queens, Piece::Queen, Player::White, m) == (
        if p == Piece::Queen && pl == Player::White && m == sq {
        board_contrib(w1.queens, Piece::Queen, Player::White, m) ^ piece_key(p, pl, sq)
    } else {
        board_contrib(w1.queens, Piece::Queen, Player::White, m)
    })) by {
        if p == Piece::Queen && pl == Player::White {
            assert(w2.queens == w1.queens ^ (1u64 << sq));
            lemma_xor_flip_bit(w1.queens, sq, m);
            lemma_xor_unit(piece_key(p, pl, sq));
        } else {
            assert(side_board(w2, b2, Player::White, Piece::Queen) == side_board(
                w1,
                b1,
                Player::White,
                Piece::Queen,
            ));
        }
    }
    assert(board_contrib(w2.king, Piece::King, Player::White, m) == (
        if p == Piece::King && pl == Player::White && m == sq {
        board_contrib(w1.king, Piece::King, Player::White, m) ^ piece_key(p, pl, sq)
    } else {
        board_contrib(w1.king, Piece::King, Player::White, m)
    })) by {
        if p == Piece::King && pl == Player::White {
            assert(w2.king == w1.king ^ (1u64 << sq));
            lemma_xor_flip_bit(w1.king, sq, m);
            lemma_xor_unit(piece_key(p, pl, sq));
        } else {
            assert(side_board(w2, b2, Player::White, Piece::King) == side_board(
                w1,
                b1,
                Player::White,
                Piece::King,
            ));
        }
    }
    assert(board_contrib(b2.pawns, Piece::Pawn, Player::Black, m) == (
        if p == Piece::Pawn && pl == Player::Black && m == sq {
        board_contrib(b1.pawns, Piece::Pawn, Player::Black, m) ^ piece_key(p, pl, sq)
    } else {
        board_contrib(b1.pawns, Piece::Pawn, Player::Black, m)
    })) by {
        if p == Piece::Pawn && pl == Player::Black {
            assert(b2.pawns == b1.pawns ^ (1u64 << sq));
            lemma_xor_flip_bit(b1.pawns, sq, m);
            lemma_xor_unit(piece_key(p, pl, sq));
        } else {
            assert(side_board(w2, b2, Player::Black, Piece::Pawn) == side_board(
                w1,
                b1,
                Player::Black,
                Piece::Pawn,
            ));
        }
    }
    assert(board_contrib(b2.knights, Piece::Knight, Player::Black, m) == (
        if p == Piece::Knight && pl == Player::Black && m == sq {
        board_contrib(b1.knights, Piece::Knight, Player::Black, m) ^ piece_key(p, pl, sq)
    } else {
        board_contrib(b1.knights, Piece::Knight, Player::Black, m)
    })) by {
        if p == Piece::Knight && pl == Player::Black {
            assert(b2.knights == b1.knights ^ (1u64 << sq));
            lemma_xor_flip_bit(b1.knights, sq, m);
            lemma_xor_unit(piece_key(p, pl, sq));
        } else {
            assert(side_board(w2, b2, Player::Black, Piece::Knight) == side_board(
                w1,
                b1,
                Player::Black,
                Piece::Knight,
            ));
        }
    }
    assert(board_contrib(b2.bishops, Piece::Bishop, Player::Black, m) == (
        if p == Piece::Bishop && pl == Player::Black && m == sq {
        board_contrib(b1.bishops, Piece::Bishop, Player::Black, m) ^ piece_key(p, pl, sq)
    } else {
        board_contrib(b1.bishops, Piece::Bishop, Player::Black, m)
    })) by {
        if p == Piece::Bishop && pl == Player::Black {
            assert(b2.bishops == b1.bishops ^ (1u64 << sq));
            lemma_xor_flip_bit(b1.bishops, sq, m);
            lemma_xor_unit(piece_key(p, pl, sq));
        } else {
            assert(side_board(w2, b2, Player::Black, Piece::Bishop) == side_board(
                w1,
                b1,
                Player::Black,
                Piece::Bishop,
            ));
        }
    }
    assert(board_contrib(b2.rooks, Piece::Rook, Player::Black, m) == (
        if p == Piece::Rook && pl == Player::Black && m == sq {
        board_contrib(b1.rooks, Piece::Rook, Player::Black, m) ^ piece_key(p, pl, sq)
    } else {
        board_contrib(b1.rooks, Piece::Rook, Player::Black, m)
    })) by {
        if p == Piece::Rook && pl == Player::Black {
            assert(b2.rooks == b1.rooks ^ (1u64 << sq));
            lemma_xor_flip_bit(b1.rooks, sq, m);
            lemma_xor_unit(piece_key(p, pl, sq));
        } else {
            assert(side_board(w2, b2, Player::Black, Piece::Rook) == side_board(
                w1,
                b1,
                Player::Black,
                Piece::Rook,
            ));
        }
    }
    assert(board_contrib(b2.queens, Piece::Queen, Player::Black, m) == (
        if p == Piece::Queen && pl == Player::Black && m == sq {
        board_contrib(b1.queens, Piece::Queen, Player::Black, m) ^ piece_key(p, pl, sq)
    } else {
        board_contrib(b1.queens, Piece::Queen, Player::Black, m)
    })) by {
        if p == Piece::Queen && pl == Player::Black {
            assert(b2.queens == b1.queens ^ (1u64 << sq));
            lemma_xor_flip_bit(b1.queens, sq, m);
            lemma_xor_unit(piece_key(p, pl, sq));
        } else {
            assert(side_board(w2, b2, Player::Black, Piece::Queen) == side_board(
                w1,
                b1,
                Player::Black,
                Piece::Queen,
            ));
        }
    }
    assert(board_contrib(b2.king, Piece::King, Player::Black, m) == (
        if p == Piece::King && pl == Player::Black && m == sq {
        board_contrib(b1.king, Piece::King, Player::Black, m) ^ piece_key(p, pl, sq)
    } else {
        board_contrib(b1.king, Piece::King, Player::Black, m)
    })) by {
        if p == Piece::King && pl == Player::Black {
            assert(b2.king == b1.king ^ (1u64 << sq));
            lemma_xor_flip_bit(b1.king, sq, m);
            lemma_xor_unit(piece_key(p, pl, sq));
        } else {
            assert(side_board(w2, b2, Player::Black, Piece::King) == side_board(
                w1,
                b1,
                Player::Black,
                Piece::King,
            ));
        }
    }
    lemma_chain12_delta(
        board_contrib(w1.pawns, Piece::Pawn, Player::White, m),
        board_contrib(w1.knights, Piece::Knight, Player::White, m),
        board_contrib(w1.bishops, Piece::Bishop, Player::White, m),
        board_contrib(w1.rooks, Piece::Rook, Player::White, m),
        board_contrib(w1.queens, Piece::Queen, Player::White, m),
        board_contrib(w1.king, Piece::King, Player::White, m),
        board_contrib(b1.pawns, Piece::Pawn, Player::Black, m),
        board_contrib(b1.knights, Piece::Knight, Player::Black, m),
        board_contrib(b1.bishops, Piece::Bishop, Player::Black, m),
        board_contrib(b1.rooks, Piece::Rook, Player::Black, m),
        board_contrib(b1.queens, Piece::Queen, Player::Black, m),
        board_contrib(b1.king, Piece::King, Player::Black, m),
        piece_key(p, pl, sq),
    );
    if m != sq {
        assert(square_keys(w2, b2, m) == square_keys(w1, b1, m));
    }
}

/// A value cancels itself and passes zero through.
proof fn lemma_xor_unit(x: u64)
    by (bit_vector)
    ensures
        x ^ x == 0,
        0 ^ x == x,
        x ^ 0 == x,
{
}

/// Regrouping a tail of xor steps.
proof fn lemma_xor_rot(a: u64, b: u64, c: u64)
    by (bit_vector)
    ensures
        (a ^ b) ^ c == (a ^ c) ^ b,
        a ^ (b ^ c) == (a ^ b) ^ c,
{
}

/// Through every prefix, the flipped pair's fold differs from the
/// original's exactly by the key once the flipped square is covered.
proof fn lemma_pieces_below_flip(
    w1: BitboardSet,
    b1: BitboardSet,
    w2: BitboardSet,
    b2: BitboardSet,
    p: Piece,
    pl: Player,
    sq: u64,
    n: int,
)
    requires
        boards_flip_except(w1, b1, w2, b2, p, pl, sq),
        sq < 64,
        0 <= n <= 64,
    ensures
        pieces_hash_below(w2, b2, n) == if sq < n {
            pieces_hash_below(w1, b1, n) ^ piece_key(p, pl, sq)
        } else {
            pieces_hash_below(w1, b1, n)
        },
    decreases n,
{
    if n > 0 {
        lemma_pieces_below_flip(w1, b1, w2, b2, p, pl, sq, n - 1);
        lemma_square_keys_flip(w1, b1, w2, b2, p, pl, sq, (n - 1) as u64);
        lemma_xor_rot(
            pieces_hash_below(w1, b1, n - 1),
            square_keys(w1, b1, (n - 1) as u64),
            piece_key(p, pl, sq),
        );
    }
}

/// Flipping one bit of one board moves the piece fold by that board's
/// key at that square.
pub proof fn lemma_pieces_hash_flip(
    w1: BitboardSet,
    b1: BitboardSet,
    w2: BitboardSet,
    b2: BitboardSet,
    p: Piece,
    pl: Player,
    sq: u64,
)
    requires
        boards_flip_except(w1, b1, w2, b2, p, pl, sq),
        sq < 64,
    ensures
        pieces_hash(w2, b2) == pieces_hash(w1, b1) ^ piece_key(p, pl, sq),
{
    lemma_pieces_below_flip(w1, b1, w2, b2, p, pl, sq, 64);
}

/// The piece fold reads the piece boards alone: two pairs that agree
/// on them fold alike.
pub proof fn lemma_pieces_hash_same(w1: BitboardSet, b1: BitboardSet, w2: BitboardSet, b2: BitboardSet)
    requires
        crate::laws::same_piece_boards(w1, w2),
        crate::laws::same_piece_boards(b1, b2),
    ensures
        pieces_hash(w1, b1) == pieces_hash(w2, b2),
{
    lemma_pieces_below_same(w1, b1, w2, b2, 64);
}

/// Prefix version of the congruence of the piece fold.
proof fn lemma_pieces_below_same(
    w1: BitboardSet,
    b1: BitboardSet,
    w2: BitboardSet,
    b2: BitboardSet,
    n: int,
)
    requires
        crate::laws::same_piece_boards(w1, w2),
        crate::laws::same_piece_boards(b1, b2),
        0 <= n <= 64,
    ensures
        pieces_hash_below(w1, b1, n) == pieces_hash_below(w2, b2, n),
    decreases n,
{
    if n > 0 {
        lemma_pieces_below_same(w1, b1, w2, b2, n - 1);
    }
}

/// The key of one board at one square if the square is occupied there.
fn key_if(bb: u64, piece: Piece, player: Player, sq: u8) -> (r: u64)
    requires
        sq < 64,
    ensures
        r == board_contrib(bb, piece, player, sq as u64),
{
    if bb & (1u64 << sq) != 0 {
        zobrist_piece_key(piece, player, sq)
    } else {
        0
    }
}

} // verus!
