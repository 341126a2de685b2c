//! The position: both sides' boards, castling rights, en-passant
//! square, side to move, and the incrementally maintained Zobrist hash.

use vstd::prelude::*;

use crate::bitboard::{set_wf, BitboardSet};
use crate::bits::get_bit;
use crate::chess_move::CastlingRights;
use crate::piece::Piece;
use crate::player::Player;
use crate::utility::bit;

verus! {

/// Squares are indexed by little-endian rank-file mapping: a1 is 0,
/// h1 is 7, a8 is 56, h8 is 63.
#[derive(Copy, Clone, PartialEq, Eq, Structural, Debug)]
pub struct Position {
    pub w: BitboardSet,
    pub b: BitboardSet,
    pub occupied: u64,
    pub player_to_move: Player,
    pub en_passant_square: Option<u8>,
    pub castling: CastlingRights,
    pub zobrist_hash: u64,
}

/// Why a FEN string was rejected.
#[derive(Debug, PartialEq, Eq, Clone)]
pub enum FenParseError {
    BadFieldCount,
    InvalidPieceChar(char),
    BadRankCount,
    BadFileCount,
    InvalidSide(String),
    InvalidCastling(String),
    InvalidEnPassant(String),
    InvalidHalfmove(String),
    InvalidFullmove(String),
}

/// The structural invariant of a position: each side's boards are
/// well formed, the sides do not overlap, `occupied` is their union,
/// and the en-passant square, if set, is a board square.
pub open spec fn pos_wf(p: Position) -> bool {
    &&& set_wf(p.w)
    &&& set_wf(p.b)
    &&& p.w.all & p.b.all == 0
    &&& p.occupied == p.w.all | p.b.all
    &&& match p.en_passant_square {
        Some(sq) => sq < 64,
        None => true,
    }
}

/// The hash invariant: the stored hash is the one a from-scratch
/// computation over the position would give.
pub open spec fn hash_ok(p: Position) -> bool {
    p.zobrist_hash == crate::zobrist::zobrist_of(p)
}

/// Spec view of `is_fen_space`.
pub open spec fn spec_is_fen_space(c: char) -> bool {
    c == ' ' || c == '\t' || c == '\n' || c == '\r'
}

/// Is the character one of the separators FEN fields are split on?
fn is_fen_space(c: char) -> (r: bool)
    ensures
        r == spec_is_fen_space(c),
{
    c == ' ' || c == '\t' || c == '\n' || c == '\r'
}

/// The field scanner's state after reading the first `i` characters:
/// the completed fields, whether a field is open, and where it began.
pub open spec fn spec_token_state(s: Seq<char>, i: int) -> (Seq<(usize, usize)>, bool, usize)
    decreases i,
{
    if i <= 0 {
        (Seq::<(usize, usize)>::empty(), false, 0usize)
    } else {
        let st = spec_token_state(s, i - 1);
        let c = s[i - 1];
        if spec_is_fen_space(c) {
            if st.1 {
                (st.0.push((st.2, (i - 1) as usize)), false, st.2)
            } else {
                st
            }
        } else {
            if st.1 {
                st
            } else {
                (st.0, true, (i - 1) as usize)
            }
        }
    }
}

/// The whitespace-separated fields of a string, as character ranges.
pub open spec fn spec_fen_fields(s: Seq<char>) -> Seq<(usize, usize)> {
    let st = spec_token_state(s, s.len() as int);
    if st.1 {
        st.0.push((st.2, s.len() as usize))
    } else {
        st.0
    }
}

/// The count parser's state after the digits of `[a, i)`: the value
/// read so far, or nothing once a non-digit or an overflow appeared.
pub open spec fn spec_count_state(s: Seq<char>, a: int, i: int) -> Option<u64>
    decreases i - a,
{
    if i <= a {
        Some(0u64)
    } else {
        match spec_count_state(s, a, i - 1) {
            Some(v) => {
                let u = s[i - 1] as u32;
                if u < 48 || u > 57 {
                    None
                } else if v * 10 + (u - 48) > 0xFFFF_FFFF {
                    None
                } else {
                    Some((v * 10 + (u - 48)) as u64)
                }
            },
            None => None,
        }
    }
}

/// The number a field's characters spell, if they are digits of an
/// in-range count.
pub open spec fn spec_field_count(s: Seq<char>, a: int, b: int) -> Option<usize> {
    if a >= b {
        None
    } else {
        match spec_count_state(s, a, b) {
            Some(v) => Some(v as usize),
            None => None,
        }
    }
}

/// Once the count parser gave up, more characters never revive it.
proof fn lemma_count_none_sticky(s: Seq<char>, a: int, i: int, b: int)
    requires
        a <= i <= b,
        spec_count_state(s, a, i) is None,
    ensures
        spec_count_state(s, a, b) is None,
    decreases b - i,
{
    if i < b {
        lemma_count_none_sticky(s, a, i + 1, b);
    }
}

/// Is the character a FEN piece letter?
fn is_piece_char(c: char) -> (r: bool)
    ensures
        r == spec_is_piece_char(c),
{
    c == 'p' || c == 'n' || c == 'b' || c == 'r' || c == 'q' || c == 'k' || c == 'P' || c == 'N'
        || c == 'B' || c == 'R' || c == 'Q' || c == 'K'
}

/// Parse a decimal count out of a character range; `None` when a
/// character is no digit, the range is empty, or the value overflows
/// the width the protocol allows.
fn parse_count(fen: &str, start: usize, end: usize) -> (r: Option<usize>)
    requires
        start <= end <= fen@.len(),
    ensures
        r == spec_field_count(fen@, start as int, end as int),
{
    if start == end {
        return None;
    }
    let mut value: u64 = 0;
    let mut j: usize = start;
    while j < end
        invariant
            start <= j <= end <= fen@.len(),
            value <= 0xFFFF_FFFF,
            Some(value) == spec_count_state(fen@, start as int, j as int),
        decreases end - j,
    {
        let u: u32 = fen.get_char(j) as u32;
        if u < 48 || u > 57 {
            proof {
                lemma_count_none_sticky(fen@, start as int, j + 1, end as int);
            }
            return None;
        }
        value = value * 10 + ((u - 48) as u64);
        if value > 0xFFFF_FFFF {
            proof {
                lemma_count_none_sticky(fen@, start as int, j + 1, end as int);
            }
            return None;
        }
        j = j + 1;
    }
    Some(value as usize)
}

/// Adding a piece on a square free of both sides keeps the placing
/// side's boards disjoint, extends its union by the square, and
/// leaves it clear of the other side.
proof fn lemma_fen_add(s: BitboardSet, other_union: u64, p: Piece, sq: u64)
    requires
        crate::bitboard::boards_disjoint(s),
        crate::bitboard::union_boards(s) & other_union == 0,
        !get_bit(crate::bitboard::union_boards(s) | other_union, sq),
        sq < 64,
    ensures
        ({
            let s1 = crate::bitboard::with_piece_board(
                s,
                p,
                crate::bits::with_bit(crate::bitboard::piece_board(s, p), sq),
            );
            &&& crate::bitboard::boards_disjoint(s1)
            &&& crate::bitboard::union_boards(s1) == crate::bits::with_bit(
                crate::bitboard::union_boards(s),
                sq,
            )
            &&& crate::bitboard::union_boards(s1) & other_union == 0
        }),
{
    crate::bits::lemma_or_bits(crate::bitboard::union_boards(s), other_union, sq);
    crate::bitboard::lemma_board_add_bit(s, p, sq);
    crate::bitboard::lemma_disjoint_after_or(1u64 << sq);
}

/// The boards after one FEN piece letter lands on square `sq`: the
/// named board gains the square; any other letter places nothing.
pub open spec fn spec_place_char(
    w: BitboardSet,
    b: BitboardSet,
    c: char,
    sq: u8,
) -> (BitboardSet, BitboardSet) {
    let m = 1u64 << (sq as u64);
    if c == 'P' {
        (BitboardSet { pawns: w.pawns | m, ..w }, b)
    } else if c == 'N' {
        (BitboardSet { knights: w.knights | m, ..w }, b)
    } else if c == 'B' {
        (BitboardSet { bishops: w.bishops | m, ..w }, b)
    } else if c == 'R' {
        (BitboardSet { rooks: w.rooks | m, ..w }, b)
    } else if c == 'Q' {
        (BitboardSet { queens: w.queens | m, ..w }, b)
    } else if c == 'K' {
        (BitboardSet { king: w.king | m, ..w }, b)
    } else if c == 'p' {
        (w, BitboardSet { pawns: b.pawns | m, ..b })
    } else if c == 'n' {
        (w, BitboardSet { knights: b.knights | m, ..b })
    } else if c == 'b' {
        (w, BitboardSet { bishops: b.bishops | m, ..b })
    } else if c == 'r' {
        (w, BitboardSet { rooks: b.rooks | m, ..b })
    } else if c == 'q' {
        (w, BitboardSet { queens: b.queens | m, ..b })
    } else if c == 'k' {
        (w, BitboardSet { king: b.king | m, ..b })
    } else {
        (w, b)
    }
}

/// The placement scanner's state after the characters of `[a, i)`:
/// the cursor's rank and file and the boards built so far. Ranks are
/// walked downward from the eighth, files upward; digits skip files,
/// letters place pieces.
pub open spec fn spec_place_state(s: Seq<char>, a: int, i: int) -> (
    u32,
    u32,
    BitboardSet,
    BitboardSet,
)
    decreases i - a,
{
    if i <= a {
        (7u32, 0u32, BitboardSet::empty(), BitboardSet::empty())
    } else {
        let st = spec_place_state(s, a, i - 1);
        let rank = st.0;
        let file = st.1;
        let c = s[i - 1];
        if c == '/' {
            if rank > 0 {
                (((rank - 1) as u32), 0u32, st.2, st.3)
            } else {
                (rank, 8u32, st.2, st.3)
            }
        } else {
            let u = c as u32;
            if u >= 48 && u <= 57 {
                if file <= 100 {
                    (rank, ((file + (u - 48)) as u32), st.2, st.3)
                } else {
                    (rank, file, st.2, st.3)
                }
            } else {
                let wb = if file < 8 {
                    spec_place_char(st.2, st.3, c, ((rank * 8 + file) as u8))
                } else {
                    (st.2, st.3)
                };
                let nf = if file <= 100 {
                    ((file + 1) as u32)
                } else {
                    file
                };
                (rank, nf, wb.0, wb.1)
            }
        }
    }
}

/// Spec view of `is_piece_char`.
pub open spec fn spec_is_piece_char(c: char) -> bool {
    c == 'p' || c == 'n' || c == 'b' || c == 'r' || c == 'q' || c == 'k' || c == 'P' || c == 'N'
        || c == 'B' || c == 'R' || c == 'Q' || c == 'K'
}

/// How often character `c` occurs in `[a, i)`.
pub open spec fn spec_char_count(s: Seq<char>, a: int, i: int, c: char) -> int
    decreases i - a,
{
    if i <= a {
        0
    } else {
        spec_char_count(s, a, i - 1, c) + if s[i - 1] == c {
            1int
        } else {
            0int
        }
    }
}

/// What first broke a board field's scan: a character outside the
/// piece letters and skip digits, or a rank that did not resolve to
/// eight files.
pub enum PlacementFault {
    BadChar(char),
    BadCount,
}

/// The placement validator's state after the characters of `[a, i)`:
/// the current rank's file count, and the first fault if one has
/// appeared. A fault freezes the state.
pub open spec fn spec_pscan(s: Seq<char>, a: int, i: int) -> (u32, Option<PlacementFault>)
    decreases i - a,
{
    if i <= a {
        (0u32, Option::<PlacementFault>::None)
    } else {
        let st = spec_pscan(s, a, i - 1);
        let fc = st.0;
        let c = s[i - 1];
        if st.1 is Some {
            st
        } else if c == '/' {
            if fc != 8 {
                (fc, Some(PlacementFault::BadCount))
            } else {
                (0u32, Option::<PlacementFault>::None)
            }
        } else {
            let u = c as u32;
            if u >= 48 && u <= 57 {
                (
                    if fc <= 100 {
                        ((fc + (u - 48)) as u32)
                    } else {
                        fc
                    },
                    Option::<PlacementFault>::None,
                )
            } else if spec_is_piece_char(c) {
                (
                    if fc <= 100 {
                        ((fc + 1) as u32)
                    } else {
                        fc
                    },
                    Option::<PlacementFault>::None,
                )
            } else {
                (fc, Some(PlacementFault::BadChar(c)))
            }
        }
    }
}

/// A broken placement prefix never heals, and keeps its first fault.
proof fn lemma_pscan_sticky(s: Seq<char>, a: int, i: int, b: int)
    requires
        a <= i <= b,
        spec_pscan(s, a, i).1 is Some,
    ensures
        spec_pscan(s, a, b).1 == spec_pscan(s, a, i).1,
    decreases b - i,
{
    if i < b {
        lemma_pscan_sticky(s, a, i + 1, b);
    }
}

/// A valid board field: eight ranks, each resolving to exactly eight
/// files over piece letters and skip digits.
pub open spec fn spec_placement_ok(s: Seq<char>, a: int, b: int) -> bool {
    &&& spec_char_count(s, a, b, '/') == 7
    &&& spec_pscan(s, a, b).1 is None
    &&& spec_pscan(s, a, b).0 == 8
}

/// A valid side field: the single letter `w` or `b`.
pub open spec fn spec_side_ok(s: Seq<char>, a: int, b: int) -> bool {
    b == a + 1 && (s[a] == 'w' || s[a] == 'b')
}

/// A valid castling field: `-` alone, or letters out of `KQkq`.
pub open spec fn spec_castling_field_ok(s: Seq<char>, a: int, b: int) -> bool {
    ||| (b == a + 1 && s[a] == '-')
    ||| forall|k: int|
        a <= k < b ==> #[trigger] s[k] == 'K' || s[k] == 'Q' || s[k] == 'k' || s[k] == 'q'
}

/// A valid en-passant field: `-` alone, or a square name.
pub open spec fn spec_ep_field_ok(s: Seq<char>, a: int, b: int) -> bool {
    ||| (b == a + 1 && s[a] == '-')
    ||| exists|sq: u8|
        sq < 64 && vstd::utf8::encode_utf8(s.subrange(a, b))
            == #[trigger] crate::utility::square_name_bytes(sq)
}

/// A FEN string the parser accepts: six fields, a valid board field,
/// a side letter, a castling subset, an en-passant square or dash,
/// and in-range halfmove and fullmove counts, the fullmove at least
/// one.
pub open spec fn spec_fen_valid(s: Seq<char>) -> bool {
    let flds = spec_fen_fields(s);
    &&& flds.len() == 6
    &&& spec_placement_ok(s, flds[0].0 as int, flds[0].1 as int)
    &&& spec_side_ok(s, flds[1].0 as int, flds[1].1 as int)
    &&& spec_castling_field_ok(s, flds[2].0 as int, flds[2].1 as int)
    &&& spec_ep_field_ok(s, flds[3].0 as int, flds[3].1 as int)
    &&& spec_field_count(s, flds[4].0 as int, flds[4].1 as int) is Some
    &&& match spec_field_count(s, flds[5].0 as int, flds[5].1 as int) {
        Some(v) => v >= 1,
        None => false,
    }
}

/// What a rejected FEN string pins down: the error kind names the
/// first field-order rule the string breaks, and its payload carries
/// the offending field or character.
pub open spec fn spec_fen_error_ok(s: Seq<char>, e: FenParseError) -> bool {
    let flds = spec_fen_fields(s);
    if flds.len() != 6 {
        e is BadFieldCount
    } else {
        let a0 = flds[0].0 as int;
        let b0 = flds[0].1 as int;
        if spec_char_count(s, a0, b0, '/') != 7 {
            e is BadRankCount
        } else if spec_pscan(s, a0, b0).1 is Some {
            match spec_pscan(s, a0, b0).1->Some_0 {
                PlacementFault::BadChar(c) => e == FenParseError::InvalidPieceChar(c),
                PlacementFault::BadCount => e is BadFileCount,
            }
        } else if spec_pscan(s, a0, b0).0 != 8 {
            e is BadFileCount
        } else if !spec_side_ok(s, flds[1].0 as int, flds[1].1 as int) {
            e matches FenParseError::InvalidSide(p) && p@ == s.subrange(
                flds[1].0 as int,
                flds[1].1 as int,
            )
        } else if !spec_castling_field_ok(s, flds[2].0 as int, flds[2].1 as int) {
            e matches FenParseError::InvalidCastling(p) && p@ == s.subrange(
                flds[2].0 as int,
                flds[2].1 as int,
            )
        } else if !spec_ep_field_ok(s, flds[3].0 as int, flds[3].1 as int) {
            e matches FenParseError::InvalidEnPassant(p) && p@ == s.subrange(
                flds[3].0 as int,
                flds[3].1 as int,
            )
        } else if spec_field_count(s, flds[4].0 as int, flds[4].1 as int) is None {
            e matches FenParseError::InvalidHalfmove(p) && p@ == s.subrange(
                flds[4].0 as int,
                flds[4].1 as int,
            )
        } else {
            e matches FenParseError::InvalidFullmove(p) && p@ == s.subrange(
                flds[5].0 as int,
                flds[5].1 as int,
            )
        }
    }
}

/// What an accepted FEN string pins down: the position is well
/// formed with a from-scratch hash, and its boards, side to move,
/// castling rights, en-passant square and halfmove clock are exactly
/// what the six fields of the string spell.
pub open spec fn spec_fen_parse_ok(s: Seq<char>, pos: Position, clock: usize) -> bool {
    let flds = spec_fen_fields(s);
    &&& pos_wf(pos)
    &&& crate::make::pos_unions_ok(pos)
    &&& hash_ok(pos)
    &&& flds.len() == 6
    &&& ({
        let st = spec_place_state(s, flds[0].0 as int, flds[0].1 as int);
        &&& pos.w == (BitboardSet { all: crate::bitboard::union_boards(st.2), ..st.2 })
        &&& pos.b == (BitboardSet { all: crate::bitboard::union_boards(st.3), ..st.3 })
        &&& pos.occupied == crate::bitboard::union_boards(st.2) | crate::bitboard::union_boards(
            st.3,
        )
    })
    &&& flds[1].1 == flds[1].0 + 1
    &&& (s[flds[1].0 as int] == 'w' || s[flds[1].0 as int] == 'b')
    &&& (pos.player_to_move is White <==> s[flds[1].0 as int] == 'w')
    &&& pos.castling.white_kingside == vstd::utf8::encode_utf8(
        s.subrange(flds[2].0 as int, flds[2].1 as int),
    ).contains('K' as u8)
    &&& pos.castling.white_queenside == vstd::utf8::encode_utf8(
        s.subrange(flds[2].0 as int, flds[2].1 as int),
    ).contains('Q' as u8)
    &&& pos.castling.black_kingside == vstd::utf8::encode_utf8(
        s.subrange(flds[2].0 as int, flds[2].1 as int),
    ).contains('k' as u8)
    &&& pos.castling.black_queenside == vstd::utf8::encode_utf8(
        s.subrange(flds[2].0 as int, flds[2].1 as int),
    ).contains('q' as u8)
    &&& match pos.en_passant_square {
        Some(sq) => sq < 64 && vstd::utf8::encode_utf8(
            s.subrange(flds[3].0 as int, flds[3].1 as int),
        ) == crate::utility::square_name_bytes(sq),
        None => flds[3].1 == flds[3].0 + 1 && s[flds[3].0 as int] == '-',
    }
    &&& Some(clock) == spec_field_count(s, flds[4].0 as int, flds[4].1 as int)
}

/// Put the piece a FEN letter names on a square both sides have
/// free; any other letter places nothing.
fn place_fen_piece(w: &mut BitboardSet, b: &mut BitboardSet, c: char, sq: u8)
    requires
        sq < 64,
        crate::bitboard::boards_disjoint(*old(w)),
        crate::bitboard::boards_disjoint(*old(b)),
        crate::bitboard::union_boards(*old(w)) & crate::bitboard::union_boards(*old(b)) == 0,
        !get_bit(
            crate::bitboard::union_boards(*old(w)) | crate::bitboard::union_boards(*old(b)),
            sq as u64,
        ),
    ensures
        (*final(w), *final(b)) == spec_place_char(*old(w), *old(b), c, sq),
        crate::bitboard::boards_disjoint(*final(w)),
        crate::bitboard::boards_disjoint(*final(b)),
        crate::bitboard::union_boards(*final(w)) & crate::bitboard::union_boards(*final(b)) == 0,
        forall|t: u64|
            t < 64 && get_bit(
                #[trigger] (crate::bitboard::union_boards(*final(w)) | crate::bitboard::union_boards(
                    *final(b),
                )),
                t,
            ) ==> get_bit(
                crate::bitboard::union_boards(*old(w)) | crate::bitboard::union_boards(*old(b)),
                t,
            ) || t == sq as u64,
{
    let square: u64 = 1u64 << sq;
    let ghost wu = crate::bitboard::union_boards(*w);
    let ghost bu = crate::bitboard::union_boards(*b);
    proof {
        crate::bits::lemma_or_bits(wu, bu, sq as u64);
        crate::bits::lemma_or_bits(bu, wu, sq as u64);
        crate::bits::lemma_and_comm(wu, bu);
    }
    if c == 'P' {
        proof {
            lemma_fen_add(*w, bu, Piece::Pawn, sq as u64);
        }
        w.pawns = w.pawns | square;
    } else if c == 'N' {
        proof {
            lemma_fen_add(*w, bu, Piece::Knight, sq as u64);
        }
        w.knights = w.knights | square;
    } else if c == 'B' {
        proof {
            lemma_fen_add(*w, bu, Piece::Bishop, sq as u64);
        }
        w.bishops = w.bishops | square;
    } else if c == 'R' {
        proof {
            lemma_fen_add(*w, bu, Piece::Rook, sq as u64);
        }
        w.rooks = w.rooks | square;
    } else if c == 'Q' {
        proof {
            lemma_fen_add(*w, bu, Piece::Queen, sq as u64);
        }
        w.queens = w.queens | square;
    } else if c == 'K' {
        proof {
            lemma_fen_add(*w, bu, Piece::King, sq as u64);
        }
        w.king = w.king | square;
    } else if c == 'p' {
        proof {
            lemma_fen_add(*b, wu, Piece::Pawn, sq as u64);
            crate::bits::lemma_and_comm(crate::bits::with_bit(bu, sq as u64), wu);
        }
        b.pawns = b.pawns | square;
    } else if c == 'n' {
        proof {
            lemma_fen_add(*b, wu, Piece::Knight, sq as u64);
            crate::bits::lemma_and_comm(crate::bits::with_bit(bu, sq as u64), wu);
        }
        b.knights = b.knights | square;
    } else if c == 'b' {
        proof {
            lemma_fen_add(*b, wu, Piece::Bishop, sq as u64);
            crate::bits::lemma_and_comm(crate::bits::with_bit(bu, sq as u64), wu);
        }
        b.bishops = b.bishops | square;
    } else if c == 'r' {
        proof {
            lemma_fen_add(*b, wu, Piece::Rook, sq as u64);
            crate::bits::lemma_and_comm(crate::bits::with_bit(bu, sq as u64), wu);
        }
        b.rooks = b.rooks | square;
    } else if c == 'q' {
        proof {
            lemma_fen_add(*b, wu, Piece::Queen, sq as u64);
            crate::bits::lemma_and_comm(crate::bits::with_bit(bu, sq as u64), wu);
        }
        b.queens = b.queens | square;
    } else if c == 'k' {
        proof {
            lemma_fen_add(*b, wu, Piece::King, sq as u64);
            crate::bits::lemma_and_comm(crate::bits::with_bit(bu, sq as u64), wu);
        }
        b.king = b.king | square;
    }
    proof {
        lemma_union_or_shuffle(wu, bu, sq as u64);
        assert forall|t: u64|
            t < 64 && get_bit(
                #[trigger] (crate::bitboard::union_boards(*w) | crate::bitboard::union_boards(*b)),
                t,
            ) implies get_bit(wu | bu, t) || t == sq as u64 by {
            crate::bits::lemma_or_bits(
                crate::bitboard::union_boards(*w),
                crate::bitboard::union_boards(*b),
                t,
            );
            crate::bits::lemma_or_bits(wu, bu, t);
            crate::bits::lemma_get_with_bit(wu, sq as u64, t);
            crate::bits::lemma_get_with_bit(bu, sq as u64, t);
        }
    }
}

/// A bit added on either side of a union lands in the union.
proof fn lemma_union_or_shuffle(a: u64, b: u64, sq: u64)
    requires
        sq < 64,
    ensures
        crate::bits::with_bit(a, sq) | b == crate::bits::with_bit(a | b, sq),
        a | crate::bits::with_bit(b, sq) == crate::bits::with_bit(a | b, sq),
{
    crate::bits::lemma_build_identities(a, b, 1u64 << sq);
}

/// The starting array's boards are well formed: its unions and
/// pairwise disjointness, checked on the fixed numbers.
proof fn lemma_initial_board_wf()
    ensures
        pos_wf(Position::initial_board()),
        crate::make::pos_unions_ok(Position::initial_board()),
{
    assert((0x000000000000FFFFu64 == 0x000000000000FF00u64 | 0x0000000000000042u64
        | 0x0000000000000024u64 | 0x0000000000000081u64 | 0x0000000000000008u64
        | 0x0000000000000010u64) && (0xFFFF000000000000u64 == 0x00FF000000000000u64
        | 0x4200000000000000u64 | 0x2400000000000000u64 | 0x8100000000000000u64
        | 0x0800000000000000u64 | 0x1000000000000000u64) && (0xFFFF00000000FFFFu64
        == 0x000000000000FFFFu64 | 0xFFFF000000000000u64) && (0x000000000000FFFFu64
        & 0xFFFF000000000000u64 == 0) && (0x000000000000FF00u64 & 0x0000000000000042u64 == 0)
        && (0x000000000000FF00u64 & 0x0000000000000024u64 == 0) && (0x000000000000FF00u64
        & 0x0000000000000081u64 == 0) && (0x000000000000FF00u64 & 0x0000000000000008u64 == 0)
        && (0x000000000000FF00u64 & 0x0000000000000010u64 == 0) && (0x0000000000000042u64
        & 0x0000000000000024u64 == 0) && (0x0000000000000042u64 & 0x0000000000000081u64 == 0)
        && (0x0000000000000042u64 & 0x0000000000000008u64 == 0) && (0x0000000000000042u64
        & 0x0000000000000010u64 == 0) && (0x0000000000000024u64 & 0x0000000000000081u64 == 0)
        && (0x0000000000000024u64 & 0x0000000000000008u64 == 0) && (0x0000000000000024u64
        & 0x0000000000000010u64 == 0) && (0x0000000000000081u64 & 0x0000000000000008u64 == 0)
        && (0x0000000000000081u64 & 0x0000000000000010u64 == 0) && (0x0000000000000008u64
        & 0x0000000000000010u64 == 0) && (0x00FF000000000000u64 & 0x4200000000000000u64 == 0)
        && (0x00FF000000000000u64 & 0x2400000000000000u64 == 0) && (0x00FF000000000000u64
        & 0x8100000000000000u64 == 0) && (0x00FF000000000000u64 & 0x0800000000000000u64 == 0)
        && (0x00FF000000000000u64 & 0x1000000000000000u64 == 0) && (0x4200000000000000u64
        & 0x2400000000000000u64 == 0) && (0x4200000000000000u64 & 0x8100000000000000u64 == 0)
        && (0x4200000000000000u64 & 0x0800000000000000u64 == 0) && (0x4200000000000000u64
        & 0x1000000000000000u64 == 0) && (0x2400000000000000u64 & 0x8100000000000000u64 == 0)
        && (0x2400000000000000u64 & 0x0800000000000000u64 == 0) && (0x2400000000000000u64
        & 0x1000000000000000u64 == 0) && (0x8100000000000000u64 & 0x0800000000000000u64 == 0)
        && (0x8100000000000000u64 & 0x1000000000000000u64 == 0) && (0x0800000000000000u64
        & 0x1000000000000000u64 == 0)) by (bit_vector);
}

/// The side to move's boards.
pub open spec fn friendly_set(pos: Position) -> BitboardSet {
    if pos.player_to_move is White {
        pos.w
    } else {
        pos.b
    }
}

/// The waiting side's boards.
pub open spec fn hostile_set(pos: Position) -> BitboardSet {
    if pos.player_to_move is White {
        pos.b
    } else {
        pos.w
    }
}

impl Default for Position {
    /// The standard starting position.
    fn default() -> (r: Self)
        ensures
            r == Position::initial_position(),
    {
        Position::start()
    }
}

impl Position {
    /// The standard starting array, before its hash is filled in.
    pub open spec fn initial_board() -> Position {
        Position {
            w: (BitboardSet {
                all: 0x000000000000FFFF,
                pawns: 0x000000000000FF00,
                knights: 0x0000000000000042,
                bishops: 0x0000000000000024,
                rooks: 0x0000000000000081,
                queens: 0x0000000000000008,
                king: 0x0000000000000010,
            }),
            b: (BitboardSet {
                all: 0xFFFF000000000000,
                pawns: 0x00FF000000000000,
                knights: 0x4200000000000000,
                bishops: 0x2400000000000000,
                rooks: 0x8100000000000000,
                queens: 0x0800000000000000,
                king: 0x1000000000000000,
            }),
            occupied: 0xFFFF00000000FFFF,
            player_to_move: Player::White,
            en_passant_square: None,
            castling: (CastlingRights {
                white_kingside: true,
                white_queenside: true,
                black_kingside: true,
                black_queenside: true,
            }),
            zobrist_hash: 0,
        }
    }

    /// The standard starting position, its hash included.
    pub open spec fn initial_position() -> Position {
        Position {
            zobrist_hash: crate::zobrist::zobrist_of(Position::initial_board()),
            ..Position::initial_board()
        }
    }

    /// The standard starting position: all rights held, no en-passant
    /// square, White to move, hash computed from scratch.
    pub fn start() -> (r: Position)
        ensures
            r == Position::initial_position(),
            pos_wf(r),
            crate::make::pos_unions_ok(r),
            hash_ok(r),
            crate::movegen::pos_consistent(r),
    {
        let mut pos = Position {
            w: BitboardSet {
                all: 0x000000000000FFFF,
                pawns: 0x000000000000FF00,
                knights: 0x0000000000000042,
                bishops: 0x0000000000000024,
                rooks: 0x0000000000000081,
                queens: 0x0000000000000008,
                king: 0x0000000000000010,
            },
            b: BitboardSet {
                all: 0xFFFF000000000000,
                pawns: 0x00FF000000000000,
                knights: 0x4200000000000000,
                bishops: 0x2400000000000000,
                rooks: 0x8100000000000000,
                queens: 0x0800000000000000,
                king: 0x1000000000000000,
            },
            occupied: 0xFFFF00000000FFFF,
            player_to_move: Player::White,
            en_passant_square: None,
            castling: CastlingRights::default(),
            zobrist_hash: 0,
        };
        pos.zobrist_hash = crate::zobrist::zobrist_hash(&pos);
        proof {
            lemma_initial_board_wf();
            assert((0x0000000000000010u64 & (1u64 << 4) != 0) && (0x0000000000000081u64 & (1u64
                << 7) != 0) && (0x0000000000000081u64 & (1u64 << 0) != 0) && (
            0x1000000000000000u64 & (1u64 << 60) != 0) && (0x8100000000000000u64 & (1u64 << 63)
                != 0) && (0x8100000000000000u64 & (1u64 << 56) != 0)) by (bit_vector);
        }
        pos
    }

    /// Parse a six-field FEN string into a position and its halfmove
    /// clock. The fields are validated front to back and the first
    /// broken one names the error; a parsed position has its unions
    /// and hash freshly computed.
    pub fn from_fen(fen: &str) -> (r: Result<(Position, usize), FenParseError>)
        ensures
            r is Ok <==> spec_fen_valid(fen@),
            match r {
                Ok((pos, clock)) => spec_fen_parse_ok(fen@, pos, clock),
                Err(e) => spec_fen_error_ok(fen@, e),
            },
    {
        let n: usize = fen.unicode_len();
        let mut fields: Vec<(usize, usize)> = Vec::new();
        let mut in_field: bool = false;
        let mut start: usize = 0;
        let mut i: usize = 0;
        while i < n
            invariant
                i <= n,
                n == fen@.len(),
                (fields@, in_field, start) == spec_token_state(fen@, i as int),
                in_field ==> start < i,
                forall|k: int|
                    0 <= k < fields@.len() ==> (#[trigger] fields@[k]).0 < fields@[k].1 <= n,
            decreases n - i,
        {
            let c: char = fen.get_char(i);
            if is_fen_space(c) {
                if in_field {
                    fields.push((start, i));
                    in_field = false;
                }
            } else {
                if !in_field {
                    start = i;
                    in_field = true;
                }
            }
            i = i + 1;
        }
        if in_field {
            fields.push((start, n));
        }
        proof {
            assert(fields@ == spec_fen_fields(fen@));
        }
        if fields.len() != 6 {
            return Err(FenParseError::BadFieldCount);
        }

        let placement: (usize, usize) = fields[0];

        // The board field must hold exactly eight ranks.
        let mut slashes: usize = 0;
        let mut j: usize = placement.0;
        while j < placement.1
            invariant
                placement.0 <= j <= placement.1,
                placement.1 <= n,
                n == fen@.len(),
                slashes <= j,
                slashes == spec_char_count(fen@, placement.0 as int, j as int, '/'),
                fields@ == spec_fen_fields(fen@),
                fields@.len() == 6,
                placement == fields@[0],
            decreases placement.1 - j,
        {
            if fen.get_char(j) == '/' {
                slashes = slashes + 1;
            }
            j = j + 1;
        }
        if slashes != 7 {
            return Err(FenParseError::BadRankCount);
        }

        // Each rank must resolve to exactly eight files over known
        // piece letters and skip digits.
        let mut file_count: u32 = 0;
        j = placement.0;
        while j < placement.1
            invariant
                placement.0 <= j <= placement.1,
                placement.1 <= n,
                n == fen@.len(),
                file_count <= 109,
                (file_count, Option::<PlacementFault>::None) == spec_pscan(
                    fen@,
                    placement.0 as int,
                    j as int,
                ),
                fields@ == spec_fen_fields(fen@),
                fields@.len() == 6,
                placement == fields@[0],
                spec_char_count(fen@, placement.0 as int, placement.1 as int, '/') == 7,
            decreases placement.1 - j,
        {
            let c: char = fen.get_char(j);
            if c == '/' {
                if file_count != 8 {
                    proof {
                        lemma_pscan_sticky(fen@, placement.0 as int, j + 1, placement.1 as int);
                    }
                    return Err(FenParseError::BadFileCount);
                }
                file_count = 0;
            } else {
                let u: u32 = c as u32;
                if u >= 48 && u <= 57 {
                    if file_count <= 100 {
                        file_count = file_count + (u - 48);
                    }
                } else if is_piece_char(c) {
                    if file_count <= 100 {
                        file_count = file_count + 1;
                    }
                } else {
                    proof {
                        lemma_pscan_sticky(fen@, placement.0 as int, j + 1, placement.1 as int);
                    }
                    return Err(FenParseError::InvalidPieceChar(c));
                }
            }
            j = j + 1;
        }
        if file_count != 8 {
            return Err(FenParseError::BadFileCount);
        }

        // Side to move.
        let side: (usize, usize) = fields[1];
        let white_to_move: bool = if side.1 - side.0 == 1 && fen.get_char(side.0) == 'w' {
            true
        } else if side.1 - side.0 == 1 && fen.get_char(side.0) == 'b' {
            false
        } else {
            return Err(FenParseError::InvalidSide(fen.substring_char(side.0, side.1).to_owned()));
        };

        // Castling rights: `-` or any subset of `KQkq`.
        let castle: (usize, usize) = fields[2];
        let castle_str: &str = fen.substring_char(castle.0, castle.1);
        let dash: bool = castle.1 - castle.0 == 1 && fen.get_char(castle.0) == '-';
        if !dash {
            j = castle.0;
            while j < castle.1
                invariant
                    castle.0 <= j <= castle.1,
                    castle.1 <= n,
                    n == fen@.len(),
                    !dash,
                    forall|k: int|
                        castle.0 <= k < j ==> #[trigger] fen@[k] == 'K' || fen@[k] == 'Q'
                            || fen@[k] == 'k' || fen@[k] == 'q',
                    fields@ == spec_fen_fields(fen@),
                    fields@.len() == 6,
                    castle == fields@[2],
                    dash == (castle.1 == castle.0 + 1 && fen@[castle.0 as int] == '-'),
                    spec_placement_ok(fen@, fields@[0].0 as int, fields@[0].1 as int),
                    spec_side_ok(fen@, fields@[1].0 as int, fields@[1].1 as int),
                    castle_str@ == fen@.subrange(castle.0 as int, castle.1 as int),
                decreases castle.1 - j,
            {
                let c: char = fen.get_char(j);
                if !(c == 'K' || c == 'Q' || c == 'k' || c == 'q') {
                    return Err(FenParseError::InvalidCastling(castle_str.to_owned()));
                }
                j = j + 1;
            }
        }
        let castling = crate::chess_move::CastlingRights::from_string(castle_str);

        // En-passant square: `-` or an algebraic square name.
        let ep: (usize, usize) = fields[3];
        let ep_dash: bool = ep.1 - ep.0 == 1 && fen.get_char(ep.0) == '-';
        let en_passant_square: Option<u8> = if ep_dash {
            None
        } else {
            match crate::utility::square_string_to_idx(fen.substring_char(ep.0, ep.1)) {
                Some(idx) => {
                    proof {
                        assert(spec_ep_field_ok(fen@, ep.0 as int, ep.1 as int)) by {
                            assert(vstd::utf8::encode_utf8(fen@.subrange(ep.0 as int, ep.1 as int))
                                == crate::utility::square_name_bytes(idx));
                        }
                    }
                    Some(idx)
                },
                None => {
                    proof {
                        assert(!spec_ep_field_ok(fen@, ep.0 as int, ep.1 as int)) by {
                            assert forall|sq: u8| sq < 64 implies vstd::utf8::encode_utf8(
                                fen@.subrange(ep.0 as int, ep.1 as int),
                            ) != #[trigger] crate::utility::square_name_bytes(sq) by {}
                        }
                    }
                    return Err(
                        FenParseError::InvalidEnPassant(fen.substring_char(ep.0, ep.1).to_owned()),
                    );
                },
            }
        };

        // Halfmove clock: a nonnegative integer.
        let halfmove_clock: usize = match parse_count(fen, fields[4].0, fields[4].1) {
            Some(v) => v,
            None => {
                return Err(
                    FenParseError::InvalidHalfmove(
                        fen.substring_char(fields[4].0, fields[4].1).to_owned(),
                    ),
                );
            },
        };

        // Fullmove number: an integer of at least one.
        match parse_count(fen, fields[5].0, fields[5].1) {
            Some(v) => {
                if v < 1 {
                    return Err(
                        FenParseError::InvalidFullmove(
                            fen.substring_char(fields[5].0, fields[5].1).to_owned(),
                        ),
                    );
                }
            },
            None => {
                return Err(
                    FenParseError::InvalidFullmove(
                        fen.substring_char(fields[5].0, fields[5].1).to_owned(),
                    ),
                );
            },
        }

        // Place the pieces, top rank first. Ranks are walked downward
        // and files upward, so every placed square lies strictly
        // before the cursor and no square is booked twice.
        let mut w = BitboardSet::default();
        let mut b = BitboardSet::default();
        let mut rank: u32 = 7;
        let mut file: u32 = 0;
        j = placement.0;
        proof {
            crate::bits::lemma_build_identities(0, 0, 0);
            crate::bits::lemma_zero_bits();
        }
        while j < placement.1
            invariant
                placement.0 <= j <= placement.1,
                placement.1 <= n,
                n == fen@.len(),
                rank <= 7,
                file <= 110,
                (rank, file, w, b) == spec_place_state(fen@, placement.0 as int, j as int),
                crate::bitboard::boards_disjoint(w),
                crate::bitboard::boards_disjoint(b),
                crate::bitboard::union_boards(w) & crate::bitboard::union_boards(b) == 0,
                forall|t: u64|
                    t < 64 && #[trigger] get_bit(
                        crate::bitboard::union_boards(w) | crate::bitboard::union_boards(b),
                        t,
                    ) ==> t / 8 > rank as u64 || (t / 8 == rank as u64 && t % 8 < file as u64),
            decreases placement.1 - j,
        {
            let c: char = fen.get_char(j);
            if c == '/' {
                if rank > 0 {
                    rank = rank - 1;
                    file = 0;
                } else {
                    // An extra rank separator was already rejected by
                    // the rank count; nothing more may be placed.
                    file = 8;
                }
            } else {
                let u: u32 = c as u32;
                if u >= 48 && u <= 57 {
                    if file <= 100 {
                        file = file + (u - 48);
                    }
                } else {
                    if file < 8 {
                        let sq8: u8 = (rank * 8 + file) as u8;
                        proof {
                            assert((rank as u64 * 8 + file as u64) / 8 == rank as u64 && (rank
                                as u64 * 8 + file as u64) % 8 == file as u64) by (nonlinear_arith)
                                requires
                                    rank <= 7,
                                    file < 8,
                            ;
                        }
                        place_fen_piece(&mut w, &mut b, c, sq8);
                    }
                    if file <= 100 {
                        file = file + 1;
                    }
                }
            }
            j = j + 1;
        }

        w.update();
        b.update();
        let occupied: u64 = w.all | b.all;

        let mut pos = Position {
            w,
            b,
            occupied,
            player_to_move: if white_to_move {
                Player::White
            } else {
                Player::Black
            },
            en_passant_square,
            castling,
            zobrist_hash: 0,
        };
        pos.zobrist_hash = crate::zobrist::zobrist_hash(&pos);
        Ok((pos, halfmove_clock))
    }

    /// Spec view of `what`: the side and piece kind on a square.
    pub open spec fn spec_what(self, sq_idx: u8) -> Option<(Player, Piece)> {
        match self.w.spec_what(sq_idx) {
            Some(p) => Some((Player::White, p)),
            None => match self.b.spec_what(sq_idx) {
                Some(p) => Some((Player::Black, p)),
                None => None,
            },
        }
    }

    /// Which side and piece kind stand on square `sq_idx`.
    pub fn what(&self, sq_idx: u8) -> (r: Option<(Player, Piece)>)
        requires
            sq_idx < 64,
        ensures
            r == self.spec_what(sq_idx),
    {
        let bb = bit(sq_idx as usize);
        if self.w.pawns & bb != 0 {
            Some((Player::White, Piece::Pawn))
        } else if self.w.knights & bb != 0 {
            Some((Player::White, Piece::Knight))
        } else if self.w.bishops & bb != 0 {
            Some((Player::White, Piece::Bishop))
        } else if self.w.rooks & bb != 0 {
            Some((Player::White, Piece::Rook))
        } else if self.w.queens & bb != 0 {
            Some((Player::White, Piece::Queen))
        } else if self.w.king & bb != 0 {
            Some((Player::White, Piece::King))
        } else if self.b.pawns & bb != 0 {
            Some((Player::Black, Piece::Pawn))
        } else if self.b.knights & bb != 0 {
            Some((Player::Black, Piece::Knight))
        } else if self.b.bishops & bb != 0 {
            Some((Player::Black, Piece::Bishop))
        } else if self.b.rooks & bb != 0 {
            Some((Player::Black, Piece::Rook))
        } else if self.b.queens & bb != 0 {
            Some((Player::Black, Piece::Queen))
        } else if self.b.king & bb != 0 {
            Some((Player::Black, Piece::King))
        } else {
            None
        }
    }

    /// Recompute each side's union board and `occupied`.
    pub fn update(&mut self)
        ensures
            *final(self) == (Position {
                w: (BitboardSet {
                    all: crate::bitboard::union_boards(old(self).w),
                    ..old(self).w
                }),
                b: (BitboardSet {
                    all: crate::bitboard::union_boards(old(self).b),
                    ..old(self).b
                }),
                occupied: crate::bitboard::union_boards(old(self).w) | crate::bitboard::union_boards(
                    old(self).b,
                ),
                ..*old(self)
            }),
    {
        self.w.update();
        self.b.update();
        self.occupied = self.w.all | self.b.all;
    }

    /// Borrow the mover's and the opponent's boards for writing, in
    /// that order.
    pub fn perspective_mut(&mut self, player: Player) -> (r: (&mut BitboardSet, &mut BitboardSet))
        ensures
            player is White ==> {
                &&& *r.0 == old(self).w
                &&& *r.1 == old(self).b
                &&& *final(self) == (Position { w: *final(r.0), b: *final(r.1), ..*old(self) })
            },
            player is Black ==> {
                &&& *r.0 == old(self).b
                &&& *r.1 == old(self).w
                &&& *final(self) == (Position { w: *final(r.1), b: *final(r.0), ..*old(self) })
            },
    {
        match player {
            Player::White => (&mut self.w, &mut self.b),
            Player::Black => (&mut self.b, &mut self.w),
        }
    }
}

} // verus!
