//! One side's bitboards: one board per piece kind plus their union.

use vstd::prelude::*;

use crate::bits::{
    bit_at, count_bits, get_bit, with_bit, without_bit, lemma_get_with_bit, lemma_get_without_bit,
};
use crate::piece::Piece;
use crate::utility::{bit, popcount};

verus! {

pub type Bitboard = u64;

/// Single-bit update operators shared by plain boards.
pub trait BitOps: Sized {
    /// Spec view of `set_bit`.
    spec fn spec_set_bit(self, n: u8) -> Self;

    /// Spec view of `unset_bit`.
    spec fn spec_unset_bit(self, n: u8) -> Self;

    /// The value with bit `n` set.
    fn set_bit(self, n: u8) -> (r: Self)
        requires
            n < 64,
        ensures
            r == self.spec_set_bit(n),
    ;

    /// The value with bit `n` cleared.
    fn unset_bit(self, n: u8) -> (r: Self)
        requires
            n < 64,
        ensures
            r == self.spec_unset_bit(n),
    ;
}

impl BitOps for Bitboard {
    open spec fn spec_set_bit(self, n: u8) -> Bitboard {
        with_bit(self, n as u64)
    }

    open spec fn spec_unset_bit(self, n: u8) -> Bitboard {
        without_bit(self, n as u64)
    }

    fn set_bit(self, n: u8) -> (r: Bitboard) {
        self | (1u64 << n)
    }

    fn unset_bit(self, n: u8) -> (r: Bitboard) {
        self & !(1u64 << n)
    }
}

#[derive(Debug, Copy, Clone, PartialEq, Eq, Structural)]
pub struct BitboardSet {
    pub all: Bitboard,
    pub pawns: Bitboard,
    pub knights: Bitboard,
    pub bishops: Bitboard,
    pub rooks: Bitboard,
    pub queens: Bitboard,
    pub king: Bitboard,
}

impl Default for BitboardSet {
    /// The empty side: every board zero.
    fn default() -> (r: Self)
        ensures
            r == BitboardSet::empty(),
    {
        BitboardSet { all: 0, pawns: 0, knights: 0, bishops: 0, rooks: 0, queens: 0, king: 0 }
    }
}

/// The board of one piece kind.
pub open spec fn piece_board(s: BitboardSet, p: Piece) -> Bitboard {
    match p {
        Piece::Pawn => s.pawns,
        Piece::Knight => s.knights,
        Piece::Bishop => s.bishops,
        Piece::Rook => s.rooks,
        Piece::Queen => s.queens,
        Piece::King => s.king,
    }
}

/// `s` with the board of kind `p` replaced by `bb`.
pub open spec fn with_piece_board(s: BitboardSet, p: Piece, bb: Bitboard) -> BitboardSet {
    match p {
        Piece::Pawn => (BitboardSet { pawns: bb, ..s }),
        Piece::Knight => (BitboardSet { knights: bb, ..s }),
        Piece::Bishop => (BitboardSet { bishops: bb, ..s }),
        Piece::Rook => (BitboardSet { rooks: bb, ..s }),
        Piece::Queen => (BitboardSet { queens: bb, ..s }),
        Piece::King => (BitboardSet { king: bb, ..s }),
    }
}

/// Union of the six piece boards.
pub open spec fn union_boards(s: BitboardSet) -> Bitboard {
    s.pawns | s.knights | s.bishops | s.rooks | s.queens | s.king
}

/// The six piece boards are pairwise disjoint.
pub open spec fn boards_disjoint(s: BitboardSet) -> bool {
    &&& s.pawns & s.knights == 0
    &&& s.pawns & s.bishops == 0
    &&& s.pawns & s.rooks == 0
    &&& s.pawns & s.queens == 0
    &&& s.pawns & s.king == 0
    &&& s.knights & s.bishops == 0
    &&& s.knights & s.rooks == 0
    &&& s.knights & s.queens == 0
    &&& s.knights & s.king == 0
    &&& s.bishops & s.rooks == 0
    &&& s.bishops & s.queens == 0
    &&& s.bishops & s.king == 0
    &&& s.rooks & s.queens == 0
    &&& s.rooks & s.king == 0
    &&& s.queens & s.king == 0
}

/// Well-formed side: `all` is the union and the boards do not overlap.
pub open spec fn set_wf(s: BitboardSet) -> bool {
    &&& s.all == union_boards(s)
    &&& boards_disjoint(s)
}

impl BitboardSet {
    /// Spec view of the empty side.
    pub open spec fn empty() -> BitboardSet {
        BitboardSet { all: 0, pawns: 0, knights: 0, bishops: 0, rooks: 0, queens: 0, king: 0 }
    }

    /// Recompute `all` as the union of the piece boards.
    pub fn update(&mut self)
        ensures
            *final(self) == (BitboardSet { all: union_boards(*old(self)), ..*old(self) }),
    {
        self.all = self.pawns | self.knights | self.bishops | self.rooks | self.queens | self.king;
    }

    /// Borrow the board of kind `piece` for writing.
    pub fn piece_to_bb_mut(&mut self, piece: Piece) -> (bb: &mut Bitboard)
        ensures
            *bb == piece_board(*old(self), piece),
            *final(self) == with_piece_board(*old(self), piece, *final(bb)),
    {
        match piece {
            Piece::Knight => &mut self.knights,
            Piece::Bishop => &mut self.bishops,
            Piece::Rook => &mut self.rooks,
            Piece::Queen => &mut self.queens,
            Piece::King => &mut self.king,
            Piece::Pawn => &mut self.pawns,
        }
    }

    /// Read the board of kind `piece`.
    pub fn piece_to_bb(&self, piece: Piece) -> (bb: &Bitboard)
        ensures
            *bb == piece_board(*self, piece),
    {
        match piece {
            Piece::Knight => &self.knights,
            Piece::Bishop => &self.bishops,
            Piece::Rook => &self.rooks,
            Piece::Queen => &self.queens,
            Piece::King => &self.king,
            Piece::Pawn => &self.pawns,
        }
    }

    /// Clear square `n` from every board, `all` included.
    pub fn unset_bit(&mut self, n: u8)
        requires
            n < 64,
        ensures
            *final(self) == spec_clear_square(*old(self), n),
    {
        self.all = self.all.unset_bit(n);
        self.pawns = self.pawns.unset_bit(n);
        self.knights = self.knights.unset_bit(n);
        self.bishops = self.bishops.unset_bit(n);
        self.rooks = self.rooks.unset_bit(n);
        self.queens = self.queens.unset_bit(n);
        self.king = self.king.unset_bit(n);
    }

    /// Put a piece of kind `piece` on square `n`, updating `all`.
    pub fn set_bit(&mut self, n: u8, piece: Piece)
        requires
            n < 64,
        ensures
            *final(self) == spec_place_piece(*old(self), n, piece),
    {
        self.all = self.all.set_bit(n);
        let bb = self.piece_to_bb_mut(piece);
        *bb = bb.set_bit(n);
    }

    /// Number of pieces of kind `piece` on this side.
    pub fn count(&self, piece: Piece) -> (r: u32)
        ensures
            r == count_bits(piece_board(*self, piece)),
    {
        popcount(*self.piece_to_bb(piece))
    }

    /// Total number of pieces on this side.
    pub fn count_all(&self) -> (r: u32)
        ensures
            r == count_bits(self.pawns) + count_bits(self.knights) + count_bits(self.bishops)
                + count_bits(self.rooks) + count_bits(self.queens) + count_bits(self.king),
    {
        let mut result: u32 = 0;
        proof {
            crate::bits::lemma_count_bits_below_bound(self.pawns, 64);
            crate::bits::lemma_count_bits_below_bound(self.knights, 64);
            crate::bits::lemma_count_bits_below_bound(self.bishops, 64);
            crate::bits::lemma_count_bits_below_bound(self.rooks, 64);
            crate::bits::lemma_count_bits_below_bound(self.queens, 64);
            crate::bits::lemma_count_bits_below_bound(self.king, 64);
        }
        result = result + popcount(self.pawns);
        result = result + popcount(self.knights);
        result = result + popcount(self.bishops);
        result = result + popcount(self.rooks);
        result = result + popcount(self.queens);
        result = result + popcount(self.king);
        result
    }

    /// Spec view of `what`: the piece kind on square `sq_idx`, if any.
    pub open spec fn spec_what(self, sq_idx: u8) -> Option<Piece> {
        if get_bit(self.pawns, sq_idx as u64) {
            Some(Piece::Pawn)
        } else if get_bit(self.knights, sq_idx as u64) {
            Some(Piece::Knight)
        } else if get_bit(self.bishops, sq_idx as u64) {
            Some(Piece::Bishop)
        } else if get_bit(self.rooks, sq_idx as u64) {
            Some(Piece::Rook)
        } else if get_bit(self.queens, sq_idx as u64) {
            Some(Piece::Queen)
        } else if get_bit(self.king, sq_idx as u64) {
            Some(Piece::King)
        } else {
            None
        }
    }

    /// Which piece kind of this side stands on square `sq_idx`.
    pub fn what(&self, sq_idx: u8) -> (r: Option<Piece>)
        requires
            sq_idx < 64,
        ensures
            r == self.spec_what(sq_idx),
    {
        let bb = bit(sq_idx as usize);
        if self.pawns & bb != 0 {
            Some(Piece::Pawn)
        } else if self.knights & bb != 0 {
            Some(Piece::Knight)
        } else if self.bishops & bb != 0 {
            Some(Piece::Bishop)
        } else if self.rooks & bb != 0 {
            Some(Piece::Rook)
        } else if self.queens & bb != 0 {
            Some(Piece::Queen)
        } else if self.king & bb != 0 {
            Some(Piece::King)
        } else {
            None
        }
    }
}

/// Every board of `s` with square `n` cleared.
pub open spec fn spec_clear_square(s: BitboardSet, n: u8) -> BitboardSet {
    BitboardSet {
        all: without_bit(s.all, n as u64),
        pawns: without_bit(s.pawns, n as u64),
        knights: without_bit(s.knights, n as u64),
        bishops: without_bit(s.bishops, n as u64),
        rooks: without_bit(s.rooks, n as u64),
        queens: without_bit(s.queens, n as u64),
        king: without_bit(s.king, n as u64),
    }
}

/// `s` with a piece of kind `piece` added on square `n`, `all` updated.
pub open spec fn spec_place_piece(s: BitboardSet, n: u8, piece: Piece) -> BitboardSet {
    let bumped = with_piece_board(s, piece, with_bit(piece_board(s, piece), n as u64));
    BitboardSet { all: with_bit(s.all, n as u64), ..bumped }
}

/// Clearing one square from every board keeps the side well formed.
pub proof fn lemma_clear_square_wf(s: BitboardSet, n: u8)
    requires
        set_wf(s),
        n < 64,
    ensures
        set_wf(spec_clear_square(s, n)),
{
    let m = bit_at(n as u64);
    lemma_and_not_distributes(s.pawns, s.knights, s.bishops, s.rooks, s.queens, s.king, m);
    lemma_disjoint_after_and_not(m);
}

/// A mask outside the union touches none of the boards.
pub proof fn lemma_bit_not_in_union(a: u64, b: u64, c: u64, d: u64, e: u64, f: u64, m: u64)
    by (bit_vector)
    requires
        (a | b | c | d | e | f) & m == 0,
    ensures
        a & m == 0,
        b & m == 0,
        c & m == 0,
        d & m == 0,
        e & m == 0,
        f & m == 0,
{
}

/// Adding a mask to any one board adds it to the union.
pub proof fn lemma_or_one_into_union(a: u64, b: u64, c: u64, d: u64, e: u64, f: u64, m: u64)
    by (bit_vector)
    ensures
        (a | m) | b | c | d | e | f == (a | b | c | d | e | f) | m,
        a | (b | m) | c | d | e | f == (a | b | c | d | e | f) | m,
        a | b | (c | m) | d | e | f == (a | b | c | d | e | f) | m,
        a | b | c | (d | m) | e | f == (a | b | c | d | e | f) | m,
        a | b | c | d | (e | m) | f == (a | b | c | d | e | f) | m,
        a | b | c | d | e | (f | m) == (a | b | c | d | e | f) | m,
{
}

/// Disjointness is kept when a fresh mask joins one side of a pair.
pub proof fn lemma_disjoint_after_or(m: u64)
    by (bit_vector)
    ensures
        forall|x: u64, y: u64|
            x & y == 0 && y & m == 0 ==> #[trigger] ((x | m) & y) == 0,
        forall|x: u64, y: u64|
            x & y == 0 && x & m == 0 ==> #[trigger] (x & (y | m)) == 0,
{
}

/// Clearing a mask distributes over the union of the boards.
pub proof fn lemma_and_not_distributes(a: u64, b: u64, c: u64, d: u64, e: u64, f: u64, m: u64)
    by (bit_vector)
    ensures
        (a & !m) | (b & !m) | (c & !m) | (d & !m) | (e & !m) | (f & !m) == (a | b | c | d | e | f)
            & !m,
{
}

/// Disjointness is kept when a mask is cleared from either side.
pub proof fn lemma_disjoint_after_and_not(m: u64)
    by (bit_vector)
    ensures
        forall|x: u64, y: u64| x & y == 0 ==> #[trigger] ((x & !m) & (y & !m)) == 0,
        forall|x: u64, y: u64| x & y == 0 ==> #[trigger] ((x & !m) & y) == 0,
        forall|x: u64, y: u64| x & y == 0 ==> #[trigger] (x & (y & !m)) == 0,
{
}

/// Adding a free square to one board extends the union by that square
/// and keeps the boards disjoint.
pub proof fn lemma_board_add_bit(s: BitboardSet, p: Piece, n: u64)
    requires
        boards_disjoint(s),
        !get_bit(union_boards(s), n),
        n < 64,
    ensures
        ({
            let s1 = with_piece_board(s, p, with_bit(piece_board(s, p), n));
            &&& boards_disjoint(s1)
            &&& union_boards(s1) == with_bit(union_boards(s), n)
        }),
{
    let m = bit_at(n);
    let u = union_boards(s);
    assert(u & m == 0) by (bit_vector)
        requires
            u & (1u64 << n) == 0,
            m == 1u64 << n,
    ;
    lemma_bit_not_in_union(s.pawns, s.knights, s.bishops, s.rooks, s.queens, s.king, m);
    lemma_or_one_into_union(s.pawns, s.knights, s.bishops, s.rooks, s.queens, s.king, m);
    lemma_disjoint_after_or(m);
}

/// Clearing an occupied square from its own board shrinks the union by
/// that square and keeps the boards disjoint.
pub proof fn lemma_board_del_bit(s: BitboardSet, p: Piece, n: u64)
    requires
        boards_disjoint(s),
        get_bit(piece_board(s, p), n),
        n < 64,
    ensures
        ({
            let s1 = with_piece_board(s, p, without_bit(piece_board(s, p), n));
            &&& boards_disjoint(s1)
            &&& union_boards(s1) == without_bit(union_boards(s), n)
        }),
{
    let m = bit_at(n);
    lemma_single_bit_excluded(n);
    lemma_del_into_union(s.pawns, s.knights, s.bishops, s.rooks, s.queens, s.king, m);
    lemma_disjoint_after_and_not(m);
}

/// A single-bit mask inside one of two disjoint boards misses the other.
pub proof fn lemma_single_bit_excluded(n: u64)
    by (bit_vector)
    requires
        n < 64,
    ensures
        forall|x: u64, y: u64|
            x & y == 0 && #[trigger] (x & (1u64 << n)) != 0 ==> #[trigger] (y & (1u64 << n)) == 0,
{
}

/// Clearing a mask present in one board alone clears it from the union.
pub proof fn lemma_del_into_union(a: u64, b: u64, c: u64, d: u64, e: u64, f: u64, m: u64)
    by (bit_vector)
    ensures
        b & m == 0 && c & m == 0 && d & m == 0 && e & m == 0 && f & m == 0 ==> (a & !m) | b | c | d
            | e | f == (a | b | c | d | e | f) & !m,
        a & m == 0 && c & m == 0 && d & m == 0 && e & m == 0 && f & m == 0 ==> a | (b & !m) | c | d
            | e | f == (a | b | c | d | e | f) & !m,
        a & m == 0 && b & m == 0 && d & m == 0 && e & m == 0 && f & m == 0 ==> a | b | (c & !m) | d
            | e | f == (a | b | c | d | e | f) & !m,
        a & m == 0 && b & m == 0 && c & m == 0 && e & m == 0 && f & m == 0 ==> a | b | c | (d & !m)
            | e | f == (a | b | c | d | e | f) & !m,
        a & m == 0 && b & m == 0 && c & m == 0 && d & m == 0 && f & m == 0 ==> a | b | c | d | (e
            & !m) | f == (a | b | c | d | e | f) & !m,
        a & m == 0 && b & m == 0 && c & m == 0 && d & m == 0 && e & m == 0 ==> a | b | c | d | e | (
        f & !m) == (a | b | c | d | e | f) & !m,
{
}

/// A square outside a well-formed side's union is on none of its
/// boards.
pub proof fn lemma_subboard_absent(s: BitboardSet, x: u64)
    requires
        set_wf(s),
        !get_bit(s.all, x),
        x < 64,
    ensures
        !get_bit(s.pawns, x),
        !get_bit(s.knights, x),
        !get_bit(s.bishops, x),
        !get_bit(s.rooks, x),
        !get_bit(s.queens, x),
        !get_bit(s.king, x),
{
    lemma_union_membership(s.pawns, s.knights, s.bishops, s.rooks, s.queens, s.king, x);
}

/// A square on one board of a well-formed side is on no other board.
pub proof fn lemma_other_boards_absent(s: BitboardSet, p: Piece, x: u64)
    requires
        set_wf(s),
        get_bit(piece_board(s, p), x),
        x < 64,
    ensures
        forall|q: Piece| q != p ==> !get_bit(#[trigger] piece_board(s, q), x),
        get_bit(s.all, x),
{
    lemma_union_membership(s.pawns, s.knights, s.bishops, s.rooks, s.queens, s.king, x);
    lemma_disjoint_bits(x);
    assert forall|q: Piece| q != p implies !get_bit(#[trigger] piece_board(s, q), x) by {
        assert(piece_board(s, p) & piece_board(s, q) == 0 || piece_board(s, q) & piece_board(
            s,
            p,
        ) == 0);
    }
}

/// On a side whose union is in order, an occupied square names a
/// piece kind, disjoint boards or not.
pub proof fn lemma_what_some(s: BitboardSet, sq: u8)
    requires
        s.all == union_boards(s),
        get_bit(s.all, sq as u64),
        sq < 64,
    ensures
        s.spec_what(sq) is Some,
{
    lemma_union_membership(s.pawns, s.knights, s.bishops, s.rooks, s.queens, s.king, sq as u64);
}

/// On a well-formed side, `what` answers by bit membership: the square
/// holds kind `p` exactly when the board of `p` has the bit set.
pub proof fn lemma_what_characterises(s: BitboardSet, sq: u8, p: Piece)
    requires
        set_wf(s),
        sq < 64,
    ensures
        s.spec_what(sq) == Some(p) <==> get_bit(piece_board(s, p), sq as u64),
        s.spec_what(sq) is None <==> !get_bit(s.all, sq as u64),
{
    let n = sq as u64;
    lemma_union_membership(s.pawns, s.knights, s.bishops, s.rooks, s.queens, s.king, n);
    lemma_disjoint_bits(n);
}

/// A bit is in a union exactly when it is in one of the parts.
pub proof fn lemma_union_membership(a: u64, b: u64, c: u64, d: u64, e: u64, f: u64, n: u64)
    by (bit_vector)
    requires
        n < 64,
    ensures
        get_bit(a | b | c | d | e | f, n) == (get_bit(a, n) || get_bit(b, n) || get_bit(c, n)
            || get_bit(d, n) || get_bit(e, n) || get_bit(f, n)),
{
}

/// Disjoint boards cannot share a bit.
pub proof fn lemma_disjoint_bits(n: u64)
    by (bit_vector)
    requires
        n < 64,
    ensures
        forall|x: u64, y: u64| x & y == 0 ==> !(#[trigger] get_bit(x, n) && #[trigger] get_bit(y, n)),
{
}

} // verus!
