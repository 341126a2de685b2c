//! Piece kinds and their table indices and material values.

use vstd::prelude::*;

verus! {

#[derive(Debug, PartialEq, Eq, Structural, Hash, Copy, Clone)]
pub enum Piece {
    Pawn,
    Knight,
    Bishop,
    Rook,
    Queen,
    King,
}

impl Piece {
    /// Lower-case letter of the piece in algebraic and FEN notation.
    pub fn to_char(&self) -> (r: char)
        ensures
            r == self.spec_char(),
    {
        match self {
            Piece::Pawn => 'p',
            Piece::Knight => 'n',
            Piece::Bishop => 'b',
            Piece::Rook => 'r',
            Piece::Queen => 'q',
            Piece::King => 'k',
        }
    }

    /// Spec view of `to_char`.
    pub open spec fn spec_char(self) -> char {
        match self {
            Piece::Pawn => 'p',
            Piece::Knight => 'n',
            Piece::Bishop => 'b',
            Piece::Rook => 'r',
            Piece::Queen => 'q',
            Piece::King => 'k',
        }
    }

    /// Every piece kind, in index order.
    pub fn all_variants() -> (r: [Piece; 6])
        ensures
            r@ == seq![
                Piece::Pawn,
                Piece::Knight,
                Piece::Bishop,
                Piece::Rook,
                Piece::Queen,
                Piece::King,
            ],
    {
        let r = [Piece::Pawn, Piece::Knight, Piece::Bishop, Piece::Rook, Piece::Queen, Piece::King];
        proof {
            assert(r@ =~= seq![
                Piece::Pawn,
                Piece::Knight,
                Piece::Bishop,
                Piece::Rook,
                Piece::Queen,
                Piece::King,
            ]);
        }
        r
    }

    /// Spec view of `value`.
    pub open spec fn spec_value(self) -> i32 {
        match self {
            Piece::Pawn => 100,
            Piece::Knight => 300,
            Piece::Bishop => 330,
            Piece::Rook => 500,
            Piece::Queen => 900,
            Piece::King => 100000,
        }
    }

    /// Material value used by the evaluation function.
    pub fn value(&self) -> (r: i32)
        ensures
            r == self.spec_value(),
    {
        match self {
            Piece::Pawn => 100,
            Piece::Knight => 300,
            Piece::Bishop => 330,
            Piece::Rook => 500,
            Piece::Queen => 900,
            Piece::King => 100_000,
        }
    }

    /// Spec view of `index`.
    pub open spec fn spec_index(self) -> int {
        match self {
            Piece::Pawn => 0,
            Piece::Knight => 1,
            Piece::Bishop => 2,
            Piece::Rook => 3,
            Piece::Queen => 4,
            Piece::King => 5,
        }
    }

    /// Table index of the piece kind, in `[0, 5]`.
    pub fn index(&self) -> (r: usize)
        ensures
            r == self.spec_index(),
    {
        match self {
            Piece::Pawn => 0,
            Piece::Knight => 1,
            Piece::Bishop => 2,
            Piece::Rook => 3,
            Piece::Queen => 4,
            Piece::King => 5,
        }
    }

    /// The piece's index as a byte, for packed encodings.
    pub fn encode(&self) -> (r: u8)
        ensures
            r == self.spec_index(),
    {
        match self {
            Piece::Pawn => 0,
            Piece::Knight => 1,
            Piece::Bishop => 2,
            Piece::Rook => 3,
            Piece::Queen => 4,
            Piece::King => 5,
        }
    }

    /// Inverse of `encode`; the reserved empty code gives `None`.
    pub fn decode(x: u8) -> (r: Option<Piece>)
        requires
            x <= 5 || x == 7,
        ensures
            match r {
                Some(p) => p.spec_index() == x,
                None => x == 7,
            },
    {
        if x == Piece::empty() {
            return None;
        }
        match x {
            0 => Some(Piece::Pawn),
            1 => Some(Piece::Knight),
            2 => Some(Piece::Bishop),
            3 => Some(Piece::Rook),
            4 => Some(Piece::Queen),
            _ => Some(Piece::King),
        }
    }

    /// The byte code standing for "no piece" in packed encodings.
    pub fn empty() -> (r: u8)
        ensures
            r == 7,
    {
        0b111
    }
}

} // verus!
