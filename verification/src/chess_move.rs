//! The move record, castling sides and castling rights.

use vstd::prelude::*;
use vstd::string::StringSliceAdditionalSpecFns;

use crate::board;
use crate::piece::Piece;
use crate::player::Player;

verus! {

/// One move: source and target squares, the moving piece, and the
/// flags that select the special make/unmake paths.
#[derive(Debug, PartialEq, Eq, Hash, Clone, Copy)]
pub struct Move {
    pub from: u8,
    pub to: u8,
    pub piece: Piece,
    pub capture: bool,
    pub promotion: Option<Piece>,
    pub en_passant: bool,
    pub double_push: bool,
    pub kingside_castling: bool,
    pub queenside_castling: bool,
}

impl Move {
    /// A plain piece move with no special flag.
    pub fn new(from: u8, to: u8, piece: Piece, capture: bool) -> (m: Move)
        ensures
            m == (Move {
                from,
                to,
                piece,
                capture,
                promotion: None,
                en_passant: false,
                double_push: false,
                kingside_castling: false,
                queenside_castling: false,
            }),
    {
        Move {
            from,
            to,
            piece,
            capture,
            promotion: None,
            en_passant: false,
            double_push: false,
            kingside_castling: false,
            queenside_castling: false,
        }
    }

    /// A pawn move; the double-push flag is derived from the distance.
    pub fn pawn(from: u8, to: u8, capture: bool, promotion: Option<Piece>, en_passant: bool) -> (m:
        Move)
        requires
            from < 64,
            to < 64,
        ensures
            m == (Move {
                from,
                to,
                piece: Piece::Pawn,
                capture,
                promotion,
                en_passant,
                double_push: (to == from + 16 || from == to + 16),
                kingside_castling: false,
                queenside_castling: false,
            }),
    {
        let double_push: bool = if to >= from {
            to - from == 16
        } else {
            from - to == 16
        };
        Move {
            from,
            to,
            piece: Piece::Pawn,
            capture,
            promotion,
            en_passant,
            double_push,
            kingside_castling: false,
            queenside_castling: false,
        }
    }

    /// Spec view of `castling`.
    pub open spec fn spec_castling(player: Player, side: CastlingSide) -> Move {
        Move {
            from: if player is White {
                board::E1
            } else {
                board::E8
            },
            to: match (player, side) {
                (Player::White, CastlingSide::KingSide) => board::G1,
                (Player::White, CastlingSide::QueenSide) => board::C1,
                (Player::Black, CastlingSide::KingSide) => board::G8,
                (Player::Black, CastlingSide::QueenSide) => board::C8,
            },
            piece: Piece::King,
            capture: false,
            promotion: None,
            en_passant: false,
            double_push: false,
            kingside_castling: side is KingSide,
            queenside_castling: side is QueenSide,
        }
    }

    /// The castling move of the given side and colour; squares are
    /// fixed by the rules (e1 to g1 or c1, e8 to g8 or c8).
    pub fn castling(player: Player, side: CastlingSide) -> (m: Move)
        ensures
            m == Move::spec_castling(player, side),
    {
        Move {
            from: match player {
                Player::White => board::E1,
                Player::Black => board::E8,
            },
            to: match (player, side) {
                (Player::White, CastlingSide::KingSide) => board::G1,
                (Player::White, CastlingSide::QueenSide) => board::C1,
                (Player::Black, CastlingSide::KingSide) => board::G8,
                (Player::Black, CastlingSide::QueenSide) => board::C8,
            },
            piece: Piece::King,
            capture: false,
            promotion: None,
            en_passant: false,
            double_push: false,
            kingside_castling: match side {
                CastlingSide::KingSide => true,
                CastlingSide::QueenSide => false,
            },
            queenside_castling: match side {
                CastlingSide::KingSide => false,
                CastlingSide::QueenSide => true,
            },
        }
    }

    /// Does the move castle to either side?
    pub fn is_castling(&self) -> (r: bool)
        ensures
            r == (self.kingside_castling || self.queenside_castling),
    {
        self.kingside_castling || self.queenside_castling
    }

    /// The move's name in UCI long algebraic notation, as utf-8 bytes:
    /// from square, to square, and the promotion letter if any.
    pub open spec fn spec_uci_bytes(self) -> Seq<u8> {
        crate::utility::square_name_bytes(self.from) + crate::utility::square_name_bytes(self.to)
            + match self.promotion {
            Some(p) => seq![p.spec_char() as u8],
            None => Seq::<u8>::empty(),
        }
    }

    /// The move's name in UCI long algebraic notation.
    pub fn uci_string(&self) -> (r: String)
        requires
            self.from < 64,
            self.to < 64,
        ensures
            vstd::utf8::encode_utf8(r@) == self.spec_uci_bytes(),
            r@.len() == if self.promotion is Some {
                5int
            } else {
                4int
            },
    {
        let mut s: String = crate::utility::square_idx_to_string(self.from);
        let to_name: String = crate::utility::square_idx_to_string(self.to);
        vstd::string::StringExecFns::append(&mut s, to_name.as_str());
        match self.promotion {
            Some(p) => {
                let letter: &str = match p {
                    Piece::Pawn => "p",
                    Piece::Knight => "n",
                    Piece::Bishop => "b",
                    Piece::Rook => "r",
                    Piece::Queen => "q",
                    Piece::King => "k",
                };
                proof {
                    reveal_strlit("p");
                    reveal_strlit("n");
                    reveal_strlit("b");
                    reveal_strlit("r");
                    reveal_strlit("q");
                    reveal_strlit("k");
                }
                vstd::string::StringExecFns::append(&mut s, letter);
                proof {
                    assert(s@ =~= crate::utility::square_name(self.from)
                        + crate::utility::square_name(self.to) + seq![p.spec_char()]);
                }
            },
            None => {
                proof {
                    assert(s@ =~= crate::utility::square_name(self.from)
                        + crate::utility::square_name(self.to) + Seq::<char>::empty());
                }
            },
        }
        proof {
            lemma_uci_bytes(*self, s@);
        }
        s
    }
}

/// Utf-8 encoding distributes over concatenation.
pub proof fn lemma_encode_utf8_concat(a: Seq<char>, b: Seq<char>)
    ensures
        vstd::utf8::encode_utf8(a + b) == vstd::utf8::encode_utf8(a) + vstd::utf8::encode_utf8(b),
    decreases a.len(),
{
    if a.len() == 0 {
        assert(a + b =~= b);
        assert(vstd::utf8::encode_utf8(a) + vstd::utf8::encode_utf8(b) =~= vstd::utf8::encode_utf8(
            b,
        ));
    } else {
        assert((a + b).drop_first() =~= a.drop_first() + b);
        lemma_encode_utf8_concat(a.drop_first(), b);
        assert(vstd::utf8::encode_utf8(a + b) =~= vstd::utf8::encode_utf8(a)
            + vstd::utf8::encode_utf8(b));
    }
}

/// The utf-8 bytes of a move name built from ascii square names and an
/// ascii promotion letter.
proof fn lemma_uci_bytes(m: Move, s: Seq<char>)
    requires
        m.from < 64,
        m.to < 64,
        s == crate::utility::square_name(m.from) + crate::utility::square_name(m.to) + match m
            .promotion {
            Some(p) => seq![p.spec_char()],
            None => Seq::<char>::empty(),
        },
    ensures
        vstd::utf8::encode_utf8(s) == m.spec_uci_bytes(),
        s.len() == if m.promotion is Some {
            5int
        } else {
            4int
        },
{
    assert(vstd::utf8::is_ascii_chars(s));
    vstd::utf8::is_ascii_chars_encode_utf8(s);
    assert(vstd::utf8::encode_utf8(s) =~= m.spec_uci_bytes());
}

#[derive(PartialEq, Eq, Structural, Clone, Copy, Debug)]
pub enum CastlingSide {
    KingSide,
    QueenSide,
}

/// The four independent castling permissions.
#[derive(Clone, Copy, PartialEq, Eq, Structural, Debug)]
pub struct CastlingRights {
    pub white_kingside: bool,
    pub white_queenside: bool,
    pub black_kingside: bool,
    pub black_queenside: bool,
}

impl Default for CastlingRights {
    /// All four rights granted, as at the start of a game.
    fn default() -> (r: Self)
        ensures
            r == (CastlingRights {
                white_kingside: true,
                white_queenside: true,
                black_kingside: true,
                black_queenside: true,
            }),
    {
        CastlingRights {
            white_kingside: true,
            white_queenside: true,
            black_kingside: true,
            black_queenside: true,
        }
    }
}

impl CastlingRights {
    /// Rights read from a FEN-style string: each of `KQkq` grants one.
    pub fn from_string(s: &str) -> (r: Self)
        ensures
            r.white_kingside == s.spec_bytes().contains('K' as u8),
            r.white_queenside == s.spec_bytes().contains('Q' as u8),
            r.black_kingside == s.spec_bytes().contains('k' as u8),
            r.black_queenside == s.spec_bytes().contains('q' as u8),
    {
        let bytes: &[u8] = s.as_bytes();
        let mut rights = CastlingRights {
            white_kingside: false,
            white_queenside: false,
            black_kingside: false,
            black_queenside: false,
        };
        let mut i: usize = 0;
        while i < bytes.len()
            invariant
                i <= bytes@.len(),
                rights.white_kingside == bytes@.take(i as int).contains('K' as u8),
                rights.white_queenside == bytes@.take(i as int).contains('Q' as u8),
                rights.black_kingside == bytes@.take(i as int).contains('k' as u8),
                rights.black_queenside == bytes@.take(i as int).contains('q' as u8),
            decreases bytes@.len() - i,
        {
            let b: u8 = bytes[i];
            if b == 75 {
                rights.white_kingside = true;
            } else if b == 81 {
                rights.white_queenside = true;
            } else if b == 107 {
                rights.black_kingside = true;
            } else if b == 113 {
                rights.black_queenside = true;
            }
            proof {
                assert(bytes@.take(i + 1).drop_last() =~= bytes@.take(i as int));
                assert(bytes@.take(i + 1).last() == bytes@[i as int]);
                lemma_take_contains(bytes@, i as int, 'K' as u8);
                lemma_take_contains(bytes@, i as int, 'Q' as u8);
                lemma_take_contains(bytes@, i as int, 'k' as u8);
                lemma_take_contains(bytes@, i as int, 'q' as u8);
            }
            i = i + 1;
        }
        proof {
            assert(bytes@.take(bytes@.len() as int) =~= bytes@);
        }
        rights
    }

    /// Spec view of `encode`.
    pub open spec fn spec_encode(self) -> u8 {
        ((if self.white_kingside {
            1int
        } else {
            0int
        }) + (if self.white_queenside {
            2int
        } else {
            0int
        }) + (if self.black_kingside {
            4int
        } else {
            0int
        }) + (if self.black_queenside {
            8int
        } else {
            0int
        })) as u8
    }

    /// The rights packed into four bits: white kingside is bit 0,
    /// white queenside bit 1, black kingside bit 2, black queenside bit 3.
    pub fn encode(&self) -> (r: u8)
        ensures
            r == self.spec_encode(),
            r < 16,
    {
        let mut r: u8 = 0;
        if self.white_kingside {
            r = r + 1;
        }
        if self.white_queenside {
            r = r + 2;
        }
        if self.black_kingside {
            r = r + 4;
        }
        if self.black_queenside {
            r = r + 8;
        }
        r
    }

    /// Spec view of `reset`.
    pub open spec fn spec_reset(self, player: Player) -> CastlingRights {
        match player {
            Player::White => CastlingRights {
                white_kingside: false,
                white_queenside: false,
                ..self
            },
            Player::Black => CastlingRights {
                black_kingside: false,
                black_queenside: false,
                ..self
            },
        }
    }

    /// Withdraw both rights of one side.
    pub fn reset(&mut self, player: Player)
        ensures
            *final(self) == old(self).spec_reset(player),
    {
        match player {
            Player::White => {
                self.white_kingside = false;
                self.white_queenside = false;
            },
            Player::Black => {
                self.black_kingside = false;
                self.black_queenside = false;
            },
        }
    }

    /// Spec view of `reset_side`.
    pub open spec fn spec_reset_side(self, player: Player, side: CastlingSide) -> CastlingRights {
        match (player, side) {
            (Player::White, CastlingSide::QueenSide) => CastlingRights {
                white_queenside: false,
                ..self
            },
            (Player::White, CastlingSide::KingSide) => CastlingRights {
                white_kingside: false,
                ..self
            },
            (Player::Black, CastlingSide::QueenSide) => CastlingRights {
                black_queenside: false,
                ..self
            },
            (Player::Black, CastlingSide::KingSide) => CastlingRights {
                black_kingside: false,
                ..self
            },
        }
    }

    /// Withdraw one right of one side.
    pub fn reset_side(&mut self, player: Player, side: CastlingSide)
        ensures
            *final(self) == old(self).spec_reset_side(player, side),
    {
        match (player, side) {
            (Player::White, CastlingSide::QueenSide) => self.white_queenside = false,
            (Player::White, CastlingSide::KingSide) => self.white_kingside = false,
            (Player::Black, CastlingSide::QueenSide) => self.black_queenside = false,
            (Player::Black, CastlingSide::KingSide) => self.black_kingside = false,
        }
    }

    /// Spec view of `any`.
    pub open spec fn spec_any(self, player: Player) -> bool {
        match player {
            Player::White => self.white_kingside || self.white_queenside,
            Player::Black => self.black_kingside || self.black_queenside,
        }
    }

    /// Does the side still hold a right?
    pub fn any(&self, player: Player) -> (r: bool)
        ensures
            r == self.spec_any(player),
    {
        match player {
            Player::White => self.white_kingside || self.white_queenside,
            Player::Black => self.black_kingside || self.black_queenside,
        }
    }
}

/// Membership in a longer prefix is membership in the shorter one or
/// equality with the newly covered element.
proof fn lemma_take_contains(s: Seq<u8>, i: int, x: u8)
    requires
        0 <= i < s.len(),
    ensures
        s.take(i + 1).contains(x) == (s.take(i).contains(x) || s[i] == x),
{
    if s.take(i + 1).contains(x) {
        let j = choose|j: int| 0 <= j < i + 1 && #[trigger] s.take(i + 1)[j] == x;
        if j < i {
            assert(s.take(i)[j] == x);
        }
    }
    if s.take(i).contains(x) {
        let j = choose|j: int| 0 <= j < i && #[trigger] s.take(i)[j] == x;
        assert(s.take(i + 1)[j] == x);
    }
    if s[i] == x {
        assert(s.take(i + 1)[i] == x);
    }
}

} // verus!
