//! The game: current position, undo stack, halfmove clock, draw
//! detection, legality filtering, and the alpha-beta search.

use vstd::prelude::*;

use crate::checks::{is_king_in_check, spec_is_king_in_check};
use crate::chess_move::Move;
use crate::constants::{CHECKMATE_EVAL, DRAW_EVAL, GAME_HISTORY_CAPACITY};
use crate::draw::is_insufficient_material;
use crate::make::{make_move, spec_make, spec_new_clock, spec_undo};
use crate::movegen::{moves_ok_from, pseudo_moves};
use crate::piece::Piece;
use crate::player::Player;
use crate::position::{hash_ok, FenParseError, Position};
use crate::unmake::{undo_wf, unmake_move, UndoData};

verus! {

/// A game in progress: the position, the undo records of the moves
/// made, and the halfmove clock.
#[derive(Clone)]
pub struct Game {
    pub position: Position,
    pub undos: Vec<UndoData>,
    pub halfmove_clock: usize,
}

/// A game the library's updates keep working on: the position is
/// structurally well formed — unions in order, boards disjoint, the
/// en-passant square on the board.
pub open spec fn game_wf(g: Game) -> bool {
    crate::position::pos_wf(g.position)
}

/// Some draw rule holds of the game as it stands: threefold
/// repetition over the recorded history, the fifty-move rule, or
/// insufficient material.
pub open spec fn spec_draw_state(g: Game) -> bool {
    ||| 1 + count_hash_matches(g.undos@, g.position.zobrist_hash) >= 3
    ||| g.halfmove_clock >= 100
    ||| crate::draw::spec_insufficient_material(g.position)
}

/// No supported move of the side to move leaves its king safe.
pub open spec fn no_legal_move(pos: Position) -> bool {
    forall|m: Move|
        #[trigger] crate::make::move_ok(pos, m) ==> spec_is_king_in_check(
            spec_make(pos, m),
            pos.player_to_move,
        )
}

/// The score of a position without a legal move: a mate against the
/// side to move, weighted so that a nearer mate weighs heavier, or a
/// stalemate draw.
pub open spec fn spec_terminal_score(pos: Position, depth: int) -> int {
    if spec_is_king_in_check(pos, pos.player_to_move) {
        if pos.player_to_move is White {
            -CHECKMATE_EVAL + depth
        } else {
            CHECKMATE_EVAL - depth
        }
    } else {
        DRAW_EVAL as int
    }
}

/// The undo record on top of the stack records a supported move made
/// from some well-formed earlier position.
pub open spec fn undo_matches(pos: Position, undo: UndoData) -> bool {
    exists|pre: Position, c: nat|
        #![trigger spec_undo(pre, undo.move_to_undo, c)]
        {
            &&& crate::position::pos_wf(pre)
            &&& crate::make::move_ok(pre, undo.move_to_undo)
            &&& pos == spec_make(pre, undo.move_to_undo)
            &&& undo == spec_undo(pre, undo.move_to_undo, c)
        }
}

/// Hashes among the undo records equal to `h`.
pub open spec fn count_hash_matches(undos: Seq<UndoData>, h: u64) -> int
    decreases undos.len(),
{
    if undos.len() == 0 {
        0
    } else {
        count_hash_matches(undos.drop_last(), h) + if undos.last().zobrist_hash == h {
            1int
        } else {
            0int
        }
    }
}

impl Default for Game {
    /// A fresh game from the standard starting position.
    fn default() -> (g: Self)
        ensures
            game_wf(g),
            g.position == Position::initial_position(),
            g.undos@.len() == 0,
            g.halfmove_clock == 0,
    {
        Game::new_game()
    }
}

impl Game {
    /// A fresh game from the standard starting position.
    pub fn new_game() -> (g: Game)
        ensures
            game_wf(g),
            g.position == Position::initial_position(),
            g.undos@.len() == 0,
            g.halfmove_clock == 0,
    {
        let undos: Vec<UndoData> = Vec::with_capacity(GAME_HISTORY_CAPACITY);
        let position = Position::start();
        Game { position, undos, halfmove_clock: 0 }
    }

    /// A game starting from the given position with a clock of zero.
    pub fn new(pos: Position) -> (g: Game)
        requires
            crate::position::pos_wf(pos),
        ensures
            game_wf(g),
            g.position == pos,
            g.undos@.len() == 0,
            g.halfmove_clock == 0,
    {
        let undos: Vec<UndoData> = Vec::with_capacity(GAME_HISTORY_CAPACITY);
        Game { position: pos, undos, halfmove_clock: 0 }
    }

    /// A game read from a FEN string, its clock included.
    pub fn from_fen(fen: &str) -> (r: Result<Game, FenParseError>)
        ensures
            match r {
                Ok(g) => {
                    &&& game_wf(g)
                    &&& crate::position::pos_wf(g.position)
                    &&& hash_ok(g.position)
                    &&& g.undos@.len() == 0
                },
                Err(_) => true,
            },
    {
        match Position::from_fen(fen) {
            Ok((position, clock)) => {
                let undos: Vec<UndoData> = Vec::with_capacity(GAME_HISTORY_CAPACITY);
                Ok(Game { position, undos, halfmove_clock: clock })
            },
            Err(e) => Err(e),
        }
    }

    /// The current position.
    pub fn position(&self) -> (r: &Position)
        ensures
            r == self.position,
    {
        &self.position
    }

    /// Every pseudo-legal move of the current position.
    pub fn pseudo_moves(&self) -> (moves: Vec<Move>)
        requires
            game_wf(*self),
        ensures
            moves_ok_from(self.position, moves@, 0),
    {
        pseudo_moves(&self.position)
    }

    /// Make the move if the position supports it and it leaves the
    /// mover's king safe; report whether it was kept — if and only if
    /// both held. A kept move advances the position, the clock, and
    /// the undo stack; anything else leaves the game exactly as it
    /// was.
    #[verifier::rlimit(100)]
    pub fn try_to_make_move(&mut self, m: &Move) -> (legal: bool)
        requires
            game_wf(*old(self)),
            old(self).halfmove_clock < 1_000_000_000,
        ensures
            game_wf(*final(self)),
            final(self).halfmove_clock <= old(self).halfmove_clock + 1,
            legal == (crate::make::move_ok(old(self).position, *m) && !spec_is_king_in_check(
                spec_make(old(self).position, *m),
                old(self).position.player_to_move,
            )),
            legal ==> {
                &&& final(self).position == spec_make(old(self).position, *m)
                &&& final(self).undos@ == old(self).undos@.push(
                    spec_undo(old(self).position, *m, old(self).halfmove_clock as nat),
                )
                &&& final(self).halfmove_clock == spec_new_clock(
                    *m,
                    old(self).halfmove_clock as nat,
                )
                &&& undo_wf(final(self).position, final(self).undos@.last())
                &&& undo_matches(final(self).position, final(self).undos@.last())
            },
            !legal ==> {
                &&& final(self).position == old(self).position
                &&& final(self).undos@ == old(self).undos@
                &&& final(self).halfmove_clock == old(self).halfmove_clock
            },
    {
        if !move_supported(&self.position, m) {
            return false;
        }
        proof {
            crate::make::lemma_move_ok_exec(old(self).position, *m);
        }
        let mut clock: usize = self.halfmove_clock;
        let undo = make_move(&mut self.position, m, &mut clock);

        proof {
            if !(m.kingside_castling || m.queenside_castling) && m.capture && !m.en_passant {
                crate::bitboard::lemma_what_some(
                    crate::position::hostile_set(old(self).position),
                    m.to,
                );
            }
            assert(undo_wf(self.position, undo));
            crate::make::lemma_make_preserves_wf(old(self).position, *m);
        }
        if is_king_in_check(&self.position, self.position.player_to_move.opposite()) {
            unmake_move(&mut self.position, undo, &mut clock);
            self.halfmove_clock = clock;
            proof {
                crate::laws::lemma_unmake_reverses_make(
                    old(self).position,
                    *m,
                    old(self).halfmove_clock as nat,
                );
            }
            return false;
        }

        self.undos.push(undo);
        self.halfmove_clock = clock;

        proof {
            assert(undo_matches(self.position, undo)) by {
                assert(undo == spec_undo(
                    old(self).position,
                    *m,
                    old(self).halfmove_clock as nat,
                ));
            }
        }
        true
    }

    /// Revert the most recent made move. The record on top of the
    /// stack must come from a make on this game, as every record the
    /// game pushes does.
    pub fn unmake_move(&mut self)
        requires
            old(self).undos@.len() > 0,
            undo_wf(old(self).position, old(self).undos@.last()),
            undo_matches(old(self).position, old(self).undos@.last()),
        ensures
            game_wf(*final(self)),
            final(self).undos@ == old(self).undos@.drop_last(),
            final(self).position == crate::unmake::spec_unmake(
                old(self).position,
                old(self).undos@.last(),
            ),
            final(self).halfmove_clock == old(self).undos@.last().halfmove_clock,
    {
        let mut clock: usize = self.halfmove_clock;
        let undo = self.undos.pop().unwrap();
        unmake_move(&mut self.position, undo, &mut clock);
        self.halfmove_clock = clock;
        proof {
            assert(final(self).undos@ =~= old(self).undos@.drop_last());
            let (pre, c) = choose|pre: Position, c: nat|
                #![trigger spec_undo(pre, undo.move_to_undo, c)]
                {
                    &&& crate::position::pos_wf(pre)
                    &&& crate::make::move_ok(pre, undo.move_to_undo)
                    &&& old(self).position == spec_make(pre, undo.move_to_undo)
                    &&& undo == spec_undo(pre, undo.move_to_undo, c)
                };
            crate::laws::lemma_unmake_reverses_make(pre, undo.move_to_undo, c);
        }
    }

    /// Apply a move given in UCI long algebraic notation by matching
    /// it against the pseudo-legal move list. True means a supported,
    /// king-safe move bearing exactly that name was made; anything
    /// else — an unknown name, no matching move, an illegal match —
    /// leaves the game unchanged.
    pub fn try_to_make_uci_move(&mut self, uci: &str) -> (r: bool)
        requires
            game_wf(*old(self)),
            old(self).halfmove_clock < 1_000_000_000,
        ensures
            game_wf(*final(self)),
            final(self).halfmove_clock <= old(self).halfmove_clock + 1,
            !r ==> {
                &&& final(self).position == old(self).position
                &&& final(self).undos@ == old(self).undos@
                &&& final(self).halfmove_clock == old(self).halfmove_clock
            },
            r ==> exists|mv: Move|
                #![trigger spec_make(old(self).position, mv)]
                {
                    &&& mv.spec_uci_bytes() == vstd::utf8::encode_utf8(uci@)
                    &&& crate::make::move_ok(old(self).position, mv)
                    &&& !spec_is_king_in_check(
                        spec_make(old(self).position, mv),
                        old(self).position.player_to_move,
                    )
                    &&& final(self).position == spec_make(old(self).position, mv)
                    &&& final(self).undos@ == old(self).undos@.push(
                        spec_undo(old(self).position, mv, old(self).halfmove_clock as nat),
                    )
                    &&& final(self).halfmove_clock == spec_new_clock(
                        mv,
                        old(self).halfmove_clock as nat,
                    )
                },
    {
        let n: usize = uci.unicode_len();
        if n != 4 && n != 5 {
            return false;
        }
        let from_str: &str = uci.substring_char(0, 2);
        let from: u8 = match crate::utility::square_string_to_idx(from_str) {
            Some(sq) => sq,
            None => {
                return false;
            },
        };
        let to_str: &str = uci.substring_char(2, 4);
        let to: u8 = match crate::utility::square_string_to_idx(to_str) {
            Some(sq) => sq,
            None => {
                return false;
            },
        };
        let promotion: Option<Piece> = if n == 5 {
            let c: char = uci.get_char(4);
            if c == 'q' {
                Some(Piece::Queen)
            } else if c == 'r' {
                Some(Piece::Rook)
            } else if c == 'b' {
                Some(Piece::Bishop)
            } else if c == 'n' {
                Some(Piece::Knight)
            } else {
                return false;
            }
        } else {
            None
        };
        proof {
            lemma_uci_name_bytes(uci@, from_str@, to_str@, from, to, n as int);
        }

        let moves = self.pseudo_moves();
        let mut i: usize = 0;
        while i < moves.len()
            invariant
                game_wf(*self),
                self.halfmove_clock == old(self).halfmove_clock,
                self.halfmove_clock < 1_000_000_000,
                moves_ok_from(self.position, moves@, 0),
                self.position == old(self).position,
                self.undos@ == old(self).undos@,
                crate::utility::square_name_bytes(from) + crate::utility::square_name_bytes(to)
                    + match promotion {
                    Some(p) => seq![p.spec_char() as u8],
                    None => Seq::<u8>::empty(),
                } == vstd::utf8::encode_utf8(uci@),
            decreases moves@.len() - i,
        {
            let m = moves[i];
            let promo_matches: bool = match (m.promotion, promotion) {
                (Option::None, Option::None) => true,
                (Option::Some(a), Option::Some(b)) => a == b,
                _ => false,
            };
            if m.from == from && m.to == to && promo_matches {
                let applied = self.try_to_make_move(&m);
                proof {
                    if applied {
                        assert(m.spec_uci_bytes() =~= vstd::utf8::encode_utf8(uci@));
                    }
                }
                return applied;
            }
            i = i + 1;
        }
        false
    }

    /// Has the current position's hash occurred three times over the
    /// game's history, the present occurrence included?
    pub fn is_threefold_repetition(&self) -> (r: bool)
        ensures
            r == (1 + count_hash_matches(self.undos@, self.position.zobrist_hash) >= 3),
    {
        let current_hash: u64 = self.position.zobrist_hash;
        let mut count: u32 = 1;
        let mut i: usize = 0;
        while i < self.undos.len()
            invariant
                i <= self.undos@.len(),
                count <= 2,
                count == 1 + count_hash_matches(self.undos@.take(i as int), current_hash),
                current_hash == self.position.zobrist_hash,
            decreases self.undos@.len() - i,
        {
            proof {
                assert(self.undos@.take(i + 1).drop_last() =~= self.undos@.take(i as int));
            }
            if self.undos[i].zobrist_hash == current_hash {
                count = count + 1;
                if count == 3 {
                    proof {
                        lemma_count_hash_monotonic(
                            self.undos@,
                            i + 1,
                            self.undos@.len() as int,
                            current_hash,
                        );
                    }
                    return true;
                }
            }
            i = i + 1;
        }
        proof {
            assert(self.undos@.take(self.undos@.len() as int) =~= self.undos@);
        }
        false
    }

    /// Has the halfmove clock reached one hundred half-moves?
    pub fn is_fifty_move_rule(&self) -> (r: bool)
        ensures
            r == (self.halfmove_clock >= 100),
    {
        self.halfmove_clock >= 100
    }

    /// Is the material on the board insufficient for either side to
    /// mate?
    pub fn is_insufficient_material(&self) -> (r: bool)
        ensures
            r == crate::draw::spec_insufficient_material(self.position),
    {
        is_insufficient_material(&self.position)
    }
}

/// Does the move meet the in-place update's own needs on this
/// position? Every move the generator emits does; the test shields
/// the update from hand-built records.
/// Does the position fully support the move, exactly as `move_ok`
/// says? Every move the generator emits on a consistent position
/// does; the test shields the update and the acceptance contract from
/// hand-built records.
fn move_supported(pos: &Position, m: &Move) -> (r: bool)
    ensures
        r == crate::make::move_ok(*pos, *m),
{
    if m.from >= 64 || m.to >= 64 || m.from == m.to {
        return false;
    }
    if m.kingside_castling && m.queenside_castling {
        return false;
    }
    let white: bool = matches!(pos.player_to_move, Player::White);
    let friendly: &crate::bitboard::BitboardSet = if white {
        &pos.w
    } else {
        &pos.b
    };
    let hostile: &crate::bitboard::BitboardSet = if white {
        &pos.b
    } else {
        &pos.w
    };
    if m.kingside_castling || m.queenside_castling {
        let kingside: bool = m.kingside_castling;
        let expected = Move::castling(pos.player_to_move, if kingside {
            crate::chess_move::CastlingSide::KingSide
        } else {
            crate::chess_move::CastlingSide::QueenSide
        });
        let fields_match: bool = m.from == expected.from && m.to == expected.to && matches!(
            m.piece,
            Piece::King,
        ) && !m.capture && m.promotion.is_none() && !m.en_passant && !m.double_push;
        if !fields_match {
            return false;
        }
        let right: bool = if white {
            if kingside {
                pos.castling.white_kingside
            } else {
                pos.castling.white_queenside
            }
        } else {
            if kingside {
                pos.castling.black_kingside
            } else {
                pos.castling.black_queenside
            }
        };
        if !right {
            return false;
        }
        let rook_from: u8 = if kingside {
            if white {
                crate::board::H1
            } else {
                crate::board::H8
            }
        } else {
            if white {
                crate::board::A1
            } else {
                crate::board::A8
            }
        };
        let rook_to: u8 = if kingside {
            if white {
                crate::board::F1
            } else {
                crate::board::F8
            }
        } else {
            if white {
                crate::board::D1
            } else {
                crate::board::D8
            }
        };
        let occ: u64 = pos.w.all | pos.b.all;
        if friendly.king & (1u64 << m.from) == 0 {
            return false;
        }
        if friendly.rooks & (1u64 << rook_from) == 0 {
            return false;
        }
        if occ & (1u64 << m.to) != 0 || occ & (1u64 << rook_to) != 0 {
            return false;
        }
        let enemy = pos.player_to_move.opposite();
        let mid: u8 = (m.from + m.to) / 2;
        if crate::checks::is_square_attacked(pos, m.from as usize, enemy)
            || crate::checks::is_square_attacked(pos, mid as usize, enemy)
            || crate::checks::is_square_attacked(pos, m.to as usize, enemy) {
            return false;
        }
        proof {
            assert(*m == Move::spec_castling(pos.player_to_move, if m.kingside_castling {
                crate::chess_move::CastlingSide::KingSide
            } else {
                crate::chess_move::CastlingSide::QueenSide
            }));
        }
        return true;
    }
    let moving_board: u64 = *friendly.piece_to_bb(m.piece);
    if moving_board & (1u64 << m.from) == 0 {
        return false;
    }
    if friendly.all & (1u64 << m.to) != 0 {
        return false;
    }
    match m.promotion {
        Some(pp) => {
            if !matches!(m.piece, Piece::Pawn) || matches!(pp, Piece::Pawn) || matches!(
                pp,
                Piece::King,
            ) {
                return false;
            }
            if white {
                if m.to < 56 {
                    return false;
                }
            } else {
                if m.to >= 8 {
                    return false;
                }
            }
        },
        None => {},
    }
    if m.en_passant {
        if !m.capture || !matches!(m.piece, Piece::Pawn) || m.promotion.is_some() {
            return false;
        }
        let ep_is_target: bool = match pos.en_passant_square {
            Some(sq) => sq == m.to,
            None => false,
        };
        if !ep_is_target {
            return false;
        }
        if hostile.all & (1u64 << m.to) != 0 {
            return false;
        }
        if white {
            if m.to < 8 || hostile.pawns & (1u64 << (m.to - 8)) == 0 {
                return false;
            }
        } else {
            if m.to >= 56 || hostile.pawns & (1u64 << (m.to + 8)) == 0 {
                return false;
            }
        }
    } else {
        if m.capture != (hostile.all & (1u64 << m.to) != 0) {
            return false;
        }
    }
    if m.double_push {
        if !matches!(m.piece, Piece::Pawn) || m.capture || m.promotion.is_some() {
            return false;
        }
        let dist_ok: bool = if m.to >= m.from {
            m.to - m.from == 16
        } else {
            m.from - m.to == 16
        };
        if !dist_ok {
            return false;
        }
    }
    true
}

impl Game {
    /// One alpha-beta node: detect draws, evaluate at the horizon,
    /// poll the stop conditions every so many nodes, and otherwise
    /// take the best over the legal moves, cutting when the window
    /// closes. Returns the best move at this node, its score, the
    /// principal variation collected leaf first, and whether the
    /// search is unwinding early. The game's history, clock, and the
    /// position's scalar state come back as they were.
    fn minimax_alphabeta(
        &mut self,
        depth: usize,
        alpha: i32,
        beta: i32,
        maximize: bool,
        stop_flag: &std::sync::atomic::AtomicBool,
        start_time: &std::time::Instant,
        time_limit_ms: Option<u64>,
        nodes: &mut u64,
    ) -> (r: (Option<Move>, i32, Vec<Move>, bool))
        requires
            game_wf(*old(self)),
            old(self).halfmove_clock + depth < 1_000_000_000,
        ensures
            game_wf(*final(self)),
            final(self).position == old(self).position,
            final(self).undos@ == old(self).undos@,
            final(self).halfmove_clock == old(self).halfmove_clock,
            !r.3 ==> i32::MIN < r.1 < i32::MAX,
            spec_draw_state(*old(self)) ==> r.0 is None && r.1 == DRAW_EVAL && r.2@ == Seq::<
                Move,
            >::empty() && !r.3,
            !spec_draw_state(*old(self)) && depth == 0 ==> r.0 is None && r.1
                == crate::evaluate::spec_evaluate(old(self).position) && r.2@ == Seq::<
                Move,
            >::empty() && !r.3,
            !spec_draw_state(*old(self)) && depth >= 1 && !r.3 && no_legal_move(
                old(self).position,
            ) ==> r.0 is None && r.1 == spec_terminal_score(old(self).position, depth as int),
        decreases depth,
    {
        *nodes = nodes.wrapping_add(1);

        if self.is_threefold_repetition() || self.is_fifty_move_rule()
            || self.is_insufficient_material() {
            return (None, DRAW_EVAL, Vec::new(), false);
        }

        if depth == 0 {
            return (None, crate::evaluate::evaluate(&self.position), Vec::new(), false);
        }

        // Unwind if the stop flag was raised or the clock ran out;
        // polled every 1024 nodes because the checks cost time.
        if *nodes % 1024 == 0 {
            if stop_flag.load(std::sync::atomic::Ordering::Relaxed) {
                return (None, crate::evaluate::evaluate(&self.position), Vec::new(), true);
            }
            match time_limit_ms {
                Some(tl) => {
                    if crate::clock::elapsed_millis(start_time) >= tl {
                        return (
                            None,
                            crate::evaluate::evaluate(&self.position),
                            Vec::new(),
                            true,
                        );
                    }
                },
                None => {},
            }
        }

        let moves = self.pseudo_moves();
        let mut best_eval: i32 = if maximize {
            i32::MIN
        } else {
            i32::MAX
        };
        let mut best_move: Option<Move> = None;
        let mut best_pv: Option<Vec<Move>> = None;
        let mut found_legal_move: bool = false;
        let mut al: i32 = alpha;
        let mut be: i32 = beta;

        let mut i: usize = 0;
        while i < moves.len()
            invariant
                game_wf(*self),
                self.position == old(self).position,
                self.undos@ == old(self).undos@,
                self.halfmove_clock == old(self).halfmove_clock,
                self.halfmove_clock + depth < 1_000_000_000,
                depth >= 1,
                !spec_draw_state(*old(self)),
                found_legal_move ==> !no_legal_move(old(self).position),
                found_legal_move ==> best_pv is Some,
                found_legal_move ==> i32::MIN < best_eval < i32::MAX,
                !found_legal_move ==> best_eval == if maximize {
                    i32::MIN
                } else {
                    i32::MAX
                },
                maximize ==> best_eval < i32::MAX,
                !maximize ==> best_eval > i32::MIN,
            decreases moves@.len() - i,
        {
            let m = moves[i];
            let ghost before = *self;
            let legal = self.try_to_make_move(&m);
            if legal {
                found_legal_move = true;
                proof {
                    assert(!no_legal_move(before.position));
                }
                let (_best_response, eval, child_pv, unwind) = self.minimax_alphabeta(
                    depth - 1,
                    al,
                    be,
                    !maximize,
                    stop_flag,
                    start_time,
                    time_limit_ms,
                    nodes,
                );
                self.unmake_move();
                proof {
                    crate::laws::lemma_unmake_reverses_make(
                        before.position,
                        m,
                        before.halfmove_clock as nat,
                    );
                }

                if unwind {
                    return (None, best_eval, Vec::new(), true);
                }

                let is_better: bool = if maximize {
                    eval > best_eval
                } else {
                    eval < best_eval
                };

                if is_better {
                    best_eval = eval;
                    best_move = Some(m);
                    let mut pv = child_pv;
                    pv.push(m);
                    best_pv = Some(pv);
                }

                if maximize {
                    if eval > al {
                        al = eval;
                    }
                } else {
                    if eval < be {
                        be = eval;
                    }
                }

                if be <= al {
                    i = moves.len();
                    continue;
                }
            }
            i = i + 1;
        }

        if !found_legal_move {
            // No legal move: mate when the mover stands in check,
            // stalemate otherwise; a nearer mate weighs heavier.
            if is_king_in_check(&self.position, self.position.player_to_move) {
                let eval: i32 = match self.position.player_to_move {
                    Player::White => -CHECKMATE_EVAL + (depth as i32),
                    Player::Black => CHECKMATE_EVAL - (depth as i32),
                };
                return (None, eval, Vec::new(), false);
            } else {
                return (None, DRAW_EVAL, Vec::new(), false);
            }
        }

        (best_move, best_eval, best_pv.unwrap(), false)
    }

    /// Search the position to the given depth under the stop flag and
    /// time budget. Returns the best move, its score, the nodes
    /// visited, the principal variation leaf first, and whether the
    /// search unwound early.
    pub fn find_best_move(
        &mut self,
        depth: usize,
        stop_flag: &std::sync::atomic::AtomicBool,
        start_time: &std::time::Instant,
        time_limit_ms: Option<u64>,
    ) -> (r: (Option<Move>, i32, u64, Vec<Move>, bool))
        requires
            game_wf(*old(self)),
            old(self).halfmove_clock + depth < 1_000_000_000,
        ensures
            game_wf(*final(self)),
            final(self).position == old(self).position,
            final(self).undos@ == old(self).undos@,
            final(self).halfmove_clock == old(self).halfmove_clock,
            !r.4 ==> i32::MIN < r.1 < i32::MAX,
            spec_draw_state(*old(self)) ==> r.0 is None && r.1 == DRAW_EVAL && !r.4,
            !spec_draw_state(*old(self)) && depth == 0 ==> r.0 is None && r.1
                == crate::evaluate::spec_evaluate(old(self).position) && !r.4,
            !spec_draw_state(*old(self)) && depth >= 1 && !r.4 && no_legal_move(
                old(self).position,
            ) ==> r.0 is None && r.1 == spec_terminal_score(old(self).position, depth as int),
    {
        let maximize: bool = matches!(self.position.player_to_move, Player::White);
        let mut nodes: u64 = 0;

        let (best_move, best_eval, pv, unwind) = self.minimax_alphabeta(
            depth,
            i32::MIN,
            i32::MAX,
            maximize,
            stop_flag,
            start_time,
            time_limit_ms,
            &mut nodes,
        );

        (best_move, best_eval, nodes, pv, unwind)
    }
}

/// One iterative-deepening step: which best move to keep and whether
/// to search a ply deeper. An unwound or stopped iteration is
/// discarded and ends the search; a completed one replaces the kept
/// move; the depth cap and the time budget each end the search once
/// reached.
pub fn deepening_step(
    last: Option<Move>,
    depth: usize,
    max_depth: Option<usize>,
    completed: Option<Move>,
    unwound: bool,
    stopped: bool,
    elapsed_ms: u64,
    time_limit_ms: Option<u64>,
) -> (r: (Option<Move>, bool))
    ensures
        r.0 == if unwound || stopped {
            last
        } else {
            completed
        },
        r.1 == (!(unwound || stopped) && (match max_depth {
            Some(d) => depth < d,
            None => true,
        }) && (match time_limit_ms {
            Some(l) => elapsed_ms < l,
            None => true,
        })),
{
    if unwound || stopped {
        return (last, false);
    }
    let depth_ok: bool = match max_depth {
        Some(d) => depth < d,
        None => true,
    };
    let time_ok: bool = match time_limit_ms {
        Some(l) => elapsed_ms < l,
        None => true,
    };
    (completed, depth_ok && time_ok)
}

/// The per-move time budget for a clock game: a thirtieth of the
/// remaining time plus eight tenths of the increment, for the side to
/// move.
pub fn compute_movetime(game: &Game, wtime: usize, btime: usize, winc: usize, binc: usize) -> (r:
    usize)
    requires
        winc <= 0x0FFF_FFFF,
        binc <= 0x0FFF_FFFF,
    ensures
        r == if game.position.player_to_move is White {
            wtime / 30 + winc * 8 / 10
        } else {
            btime / 30 + binc * 8 / 10
        },
{
    let (time, inc): (usize, usize) = if matches!(game.position.player_to_move, Player::White) {
        (wtime, winc)
    } else {
        (btime, binc)
    };

    let moves_remaining: usize = 30;
    let base_time: usize = time / moves_remaining;
    let inc_bonus: usize = inc * 8 / 10;

    base_time + inc_bonus
}

/// A four- or five-character move name's utf-8 bytes are the two
/// square names followed by the promotion letter, if any.
proof fn lemma_uci_name_bytes(
    uci: Seq<char>,
    fs: Seq<char>,
    ts: Seq<char>,
    from: u8,
    to: u8,
    n: int,
)
    requires
        n == 4 || n == 5,
        uci.len() == n,
        fs == uci.subrange(0, 2),
        ts == uci.subrange(2, 4),
        vstd::utf8::encode_utf8(fs) == crate::utility::square_name_bytes(from),
        vstd::utf8::encode_utf8(ts) == crate::utility::square_name_bytes(to),
        n == 5 ==> '\0' <= uci[4] <= '\u{7f}',
    ensures
        crate::utility::square_name_bytes(from) + crate::utility::square_name_bytes(to) + (
        if n == 5 {
            seq![(uci[4] as u8)]
        } else {
            Seq::<u8>::empty()
        }) == vstd::utf8::encode_utf8(uci),
{
    crate::chess_move::lemma_encode_utf8_concat(fs, ts);
    if n == 4 {
        assert(uci =~= fs + ts);
        assert(crate::utility::square_name_bytes(from) + crate::utility::square_name_bytes(to)
            + Seq::<u8>::empty() =~= vstd::utf8::encode_utf8(fs) + vstd::utf8::encode_utf8(ts));
    } else {
        let tail = uci.subrange(4, 5);
        assert(uci =~= (fs + ts) + tail);
        crate::chess_move::lemma_encode_utf8_concat(fs + ts, tail);
        assert forall|i: int| 0 <= i < tail.len() implies '\0' <= #[trigger] tail[i]
            <= '\u{7f}' by {
            assert(tail[i] == uci[4]);
        }
        assert(vstd::utf8::is_ascii_chars(tail));
        vstd::utf8::is_ascii_chars_encode_utf8(tail);
        assert(vstd::utf8::encode_utf8(tail) =~= seq![(uci[4] as u8)]);
        assert(crate::utility::square_name_bytes(from) + crate::utility::square_name_bytes(to)
            + seq![(uci[4] as u8)] =~= (vstd::utf8::encode_utf8(fs) + vstd::utf8::encode_utf8(ts))
            + vstd::utf8::encode_utf8(tail));
    }
}

/// Extending the scanned history can only raise the match count.
proof fn lemma_count_hash_monotonic(undos: Seq<UndoData>, i: int, j: int, h: u64)
    requires
        0 <= i <= j <= undos.len(),
    ensures
        count_hash_matches(undos.take(i), h) <= count_hash_matches(undos.take(j), h),
        count_hash_matches(undos.take(undos.len() as int), h) == count_hash_matches(undos, h),
    decreases j - i,
{
    assert(undos.take(undos.len() as int) =~= undos);
    if i < j {
        lemma_count_hash_monotonic(undos, i, j - 1, h);
        assert(undos.take(j).drop_last() =~= undos.take(j - 1));
    }
}

} // verus!
