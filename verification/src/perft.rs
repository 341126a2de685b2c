//! Perft: the depth-limited leaf count of the legal move tree, used
//! to validate move generation and legality.

use vstd::prelude::*;

use crate::chess_move::Move;
use crate::game::{game_wf, Game};

verus! {

/// The count perft reports when the stop flag cut it short. Large
/// enough never to arise as a real count.
pub const PERFT_INTERRUPTED: u64 = 0xFFFF_FFFF_FFFF_FFFF;

/// Count the leaves of the legal move tree `depth` plies deep, or
/// report an interruption when the stop flag was raised. The game
/// comes back with its history, clock, and scalar state as they were.
pub fn perft(
    game: &mut Game,
    depth: usize,
    n_calls: usize,
    stop_flag: &std::sync::atomic::AtomicBool,
) -> (nodes: u64)
    requires
        game_wf(*old(game)),
        old(game).halfmove_clock + depth < 1_000_000_000,
        n_calls + depth < 1_000_000_000,
    ensures
        game_wf(*final(game)),
        final(game).position == old(game).position,
        final(game).undos@ == old(game).undos@,
        final(game).halfmove_clock == old(game).halfmove_clock,
        depth == 0 ==> nodes == 1 || nodes == PERFT_INTERRUPTED,
    decreases depth,
{
    if stop_flag.load(std::sync::atomic::Ordering::Relaxed) {
        return PERFT_INTERRUPTED;
    }

    if depth == 0 {
        return 1;
    }

    let moves = game.pseudo_moves();
    let mut nodes: u64 = 0;

    let mut i: usize = 0;
    while i < moves.len()
        invariant
            game_wf(*game),
            game.position == old(game).position,
            game.undos@ == old(game).undos@,
            game.halfmove_clock == old(game).halfmove_clock,
            game.halfmove_clock + depth < 1_000_000_000,
            n_calls + depth < 1_000_000_000,
            depth >= 1,
        decreases moves@.len() - i,
    {
        let m = moves[i];
        let ghost before = *game;
        let legal = game.try_to_make_move(&m);
        if legal {
            let branches = perft(game, depth - 1, n_calls + 1, stop_flag);
            game.unmake_move();
            proof {
                crate::laws::lemma_unmake_reverses_make(
                    before.position,
                    m,
                    before.halfmove_clock as nat,
                );
            }

            if branches == PERFT_INTERRUPTED {
                return PERFT_INTERRUPTED;
            }

            nodes = nodes.wrapping_add(branches);
        }
        i = i + 1;
    }
    nodes
}

/// Perft for each root move separately: the pairs of a legal root
/// move and the leaf count of its subtree, for divide output.
pub fn perft_divide(
    game: &mut Game,
    depth: usize,
    stop_flag: &std::sync::atomic::AtomicBool,
) -> (r: Vec<(Move, u64)>)
    requires
        game_wf(*old(game)),
        depth >= 1,
        old(game).halfmove_clock + depth < 1_000_000_000,
    ensures
        game_wf(*final(game)),
        final(game).position == old(game).position,
        final(game).undos@ == old(game).undos@,
        final(game).halfmove_clock == old(game).halfmove_clock,
{
    let moves = game.pseudo_moves();
    let mut out: Vec<(Move, u64)> = Vec::new();

    let mut i: usize = 0;
    while i < moves.len()
        invariant
            game_wf(*game),
            game.position == old(game).position,
            game.undos@ == old(game).undos@,
            game.halfmove_clock == old(game).halfmove_clock,
            game.halfmove_clock + depth < 1_000_000_000,
            depth >= 1,
        decreases moves@.len() - i,
    {
        let m = moves[i];
        let ghost before = *game;
        let legal = game.try_to_make_move(&m);
        if legal {
            let branches = perft(game, depth - 1, 1, stop_flag);
            game.unmake_move();
            proof {
                crate::laws::lemma_unmake_reverses_make(
                    before.position,
                    m,
                    before.halfmove_clock as nat,
                );
            }
            out.push((m, branches));
        }
        i = i + 1;
    }
    out
}

} // verus!
