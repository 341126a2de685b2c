use std::sync::atomic::{AtomicBool, Ordering};
use std::time::Instant;

use chess_engine::game::Game;
use chess_engine::position::FenParseError;
use chess_engine::utility::square_idx_to_string;

#[test]
fn forced_move_is_found_at_any_depth() -> Result<(), FenParseError> {
    // Black's king has exactly one legal move.
    let mut game = Game::from_fen("7k/5K2/8/6Q1/8/8/8/8 b - - 0 1")?;
    let stop_flag = AtomicBool::new(false);
    let start = Instant::now();
    let mut depth = 1;
    while depth <= 3 {
        let (best, _score, _nodes, _pv, unwind) =
            game.find_best_move(depth, &stop_flag, &start, None);
        assert!(!unwind);
        let m = best.expect("a legal move exists");
        assert_eq!(square_idx_to_string(m.from), "h8");
        assert_eq!(square_idx_to_string(m.to), "h7");
        depth += 1;
    }
    Ok(())
}

#[test]
fn checkmate_scores_as_mate() -> Result<(), FenParseError> {
    // Fool's mate: White to move is checkmated.
    let mut game =
        Game::from_fen("rnb1kbnr/pppp1ppp/8/4p3/6Pq/5P2/PPPPP2P/RNBQKBNR w KQkq - 0 3")?;
    let stop_flag = AtomicBool::new(false);
    let start = Instant::now();
    let depth = 2;
    let (best, score, _nodes, _pv, unwind) = game.find_best_move(depth, &stop_flag, &start, None);
    assert!(!unwind);
    assert!(best.is_none());
    assert!(score <= -(2_000_000_000 - depth as i32));
    Ok(())
}

#[test]
fn stalemate_scores_as_draw() -> Result<(), FenParseError> {
    let mut game = Game::from_fen("7k/5Q2/6K1/8/8/8/8/8 b - - 0 1")?;
    let stop_flag = AtomicBool::new(false);
    let start = Instant::now();
    let (best, score, _nodes, _pv, unwind) = game.find_best_move(1, &stop_flag, &start, None);
    assert!(!unwind);
    assert!(best.is_none());
    assert_eq!(score, 0);
    Ok(())
}

#[test]
fn raised_stop_flag_unwinds_the_search() {
    let mut game = Game::new_game();
    let stop_flag = AtomicBool::new(false);
    stop_flag.store(true, Ordering::Relaxed);
    let start = Instant::now();
    let (_best, _score, nodes, _pv, unwind) = game.find_best_move(30, &stop_flag, &start, None);
    assert!(unwind);
    // The flag is polled every 1024 nodes, with at most one missed
    // poll per frame on the way back up, so the search visits only a
    // bounded prefix of the tree.
    assert!(nodes <= 65_536);
}

#[test]
fn insufficient_material_search_is_a_draw() -> Result<(), FenParseError> {
    let mut game = Game::from_fen("8/8/8/1K2k3/8/8/5B2/8 w - - 0 1")?;
    let stop_flag = AtomicBool::new(false);
    let start = Instant::now();
    let (_best, score, _nodes, _pv, unwind) = game.find_best_move(3, &stop_flag, &start, None);
    assert!(!unwind);
    assert_eq!(score, 0);
    Ok(())
}
