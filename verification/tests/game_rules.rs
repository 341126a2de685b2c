use chess_engine::board;
use chess_engine::chess_move::Move;
use chess_engine::game::Game;
use chess_engine::piece::Piece;
use chess_engine::position::FenParseError;

#[test]
fn threefold_repetition() -> Result<(), FenParseError> {
    let mut game = Game::from_fen("8/2r5/8/4k3/8/6R1/3K4/8 w - - 0 1")?;

    let m1 = Move::new(board::G3, board::F3, Piece::Rook, false);
    let m2 = Move::new(board::C7, board::C6, Piece::Rook, false);
    let m3 = Move::new(board::F3, board::G3, Piece::Rook, false);
    let m4 = Move::new(board::C6, board::C7, Piece::Rook, false);

    let mut i = 0;
    while i < 2 {
        game.try_to_make_move(&m1);
        game.try_to_make_move(&m2);
        game.try_to_make_move(&m3);
        game.try_to_make_move(&m4);
        i += 1;
    }

    assert_eq!(game.is_threefold_repetition(), true);
    Ok(())
}

#[test]
fn fifty_move_rule() -> Result<(), FenParseError> {
    let mut game = Game::from_fen("8/3k4/1n6/8/8/5N2/3K4/8 w - - 99 1")?;
    let m = Move::new(board::F3, board::G5, Piece::Knight, false);
    game.try_to_make_move(&m);
    assert_eq!(game.halfmove_clock, 100);
    assert!(game.is_fifty_move_rule());
    Ok(())
}

#[test]
fn uci_moves_advance_the_game() {
    let mut game = Game::new_game();
    assert!(game.try_to_make_uci_move("e2e4"));
    assert_eq!(game.position.w.pawns & (1u64 << 28), 1u64 << 28);
    assert!(game.try_to_make_uci_move("d7d5"));
    assert!(game.try_to_make_uci_move("e4d5"));
    assert!(!game.try_to_make_uci_move("e9e4"));
    assert!(!game.try_to_make_uci_move("a1a2"));
    assert_eq!(game.undos.len(), 3);
}

#[test]
fn unsupported_or_illegal_moves_leave_the_game_unchanged() {
    let mut game = Game::from_fen("8/2r5/8/4k3/8/6R1/3K4/8 w - - 7 1").unwrap();
    let before_position = game.position;
    let before_clock = game.halfmove_clock;

    // No white rook stands on a1, and the king cannot walk into the
    // rook's file; both attempts must bounce without a trace.
    let phantom = Move::new(board::A1, board::A2, Piece::Rook, false);
    assert!(!game.try_to_make_move(&phantom));
    let into_check = Move::new(board::D2, board::C2, Piece::King, false);
    assert!(!game.try_to_make_move(&into_check));

    assert_eq!(game.position, before_position);
    assert_eq!(game.halfmove_clock, before_clock);
    assert_eq!(game.undos.len(), 0);
}
