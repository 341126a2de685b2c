use chess_engine::checks::{is_king_in_check, is_square_attacked};
use chess_engine::player::Player;
use chess_engine::position::{FenParseError, Position};


#[test]
fn checks_is_square_attacked_endgame() -> Result<(), FenParseError> {
    let (pos, _) = Position::from_fen("8/3r1k2/8/4N3/1Q5q/8/2K5/8 b - - 0 1")?;
    assert_eq!(is_square_attacked(&pos, 53, Player::White), true);
    assert_eq!(is_square_attacked(&pos, 51, Player::White), true);
    assert_eq!(is_square_attacked(&pos, 20, Player::White), false);
    assert_eq!(is_square_attacked(&pos, 25, Player::Black), true);
    assert_eq!(is_square_attacked(&pos, 52, Player::Black), true);
    assert_eq!(is_square_attacked(&pos, 10, Player::Black), false);
    Ok(())
}

#[test]
fn checks_is_king_in_check_midgame_1() -> Result<(), FenParseError> {
    let (pos, _) = Position::from_fen("r1bqkb1r/ppp2ppp/5n2/1B4Q1/1n1P2N1/2N5/PPP2PPP/R1B1K2R b KQkq - 0 1")?;
    assert_eq!(is_king_in_check(&pos, Player::White), false);
    assert_eq!(is_king_in_check(&pos, Player::Black), true);
    Ok(())
}

#[test]
fn checks_is_king_in_check_midgame_2() -> Result<(), FenParseError> {
    let (pos, _) = Position::from_fen("r1bqk1nr/pppp2pp/2n5/1B2pp2/1b1PP3/5N2/PPP2PPP/RNBQK2R w KQkq - 0 1")?;
    assert_eq!(is_king_in_check(&pos, Player::White), true);
    assert_eq!(is_king_in_check(&pos, Player::Black), false);
    Ok(())
}

#[test]
fn checks_is_king_in_check_endgame() -> Result<(), FenParseError> {
    let (pos, _) = Position::from_fen("R6k/8/7K/8/8/1b6/8/8 b - - 0 1")?;
    assert_eq!(is_king_in_check(&pos, Player::White), false);
    assert_eq!(is_king_in_check(&pos, Player::Black), true);
    Ok(())
}

#[test]
fn rules_is_square_attacked_endgame() -> Result<(), FenParseError> {
    let (pos, _) = Position::from_fen("8/3r1k2/8/4N3/1Q5q/8/2K5/8 b - - 0 1")?;
    assert_eq!(is_square_attacked(&pos, 53, Player::White), true);
    assert_eq!(is_square_attacked(&pos, 51, Player::White), true);
    assert_eq!(is_square_attacked(&pos, 20, Player::White), false);
    assert_eq!(is_square_attacked(&pos, 25, Player::Black), true);
    assert_eq!(is_square_attacked(&pos, 52, Player::Black), true);
    assert_eq!(is_square_attacked(&pos, 10, Player::Black), false);
    Ok(())
}

#[test]
fn rules_is_king_in_check_midgame_1() -> Result<(), FenParseError> {
    let (pos, _) = Position::from_fen("r1bqkb1r/ppp2ppp/5n2/1B4Q1/1n1P2N1/2N5/PPP2PPP/R1B1K2R b KQkq - 0 1")?;
    assert_eq!(is_king_in_check(&pos, Player::White), false);
    assert_eq!(is_king_in_check(&pos, Player::Black), true);
    Ok(())
}

#[test]
fn rules_is_king_in_check_midgame_2() -> Result<(), FenParseError> {
    let (pos, _) = Position::from_fen("r1bqk1nr/pppp2pp/2n5/1B2pp2/1b1PP3/5N2/PPP2PPP/RNBQK2R w KQkq - 0 1")?;
    assert_eq!(is_king_in_check(&pos, Player::White), true);
    assert_eq!(is_king_in_check(&pos, Player::Black), false);
    Ok(())
}

#[test]
fn rules_is_king_in_check_endgame() -> Result<(), FenParseError> {
    let (pos, _) = Position::from_fen("R6k/8/7K/8/8/1b6/8/8 b - - 0 1")?;
    assert_eq!(is_king_in_check(&pos, Player::White), false);
    assert_eq!(is_king_in_check(&pos, Player::Black), true);
    Ok(())
}

#[test]
fn position_is_square_attacked_endgame() -> Result<(), FenParseError> {
    let (pos, _) = Position::from_fen("8/3r1k2/8/4N3/1Q5q/8/2K5/8 b - - 0 1")?;
    assert_eq!(is_square_attacked(&pos, 53, Player::White), true);
    assert_eq!(is_square_attacked(&pos, 51, Player::White), true);
    assert_eq!(is_square_attacked(&pos, 20, Player::White), false);
    assert_eq!(is_square_attacked(&pos, 25, Player::Black), true);
    assert_eq!(is_square_attacked(&pos, 52, Player::Black), true);
    assert_eq!(is_square_attacked(&pos, 10, Player::Black), false);
    Ok(())
}

#[test]
fn position_is_king_in_check_midgame_1() -> Result<(), FenParseError> {
    let (pos, _) = Position::from_fen("r1bqkb1r/ppp2ppp/5n2/1B4Q1/1n1P2N1/2N5/PPP2PPP/R1B1K2R b KQkq - 0 1")?;
    assert_eq!(is_king_in_check(&pos, Player::White), false);
    assert_eq!(is_king_in_check(&pos, Player::Black), true);
    Ok(())
}

#[test]
fn position_is_king_in_check_midgame_2() -> Result<(), FenParseError> {
    let (pos, _) = Position::from_fen("r1bqk1nr/pppp2pp/2n5/1B2pp2/1b1PP3/5N2/PPP2PPP/RNBQK2R w KQkq - 0 1")?;
    assert_eq!(is_king_in_check(&pos, Player::White), true);
    assert_eq!(is_king_in_check(&pos, Player::Black), false);
    Ok(())
}

#[test]
fn position_is_king_in_check_endgame() -> Result<(), FenParseError> {
    let (pos, _) = Position::from_fen("R6k/8/7K/8/8/1b6/8/8 b - - 0 1")?;
    assert_eq!(is_king_in_check(&pos, Player::White), false);
    assert_eq!(is_king_in_check(&pos, Player::Black), true);
    Ok(())
}
