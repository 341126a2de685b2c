use chess_engine::piece::Piece;
use chess_engine::player::Player;
use chess_engine::position::{FenParseError, Position};
use chess_engine::utility::bit;

#[test]
fn fen_start() -> Result<(), FenParseError> {
    let (pos, _) = Position::from_fen("rnbqkbnr/pppppppp/8/8/8/8/PPPPPPPP/RNBQKBNR w KQkq - 0 1")?;
    assert_eq!(pos.w.pawns, 0x000000000000FF00);
    assert_eq!(pos.w.rooks, 0x0000000000000081);
    assert_eq!(pos.w.knights, 0x0000000000000042);
    assert_eq!(pos.w.bishops, 0x0000000000000024);
    assert_eq!(pos.w.queens, 0x0000000000000008);
    assert_eq!(pos.w.king, 0x0000000000000010);
    assert_eq!(pos.w.all, 0x000000000000FFFF);
    assert_eq!(pos.b.pawns, 0x00FF000000000000);
    assert_eq!(pos.b.rooks, 0x8100000000000000);
    assert_eq!(pos.b.knights, 0x4200000000000000);
    assert_eq!(pos.b.bishops, 0x2400000000000000);
    assert_eq!(pos.b.queens, 0x0800000000000000);
    assert_eq!(pos.b.king, 0x1000000000000000);
    assert_eq!(pos.b.all, 0xFFFF000000000000);
    assert_eq!(pos.occupied, 0xFFFF00000000FFFF);
    assert_eq!(pos.player_to_move, Player::White);
    Ok(())
}

#[test]
fn fen_empty() -> Result<(), FenParseError> {
    let (pos, _) = Position::from_fen("8/8/8/8/8/8/8/8 b - - 0 1")?;
    assert_eq!(pos.w.pawns, 0x0);
    assert_eq!(pos.w.rooks, 0x0);
    assert_eq!(pos.w.knights, 0x0);
    assert_eq!(pos.w.bishops, 0x0);
    assert_eq!(pos.w.queens, 0x0);
    assert_eq!(pos.w.king, 0x0);
    assert_eq!(pos.w.all, 0x0);
    assert_eq!(pos.b.pawns, 0x0);
    assert_eq!(pos.b.rooks, 0x0);
    assert_eq!(pos.b.knights, 0x0);
    assert_eq!(pos.b.bishops, 0x0);
    assert_eq!(pos.b.queens, 0x0);
    assert_eq!(pos.b.king, 0x0);
    assert_eq!(pos.b.all, 0x0);
    assert_eq!(pos.occupied, 0x0);
    assert_eq!(pos.player_to_move, Player::Black);
    Ok(())
}

#[test]
fn fen_endgame() -> Result<(), FenParseError> {
    let (pos, _) = Position::from_fen("4r3/2n5/8/6R1/3k4/8/1B6/4K3 w - - 0 1")?;
    assert_eq!(pos.w.pawns, 0x0);
    assert_eq!(pos.w.rooks, bit(38));
    assert_eq!(pos.w.knights, 0x0);
    assert_eq!(pos.w.bishops, bit(9));
    assert_eq!(pos.w.queens, 0x0);
    assert_eq!(pos.w.king, bit(4));
    assert_eq!(pos.w.all, bit(4) | bit(9) | bit(38));

    assert_eq!(pos.b.pawns, 0x0);
    assert_eq!(pos.b.rooks, bit(60));
    assert_eq!(pos.b.knights, bit(50));
    assert_eq!(pos.b.bishops, 0x0);
    assert_eq!(pos.b.queens, 0x0);
    assert_eq!(pos.b.king, bit(27));
    assert_eq!(pos.b.all, bit(27) | bit(50) | bit(60));

    assert_eq!(pos.occupied, bit(4) | bit(9) | bit(27) | bit(38) | bit(50) | bit(60));
    assert_eq!(pos.player_to_move, Player::White);
    Ok(())
}

#[test]
fn fen_field_errors() {
    assert!(matches!(Position::from_fen("nonsense"), Err(FenParseError::BadFieldCount)));
    assert!(matches!(Position::from_fen("8/8 w - - 0 1"), Err(FenParseError::BadRankCount)));
    assert!(matches!(
        Position::from_fen("9/8/8/8/8/8/8/8 w - - 0 1"),
        Err(FenParseError::BadFileCount)
    ));
    assert!(matches!(
        Position::from_fen("x7/8/8/8/8/8/8/8 w - - 0 1"),
        Err(FenParseError::InvalidPieceChar('x'))
    ));
    assert!(matches!(
        Position::from_fen("8/8/8/8/8/8/8/8 z - - 0 1"),
        Err(FenParseError::InvalidSide(_))
    ));
    assert!(matches!(
        Position::from_fen("8/8/8/8/8/8/8/8 w KQx - 0 1"),
        Err(FenParseError::InvalidCastling(_))
    ));
    assert!(matches!(
        Position::from_fen("8/8/8/8/8/8/8/8 w - e9 0 1"),
        Err(FenParseError::InvalidEnPassant(_))
    ));
    assert!(matches!(
        Position::from_fen("8/8/8/8/8/8/8/8 w - - x 1"),
        Err(FenParseError::InvalidHalfmove(_))
    ));
    assert!(matches!(
        Position::from_fen("8/8/8/8/8/8/8/8 w - - 0 0"),
        Err(FenParseError::InvalidFullmove(_))
    ));
}

#[test]
fn fen_reads_clock_and_rights() -> Result<(), FenParseError> {
    let (pos, clock) = Position::from_fen("8/8/1k1p4/2p5/6P1/7P/5K2/8 b Kq c6 39 100")?;
    assert_eq!(clock, 39);
    assert!(pos.castling.white_kingside);
    assert!(!pos.castling.white_queenside);
    assert!(!pos.castling.black_kingside);
    assert!(pos.castling.black_queenside);
    assert_eq!(pos.en_passant_square, Some(42));
    assert_eq!(pos.player_to_move, Player::Black);
    Ok(())
}

#[test]
fn start_matches_start_fen() -> Result<(), FenParseError> {
    let start = Position::start();
    let (parsed, clock) =
        Position::from_fen("rnbqkbnr/pppppppp/8/8/8/8/PPPPPPPP/RNBQKBNR w KQkq - 0 1")?;
    assert_eq!(start, parsed);
    assert_eq!(clock, 0);
    assert_eq!(start.zobrist_hash, parsed.zobrist_hash);
    let _ = Piece::Pawn;
    Ok(())
}

#[test]
fn fen_error_payloads_name_the_field() {
    match Position::from_fen("8/8/8/8/8/8/8/8 zz - - 0 1") {
        Err(FenParseError::InvalidSide(p)) => assert_eq!(p, "zz"),
        other => panic!("unexpected: {:?}", other),
    }
    match Position::from_fen("8/8/8/8/8/8/8/8 w KQxq - 0 1") {
        Err(FenParseError::InvalidCastling(p)) => assert_eq!(p, "KQxq"),
        other => panic!("unexpected: {:?}", other),
    }
    match Position::from_fen("8/8/8/8/8/8/8/8 w - e9 0 1") {
        Err(FenParseError::InvalidEnPassant(p)) => assert_eq!(p, "e9"),
        other => panic!("unexpected: {:?}", other),
    }
}
