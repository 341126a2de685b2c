use chess_engine::chess_move::{CastlingSide, Move};
use chess_engine::make::make_move;
use chess_engine::piece::Piece;
use chess_engine::player::Player;
use chess_engine::position::{FenParseError, Position};
use chess_engine::utility::bit;


#[test]
fn position_make_move_knight() -> Result<(), FenParseError> {
    let (mut pos, _) = Position::from_fen("8/1k6/3r4/8/4N3/8/1K6/8 w - - 0 1")?;
    let m = Move::new(28, 43, Piece::Knight, true);
    let mut clock = 0;
    make_move(&mut pos, &m, &mut clock);

    assert_eq!(pos.w.king, bit(9));
    assert_eq!(pos.w.knights, bit(43));
    assert_eq!(pos.w.all, bit(9) | bit(43));

    assert_eq!(pos.b.king, bit(49));
    assert_eq!(pos.b.rooks, 0x0);
    assert_eq!(pos.b.all, bit(49));

    assert_eq!(pos.occupied, bit(9) | bit(43) | bit(49));
    Ok(())
}

#[test]
fn position_make_move_rook() -> Result<(), FenParseError> {
    let (mut pos, _) = Position::from_fen("8/8/8/5r2/8/1k6/5Q2/1K6 b - - 0 1")?;
    let m = Move::new(37, 13, Piece::Rook, true);
    let mut clock = 0;
    make_move(&mut pos, &m, &mut clock);

    assert_eq!(pos.w.king, bit(1));
    assert_eq!(pos.w.queens, 0x0);
    assert_eq!(pos.w.all, bit(1));

    assert_eq!(pos.b.king, bit(17));
    assert_eq!(pos.b.rooks, bit(13));
    assert_eq!(pos.b.all, bit(13) | bit(17));
    Ok(())
}

#[test]
fn position_make_move_king() -> Result<(), FenParseError> {
    let (mut pos, _) = Position::from_fen("8/5kq1/1R6/8/3K4/8/8/8 w - - 0 1")?;
    let m = Move::new(27, 35, Piece::King, false);
    let mut clock = 0;
    make_move(&mut pos, &m, &mut clock);

    assert_eq!(pos.w.rooks, bit(41));
    assert_eq!(pos.w.king, bit(35));
    assert_eq!(pos.w.all, bit(35) | bit(41));

    assert_eq!(pos.b.king, bit(53));
    assert_eq!(pos.b.queens, bit(54));
    assert_eq!(pos.b.all, bit(53) | bit(54));
    Ok(())
}

#[test]
fn position_make_move_bishop() -> Result<(), FenParseError> {
    let (mut pos, _) = Position::from_fen("8/2k5/8/4K3/1r6/8/3B4/8 w - - 0 1")?;
    let m = Move::new(11, 25, Piece::Bishop, true);
    let mut clock = 0;
    make_move(&mut pos, &m, &mut clock);

    assert_eq!(pos.w.king, bit(36));
    assert_eq!(pos.w.bishops, bit(25));
    assert_eq!(pos.w.all, bit(25) | bit(36));

    assert_eq!(pos.b.king, bit(50));
    assert_eq!(pos.b.rooks, 0x0);
    assert_eq!(pos.b.all, bit(50));
    Ok(())
}

#[test]
fn position_make_move_queen() -> Result<(), FenParseError> {
    let (mut pos, _) = Position::from_fen("8/8/1kq5/8/5K2/2R5/8/8 b - - 0 1")?;
    let m = Move::new(42, 18, Piece::Queen, true);
    let mut clock = 0;
    make_move(&mut pos, &m, &mut clock);

    assert_eq!(pos.w.king, bit(29));
    assert_eq!(pos.w.rooks, 0x0);
    assert_eq!(pos.w.all, bit(29));

    assert_eq!(pos.b.king, bit(41));
    assert_eq!(pos.b.queens, bit(18));
    assert_eq!(pos.b.all, bit(18) | bit(41));
    Ok(())
}

#[test]
fn position_make_move_white_kingside_castling() -> Result<(), FenParseError> {
    let (mut pos, _) =
        Position::from_fen("rn1qkbnr/ppp2ppp/3p4/4p3/2B1P1b1/5N2/PPPP1PPP/RNBQK2R w KQkq - 2 4")?;
    let m = Move::castling(Player::White, CastlingSide::KingSide);
    let mut clock = 0;
    let save = pos;
    make_move(&mut pos, &m, &mut clock);

    assert_eq!(pos.w.all, save.w.all & !(bit(4) | bit(7)) | bit(5) | bit(6));
    assert_eq!(pos.occupied, save.occupied & !(bit(4) | bit(7)) | bit(5) | bit(6));
    assert_eq!(pos.b, save.b);
    assert_eq!(pos.w.king, bit(6));
    assert_eq!(pos.w.rooks, bit(0) | bit(5));
    Ok(())
}

#[test]
fn position_make_move_black_kingside_castling() -> Result<(), FenParseError> {
    let (mut pos, _) =
        Position::from_fen("rnbqk2r/pppp1ppp/5n2/2b1p3/4P3/3PBN2/PPP2PPP/RN1QKB1R b KQkq - 4 4")?;
    let m = Move::castling(Player::Black, CastlingSide::KingSide);
    let mut clock = 0;
    let save = pos;
    make_move(&mut pos, &m, &mut clock);

    assert_eq!(pos.b.all, save.b.all & !(bit(60) | bit(63)) | bit(61) | bit(62));
    assert_eq!(pos.occupied, save.occupied & !(bit(60) | bit(63)) | bit(61) | bit(62));
    assert_eq!(pos.w, save.w);
    assert_eq!(pos.b.king, bit(62));
    assert_eq!(pos.b.rooks, bit(56) | bit(61));
    Ok(())
}

#[test]
fn position_make_move_white_queenside_castling() -> Result<(), FenParseError> {
    let (mut pos, _) =
        Position::from_fen("rn2k1nr/ppp2ppp/3pbq2/2b1p2Q/4P3/2NPB3/PPP2PPP/R3KBNR w KQkq - 4 6")?;
    let m = Move::castling(Player::White, CastlingSide::QueenSide);
    let mut clock = 0;
    let save = pos;
    make_move(&mut pos, &m, &mut clock);

    assert_eq!(pos.w.all, save.w.all & !(bit(0) | bit(4)) | bit(2) | bit(3));
    assert_eq!(pos.occupied, save.occupied & !(bit(0) | bit(4)) | bit(2) | bit(3));
    assert_eq!(pos.b, save.b);
    assert_eq!(pos.w.king, bit(2));
    assert_eq!(pos.w.rooks, bit(3) | bit(7));
    Ok(())
}

#[test]
fn position_make_move_black_queenside_castling() -> Result<(), FenParseError> {
    let (mut pos, _) =
        Position::from_fen("r3kbnr/ppp2ppp/2npbq2/4p1N1/4P3/2NPB3/PPP2PPP/R2QKB1R b KQkq - 7 6")?;
    let m = Move::castling(Player::Black, CastlingSide::QueenSide);
    let mut clock = 0;
    let save = pos;
    make_move(&mut pos, &m, &mut clock);

    assert_eq!(pos.b.all, save.b.all & !(bit(56) | bit(60)) | bit(58) | bit(59));
    assert_eq!(pos.occupied, save.occupied & !(bit(56) | bit(60)) | bit(58) | bit(59));
    assert_eq!(pos.w, save.w);
    assert_eq!(pos.b.king, bit(58));
    assert_eq!(pos.b.rooks, bit(59) | bit(63));
    Ok(())
}
