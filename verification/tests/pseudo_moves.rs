use std::collections::HashSet;

use chess_engine::chess_move::{CastlingSide, Move};
use chess_engine::movegen::{
    generate_pseudo_castling_moves, generate_pseudo_moves_for_piece, generate_pseudo_pawn_moves,
};
use chess_engine::piece::Piece;
use chess_engine::player::Player;
use chess_engine::position::Position;

#[test]
fn pseudo_pawn_moves_start_position() {
    let pos = Position::start();
    let mut moves = Vec::new();
    generate_pseudo_pawn_moves(&pos, &mut moves);

    let expected: HashSet<Move> = [
        Move::pawn(8, 16, false, None, false),
        Move::pawn(9, 17, false, None, false),
        Move::pawn(10, 18, false, None, false),
        Move::pawn(11, 19, false, None, false),
        Move::pawn(12, 20, false, None, false),
        Move::pawn(13, 21, false, None, false),
        Move::pawn(14, 22, false, None, false),
        Move::pawn(15, 23, false, None, false),
        Move::pawn(8, 24, false, None, false),
        Move::pawn(9, 25, false, None, false),
        Move::pawn(10, 26, false, None, false),
        Move::pawn(11, 27, false, None, false),
        Move::pawn(12, 28, false, None, false),
        Move::pawn(13, 29, false, None, false),
        Move::pawn(14, 30, false, None, false),
        Move::pawn(15, 31, false, None, false),
    ]
    .into();

    let moves_set: HashSet<Move> = moves.into_iter().collect();
    assert_eq!(moves_set, expected);
}

#[test]
fn pseudo_pawn_moves_endgame() {
    let (pos, _) = Position::from_fen("8/p1pp3p/BN6/3R4/1k2K3/8/1p3pp1/2Q1B3 b - - 0 1").unwrap();
    let mut moves = Vec::new();
    generate_pseudo_pawn_moves(&pos, &mut moves);

    let expected: HashSet<Move> = [
        Move::pawn(48, 41, true, None, false),
        Move::pawn(50, 41, true, None, false),
        Move::pawn(50, 42, false, None, false),
        Move::pawn(50, 34, false, None, false),
        Move::pawn(51, 43, false, None, false),
        Move::pawn(55, 47, false, None, false),
        Move::pawn(55, 39, false, None, false),
        Move::pawn(9, 1, false, Some(Piece::Knight), false),
        Move::pawn(9, 2, true, Some(Piece::Knight), false),
        Move::pawn(13, 5, false, Some(Piece::Knight), false),
        Move::pawn(13, 4, true, Some(Piece::Knight), false),
        Move::pawn(14, 6, false, Some(Piece::Knight), false),
        Move::pawn(9, 1, false, Some(Piece::Bishop), false),
        Move::pawn(9, 2, true, Some(Piece::Bishop), false),
        Move::pawn(13, 5, false, Some(Piece::Bishop), false),
        Move::pawn(13, 4, true, Some(Piece::Bishop), false),
        Move::pawn(14, 6, false, Some(Piece::Bishop), false),
        Move::pawn(9, 1, false, Some(Piece::Rook), false),
        Move::pawn(9, 2, true, Some(Piece::Rook), false),
        Move::pawn(13, 5, false, Some(Piece::Rook), false),
        Move::pawn(13, 4, true, Some(Piece::Rook), false),
        Move::pawn(14, 6, false, Some(Piece::Rook), false),
        Move::pawn(9, 1, false, Some(Piece::Queen), false),
        Move::pawn(9, 2, true, Some(Piece::Queen), false),
        Move::pawn(13, 5, false, Some(Piece::Queen), false),
        Move::pawn(13, 4, true, Some(Piece::Queen), false),
        Move::pawn(14, 6, false, Some(Piece::Queen), false),
    ]
    .into();

    let moves_set: HashSet<Move> = moves.into_iter().collect();
    assert_eq!(moves_set, expected);
}

#[test]
fn pseudo_pawn_moves_en_passant() {
    let (pos, _) = Position::from_fen("8/6k1/8/1pP1Pp2/8/8/5K2/8 w - b6 0 1").unwrap();
    let mut moves = Vec::new();
    generate_pseudo_pawn_moves(&pos, &mut moves);

    let expected: HashSet<Move> = [
        Move::pawn(34, 42, false, None, false),
        Move::pawn(34, 41, true, None, true),
        Move::pawn(36, 44, false, None, false),
    ]
    .into();

    let moves_set: HashSet<Move> = moves.into_iter().collect();
    assert_eq!(moves_set, expected);
}

#[test]
fn pseudo_knight_moves_start_position() {
    let pos = Position::start();
    let mut moves = Vec::new();
    generate_pseudo_moves_for_piece(&pos, Piece::Knight, &mut moves);

    let expected: HashSet<Move> = [
        Move::new(1, 16, Piece::Knight, false),
        Move::new(1, 18, Piece::Knight, false),
        Move::new(6, 21, Piece::Knight, false),
        Move::new(6, 23, Piece::Knight, false),
    ]
    .into();

    let moves_set: HashSet<Move> = moves.into_iter().collect();
    assert_eq!(moves_set, expected);
}

#[test]
fn pseudo_knight_moves_endgame() {
    let (pos, _) = Position::from_fen("8/3nk3/1N3R2/3n2n1/3N4/8/3K1N2/1r6 w - - 0 1").unwrap();
    let mut moves = Vec::new();
    generate_pseudo_moves_for_piece(&pos, Piece::Knight, &mut moves);

    let expected: HashSet<Move> = [
        Move::new(13, 3, Piece::Knight, false),
        Move::new(13, 7, Piece::Knight, false),
        Move::new(13, 19, Piece::Knight, false),
        Move::new(13, 23, Piece::Knight, false),
        Move::new(13, 28, Piece::Knight, false),
        Move::new(13, 30, Piece::Knight, false),
        Move::new(27, 10, Piece::Knight, false),
        Move::new(27, 12, Piece::Knight, false),
        Move::new(27, 17, Piece::Knight, false),
        Move::new(27, 21, Piece::Knight, false),
        Move::new(27, 33, Piece::Knight, false),
        Move::new(27, 37, Piece::Knight, false),
        Move::new(27, 42, Piece::Knight, false),
        Move::new(27, 44, Piece::Knight, false),
        Move::new(41, 24, Piece::Knight, false),
        Move::new(41, 26, Piece::Knight, false),
        Move::new(41, 35, Piece::Knight, true),
        Move::new(41, 51, Piece::Knight, true),
        Move::new(41, 56, Piece::Knight, false),
        Move::new(41, 58, Piece::Knight, false),
    ]
    .into();

    let moves_set: HashSet<Move> = moves.into_iter().collect();
    assert_eq!(moves_set, expected);
}

#[test]
fn pseudo_king_moves_start_position() {
    let pos = Position::start();
    let mut moves = Vec::new();
    generate_pseudo_moves_for_piece(&pos, Piece::King, &mut moves);
    assert_eq!(moves.len(), 0);
}

#[test]
fn pseudo_king_moves_endgame() {
    let (pos, _) = Position::from_fen("8/8/8/8/7P/6K1/1r6/k7 w - - 0 1").unwrap();
    let mut moves = Vec::new();
    generate_pseudo_moves_for_piece(&pos, Piece::King, &mut moves);

    let expected: HashSet<Move> = [
        Move::new(22, 13, Piece::King, false),
        Move::new(22, 14, Piece::King, false),
        Move::new(22, 15, Piece::King, false),
        Move::new(22, 21, Piece::King, false),
        Move::new(22, 23, Piece::King, false),
        Move::new(22, 29, Piece::King, false),
        Move::new(22, 30, Piece::King, false),
    ]
    .into();

    let moves_set: HashSet<Move> = moves.into_iter().collect();
    assert_eq!(moves_set, expected);
}

#[test]
fn pseudo_rook_moves_start_position() {
    let pos = Position::start();
    let mut moves = Vec::new();
    generate_pseudo_moves_for_piece(&pos, Piece::Rook, &mut moves);
    assert_eq!(moves.len(), 0);
}

#[test]
fn pseudo_rook_moves_endgame() {
    let (pos, _) = Position::from_fen("8/3k4/8/R3p3/6P1/1P6/3K2R1/8 w - - 0 1").unwrap();
    let mut moves = Vec::new();
    generate_pseudo_moves_for_piece(&pos, Piece::Rook, &mut moves);

    let expected: HashSet<Move> = [
        Move::new(32, 40, Piece::Rook, false),
        Move::new(32, 48, Piece::Rook, false),
        Move::new(32, 56, Piece::Rook, false),
        Move::new(32, 24, Piece::Rook, false),
        Move::new(32, 16, Piece::Rook, false),
        Move::new(32, 8, Piece::Rook, false),
        Move::new(32, 0, Piece::Rook, false),
        Move::new(32, 33, Piece::Rook, false),
        Move::new(32, 34, Piece::Rook, false),
        Move::new(32, 35, Piece::Rook, false),
        Move::new(32, 36, Piece::Rook, true),
        Move::new(14, 6, Piece::Rook, false),
        Move::new(14, 22, Piece::Rook, false),
        Move::new(14, 15, Piece::Rook, false),
        Move::new(14, 13, Piece::Rook, false),
        Move::new(14, 12, Piece::Rook, false),
    ]
    .into();

    let moves_set: HashSet<Move> = moves.into_iter().collect();
    assert_eq!(moves_set, expected);
}

#[test]
fn pseudo_bishop_moves_start_position() {
    let pos = Position::start();
    let mut moves = Vec::new();
    generate_pseudo_moves_for_piece(&pos, Piece::Bishop, &mut moves);
    assert_eq!(moves.len(), 0);
}

#[test]
fn pseudo_bishop_moves_endgame() {
    let (pos, _) = Position::from_fen("8/8/8/3b4/5P1b/1k6/3b3K/b7 b - - 0 1").unwrap();
    let mut moves = Vec::new();
    generate_pseudo_moves_for_piece(&pos, Piece::Bishop, &mut moves);

    let expected: HashSet<Move> = [
        Move::new(0, 9, Piece::Bishop, false),
        Move::new(0, 18, Piece::Bishop, false),
        Move::new(0, 27, Piece::Bishop, false),
        Move::new(0, 36, Piece::Bishop, false),
        Move::new(0, 45, Piece::Bishop, false),
        Move::new(0, 54, Piece::Bishop, false),
        Move::new(0, 63, Piece::Bishop, false),
        Move::new(11, 2, Piece::Bishop, false),
        Move::new(11, 4, Piece::Bishop, false),
        Move::new(11, 18, Piece::Bishop, false),
        Move::new(11, 25, Piece::Bishop, false),
        Move::new(11, 32, Piece::Bishop, false),
        Move::new(11, 20, Piece::Bishop, false),
        Move::new(11, 29, Piece::Bishop, true),
        Move::new(31, 22, Piece::Bishop, false),
        Move::new(31, 13, Piece::Bishop, false),
        Move::new(31, 4, Piece::Bishop, false),
        Move::new(31, 38, Piece::Bishop, false),
        Move::new(31, 45, Piece::Bishop, false),
        Move::new(31, 52, Piece::Bishop, false),
        Move::new(31, 59, Piece::Bishop, false),
        Move::new(35, 26, Piece::Bishop, false),
        Move::new(35, 44, Piece::Bishop, false),
        Move::new(35, 53, Piece::Bishop, false),
        Move::new(35, 62, Piece::Bishop, false),
        Move::new(35, 42, Piece::Bishop, false),
        Move::new(35, 49, Piece::Bishop, false),
        Move::new(35, 56, Piece::Bishop, false),
        Move::new(35, 28, Piece::Bishop, false),
        Move::new(35, 21, Piece::Bishop, false),
        Move::new(35, 14, Piece::Bishop, false),
        Move::new(35, 7, Piece::Bishop, false),
    ]
    .into();

    let moves_set: HashSet<Move> = moves.into_iter().collect();
    assert_eq!(moves_set, expected);
}

#[test]
fn pseudo_bishop_moves_blocking_friendly() {
    let (pos, _) = Position::from_fen("1k3K2/8/1P3P2/8/3B4/8/1P3P2/8 w - - 0 1").unwrap();
    let mut moves = Vec::new();
    generate_pseudo_moves_for_piece(&pos, Piece::Bishop, &mut moves);

    let expected: HashSet<Move> = [
        Move::new(27, 18, Piece::Bishop, false),
        Move::new(27, 20, Piece::Bishop, false),
        Move::new(27, 34, Piece::Bishop, false),
        Move::new(27, 36, Piece::Bishop, false),
    ]
    .into();

    let moves_set: HashSet<Move> = moves.into_iter().collect();
    assert_eq!(moves_set, expected);
}

#[test]
fn pseudo_bishop_moves_blocking_hostile() {
    let (pos, _) = Position::from_fen("1k3K2/8/1p3p2/8/3B4/8/1p3p2/8 w - - 0 1").unwrap();
    let mut moves = Vec::new();
    generate_pseudo_moves_for_piece(&pos, Piece::Bishop, &mut moves);

    let expected: HashSet<Move> = [
        Move::new(27, 18, Piece::Bishop, false),
        Move::new(27, 9, Piece::Bishop, true),
        Move::new(27, 20, Piece::Bishop, false),
        Move::new(27, 13, Piece::Bishop, true),
        Move::new(27, 34, Piece::Bishop, false),
        Move::new(27, 41, Piece::Bishop, true),
        Move::new(27, 36, Piece::Bishop, false),
        Move::new(27, 45, Piece::Bishop, true),
    ]
    .into();

    let moves_set: HashSet<Move> = moves.into_iter().collect();
    assert_eq!(moves_set, expected);
}

#[test]
fn pseudo_queen_moves_start_position() {
    let pos = Position::start();
    let mut moves = Vec::new();
    generate_pseudo_moves_for_piece(&pos, Piece::Queen, &mut moves);
    assert_eq!(moves.len(), 0);
}

#[test]
fn pseudo_queen_moves_endgame() {
    let (pos, _) = Position::from_fen("8/k3b3/2r5/8/4Q1N1/8/2K5/8 w - - 0 1").unwrap();
    let mut moves = Vec::new();
    generate_pseudo_moves_for_piece(&pos, Piece::Queen, &mut moves);

    let expected: HashSet<Move> = [
        Move::new(28, 4, Piece::Queen, false),
        Move::new(28, 7, Piece::Queen, false),
        Move::new(28, 12, Piece::Queen, false),
        Move::new(28, 14, Piece::Queen, false),
        Move::new(28, 19, Piece::Queen, false),
        Move::new(28, 20, Piece::Queen, false),
        Move::new(28, 21, Piece::Queen, false),
        Move::new(28, 24, Piece::Queen, false),
        Move::new(28, 25, Piece::Queen, false),
        Move::new(28, 26, Piece::Queen, false),
        Move::new(28, 27, Piece::Queen, false),
        Move::new(28, 29, Piece::Queen, false),
        Move::new(28, 35, Piece::Queen, false),
        Move::new(28, 36, Piece::Queen, false),
        Move::new(28, 37, Piece::Queen, false),
        Move::new(28, 42, Piece::Queen, true),
        Move::new(28, 44, Piece::Queen, false),
        Move::new(28, 46, Piece::Queen, false),
        Move::new(28, 52, Piece::Queen, true),
        Move::new(28, 55, Piece::Queen, false),
    ]
    .into();

    let moves_set: HashSet<Move> = moves.into_iter().collect();
    assert_eq!(moves_set, expected);
}

#[test]
fn pseudo_castling_moves_midgame1() {
    let (pos, _) =
        Position::from_fen("rnb1k1nr/pppp1ppp/3b1q2/4p3/2BPP3/2P2N2/PP3PPP/RNBQK2R w KQkq - 0 1")
            .unwrap();
    let mut moves = Vec::new();
    generate_pseudo_castling_moves(&pos, &mut moves);
    assert_eq!(moves.len(), 1);
    assert_eq!(moves[0], Move::castling(Player::White, CastlingSide::KingSide));
}

#[test]
fn pseudo_castling_moves_midgame2() {
    let (pos, _) =
        Position::from_fen("r3kbnr/ppp2ppp/2np2b1/4p2q/4P3/5PP1/PPPP3P/RNBQKBNR b KQkq - 0 1")
            .unwrap();
    let mut moves = Vec::new();
    generate_pseudo_castling_moves(&pos, &mut moves);
    assert_eq!(moves.len(), 1);
    assert_eq!(moves[0], Move::castling(Player::Black, CastlingSide::QueenSide));
}

#[test]
fn pseudo_castling_moves_should_generate_nothing() {
    let (pos, _) =
        Position::from_fen("r3kbnr/ppp2ppp/2np2b1/4p2q/4P3/3P1PPB/PPP4P/RNBQK1NR b KQkq - 0 1")
            .unwrap();
    let mut moves = Vec::new();
    generate_pseudo_castling_moves(&pos, &mut moves);
    assert_eq!(moves.len(), 0);
}
