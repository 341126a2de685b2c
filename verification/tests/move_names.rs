use chess_engine::board;
use chess_engine::chess_move::{CastlingSide, Move};
use chess_engine::piece::Piece;
use chess_engine::player::Player;
use chess_engine::utility::square_string_to_idx;

#[test]
fn move_names_follow_uci() {
    let m = Move::pawn(board::E2, board::E4, false, None, false);
    assert_eq!(m.uci_string(), "e2e4");
    let p = Move::pawn(board::C7, board::C8, false, Some(Piece::Queen), false);
    assert_eq!(p.uci_string(), "c7c8q");
    let c = Move::castling(Player::White, CastlingSide::KingSide);
    assert_eq!(c.uci_string(), "e1g1");
    let b = Move::castling(Player::Black, CastlingSide::QueenSide);
    assert_eq!(b.uci_string(), "e8c8");
}

#[test]
fn square_names_round_trip() {
    let mut sq = 0u8;
    while sq < 64 {
        let name = chess_engine::utility::square_idx_to_string(sq);
        assert_eq!(square_string_to_idx(&name), Some(sq));
        sq += 1;
    }
    assert_eq!(square_string_to_idx("i1"), None);
    assert_eq!(square_string_to_idx("a9"), None);
    assert_eq!(square_string_to_idx("e45"), None);
}

#[test]
fn evaluate_counts_material() {
    let (pos, _) =
        chess_engine::position::Position::from_fen("8/8/3k4/8/8/4P3/1K6/8 w - - 0 1").unwrap();
    assert_eq!(chess_engine::evaluate::evaluate(&pos), 100);
    let start = chess_engine::position::Position::start();
    assert_eq!(chess_engine::evaluate::evaluate(&start), 0);
}
