use chess_engine::attacks::{generate_king_attack, generate_knight_attack, pawn_attacks_black, pawn_attacks_white};
use chess_engine::utility::sq_to_bb;

#[test]
fn white_pawn_attack_table() {
    assert_eq!(pawn_attacks_white(10), sq_to_bb(&[17, 19]));
    assert_eq!(pawn_attacks_white(21), sq_to_bb(&[28, 30]));
    assert_eq!(pawn_attacks_white(31), sq_to_bb(&[38]));
    assert_eq!(pawn_attacks_white(35), sq_to_bb(&[42, 44]));
    assert_eq!(pawn_attacks_white(40), sq_to_bb(&[49]));
}

#[test]
fn black_pawn_attack_table() {
    assert_eq!(pawn_attacks_black(52), sq_to_bb(&[43, 45]));
    assert_eq!(pawn_attacks_black(47), sq_to_bb(&[38]));
    assert_eq!(pawn_attacks_black(29), sq_to_bb(&[20, 22]));
    assert_eq!(pawn_attacks_black(24), sq_to_bb(&[17]));
    assert_eq!(pawn_attacks_black(19), sq_to_bb(&[10, 12]));
}

#[test]
fn knight_attack_table() {
    assert_eq!(generate_knight_attack(0), sq_to_bb(&[10, 17]));
    assert_eq!(generate_knight_attack(1), sq_to_bb(&[11, 16, 18]));
    assert_eq!(generate_knight_attack(8), sq_to_bb(&[2, 18, 25]));

    assert_eq!(generate_knight_attack(6), sq_to_bb(&[12, 21, 23]));
    assert_eq!(generate_knight_attack(7), sq_to_bb(&[13, 22]));
    assert_eq!(generate_knight_attack(15), sq_to_bb(&[5, 21, 30]));

    assert_eq!(generate_knight_attack(48), sq_to_bb(&[33, 42, 58]));
    assert_eq!(generate_knight_attack(56), sq_to_bb(&[41, 50]));
    assert_eq!(generate_knight_attack(57), sq_to_bb(&[40, 42, 51]));

    assert_eq!(generate_knight_attack(55), sq_to_bb(&[38, 45, 61]));
    assert_eq!(generate_knight_attack(62), sq_to_bb(&[45, 47, 52]));
    assert_eq!(generate_knight_attack(63), sq_to_bb(&[46, 53]));

    assert_eq!(generate_knight_attack(11), sq_to_bb(&[1, 5, 17, 21, 26, 28]));
    assert_eq!(generate_knight_attack(25), sq_to_bb(&[8, 10, 19, 35, 40, 42]));
    assert_eq!(generate_knight_attack(36), sq_to_bb(&[19, 21, 26, 30, 42, 46, 51, 53]));
}

#[test]
fn king_attack_table() {
    assert_eq!(generate_king_attack(0), sq_to_bb(&[1, 8, 9]));
    assert_eq!(generate_king_attack(7), sq_to_bb(&[6, 14, 15]));
    assert_eq!(generate_king_attack(56), sq_to_bb(&[48, 49, 57]));
    assert_eq!(generate_king_attack(63), sq_to_bb(&[54, 55, 62]));

    assert_eq!(generate_king_attack(3), sq_to_bb(&[2, 4, 10, 11, 12]));
    assert_eq!(generate_king_attack(16), sq_to_bb(&[8, 9, 17, 24, 25]));
    assert_eq!(generate_king_attack(39), sq_to_bb(&[30, 31, 38, 46, 47]));
    assert_eq!(generate_king_attack(58), sq_to_bb(&[49, 50, 51, 57, 59]));

    assert_eq!(generate_king_attack(42), sq_to_bb(&[33, 34, 35, 41, 43, 49, 50, 51]));
    assert_eq!(generate_king_attack(19), sq_to_bb(&[10, 11, 12, 18, 20, 26, 27, 28]));
}
