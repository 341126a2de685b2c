use chess_engine::attacks::{bishop_mask, rook_mask};
use chess_engine::board::{FILE_A, FILE_B, FILE_D, FILE_G, FILE_H, RANK_1, RANK_2, RANK_3, RANK_4, RANK_5, RANK_7};
use chess_engine::utility::sq_to_bb;

#[test]
fn rook_masks() {
    assert_eq!(rook_mask(0), (FILE_A | RANK_1) & !sq_to_bb(&[0, 7, 56]));
    assert_eq!(rook_mask(3), (FILE_D | RANK_1) & !sq_to_bb(&[3, 0, 7, 59]));
    assert_eq!(rook_mask(9), (FILE_B | RANK_2) & !sq_to_bb(&[9, 8, 15, 1, 57]));
    assert_eq!(rook_mask(19), (FILE_D | RANK_3) & !sq_to_bb(&[19, 16, 23, 3, 59]));
    assert_eq!(rook_mask(24), (FILE_A | RANK_4) & !sq_to_bb(&[24, 0, 56, 31]));
    assert_eq!(rook_mask(38), (FILE_G | RANK_5) & !sq_to_bb(&[38, 32, 39, 6, 62]));
    assert_eq!(rook_mask(55), (FILE_H | RANK_7) & !sq_to_bb(&[55, 48, 7, 63]));
}

#[test]
fn bishop_masks() {
    assert_eq!(bishop_mask(0), sq_to_bb(&[9, 18, 27, 36, 45, 54]));
    assert_eq!(bishop_mask(3), sq_to_bb(&[10, 17, 12, 21, 30]));
    assert_eq!(bishop_mask(13), sq_to_bb(&[20, 27, 34, 41, 22]));
    assert_eq!(bishop_mask(24), sq_to_bb(&[17, 10, 33, 42, 51]));
    assert_eq!(bishop_mask(38), sq_to_bb(&[29, 20, 11, 45, 52]));
    assert_eq!(bishop_mask(55), sq_to_bb(&[46, 37, 28, 19, 10]));
    assert_eq!(bishop_mask(56), sq_to_bb(&[49, 42, 35, 28, 21, 14]));
}
