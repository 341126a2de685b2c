//! Square indices, file and rank masks, under little-endian rank-file
//! mapping: file = index mod 8 (a = 0), rank = index div 8 (rank 1 = 0).

use vstd::prelude::*;

verus! {

pub const FILE_A: u64 = 0x0101010101010101;

pub const FILE_B: u64 = 0x0202020202020202;

pub const FILE_C: u64 = 0x0404040404040404;

pub const FILE_D: u64 = 0x0808080808080808;

pub const FILE_E: u64 = 0x1010101010101010;

pub const FILE_F: u64 = 0x2020202020202020;

pub const FILE_G: u64 = 0x4040404040404040;

pub const FILE_H: u64 = 0x8080808080808080;

pub const RANK_1: u64 = 0x00000000000000FF;

pub const RANK_2: u64 = 0x000000000000FF00;

pub const RANK_3: u64 = 0x0000000000FF0000;

pub const RANK_4: u64 = 0x00000000FF000000;

pub const RANK_5: u64 = 0x000000FF00000000;

pub const RANK_6: u64 = 0x0000FF0000000000;

pub const RANK_7: u64 = 0x00FF000000000000;

pub const RANK_8: u64 = 0xFF00000000000000;

/// Spec view of `rank_mask`.
pub open spec fn spec_rank_mask(r: int) -> u64 {
    if r == 1 {
        RANK_1
    } else if r == 2 {
        RANK_2
    } else if r == 3 {
        RANK_3
    } else if r == 4 {
        RANK_4
    } else if r == 5 {
        RANK_5
    } else if r == 6 {
        RANK_6
    } else if r == 7 {
        RANK_7
    } else {
        RANK_8
    }
}

/// Mask of the squares of rank `r`, counted 1 to 8.
pub fn rank_mask(r: usize) -> (m: u64)
    requires
        1 <= r <= 8,
    ensures
        m == spec_rank_mask(r as int),
{
    match r {
        1 => RANK_1,
        2 => RANK_2,
        3 => RANK_3,
        4 => RANK_4,
        5 => RANK_5,
        6 => RANK_6,
        7 => RANK_7,
        _ => RANK_8,
    }
}

/// Spec view of `file_mask`.
pub open spec fn spec_file_mask(f: int) -> u64 {
    if f == 1 {
        FILE_A
    } else if f == 2 {
        FILE_B
    } else if f == 3 {
        FILE_C
    } else if f == 4 {
        FILE_D
    } else if f == 5 {
        FILE_E
    } else if f == 6 {
        FILE_F
    } else if f == 7 {
        FILE_G
    } else {
        FILE_H
    }
}

/// Mask of the squares of file `f`, counted 1 (file a) to 8 (file h).
pub fn file_mask(f: usize) -> (m: u64)
    requires
        1 <= f <= 8,
    ensures
        m == spec_file_mask(f as int),
{
    match f {
        1 => FILE_A,
        2 => FILE_B,
        3 => FILE_C,
        4 => FILE_D,
        5 => FILE_E,
        6 => FILE_F,
        7 => FILE_G,
        _ => FILE_H,
    }
}

pub const A1: u8 = 0;

pub const B1: u8 = 1;

pub const C1: u8 = 2;

pub const D1: u8 = 3;

pub const E1: u8 = 4;

pub const F1: u8 = 5;

pub const G1: u8 = 6;

pub const H1: u8 = 7;

pub const A2: u8 = 8;

pub const B2: u8 = 9;

pub const C2: u8 = 10;

pub const D2: u8 = 11;

pub const E2: u8 = 12;

pub const F2: u8 = 13;

pub const G2: u8 = 14;

pub const H2: u8 = 15;

pub const A3: u8 = 16;

pub const B3: u8 = 17;

pub const C3: u8 = 18;

pub const D3: u8 = 19;

pub const E3: u8 = 20;

pub const F3: u8 = 21;

pub const G3: u8 = 22;

pub const H3: u8 = 23;

pub const A4: u8 = 24;

pub const B4: u8 = 25;

pub const C4: u8 = 26;

pub const D4: u8 = 27;

pub const E4: u8 = 28;

pub const F4: u8 = 29;

pub const G4: u8 = 30;

pub const H4: u8 = 31;

pub const A5: u8 = 32;

pub const B5: u8 = 33;

pub const C5: u8 = 34;

pub const D5: u8 = 35;

pub const E5: u8 = 36;

pub const F5: u8 = 37;

pub const G5: u8 = 38;

pub const H5: u8 = 39;

pub const A6: u8 = 40;

pub const B6: u8 = 41;

pub const C6: u8 = 42;

pub const D6: u8 = 43;

pub const E6: u8 = 44;

pub const F6: u8 = 45;

pub const G6: u8 = 46;

pub const H6: u8 = 47;

pub const A7: u8 = 48;

pub const B7: u8 = 49;

pub const C7: u8 = 50;

pub const D7: u8 = 51;

pub const E7: u8 = 52;

pub const F7: u8 = 53;

pub const G7: u8 = 54;

pub const H7: u8 = 55;

pub const A8: u8 = 56;

pub const B8: u8 = 57;

pub const C8: u8 = 58;

pub const D8: u8 = 59;

pub const E8: u8 = 60;

pub const F8: u8 = 61;

pub const G8: u8 = 62;

pub const H8: u8 = 63;

} // verus!
