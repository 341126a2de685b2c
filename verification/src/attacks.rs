//! Attack sets per square: pawn, knight and king formulas, ray walks
//! for the sliding pieces, and the sliders' relevant-blocker masks.

use vstd::prelude::*;

use crate::bits::bit_at;
use crate::board::{FILE_A, FILE_B, FILE_G, FILE_H, RANK_1, RANK_2, RANK_7, RANK_8};

verus! {

/// Spec view of `pawn_attacks_white`.
pub open spec fn spec_pawn_attacks_white(sq: u64) -> u64 {
    let bb = 1u64 << sq;
    ((bb & !FILE_A) << 7) | ((bb & !FILE_H) << 9)
}

/// Squares a white pawn on `sq` attacks: one step up each diagonal,
/// minding the board's edges.
pub fn pawn_attacks_white(sq: u8) -> (r: u64)
    requires
        sq < 64,
    ensures
        r == spec_pawn_attacks_white(sq as u64),
{
    let bb: u64 = 1u64 << sq;
    ((bb & !FILE_A) << 7) | ((bb & !FILE_H) << 9)
}

/// Spec view of `pawn_attacks_black`.
pub open spec fn spec_pawn_attacks_black(sq: u64) -> u64 {
    let bb = 1u64 << sq;
    ((bb & !FILE_H) >> 7) | ((bb & !FILE_A) >> 9)
}

/// Squares a black pawn on `sq` attacks: one step down each diagonal,
/// minding the board's edges.
pub fn pawn_attacks_black(sq: u8) -> (r: u64)
    requires
        sq < 64,
    ensures
        r == spec_pawn_attacks_black(sq as u64),
{
    let bb: u64 = 1u64 << sq;
    ((bb & !FILE_H) >> 7) | ((bb & !FILE_A) >> 9)
}

/// Spec view of `generate_knight_attack`.
pub open spec fn spec_knight_attack(sq: u64) -> u64 {
    let bb = 1u64 << sq;
    let no_ab = bb & !(FILE_A | FILE_B);
    let no_gh = bb & !(FILE_G | FILE_H);
    let no_12 = bb & !(RANK_1 | RANK_2);
    let no_78 = bb & !(RANK_7 | RANK_8);
    ((no_ab & !RANK_8) << 6) | ((no_ab & !RANK_1) >> 10) | ((no_gh & !RANK_8) << 10) | ((no_gh
        & !RANK_1) >> 6) | ((no_12 & !FILE_H) >> 15) | ((no_12 & !FILE_A) >> 17) | ((no_78
        & !FILE_H) << 17) | ((no_78 & !FILE_A) << 15)
}

/// The knight attack set of a square.
pub fn generate_knight_attack(square: u8) -> (r: u64)
    requires
        square < 64,
    ensures
        r == spec_knight_attack(square as u64),
{
    let bb: u64 = 1u64 << square;

    let no_ab: u64 = bb & !(FILE_A | FILE_B);
    let no_gh: u64 = bb & !(FILE_G | FILE_H);
    let no_12: u64 = bb & !(RANK_1 | RANK_2);
    let no_78: u64 = bb & !(RANK_7 | RANK_8);

    ((no_ab & !RANK_8) << 6) | ((no_ab & !RANK_1) >> 10) | ((no_gh & !RANK_8) << 10) | ((no_gh
        & !RANK_1) >> 6) | ((no_12 & !FILE_H) >> 15) | ((no_12 & !FILE_A) >> 17) | ((no_78
        & !FILE_H) << 17) | ((no_78 & !FILE_A) << 15)
}

/// Spec view of `generate_king_attack`.
pub open spec fn spec_king_attack(sq: u64) -> u64 {
    let bb = 1u64 << sq;
    let no_a = bb & !FILE_A;
    let no_h = bb & !FILE_H;
    let no_1 = bb & !RANK_1;
    let no_8 = bb & !RANK_8;
    (no_a >> 1) | (no_h << 1) | (no_1 >> 8) | (no_8 << 8) | ((no_a & no_8) << 7) | ((no_h & no_8)
        << 9) | ((no_a & no_1) >> 9) | ((no_h & no_1) >> 7)
}

/// The king attack set of a square.
pub fn generate_king_attack(square: u8) -> (r: u64)
    requires
        square < 64,
    ensures
        r == spec_king_attack(square as u64),
{
    let bb: u64 = 1u64 << square;

    let no_a: u64 = bb & !FILE_A;
    let no_h: u64 = bb & !FILE_H;
    let no_1: u64 = bb & !RANK_1;
    let no_8: u64 = bb & !RANK_8;

    (no_a >> 1) | (no_h << 1) | (no_1 >> 8) | (no_8 << 8) | ((no_a & no_8) << 7) | ((no_h & no_8)
        << 9) | ((no_a & no_1) >> 9) | ((no_h & no_1) >> 7)
}

/// The squares a slider walking direction `(dr, df)` from `(r, f)`
/// reaches: each next square up to and including the first occupied
/// one, stopping at the board's edge.
#[verifier::opaque]
pub open spec fn spec_ray(occ: u64, r: int, f: int, dr: int, df: int, fuel: nat) -> u64
    decreases fuel,
{
    if fuel == 0 {
        0u64
    } else {
        let nr = r + dr;
        let nf = f + df;
        if nr < 0 || nr > 7 || nf < 0 || nf > 7 {
            0u64
        } else {
            let nb = bit_at((nr * 8 + nf) as u64);
            if occ & nb != 0 {
                nb
            } else {
                nb | spec_ray(occ, nr, nf, dr, df, (fuel - 1) as nat)
            }
        }
    }
}

/// Walk one ray over the occupancy `occ`.
fn ray(occ: u64, r: i32, f: i32, dr: i32, df: i32, fuel: u32) -> (res: u64)
    requires
        0 <= r < 8,
        0 <= f < 8,
        -1 <= dr <= 1,
        -1 <= df <= 1,
        fuel <= 7,
    ensures
        res == spec_ray(occ, r as int, f as int, dr as int, df as int, fuel as nat),
    decreases fuel,
{
    proof {
        reveal(crate::attacks::spec_ray);
    }
    if fuel == 0 {
        return 0;
    }
    let nr: i32 = r + dr;
    let nf: i32 = f + df;
    if nr < 0 || nr > 7 || nf < 0 || nf > 7 {
        return 0;
    }
    let nb: u64 = 1u64 << ((nr * 8 + nf) as u32);
    if occ & nb != 0 {
        nb
    } else {
        nb | ray(occ, nr, nf, dr, df, fuel - 1)
    }
}

/// Spec view of `rook_attack_set`.
pub open spec fn spec_rook_attacks(occ: u64, sq: int) -> u64 {
    spec_ray(occ, sq / 8, sq % 8, 1, 0, 7) | spec_ray(occ, sq / 8, sq % 8, -1, 0, 7) | spec_ray(
        occ,
        sq / 8,
        sq % 8,
        0,
        1,
        7,
    ) | spec_ray(occ, sq / 8, sq % 8, 0, -1, 7)
}

/// Squares a rook on `sq` attacks over the occupancy `occ`, own and
/// enemy blockers included.
pub fn rook_attack_set(occ: u64, sq: usize) -> (r: u64)
    requires
        sq < 64,
    ensures
        r == spec_rook_attacks(occ, sq as int),
{
    let r0: i32 = (sq / 8) as i32;
    let f0: i32 = (sq % 8) as i32;
    ray(occ, r0, f0, 1, 0, 7) | ray(occ, r0, f0, -1, 0, 7) | ray(occ, r0, f0, 0, 1, 7) | ray(
        occ,
        r0,
        f0,
        0,
        -1,
        7,
    )
}

/// Spec view of `bishop_attack_set`.
pub open spec fn spec_bishop_attacks(occ: u64, sq: int) -> u64 {
    spec_ray(occ, sq / 8, sq % 8, 1, 1, 7) | spec_ray(occ, sq / 8, sq % 8, 1, -1, 7) | spec_ray(
        occ,
        sq / 8,
        sq % 8,
        -1,
        1,
        7,
    ) | spec_ray(occ, sq / 8, sq % 8, -1, -1, 7)
}

/// Squares a bishop on `sq` attacks over the occupancy `occ`, own and
/// enemy blockers included.
pub fn bishop_attack_set(occ: u64, sq: usize) -> (r: u64)
    requires
        sq < 64,
    ensures
        r == spec_bishop_attacks(occ, sq as int),
{
    let r0: i32 = (sq / 8) as i32;
    let f0: i32 = (sq % 8) as i32;
    ray(occ, r0, f0, 1, 1, 7) | ray(occ, r0, f0, 1, -1, 7) | ray(occ, r0, f0, -1, 1, 7) | ray(
        occ,
        r0,
        f0,
        -1,
        -1,
        7,
    )
}

/// Spec view of `rook_mask`.
pub open spec fn spec_rook_mask(sq: int) -> u64 {
    (spec_ray(0, sq / 8, sq % 8, 1, 0, 7) & !RANK_8) | (spec_ray(0, sq / 8, sq % 8, -1, 0, 7)
        & !RANK_1) | (spec_ray(0, sq / 8, sq % 8, 0, 1, 7) & !FILE_H) | (spec_ray(
        0,
        sq / 8,
        sq % 8,
        0,
        -1,
        7,
    ) & !FILE_A)
}

/// The relevant-blocker squares of a rook: its rays over an empty
/// board, without the far edge of each ray.
pub fn rook_mask(sq: usize) -> (r: u64)
    requires
        sq < 64,
    ensures
        r == spec_rook_mask(sq as int),
{
    let r0: i32 = (sq / 8) as i32;
    let f0: i32 = (sq % 8) as i32;
    (ray(0, r0, f0, 1, 0, 7) & !RANK_8) | (ray(0, r0, f0, -1, 0, 7) & !RANK_1) | (ray(
        0,
        r0,
        f0,
        0,
        1,
        7,
    ) & !FILE_H) | (ray(0, r0, f0, 0, -1, 7) & !FILE_A)
}

/// Spec view of `bishop_mask`.
pub open spec fn spec_bishop_mask(sq: int) -> u64 {
    (spec_ray(0, sq / 8, sq % 8, 1, 1, 7) | spec_ray(0, sq / 8, sq % 8, 1, -1, 7) | spec_ray(
        0,
        sq / 8,
        sq % 8,
        -1,
        1,
        7,
    ) | spec_ray(0, sq / 8, sq % 8, -1, -1, 7)) & !(FILE_A | FILE_H | RANK_1 | RANK_8)
}

/// The relevant-blocker squares of a bishop: its diagonals over an
/// empty board, without the border ranks and files.
pub fn bishop_mask(sq: usize) -> (r: u64)
    requires
        sq < 64,
    ensures
        r == spec_bishop_mask(sq as int),
{
    let r0: i32 = (sq / 8) as i32;
    let f0: i32 = (sq % 8) as i32;
    (ray(0, r0, f0, 1, 1, 7) | ray(0, r0, f0, 1, -1, 7) | ray(0, r0, f0, -1, 1, 7) | ray(
        0,
        r0,
        f0,
        -1,
        -1,
        7,
    )) & !(FILE_A | FILE_H | RANK_1 | RANK_8)
}

} // verus!
