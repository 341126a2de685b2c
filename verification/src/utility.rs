//! Small board helpers: single-bit boards, square naming, shifts.

use vstd::prelude::*;
use vstd::string::StringExecFns;
use vstd::string::StringSliceAdditionalSpecFns;

use crate::bits::{bit_at, get_bit, without_bit, lemma_shift_get};

verus! {

/// Bitboard with only square `sq` set.
pub fn bit(sq: usize) -> (r: u64)
    requires
        sq < 64,
    ensures
        r == bit_at(sq as u64),
{
    1u64 << sq
}

/// Spec view of `sq_to_bb`: union of the single-bit boards of a list of squares.
pub open spec fn squares_to_board(lst: Seq<u8>) -> u64
    decreases lst.len(),
{
    if lst.len() == 0 {
        0u64
    } else {
        squares_to_board(lst.drop_last()) | bit_at(lst.last() as u64)
    }
}

/// Bitboard holding every square of the list.
pub fn sq_to_bb(lst: &[u8]) -> (r: u64)
    requires
        forall|i: int| 0 <= i < lst@.len() ==> lst@[i] < 64,
    ensures
        r == squares_to_board(lst@),
{
    let mut result: u64 = 0;
    let mut i: usize = 0;
    while i < lst.len()
        invariant
            i <= lst@.len(),
            forall|j: int| 0 <= j < lst@.len() ==> lst@[j] < 64,
            result == squares_to_board(lst@.take(i as int)),
        decreases lst@.len() - i,
    {
        proof {
            assert(lst@.take(i + 1).drop_last() =~= lst@.take(i as int));
            assert(lst@.take(i + 1).last() == lst@[i as int]);
        }
        result = result | (1u64 << lst[i]);
        i = i + 1;
    }
    proof {
        assert(lst@.take(lst@.len() as int) =~= lst@);
    }
    result
}

/// Number of set bits of a board.
pub fn popcount(b: u64) -> (r: u32)
    ensures
        r == crate::bits::count_bits(b),
{
    let mut count: u32 = 0;
    let mut i: usize = 0;
    while i < 64
        invariant
            i <= 64,
            count == crate::bits::count_bits_below(b, i as int),
            count <= i,
        decreases 64 - i,
    {
        if b & (1u64 << i) != 0 {
            count = count + 1;
        }
        i = i + 1;
    }
    count
}

/// Index of the lowest set bit; clears that bit from the board.
pub fn pop_lsb(bitboard: &mut u64) -> (r: u8)
    requires
        *old(bitboard) != 0,
    ensures
        r < 64,
        r == vstd::std_specs::bits::u64_trailing_zeros(*old(bitboard)),
        get_bit(*old(bitboard), r as u64),
        forall|m: u64| m < r ==> !get_bit(*old(bitboard), m),
        *final(bitboard) == without_bit(*old(bitboard), r as u64),
{
    let b: u64 = *bitboard;
    let tz: u32 = b.trailing_zeros();
    proof {
        vstd::std_specs::bits::axiom_u64_trailing_zeros(b);
        lemma_shift_get(b, tz as u64);
        assert forall|m: u64| m < tz implies !get_bit(b, m) by {
            assert((b >> m) & 1u64 == 0u64);
            lemma_shift_get(b, m);
        }
    }
    let r: u8 = tz as u8;
    *bitboard = b & !(1u64 << r);
    r
}

/// Index of the lowest set bit, the board unchanged.
pub fn lsb(bitboard: u64) -> (r: u8)
    requires
        bitboard != 0,
    ensures
        r < 64,
        r == vstd::std_specs::bits::u64_trailing_zeros(bitboard),
        get_bit(bitboard, r as u64),
        forall|m: u64| m < r ==> !get_bit(bitboard, m),
{
    let mut b: u64 = bitboard;
    pop_lsb(&mut b)
}

/// Spec view of a square's two-character algebraic name.
pub open spec fn square_name(sq: u8) -> Seq<char> {
    seq![
        (('a' as u8) + (sq % 8)) as char,
        (('1' as u8) + (sq / 8)) as char,
    ]
}

/// Algebraic name of a square, file letter then rank digit.
pub fn square_idx_to_string(sq: u8) -> (r: String)
    requires
        sq < 64,
    ensures
        r@ == square_name(sq),
{
    let file: u8 = sq % 8;
    let rank: u8 = sq / 8;
    let f: &str = match file {
        0 => "a",
        1 => "b",
        2 => "c",
        3 => "d",
        4 => "e",
        5 => "f",
        6 => "g",
        _ => "h",
    };
    let g: &str = match rank {
        0 => "1",
        1 => "2",
        2 => "3",
        3 => "4",
        4 => "5",
        5 => "6",
        6 => "7",
        _ => "8",
    };
    proof {
        reveal_strlit("a");
        reveal_strlit("b");
        reveal_strlit("c");
        reveal_strlit("d");
        reveal_strlit("e");
        reveal_strlit("f");
        reveal_strlit("g");
        reveal_strlit("h");
        reveal_strlit("1");
        reveal_strlit("2");
        reveal_strlit("3");
        reveal_strlit("4");
        reveal_strlit("5");
        reveal_strlit("6");
        reveal_strlit("7");
        reveal_strlit("8");
    }
    let mut s: String = f.to_owned();
    s.append(g);
    proof {
        assert(s@ =~= square_name(sq));
    }
    s
}

/// Spec view of a square's algebraic name as utf-8 bytes.
pub open spec fn square_name_bytes(sq: u8) -> Seq<u8> {
    seq![(('a' as u8) + (sq % 8)) as u8, (('1' as u8) + (sq / 8)) as u8]
}

/// Square index of a two-character algebraic name, if the name is one.
pub fn square_string_to_idx(sq: &str) -> (r: Option<u8>)
    ensures
        match r {
            Some(idx) => {
                &&& idx < 64
                &&& sq.spec_bytes() == square_name_bytes(idx)
            },
            None => forall|idx: u8| idx < 64 ==> sq.spec_bytes() != square_name_bytes(idx),
        },
{
    let bytes: &[u8] = sq.as_bytes();
    if bytes.len() != 2 {
        return None;
    }
    let b0: u8 = bytes[0];
    let b1: u8 = bytes[1];
    if b0 >= 97 && b0 <= 104 && b1 >= 49 && b1 <= 56 {
        let file: u8 = b0 - 97;
        let rank: u8 = b1 - 49;
        let idx: u8 = rank * 8 + file;
        proof {
            assert(sq.spec_bytes() =~= square_name_bytes(idx));
        }
        Some(idx)
    } else {
        None
    }
}

/// Spec view of `is_square_color_white`.
pub open spec fn spec_square_color_white(sq: u8) -> bool {
    ((sq % 8) + (sq / 8)) % 2 == 1
}

/// The colour of a square: light when file and rank have different
/// parity, as on a1's dark corner.
pub fn is_square_color_white(sq: u8) -> (r: bool)
    requires
        sq < 64,
    ensures
        r == spec_square_color_white(sq),
{
    ((sq % 8) + (sq / 8)) % 2 == 1
}

/// Spec view of a shift by a possibly negative offset.
pub open spec fn spec_signed_shift(bb: u64, offset: i8) -> u64 {
    if offset >= 0 {
        bb << (offset as u64)
    } else {
        bb >> ((-(offset as int)) as u64)
    }
}

/// Shift left for a nonnegative offset, right for a negative one.
pub fn signed_shift(bb: u64, offset: i8) -> (r: u64)
    requires
        -63 <= offset <= 63,
    ensures
        r == spec_signed_shift(bb, offset),
{
    if offset >= 0 {
        bb << (offset as u32)
    } else {
        bb >> ((-offset) as u32)
    }
}

} // verus!
