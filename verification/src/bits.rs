//! Spec-level view of 64-bit boards and the bit-twiddling lemmas the
//! rest of the crate leans on.

use vstd::prelude::*;

verus! {

/// Bitboard with only bit `n` set.
pub open spec fn bit_at(n: u64) -> u64 {
    1u64 << n
}

/// Is bit `n` of `b` set?
pub open spec fn get_bit(b: u64, n: u64) -> bool {
    b & (1u64 << n) != 0
}

/// `b` with bit `n` set.
pub open spec fn with_bit(b: u64, n: u64) -> u64 {
    b | (1u64 << n)
}

/// `b` with bit `n` cleared.
pub open spec fn without_bit(b: u64, n: u64) -> u64 {
    b & !(1u64 << n)
}

/// Number of set bits among bits `[0, n)` of `b`.
pub open spec fn count_bits_below(b: u64, n: int) -> nat
    decreases n,
{
    if n <= 0 {
        0
    } else {
        count_bits_below(b, n - 1) + (if get_bit(b, (n - 1) as u64) {
            1nat
        } else {
            0nat
        })
    }
}

/// Number of set bits of `b`.
pub open spec fn count_bits(b: u64) -> nat {
    count_bits_below(b, 64)
}

/// How setting one bit changes every readable bit.
pub proof fn lemma_get_with_bit(b: u64, n: u64, m: u64)
    by (bit_vector)
    requires
        n < 64,
        m < 64,
    ensures
        get_bit(with_bit(b, n), m) == (m == n || get_bit(b, m)),
{
}

/// How clearing one bit changes every readable bit.
pub proof fn lemma_get_without_bit(b: u64, n: u64, m: u64)
    by (bit_vector)
    requires
        n < 64,
        m < 64,
    ensures
        get_bit(without_bit(b, n), m) == (m != n && get_bit(b, m)),
{
}

/// Reading a bit as a shifted-down low bit.
pub proof fn lemma_shift_get(b: u64, m: u64)
    by (bit_vector)
    requires
        m < 64,
    ensures
        get_bit(b, m) == ((b >> m) & 1u64 == 1u64),
{
}

/// The group laws of exclusive or.
pub proof fn lemma_xor_laws()
    by (bit_vector)
    ensures
        forall|a: u64, b: u64| #[trigger] (a ^ b) == b ^ a,
        forall|a: u64, b: u64, c: u64| #[trigger] ((a ^ b) ^ c) == a ^ (b ^ c),
        forall|a: u64| #[trigger] (a ^ a) == 0,
        forall|a: u64| #[trigger] (a ^ 0) == a,
{
}

/// Reading, setting and clearing bits of the union of two boards.
pub proof fn lemma_or_bits(a: u64, b: u64, n: u64)
    by (bit_vector)
    requires
        n < 64,
    ensures
        get_bit(a | b, n) == (get_bit(a, n) || get_bit(b, n)),
{
}

/// Reading a bit of the intersection of two boards.
pub proof fn lemma_and_bits(a: u64, b: u64, n: u64)
    by (bit_vector)
    requires
        n < 64,
    ensures
        get_bit(a & b, n) == (get_bit(a, n) && get_bit(b, n)),
{
}

/// Reading bits of a left shift.
pub proof fn lemma_shl_bits(x: u64, s: u64, t: u64)
    by (bit_vector)
    requires
        s < 64,
        t < 64,
    ensures
        t >= s ==> get_bit(x << s, t) == get_bit(x, (t - s) as u64),
        t < s ==> !get_bit(x << s, t),
{
}

/// Reading bits of a right shift.
pub proof fn lemma_shr_bits(x: u64, s: u64, t: u64)
    by (bit_vector)
    requires
        s < 64,
        t < 64,
    ensures
        t + s < 64 ==> get_bit(x >> s, t) == get_bit(x, (t + s) as u64),
        t + s >= 64 ==> !get_bit(x >> s, t),
{
}

/// Reading a bit of a masked-out board.
pub proof fn lemma_and_not_bits(x: u64, y: u64, n: u64)
    by (bit_vector)
    requires
        n < 64,
    ensures
        get_bit(x & !y, n) == (get_bit(x, n) && !get_bit(y, n)),
{
}

/// Reading a bit of a complement.
pub proof fn lemma_not_bits(y: u64, n: u64)
    by (bit_vector)
    requires
        n < 64,
    ensures
        get_bit(!y, n) == !get_bit(y, n),
{
}

/// A single-bit board holds exactly its own bit.
pub proof fn lemma_one_bit(n: u64, t: u64)
    by (bit_vector)
    requires
        n < 64,
        t < 64,
    ensures
        get_bit(1u64 << n, t) == (t == n),
{
}

/// Conjunction of boards commutes.
pub proof fn lemma_and_comm(x: u64, y: u64)
    by (bit_vector)
    ensures
        x & y == y & x,
{
}

/// Membership in the a-file and the h-file.
pub proof fn lemma_file_edges(t: u64)
    by (bit_vector)
    requires
        t < 64,
    ensures
        get_bit(0x0101010101010101u64, t) == (t % 8 == 0),
        get_bit(0x8080808080808080u64, t) == (t % 8 == 7),
{
}

/// Membership in the first and the last rank.
pub proof fn lemma_rank_edges(t: u64)
    by (bit_vector)
    requires
        t < 64,
    ensures
        get_bit(0xFF00000000000000u64, t) == (t >= 56),
        get_bit(0x00000000000000FFu64, t) == (t < 8),
{
}

/// Clearing an absent bit changes nothing.
pub proof fn lemma_clear_absent(x: u64, n: u64)
    by (bit_vector)
    requires
        n < 64,
        !get_bit(x, n),
    ensures
        without_bit(x, n) == x,
{
}

/// Setting a present bit back restores the board.
pub proof fn lemma_restore_present(x: u64, n: u64)
    by (bit_vector)
    requires
        n < 64,
        get_bit(x, n),
    ensures
        with_bit(without_bit(x, n), n) == x,
        with_bit(x, n) == x,
{
}

/// Clearing a freshly added bit takes the board back.
pub proof fn lemma_undo_add(x: u64, n: u64)
    by (bit_vector)
    requires
        n < 64,
        !get_bit(x, n),
    ensures
        without_bit(with_bit(x, n), n) == x,
{
}

/// Small identities for building a board up square by square.
pub proof fn lemma_build_identities(a: u64, b: u64, m: u64)
    by (bit_vector)
    ensures
        (a | m) | b == (a | b) | m,
        a | (b | m) == (a | b) | m,
        0u64 & 0u64 == 0u64,
        0u64 | 0u64 == 0u64,
        0u64 | 0u64 | 0u64 | 0u64 | 0u64 | 0u64 == 0u64,
{
}

/// The zero board has no bit set.
pub proof fn lemma_zero_bits()
    by (bit_vector)
    ensures
        forall|n: u64| (0u64 & (1u64 << n)) == 0,
{
}

/// A board with a positive bit count is not zero.
pub proof fn lemma_count_bits_positive(b: u64)
    ensures
        count_bits(b) > 0 ==> b != 0,
{
    if b == 0 {
        lemma_zero_bits();
        lemma_count_zero_below(64);
    }
}

/// The zero board counts no bits below any point.
proof fn lemma_count_zero_below(n: int)
    requires
        0 <= n <= 64,
    ensures
        count_bits_below(0, n) == 0,
    decreases n,
{
    lemma_zero_bits();
    if n > 0 {
        lemma_count_zero_below(n - 1);
    }
}

/// At most `n` bits are set among bits `[0, n)`.
pub proof fn lemma_count_bits_below_bound(b: u64, n: int)
    requires
        0 <= n <= 64,
    ensures
        count_bits_below(b, n) <= n,
    decreases n,
{
    if n > 0 {
        lemma_count_bits_below_bound(b, n - 1);
    }
}

} // verus!
