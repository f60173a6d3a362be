//! The bits of a 64-bit word: which of them are ones, and how many.

use vstd::prelude::*;
use vstd::std_specs::bits::{axiom_u64_trailing_zeros, u64_trailing_zeros};

verus! {

/// Whether bit `i` of `raw` is a one. Bit 0 is the least significant.
pub open spec fn has_bit(raw: u64, i: u64) -> bool {
    (raw >> i) & 1 == 1
}

/// The positions below `n` at which `raw` has a one.
pub open spec fn ones_below(raw: u64, n: int) -> Set<int> {
    Set::new(|i: int| 0 <= i < n && has_bit(raw, i as u64))
}

/// The positions at which `raw` has a one.
pub open spec fn ones(raw: u64) -> Set<int> {
    ones_below(raw, 64)
}

/// How many of the lowest `n` bits of `raw` are ones.
pub open spec fn count_ones_below(raw: u64, n: nat) -> nat
    decreases n,
{
    if n == 0 {
        0
    } else {
        let rest: nat = count_ones_below(raw, (n - 1) as nat);
        if has_bit(raw, (n - 1) as u64) {
            rest + 1
        } else {
            rest
        }
    }
}

/// Assumed of `u64::count_ones`, and not proved: it returns the number of
/// ones in the binary form of the word, that is, among its 64 bits.
pub assume_specification[ u64::count_ones ](i: u64) -> (r: u32)
    ensures
        r == count_ones_below(i, 64),
;

/// The ones below `n` form a finite set, and counting them bit by bit gives
/// its size.
pub proof fn lemma_count_ones_below(raw: u64, n: nat)
    requires
        n <= 64,
    ensures
        ones_below(raw, n as int).finite(),
        ones_below(raw, n as int).len() == count_ones_below(raw, n),
        count_ones_below(raw, n) <= n,
    decreases n,
{
    if n == 0 {
        assert(ones_below(raw, 0) =~= Set::empty());
    } else {
        let below = ones_below(raw, n - 1);
        lemma_count_ones_below(raw, (n - 1) as nat);
        if has_bit(raw, (n - 1) as u64) {
            assert(ones_below(raw, n as int) =~= below.insert(n - 1));
        } else {
            assert(ones_below(raw, n as int) =~= below);
        }
    }
}

/// Testing a word against the mask of bit `i` tells whether it has that bit.
pub proof fn lemma_mask_tests_bit(raw: u64, i: u64)
    by (bit_vector)
    requires
        i < 64,
    ensures
        raw & (1u64 << i) != 0 <==> has_bit(raw, i),
{
}

/// The mask of bit `i` has that bit and no other.
pub proof fn lemma_mask_bits(i: u64, j: u64)
    by (bit_vector)
    requires
        i < 64,
        j < 64,
    ensures
        has_bit(1u64 << i, j) <==> i == j,
{
}

/// Or-ing the mask of bit `i` into a word turns that bit on and leaves the
/// others.
pub proof fn lemma_or_mask_bits(raw: u64, i: u64, j: u64)
    by (bit_vector)
    requires
        i < 64,
        j < 64,
    ensures
        has_bit(raw | (1u64 << i), j) <==> has_bit(raw, j) || i == j,
{
}

/// And-ing a word with the complement of the mask of bit `i` turns that bit
/// off and leaves the others.
pub proof fn lemma_and_not_mask_bits(raw: u64, i: u64, j: u64)
    by (bit_vector)
    requires
        i < 64,
        j < 64,
    ensures
        has_bit(raw & !(1u64 << i), j) <==> has_bit(raw, j) && i != j,
{
}

/// The word zero has no ones.
pub proof fn lemma_zero_has_no_bit(j: u64)
    by (bit_vector)
    ensures
        !has_bit(0u64, j),
{
}

/// A word other than zero has a one at the position that the number of its
/// trailing zeros gives.
pub proof fn lemma_lowest_one(raw: u64)
    requires
        raw != 0,
    ensures
        u64_trailing_zeros(raw) < 64,
        has_bit(raw, u64_trailing_zeros(raw) as u64),
{
    axiom_u64_trailing_zeros(raw);
}

/// Two words with ones at the same positions are the same word.
pub proof fn lemma_ones_determine_word(a: u64, b: u64)
    requires
        ones(a) == ones(b),
    ensures
        a == b,
{
    if a != b {
        let d: u64 = a ^ b;
        assert(d != 0) by (bit_vector)
            requires
                d == a ^ b,
                a != b,
        ;
        lemma_lowest_one(d);
        let t: u64 = u64_trailing_zeros(d) as u64;
        assert(has_bit(a, t) != has_bit(b, t)) by (bit_vector)
            requires
                d == a ^ b,
                has_bit(d, t),
                t < 64,
        ;
        assert(ones(a).contains(t as int) == has_bit(a, t));
    }
}

} // verus!
