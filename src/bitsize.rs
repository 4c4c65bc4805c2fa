//! Two's-complement bit size and the 257-bit width bound.

use vstd::prelude::*;
use crate::magnitude::{
    Int, abs, bit_len, is_power_of_two, words_val, magnitude_bits, magnitude_decrement,
    magnitude_and, magnitude_is_zero, lemma_words_bound, lemma_bit_len_bound,
    lemma_and_pred_zero_iff_power_of_two, lemma_bit_len_le_iff, lemma_bit_len_bracket,
};
use std::cmp::Ordering;
use vstd::arithmetic::power2::{pow2, lemma_pow2_pos, lemma_pow2_strictly_increases};

verus! {

/// Widest value a cell holds, in bits, sign included.
pub const MAX_BITS: usize = 257;

/// Fewest bits that hold `x` in two's complement. A negative power of two
/// needs no extra sign bit.
pub open spec fn bitsize_spec(x: int) -> nat {
    if x == 0 || x == -1 {
        1
    } else if x > 0 {
        bit_len(x as nat) + 1
    } else if is_power_of_two(abs(x)) {
        bit_len(abs(x))
    } else {
        bit_len(abs(x)) + 1
    }
}

/// `x` fits in a cell.
pub open spec fn fits_cell(x: int) -> bool {
    bitsize_spec(x) <= MAX_BITS
}

/// The bit size is the narrowest two's-complement width: `x` fits in `n`
/// bits exactly when `-2^(n-1) <= x < 2^(n-1)`.
pub proof fn lemma_bitsize_is_width(x: int, n: nat)
    requires
        n >= 1,
    ensures
        (bitsize_spec(x) <= n) == (-pow2((n - 1) as nat) <= x < pow2((n - 1) as nat)),
{
    let k = (n - 1) as nat;
    lemma_pow2_pos(k);
    if x > 0 {
        lemma_bit_len_le_iff(x as nat, k);
    } else if x < -1 {
        let m = abs(x);
        let b = bit_len(m);
        lemma_bit_len_bracket(m);
        if b - 1 <= k {
            lemma_pow2_le(k, b);
        } else {
            lemma_pow2_strictly_increases(k, (b - 1) as nat);
        }
        if b <= k {
            lemma_pow2_le(k, b);
        }
    }
}

proof fn lemma_pow2_le(k: nat, b: nat)
    ensures
        b <= k ==> pow2(b) <= pow2(k),
        b >= 1 && b - 1 <= k ==> pow2((b - 1) as nat) <= pow2(k),
{
    if b < k {
        lemma_pow2_strictly_increases(b, k);
    }
    if b >= 1 && b - 1 < k {
        lemma_pow2_strictly_increases((b - 1) as nat, k);
    }
}

/// Fewest bits that hold `value` in two's complement.
pub fn bitsize(value: &Int) -> (r: usize)
    ensures
        r == bitsize_spec(value@),
{
    if value.is_zero() || matches!(value.compare(&Int::unit(true)), Ordering::Equal) {
        return 1;
    }
    let digits = value.digits();
    let res = magnitude_bits(digits);
    proof {
        lemma_words_bound(digits@);
        lemma_bit_len_bound(words_val(digits@), 32 * digits@.len());
    }
    let res = res as usize;
    if value.is_positive() {
        return res + 1;
    }
    // For a negative value the magnitude's bit count is exact only for a power of two.
    let pred = magnitude_decrement(digits);
    let masked = magnitude_and(digits, &pred);
    proof {
        lemma_and_pred_zero_iff_power_of_two(words_val(digits@));
    }
    if magnitude_is_zero(&masked) {
        return res;
    }
    res + 1
}

/// Whether `value` fits in a cell: true exactly when its bit size is below 258.
pub fn check_overflow(value: &Int) -> (r: bool)
    ensures
        r == fits_cell(value@),
        r == (bitsize_spec(value@) < 258),
{
    bitsize(value) <= MAX_BITS
}

} // verus!
