//! Signed integers of any size, held as a sign and little-endian base 2^32
//! words, and the arbitrary-precision queries that the cell logic needs.

use vstd::prelude::*;
use num::BigUint;
use num::BigInt;
use num::bigint::Sign;
use num_traits::Zero;
use std::cmp::Ordering;
use vstd::arithmetic::power2::{pow2, lemma2_to64, lemma_pow2_adds, lemma_pow2_unfold};

verus! {

/// Largest number of words an `Int` may hold, so that its bit count fits in `usize`.
pub const MAX_WORDS: usize = usize::MAX / 64;

/// Value of little-endian base 2^32 words.
pub open spec fn words_val(w: Seq<u32>) -> nat
    decreases w.len(),
{
    if w.len() == 0 {
        0
    } else {
        w[0] as nat + 0x1_0000_0000 * words_val(w.drop_first())
    }
}

/// Number of bits needed to write `n` in binary (0 for 0).
pub open spec fn bit_len(n: nat) -> nat
    decreases n,
{
    if n == 0 {
        0
    } else {
        1 + bit_len(n / 2)
    }
}

/// Bitwise and of two naturals.
pub open spec fn and_nat(a: nat, b: nat) -> nat
    decreases a,
{
    if a == 0 || b == 0 {
        0
    } else {
        2 * and_nat(a / 2, b / 2) + (if a % 2 == 1 && b % 2 == 1 { 1nat } else { 0nat })
    }
}

/// `n` is a power of two.
pub open spec fn is_power_of_two(n: nat) -> bool
    decreases n,
{
    if n <= 1 {
        n == 1
    } else {
        n % 2 == 0 && is_power_of_two(n / 2)
    }
}

/// Absolute value.
pub open spec fn abs(x: int) -> nat {
    if x < 0 { (-x) as nat } else { x as nat }
}

/// The ordering of two integers.
pub open spec fn ordering_of(a: int, b: int) -> Ordering {
    if a < b {
        Ordering::Less
    } else if a == b {
        Ordering::Equal
    } else {
        Ordering::Greater
    }
}

proof fn lemma_words_last_nonzero(w: Seq<u32>)
    requires
        w.len() > 0,
        w[w.len() - 1] != 0,
    ensures
        words_val(w) > 0,
    decreases w.len(),
{
    if w.len() > 1 {
        lemma_words_last_nonzero(w.drop_first());
    }
}

proof fn lemma_words_drop_high_zero(w: Seq<u32>)
    requires
        w.len() > 0,
        w[w.len() - 1] == 0,
    ensures
        words_val(w.drop_last()) == words_val(w),
    decreases w.len(),
{
    if w.len() > 1 {
        lemma_words_drop_high_zero(w.drop_first());
        assert(w.drop_first().drop_last() =~= w.drop_last().drop_first());
        assert(w.drop_last()[0] == w[0]);
    } else {
        assert(words_val(w.drop_first()) == 0);
        assert(words_val(w.drop_last()) == 0);
    }
}

proof fn lemma_and_self(a: nat)
    ensures
        and_nat(a, a) == a,
    decreases a,
{
    if a > 0 {
        lemma_and_self(a / 2);
    }
}

/// A positive `m` is a power of two exactly when `m & (m - 1)` is zero.
pub proof fn lemma_and_pred_zero_iff_power_of_two(m: nat)
    requires
        m >= 1,
    ensures
        (and_nat(m, (m - 1) as nat) == 0) == is_power_of_two(m),
    decreases m,
{
    if m == 1 {
        assert(and_nat(1, 0) == 0);
    } else if m % 2 == 0 {
        lemma_and_pred_zero_iff_power_of_two(m / 2);
        assert(((m - 1) as nat) / 2 == ((m / 2) - 1) as nat);
    } else {
        lemma_and_self(m / 2);
        assert(((m - 1) as nat) / 2 == m / 2);
    }
}

/// A number below 2^k needs at most k bits.
pub proof fn lemma_bit_len_bound(n: nat, k: nat)
    requires
        n < pow2(k),
    ensures
        bit_len(n) <= k,
    decreases k,
{
    if k == 0 {
        lemma2_to64();
    } else if n > 0 {
        lemma_pow2_unfold(k);
        lemma_bit_len_bound(n / 2, (k - 1) as nat);
    }
}

/// Exactly the numbers below 2^k need at most k bits.
pub proof fn lemma_bit_len_le_iff(n: nat, k: nat)
    ensures
        (bit_len(n) <= k) == (n < pow2(k)),
    decreases n,
{
    if n < pow2(k) {
        lemma_bit_len_bound(n, k);
    } else if n == 0 {
        vstd::arithmetic::power2::lemma_pow2_pos(k);
    } else if k > 0 {
        lemma_pow2_unfold(k);
        lemma_bit_len_le_iff(n / 2, (k - 1) as nat);
    }
}

/// A positive number lies in [2^(b-1), 2^b) for its bit length b, and is a
/// power of two exactly when it is the lower end.
pub proof fn lemma_bit_len_bracket(m: nat)
    requires
        m >= 1,
    ensures
        bit_len(m) >= 1,
        pow2((bit_len(m) - 1) as nat) <= m < pow2(bit_len(m)),
        is_power_of_two(m) == (m == pow2((bit_len(m) - 1) as nat)),
    decreases m,
{
    let b = bit_len(m);
    lemma_bit_len_le_iff(m, b);
    lemma_bit_len_le_iff(m, (b - 1) as nat);
    if m == 1 {
        lemma2_to64();
        assert(bit_len(0) == 0);
        assert(b == 1);
    } else {
        lemma_bit_len_bracket(m / 2);
        let c = bit_len(m / 2);
        assert(b == 1 + c);
        lemma_pow2_unfold(c);
        let p = pow2((c - 1) as nat);
        assert(pow2(c) == 2 * p);
        if m % 2 == 0 {
            assert(is_power_of_two(m) == is_power_of_two(m / 2));
            assert((m == 2 * p) == (m / 2 == p));
        } else {
            assert(!is_power_of_two(m));
            assert(m != 2 * p);
        }
    }
}

/// `len` words hold a value below 2^(32 len).
pub proof fn lemma_words_bound(w: Seq<u32>)
    ensures
        words_val(w) < pow2(32 * w.len()),
    decreases w.len(),
{
    lemma2_to64();
    if w.len() > 0 {
        let rest = w.drop_first();
        lemma_words_bound(rest);
        let p = pow2(32 * rest.len());
        lemma_pow2_adds(32, 32 * rest.len());
        assert(32 + 32 * rest.len() == 32 * w.len());
        let v = words_val(rest);
        let d = w[0] as nat;
        assert(d + 0x1_0000_0000 * v < 0x1_0000_0000 * p) by (nonlinear_arith)
            requires
                d < 0x1_0000_0000,
                v < p,
        ;
    }
}

/// A signed integer of any size: a sign and the little-endian base 2^32 words
/// of its magnitude, with no high zero word and no negative zero.
#[derive(Debug)]
pub struct Int {
    negative: bool,
    digits: Vec<u32>,
}

impl View for Int {
    type V = int;

    closed spec fn view(&self) -> int {
        if self.negative {
            -(words_val(self.digits@) as int)
        } else {
            words_val(self.digits@) as int
        }
    }
}

impl Int {
    #[verifier::type_invariant]
    spec fn inv(self) -> bool {
        &&& self.digits.len() <= MAX_WORDS
        &&& self.digits.len() > 0 ==> self.digits@.last() != 0
        &&& self.negative ==> self.digits.len() > 0
    }

    /// Builds the integer with the given sign and magnitude words (least
    /// significant first). High zero words are dropped; a zero magnitude is
    /// never negative.
    pub fn from_parts(negative: bool, digits: Vec<u32>) -> (r: Int)
        requires
            digits.len() <= MAX_WORDS,
        ensures
            r@ == (if negative { -(words_val(digits@) as int) } else { words_val(digits@) as int }),
    {
        let mut digits = digits;
        let ghost original = digits@;
        while digits.len() > 0 && digits[digits.len() - 1] == 0
            invariant
                digits.len() <= MAX_WORDS,
                words_val(digits@) == words_val(original),
            decreases digits.len(),
        {
            proof {
                lemma_words_drop_high_zero(digits@);
            }
            digits.pop();
        }
        let negative = negative && digits.len() > 0;
        Int { negative, digits }
    }

    /// Zero.
    pub fn zero() -> (r: Int)
        ensures
            r@ == 0,
    {
        Int { negative: false, digits: Vec::new() }
    }

    /// One, or minus one.
    pub fn unit(negative: bool) -> (r: Int)
        ensures
            r@ == (if negative { -1int } else { 1int }),
    {
        let mut digits: Vec<u32> = Vec::new();
        digits.push(1);
        proof {
            assert(words_val(digits@.drop_first()) == 0);
            assert(words_val(digits@) == 1);
        }
        Int { negative, digits }
    }

    proof fn lemma_view(&self)
        requires
            self.inv(),
        ensures
            self.negative <==> self@ < 0,
            self.digits.len() == 0 <==> self@ == 0,
            words_val(self.digits@) == abs(self@),
            self.digits.len() <= MAX_WORDS,
    {
        if self.digits.len() > 0 {
            lemma_words_last_nonzero(self.digits@);
        }
    }

    /// Whether the integer is below zero.
    pub fn is_negative(&self) -> (r: bool)
        ensures
            r == (self@ < 0),
    {
        proof {
            use_type_invariant(self);
            self.lemma_view();
        }
        self.negative
    }

    /// Whether the integer is zero.
    pub fn is_zero(&self) -> (r: bool)
        ensures
            r == (self@ == 0),
    {
        proof {
            use_type_invariant(self);
            self.lemma_view();
        }
        self.digits.len() == 0
    }

    /// Whether the integer is above zero.
    pub fn is_positive(&self) -> (r: bool)
        ensures
            r == (self@ > 0),
    {
        proof {
            use_type_invariant(self);
            self.lemma_view();
        }
        !self.negative && self.digits.len() > 0
    }

    /// The words of the magnitude, least significant first.
    pub fn digits(&self) -> (r: &Vec<u32>)
        ensures
            words_val(r@) == abs(self@),
            r.len() <= MAX_WORDS,
    {
        proof {
            use_type_invariant(self);
            self.lemma_view();
        }
        &self.digits
    }

    /// Three-way comparison by value.
    pub fn compare(&self, other: &Int) -> (r: Ordering)
        ensures
            r == ordering_of(self@, other@),
    {
        proof {
            use_type_invariant(self);
            use_type_invariant(other);
            self.lemma_view();
            other.lemma_view();
        }
        compare_signed(self.negative, &self.digits, other.negative, &other.digits)
    }
}

/// Relies on `BigInt::from_slice` and `Ord::cmp` for `BigInt`: numeric comparison
/// of the two signed integers.
#[verifier::external_body]
fn compare_signed(a_neg: bool, a: &Vec<u32>, b_neg: bool, b: &Vec<u32>) -> (r: Ordering)
    ensures
        r == ordering_of(
            if a_neg { -(words_val(a@) as int) } else { words_val(a@) as int },
            if b_neg { -(words_val(b@) as int) } else { words_val(b@) as int },
        ),
{
    let a_sign = if a_neg { Sign::Minus } else { Sign::Plus };
    let b_sign = if b_neg { Sign::Minus } else { Sign::Plus };
    BigInt::from_slice(a_sign, a).cmp(&BigInt::from_slice(b_sign, b))
}

/// Relies on `BigUint::from_slice` and `BigUint::bits`: the fewest bits that
/// express the magnitude (the word count bound keeps the count inside `u64`).
#[verifier::external_body]
pub(crate) fn magnitude_bits(w: &Vec<u32>) -> (r: u64)
    requires
        w.len() <= MAX_WORDS,
    ensures
        r == bit_len(words_val(w@)),
{
    BigUint::from_slice(w).bits()
}

/// Relies on `Sub<u32>` for `BigUint`: the magnitude less one (it panics below zero).
/// The digits come back through `BigUint::to_u32_digits`.
#[verifier::external_body]
pub(crate) fn magnitude_decrement(w: &Vec<u32>) -> (r: Vec<u32>)
    requires
        words_val(w@) > 0,
    ensures
        words_val(r@) == words_val(w@) - 1,
{
    (BigUint::from_slice(w) - 1u32).to_u32_digits()
}

/// Relies on `BitAnd` for `BigUint`: the bitwise and of two magnitudes.
/// The digits come back through `BigUint::to_u32_digits`.
#[verifier::external_body]
pub(crate) fn magnitude_and(a: &Vec<u32>, b: &Vec<u32>) -> (r: Vec<u32>)
    ensures
        words_val(r@) == and_nat(words_val(a@), words_val(b@)),
{
    (BigUint::from_slice(a) & BigUint::from_slice(b)).to_u32_digits()
}

/// Relies on `Zero::is_zero` for `BigUint`: whether the magnitude is zero.
#[verifier::external_body]
pub(crate) fn magnitude_is_zero(w: &Vec<u32>) -> (r: bool)
    ensures
        r == (words_val(w@) == 0),
{
    BigUint::from_slice(w).is_zero()
}

} // verus!
