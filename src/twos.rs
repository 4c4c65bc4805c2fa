//! In-place two's-complement negation of little-endian words.

use vstd::prelude::*;

verus! {

/// `x + 1`, wrapping to zero past the largest word.
pub open spec fn wrapping_inc(x: u32) -> u32 {
    if x == u32::MAX {
        0
    } else {
        (x + 1) as u32
    }
}

/// The words before index `i` are all zero, so a carry reaches word `i`.
pub open spec fn zero_below(s: Seq<u32>, i: int) -> bool {
    forall|j: int| 0 <= j < i ==> s[j] == 0
}

/// Two's-complement negation of little-endian words: each word inverted, and
/// one added at the lowest word with the carry passed upward while words wrap.
pub open spec fn negated_words(s: Seq<u32>) -> Seq<u32> {
    Seq::new(s.len(), |i: int| if zero_below(s, i) { wrapping_inc(!s[i]) } else { !s[i] })
}

proof fn lemma_word_facts(x: u32)
    ensures
        (wrapping_inc(!x) == 0) == (x == 0),
        wrapping_inc(!wrapping_inc(!x)) == x,
        !!x == x,
{
    assert((!x == u32::MAX) == (x == 0)) by (bit_vector);
    assert(!x != u32::MAX ==> !((!x + 1) as u32) != u32::MAX) by (bit_vector);
    assert(!x != u32::MAX ==> (!((!x + 1) as u32) + 1) as u32 == x) by (bit_vector);
    assert(!!x == x) by (bit_vector);
}

proof fn lemma_zero_below_kept(s: Seq<u32>, i: int)
    requires
        0 <= i <= s.len(),
    ensures
        zero_below(negated_words(s), i) == zero_below(s, i),
    decreases i,
{
    if i > 0 {
        lemma_zero_below_kept(s, i - 1);
        lemma_word_facts(s[i - 1]);
        let t = negated_words(s);
        assert(zero_below(s, i) == (zero_below(s, i - 1) && s[i - 1] == 0));
        assert(zero_below(t, i) == (zero_below(t, i - 1) && t[i - 1] == 0));
    }
}

/// Negating twice gives back the original words, for every word sequence
/// (all zero words, the representation of zero, negate to themselves).
pub proof fn lemma_negated_words_involution(s: Seq<u32>)
    ensures
        negated_words(negated_words(s)) == s,
{
    let t = negated_words(s);
    assert forall|i: int| 0 <= i < s.len() implies #[trigger] negated_words(t)[i] == s[i] by {
        lemma_zero_below_kept(s, i);
        lemma_word_facts(s[i]);
    }
    assert(negated_words(t) =~= s);
}

/// Replaces the little-endian words by their two's-complement negation: every
/// word is inverted, then one is added with the carry moving up until a word
/// does not wrap to zero.
pub fn twos_complement(digits: &mut Vec<u32>)
    ensures
        final(digits)@ == negated_words(old(digits)@),
{
    let ghost start = digits@;
    let mut carry = true;
    let mut i: usize = 0;
    while i < digits.len()
        invariant
            digits.len() == start.len(),
            i <= digits.len(),
            carry == zero_below(start, i as int),
            forall|j: int| 0 <= j < i ==> digits@[j] == negated_words(start)[j],
            forall|j: int| i <= j < digits.len() ==> digits@[j] == start[j],
        decreases digits.len() - i,
    {
        proof {
            lemma_word_facts(start[i as int]);
            assert(zero_below(start, i + 1) == (zero_below(start, i as int) && start[i as int] == 0));
        }
        let mut d = !digits[i];
        if carry {
            d = d.wrapping_add(1);
            carry = d == 0;
        }
        digits.set(i, d);
        i += 1;
    }
    proof {
        assert(digits@ =~= negated_words(start));
    }
}

} // verus!
