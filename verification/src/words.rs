//! Fixed-width word arithmetic: splitting a 128-bit value into its 64-bit
//! halves and negating a 64-bit word modulo 2^64.

use vstd::prelude::*;

verus! {

/// The number of values a 64-bit word can take, 2^64.
pub open spec fn word_count() -> int {
    0x1_0000_0000_0000_0000
}

/// The low 64 bits of `r`: the remainder of `r` by 2^64.
pub fn low_half(r: u128) -> (low: u64)
    ensures
        low == r as int % word_count(),
{
    let low: u64 = #[verifier::truncate] (r as u64);
    assert(r as u64 == r % 0x1_0000_0000_0000_0000) by (bit_vector);
    low
}

/// The high 64 bits of `r`: the quotient of `r` by 2^64.
pub fn high_half(r: u128) -> (high: u64)
    ensures
        high == r as int / word_count(),
{
    let shifted: u128 = r >> 64;
    assert(r >> 64 == r / 0x1_0000_0000_0000_0000) by (bit_vector);
    assert(r >> 64 <= 0xffff_ffff_ffff_ffff) by (bit_vector);
    shifted as u64
}

/// The negation of `x` as a 64-bit word: the one word congruent to `-x`
/// modulo 2^64. For a nonzero `x` that is `2^64 - x`.
pub fn negate(x: u64) -> (neg: u64)
    ensures
        neg == (word_count() - x) % word_count(),
        x != 0 ==> neg == word_count() - x,
{
    if x == 0 {
        0
    } else {
        u64::MAX - x + 1
    }
}

/// Truncating a 128-bit value to 64 bits is reduction modulo 2^64.
pub proof fn lemma_truncation_is_remainder(r: u128)
    ensures
        r as u64 == r as int % word_count(),
{
    assert(r as u64 == r % 0x1_0000_0000_0000_0000) by (bit_vector);
}

/// For a nonzero word `x`, subtracting it from 2^64 gives the same word as
/// negating `x` read as a signed 64-bit value and reading the result as
/// unsigned again.
pub proof fn lemma_negation_is_complement(x: u64)
    requires
        x != 0,
    ensures
        (-(x as i64)) as i64 as u64 == word_count() - x,
{
    assert((-(x as i64)) as i64 as u64 == 0x1_0000_0000_0000_0000 - x) by (bit_vector)
        requires
            x != 0,
    ;
}

} // verus!
