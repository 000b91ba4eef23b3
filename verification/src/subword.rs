//! Subword operations on 36-bit machine words.
//!
//! A machine word has 36 bits, split into a left and a right half of
//! 18 bits each; each half splits further into two 9-bit quarters.
//! Addresses, index values and the program counter all live in the
//! 18-bit halves.

use vstd::prelude::*;

verus! {

/// Mask of a full 36-bit word.
pub const WORD_MASK: u64 = 0o777_777_777_777;

/// Mask of an 18-bit halfword.
pub const HALF_MASK: u32 = 0o777_777;

/// Mask of a 9-bit quarterword.
pub const QUARTER_MASK: u32 = 0o777;

/// True when `w` fits in 36 bits.
pub open spec fn word_in_range(w: u64) -> bool {
    w <= WORD_MASK
}

/// True when `h` fits in 18 bits.
pub open spec fn half_in_range(h: u32) -> bool {
    h <= HALF_MASK
}

/// The left (more significant) 18 bits of a word.
pub open spec fn spec_left_half(w: u64) -> u32 {
    ((w >> 18) & (HALF_MASK as u64)) as u32
}

/// The right (less significant) 18 bits of a word.
pub open spec fn spec_right_half(w: u64) -> u32 {
    (w & (HALF_MASK as u64)) as u32
}

/// The word made of left half `l` and right half `r`.
pub open spec fn spec_join_halves(l: u32, r: u32) -> u64 {
    (((l & HALF_MASK) as u64) << 18) | ((r & HALF_MASK) as u64)
}

/// The halfword made of more significant quarter `hi` and less
/// significant quarter `lo`.
pub open spec fn spec_join_quarters(hi: u32, lo: u32) -> u32 {
    (((hi & QUARTER_MASK)) << 9) | (lo & QUARTER_MASK)
}

/// Facts about halves of words that the callers of the executable
/// functions below need: ranges, and that joining halves and taking
/// them apart again are inverse operations.
pub proof fn lemma_half_facts(w: u64, l: u32, r: u32)
    by (bit_vector)
    ensures
        spec_left_half(w) <= HALF_MASK,
        spec_right_half(w) <= HALF_MASK,
        spec_join_halves(l, r) <= WORD_MASK,
        spec_left_half(spec_join_halves(l, r)) == l & HALF_MASK,
        spec_right_half(spec_join_halves(l, r)) == r & HALF_MASK,
        w <= WORD_MASK ==> spec_join_halves(spec_left_half(w), spec_right_half(w)) == w,
{
}

/// Facts about quarters of halfwords.
pub proof fn lemma_quarter_facts(hi: u32, lo: u32)
    by (bit_vector)
    ensures
        spec_join_quarters(hi, lo) <= HALF_MASK,
        hi <= QUARTER_MASK && lo <= QUARTER_MASK ==> spec_join_quarters(hi, lo) == hi * 0o1000
            + lo,
{
}

/// The left (more significant) 18 bits of a word.
pub fn left_half(w: u64) -> (r: u32)
    ensures
        r == spec_left_half(w),
        r <= HALF_MASK,
{
    proof {
        lemma_half_facts(w, 0, 0);
    }
    ((w >> 18) & (HALF_MASK as u64)) as u32
}

/// The right (less significant) 18 bits of a word.
pub fn right_half(w: u64) -> (r: u32)
    ensures
        r == spec_right_half(w),
        r <= HALF_MASK,
{
    proof {
        lemma_half_facts(w, 0, 0);
    }
    (w & (HALF_MASK as u64)) as u32
}

/// Both halves of a word, left first.
pub fn split_halves(w: u64) -> (r: (u32, u32))
    ensures
        r.0 == spec_left_half(w),
        r.1 == spec_right_half(w),
        r.0 <= HALF_MASK,
        r.1 <= HALF_MASK,
{
    (left_half(w), right_half(w))
}

/// The word made of left half `l` and right half `r`.
pub fn join_halves(l: u32, r: u32) -> (w: u64)
    ensures
        w == spec_join_halves(l, r),
        word_in_range(w),
{
    proof {
        lemma_half_facts(0, l, r);
    }
    (((l & HALF_MASK) as u64) << 18) | ((r & HALF_MASK) as u64)
}

/// The halfword made of quarters `hi` and `lo`.
pub fn join_quarters(hi: u32, lo: u32) -> (h: u32)
    ensures
        h == spec_join_quarters(hi, lo),
        half_in_range(h),
{
    proof {
        lemma_quarter_facts(hi, lo);
    }
    ((hi & QUARTER_MASK) << 9) | (lo & QUARTER_MASK)
}

} // verus!
