//! Alignment arithmetic for power-of-two alignments.
//!
//! The aligned allocator trims an oversized mapping to an aligned window, so
//! everything below is stated both at the bit level (what the executable code
//! computes) and at the arithmetic level (what callers reason with).

use vstd::prelude::*;

verus! {

use vstd::arithmetic::div_mod::{
    lemma_fundamental_div_mod,
    lemma_mod_bound,
    lemma_mod_multiples_basic,
};
use vstd::arithmetic::power2::{pow2, lemma_pow2_pos, lemma2_to64};
use vstd::bits::{low_bits_mask, lemma_usize_low_bits_mask_is_mod};

/// True when `a` is a power of two that fits in a machine word.
pub open spec fn is_power_of_two(a: usize) -> bool {
    exists|n: nat| n < usize::BITS && a == pow2(n)
}

/// The largest multiple of `alignment` that is at most `value`.
pub open spec fn align_down_int(alignment: int, value: int) -> int {
    value - value % alignment
}

/// The smallest multiple of `alignment` that is at least `value`.
pub open spec fn align_up_int(alignment: int, value: int) -> int {
    align_down_int(alignment, value + alignment - 1)
}

/// A power of two is at least one.
pub proof fn lemma_power_of_two_pos(a: usize)
    requires
        is_power_of_two(a),
    ensures
        a >= 1,
{
    let n = choose|n: nat| n < usize::BITS && a == pow2(n);
    lemma_pow2_pos(n);
}

/// Clearing the low bits of `x` with the mask of a power of two `a` rounds
/// `x` down to the nearest multiple of `a`.
proof fn lemma_mask_rounds_down(a: usize, x: usize)
    requires
        is_power_of_two(a),
    ensures
        a >= 1,
        x & !((a - 1) as usize) == align_down_int(a as int, x as int),
{
    let n = choose|n: nat| n < usize::BITS && a == pow2(n);
    lemma_pow2_pos(n);
    lemma_usize_low_bits_mask_is_mod(x, n);
    let lowmask = (a - 1) as usize;
    assert(low_bits_mask(n) == lowmask) by {
        assert(low_bits_mask(n) == (pow2(n) - 1) as nat);
    }
    assert(x & lowmask == x % a);
    assert((x & lowmask) + (x & !lowmask) == x) by (bit_vector);
    lemma_mod_bound(x as int, a as int);
}

/// Rounds `pointer_value` down to the nearest multiple of `alignment`.
pub fn align_pointer_value_down(alignment: usize, pointer_value: usize) -> (r: usize)
    requires
        is_power_of_two(alignment),
    ensures
        r == align_down_int(alignment as int, pointer_value as int),
        r % alignment == 0,
        r <= pointer_value,
        pointer_value - r < alignment,
{
    proof {
        lemma_mask_rounds_down(alignment, pointer_value);
        lemma_align_down_properties(alignment as int, pointer_value as int);
    }
    let alignment_mask = !(alignment - 1);
    pointer_value & alignment_mask
}

/// Rounds `pointer_value` up to the nearest multiple of `alignment`; the
/// caller must leave room below `usize::MAX` for the rounding.
pub fn align_pointer_value_up(alignment: usize, pointer_value: usize) -> (r: usize)
    requires
        is_power_of_two(alignment),
        pointer_value + alignment - 1 <= usize::MAX,
    ensures
        r == align_up_int(alignment as int, pointer_value as int),
        r % alignment == 0,
        r >= pointer_value,
        r - pointer_value < alignment,
{
    proof {
        lemma_power_of_two_pos(alignment);
    }
    let shifted = pointer_value + (alignment - 1);
    proof {
        lemma_mask_rounds_down(alignment, shifted);
        lemma_align_down_properties(alignment as int, shifted as int);
    }
    let alignment_mask = !(alignment - 1);
    shifted & alignment_mask
}

/// Rounding down lands on a multiple of the alignment, never increases the
/// value, and moves it by less than one alignment.
pub proof fn lemma_align_down_properties(alignment: int, value: int)
    requires
        alignment > 0,
        value >= 0,
    ensures
        align_down_int(alignment, value) % alignment == 0,
        align_down_int(alignment, value) <= value,
        value - align_down_int(alignment, value) < alignment,
{
    lemma_mod_bound(value, alignment);
    lemma_fundamental_div_mod(value, alignment);
    assert(align_down_int(alignment, value) == (value / alignment) * alignment);
    lemma_mod_multiples_basic(value / alignment, alignment);
}

/// For every power-of-two alignment, rounding a value up lands on an
/// alignment boundary — so rounding the result down again is the identity —
/// and the rounded value is at least the original and less than one
/// alignment above it.
pub proof fn lemma_align_up_down(alignment: usize, value: usize)
    requires
        is_power_of_two(alignment),
    ensures
        align_down_int(alignment as int, align_up_int(alignment as int, value as int))
            == align_up_int(alignment as int, value as int),
        align_up_int(alignment as int, value as int) >= value,
        align_up_int(alignment as int, value as int) - value < alignment,
{
    lemma_power_of_two_pos(alignment);
    let a = alignment as int;
    let v = value as int;
    lemma_align_down_properties(a, v + a - 1);
}

/// The alignments that the huge-page code uses in practice are powers of two.
pub proof fn lemma_common_alignments_are_powers_of_two()
    ensures
        is_power_of_two((2usize << 20) as usize),
        is_power_of_two((1usize << 30) as usize),
{
    lemma2_to64();
    assert((2usize << 20) == 0x200000) by (bit_vector);
    assert((1usize << 30) == 0x40000000) by (bit_vector);
    assert(pow2(21) == 0x200000 && pow2(30) == 0x40000000);
    assert(21nat < usize::BITS && 30nat < usize::BITS);
}

} // verus!
