//! Address-alignment helpers shared by the memory subsystem.

use vstd::prelude::*;
use vstd::arithmetic::power2::{pow2, lemma_pow2_unfold, lemma_pow2_strictly_increases, lemma2_to64};
use vstd::bits::{low_bits_mask, lemma_usize_low_bits_mask_is_mod};
use vstd::layout::unsigned_int_max_values;

verus! {

/// Holds when `n` is a positive power of two, i.e. a valid alignment.
pub open spec fn is_power_of_two(n: usize) -> bool
    decreases n,
{
    if n == 0 {
        false
    } else if n == 1 {
        true
    } else {
        n % 2 == 0 && is_power_of_two(n / 2)
    }
}

/// Every power of two that fits in a `usize` is `pow2(n)` for an in-range
/// exponent `n`, which lets the bit-mask lemmas of `vstd` apply to it.
proof fn lemma_pow2_exponent(a: usize)
    requires
        is_power_of_two(a),
    ensures
        exists|n: nat| n < usize::BITS && a == pow2(n),
    decreases a,
{
    unsigned_int_max_values();
    if a == 1 {
        assert(pow2(0) == 1) by {
            lemma2_to64();
        }
        assert(0 < usize::BITS && a == pow2(0));
    } else {
        lemma_pow2_exponent(a / 2);
        let m = choose|m: nat| m < usize::BITS && a / 2 == pow2(m);
        lemma_pow2_unfold(m + 1);
        assert(a == pow2(m + 1));
        if m + 1 >= usize::BITS {
            if m + 1 > usize::BITS {
                lemma_pow2_strictly_increases(usize::BITS as nat, m + 1);
            }
            assert(pow2(m + 1) >= pow2(usize::BITS as nat));
            assert(false);
        }
        assert(m + 1 < usize::BITS && a == pow2(m + 1));
    }
}

/// For a power-of-two alignment, masking with `align - 1` is the remainder
/// modulo `align`.
proof fn lemma_mask_is_mod(x: usize, align: usize)
    requires
        is_power_of_two(align),
    ensures
        x & (align - 1) as usize == x % align,
{
    lemma_pow2_exponent(align);
    let n = choose|n: nat| n < usize::BITS && align == pow2(n);
    lemma_usize_low_bits_mask_is_mod(x, n);
    assert(low_bits_mask(n) == (align - 1) as nat);
}

/// Checks whether `ptr` is a multiple of `align`; a zero alignment is not
/// valid and is rejected.
pub fn is_aligned(ptr: usize, align: usize) -> (r: bool)
    ensures
        r == (align != 0 && ptr & (align - 1) as usize == 0),
        is_power_of_two(align) ==> r == (ptr % align == 0),
{
    if align == 0 {
        return false;  // Zero alignment is not valid
    }
    let mask: usize = align - 1;
    proof {
        if is_power_of_two(align) {
            lemma_mask_is_mod(ptr, align);
        }
    }
    (ptr & mask) == 0
}

/// Aligns `address` up to the nearest multiple of `alignment`.
pub fn align_up(address: usize, alignment: usize) -> (r: usize)
    requires
        is_power_of_two(alignment),
        address + alignment <= usize::MAX,
    ensures
        r % alignment == 0,
        address <= r < address + alignment,
{
    let mask: usize = alignment - 1;
    proof {
        lemma_mask_is_mod(address, alignment);
    }
    if address & mask == 0 {
        address
    } else {
        let sum: usize = address + alignment;
        proof {
            lemma_mask_is_mod(sum, alignment);
            assert(sum & !mask == sum - (sum & mask)) by (bit_vector);
            assert(sum % alignment == address % alignment) by (nonlinear_arith)
                requires
                    alignment > 0,
                    sum == address + alignment,
            ;
            assert((sum - sum % alignment) % (alignment as int) == 0) by (nonlinear_arith)
                requires
                    alignment > 0,
            ;
        }
        sum & !mask
    }
}

} // verus!
