//! Single bits of a byte, and the few facts about them that the rest of the
//! crate builds on.

use vstd::arithmetic::power2::{lemma2_to64, pow2};
use vstd::prelude::*;

verus! {

/// Whether bit `i` of `x` is set. No bit beyond the eighth is.
pub open spec fn has_bit(x: u8, i: int) -> bool {
    0 <= i < 8 && (x >> (i as u8)) & 1 == 1
}

/// The byte with the single bit `i` set.
pub open spec fn single_bit(i: u8) -> u8
    recommends
        i < 8,
{
    1u8 << i
}

/// What bit `i` of `x` adds to the value of `x`.
pub open spec fn bit_weight(x: u8, i: int) -> int {
    if has_bit(x, i) {
        pow2(i as nat) as int
    } else {
        0
    }
}

/// Zero has no bit set.
pub proof fn lemma_zero_has_no_bit(i: int)
    ensures
        !has_bit(0, i),
{
    if 0 <= i < 8 {
        let j = i as u8;
        assert((0u8 >> j) & 1 == 0) by (bit_vector);
    }
}

/// Testing a byte against a single bit tells whether that bit is set.
pub proof fn lemma_and_single_bit(x: u8, b: u8)
    requires
        b < 8,
    ensures
        (x & single_bit(b) != 0) == has_bit(x, b as int),
{
    assert((x & (1u8 << b) != 0) == ((x >> b) & 1 == 1)) by (bit_vector)
        requires
            b < 8,
    ;
}

/// Or-ing a single bit in sets that bit and keeps every other.
pub proof fn lemma_or_single_bit(x: u8, b: u8, i: int)
    requires
        b < 8,
    ensures
        has_bit(x | single_bit(b), i) == (i == b || has_bit(x, i)),
{
    if 0 <= i < 8 {
        let j = i as u8;
        assert((((x | (1u8 << b)) >> j) & 1 == 1) == (j == b || (x >> j) & 1 == 1))
            by (bit_vector)
            requires
                b < 8,
                j < 8,
        ;
    }
}

/// And-ing with the complement of a single bit clears that bit and keeps
/// every other.
pub proof fn lemma_and_not_single_bit(x: u8, b: u8, i: int)
    requires
        b < 8,
    ensures
        has_bit(x & !single_bit(b), i) == (i != b && has_bit(x, i)),
{
    if 0 <= i < 8 {
        let j = i as u8;
        assert((((x & !(1u8 << b)) >> j) & 1 == 1) == (j != b && (x >> j) & 1 == 1))
            by (bit_vector)
            requires
                b < 8,
                j < 8,
        ;
    }
}

/// A byte is determined by its bits.
pub proof fn lemma_same_bits(x: u8, y: u8)
    requires
        forall|i: int| 0 <= i < 8 ==> has_bit(x, i) == has_bit(y, i),
    ensures
        x == y,
{
    assert(has_bit(x, 0) == has_bit(y, 0));
    assert(has_bit(x, 1) == has_bit(y, 1));
    assert(has_bit(x, 2) == has_bit(y, 2));
    assert(has_bit(x, 3) == has_bit(y, 3));
    assert(has_bit(x, 4) == has_bit(y, 4));
    assert(has_bit(x, 5) == has_bit(y, 5));
    assert(has_bit(x, 6) == has_bit(y, 6));
    assert(has_bit(x, 7) == has_bit(y, 7));
    assert(x == y) by (bit_vector)
        requires
            ((x >> 0u8) & 1 == 1) == ((y >> 0u8) & 1 == 1),
            ((x >> 1u8) & 1 == 1) == ((y >> 1u8) & 1 == 1),
            ((x >> 2u8) & 1 == 1) == ((y >> 2u8) & 1 == 1),
            ((x >> 3u8) & 1 == 1) == ((y >> 3u8) & 1 == 1),
            ((x >> 4u8) & 1 == 1) == ((y >> 4u8) & 1 == 1),
            ((x >> 5u8) & 1 == 1) == ((y >> 5u8) & 1 == 1),
            ((x >> 6u8) & 1 == 1) == ((y >> 6u8) & 1 == 1),
            ((x >> 7u8) & 1 == 1) == ((y >> 7u8) & 1 == 1),
    ;
}

/// A byte below 128 is the sum of the weights of its seven low bits.
pub proof fn lemma_seven_bit_value(x: u8)
    requires
        x < 128,
    ensures
        x == bit_weight(x, 0) + bit_weight(x, 1) + bit_weight(x, 2) + bit_weight(x, 3)
            + bit_weight(x, 4) + bit_weight(x, 5) + bit_weight(x, 6),
{
    lemma2_to64();
    let b0: u8 = (x >> 0u8) & 1;
    let b1: u8 = (x >> 1u8) & 1;
    let b2: u8 = (x >> 2u8) & 1;
    let b3: u8 = (x >> 3u8) & 1;
    let b4: u8 = (x >> 4u8) & 1;
    let b5: u8 = (x >> 5u8) & 1;
    let b6: u8 = (x >> 6u8) & 1;
    assert(b0 <= 1 && b1 <= 1 && b2 <= 1 && b3 <= 1 && b4 <= 1 && b5 <= 1 && b6 <= 1
        && x == b0 + 2 * b1 + 4 * b2 + 8 * b3 + 16 * b4 + 32 * b5 + 64 * b6) by (bit_vector)
        requires
            x < 128,
            b0 == (x >> 0u8) & 1,
            b1 == (x >> 1u8) & 1,
            b2 == (x >> 2u8) & 1,
            b3 == (x >> 3u8) & 1,
            b4 == (x >> 4u8) & 1,
            b5 == (x >> 5u8) & 1,
            b6 == (x >> 6u8) & 1,
    ;
}

} // verus!
