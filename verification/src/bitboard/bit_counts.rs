//! Bit counts of words and of their 8-, 16- and 32-bit fields.

use vstd::prelude::*;

verus! {

/// The number of set bits of `x` among bits `lo..lo + width`.
pub open spec fn field_ones(x: u64, lo: int, width: nat) -> nat
    decreases width,
{
    if width == 0 {
        0
    } else {
        field_ones(x, lo, (width - 1) as nat) + ((x >> (lo + width - 1) as u64) & 1u64) as nat
    }
}

/// The number of set bits of `x`.
pub open spec fn popcount_spec(x: u64) -> nat {
    field_ones(x, 0, 64)
}

/// Counting a field in two consecutive parts.
pub proof fn lemma_field_ones_split(x: u64, lo: int, a: nat, b: nat)
    ensures
        field_ones(x, lo, a + b) == field_ones(x, lo, a) + field_ones(x, lo + a, b),
    decreases b,
{
    if b > 0 {
        lemma_field_ones_split(x, lo, a, (b - 1) as nat);
        assert(field_ones(x, lo, a + b) == field_ones(x, lo, (a + b - 1) as nat)
            + ((x >> (lo + (a + b) - 1) as u64) & 1u64) as nat);
    }
}

/// The byte counts after the first three SWAR reduction steps.
pub open spec fn swar_byte_counts(x: u64) -> u64 {
    let a = (x - ((x >> 1u64) & 0x5555555555555555u64)) as u64;
    let b = ((a & 0x3333333333333333u64) + ((a >> 2u64) & 0x3333333333333333u64)) as u64;
    ((b + (b >> 4u64)) as u64) & 0x0F0F0F0F0F0F0F0Fu64
}

/// The 16-bit field counts after the fourth SWAR step.
pub open spec fn swar_half_counts(x: u64) -> u64 {
    let c = swar_byte_counts(x);
    (c + (c >> 8u64)) as u64 & 0x00FF00FF00FF00FFu64
}

/// The 32-bit field counts after the fifth SWAR step.
pub open spec fn swar_word_counts(x: u64) -> u64 {
    let d = swar_half_counts(x);
    (d + (d >> 16u64)) as u64 & 0x0000FFFF0000FFFFu64
}

proof fn lemma_swar_byte_bv(x: u64, i: u64)
    by (bit_vector)
    requires
        i < 8,
    ensures
        (swar_byte_counts(x) >> (8 * i) as u64) & 0xFFu64 == ((x >> (8 * i + 0) as u64) & 1u64) + ((x >> (8 * i + 1) as u64) & 1u64) + ((x >> (8 * i + 2) as u64) & 1u64) + ((x >> (8 * i + 3) as u64) & 1u64) + ((x >> (8 * i + 4) as u64) & 1u64) + ((x >> (8 * i + 5) as u64) & 1u64) + ((x >> (8 * i + 6) as u64) & 1u64) + ((x >> (8 * i + 7) as u64) & 1u64),
        (swar_byte_counts(x) >> (8 * i) as u64) & 0xFFu64 <= 8,
{
}

/// Byte `i` of the SWAR byte counts is the number of set bits of byte `i`.
pub proof fn lemma_swar_byte(x: u64, i: u64)
    requires
        i < 8,
    ensures
        (swar_byte_counts(x) >> (8 * i) as u64) & 0xFFu64 == field_ones(x, 8 * i, 8),
        field_ones(x, 8 * i, 8) <= 8,
{
    lemma_swar_byte_bv(x, i);
    reveal_with_fuel(field_ones, 9);
}

proof fn lemma_byte_sum_bv(c: u64)
    by (bit_vector)
    requires
        (c >> 0u64) & 0xFFu64 <= 8,
        (c >> 8u64) & 0xFFu64 <= 8,
        (c >> 16u64) & 0xFFu64 <= 8,
        (c >> 24u64) & 0xFFu64 <= 8,
        (c >> 32u64) & 0xFFu64 <= 8,
        (c >> 40u64) & 0xFFu64 <= 8,
        (c >> 48u64) & 0xFFu64 <= 8,
        (c >> 56u64) & 0xFFu64 <= 8,
    ensures
        ((c * 0x0101010101010101u64) as u64) >> 56u64 == ((c >> 0u64) & 0xFFu64) + ((c >> 8u64) & 0xFFu64) + ((c >> 16u64) & 0xFFu64) + ((c >> 24u64) & 0xFFu64) + ((c >> 32u64) & 0xFFu64) + ((c >> 40u64) & 0xFFu64) + ((c >> 48u64) & 0xFFu64) + ((c >> 56u64) & 0xFFu64),
        (((c * 0x0101010101010101u64) as u64) >> 56u64) as u32 == ((c * 0x0101010101010101u64) as u64) >> 56u64,
{
}

proof fn lemma_fields16_bv(c: u64, i: u64)
    by (bit_vector)
    requires
        i < 4,
        (c >> 0u64) & 0xFFu64 <= 8,
        (c >> 8u64) & 0xFFu64 <= 8,
        (c >> 16u64) & 0xFFu64 <= 8,
        (c >> 24u64) & 0xFFu64 <= 8,
        (c >> 32u64) & 0xFFu64 <= 8,
        (c >> 40u64) & 0xFFu64 <= 8,
        (c >> 48u64) & 0xFFu64 <= 8,
        (c >> 56u64) & 0xFFu64 <= 8,
    ensures
        (((c + (c >> 8u64)) as u64 & 0x00FF00FF00FF00FFu64) >> (16 * i) as u64) & 0xFFFFu64
            == ((c >> (16 * i) as u64) & 0xFFu64) + ((c >> (16 * i + 8) as u64) & 0xFFu64),
{
}

proof fn lemma_fields32_bv(d: u64, i: u64)
    by (bit_vector)
    requires
        i < 2,
        (d >> 0u64) & 0xFFFFu64 <= 16,
        (d >> 16u64) & 0xFFFFu64 <= 16,
        (d >> 32u64) & 0xFFFFu64 <= 16,
        (d >> 48u64) & 0xFFFFu64 <= 16,
    ensures
        (((d + (d >> 16u64)) as u64 & 0x0000FFFF0000FFFFu64) >> (32 * i) as u64) & 0xFFFF_FFFFu64
            == ((d >> (32 * i) as u64) & 0xFFFFu64) + ((d >> (32 * i + 16) as u64) & 0xFFFFu64),
{
}

/// The SWAR reduction to one total.
pub proof fn lemma_swar_total(x: u64)
    ensures
        (((swar_byte_counts(x) * 0x0101010101010101u64) as u64) >> 56u64) as u32 == popcount_spec(x),
        popcount_spec(x) <= 64,
{
    let c = swar_byte_counts(x);
    lemma_swar_byte(x, 0);
    lemma_swar_byte(x, 1);
    lemma_swar_byte(x, 2);
    lemma_swar_byte(x, 3);
    lemma_swar_byte(x, 4);
    lemma_swar_byte(x, 5);
    lemma_swar_byte(x, 6);
    lemma_swar_byte(x, 7);
    lemma_byte_sum_bv(c);
    lemma_field_ones_split(x, 0, 8, 8);
    lemma_field_ones_split(x, 0, 16, 8);
    lemma_field_ones_split(x, 0, 24, 8);
    lemma_field_ones_split(x, 0, 32, 8);
    lemma_field_ones_split(x, 0, 40, 8);
    lemma_field_ones_split(x, 0, 48, 8);
    lemma_field_ones_split(x, 0, 56, 8);
}

/// The 16-bit fields after one more SWAR step hold the counts of those fields.
pub proof fn lemma_swar_fields16(x: u64, i: u64)
    requires
        i < 4,
    ensures
        (swar_half_counts(x) >> (16 * i) as u64) & 0xFFFFu64 == field_ones(x, 16 * i, 16),
        field_ones(x, 16 * i, 16) <= 16,
{
    let c = swar_byte_counts(x);
    lemma_swar_byte(x, 0);
    lemma_swar_byte(x, 1);
    lemma_swar_byte(x, 2);
    lemma_swar_byte(x, 3);
    lemma_swar_byte(x, 4);
    lemma_swar_byte(x, 5);
    lemma_swar_byte(x, 6);
    lemma_swar_byte(x, 7);
    lemma_swar_byte(x, (2 * i) as u64);
    lemma_swar_byte(x, (2 * i + 1) as u64);
    lemma_fields16_bv(c, i);
    lemma_field_ones_split(x, 16 * i, 8, 8);
}

/// The 32-bit fields after two more SWAR steps hold the counts of those fields.
pub proof fn lemma_swar_fields32(x: u64, i: u64)
    requires
        i < 2,
    ensures
        (swar_word_counts(x) >> (32 * i) as u64) & 0xFFFF_FFFFu64 == field_ones(x, 32 * i, 32),
{
    let c = swar_byte_counts(x);
    let d = (c + (c >> 8u64)) as u64 & 0x00FF00FF00FF00FFu64;
    lemma_swar_fields16(x, 0);
    lemma_swar_fields16(x, 1);
    lemma_swar_fields16(x, 2);
    lemma_swar_fields16(x, 3);
    lemma_swar_fields16(x, (2 * i) as u64);
    lemma_swar_fields16(x, (2 * i + 1) as u64);
    lemma_fields32_bv(d, i);
    lemma_field_ones_split(x, 32 * i, 16, 16);
}

/// None of the SWAR reduction steps overflows.
pub proof fn lemma_swar_steps_in_range(x: u64)
    by (bit_vector)
    ensures
        (x >> 1u64) & 0x5555555555555555u64 <= x,
        ({
            let a = (x - ((x >> 1u64) & 0x5555555555555555u64)) as u64;
            &&& (a & 0x3333333333333333u64) + ((a >> 2u64) & 0x3333333333333333u64) <= 0xFFFF_FFFF_FFFF_FFFFu64
            &&& ({
                let b = ((a & 0x3333333333333333u64) + ((a >> 2u64) & 0x3333333333333333u64)) as u64;
                &&& b + (b >> 4u64) <= 0xFFFF_FFFF_FFFF_FFFFu64
                &&& ({
                    let c = ((b + (b >> 4u64)) as u64) & 0x0F0F0F0F0F0F0F0Fu64;
                    &&& c + (c >> 8u64) <= 0xFFFF_FFFF_FFFF_FFFFu64
                    &&& ({
                        let d = (c + (c >> 8u64)) as u64 & 0x00FF00FF00FF00FFu64;
                        d + (d >> 16u64) <= 0xFFFF_FFFF_FFFF_FFFFu64
                    })
                })
            })
        }),
{
}

} // verus!
