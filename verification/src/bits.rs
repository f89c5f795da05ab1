//! Small facts about 64-bit words shared by the bitboard proofs.

use vstd::prelude::*;

verus! {

/// Whether bit `i` of `x` is set.
pub open spec fn bit_set(x: u64, i: int) -> bool {
    (x >> (i as u64)) & 1u64 == 1u64
}

/// The word with bits `0..n` set.
pub open spec fn low_mask(n: u64) -> u64 {
    if n >= 64 { 0xFFFF_FFFF_FFFF_FFFFu64 } else { ((1u64 << n) - 1) as u64 }
}

/// Identity, absorption, associativity, commutativity and regrouping of
/// `|` and `&` on words.
pub proof fn lemma_word_laws(a1: u64, a2: u64, a3: u64, a4: u64, b1: u64, b2: u64, b3: u64, b4: u64)
    by (bit_vector)
    ensures
        a1 | 0u64 == a1,
        0u64 | a1 == a1,
        a1 & 0u64 == 0u64,
        0u64 & a1 == 0u64,
        a1 | (a2 | a3) == (a1 | a2) | a3,
        a1 | a2 == a2 | a1,
        a1 & a2 == a2 & a1,
        (a1 | a2 | a3 | a4) | (b1 | b2 | b3 | b4) == (a1 | b1) | (a2 | b2) | (a3 | b3) | (a4 | b4),
        (a1 | a2) | (b1 | b2) == (a1 | b1) | (a2 | b2),
        (a1 | b4) | (a2 | a3) == a1 | a2 | a3 | b4,
        ((a1 | a2) | (b1 | b2)) | ((a3 | a4) | (b3 | b4)) == (a1 | a2 | a3 | a4) | (b1 | b3 | b2 | b4),
{
}

pub proof fn lemma_or_identity(a: u64)
    ensures
        a | 0u64 == a,
        0u64 | a == a,
        a & 0u64 == 0u64,
        0u64 & a == 0u64,
{
    lemma_word_laws(a, 0, 0, 0, 0, 0, 0, 0);
}

pub proof fn lemma_or_assoc_comm(a: u64, b: u64, c: u64)
    ensures
        a | (b | c) == (a | b) | c,
        a | b == b | a,
        a & b == b & a,
{
    lemma_word_laws(a, b, c, 0, 0, 0, 0, 0);
}

/// Regrouping a union of four pairs.
pub proof fn lemma_or_regroup4(a1: u64, a2: u64, a3: u64, a4: u64, b1: u64, b2: u64, b3: u64, b4: u64)
    ensures
        (a1 | a2 | a3 | a4) | (b1 | b2 | b3 | b4) == (a1 | b1) | (a2 | b2) | (a3 | b3) | (a4 | b4),
        (a1 | a2) | (b1 | b2) == (a1 | b1) | (a2 | b2),
        ((a1 | a2) | (b1 | b2)) | ((a3 | a4) | (b3 | b4)) == (a1 | a2 | a3 | a4) | (b1 | b3 | b2 | b4),
{
    lemma_word_laws(a1, a2, a3, a4, b1, b2, b3, b4);
}

/// Facts about single bits.
pub proof fn lemma_bit_facts(x: u64, y: u64, i: u64, j: u64)
    by (bit_vector)
    ensures
        (x >> i) & 1u64 <= 1,
        (x >> i) & 1u64 == 0u64 || (x >> i) & 1u64 == 1u64,
        (x >> i) & 1u64 != 0u64 ==> (x >> i) & 1u64 == 1u64,
        x & 1u64 == x % 2,
        (0u64 >> i) & 1u64 == 0u64,
        i < 64 && j < 64 ==> ((((1u64 << i) >> j) & 1u64 == 1u64) <==> j == i),
        (y >> i) & 1u64 == 1u64 ==> ((x & y) >> i) & 1u64 == (x >> i) & 1u64,
        (y >> i) & 1u64 != 1u64 ==> ((x & y) >> i) & 1u64 == 0u64,
{
}

/// The one-bit word `1 << k` holds bit `j` exactly when `j == k`.
pub proof fn lemma_single_bit(k: u64, j: u64)
    requires
        k < 64,
        j < 64,
    ensures
        ((1u64 << k) >> j) & 1u64 == 1u64 <==> j == k,
{
    lemma_bit_facts(0, 0, k, j);
}

/// Taking the bits of `x` below `n + 1` adds bit `n` to those below `n`.
pub proof fn lemma_low_mask_step(x: u64, n: u64)
    by (bit_vector)
    requires
        n < 64,
    ensures
        x & low_mask((n + 1) as u64) == (x & low_mask(n)) | (x & (1u64 << n)),
        x & (1u64 << n) == if (x >> n) & 1u64 == 1u64 { 1u64 << n } else { 0u64 },
        x & low_mask(0) == 0u64,
        x & low_mask(64) == x,
{
}

/// Two words that agree on every bit are equal.
proof fn lemma_bits_extensional_bv(a: u64, b: u64)
    by (bit_vector)
    requires
        (a >> 0u64) & 1u64 == (b >> 0u64) & 1u64,
        (a >> 1u64) & 1u64 == (b >> 1u64) & 1u64,
        (a >> 2u64) & 1u64 == (b >> 2u64) & 1u64,
        (a >> 3u64) & 1u64 == (b >> 3u64) & 1u64,
        (a >> 4u64) & 1u64 == (b >> 4u64) & 1u64,
        (a >> 5u64) & 1u64 == (b >> 5u64) & 1u64,
        (a >> 6u64) & 1u64 == (b >> 6u64) & 1u64,
        (a >> 7u64) & 1u64 == (b >> 7u64) & 1u64,
        (a >> 8u64) & 1u64 == (b >> 8u64) & 1u64,
        (a >> 9u64) & 1u64 == (b >> 9u64) & 1u64,
        (a >> 10u64) & 1u64 == (b >> 10u64) & 1u64,
        (a >> 11u64) & 1u64 == (b >> 11u64) & 1u64,
        (a >> 12u64) & 1u64 == (b >> 12u64) & 1u64,
        (a >> 13u64) & 1u64 == (b >> 13u64) & 1u64,
        (a >> 14u64) & 1u64 == (b >> 14u64) & 1u64,
        (a >> 15u64) & 1u64 == (b >> 15u64) & 1u64,
        (a >> 16u64) & 1u64 == (b >> 16u64) & 1u64,
        (a >> 17u64) & 1u64 == (b >> 17u64) & 1u64,
        (a >> 18u64) & 1u64 == (b >> 18u64) & 1u64,
        (a >> 19u64) & 1u64 == (b >> 19u64) & 1u64,
        (a >> 20u64) & 1u64 == (b >> 20u64) & 1u64,
        (a >> 21u64) & 1u64 == (b >> 21u64) & 1u64,
        (a >> 22u64) & 1u64 == (b >> 22u64) & 1u64,
        (a >> 23u64) & 1u64 == (b >> 23u64) & 1u64,
        (a >> 24u64) & 1u64 == (b >> 24u64) & 1u64,
        (a >> 25u64) & 1u64 == (b >> 25u64) & 1u64,
        (a >> 26u64) & 1u64 == (b >> 26u64) & 1u64,
        (a >> 27u64) & 1u64 == (b >> 27u64) & 1u64,
        (a >> 28u64) & 1u64 == (b >> 28u64) & 1u64,
        (a >> 29u64) & 1u64 == (b >> 29u64) & 1u64,
        (a >> 30u64) & 1u64 == (b >> 30u64) & 1u64,
        (a >> 31u64) & 1u64 == (b >> 31u64) & 1u64,
        (a >> 32u64) & 1u64 == (b >> 32u64) & 1u64,
        (a >> 33u64) & 1u64 == (b >> 33u64) & 1u64,
        (a >> 34u64) & 1u64 == (b >> 34u64) & 1u64,
        (a >> 35u64) & 1u64 == (b >> 35u64) & 1u64,
        (a >> 36u64) & 1u64 == (b >> 36u64) & 1u64,
        (a >> 37u64) & 1u64 == (b >> 37u64) & 1u64,
        (a >> 38u64) & 1u64 == (b >> 38u64) & 1u64,
        (a >> 39u64) & 1u64 == (b >> 39u64) & 1u64,
        (a >> 40u64) & 1u64 == (b >> 40u64) & 1u64,
        (a >> 41u64) & 1u64 == (b >> 41u64) & 1u64,
        (a >> 42u64) & 1u64 == (b >> 42u64) & 1u64,
        (a >> 43u64) & 1u64 == (b >> 43u64) & 1u64,
        (a >> 44u64) & 1u64 == (b >> 44u64) & 1u64,
        (a >> 45u64) & 1u64 == (b >> 45u64) & 1u64,
        (a >> 46u64) & 1u64 == (b >> 46u64) & 1u64,
        (a >> 47u64) & 1u64 == (b >> 47u64) & 1u64,
        (a >> 48u64) & 1u64 == (b >> 48u64) & 1u64,
        (a >> 49u64) & 1u64 == (b >> 49u64) & 1u64,
        (a >> 50u64) & 1u64 == (b >> 50u64) & 1u64,
        (a >> 51u64) & 1u64 == (b >> 51u64) & 1u64,
        (a >> 52u64) & 1u64 == (b >> 52u64) & 1u64,
        (a >> 53u64) & 1u64 == (b >> 53u64) & 1u64,
        (a >> 54u64) & 1u64 == (b >> 54u64) & 1u64,
        (a >> 55u64) & 1u64 == (b >> 55u64) & 1u64,
        (a >> 56u64) & 1u64 == (b >> 56u64) & 1u64,
        (a >> 57u64) & 1u64 == (b >> 57u64) & 1u64,
        (a >> 58u64) & 1u64 == (b >> 58u64) & 1u64,
        (a >> 59u64) & 1u64 == (b >> 59u64) & 1u64,
        (a >> 60u64) & 1u64 == (b >> 60u64) & 1u64,
        (a >> 61u64) & 1u64 == (b >> 61u64) & 1u64,
        (a >> 62u64) & 1u64 == (b >> 62u64) & 1u64,
        (a >> 63u64) & 1u64 == (b >> 63u64) & 1u64,
    ensures
        a == b,
{
}

/// Two words that agree on every bit are equal.
pub proof fn lemma_bits_extensional(a: u64, b: u64)
    requires
        forall|i: u64| i < 64 ==> #[trigger] ((a >> i) & 1u64) == ((b >> i) & 1u64),
    ensures
        a == b,
{
    assert(((a >> 0u64) & 1u64) == ((b >> 0u64) & 1u64));
    assert(((a >> 1u64) & 1u64) == ((b >> 1u64) & 1u64));
    assert(((a >> 2u64) & 1u64) == ((b >> 2u64) & 1u64));
    assert(((a >> 3u64) & 1u64) == ((b >> 3u64) & 1u64));
    assert(((a >> 4u64) & 1u64) == ((b >> 4u64) & 1u64));
    assert(((a >> 5u64) & 1u64) == ((b >> 5u64) & 1u64));
    assert(((a >> 6u64) & 1u64) == ((b >> 6u64) & 1u64));
    assert(((a >> 7u64) & 1u64) == ((b >> 7u64) & 1u64));
    assert(((a >> 8u64) & 1u64) == ((b >> 8u64) & 1u64));
    assert(((a >> 9u64) & 1u64) == ((b >> 9u64) & 1u64));
    assert(((a >> 10u64) & 1u64) == ((b >> 10u64) & 1u64));
    assert(((a >> 11u64) & 1u64) == ((b >> 11u64) & 1u64));
    assert(((a >> 12u64) & 1u64) == ((b >> 12u64) & 1u64));
    assert(((a >> 13u64) & 1u64) == ((b >> 13u64) & 1u64));
    assert(((a >> 14u64) & 1u64) == ((b >> 14u64) & 1u64));
    assert(((a >> 15u64) & 1u64) == ((b >> 15u64) & 1u64));
    assert(((a >> 16u64) & 1u64) == ((b >> 16u64) & 1u64));
    assert(((a >> 17u64) & 1u64) == ((b >> 17u64) & 1u64));
    assert(((a >> 18u64) & 1u64) == ((b >> 18u64) & 1u64));
    assert(((a >> 19u64) & 1u64) == ((b >> 19u64) & 1u64));
    assert(((a >> 20u64) & 1u64) == ((b >> 20u64) & 1u64));
    assert(((a >> 21u64) & 1u64) == ((b >> 21u64) & 1u64));
    assert(((a >> 22u64) & 1u64) == ((b >> 22u64) & 1u64));
    assert(((a >> 23u64) & 1u64) == ((b >> 23u64) & 1u64));
    assert(((a >> 24u64) & 1u64) == ((b >> 24u64) & 1u64));
    assert(((a >> 25u64) & 1u64) == ((b >> 25u64) & 1u64));
    assert(((a >> 26u64) & 1u64) == ((b >> 26u64) & 1u64));
    assert(((a >> 27u64) & 1u64) == ((b >> 27u64) & 1u64));
    assert(((a >> 28u64) & 1u64) == ((b >> 28u64) & 1u64));
    assert(((a >> 29u64) & 1u64) == ((b >> 29u64) & 1u64));
    assert(((a >> 30u64) & 1u64) == ((b >> 30u64) & 1u64));
    assert(((a >> 31u64) & 1u64) == ((b >> 31u64) & 1u64));
    assert(((a >> 32u64) & 1u64) == ((b >> 32u64) & 1u64));
    assert(((a >> 33u64) & 1u64) == ((b >> 33u64) & 1u64));
    assert(((a >> 34u64) & 1u64) == ((b >> 34u64) & 1u64));
    assert(((a >> 35u64) & 1u64) == ((b >> 35u64) & 1u64));
    assert(((a >> 36u64) & 1u64) == ((b >> 36u64) & 1u64));
    assert(((a >> 37u64) & 1u64) == ((b >> 37u64) & 1u64));
    assert(((a >> 38u64) & 1u64) == ((b >> 38u64) & 1u64));
    assert(((a >> 39u64) & 1u64) == ((b >> 39u64) & 1u64));
    assert(((a >> 40u64) & 1u64) == ((b >> 40u64) & 1u64));
    assert(((a >> 41u64) & 1u64) == ((b >> 41u64) & 1u64));
    assert(((a >> 42u64) & 1u64) == ((b >> 42u64) & 1u64));
    assert(((a >> 43u64) & 1u64) == ((b >> 43u64) & 1u64));
    assert(((a >> 44u64) & 1u64) == ((b >> 44u64) & 1u64));
    assert(((a >> 45u64) & 1u64) == ((b >> 45u64) & 1u64));
    assert(((a >> 46u64) & 1u64) == ((b >> 46u64) & 1u64));
    assert(((a >> 47u64) & 1u64) == ((b >> 47u64) & 1u64));
    assert(((a >> 48u64) & 1u64) == ((b >> 48u64) & 1u64));
    assert(((a >> 49u64) & 1u64) == ((b >> 49u64) & 1u64));
    assert(((a >> 50u64) & 1u64) == ((b >> 50u64) & 1u64));
    assert(((a >> 51u64) & 1u64) == ((b >> 51u64) & 1u64));
    assert(((a >> 52u64) & 1u64) == ((b >> 52u64) & 1u64));
    assert(((a >> 53u64) & 1u64) == ((b >> 53u64) & 1u64));
    assert(((a >> 54u64) & 1u64) == ((b >> 54u64) & 1u64));
    assert(((a >> 55u64) & 1u64) == ((b >> 55u64) & 1u64));
    assert(((a >> 56u64) & 1u64) == ((b >> 56u64) & 1u64));
    assert(((a >> 57u64) & 1u64) == ((b >> 57u64) & 1u64));
    assert(((a >> 58u64) & 1u64) == ((b >> 58u64) & 1u64));
    assert(((a >> 59u64) & 1u64) == ((b >> 59u64) & 1u64));
    assert(((a >> 60u64) & 1u64) == ((b >> 60u64) & 1u64));
    assert(((a >> 61u64) & 1u64) == ((b >> 61u64) & 1u64));
    assert(((a >> 62u64) & 1u64) == ((b >> 62u64) & 1u64));
    assert(((a >> 63u64) & 1u64) == ((b >> 63u64) & 1u64));
    lemma_bits_extensional_bv(a, b);
}

/// Wrapping subtraction and doubling as truncated arithmetic.
pub proof fn lemma_wrapping_as_truncation(a: u64, b: u64)
    by (bit_vector)
    ensures
        vstd::wrapping::u64_specs::wrapping_sub(a, b) == (a - b) as u64,
        vstd::wrapping::u64_specs::wrapping_mul(a, 2) == (a * 2) as u64,
        vstd::wrapping::u64_specs::wrapping_mul(a, 0x0101010101010101u64) == (a * 0x0101010101010101u64) as u64,
{
}

/// Calls `u64::wrapping_neg`, documented as the two's-complement negation
/// `0 - x` wrapping around at the boundary of the type.
pub assume_specification[u64::wrapping_neg](x: u64) -> (r: u64)
    ensures
        r == vstd::wrapping::u64_specs::wrapping_sub(0, x),
;

/// The lowest set bit `t` of a nonzero word, isolated, cleared and as a
/// mask; and the same operations on zero.
pub proof fn lemma_lowest_bit_bv(x: u64, t: u64)
    by (bit_vector)
    ensures
        (t < 64 && (x >> t) & 1u64 == 1u64 && x << (64 - t) as u64 == 0) ==> (
            x & ((0 - x) as u64) == 1u64 << t
            && x & ((x - 1) as u64) == x ^ (1u64 << t)
            && x ^ ((x - 1) as u64) == low_mask((t + 1) as u64)
            && x != 0),
        x == 0 ==> (
            x & ((0 - x) as u64) == 0
            && x & ((x - 1) as u64) == 0
            && x ^ ((x - 1) as u64) == 0xFFFF_FFFF_FFFF_FFFFu64),
{
}

pub proof fn lemma_lowest_bit(x: u64, t: u64)
    requires
        t < 64,
        (x >> t) & 1u64 == 1u64,
        x << (64 - t) as u64 == 0,
    ensures
        x & ((0 - x) as u64) == 1u64 << t,
        x & ((x - 1) as u64) == x ^ (1u64 << t),
        x ^ ((x - 1) as u64) == low_mask((t + 1) as u64),
        x != 0,
{
    lemma_lowest_bit_bv(x, t);
}

pub proof fn lemma_zero_lowest(x: u64)
    requires
        x == 0,
    ensures
        x & ((0 - x) as u64) == 0,
        x & ((x - 1) as u64) == 0,
        x ^ ((x - 1) as u64) == 0xFFFF_FFFF_FFFF_FFFFu64,
{
    lemma_lowest_bit_bv(x, 0);
}

} // verus!
