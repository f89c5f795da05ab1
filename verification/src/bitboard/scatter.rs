//! Parallel bit extract and deposit: gathering the bits a mask selects, and
//! scattering low bits to the positions a mask selects.

use vstd::prelude::*;
use vstd::arithmetic::power2::{pow2, lemma_pow2_unfold, lemma_pow2_pos, lemma2_to64_rest};
use vstd::arithmetic::div_mod::{lemma_div_denominator, lemma_fundamental_div_mod};
use crate::bitboard::bit_counts::{field_ones, popcount_spec, lemma_field_ones_split};

verus! {

/// Bit `i` of `x`, as 0 or 1.
pub open spec fn bit_value(x: u64, i: int) -> nat {
    ((x >> (i as u64)) & 1u64) as nat
}

/// The bits of `val` at the positions `i..64` that `mask` selects, packed
/// from bit 0 upwards in increasing position order.
pub open spec fn extract_from(val: u64, mask: u64, i: nat) -> nat
    decreases 64 - i,
{
    if i >= 64 {
        0
    } else if (mask >> (i as u64)) & 1u64 == 1u64 {
        bit_value(val, i as int) + 2 * extract_from(val, mask, i + 1)
    } else {
        extract_from(val, mask, i + 1)
    }
}

/// The bits of `val` that `mask` selects, packed from bit 0 upwards.
pub open spec fn pext_spec(val: u64, mask: u64) -> nat {
    extract_from(val, mask, 0)
}

/// The low bits of `val`, from bit 0 upwards, placed in increasing order at
/// the positions `i..64` that `mask` selects.
pub open spec fn deposit_from(val: nat, mask: u64, i: nat) -> nat
    decreases 64 - i,
{
    if i >= 64 {
        0
    } else if (mask >> (i as u64)) & 1u64 == 1u64 {
        (val % 2) * pow2(i) + deposit_from(val / 2, mask, i + 1)
    } else {
        deposit_from(val, mask, i + 1)
    }
}

/// The low bits of `val` scattered to the positions `mask` selects.
pub open spec fn pdep_spec(val: u64, mask: u64) -> nat {
    deposit_from(val as nat, mask, 0)
}

/// Positions that `mask` does not select do not change an extraction.
pub proof fn lemma_extract_skip(val: u64, mask: u64, i: nat, j: nat)
    requires
        i <= j <= 64,
        forall|k: u64| i <= k < j ==> #[trigger] ((mask >> k) & 1u64) == 0u64,
    ensures
        extract_from(val, mask, i) == extract_from(val, mask, j),
    decreases j - i,
{
    if i < j {
        assert(((mask >> (i as u64)) & 1u64) == 0u64);
        lemma_extract_skip(val, mask, i + 1, j);
    }
}

/// An extraction from position `i` reads only the mask bits at `i..64`.
pub proof fn lemma_extract_agree(val: u64, m1: u64, m2: u64, i: nat)
    requires
        forall|k: u64| i <= k < 64 ==> #[trigger] ((m1 >> k) & 1u64) == ((m2 >> k) & 1u64),
    ensures
        extract_from(val, m1, i) == extract_from(val, m2, i),
    decreases 64 - i,
{
    if i < 64 {
        assert(((m1 >> (i as u64)) & 1u64) == ((m2 >> (i as u64)) & 1u64));
        lemma_extract_agree(val, m1, m2, i + 1);
    }
}

/// Positions that `mask` does not select do not change a deposit.
pub proof fn lemma_deposit_skip(val: nat, mask: u64, i: nat, j: nat)
    requires
        i <= j <= 64,
        forall|k: u64| i <= k < j ==> #[trigger] ((mask >> k) & 1u64) == 0u64,
    ensures
        deposit_from(val, mask, i) == deposit_from(val, mask, j),
    decreases j - i,
{
    if i < j {
        assert(((mask >> (i as u64)) & 1u64) == 0u64);
        lemma_deposit_skip(val, mask, i + 1, j);
    }
}

/// A deposit from position `i` reads only the mask bits at `i..64`.
pub proof fn lemma_deposit_agree(val: nat, m1: u64, m2: u64, i: nat)
    requires
        forall|k: u64| i <= k < 64 ==> #[trigger] ((m1 >> k) & 1u64) == ((m2 >> k) & 1u64),
    ensures
        deposit_from(val, m1, i) == deposit_from(val, m2, i),
    decreases 64 - i,
{
    if i < 64 {
        assert(((m1 >> (i as u64)) & 1u64) == ((m2 >> (i as u64)) & 1u64));
        lemma_deposit_agree(val / 2, m1, m2, i + 1);
        lemma_deposit_agree(val, m1, m2, i + 1);
    }
}


/// Nothing is extracted or deposited through an empty mask.
pub proof fn lemma_empty_mask(val: u64, dval: nat, i: nat)
    ensures
        extract_from(val, 0, i) == 0,
        deposit_from(dval, 0, i) == 0,
    decreases 64 - i,
{
    if i < 64 {
        crate::bits::lemma_bit_facts(0, 0, i as u64, 0);
        lemma_empty_mask(val, dval, i + 1);
        lemma_empty_mask(val, dval / 2, i + 1);
    }
}

/// Facts about the lowest set bit `t` of a nonzero word `m` whose bits below
/// `pos` are clear.
pub proof fn lemma_lowest_step(m: u64, t: u64, pos: u64, k: u64)
    by (bit_vector)
    requires
        t < 64,
        pos <= 64,
        (m >> t) & 1u64 == 1u64,
        m << (64 - t) as u64 == 0,
        m & crate::bits::low_mask(pos) == 0,
    ensures
        t >= pos,
        m & ((0 - m) as u64) == 1u64 << t,
        (m ^ (1u64 << t)) & crate::bits::low_mask((t + 1) as u64) == 0,
        t < k < 64 ==> ((m ^ (1u64 << t)) >> k) & 1u64 == (m >> k) & 1u64,
{
}

/// Setting a bit above every set bit of `res` adds its value.
pub proof fn lemma_or_above(res: u64, s: u64, val: u64, t: u64)
    by (bit_vector)
    requires
        s < 64,
        t < 64,
        res < (1u64 << s),
    ensures
        res | (1u64 << s) == res + (1u64 << s),
        (val & (1u64 << t) != 0) <==> ((val >> t) & 1u64 == 1u64),
        (val & 1u64 != 0) <==> (val % 2 == 1),
        val >> 1u64 == val / 2,
{
}

/// The number of bits of `mask` set at positions `i..64`.
pub open spec fn ones_from(mask: u64, i: nat) -> nat
    decreases 64 - i,
{
    if i >= 64 {
        0
    } else {
        bit_value(mask, i as int) + ones_from(mask, i + 1)
    }
}

/// The value of the bits of `x` at positions `i..64`.
pub open spec fn value_from(x: u64, i: nat) -> nat
    decreases 64 - i,
{
    if i >= 64 {
        0
    } else {
        bit_value(x, i as int) * pow2(i) + value_from(x, i + 1)
    }
}


/// The bits of `x` at positions `i..64` are `x` with its low `i` bits cleared.
pub proof fn lemma_value_from(x: u64, i: nat)
    requires
        i <= 64,
    ensures
        value_from(x, i) == (x as nat / pow2(i)) * pow2(i),
    decreases 64 - i,
{
    lemma_pow2_pos(i);
    if i == 64 {
        lemma2_to64_rest();
        assert(x as nat / pow2(i) == 0) by {
            vstd::arithmetic::div_mod::lemma_basic_div(x as int, pow2(64) as int);
        }
    } else {
        lemma_value_from(x, i + 1);
        lemma_pow2_unfold(i + 1);
        vstd::bits::lemma_u64_shr_is_div(x, i as u64);
        crate::bits::lemma_bit_facts(x >> (i as u64), 0, 0, 0);
        let p = pow2(i) as int;
        let q = x as int / p;
        lemma_div_denominator(x as int, p, 2);
        lemma_fundamental_div_mod(q, 2);
        let b = bit_value(x, i as int) as int;
        assert(b == q % 2);
        assert(q * p == (q / 2) * (p * 2) + b * p) by (nonlinear_arith)
            requires
                q == 2 * (q / 2) + q % 2,
                b == q % 2;
    }
}

/// A word is the value of all its bits.
pub proof fn lemma_value_from_zero(x: u64)
    ensures
        value_from(x, 0) == x as nat,
{
    lemma_value_from(x, 0);
    vstd::arithmetic::power2::lemma2_to64();
}

/// An extraction from position `i` fits in as many bits as the mask has there.
pub proof fn lemma_extract_bound(val: u64, mask: u64, i: nat)
    requires
        i <= 64,
    ensures
        extract_from(val, mask, i) < pow2(ones_from(mask, i)),
    decreases 64 - i,
{
    if i == 64 {
        lemma_pow2_pos(0);
        vstd::arithmetic::power2::lemma2_to64();
    } else {
        lemma_extract_bound(val, mask, i + 1);
        crate::bits::lemma_bit_facts(val, 0, i as u64, 0);
        crate::bits::lemma_bit_facts(mask, 0, i as u64, 0);
        let e = extract_from(val, mask, i + 1);
        let n = ones_from(mask, i + 1);
        if (mask >> (i as u64)) & 1u64 == 1u64 {
            lemma_pow2_unfold(n + 1);
            let b = bit_value(val, i as int);
            assert(b + 2 * e < 2 * pow2(n)) by (nonlinear_arith)
                requires
                    b <= 1,
                    e < pow2(n);
        }
    }
}



/// Depositing what was extracted through the same mask gives back the
/// masked bits.
pub proof fn lemma_deposit_extract(val: u64, mask: u64, i: nat)
    requires
        i <= 64,
    ensures
        deposit_from(extract_from(val, mask, i), mask, i) == value_from(val & mask, i),
    decreases 64 - i,
{
    if i < 64 {
        lemma_deposit_extract(val, mask, i + 1);
        crate::bits::lemma_bit_facts(val, mask, i as u64, 0);
        crate::bits::lemma_bit_facts(val, 0, i as u64, 0);
        let e = extract_from(val, mask, i + 1);
        if (mask >> (i as u64)) & 1u64 == 1u64 {
            let b = bit_value(val, i as int);
            assert(bit_value(val & mask, i as int) == b);
            assert((b + 2 * e) % 2 == b && (b + 2 * e) / 2 == e) by (nonlinear_arith)
                requires
                    b <= 1;
            assert(extract_from(val, mask, i) == b + 2 * e);
        } else {
            assert(bit_value(val & mask, i as int) == 0);
            assert(extract_from(val, mask, i) == e);
            assert(value_from(val & mask, i) == value_from(val & mask, i + 1));
        }
    }
}

/// The law of extract then deposit: `pdep(pext(v, m), m) == v & m`.
pub proof fn lemma_pdep_pext(val: u64, mask: u64)
    ensures
        deposit_from(pext_spec(val, mask), mask, 0) == (val & mask) as nat,
{
    lemma_deposit_extract(val, mask, 0);
    lemma_value_from_zero(val & mask);
}

proof fn lemma_ones_from_field(mask: u64, i: nat)
    requires
        i <= 64,
    ensures
        ones_from(mask, i) == field_ones(mask, i as int, (64 - i) as nat),
    decreases 64 - i,
{
    if i < 64 {
        lemma_ones_from_field(mask, i + 1);
        lemma_field_ones_split(mask, i as int, 1, (63 - i) as nat);
        assert(field_ones(mask, i as int, 1) == field_ones(mask, i as int, 0) + bit_value(mask, i as int));
    }
}

/// The mask bits counted from position 0 are its population count.
pub proof fn lemma_ones_from_popcount(mask: u64)
    ensures
        ones_from(mask, 0) == popcount_spec(mask),
{
    lemma_ones_from_field(mask, 0);
}

/// A deposit from position `i` is a multiple of `2^i`.
proof fn lemma_deposit_multiple(val: nat, mask: u64, i: nat)
    requires
        i <= 64,
    ensures
        deposit_from(val, mask, i) == (deposit_from(val, mask, i) / pow2(i)) * pow2(i),
    decreases 64 - i,
{
    lemma_pow2_pos(i);
    if i == 64 {
        assert(deposit_from(val, mask, i) == 0);
        assert(0nat / pow2(i) == 0) by (nonlinear_arith)
            requires pow2(i) > 0;
    } else {
        lemma_deposit_multiple(val / 2, mask, i + 1);
        lemma_deposit_multiple(val, mask, i + 1);
        lemma_pow2_unfold(i + 1);
        let p = pow2(i) as int;
        let rest_set = deposit_from(val / 2, mask, i + 1) as int;
        let rest_clear = deposit_from(val, mask, i + 1) as int;
        let q_set = rest_set / (2 * p);
        let q_clear = rest_clear / (2 * p);
        let d = deposit_from(val, mask, i) as int;
        if (mask >> (i as u64)) & 1u64 == 1u64 {
            let b = (val % 2) as int;
            assert(d == b * p + q_set * (2 * p));
            assert(d == (b + 2 * q_set) * p) by (nonlinear_arith)
                requires d == b * p + q_set * (2 * p);
            vstd::arithmetic::div_mod::lemma_div_multiples_vanish(b + 2 * q_set, p);
            assert(d / p == b + 2 * q_set) by (nonlinear_arith)
                requires d == (b + 2 * q_set) * p, (p * (b + 2 * q_set)) / p == b + 2 * q_set;
        } else {
            assert(d == (2 * q_clear) * p) by (nonlinear_arith)
                requires d == q_clear * (2 * p);
            vstd::arithmetic::div_mod::lemma_div_multiples_vanish(2 * q_clear, p);
            assert(d / p == 2 * q_clear) by (nonlinear_arith)
                requires d == (2 * q_clear) * p, (p * (2 * q_clear)) / p == 2 * q_clear;
        }
        assert(deposit_from(val, mask, i) / pow2(i) == d / p);
    }
}

/// Two sums of a bit at `2^i` and a multiple of `2^(i+1)` agree term by
/// term.
proof fn lemma_split_at_bit(a: int, x: int, b: int, y: int, p: int)
    by (nonlinear_arith)
    requires
        p > 0,
        0 <= a <= 1,
        0 <= b <= 1,
        a * p + x * (2 * p) == b * p + y * (2 * p),
    ensures
        a == b,
        x * (2 * p) == y * (2 * p),
{
    assert((a - b) * p == 2 * (y - x) * p);
    assert(a - b == 2 * (y - x));
}

/// Extracting through `mask` from a word whose bits from `i` on are a
/// deposit of `val` gives back the low bits of `val`.
proof fn lemma_extract_deposit(w: u64, val: nat, mask: u64, i: nat)
    requires
        i <= 64,
        value_from(w, i) == deposit_from(val, mask, i),
    ensures
        extract_from(w, mask, i) == val % pow2(ones_from(mask, i)),
    decreases 64 - i,
{
    if i == 64 {
        vstd::arithmetic::power2::lemma2_to64();
    } else {
        lemma_pow2_pos(i);
        lemma_pow2_unfold(i + 1);
        lemma_value_from(w, i + 1);
        crate::bits::lemma_bit_facts(w, 0, i as u64, 0);
        crate::bits::lemma_bit_facts(mask, 0, i as u64, 0);
        let p = pow2(i) as int;
        let vw = value_from(w, i + 1) as int;
        let qw = (w as nat / pow2(i + 1)) as int;
        assert(vw == qw * (2 * p));
        if (mask >> (i as u64)) & 1u64 == 1u64 {
            lemma_deposit_multiple(val / 2, mask, i + 1);
            let dv = deposit_from(val / 2, mask, i + 1) as int;
            let qd = dv / (2 * p);
            lemma_split_at_bit(bit_value(w, i as int) as int, qw, (val % 2) as int, qd, p);
            lemma_extract_deposit(w, val / 2, mask, i + 1);
            let n = ones_from(mask, i + 1);
            lemma_pow2_pos(n);
            lemma_pow2_unfold(n + 1);
            vstd::arithmetic::div_mod::lemma_mod_breakdown(val as int, 2, pow2(n) as int);
        } else {
            lemma_deposit_multiple(val, mask, i + 1);
            let dv = deposit_from(val, mask, i + 1) as int;
            let qd = dv / (2 * p);
            lemma_split_at_bit(bit_value(w, i as int) as int, qw, 0, qd, p);
            lemma_extract_deposit(w, val, mask, i + 1);
        }
    }
}

/// The law of deposit then extract: `pext(pdep(v, m), m)` is `v` reduced
/// to as many low bits as `m` has set.
pub proof fn lemma_pext_pdep(val: u64, mask: u64, deposited: u64)
    requires
        deposited as nat == pdep_spec(val, mask),
    ensures
        pext_spec(deposited, mask) == val as nat % pow2(popcount_spec(mask)),
{
    lemma_value_from_zero(deposited);
    lemma_extract_deposit(deposited, val as nat, mask, 0);
    lemma_ones_from_popcount(mask);
}

/// A word whose bits from `i` on are a deposit through `mask` has no bit at
/// a position from `i` on that `mask` leaves clear.
proof fn lemma_deposit_outside(w: u64, val: nat, mask: u64, i: nat)
    requires
        i <= 64,
        value_from(w, i) == deposit_from(val, mask, i),
    ensures
        forall|k: u64| i <= k < 64 && ((mask >> k) & 1u64) != 1u64 ==> #[trigger] ((w >> k) & 1u64) == 0u64,
    decreases 64 - i,
{
    if i < 64 {
        lemma_pow2_pos(i);
        lemma_pow2_unfold(i + 1);
        lemma_value_from(w, i + 1);
        crate::bits::lemma_bit_facts(w, 0, i as u64, 0);
        crate::bits::lemma_bit_facts(mask, 0, i as u64, 0);
        let p = pow2(i) as int;
        let qw = (w as nat / pow2(i + 1)) as int;
        if (mask >> (i as u64)) & 1u64 == 1u64 {
            lemma_deposit_multiple(val / 2, mask, i + 1);
            let qd = deposit_from(val / 2, mask, i + 1) as int / (2 * p);
            lemma_split_at_bit(bit_value(w, i as int) as int, qw, (val % 2) as int, qd, p);
            lemma_deposit_outside(w, val / 2, mask, i + 1);
        } else {
            lemma_deposit_multiple(val, mask, i + 1);
            let qd = deposit_from(val, mask, i + 1) as int / (2 * p);
            lemma_split_at_bit(bit_value(w, i as int) as int, qw, 0, qd, p);
            lemma_deposit_outside(w, val, mask, i + 1);
        }
    }
}

proof fn lemma_clear_bits_bv(w: u64, mask: u64, k: u64)
    by (bit_vector)
    requires
        k < 64,
        ((mask >> k) & 1u64) != 1u64 ==> ((w >> k) & 1u64) == 0u64,
    ensures
        ((w & !mask) >> k) & 1u64 == 0u64,
{
}

/// A deposit sets no bit outside its mask: `pdep(v, m) & !m == 0`.
pub proof fn lemma_pdep_inside_mask(val: u64, mask: u64, deposited: u64)
    requires
        deposited as nat == pdep_spec(val, mask),
    ensures
        deposited & !mask == 0,
{
    lemma_value_from_zero(deposited);
    lemma_deposit_outside(deposited, val as nat, mask, 0);
    assert forall|k: u64| k < 64 implies #[trigger] (((deposited & !mask) >> k) & 1u64) == ((0u64 >> k) & 1u64) by {
        lemma_clear_bits_bv(deposited, mask, k);
        crate::bits::lemma_bit_facts(0, 0, k, 0);
    }
    crate::bits::lemma_bits_extensional(deposited & !mask, 0);
}

} // verus!
