//! Pure SWAR bitboard kernels: rays traced one square at a time.

use vstd::prelude::*;
use crate::bitboard::geometry::{
    Direction, shift_one, shifted_ray, ray_attacks, lemma_ray_attacks_shifted, north_one, south_one,
    east_one, west_one, north_east_one, north_west_one, south_east_one, south_west_one,
};
use crate::bitboard::kernel::BitBoardKernel;
use crate::bitboard::bit_counts::{
    field_ones, popcount_spec, swar_byte_counts, swar_half_counts, swar_word_counts, lemma_swar_total, lemma_swar_byte, lemma_swar_fields16,
    lemma_swar_fields32, lemma_swar_steps_in_range,
};
use crate::bitboard::scatter::{
    extract_from, deposit_from, pext_spec, pdep_spec, lemma_extract_skip, lemma_extract_agree,
    lemma_deposit_skip, lemma_deposit_agree, lemma_empty_mask, lemma_lowest_step, lemma_or_above,
    lemma_pdep_inside_mask,
};
use vstd::arithmetic::power2::{pow2, lemma_pow2_unfold, lemma_pow2_pos, lemma_pow2_strictly_increases};
use crate::bits::{low_mask, lemma_lowest_bit, lemma_zero_lowest, lemma_wrapping_as_truncation};
use vstd::std_specs::bits::{
    u64_trailing_zeros, u64_leading_zeros, axiom_u64_trailing_zeros, axiom_u64_leading_zeros,
};

verus! {

/// Marker for the pure SWAR ray-tracing backend.
#[derive(Debug, Clone, Copy, PartialEq, Eq, Hash)]
pub struct Swar;

/// Every square except those on file A.
pub const NOT_FILE_A: u64 = 0xFEFEFEFEFEFEFEFEu64;
/// Every square except those on file H.
pub const NOT_FILE_H: u64 = 0x7F7F7F7F7F7F7F7Fu64;

fn shift_n(v: u64) -> (r: u64)
    ensures r == north_one(v),
{
    v << 8u64
}

fn shift_s(v: u64) -> (r: u64)
    ensures r == south_one(v),
{
    v >> 8u64
}

fn shift_e(v: u64) -> (r: u64)
    ensures r == east_one(v),
{
    (v << 1u64) & NOT_FILE_A
}

fn shift_w(v: u64) -> (r: u64)
    ensures r == west_one(v),
{
    (v >> 1u64) & NOT_FILE_H
}

fn shift_ne(v: u64) -> (r: u64)
    ensures r == north_east_one(v),
{
    (v << 9u64) & NOT_FILE_A
}

fn shift_nw(v: u64) -> (r: u64)
    ensures r == north_west_one(v),
{
    (v << 7u64) & NOT_FILE_H
}

fn shift_se(v: u64) -> (r: u64)
    ensures r == south_east_one(v),
{
    (v >> 7u64) & NOT_FILE_A
}

fn shift_sw(v: u64) -> (r: u64)
    ensures r == south_west_one(v),
{
    (v >> 9u64) & NOT_FILE_H
}

/// OR of `steps[lo..hi)`.
pub open spec fn or_range(steps: Seq<u64>, lo: int, hi: int) -> u64
    decreases hi - lo,
{
    if lo >= hi {
        0
    } else {
        steps[lo] | or_range(steps, lo + 1, hi)
    }
}

/// `steps` records a ray traced from `slider`, where `step(x, y)` says that
/// one step from `x` may give `y`, and `r` is its result: `steps[0]` is the
/// slider, each later entry is one step on from the one before, every step
/// before the last met no occupied square, tracing stopped either after seven
/// steps or at the first occupied one, and `r` is the union of the steps.
pub open spec fn is_ray_trace(
    step: spec_fn(u64, u64) -> bool,
    slider: u64,
    occupancy: u64,
    steps: Seq<u64>,
    r: u64,
) -> bool {
    let t = steps.len() - 1;
    &&& 1 <= t <= 7
    &&& steps[0] == slider
    &&& forall|i: int| 0 <= i < t ==> #[trigger] step(steps[i], steps[i + 1])
    &&& forall|i: int| 1 <= i < t ==> #[trigger] steps[i] & occupancy == 0
    &&& t < 7 ==> steps[t] & occupancy != 0
    &&& r == or_range(steps, 1, t + 1)
}

proof fn lemma_or_range_snoc(steps: Seq<u64>, lo: int, hi: int)
    requires
        0 <= lo <= hi < steps.len(),
    ensures
        or_range(steps, lo, hi + 1) == or_range(steps, lo, hi) | steps[hi],
    decreases hi - lo,
{
    if lo < hi {
        lemma_or_range_snoc(steps, lo + 1, hi);
        let a = steps[lo];
        let b = or_range(steps, lo + 1, hi);
        let c = steps[hi];
        crate::bits::lemma_or_assoc_comm(a, b, c);
    } else {
        let c = steps[hi];
        assert(or_range(steps, lo + 1, hi + 1) == 0);
        crate::bits::lemma_or_identity(c);
    }
}

proof fn lemma_or_range_push(steps: Seq<u64>, x: u64, lo: int, hi: int)
    requires
        0 <= lo,
        hi <= steps.len(),
    ensures
        or_range(steps.push(x), lo, hi) == or_range(steps, lo, hi),
    decreases hi - lo,
{
    if lo < hi {
        lemma_or_range_push(steps, x, lo + 1, hi);
    }
}

/// A ray trace whose step is the whole-board shift in direction `d` gives the
/// shifted ray in that direction.
pub proof fn lemma_ray_trace_is_shifted(
    step: spec_fn(u64, u64) -> bool,
    d: Direction,
    slider: u64,
    occ: u64,
    steps: Seq<u64>,
    r: u64,
)
    requires
        forall|x: u64, y: u64| #[trigger] step(x, y) ==> y == shift_one(d, x),
        is_ray_trace(step, slider, occ, steps, r),
    ensures
        r == shifted_ray(d, slider, occ, 7),
{
    lemma_ray_trace_suffix(step, d, occ, steps, 0);
}

proof fn lemma_ray_trace_suffix(
    step: spec_fn(u64, u64) -> bool,
    d: Direction,
    occ: u64,
    steps: Seq<u64>,
    j: int,
)
    requires
        forall|x: u64, y: u64| #[trigger] step(x, y) ==> y == shift_one(d, x),
        is_ray_trace(step, steps[0], occ, steps, or_range(steps, 1, steps.len() as int)),
        0 <= j < steps.len() - 1,
    ensures
        or_range(steps, j + 1, steps.len() as int) == shifted_ray(d, steps[j], occ, (7 - j) as nat),
    decreases steps.len() - j,
{
    let t = steps.len() - 1;
    assert(step(steps[j], steps[j + 1]));
    let next = steps[j + 1];
    assert(next == shift_one(d, steps[j]));
    if j + 1 == t {
        assert(or_range(steps, j + 2, t + 1) == 0);
        crate::bits::lemma_or_identity(next);
        if t == 7 {
            assert(shifted_ray(d, next, occ, 0) == 0);
        }
    } else {
        assert(steps[j + 1] & occ == 0);
        lemma_ray_trace_suffix(step, d, occ, steps, j + 1);
    }
}

/// The step relation of a shift closure: one step from `x` may give `y`.
pub open spec fn step_relation<F: Fn(u64) -> u64>(shift_fn: F) -> spec_fn(u64, u64) -> bool {
    |x: u64, y: u64| shift_fn.ensures((x,), y)
}

/// Generates the sliding attacks from `slider` in one direction: applies
/// `shift_fn` up to seven times, collecting each step, and stops after the
/// first step that meets an occupied square.
pub fn attack_ray<F>(slider: u64, occupancy: u64, shift_fn: F) -> (r: u64)
    where
        F: Fn(u64) -> u64,
    requires
        forall|x: u64| shift_fn.requires((x,)),
    ensures
        exists|steps: Seq<u64>|
            #[trigger] is_ray_trace(step_relation(shift_fn), slider, occupancy, steps, r),
{
    let ghost step = step_relation(shift_fn);
    let ghost mut steps: Seq<u64> = seq![slider];
    let mut attacks: u64 = 0;
    let mut cur: u64 = slider;
    let mut i: u64 = 0;
    while i < 7
        invariant
            i <= 7,
            forall|x: u64| shift_fn.requires((x,)),
            step == step_relation(shift_fn),
            steps.len() == i + 1,
            steps[0] == slider,
            steps[i as int] == cur,
            forall|j: int| 0 <= j < i ==> #[trigger] step(steps[j], steps[j + 1]),
            forall|j: int| 1 <= j <= i ==> #[trigger] steps[j] & occupancy == 0,
            attacks == or_range(steps, 1, i + 1),
        decreases 7 - i,
    {
        let next = shift_fn(cur);
        proof {
            lemma_or_range_push(steps, next, 1, i + 1);
            steps = steps.push(next);
            lemma_or_range_snoc(steps, 1, i + 1);
        }
        attacks = attacks | next;
        if (next & occupancy) != 0 {
            assert(is_ray_trace(step, slider, occupancy, steps, attacks));
            return attacks;
        }
        cur = next;
        i = i + 1;
    }
    assert(is_ray_trace(step, slider, occupancy, steps, attacks));
    attacks
}

/// The ray traced by `attack_ray` with one of the shift functions above is
/// the geometric ray of the square.
proof fn lemma_swar_ray(step: spec_fn(u64, u64) -> bool, d: Direction, square: u8, occ: u64, r: u64)
    requires
        square < 64,
        forall|x: u64, y: u64| #[trigger] step(x, y) ==> y == shift_one(d, x),
        exists|steps: Seq<u64>| #[trigger] is_ray_trace(step, 1u64 << square, occ, steps, r),
    ensures
        r == ray_attacks(square as int, occ, d),
{
    let steps = choose|steps: Seq<u64>| is_ray_trace(step, 1u64 << square, occ, steps, r);
    lemma_ray_trace_is_shifted(step, d, 1u64 << square, occ, steps, r);
    lemma_ray_attacks_shifted(d, square as int, occ);
}

/// The ray traced by `attack_ray` with a step that is a whole-board shift
/// is the geometric ray.
pub proof fn lemma_swar_ray_pub(step: spec_fn(u64, u64) -> bool, d: Direction, square: u8, occ: u64, r: u64)
    requires
        square < 64,
        forall|x: u64, y: u64| #[trigger] step(x, y) ==> y == shift_one(d, x),
        exists|steps: Seq<u64>| #[trigger] is_ray_trace(step, 1u64 << square, occ, steps, r),
    ensures
        r == ray_attacks(square as int, occ, d),
{
    lemma_swar_ray(step, d, square, occ, r);
}

impl BitBoardKernel for Swar {
    fn rook_attacks(square: u8, occupancy: u64) -> (r: u64) {
        let slider = 1u64 << square;
        let n = attack_ray(slider, occupancy, shift_n);
        let s = attack_ray(slider, occupancy, shift_s);
        let e = attack_ray(slider, occupancy, shift_e);
        let w = attack_ray(slider, occupancy, shift_w);
        proof {
            lemma_swar_ray(step_relation(shift_n), Direction::North, square, occupancy, n);
            lemma_swar_ray(step_relation(shift_s), Direction::South, square, occupancy, s);
            lemma_swar_ray(step_relation(shift_e), Direction::East, square, occupancy, e);
            lemma_swar_ray(step_relation(shift_w), Direction::West, square, occupancy, w);
        }
        n | s | e | w
    }

    fn bishop_attacks(square: u8, occupancy: u64) -> (r: u64) {
        let slider = 1u64 << square;
        let ne = attack_ray(slider, occupancy, shift_ne);
        let nw = attack_ray(slider, occupancy, shift_nw);
        let se = attack_ray(slider, occupancy, shift_se);
        let sw = attack_ray(slider, occupancy, shift_sw);
        proof {
            lemma_swar_ray(step_relation(shift_ne), Direction::NorthEast, square, occupancy, ne);
            lemma_swar_ray(step_relation(shift_nw), Direction::NorthWest, square, occupancy, nw);
            lemma_swar_ray(step_relation(shift_se), Direction::SouthEast, square, occupancy, se);
            lemma_swar_ray(step_relation(shift_sw), Direction::SouthWest, square, occupancy, sw);
        }
        ne | nw | se | sw
    }
}

/// Pure SWAR bit utilities on 64-bit words.
pub struct SwarUtils;

impl SwarUtils {
    /// Counts the set bits of `x` by parallel reduction within the word.
    pub fn popcount(x: u64) -> (r: u32)
        ensures
            r == popcount_spec(x),
    {
        proof {
            lemma_swar_steps_in_range(x);
            lemma_swar_total(x);
        }
        let mut v = x;
        v -= (v >> 1u64) & 0x5555555555555555u64;
        v = (v & 0x3333333333333333u64) + ((v >> 2u64) & 0x3333333333333333u64);
        v = (v + (v >> 4u64)) & 0x0F0F0F0F0F0F0F0Fu64;
        proof {
            lemma_wrapping_as_truncation(v, 0);
        }
        v = v.wrapping_mul(0x0101010101010101u64);
        (v >> 56u64) as u32
    }

    /// Index of the least significant set bit (64 when `v` is zero).
    pub fn bit_scan_forward(x: u64) -> (r: u32)
        ensures
            r == u64_trailing_zeros(x),
            x == 0 ==> r == 64,
            x != 0 ==> r < 64 && (x >> r) & 1u64 == 1u64
                && forall|j: u64| j < r ==> #[trigger] ((x >> j) & 1u64) == 0u64,
    {
        proof {
            axiom_u64_trailing_zeros(x);
        }
        x.trailing_zeros()
    }

    /// Index of the most significant set bit of a nonzero `x`.
    pub fn bit_scan_reverse(x: u64) -> (r: u32)
        requires
            x != 0,
        ensures
            r == 63 - u64_leading_zeros(x),
            r < 64,
            (x >> r) & 1u64 == 1u64,
            forall|j: u64| r < j < 64 ==> #[trigger] ((x >> j) & 1u64) == 0u64,
    {
        proof {
            axiom_u64_leading_zeros(x);
            crate::bits::lemma_bit_facts(x, 0, (63 - u64_leading_zeros(x)) as u64, 0);
        }
        63 - x.leading_zeros()
    }

    /// One Kogge-Stone prefix scan: ORs `x` with `shift_fn(x, 1)`, then the
    /// result with `shift_fn(_, 2)`, then with `shift_fn(_, 4)`.
    pub fn parallel_prefix_shift<F>(x: u64, shift_fn: F) -> (r: u64)
        where
            F: Fn(u64, usize) -> u64,
        requires
            forall|v: u64, s: usize| shift_fn.requires((v, s)),
        ensures
            exists|a: u64, b: u64, c: u64|
                #![trigger shift_fn.ensures((x, 1usize), a), shift_fn.ensures((x | a, 2usize), b),
                    shift_fn.ensures((x | a | b, 4usize), c)]
                shift_fn.ensures((x, 1usize), a) && shift_fn.ensures((x | a, 2usize), b)
                    && shift_fn.ensures((x | a | b, 4usize), c) && r == x | a | b | c,
    {
        let mut v = x;
        let x0 = v;
        let a = shift_fn(v, 1);
        v |= a;
        let b = shift_fn(v, 2);
        v |= b;
        let c = shift_fn(v, 4);
        v |= c;
        assert(shift_fn.ensures((x0, 1usize), a) && shift_fn.ensures((x0 | a, 2usize), b)
            && shift_fn.ensures((x0 | a | b, 4usize), c) && v == x0 | a | b | c);
        v
    }

    /// Keeps only the least significant set bit.
    pub fn isolate_lsb(x: u64) -> (r: u64)
        ensures
            x == 0 ==> r == 0,
            x != 0 ==> r == 1u64 << u64_trailing_zeros(x),
    {
        proof {
            Self::lemma_lowest(x);
        }
        x & x.wrapping_neg()
    }

    /// Clears the least significant set bit.
    pub fn clear_lsb(x: u64) -> (r: u64)
        ensures
            x == 0 ==> r == 0,
            x != 0 ==> r == x ^ (1u64 << u64_trailing_zeros(x)),
    {
        proof {
            Self::lemma_lowest(x);
        }
        x & (x.wrapping_sub(1))
    }

    /// Keeps only the most significant set bit.
    pub fn isolate_msb(x: u64) -> (r: u64)
        ensures
            x == 0 ==> r == 0,
            x != 0 ==> r == 1u64 << (63 - u64_leading_zeros(x)) as u64,
    {
        if x == 0 {
            0
        } else {
            proof {
                axiom_u64_leading_zeros(x);
            }
            1u64 << (63 - x.leading_zeros())
        }
    }

    /// Per byte of `x`, the number of its set bits.
    pub fn popcount_8(x: u64) -> (r: u64)
        ensures
            forall|i: u64| i < 8 ==> #[trigger] ((r >> (8 * i) as u64) & 0xFFu64) == field_ones(x, 8 * i, 8),
    {
        proof {
            lemma_swar_steps_in_range(x);
            assert forall|i: u64| i < 8 implies #[trigger] ((swar_byte_counts(x) >> (8 * i) as u64) & 0xFFu64)
                == field_ones(x, 8 * i, 8) by {
                lemma_swar_byte(x, i);
            }
        }
        let mut v = x;
        v = v - ((v >> 1u64) & 0x5555555555555555u64);
        v = (v & 0x3333333333333333u64) + ((v >> 2u64) & 0x3333333333333333u64);
        let r = (v + (v >> 4u64)) & 0x0F0F0F0F0F0F0F0Fu64;
        assert(r == swar_byte_counts(x));
        r
    }

    /// Per 16-bit field of `v`, the number of its set bits.
    pub fn popcount_16(x: u64) -> (r: u64)
        ensures
            forall|i: u64| i < 4 ==> #[trigger] ((r >> (16 * i) as u64) & 0xFFFFu64) == field_ones(x, 16 * i, 16),
    {
        proof {
            lemma_swar_steps_in_range(x);
            assert forall|i: u64| i < 4 implies #[trigger] ((swar_half_counts(x) >> (16 * i) as u64) & 0xFFFFu64)
                == field_ones(x, 16 * i, 16) by {
                lemma_swar_fields16(x, i);
            }
        }
        let mut v = x;
        v = v - ((v >> 1u64) & 0x5555555555555555u64);
        v = (v & 0x3333333333333333u64) + ((v >> 2u64) & 0x3333333333333333u64);
        v = (v + (v >> 4u64)) & 0x0F0F0F0F0F0F0F0Fu64;
        let r = (v + (v >> 8u64)) & 0x00FF00FF00FF00FFu64;
        assert(r == swar_half_counts(x));
        r
    }

    /// Per 32-bit field of `v`, the number of its set bits.
    pub fn popcount_32(x: u64) -> (r: u64)
        ensures
            forall|i: u64| i < 2 ==> #[trigger] ((r >> (32 * i) as u64) & 0xFFFF_FFFFu64) == field_ones(x, 32 * i, 32),
    {
        proof {
            lemma_swar_steps_in_range(x);
            assert forall|i: u64| i < 2 implies #[trigger] ((swar_word_counts(x) >> (32 * i) as u64) & 0xFFFF_FFFFu64)
                == field_ones(x, 32 * i, 32) by {
                lemma_swar_fields32(x, i);
            }
        }
        let mut v = x;
        v = v - ((v >> 1u64) & 0x5555555555555555u64);
        v = (v & 0x3333333333333333u64) + ((v >> 2u64) & 0x3333333333333333u64);
        v = (v + (v >> 4u64)) & 0x0F0F0F0F0F0F0F0Fu64;
        v = (v + (v >> 8u64)) & 0x00FF00FF00FF00FFu64;
        let r = (v + (v >> 16u64)) & 0x0000FFFF0000FFFFu64;
        assert(r == swar_word_counts(x));
        r
    }

    /// The mask of every bit up to and including the lowest set bit (all
    /// ones for zero).
    pub fn blsmsk(x: u64) -> (r: u64)
        ensures
            x == 0 ==> r == 0xFFFF_FFFF_FFFF_FFFFu64,
            x != 0 ==> r == low_mask((u64_trailing_zeros(x) + 1) as u64),
    {
        proof {
            Self::lemma_lowest(x);
        }
        x ^ (x.wrapping_sub(1))
    }

    /// Gathers the bits of `val` at the positions `mask` selects and packs
    /// them contiguously from bit 0, lowest position first.
    pub fn pext(val: u64, mask: u64) -> (r: u64)
        ensures
            r as nat == pext_spec(val, mask),
    {
        let mut mask = mask;
        let ghost mask0 = mask;
        let mut res: u64 = 0;
        let mut shift: u32 = 0;
        let ghost mut pos: nat = 0;
        proof {
            lemma_pow2_pos(0);
            vstd::arithmetic::power2::lemma2_to64();
            assert(mask & low_mask(0) == 0) by {
                crate::bits::lemma_low_mask_step(mask, 0);
            }
        }
        while mask != 0
            invariant
                shift <= pos <= 64,
                mask & low_mask(pos as u64) == 0,
                pext_spec(val, mask0) == res + pow2(shift as nat) * extract_from(val, mask, pos),
                res < pow2(shift as nat),
                forall|k: u64| pos <= k < 64 ==> #[trigger] ((mask >> k) & 1u64) == ((mask0 >> k) & 1u64),
            decreases 64 - pos,
        {
            let ghost m = mask;
            let ghost old_pos = pos;
            let ghost t = u64_trailing_zeros(m) as u64;
            proof {
                axiom_u64_trailing_zeros(m);
                lemma_wrapping_as_truncation(0, m);
                lemma_lowest_step(m, t, pos as u64, 0);
            }
            let lsb = mask & mask.wrapping_neg();
            proof {
                lemma_extract_skip(val, m, pos, t as nat);
                assert forall|k: u64| t + 1 <= k < 64 implies #[trigger] (((m ^ (1u64 << t)) >> k) & 1u64)
                    == ((m >> k) & 1u64) by {
                    lemma_lowest_step(m, t, pos as u64, k);
                }
                lemma_extract_agree(val, m ^ (1u64 << t), m, t as nat + 1);
                vstd::bits::lemma_u64_pow2_no_overflow(shift as nat);
                vstd::bits::lemma_u64_shl_is_mul(1, shift as u64);
                lemma_or_above(res, shift as u64, val, t);
                lemma_pow2_unfold(shift as nat + 1);
                let b = ((val >> t) & 1u64) as nat;
                let e = extract_from(val, m ^ (1u64 << t), t as nat + 1);
                let p = pow2(shift as nat);
                assert(res + p * (b + 2 * e) == res + b * p + (2 * p) * e) by (nonlinear_arith);
                assert(b <= 1) by {
                    crate::bits::lemma_or_identity(val);
                    crate::bits::lemma_bit_facts(val, 0, t, 0);
                }
                assert(b * p <= p) by (nonlinear_arith)
                    requires b <= 1;
            }
            if (val & lsb) != 0 {
                res |= 1u64 << shift;
            }
            shift += 1;
            mask ^= lsb;
            proof {
                pos = t as nat + 1;
                assert forall|k: u64| pos <= k < 64 implies #[trigger] ((mask >> k) & 1u64) == ((mask0 >> k) & 1u64) by {
                    lemma_lowest_step(m, t, old_pos as u64, k);
                }
            }
        }
        proof {
            lemma_empty_mask(val, 0, pos);
        }
        res
    }

    /// Deposits the low bits of `val`, lowest first, at the positions `mask`
    /// selects, in increasing order.
    pub fn pdep(val: u64, mask: u64) -> (r: u64)
        ensures
            r as nat == pdep_spec(val, mask),
            r & !mask == 0,
    {
        let mut val = val;
        let mut mask = mask;
        let ghost val0 = val;
        let ghost mask0 = mask;
        let mut res: u64 = 0;
        let ghost mut pos: nat = 0;
        proof {
            lemma_pow2_pos(0);
            vstd::arithmetic::power2::lemma2_to64();
            assert(mask & low_mask(0) == 0) by {
                crate::bits::lemma_low_mask_step(mask, 0);
            }
        }
        while mask != 0
            invariant
                pos <= 64,
                mask & low_mask(pos as u64) == 0,
                pdep_spec(val0, mask0) == res + deposit_from(val as nat, mask, pos),
                res < pow2(pos),
            decreases 64 - pos,
        {
            let ghost m = mask;
            let ghost t = u64_trailing_zeros(m) as u64;
            proof {
                axiom_u64_trailing_zeros(m);
                lemma_wrapping_as_truncation(0, m);
                lemma_lowest_step(m, t, pos as u64, 0);
            }
            let lsb = mask & mask.wrapping_neg();
            proof {
                lemma_deposit_skip(val as nat, m, pos, t as nat);
                assert forall|k: u64| t + 1 <= k < 64 implies #[trigger] (((m ^ (1u64 << t)) >> k) & 1u64)
                    == ((m >> k) & 1u64) by {
                    lemma_lowest_step(m, t, pos as u64, k);
                }
                lemma_deposit_agree(val as nat / 2, m ^ (1u64 << t), m, t as nat + 1);
                vstd::bits::lemma_u64_pow2_no_overflow(t as nat);
                vstd::bits::lemma_u64_shl_is_mul(1, t);
                if pos < t {
                    lemma_pow2_strictly_increases(pos, t as nat);
                }
                lemma_or_above(res, t, val, 0);
                lemma_pow2_unfold(t as nat + 1);
            }
            if (val & 1) != 0 {
                res |= lsb;
            }
            val >>= 1;
            mask ^= lsb;
            proof {
                pos = t as nat + 1;
            }
        }
        proof {
            lemma_empty_mask(0, val as nat, pos);
            lemma_pdep_inside_mask(val0, mask0, res);
        }
        res
    }

    proof fn lemma_lowest(x: u64)
        ensures
            x == 0 ==> x & vstd::wrapping::u64_specs::wrapping_sub(0, x) == 0
                && x & vstd::wrapping::u64_specs::wrapping_sub(x, 1) == 0
                && x ^ vstd::wrapping::u64_specs::wrapping_sub(x, 1) == 0xFFFF_FFFF_FFFF_FFFFu64,
            x != 0 ==> u64_trailing_zeros(x) < 64
                && x & vstd::wrapping::u64_specs::wrapping_sub(0, x) == 1u64 << u64_trailing_zeros(x)
                && x & vstd::wrapping::u64_specs::wrapping_sub(x, 1) == x ^ (1u64 << u64_trailing_zeros(x))
                && x ^ vstd::wrapping::u64_specs::wrapping_sub(x, 1) == low_mask((u64_trailing_zeros(x) + 1) as u64),
    {
        axiom_u64_trailing_zeros(x);
        lemma_wrapping_as_truncation(0, x);
        lemma_wrapping_as_truncation(x, 1);
        if x == 0 {
            lemma_zero_lowest(x);
        } else {
            lemma_lowest_bit(x, u64_trailing_zeros(x) as u64);
        }
    }
}

} // verus!
