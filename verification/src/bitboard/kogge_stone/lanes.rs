//! Vector registers held as arrays of 64-bit lanes, the lane-wise operations
//! the vector flood fills use, and one doubling step of the fill per lane.

use vstd::prelude::*;
use crate::bits::lemma_or_identity;

verus! {

/// Lane `x` shifted left by `n`; a count of 64 or more clears the lane.
pub open spec fn shl_lane(x: u64, n: u64) -> u64 {
    if n < 64 { x << n } else { 0 }
}

/// Lane `x` shifted right by `n`; a count of 64 or more clears the lane.
pub open spec fn shr_lane(x: u64, n: u64) -> u64 {
    if n < 64 { x >> n } else { 0 }
}

/// Lane `x` shifted by a signed count: left by `n` when `n >= 0`, right by
/// `-n` otherwise.
pub open spec fn shl_signed_lane(x: u64, n: i64) -> u64 {
    if n >= 0 { shl_lane(x, n as u64) } else { shr_lane(x, (-n) as u64) }
}

/// Every lane of `v` shifted left by the count in the same lane of `n`.
pub fn shl_var<const N: usize>(v: [u64; N], n: [u64; N]) -> (r: [u64; N])
    ensures
        forall|i: int| 0 <= i < N ==> #[trigger] r[i] == shl_lane(v[i], n[i]),
{
    let mut r = v;
    let mut i: usize = 0;
    while i < N
        invariant
            i <= N,
            forall|j: int| 0 <= j < i ==> #[trigger] r[j] == shl_lane(v[j], n[j]),
        decreases N - i,
    {
        r[i] = if n[i] < 64 { v[i] << n[i] } else { 0 };
        i += 1;
    }
    r
}

/// Every lane of `v` shifted right by the count in the same lane of `n`.
pub fn shr_var<const N: usize>(v: [u64; N], n: [u64; N]) -> (r: [u64; N])
    ensures
        forall|i: int| 0 <= i < N ==> #[trigger] r[i] == shr_lane(v[i], n[i]),
{
    let mut r = v;
    let mut i: usize = 0;
    while i < N
        invariant
            i <= N,
            forall|j: int| 0 <= j < i ==> #[trigger] r[j] == shr_lane(v[j], n[j]),
        decreases N - i,
    {
        r[i] = if n[i] < 64 { v[i] >> n[i] } else { 0 };
        i += 1;
    }
    r
}

/// Every lane of `v` shifted by the signed count in the same lane of `n`.
pub fn shl_signed<const N: usize>(v: [u64; N], n: [i64; N]) -> (r: [u64; N])
    ensures
        forall|i: int| 0 <= i < N ==> #[trigger] r[i] == shl_signed_lane(v[i], n[i]),
{
    let mut r = v;
    let mut i: usize = 0;
    while i < N
        invariant
            i <= N,
            forall|j: int| 0 <= j < i ==> #[trigger] r[j] == shl_signed_lane(v[j], n[j]),
        decreases N - i,
    {
        let c = n[i];
        r[i] = if c >= 0 {
            if c < 64 { v[i] << (c as u64) } else { 0 }
        } else if c > -64 {
            v[i] >> ((-c) as u64)
        } else {
            0
        };
        i += 1;
    }
    r
}

/// Every lane of `v` shifted left by the same count `imm`.
pub fn shl_imm<const N: usize>(v: [u64; N], imm: u64) -> (r: [u64; N])
    requires
        imm < 64,
    ensures
        forall|i: int| 0 <= i < N ==> #[trigger] r[i] == v[i] << imm,
{
    let mut r = v;
    let mut i: usize = 0;
    while i < N
        invariant
            i <= N,
            imm < 64,
            forall|j: int| 0 <= j < i ==> #[trigger] r[j] == v[j] << imm,
        decreases N - i,
    {
        r[i] = v[i] << imm;
        i += 1;
    }
    r
}

/// Lane-wise `&`.
pub fn and_lanes<const N: usize>(a: [u64; N], b: [u64; N]) -> (r: [u64; N])
    ensures
        forall|i: int| 0 <= i < N ==> #[trigger] r[i] == a[i] & b[i],
{
    let mut r = a;
    let mut i: usize = 0;
    while i < N
        invariant
            i <= N,
            forall|j: int| 0 <= j < i ==> #[trigger] r[j] == a[j] & b[j],
        decreases N - i,
    {
        r[i] = a[i] & b[i];
        i += 1;
    }
    r
}

/// Lane-wise `|`.
pub fn or_lanes<const N: usize>(a: [u64; N], b: [u64; N]) -> (r: [u64; N])
    ensures
        forall|i: int| 0 <= i < N ==> #[trigger] r[i] == a[i] | b[i],
{
    let mut r = a;
    let mut i: usize = 0;
    while i < N
        invariant
            i <= N,
            forall|j: int| 0 <= j < i ==> #[trigger] r[j] == a[j] | b[j],
        decreases N - i,
    {
        r[i] = a[i] | b[i];
        i += 1;
    }
    r
}

/// Each lane's bits read as a signed count.
pub fn as_signed<const N: usize>(v: [u64; N]) -> (r: [i64; N])
    ensures
        forall|i: int| 0 <= i < N ==> #[trigger] r[i] == v[i] as i64,
{
    let mut r = [0i64; N];
    let mut i: usize = 0;
    while i < N
        invariant
            i <= N,
            forall|j: int| 0 <= j < i ==> #[trigger] r[j] == v[j] as i64,
        decreases N - i,
    {
        r[i] = v[i] as i64;
        i += 1;
    }
    r
}

/// Lane-wise negation of signed counts.
pub fn neg_lanes<const N: usize>(v: [i64; N]) -> (r: [i64; N])
    requires
        forall|i: int| 0 <= i < N ==> #[trigger] v[i] > i64::MIN,
    ensures
        forall|i: int| 0 <= i < N ==> #[trigger] r[i] == -v[i],
{
    let mut r = v;
    let mut i: usize = 0;
    while i < N
        invariant
            i <= N,
            forall|j: int| 0 <= j < N ==> #[trigger] v[j] > i64::MIN,
            forall|j: int| 0 <= j < i ==> #[trigger] r[j] == -v[j],
        decreases N - i,
    {
        r[i] = -v[i];
        i += 1;
    }
    r
}

/// The shift counts of the three doubling steps, from those of the first.
pub proof fn lemma_doubled_counts()
    by (bit_vector)
    ensures
        0u64 << 1u64 == 0u64,
        0u64 << 2u64 == 0u64,
        1u64 << 1u64 == 2u64,
        1u64 << 2u64 == 4u64,
        7u64 << 1u64 == 14u64,
        7u64 << 2u64 == 28u64,
        8u64 << 1u64 == 16u64,
        8u64 << 2u64 == 32u64,
        9u64 << 1u64 == 18u64,
        9u64 << 2u64 == 36u64,
        64u64 << 1u64 == 128u64,
        64u64 << 2u64 == 256u64,
{
}

// ---------------------------------------------------------------------------
// One doubling step of the flood fill, in every lane at once.
// ---------------------------------------------------------------------------

/// One step toward higher squares in a lane: the generator `g` spreads by `n`
/// through the propagator `p`, and `p` shrinks to the squares whose next run
/// is empty, both within `m`.
pub open spec fn step_left_lane(g: u64, p: u64, n: u64, m: u64) -> (u64, u64) {
    (g | ((shl_lane(g, n) & m) & p), p & (shl_lane(p, n) & m))
}

/// One step toward lower squares in a lane.
pub open spec fn step_right_lane(g: u64, p: u64, n: u64, m: u64) -> (u64, u64) {
    (g | ((shr_lane(g, n) & m) & p), p & (shr_lane(p, n) & m))
}

/// One step in a lane that shifts by both counts and keeps the union.
pub open spec fn step_both_lane(g: u64, p: u64, l: u64, r: u64, m: u64) -> (u64, u64) {
    (g | (((shl_lane(g, l) | shr_lane(g, r)) & m) & p), p & ((shl_lane(p, l) | shr_lane(p, r)) & m))
}

/// One step in a lane that shifts by a signed count.
pub open spec fn step_signed_lane(g: u64, p: u64, n: i64, m: u64) -> (u64, u64) {
    (g | ((shl_signed_lane(g, n) & m) & p), p & (shl_signed_lane(p, n) & m))
}

/// A doubling step toward higher squares in every lane.
pub fn step_left_lanes<const N: usize>(g: [u64; N], p: [u64; N], shift: [u64; N], mask: [u64; N]) -> (r: ([u64; N], [u64; N]))
    ensures
        forall|i: int| 0 <= i < N ==> #[trigger] r.0[i] == step_left_lane(g[i], p[i], shift[i], mask[i]).0,
        forall|i: int| 0 <= i < N ==> #[trigger] r.1[i] == step_left_lane(g[i], p[i], shift[i], mask[i]).1,
{
    let sg = and_lanes(shl_var(g, shift), mask);
    let sp = and_lanes(shl_var(p, shift), mask);
    (or_lanes(g, and_lanes(sg, p)), and_lanes(p, sp))
}

/// A doubling step toward lower squares in every lane.
pub fn step_right_lanes<const N: usize>(g: [u64; N], p: [u64; N], shift: [u64; N], mask: [u64; N]) -> (r: ([u64; N], [u64; N]))
    ensures
        forall|i: int| 0 <= i < N ==> #[trigger] r.0[i] == step_right_lane(g[i], p[i], shift[i], mask[i]).0,
        forall|i: int| 0 <= i < N ==> #[trigger] r.1[i] == step_right_lane(g[i], p[i], shift[i], mask[i]).1,
{
    let sg = and_lanes(shr_var(g, shift), mask);
    let sp = and_lanes(shr_var(p, shift), mask);
    (or_lanes(g, and_lanes(sg, p)), and_lanes(p, sp))
}

/// A doubling step in every lane, each lane shifted both ways and the two
/// shifts joined.
pub fn step_both_lanes<const N: usize>(
    g: [u64; N],
    p: [u64; N],
    left: [u64; N],
    right: [u64; N],
    mask: [u64; N],
) -> (r: ([u64; N], [u64; N]))
    ensures
        forall|i: int| 0 <= i < N ==> #[trigger] r.0[i] == step_both_lane(g[i], p[i], left[i], right[i], mask[i]).0,
        forall|i: int| 0 <= i < N ==> #[trigger] r.1[i] == step_both_lane(g[i], p[i], left[i], right[i], mask[i]).1,
        forall|i: int| 0 <= i < N && right[i] >= 64 ==> #[trigger] r.0[i] == step_left_lane(g[i], p[i], left[i], mask[i]).0,
        forall|i: int| 0 <= i < N && right[i] >= 64 ==> #[trigger] r.1[i] == step_left_lane(g[i], p[i], left[i], mask[i]).1,
        forall|i: int| 0 <= i < N && left[i] >= 64 ==> #[trigger] r.0[i] == step_right_lane(g[i], p[i], right[i], mask[i]).0,
        forall|i: int| 0 <= i < N && left[i] >= 64 ==> #[trigger] r.1[i] == step_right_lane(g[i], p[i], right[i], mask[i]).1,
{
    let sg = or_lanes(shl_var(g, left), shr_var(g, right));
    let sp = or_lanes(shl_var(p, left), shr_var(p, right));
    let masked_sg = and_lanes(sg, mask);
    let masked_sp = and_lanes(sp, mask);
    let r = (or_lanes(g, and_lanes(masked_sg, p)), and_lanes(p, masked_sp));
    proof {
        assert forall|i: int| 0 <= i < N implies
            step_both_lane(g[i], p[i], left[i], right[i], mask[i]) == (if right[i] >= 64 {
                step_left_lane(g[i], p[i], left[i], mask[i])
            } else if left[i] >= 64 {
                step_right_lane(g[i], p[i], right[i], mask[i])
            } else {
                step_both_lane(g[i], p[i], left[i], right[i], mask[i])
            }) by {
            lemma_or_identity(shl_lane(g[i], left[i]));
            lemma_or_identity(shl_lane(p[i], left[i]));
            lemma_or_identity(shr_lane(g[i], right[i]));
            lemma_or_identity(shr_lane(p[i], right[i]));
        }
    }
    r
}

/// A doubling step in every lane by signed counts.
pub fn step_signed_lanes<const N: usize>(g: [u64; N], p: [u64; N], shift: [i64; N], mask: [u64; N]) -> (r: ([u64; N], [u64; N]))
    ensures
        forall|i: int| 0 <= i < N ==> #[trigger] r.0[i] == step_signed_lane(g[i], p[i], shift[i], mask[i]).0,
        forall|i: int| 0 <= i < N ==> #[trigger] r.1[i] == step_signed_lane(g[i], p[i], shift[i], mask[i]).1,
{
    let sg = and_lanes(shl_signed(g, shift), mask);
    let sp = and_lanes(shl_signed(p, shift), mask);
    (or_lanes(g, and_lanes(sg, p)), and_lanes(p, sp))
}

} // verus!
