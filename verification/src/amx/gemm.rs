//! The blocked INT8 matrix product of the AMX backend: 16 x 16 accumulator
//! tiles over 64-deep panels for the part of the product that tiles cover,
//! then plain dot products for the rows, columns and depth the tiles leave.
//!
//! Each tile step is `TDPBSSD`'s arithmetic: a 16 x 64 block of `a` against
//! a 64 x 16 panel of `b` packed in groups of four depth values, accumulated
//! in wrapping 32-bit integers.

use vstd::prelude::*;
use crate::amx::pack::{pack_rhs_panel, packed_entry, rhs_source_index};
use crate::arch::AmxInt8;
use crate::tiling::{
    in_tile, lemma_tile_position, lemma_tile_positions_distinct, lemma_wrap32_absorbs, lemma_wrap32_small,
    lemma_wrapping_add, tile_at, tile_dot, tile_fits, tile_index, tile_product, wrap32,
};

verus! {

/// The dot product of row `i` of `a` with column `j` of `b` over the depth
/// positions `lo..hi`.
pub open spec fn range_dot(a: Seq<i8>, a_stride: int, b: Seq<i8>, b_stride: int, i: int, j: int, lo: int, hi: int) -> int
    decreases hi - lo,
{
    if hi <= lo {
        0
    } else {
        range_dot(a, a_stride, b, b_stride, i, j, lo, hi - 1)
            + (tile_at(a, a_stride, i, hi - 1) as int) * (tile_at(b, b_stride, hi - 1, j) as int)
    }
}

proof fn lemma_range_dot_split(a: Seq<i8>, a_stride: int, b: Seq<i8>, b_stride: int, i: int, j: int, lo: int, mid: int, hi: int)
    requires
        lo <= mid <= hi,
    ensures
        range_dot(a, a_stride, b, b_stride, i, j, lo, hi)
            == range_dot(a, a_stride, b, b_stride, i, j, lo, mid) + range_dot(a, a_stride, b, b_stride, i, j, mid, hi),
    decreases hi - mid,
{
    if hi > mid {
        lemma_range_dot_split(a, a_stride, b, b_stride, i, j, lo, mid, hi - 1);
    }
}

proof fn lemma_range_dot_is_tile_dot(a: Seq<i8>, a_stride: int, b: Seq<i8>, b_stride: int, i: int, j: int, k: nat)
    ensures
        range_dot(a, a_stride, b, b_stride, i, j, 0, k as int) == tile_dot(a, a_stride, b, b_stride, i, j, k),
    decreases k,
{
    if k > 0 {
        lemma_range_dot_is_tile_dot(a, a_stride, b, b_stride, i, j, (k - 1) as nat);
    }
}

/// What one accumulator entry gains from a packed tile: row `row` of `a`
/// from column `col0` against output column `o` of the packed `b_tile`,
/// over the first `d` depth positions.
pub open spec fn packed_dot(a: Seq<i8>, a_stride: int, row: int, col0: int, b_tile: Seq<i8>, o: int, d: nat) -> int
    decreases d,
{
    if d == 0 {
        0
    } else {
        packed_dot(a, a_stride, row, col0, b_tile, o, (d - 1) as nat)
            + (tile_at(a, a_stride, row, col0 + d - 1) as int)
            * (packed_entry(b_tile, 16, 4, (d - 1) / 4, o, (d - 1) % 4) as int)
    }
}

/// `TDPBSSD` on the 16 x 16 accumulator block at (`row`, `c_col`) of `c`:
/// each entry gains the dot product of its row of the 16 x 64 block of `a`
/// at (`row`, `a_col`) with its column of the packed `b_tile`.
fn tdpbssd(
    c: &mut [i32],
    c_stride: usize,
    row: usize,
    c_col: usize,
    a: &[i8],
    a_stride: usize,
    a_col: usize,
    b_tile: &[i8],
)
    requires
        b_tile@.len() == 1024,
        16 <= c_stride,
        (row + 15) * c_stride + c_col + 16 <= old(c)@.len(),
        (row + 15) * a_stride + a_col + 64 <= a@.len(),
    ensures
        final(c)@.len() == old(c)@.len(),
        forall|r: int, o: int| 0 <= r < 16 && 0 <= o < 16 ==>
            #[trigger] tile_at(final(c)@, c_stride as int, row + r, c_col + o)
            == wrap32(tile_at(old(c)@, c_stride as int, row + r, c_col + o)
                + packed_dot(a@, a_stride as int, row + r, a_col as int, b_tile@, o, 64)),
        forall|p: int| 0 <= p < old(c)@.len() && !in_tile(p - (row * c_stride + c_col), c_stride as int, 16, 16)
            ==> #[trigger] final(c)@[p] == old(c)@[p],
{
    let ghost c0 = c@;
    proof {
        assert(c0.len() <= usize::MAX && a@.len() <= usize::MAX) by {
            let (lc, la) = (c.len(), a.len());
        }
        assert(row + 16 <= c0.len()) by (nonlinear_arith)
            requires (row + 15) * c_stride + c_col + 16 <= c0.len(), 16 <= c_stride;
    }
    let mut r: usize = 0;
    while r < 16
        invariant
            r <= 16,
            c@.len() == c0.len(),
            c0.len() <= usize::MAX && a@.len() <= usize::MAX,
            b_tile@.len() == 1024,
            16 <= c_stride,
            (row + 15) * c_stride + c_col + 16 <= c0.len(),
            (row + 15) * a_stride + a_col + 64 <= a@.len(),
            row + 16 <= c0.len(),
            forall|r2: int, o2: int| 0 <= r2 < 16 && 0 <= o2 < 16 ==>
                #[trigger] tile_at(c@, c_stride as int, row + r2, c_col + o2)
                == if r2 < r {
                    wrap32(tile_at(c0, c_stride as int, row + r2, c_col + o2)
                        + packed_dot(a@, a_stride as int, row + r2, a_col as int, b_tile@, o2, 64))
                } else {
                    tile_at(c0, c_stride as int, row + r2, c_col + o2)
                },
            forall|p: int| 0 <= p < c0.len() && !in_tile(p - (row * c_stride + c_col), c_stride as int, 16, 16)
                ==> #[trigger] c@[p] == c0[p],
        decreases 16 - r,
    {
        let mut o: usize = 0;
        while o < 16
            invariant
                r < 16,
                o <= 16,
                c@.len() == c0.len(),
                c0.len() <= usize::MAX && a@.len() <= usize::MAX,
                b_tile@.len() == 1024,
                16 <= c_stride,
                (row + 15) * c_stride + c_col + 16 <= c0.len(),
                (row + 15) * a_stride + a_col + 64 <= a@.len(),
                row + 16 <= c0.len(),
                forall|r2: int, o2: int| 0 <= r2 < 16 && 0 <= o2 < 16 ==>
                    #[trigger] tile_at(c@, c_stride as int, row + r2, c_col + o2)
                    == if r2 < r || (r2 == r && o2 < o) {
                        wrap32(tile_at(c0, c_stride as int, row + r2, c_col + o2)
                            + packed_dot(a@, a_stride as int, row + r2, a_col as int, b_tile@, o2, 64))
                    } else {
                        tile_at(c0, c_stride as int, row + r2, c_col + o2)
                    },
                forall|p: int| 0 <= p < c0.len() && !in_tile(p - (row * c_stride + c_col), c_stride as int, 16, 16)
                    ==> #[trigger] c@[p] == c0[p],
            decreases 16 - o,
        {
            proof {
                lemma_block_position(c_stride as int, row as int, c_col as int, r as int, o as int, c0.len() as int);
            }
            let position = (row + r) * c_stride + c_col + o;
            let mut sum = c[position];
            proof {
                assert(tile_at(c@, c_stride as int, row + r, c_col + o) == c@[position as int]);
                lemma_wrap32_small(tile_at(c0, c_stride as int, row + r, c_col + o) as int);
            }
            let mut d: usize = 0;
            while d < 64
                invariant
                    r < 16,
                    o < 16,
                    d <= 64,
                    a@.len() <= usize::MAX,
                    b_tile@.len() == 1024,
                    (row + 15) * a_stride + a_col + 64 <= a@.len(),
                    row + 16 <= c0.len(),
                    c0.len() <= usize::MAX,
                    sum == wrap32(tile_at(c0, c_stride as int, row + r, c_col + o)
                        + packed_dot(a@, a_stride as int, row + r, a_col as int, b_tile@, o as int, d as nat)),
                decreases 64 - d,
            {
                proof {
                    lemma_block_position(a_stride as int, row as int, a_col as int, r as int, d as int, a@.len() as int);
                }
                let val_a = a[(row + r) * a_stride + a_col + d] as i32;
                let val_b = b_tile[(d / 4) * 64 + o * 4 + d % 4] as i32;
                assert(-16384 <= val_a * val_b <= 16384) by (nonlinear_arith)
                    requires -128 <= val_a <= 127, -128 <= val_b <= 127;
                proof {
                    assert(tile_at(a@, a_stride as int, row + r, a_col + d) == a@[((row + r) * a_stride + a_col + d) as int]);
                    assert(packed_entry(b_tile@, 16, 4, (d as int) / 4, o as int, (d as int) % 4) == b_tile@[((d / 4) * 64 + o * 4 + d % 4) as int]);
                    lemma_wrapping_add(sum, (val_a * val_b) as i32);
                    lemma_wrap32_absorbs(tile_at(c0, c_stride as int, row + r, c_col + o)
                        + packed_dot(a@, a_stride as int, row + r, a_col as int, b_tile@, o as int, d as nat), val_a * val_b);
                }
                sum = sum.wrapping_add(val_a * val_b);
                d += 1;
            }
            let ghost before = c@;
            assert(forall|r2: int, o2: int| 0 <= r2 < 16 && 0 <= o2 < 16 ==>
                #[trigger] tile_at(before, c_stride as int, row + r2, c_col + o2)
                == if r2 < r || (r2 == r && o2 < o) {
                    wrap32(tile_at(c0, c_stride as int, row + r2, c_col + o2)
                        + packed_dot(a@, a_stride as int, row + r2, a_col as int, b_tile@, o2, 64))
                } else {
                    tile_at(c0, c_stride as int, row + r2, c_col + o2)
                });
            c[position] = sum;
            proof {
                assert forall|r2: int, o2: int| 0 <= r2 < 16 && 0 <= o2 < 16 implies
                    #[trigger] tile_at(c@, c_stride as int, row + r2, c_col + o2)
                    == if r2 < r || (r2 == r && o2 < o + 1) {
                        wrap32(tile_at(c0, c_stride as int, row + r2, c_col + o2)
                            + packed_dot(a@, a_stride as int, row + r2, a_col as int, b_tile@, o2, 64))
                    } else {
                        tile_at(c0, c_stride as int, row + r2, c_col + o2)
                    } by {
                    lemma_block_position(c_stride as int, row as int, c_col as int, r2, o2, c0.len() as int);
                    assert(tile_at(before, c_stride as int, row + r2, c_col + o2)
                        == tile_at(before, c_stride as int, row + r2, c_col + o2));
                    if r2 != r && tile_index(c_stride as int, row + r2, c_col + o2) == position as int {
                        lemma_tile_positions_distinct(c_stride as int, (row + r) as int, o as int, row + r2, o2, 16);
                    }
                    if r2 == r && o2 == o {
                        assert(tile_at(c@, c_stride as int, row + r2, c_col + o2) == sum);
                    } else {
                        assert(tile_index(c_stride as int, row + r2, c_col + o2) != position as int);
                        assert(tile_at(c@, c_stride as int, row + r2, c_col + o2)
                            == tile_at(before, c_stride as int, row + r2, c_col + o2));
                    }
                }
                assert forall|p: int| 0 <= p < c0.len() && !in_tile(p - (row * c_stride + c_col), c_stride as int, 16, 16)
                    implies #[trigger] c@[p] == c0[p] by {
                    assert(tile_index(c_stride as int, r as int, o as int) == position - (row * c_stride + c_col)) by (nonlinear_arith)
                        requires position == (row + r) * c_stride + c_col + o;
                    assert(before[p] == c0[p]);
                }
            }
            o += 1;
        }
        r += 1;
    }
}

proof fn lemma_block_position(stride: int, row: int, col: int, r: int, o: int, len: int)
    by (nonlinear_arith)
    requires
        0 <= r <= 15,
        0 <= o,
        row >= 0,
        col >= 0,
        stride >= 0,
        (row + 15) * stride + col + o < len,
    ensures
        0 <= (row + r) * stride,
        (row + r) * stride + col + o < len,
        0 <= row * stride,
        stride >= 1 ==> row + r < len,
{
    if stride >= 1 {
        assert(row + r <= (row + r) * stride);
    }
    assert((row + r) * stride <= (row + 15) * stride);
}

/// A panel packed from depth `depth0` and column `col0` of `b` turns the
/// tile step into the plain dot product over those 64 depth positions.
proof fn lemma_packed_dot_is_range_dot(
    a: Seq<i8>,
    a_stride: int,
    row: int,
    b: Seq<i8>,
    b_stride: int,
    b_tile: Seq<i8>,
    col0: int,
    depth0: int,
    o: int,
    d: nat,
)
    requires
        d <= 64,
        0 <= o < 16,
        forall|g: int, o2: int, l: int| 0 <= g < 16 && 0 <= o2 < 16 && 0 <= l < 4 ==>
            #[trigger] packed_entry(b_tile, 16, 4, g, o2, l) == b[rhs_source_index(b_stride, col0, depth0, 4, g, o2, l)],
    ensures
        packed_dot(a, a_stride, row, depth0, b_tile, o, d) == range_dot(a, a_stride, b, b_stride, row, col0 + o, depth0, depth0 + d),
    decreases d,
{
    if d > 0 {
        lemma_packed_dot_is_range_dot(a, a_stride, row, b, b_stride, b_tile, col0, depth0, o, (d - 1) as nat);
        let e = d - 1;
        assert(e == (e / 4) * 4 + e % 4);
        assert(packed_entry(b_tile, 16, 4, e / 4, o, e % 4) == b[rhs_source_index(b_stride, col0, depth0, 4, e / 4, o, e % 4)]);
        assert(rhs_source_index(b_stride, col0, depth0, 4, e / 4, o, e % 4) == tile_index(b_stride, depth0 + e, col0 + o));
    }
}

/// What entry (`r`, `col`) holds while the tiles are applied: tiles cover
/// rows below `m_bound` and columns below `n_bound` to depth `k_bound`;
/// blocks before (`i`, `j`) are done, block (`i`, `j`) is covered to depth
/// `kk`, later ones not yet.
pub open spec fn tiled_entry(
    c0: Seq<i32>,
    c_stride: int,
    a: Seq<i8>,
    a_stride: int,
    b: Seq<i8>,
    b_stride: int,
    n_bound: int,
    k_bound: int,
    i: int,
    j: int,
    kk: int,
    r: int,
    col: int,
) -> i32 {
    if (r < i && col < n_bound) || (i <= r < i + 16 && col < j) {
        wrap32(tile_at(c0, c_stride, r, col) + range_dot(a, a_stride, b, b_stride, r, col, 0, k_bound))
    } else if i <= r < i + 16 && j <= col < j + 16 && kk > 0 {
        wrap32(tile_at(c0, c_stride, r, col) + range_dot(a, a_stride, b, b_stride, r, col, 0, kk))
    } else {
        tile_at(c0, c_stride, r, col)
    }
}

/// The final value of entry (`r`, `col`).
pub open spec fn product_entry(c0: Seq<i32>, c_stride: int, a: Seq<i8>, a_stride: int, b: Seq<i8>, b_stride: int, k: int, r: int, col: int) -> i32 {
    wrap32(tile_at(c0, c_stride, r, col) + range_dot(a, a_stride, b, b_stride, r, col, 0, k))
}

proof fn lemma_block_member(stride: int, i: int, j: int, r: int, col: int, p: int, m: int, n: int)
    requires
        0 <= r < m,
        0 <= col < n,
        0 <= i,
        0 <= j,
        i + 16 <= m,
        j + 16 <= n,
        n <= stride,
        p == tile_index(stride, r, col),
        in_tile(p - (i * stride + j), stride, 16, 16),
    ensures
        i <= r < i + 16,
        j <= col < j + 16,
{
    let (r2, o2) = choose|r2: int, o2: int| 0 <= r2 < 16 && 0 <= o2 < 16 && #[trigger] tile_index(stride, r2, o2) == p - (i * stride + j);
    assert(tile_index(stride, i + r2, j + o2) == p) by (nonlinear_arith)
        requires tile_index(stride, r2, o2) == p - (i * stride + j), tile_index(stride, i + r2, j + o2) == (i + r2) * stride + (j + o2),
            tile_index(stride, r2, o2) == r2 * stride + o2;
    lemma_tile_positions_distinct(stride, r, col, i + r2, j + o2, n);
}

proof fn lemma_block_in_tile(stride: int, i: int, j: int, p: int, m: int, n: int)
    requires
        0 <= i,
        0 <= j,
        i + 16 <= m,
        j + 16 <= n,
        in_tile(p - (i * stride + j), stride, 16, 16),
    ensures
        in_tile(p, stride, m, n),
{
    let (r2, o2) = choose|r2: int, o2: int| 0 <= r2 < 16 && 0 <= o2 < 16 && #[trigger] tile_index(stride, r2, o2) == p - (i * stride + j);
    assert(tile_index(stride, i + r2, j + o2) == p) by (nonlinear_arith)
        requires tile_index(stride, r2, o2) == p - (i * stride + j), tile_index(stride, i + r2, j + o2) == (i + r2) * stride + (j + o2),
            tile_index(stride, r2, o2) == r2 * stride + o2;
}

/// A blocked matrix product `c += a * b` of an `m x k` matrix `a` by a
/// `k x n` matrix `b` into the `m x n` accumulators `c`, each addressed
/// row-major through its own row stride.
pub trait AmxGemm<TA, TB, TC> {
    /// Performs `c += a * b`.
    fn amx_gemm(
        m: usize,
        n: usize,
        k: usize,
        a: &[TA],
        a_stride: usize,
        b: &[TB],
        b_stride: usize,
        c: &mut [TC],
        c_stride: usize,
    )
        requires
            tile_fits(old(c)@.len() as int, c_stride as int, m as int, n as int),
            m <= 1 || n <= c_stride,
            k <= 1 || n <= b_stride,
            tile_fits(a@.len() as int, a_stride as int, m as int, k as int),
            tile_fits(b@.len() as int, b_stride as int, k as int, n as int),
    ;
}

impl AmxGemm<i8, i8, i32> for AmxInt8 {
    /// `c += a * b` for an `m x k` by `k x n` product of signed bytes into
    /// wrapping 32-bit accumulators, as the AMX backend blocks it: 16 x 16
    /// accumulator tiles over 64-deep packed panels for the rows, columns
    /// and depth that whole tiles cover, then dot products for the rest.
    fn amx_gemm(
        m: usize,
        n: usize,
        k: usize,
        a: &[i8],
        a_stride: usize,
        b: &[i8],
        b_stride: usize,
        c: &mut [i32],
        c_stride: usize,
    )
        ensures
            tile_product(old(c)@, final(c)@, c_stride as int, a@, a_stride as int, b@, b_stride as int,
                m as int, n as int, k as nat),
    {
        let ghost c0 = c@;
        proof {
            assert(c0.len() <= usize::MAX && a@.len() <= usize::MAX && b@.len() <= usize::MAX) by {
                let (lc, la, lb) = (c.len(), a.len(), b.len());
            }
        }
        let m_bound = (m / 16) * 16;
        let n_bound = (n / 16) * 16;
        let k_bound = (k / 64) * 64;
        let mut b_tile: Vec<i8> = vec![0i8; 1024];
        let mut i: usize = 0;
        while i < m_bound
            invariant
                i <= m_bound,
                i % 16 == 0,
                m_bound == (m / 16) * 16,
                n_bound == (n / 16) * 16,
                k_bound == (k / 64) * 64,
                c@.len() == c0.len(),
                b_tile@.len() == 1024,
                c0.len() <= usize::MAX && a@.len() <= usize::MAX && b@.len() <= usize::MAX,
                tile_fits(c0.len() as int, c_stride as int, m as int, n as int),
                m <= 1 || n <= c_stride,
                k <= 1 || n <= b_stride,
                tile_fits(a@.len() as int, a_stride as int, m as int, k as int),
                tile_fits(b@.len() as int, b_stride as int, k as int, n as int),
                forall|r: int, col: int| 0 <= r < m && 0 <= col < n ==> #[trigger] tile_at(c@, c_stride as int, r, col)
                    == tiled_entry(c0, c_stride as int, a@, a_stride as int, b@, b_stride as int, n_bound as int,
                        k_bound as int, i as int, 0, 0, r, col),
                forall|p: int| 0 <= p < c@.len() && !in_tile(p, c_stride as int, m as int, n as int) ==> #[trigger] c@[p] == c0[p],
            decreases m_bound - i,
        {
            let mut j: usize = 0;
            while j < n_bound
                invariant
                    i < m_bound,
                    i % 16 == 0,
                    j <= n_bound,
                    j % 16 == 0,
                    m_bound == (m / 16) * 16,
                    n_bound == (n / 16) * 16,
                    k_bound == (k / 64) * 64,
                    c@.len() == c0.len(),
                    b_tile@.len() == 1024,
                    c0.len() <= usize::MAX && a@.len() <= usize::MAX && b@.len() <= usize::MAX,
                    tile_fits(c0.len() as int, c_stride as int, m as int, n as int),
                    m <= 1 || n <= c_stride,
                    k <= 1 || n <= b_stride,
                    tile_fits(a@.len() as int, a_stride as int, m as int, k as int),
                    tile_fits(b@.len() as int, b_stride as int, k as int, n as int),
                    forall|r: int, col: int| 0 <= r < m && 0 <= col < n ==> #[trigger] tile_at(c@, c_stride as int, r, col)
                        == tiled_entry(c0, c_stride as int, a@, a_stride as int, b@, b_stride as int, n_bound as int,
                            k_bound as int, i as int, j as int, 0, r, col),
                    forall|p: int| 0 <= p < c@.len() && !in_tile(p, c_stride as int, m as int, n as int) ==> #[trigger] c@[p] == c0[p],
                decreases n_bound - j,
            {
                let mut kk: usize = 0;
                while kk < k_bound
                    invariant
                        i < m_bound,
                        i % 16 == 0,
                        j < n_bound,
                        j % 16 == 0,
                        kk <= k_bound,
                        kk % 64 == 0,
                        m_bound == (m / 16) * 16,
                        n_bound == (n / 16) * 16,
                        k_bound == (k / 64) * 64,
                        c@.len() == c0.len(),
                        b_tile@.len() == 1024,
                        c0.len() <= usize::MAX && a@.len() <= usize::MAX && b@.len() <= usize::MAX,
                        tile_fits(c0.len() as int, c_stride as int, m as int, n as int),
                        m <= 1 || n <= c_stride,
                        k <= 1 || n <= b_stride,
                        tile_fits(a@.len() as int, a_stride as int, m as int, k as int),
                        tile_fits(b@.len() as int, b_stride as int, k as int, n as int),
                        forall|r: int, col: int| 0 <= r < m && 0 <= col < n ==> #[trigger] tile_at(c@, c_stride as int, r, col)
                            == tiled_entry(c0, c_stride as int, a@, a_stride as int, b@, b_stride as int, n_bound as int,
                                k_bound as int, i as int, j as int, kk as int, r, col),
                        forall|p: int| 0 <= p < c@.len() && !in_tile(p, c_stride as int, m as int, n as int) ==> #[trigger] c@[p] == c0[p],
                    decreases k_bound - kk,
                {
                    proof {
                        lemma_gemm_block_extents(m as int, n as int, k as int, i as int, j as int, kk as int, m_bound as int,
                            n_bound as int, k_bound as int, a_stride as int, b_stride as int, c_stride as int,
                            a@.len() as int, b@.len() as int, c0.len() as int);
                    }
                    pack_rhs_panel::<i8, 4>(b, b_stride, j, kk, 64, b_tile.as_mut_slice());
                    proof {
                        assert forall|g: int, o2: int, l: int| 0 <= g < 16 && 0 <= o2 < 16 && 0 <= l < 4 implies
                            #[trigger] packed_entry(b_tile@, 16, 4, g, o2, l)
                            == b@[rhs_source_index(b_stride as int, j as int, kk as int, 4, g, o2, l)] by {
                            assert((b_tile@.len() as int) / 64 == 16);
                            assert(packed_entry(b_tile@, (b_tile@.len() as int) / 64, 4, g, o2, l)
                                == b@[rhs_source_index(b_stride as int, j as int, kk as int, 4, g, o2, l)]);
                        }
                    }
                    let ghost before = c@;
                    tdpbssd(c, c_stride, i, j, a, a_stride, kk, b_tile.as_slice());
                    proof {
                        assert forall|r: int, col: int| 0 <= r < m && 0 <= col < n implies #[trigger] tile_at(c@, c_stride as int, r, col)
                            == tiled_entry(c0, c_stride as int, a@, a_stride as int, b@, b_stride as int, n_bound as int,
                                k_bound as int, i as int, j as int, (kk + 64) as int, r, col) by {
                            assert(tile_at(before, c_stride as int, r, col) == tiled_entry(c0, c_stride as int, a@, a_stride as int, b@,
                                b_stride as int, n_bound as int, k_bound as int, i as int, j as int, kk as int, r, col));
                            lemma_tile_position(c_stride as int, r, col, m as int, n as int, c0.len() as int);
                            if i <= r < i + 16 && j <= col < j + 16 {
                                let rr = r - i;
                                let oo = col - j;
                                assert(tile_at(c@, c_stride as int, i + rr, j + oo) == wrap32(tile_at(before, c_stride as int, i + rr, j + oo)
                                    + packed_dot(a@, a_stride as int, i + rr, kk as int, b_tile@, oo, 64)));
                                lemma_packed_dot_is_range_dot(a@, a_stride as int, r, b@, b_stride as int, b_tile@, j as int, kk as int, oo, 64);
                                lemma_range_dot_split(a@, a_stride as int, b@, b_stride as int, r, col, 0, kk as int, (kk + 64) as int);
                                lemma_wrap32_absorbs(tile_at(c0, c_stride as int, r, col)
                                    + range_dot(a@, a_stride as int, b@, b_stride as int, r, col, 0, kk as int),
                                    range_dot(a@, a_stride as int, b@, b_stride as int, r, col, kk as int, (kk + 64) as int));
                                lemma_wrap32_small(tile_at(c0, c_stride as int, r, col) as int);
                            } else {
                                let p = tile_index(c_stride as int, r, col);
                                if in_tile(p - (i * c_stride + j), c_stride as int, 16, 16) {
                                    lemma_block_member(c_stride as int, i as int, j as int, r, col, p, m as int, n as int);
                                }
                                assert(c@[p] == before[p]);
                            }
                        }
                        assert forall|p: int| 0 <= p < c@.len() && !in_tile(p, c_stride as int, m as int, n as int)
                            implies #[trigger] c@[p] == c0[p] by {
                            if in_tile(p - (i * c_stride + j), c_stride as int, 16, 16) {
                                lemma_block_in_tile(c_stride as int, i as int, j as int, p, m as int, n as int);
                            }
                            assert(c@[p] == before[p]);
                        }
                    }
                    kk += 64;
                }
                proof {
                    assert forall|r: int, col: int| 0 <= r < m && 0 <= col < n implies #[trigger] tile_at(c@, c_stride as int, r, col)
                        == tiled_entry(c0, c_stride as int, a@, a_stride as int, b@, b_stride as int, n_bound as int,
                            k_bound as int, i as int, (j + 16) as int, 0, r, col) by {
                        assert(tile_at(c@, c_stride as int, r, col) == tiled_entry(c0, c_stride as int, a@, a_stride as int, b@,
                            b_stride as int, n_bound as int, k_bound as int, i as int, j as int, kk as int, r, col));
                        if i <= r < i + 16 && j <= col < j + 16 && k_bound == 0 {
                            lemma_wrap32_small(tile_at(c0, c_stride as int, r, col) as int);
                        }
                    }
                }
                j += 16;
            }
            proof {
                assert forall|r: int, col: int| 0 <= r < m && 0 <= col < n implies #[trigger] tile_at(c@, c_stride as int, r, col)
                    == tiled_entry(c0, c_stride as int, a@, a_stride as int, b@, b_stride as int, n_bound as int,
                        k_bound as int, (i + 16) as int, 0, 0, r, col) by {
                    assert(tile_at(c@, c_stride as int, r, col) == tiled_entry(c0, c_stride as int, a@, a_stride as int, b@,
                        b_stride as int, n_bound as int, k_bound as int, i as int, j as int, 0, r, col));
                }
            }
            i += 16;
        }
        if m_bound < m || k_bound < k || n_bound < n {
            gemm_tails(m, n, k, a, a_stride, b, b_stride, c, c_stride, m_bound, n_bound, k_bound, Ghost(c0));
        } else {
            proof {
                assert forall|r: int, col: int| 0 <= r < m && 0 <= col < n implies #[trigger] tile_at(c@, c_stride as int, r, col)
                    == wrap32(tile_at(c0, c_stride as int, r, col) + tile_dot(a@, a_stride as int, b@, b_stride as int, r, col, k as nat)) by {
                    assert(tile_at(c@, c_stride as int, r, col) == tiled_entry(c0, c_stride as int, a@, a_stride as int, b@,
                        b_stride as int, n_bound as int, k_bound as int, i as int, 0, 0, r, col));
                    lemma_range_dot_is_tile_dot(a@, a_stride as int, b@, b_stride as int, r, col, k as nat);
                }
            }
        }
    }

}

/// The dot products the tiles leave: the whole depth for rows at or past
/// `m_bound` or columns at or past `n_bound`, the depth past `k_bound` for
/// the entries the tiles covered.
fn gemm_tails(
    m: usize,
    n: usize,
    k: usize,
    a: &[i8],
    a_stride: usize,
    b: &[i8],
    b_stride: usize,
    c: &mut [i32],
    c_stride: usize,
    m_bound: usize,
    n_bound: usize,
    k_bound: usize,
    Ghost(c0): Ghost<Seq<i32>>,
)
    requires
        m_bound == (m / 16) * 16,
        n_bound == (n / 16) * 16,
        k_bound == (k / 64) * 64,
        old(c)@.len() == c0.len(),
        c0.len() <= usize::MAX && a@.len() <= usize::MAX && b@.len() <= usize::MAX,
        tile_fits(c0.len() as int, c_stride as int, m as int, n as int),
        m <= 1 || n <= c_stride,
        tile_fits(a@.len() as int, a_stride as int, m as int, k as int),
        tile_fits(b@.len() as int, b_stride as int, k as int, n as int),
        forall|r: int, col: int| 0 <= r < m && 0 <= col < n ==> #[trigger] tile_at(old(c)@, c_stride as int, r, col)
            == tiled_entry(c0, c_stride as int, a@, a_stride as int, b@, b_stride as int, n_bound as int,
                k_bound as int, m_bound as int, 0, 0, r, col),
        forall|p: int| 0 <= p < old(c)@.len() && !in_tile(p, c_stride as int, m as int, n as int) ==> #[trigger] old(c)@[p] == c0[p],
    ensures
        tile_product(c0, final(c)@, c_stride as int, a@, a_stride as int, b@, b_stride as int,
            m as int, n as int, k as nat),
{
    let mut r: usize = 0;
    while r < m
        invariant
            r <= m,
            m_bound == (m / 16) * 16,
            n_bound == (n / 16) * 16,
            k_bound == (k / 64) * 64,
            c@.len() == c0.len(),
            c0.len() <= usize::MAX && a@.len() <= usize::MAX && b@.len() <= usize::MAX,
            tile_fits(c0.len() as int, c_stride as int, m as int, n as int),
            m <= 1 || n <= c_stride,
            tile_fits(a@.len() as int, a_stride as int, m as int, k as int),
            tile_fits(b@.len() as int, b_stride as int, k as int, n as int),
            forall|r2: int, col2: int| 0 <= r2 < m && 0 <= col2 < n ==> #[trigger] tile_at(c@, c_stride as int, r2, col2)
                == if r2 < r {
                    product_entry(c0, c_stride as int, a@, a_stride as int, b@, b_stride as int, k as int, r2, col2)
                } else {
                    tiled_entry(c0, c_stride as int, a@, a_stride as int, b@, b_stride as int, n_bound as int,
                        k_bound as int, m_bound as int, 0, 0, r2, col2)
                },
            forall|p: int| 0 <= p < c@.len() && !in_tile(p, c_stride as int, m as int, n as int) ==> #[trigger] c@[p] == c0[p],
        decreases m - r,
    {
        let mut col: usize = 0;
        while col < n
            invariant
                r < m,
                col <= n,
                m_bound == (m / 16) * 16,
                n_bound == (n / 16) * 16,
                k_bound == (k / 64) * 64,
                c@.len() == c0.len(),
                c0.len() <= usize::MAX && a@.len() <= usize::MAX && b@.len() <= usize::MAX,
                tile_fits(c0.len() as int, c_stride as int, m as int, n as int),
                m <= 1 || n <= c_stride,
                tile_fits(a@.len() as int, a_stride as int, m as int, k as int),
                tile_fits(b@.len() as int, b_stride as int, k as int, n as int),
                forall|r2: int, col2: int| 0 <= r2 < m && 0 <= col2 < n ==> #[trigger] tile_at(c@, c_stride as int, r2, col2)
                    == if r2 < r || (r2 == r && col2 < col) {
                        product_entry(c0, c_stride as int, a@, a_stride as int, b@, b_stride as int, k as int, r2, col2)
                    } else {
                        tiled_entry(c0, c_stride as int, a@, a_stride as int, b@, b_stride as int, n_bound as int,
                            k_bound as int, m_bound as int, 0, 0, r2, col2)
                    },
                forall|p: int| 0 <= p < c@.len() && !in_tile(p, c_stride as int, m as int, n as int) ==> #[trigger] c@[p] == c0[p],
            decreases n - col,
        {
            proof {
                lemma_tile_position(c_stride as int, r as int, col as int, m as int, n as int, c0.len() as int);
            }
            let position = r * c_stride + col;
            let whole = r >= m_bound || col >= n_bound;
            if whole || k_bound < k {
                let lo = if whole { 0 } else { k_bound };
                let mut sum: i32 = 0;
                let mut d: usize = lo;
                proof {
                    lemma_wrap32_small(0);
                }
                while d < k
                    invariant
                        r < m,
                        col < n,
                        lo <= d <= k,
                        a@.len() <= usize::MAX && b@.len() <= usize::MAX,
                        tile_fits(a@.len() as int, a_stride as int, m as int, k as int),
                        tile_fits(b@.len() as int, b_stride as int, k as int, n as int),
                        sum == wrap32(range_dot(a@, a_stride as int, b@, b_stride as int, r as int, col as int, lo as int, d as int)),
                    decreases k - d,
                {
                    proof {
                        lemma_tile_position(a_stride as int, r as int, d as int, m as int, k as int, a@.len() as int);
                        lemma_tile_position(b_stride as int, d as int, col as int, k as int, n as int, b@.len() as int);
                    }
                    let val_a = a[r * a_stride + d] as i32;
                    let val_b = b[d * b_stride + col] as i32;
                    assert(-16384 <= val_a * val_b <= 16384) by (nonlinear_arith)
                        requires -128 <= val_a <= 127, -128 <= val_b <= 127;
                    proof {
                        lemma_wrapping_add(sum, (val_a * val_b) as i32);
                        lemma_wrap32_absorbs(range_dot(a@, a_stride as int, b@, b_stride as int, r as int, col as int, lo as int, d as int),
                            val_a * val_b);
                    }
                    sum = sum.wrapping_add(val_a * val_b);
                    d += 1;
                }
                let previous = c[position];
                proof {
                    let rd_lo = range_dot(a@, a_stride as int, b@, b_stride as int, r as int, col as int, 0, lo as int);
                    let rd_hi = range_dot(a@, a_stride as int, b@, b_stride as int, r as int, col as int, lo as int, k as int);
                    let start = tile_at(c0, c_stride as int, r as int, col as int) as int;
                    assert(tile_at(c@, c_stride as int, r as int, col as int) == c@[position as int]);
                    lemma_wrapping_add(previous, sum);
                    lemma_range_dot_split(a@, a_stride as int, b@, b_stride as int, r as int, col as int, 0, lo as int, k as int);
                    lemma_wrap32_absorbs(rd_hi, previous as int);
                    if !whole {
                        lemma_wrap32_absorbs(start + rd_lo, rd_hi);
                    }
                }
                let ghost before = c@;
                c[position] = previous.wrapping_add(sum);
                proof {
                    assert forall|r2: int, col2: int| 0 <= r2 < m && 0 <= col2 < n implies #[trigger] tile_at(c@, c_stride as int, r2, col2)
                        == if r2 < r || (r2 == r && col2 < col + 1) {
                            product_entry(c0, c_stride as int, a@, a_stride as int, b@, b_stride as int, k as int, r2, col2)
                        } else {
                            tiled_entry(c0, c_stride as int, a@, a_stride as int, b@, b_stride as int, n_bound as int,
                                k_bound as int, m_bound as int, 0, 0, r2, col2)
                        } by {
                        lemma_tile_position(c_stride as int, r2, col2, m as int, n as int, c0.len() as int);
                        assert(tile_at(before, c_stride as int, r2, col2) == tile_at(before, c_stride as int, r2, col2));
                        if r2 != r && tile_index(c_stride as int, r2, col2) == position as int {
                            lemma_tile_positions_distinct(c_stride as int, r as int, col as int, r2, col2, n as int);
                        }
                        if r2 != r || col2 != col {
                            assert(tile_index(c_stride as int, r2, col2) != position as int);
                            assert(tile_at(c@, c_stride as int, r2, col2) == tile_at(before, c_stride as int, r2, col2));
                        }
                    }
                    assert forall|p: int| 0 <= p < c@.len() && !in_tile(p, c_stride as int, m as int, n as int)
                        implies #[trigger] c@[p] == c0[p] by {
                        assert(tile_index(c_stride as int, r as int, col as int) == position);
                        assert(before[p] == c0[p]);
                    }
                }
            } else {
                proof {
                    assert(tile_at(c@, c_stride as int, r as int, col as int) == tiled_entry(c0, c_stride as int, a@,
                        a_stride as int, b@, b_stride as int, n_bound as int, k_bound as int, m_bound as int, 0, 0,
                        r as int, col as int));
                }
            }
            col += 1;
        }
        r += 1;
    }
    proof {
        assert forall|r2: int, col2: int| 0 <= r2 < m && 0 <= col2 < n implies #[trigger] tile_at(c@, c_stride as int, r2, col2)
            == wrap32(tile_at(c0, c_stride as int, r2, col2) + tile_dot(a@, a_stride as int, b@, b_stride as int, r2, col2, k as nat)) by {
            assert(tile_at(c@, c_stride as int, r2, col2) == product_entry(c0, c_stride as int, a@, a_stride as int, b@,
                b_stride as int, k as int, r2, col2));
            lemma_range_dot_is_tile_dot(a@, a_stride as int, b@, b_stride as int, r2, col2, k as nat);
        }
    }
}

proof fn lemma_gemm_block_extents(
    m: int,
    n: int,
    k: int,
    i: int,
    j: int,
    kk: int,
    m_bound: int,
    n_bound: int,
    k_bound: int,
    a_stride: int,
    b_stride: int,
    c_stride: int,
    a_len: int,
    b_len: int,
    c_len: int,
)
    by (nonlinear_arith)
    requires
        0 <= i < m_bound,
        i % 16 == 0,
        0 <= j < n_bound,
        j % 16 == 0,
        0 <= kk < k_bound,
        kk % 64 == 0,
        m_bound == (m / 16) * 16,
        n_bound == (n / 16) * 16,
        k_bound == (k / 64) * 64,
        m >= 0, n >= 0, k >= 0,
        a_stride >= 0, b_stride >= 0, c_stride >= 0,
        m <= 1 || n <= c_stride,
        k <= 1 || n <= b_stride,
        m == 0 || n == 0 || (m - 1) * c_stride + n <= c_len,
        m == 0 || k == 0 || (m - 1) * a_stride + k <= a_len,
        k == 0 || n == 0 || (k - 1) * b_stride + n <= b_len,
    ensures
        i + 16 <= m,
        j + 16 <= n,
        kk + 64 <= k,
        16 <= c_stride,
        (i + 15) * c_stride + j + 16 <= c_len,
        (i + 15) * a_stride + kk + 64 <= a_len,
        j + 16 <= b_stride,
        (kk + 63) * b_stride + j + 16 <= b_len,
{
    assert(i + 16 <= m_bound);
    assert(j + 16 <= n_bound);
    assert(kk + 64 <= k_bound);
    assert((i + 15) * c_stride <= (m - 1) * c_stride);
    assert((i + 15) * a_stride <= (m - 1) * a_stride);
    assert((kk + 63) * b_stride <= (k - 1) * b_stride);
    assert(j + 16 <= n);
}

} // verus!
