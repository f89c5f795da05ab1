//! Signed 8-bit tile products accumulated in wrapping 32-bit integers.
//!
//! A tile product adds, to each entry `(i, j)` of an `M x N` accumulator
//! tile, the dot product of row `i` of an `M x K` tile of `a` with column `j`
//! of a `K x N` tile of `b`; every operand is addressed through its own row
//! stride. All accumulation wraps modulo 2^32, so any summation order gives
//! the same bits.

use vstd::prelude::*;
use vstd::arithmetic::div_mod::{lemma_fundamental_div_mod, lemma_mod_multiples_vanish};
use crate::arch::{Avx512, AvxVnni, Scalar};

verus! {

/// `x` reduced to a two's-complement 32-bit integer.
pub open spec fn wrap32(x: int) -> i32 {
    let m = x % 0x1_0000_0000;
    if m > 0x7FFF_FFFF { (m - 0x1_0000_0000) as i32 } else { m as i32 }
}

pub(crate) proof fn lemma_wrap32_congruent(x: int, y: int, k: int)
    requires
        x == y + k * 0x1_0000_0000,
    ensures
        wrap32(x) == wrap32(y),
{
    lemma_mod_multiples_vanish(k, y, 0x1_0000_0000);
    assert(x == 0x1_0000_0000 * k + y) by (nonlinear_arith)
        requires x == y + k * 0x1_0000_0000;
}

pub(crate) proof fn lemma_wrap32_small(x: int)
    requires
        i32::MIN <= x <= i32::MAX,
    ensures
        wrap32(x) == x,
{
    if x < 0 {
        lemma_mod_multiples_vanish(1, x, 0x1_0000_0000);
    }
}

/// Reducing part way through a sum does not change the reduced sum.
pub(crate) proof fn lemma_wrap32_absorbs(x: int, y: int)
    ensures
        wrap32(wrap32(x) + y) == wrap32(x + y),
{
    lemma_fundamental_div_mod(x, 0x1_0000_0000);
    let q = x / 0x1_0000_0000;
    let m = x % 0x1_0000_0000;
    if m > 0x7FFF_FFFF {
        lemma_wrap32_congruent(x + y, wrap32(x) + y, q + 1);
    } else {
        lemma_wrap32_congruent(x + y, wrap32(x) + y, q);
    }
}

/// `wrapping_add` on `i32` is addition reduced to 32 bits.
pub(crate) proof fn lemma_wrapping_add(x: i32, y: i32)
    ensures
        x.wrapping_add(y) == wrap32(x + y),
{
    let s = x + y;
    if s > i32::MAX {
        lemma_wrap32_congruent(s, s - 0x1_0000_0000, 1);
        lemma_wrap32_small(s - 0x1_0000_0000);
    } else if s < i32::MIN {
        lemma_wrap32_congruent(s, s + 0x1_0000_0000, -1);
        lemma_wrap32_small(s + 0x1_0000_0000);
    } else {
        lemma_wrap32_small(s);
    }
}

/// `wrapping_sub` on `i32` is subtraction reduced to 32 bits.
proof fn lemma_wrapping_sub(x: i32, y: i32)
    ensures
        x.wrapping_sub(y) == wrap32(x - y),
{
    let s = x - y;
    if s > i32::MAX {
        lemma_wrap32_congruent(s, s - 0x1_0000_0000, 1);
        lemma_wrap32_small(s - 0x1_0000_0000);
    } else if s < i32::MIN {
        lemma_wrap32_congruent(s, s + 0x1_0000_0000, -1);
        lemma_wrap32_small(s + 0x1_0000_0000);
    } else {
        lemma_wrap32_small(s);
    }
}

/// Where entry `(i, j)` of a tile with row stride `stride` lives.
pub open spec fn tile_index(stride: int, i: int, j: int) -> int {
    i * stride + j
}

/// Entry `(i, j)` of the tile held in `s` with row stride `stride`.
pub open spec fn tile_at<T>(s: Seq<T>, stride: int, i: int, j: int) -> T {
    s[tile_index(stride, i, j)]
}

/// Position `p` holds an entry of the `m x n` tile with row stride `stride`.
pub open spec fn in_tile(p: int, stride: int, m: int, n: int) -> bool {
    exists|i: int, j: int| 0 <= i < m && 0 <= j < n && #[trigger] tile_index(stride, i, j) == p
}

/// The dot product of row `i` of `a` with column `j` of `b` over the first
/// `k` depth positions.
pub open spec fn tile_dot(a: Seq<i8>, a_stride: int, b: Seq<i8>, b_stride: int, i: int, j: int, k: nat) -> int
    decreases k,
{
    if k == 0 {
        0
    } else {
        tile_dot(a, a_stride, b, b_stride, i, j, (k - 1) as nat)
            + (tile_at(a, a_stride, i, k - 1) as int) * (tile_at(b, b_stride, k - 1, j) as int)
    }
}

/// The `a` tile extends `m` rows of `k` entries with row stride `stride`
/// inside a sequence of length `len`.
pub open spec fn tile_fits(len: int, stride: int, m: int, k: int) -> bool {
    m == 0 || k == 0 || (m - 1) * stride + k <= len
}

/// The accumulator tile after the product: every entry gains its wrapping
/// dot product, and every position outside the tile is unchanged.
pub open spec fn tile_product(
    c0: Seq<i32>,
    c: Seq<i32>,
    c_stride: int,
    a: Seq<i8>,
    a_stride: int,
    b: Seq<i8>,
    b_stride: int,
    m: int,
    n: int,
    k: nat,
) -> bool {
    &&& c.len() == c0.len()
    &&& forall|i: int, j: int| 0 <= i < m && 0 <= j < n ==> #[trigger] tile_at(c, c_stride, i, j)
        == wrap32(tile_at(c0, c_stride, i, j) + tile_dot(a, a_stride, b, b_stride, i, j, k))
    &&& forall|p: int| 0 <= p < c.len() && !in_tile(p, c_stride, m, n) ==> #[trigger] c[p] == c0[p]
}

pub(crate) proof fn lemma_tile_position(stride: int, i: int, j: int, m: int, n: int, len: int)
    by (nonlinear_arith)
    requires
        0 <= i < m,
        0 <= j < n,
        (m - 1) * stride + n <= len,
        stride >= 0,
    ensures
        0 <= i * stride,
        0 <= i * stride + j < len,
{
    assert(i * stride <= (m - 1) * stride);
}

pub(crate) proof fn lemma_tile_positions_distinct(stride: int, i: int, j: int, i2: int, j2: int, n: int)
    by (nonlinear_arith)
    requires
        0 <= j < n,
        0 <= j2 < n,
        n <= stride,
        i * stride + j == i2 * stride + j2,
    ensures
        i == i2,
        j == j2,
{
    if i < i2 {
        assert(i * stride + stride <= i2 * stride);
    } else if i2 < i {
        assert(i2 * stride + stride <= i * stride);
    }
}

impl Scalar {
    /// Adds to each entry of the `M x N` accumulator tile of `c` the dot
    /// product of the matching row of the `M x K` tile of `a` and column of
    /// the `K x N` tile of `b`, in wrapping 32-bit arithmetic.
    pub fn tile_matmul<const M: usize, const N: usize, const K: usize>(
        c: &mut [i32],
        c_stride: usize,
        a: &[i8],
        a_stride: usize,
        b: &[i8],
        b_stride: usize,
    )
        requires
            tile_fits(old(c)@.len() as int, c_stride as int, M as int, N as int),
            M <= 1 || N <= c_stride,
            tile_fits(a@.len() as int, a_stride as int, M as int, K as int),
            tile_fits(b@.len() as int, b_stride as int, K as int, N as int),
        ensures
            tile_product(old(c)@, final(c)@, c_stride as int, a@, a_stride as int, b@, b_stride as int,
                M as int, N as int, K as nat),
    {
        let ghost c0 = c@;
        proof {
            assert(c0.len() <= usize::MAX && a@.len() <= usize::MAX && b@.len() <= usize::MAX) by {
                let (lc, la, lb) = (c.len(), a.len(), b.len());
            }
        }
        let mut i: usize = 0;
        while i < M
            invariant
                i <= M,
                c@.len() == c0.len(),
                tile_fits(c0.len() as int, c_stride as int, M as int, N as int),
                M <= 1 || N <= c_stride,
                tile_fits(a@.len() as int, a_stride as int, M as int, K as int),
                tile_fits(b@.len() as int, b_stride as int, K as int, N as int),
                c0.len() <= usize::MAX && a@.len() <= usize::MAX && b@.len() <= usize::MAX,
                forall|i2: int, j2: int| 0 <= i2 < M && 0 <= j2 < N ==> #[trigger] tile_at(c@, c_stride as int, i2, j2)
                    == if i2 < i {
                        wrap32(tile_at(c0, c_stride as int, i2, j2) + tile_dot(a@, a_stride as int, b@, b_stride as int, i2, j2, K as nat))
                    } else {
                        tile_at(c0, c_stride as int, i2, j2)
                    },
                forall|p: int| 0 <= p < c@.len() && !in_tile(p, c_stride as int, M as int, N as int) ==> #[trigger] c@[p] == c0[p],
            decreases M - i,
        {
            let mut j: usize = 0;
            while j < N
                invariant
                    i < M,
                    j <= N,
                    c@.len() == c0.len(),
                    tile_fits(c0.len() as int, c_stride as int, M as int, N as int),
                    M <= 1 || N <= c_stride,
                    tile_fits(a@.len() as int, a_stride as int, M as int, K as int),
                    tile_fits(b@.len() as int, b_stride as int, K as int, N as int),
                    c0.len() <= usize::MAX && a@.len() <= usize::MAX && b@.len() <= usize::MAX,
                    forall|i2: int, j2: int| 0 <= i2 < M && 0 <= j2 < N ==> #[trigger] tile_at(c@, c_stride as int, i2, j2)
                        == if i2 < i || (i2 == i && j2 < j) {
                            wrap32(tile_at(c0, c_stride as int, i2, j2) + tile_dot(a@, a_stride as int, b@, b_stride as int, i2, j2, K as nat))
                        } else {
                            tile_at(c0, c_stride as int, i2, j2)
                        },
                    forall|p: int| 0 <= p < c@.len() && !in_tile(p, c_stride as int, M as int, N as int) ==> #[trigger] c@[p] == c0[p],
                decreases N - j,
            {
                proof {
                    lemma_tile_position(c_stride as int, i as int, j as int, M as int, N as int, c0.len() as int);
                }
                let position = i * c_stride + j;
                let mut sum = c[position];
                proof {
                    assert(tile_at(c@, c_stride as int, i as int, j as int) == c@[position as int]);
                    lemma_wrap32_small(tile_at(c0, c_stride as int, i as int, j as int) as int);
                }
                let mut k: usize = 0;
                while k < K
                    invariant
                        i < M,
                        j < N,
                        k <= K,
                        tile_fits(a@.len() as int, a_stride as int, M as int, K as int),
                        tile_fits(b@.len() as int, b_stride as int, K as int, N as int),
                        a@.len() <= usize::MAX && b@.len() <= usize::MAX,
                        sum == wrap32(tile_at(c0, c_stride as int, i as int, j as int)
                            + tile_dot(a@, a_stride as int, b@, b_stride as int, i as int, j as int, k as nat)),
                    decreases K - k,
                {
                    proof {
                        lemma_tile_position(a_stride as int, i as int, k as int, M as int, K as int, a@.len() as int);
                        lemma_tile_position(b_stride as int, k as int, j as int, K as int, N as int, b@.len() as int);
                    }
                    let val_a = a[i * a_stride + k] as i32;
                    let val_b = b[k * b_stride + j] as i32;
                    assert(-16384 <= val_a * val_b <= 16384) by (nonlinear_arith)
                        requires -128 <= val_a <= 127, -128 <= val_b <= 127;
                    proof {
                        lemma_wrapping_add(sum, (val_a * val_b) as i32);
                        lemma_wrap32_absorbs(tile_at(c0, c_stride as int, i as int, j as int)
                            + tile_dot(a@, a_stride as int, b@, b_stride as int, i as int, j as int, k as nat), val_a * val_b);
                    }
                    sum = sum.wrapping_add(val_a * val_b);
                    k += 1;
                }
                let ghost before = c@;
                assert(forall|i2: int, j2: int| 0 <= i2 < M && 0 <= j2 < N ==> #[trigger] tile_at(before, c_stride as int, i2, j2)
                    == if i2 < i || (i2 == i && j2 < j) {
                        wrap32(tile_at(c0, c_stride as int, i2, j2) + tile_dot(a@, a_stride as int, b@, b_stride as int, i2, j2, K as nat))
                    } else {
                        tile_at(c0, c_stride as int, i2, j2)
                    });
                c[position] = sum;
                proof {
                    assert forall|i2: int, j2: int| 0 <= i2 < M && 0 <= j2 < N implies #[trigger] tile_at(c@, c_stride as int, i2, j2)
                        == if i2 < i || (i2 == i && j2 < j + 1) {
                            wrap32(tile_at(c0, c_stride as int, i2, j2) + tile_dot(a@, a_stride as int, b@, b_stride as int, i2, j2, K as nat))
                        } else {
                            tile_at(c0, c_stride as int, i2, j2)
                        } by {
                        lemma_tile_position(c_stride as int, i2, j2, M as int, N as int, c0.len() as int);
                        assert(tile_at(before, c_stride as int, i2, j2) == tile_at(before, c_stride as int, i2, j2));
                        if i2 != i && tile_index(c_stride as int, i2, j2) == position as int {
                            lemma_tile_positions_distinct(c_stride as int, i as int, j as int, i2, j2, N as int);
                        }
                        if i2 == i && j2 == j {
                            assert(tile_at(c@, c_stride as int, i2, j2) == sum);
                        } else {
                            assert(tile_index(c_stride as int, i2, j2) != position as int);
                            assert(tile_at(c@, c_stride as int, i2, j2) == tile_at(before, c_stride as int, i2, j2));
                        }
                    }
                    assert forall|p: int| 0 <= p < c@.len() && !in_tile(p, c_stride as int, M as int, N as int)
                        implies #[trigger] c@[p] == c0[p] by {
                        assert(tile_index(c_stride as int, i as int, j as int) == position);
                        assert(before[p] == c0[p]);
                    }
                }
                j += 1;
            }
            i += 1;
        }
    }
}

/// A tile product is determined by its inputs: two accumulators that are
/// both the product of the same start and operands are equal. Every kernel
/// whose contract is `tile_product` therefore gives the same bits.
pub proof fn lemma_tile_product_unique(
    c0: Seq<i32>,
    c1: Seq<i32>,
    c2: Seq<i32>,
    c_stride: int,
    a: Seq<i8>,
    a_stride: int,
    b: Seq<i8>,
    b_stride: int,
    m: int,
    n: int,
    k: nat,
)
    requires
        tile_product(c0, c1, c_stride, a, a_stride, b, b_stride, m, n, k),
        tile_product(c0, c2, c_stride, a, a_stride, b, b_stride, m, n, k),
    ensures
        c1 == c2,
{
    assert forall|p: int| 0 <= p < c1.len() implies c1[p] == c2[p] by {
        if in_tile(p, c_stride, m, n) {
            let (i, j) = choose|i: int, j: int| 0 <= i < m && 0 <= j < n && #[trigger] tile_index(c_stride, i, j) == p;
            assert(tile_at(c1, c_stride, i, j) == tile_at(c2, c_stride, i, j));
        } else {
            assert(c1[p] == c0[p]);
            assert(c2[p] == c0[p]);
        }
    }
    assert(c1 =~= c2);
}

/// Subtracting a reduced value reduces like subtracting the value.
proof fn lemma_wrap32_sub_absorbs(x: int, y: int)
    ensures
        wrap32(x - wrap32(y)) == wrap32(x - y),
{
    lemma_fundamental_div_mod(y, 0x1_0000_0000);
    let q = y / 0x1_0000_0000;
    let m = y % 0x1_0000_0000;
    if m > 0x7FFF_FFFF {
        lemma_wrap32_congruent(x - wrap32(y), x - y, q + 1);
    } else {
        lemma_wrap32_congruent(x - wrap32(y), x - y, q);
    }
}

/// The dot product with row `i` of `a` biased by 128 to unsigned bytes.
pub open spec fn biased_dot(a: Seq<i8>, a_stride: int, b: Seq<i8>, b_stride: int, i: int, j: int, k: nat) -> int
    decreases k,
{
    if k == 0 {
        0
    } else {
        biased_dot(a, a_stride, b, b_stride, i, j, (k - 1) as nat)
            + (tile_at(a, a_stride, i, k - 1) as int + 128) * (tile_at(b, b_stride, k - 1, j) as int)
    }
}

/// The correction for the bias: 128 times the sum of column `j` of `b`.
pub open spec fn column_bias(b: Seq<i8>, b_stride: int, j: int, k: nat) -> int
    decreases k,
{
    if k == 0 {
        0
    } else {
        column_bias(b, b_stride, j, (k - 1) as nat) + 128 * (tile_at(b, b_stride, k - 1, j) as int)
    }
}

/// The biased dot product exceeds the signed one by exactly the column
/// correction: `sum (a + 128) b = sum a b + 128 sum b`.
pub proof fn lemma_bias_identity(a: Seq<i8>, a_stride: int, b: Seq<i8>, b_stride: int, i: int, j: int, k: nat)
    ensures
        biased_dot(a, a_stride, b, b_stride, i, j, k)
            == tile_dot(a, a_stride, b, b_stride, i, j, k) + column_bias(b, b_stride, j, k),
    decreases k,
{
    if k > 0 {
        lemma_bias_identity(a, a_stride, b, b_stride, i, j, (k - 1) as nat);
        let x = tile_at(a, a_stride, i, k - 1) as int;
        let y = tile_at(b, b_stride, k - 1, j) as int;
        assert((x + 128) * y == x * y + 128 * y) by (nonlinear_arith);
    }
}

/// The biased product, reduced, minus the reduced correction, reduced, is
/// the signed product reduced: the unsigned-by-signed route gives the same
/// bits as the signed one.
pub proof fn lemma_bias_correction_exact(c: i32, a: Seq<i8>, a_stride: int, b: Seq<i8>, b_stride: int, i: int, j: int, k: nat)
    ensures
        wrap32(wrap32(c + biased_dot(a, a_stride, b, b_stride, i, j, k)) - wrap32(column_bias(b, b_stride, j, k)))
            == wrap32(c + tile_dot(a, a_stride, b, b_stride, i, j, k)),
{
    let bd = biased_dot(a, a_stride, b, b_stride, i, j, k);
    let cb = column_bias(b, b_stride, j, k);
    lemma_bias_identity(a, a_stride, b, b_stride, i, j, k);
    lemma_wrap32_sub_absorbs(wrap32(c + bd) as int, cb);
    lemma_wrap32_absorbs(c + bd, -cb);
}

/// A signed byte XOR 0x80, read as an unsigned byte, is the byte plus 128.
proof fn lemma_sign_flip(x: i8)
    by (bit_vector)
    ensures
        ((x as u8) ^ 0x80u8) as int == (x as int) + 128,
{
}

/// The tile product computed the way the VNNI kernels do: each byte of `a`
/// is flipped to the unsigned `a + 128`, the unsigned-by-signed products are
/// accumulated, and `128 * sum_k b[k][j]`, accumulated once per column, is
/// subtracted at the end.
fn tile_matmul_i8<const M: usize, const N: usize, const K: usize>(
    c: &mut [i32],
    c_stride: usize,
    a: &[i8],
    a_stride: usize,
    b: &[i8],
    b_stride: usize,
)
    requires
        tile_fits(old(c)@.len() as int, c_stride as int, M as int, N as int),
        M <= 1 || N <= c_stride,
        tile_fits(a@.len() as int, a_stride as int, M as int, K as int),
        tile_fits(b@.len() as int, b_stride as int, K as int, N as int),
    ensures
        tile_product(old(c)@, final(c)@, c_stride as int, a@, a_stride as int, b@, b_stride as int,
            M as int, N as int, K as nat),
{
    let ghost c0 = c@;
    proof {
        assert(c0.len() <= usize::MAX && a@.len() <= usize::MAX && b@.len() <= usize::MAX) by {
            let (lc, la, lb) = (c.len(), a.len(), b.len());
        }
    }
    let mut bias: Vec<i32> = Vec::new();
    let mut j: usize = 0;
    while j < N
        invariant
            j <= N,
            bias@.len() == j,
            tile_fits(b@.len() as int, b_stride as int, K as int, N as int),
            b@.len() <= usize::MAX,
            forall|j2: int| 0 <= j2 < j ==> #[trigger] bias@[j2] == wrap32(column_bias(b@, b_stride as int, j2, K as nat)),
        decreases N - j,
    {
        let mut acc: i32 = 0;
        let mut k: usize = 0;
        while k < K
            invariant
                j < N,
                k <= K,
                tile_fits(b@.len() as int, b_stride as int, K as int, N as int),
                b@.len() <= usize::MAX,
                acc == wrap32(column_bias(b@, b_stride as int, j as int, k as nat)),
            decreases K - k,
        {
            proof {
                lemma_tile_position(b_stride as int, k as int, j as int, K as int, N as int, b@.len() as int);
            }
            let term = 128i32 * (b[k * b_stride + j] as i32);
            proof {
                lemma_wrapping_add(acc, term);
                lemma_wrap32_absorbs(column_bias(b@, b_stride as int, j as int, k as nat), term as int);
            }
            acc = acc.wrapping_add(term);
            k += 1;
        }
        bias.push(acc);
        j += 1;
    }
    let mut i: usize = 0;
    while i < M
        invariant
            i <= M,
            c@.len() == c0.len(),
            bias@.len() == N,
            forall|j2: int| 0 <= j2 < N ==> #[trigger] bias@[j2] == wrap32(column_bias(b@, b_stride as int, j2, K as nat)),
            tile_fits(c0.len() as int, c_stride as int, M as int, N as int),
            M <= 1 || N <= c_stride,
            tile_fits(a@.len() as int, a_stride as int, M as int, K as int),
            tile_fits(b@.len() as int, b_stride as int, K as int, N as int),
            c0.len() <= usize::MAX && a@.len() <= usize::MAX && b@.len() <= usize::MAX,
            forall|i2: int, j2: int| 0 <= i2 < M && 0 <= j2 < N ==> #[trigger] tile_at(c@, c_stride as int, i2, j2)
                == if i2 < i {
                    wrap32(tile_at(c0, c_stride as int, i2, j2) + tile_dot(a@, a_stride as int, b@, b_stride as int, i2, j2, K as nat))
                } else {
                    tile_at(c0, c_stride as int, i2, j2)
                },
            forall|p: int| 0 <= p < c@.len() && !in_tile(p, c_stride as int, M as int, N as int) ==> #[trigger] c@[p] == c0[p],
        decreases M - i,
    {
        let mut j: usize = 0;
        while j < N
            invariant
                i < M,
                j <= N,
                c@.len() == c0.len(),
                bias@.len() == N,
                forall|j2: int| 0 <= j2 < N ==> #[trigger] bias@[j2] == wrap32(column_bias(b@, b_stride as int, j2, K as nat)),
                tile_fits(c0.len() as int, c_stride as int, M as int, N as int),
                M <= 1 || N <= c_stride,
                tile_fits(a@.len() as int, a_stride as int, M as int, K as int),
                tile_fits(b@.len() as int, b_stride as int, K as int, N as int),
                c0.len() <= usize::MAX && a@.len() <= usize::MAX && b@.len() <= usize::MAX,
                forall|i2: int, j2: int| 0 <= i2 < M && 0 <= j2 < N ==> #[trigger] tile_at(c@, c_stride as int, i2, j2)
                    == if i2 < i || (i2 == i && j2 < j) {
                        wrap32(tile_at(c0, c_stride as int, i2, j2) + tile_dot(a@, a_stride as int, b@, b_stride as int, i2, j2, K as nat))
                    } else {
                        tile_at(c0, c_stride as int, i2, j2)
                    },
                forall|p: int| 0 <= p < c@.len() && !in_tile(p, c_stride as int, M as int, N as int) ==> #[trigger] c@[p] == c0[p],
            decreases N - j,
        {
            proof {
                lemma_tile_position(c_stride as int, i as int, j as int, M as int, N as int, c0.len() as int);
            }
            let position = i * c_stride + j;
            let mut acc = c[position];
            proof {
                assert(tile_at(c@, c_stride as int, i as int, j as int) == c@[position as int]);
                lemma_wrap32_small(tile_at(c0, c_stride as int, i as int, j as int) as int);
            }
            let mut k: usize = 0;
            while k < K
                invariant
                    i < M,
                    j < N,
                    k <= K,
                    tile_fits(a@.len() as int, a_stride as int, M as int, K as int),
                    tile_fits(b@.len() as int, b_stride as int, K as int, N as int),
                    a@.len() <= usize::MAX && b@.len() <= usize::MAX,
                    acc == wrap32(tile_at(c0, c_stride as int, i as int, j as int)
                        + biased_dot(a@, a_stride as int, b@, b_stride as int, i as int, j as int, k as nat)),
                decreases K - k,
            {
                proof {
                    lemma_tile_position(a_stride as int, i as int, k as int, M as int, K as int, a@.len() as int);
                    lemma_tile_position(b_stride as int, k as int, j as int, K as int, N as int, b@.len() as int);
                }
                let a_byte = a[i * a_stride + k];
                let a_unsigned = ((a_byte as u8) ^ 0x80u8) as i32;
                let val_b = b[k * b_stride + j] as i32;
                proof {
                    lemma_sign_flip(a_byte);
                }
                assert(-32768 <= a_unsigned * val_b <= 32768) by (nonlinear_arith)
                    requires 0 <= a_unsigned <= 255, -128 <= val_b <= 127;
                proof {
                    lemma_wrapping_add(acc, (a_unsigned * val_b) as i32);
                    lemma_wrap32_absorbs(tile_at(c0, c_stride as int, i as int, j as int)
                        + biased_dot(a@, a_stride as int, b@, b_stride as int, i as int, j as int, k as nat), a_unsigned * val_b);
                }
                acc = acc.wrapping_add(a_unsigned * val_b);
                k += 1;
            }
            let correction = bias[j];
            proof {
                lemma_wrapping_sub(acc, correction);
                lemma_bias_correction_exact(tile_at(c0, c_stride as int, i as int, j as int), a@, a_stride as int, b@,
                    b_stride as int, i as int, j as int, K as nat);
            }
            let corrected = acc.wrapping_sub(correction);
            let ghost before = c@;
            assert(forall|i2: int, j2: int| 0 <= i2 < M && 0 <= j2 < N ==> #[trigger] tile_at(before, c_stride as int, i2, j2)
                == if i2 < i || (i2 == i && j2 < j) {
                    wrap32(tile_at(c0, c_stride as int, i2, j2) + tile_dot(a@, a_stride as int, b@, b_stride as int, i2, j2, K as nat))
                } else {
                    tile_at(c0, c_stride as int, i2, j2)
                });
            c[position] = corrected;
            proof {
                assert forall|i2: int, j2: int| 0 <= i2 < M && 0 <= j2 < N implies #[trigger] tile_at(c@, c_stride as int, i2, j2)
                    == if i2 < i || (i2 == i && j2 < j + 1) {
                        wrap32(tile_at(c0, c_stride as int, i2, j2) + tile_dot(a@, a_stride as int, b@, b_stride as int, i2, j2, K as nat))
                    } else {
                        tile_at(c0, c_stride as int, i2, j2)
                    } by {
                    lemma_tile_position(c_stride as int, i2, j2, M as int, N as int, c0.len() as int);
                    assert(tile_at(before, c_stride as int, i2, j2) == tile_at(before, c_stride as int, i2, j2));
                    if i2 != i && tile_index(c_stride as int, i2, j2) == position as int {
                        lemma_tile_positions_distinct(c_stride as int, i as int, j as int, i2, j2, N as int);
                    }
                    if i2 == i && j2 == j {
                        assert(tile_at(c@, c_stride as int, i2, j2) == corrected);
                    } else {
                        assert(tile_index(c_stride as int, i2, j2) != position as int);
                        assert(tile_at(c@, c_stride as int, i2, j2) == tile_at(before, c_stride as int, i2, j2));
                    }
                }
                assert forall|p: int| 0 <= p < c@.len() && !in_tile(p, c_stride as int, M as int, N as int)
                    implies #[trigger] c@[p] == c0[p] by {
                    assert(tile_index(c_stride as int, i as int, j as int) == position);
                    assert(before[p] == c0[p]);
                }
            }
            j += 1;
        }
        i += 1;
    }
}

impl Avx512 {
    /// The 16 x 16 x 64 signed 8-bit tile product of the AVX-512 VNNI
    /// kernel, through its unsigned-by-signed dot products with the bias
    /// correction.
    pub fn tile_matmul(c: &mut [i32], c_stride: usize, a: &[i8], a_stride: usize, b: &[i8], b_stride: usize)
        requires
            tile_fits(old(c)@.len() as int, c_stride as int, 16, 16),
            16 <= c_stride,
            tile_fits(a@.len() as int, a_stride as int, 16, 64),
            tile_fits(b@.len() as int, b_stride as int, 64, 16),
        ensures
            tile_product(old(c)@, final(c)@, c_stride as int, a@, a_stride as int, b@, b_stride as int, 16, 16, 64),
    {
        tile_matmul_i8::<16, 16, 64>(c, c_stride, a, a_stride, b, b_stride);
    }
}

impl AvxVnni {
    /// The 16 x 16 x 64 signed 8-bit tile product of the 256-bit AVX-VNNI
    /// kernel, through its unsigned-by-signed dot products with the bias
    /// correction.
    pub fn tile_matmul(c: &mut [i32], c_stride: usize, a: &[i8], a_stride: usize, b: &[i8], b_stride: usize)
        requires
            tile_fits(old(c)@.len() as int, c_stride as int, 16, 16),
            16 <= c_stride,
            tile_fits(a@.len() as int, a_stride as int, 16, 64),
            tile_fits(b@.len() as int, b_stride as int, 64, 16),
        ensures
            tile_product(old(c)@, final(c)@, c_stride as int, a@, a_stride as int, b@, b_stride as int, 16, 16, 64),
    {
        tile_matmul_i8::<16, 16, 64>(c, c_stride, a, a_stride, b, b_stride);
    }
}

/// The signed value of the low four bits of `b`.
pub open spec fn low_nibble(b: u8) -> int {
    let v = (b % 16) as int;
    if v >= 8 { v - 16 } else { v }
}

/// The signed value of the high four bits of `b`.
pub open spec fn high_nibble(b: u8) -> int {
    let v = (b / 16) as int;
    if v >= 8 { v - 16 } else { v }
}

proof fn lemma_nibbles(b: u8)
    by (bit_vector)
    ensures
        ((((b as i8) << 4u32) >> 4u32) as int) == (if b % 16 >= 8 { (b % 16) as int - 16 } else { (b % 16) as int }),
        (((b as i8) >> 4u32) as int) == (if b / 16 >= 8 { (b / 16) as int - 16 } else { (b / 16) as int }),
        b & 0x0Fu8 == b % 16,
        (b >> 4u8) & 0x0Fu8 == b / 16,
{
}

/// Unpacks signed 4-bit integers stored two per byte, low nibble first,
/// into one signed byte each.
pub fn unpack_int4(packed: &[u8], unpacked: &mut [i8])
    requires
        old(unpacked)@.len() >= 2 * packed@.len(),
    ensures
        final(unpacked)@.len() == old(unpacked)@.len(),
        forall|i: int| 0 <= i < packed@.len() ==> #[trigger] final(unpacked)@[2 * i] == low_nibble(packed@[i]),
        forall|i: int| 0 <= i < packed@.len() ==> #[trigger] final(unpacked)@[2 * i + 1] == high_nibble(packed@[i]),
        forall|p: int| 2 * packed@.len() <= p < old(unpacked)@.len() ==> #[trigger] final(unpacked)@[p] == old(unpacked)@[p],
{
    unpack_int4_scalar(packed, unpacked);
}

/// Sign-extends every nibble with two arithmetic shifts of its byte.
fn unpack_int4_scalar(packed: &[u8], unpacked: &mut [i8])
    requires
        old(unpacked)@.len() >= 2 * packed@.len(),
    ensures
        final(unpacked)@.len() == old(unpacked)@.len(),
        forall|i: int| 0 <= i < packed@.len() ==> #[trigger] final(unpacked)@[2 * i] == low_nibble(packed@[i]),
        forall|i: int| 0 <= i < packed@.len() ==> #[trigger] final(unpacked)@[2 * i + 1] == high_nibble(packed@[i]),
        forall|p: int| 2 * packed@.len() <= p < old(unpacked)@.len() ==> #[trigger] final(unpacked)@[p] == old(unpacked)@[p],
{
    let len = packed.len();
    let ghost u0 = unpacked@;
    proof {
        assert(u0.len() <= usize::MAX) by {
            let n = unpacked.len();
        }
    }
    let mut i: usize = 0;
    while i < len
        invariant
            i <= len,
            len == packed@.len(),
            unpacked@.len() == u0.len(),
            u0.len() >= 2 * len,
            u0.len() <= usize::MAX,
            forall|i2: int| 0 <= i2 < i ==> #[trigger] unpacked@[2 * i2] == low_nibble(packed@[i2]),
            forall|i2: int| 0 <= i2 < i ==> #[trigger] unpacked@[2 * i2 + 1] == high_nibble(packed@[i2]),
            forall|p: int| 2 * i <= p < u0.len() ==> #[trigger] unpacked@[p] == u0[p],
        decreases len - i,
    {
        let byte = packed[i] as i8;
        proof {
            lemma_nibbles(packed@[i as int]);
        }
        unpacked[2 * i] = (byte << 4u32) >> 4u32;
        unpacked[2 * i + 1] = byte >> 4u32;
        i += 1;
    }
}

/// Unpacks signed 4-bit integers as the AVX2 kernel does: 32 bytes at a
/// time, each nibble masked out and looked up in a table of the sixteen
/// signed values, the low and high results interleaved; the bytes after the
/// last whole block are sign-extended by shifts.
pub fn unpack_int4_avx2(packed: &[u8], unpacked: &mut [i8])
    requires
        old(unpacked)@.len() >= 2 * packed@.len(),
    ensures
        final(unpacked)@.len() == old(unpacked)@.len(),
        forall|i: int| 0 <= i < packed@.len() ==> #[trigger] final(unpacked)@[2 * i] == low_nibble(packed@[i]),
        forall|i: int| 0 <= i < packed@.len() ==> #[trigger] final(unpacked)@[2 * i + 1] == high_nibble(packed@[i]),
        forall|p: int| 2 * packed@.len() <= p < old(unpacked)@.len() ==> #[trigger] final(unpacked)@[p] == old(unpacked)@[p],
{
    let len = packed.len();
    let ghost u0 = unpacked@;
    proof {
        assert(u0.len() <= usize::MAX) by {
            let n = unpacked.len();
        }
    }
    let lookup: [i8; 16] = [0, 1, 2, 3, 4, 5, 6, 7, -8, -7, -6, -5, -4, -3, -2, -1];
    proof {
        assert forall|n: int| 0 <= n < 16 implies #[trigger] lookup@[n] == (if n >= 8 { n - 16 } else { n }) by {
            if n < 4 {
            } else if n < 8 {
            } else if n < 12 {
            } else {
            }
        }
    }
    let mut i: usize = 0;
    while i + 32 <= len
        invariant
            i <= len,
            len == packed@.len(),
            unpacked@.len() == u0.len(),
            u0.len() >= 2 * len,
            u0.len() <= usize::MAX,
            forall|n: int| 0 <= n < 16 ==> #[trigger] lookup@[n] == (if n >= 8 { n - 16 } else { n }),
            forall|i2: int| 0 <= i2 < i ==> #[trigger] unpacked@[2 * i2] == low_nibble(packed@[i2]),
            forall|i2: int| 0 <= i2 < i ==> #[trigger] unpacked@[2 * i2 + 1] == high_nibble(packed@[i2]),
            forall|p: int| 2 * i <= p < u0.len() ==> #[trigger] unpacked@[p] == u0[p],
        decreases len - i,
    {
        let mut j: usize = 0;
        while j < 32
            invariant
                j <= 32,
                i + 32 <= len,
                len == packed@.len(),
                unpacked@.len() == u0.len(),
                u0.len() >= 2 * len,
                u0.len() <= usize::MAX,
                forall|n: int| 0 <= n < 16 ==> #[trigger] lookup@[n] == (if n >= 8 { n - 16 } else { n }),
                forall|i2: int| 0 <= i2 < i + j ==> #[trigger] unpacked@[2 * i2] == low_nibble(packed@[i2]),
                forall|i2: int| 0 <= i2 < i + j ==> #[trigger] unpacked@[2 * i2 + 1] == high_nibble(packed@[i2]),
                forall|p: int| 2 * (i + j) <= p < u0.len() ==> #[trigger] unpacked@[p] == u0[p],
            decreases 32 - j,
        {
            let v = packed[i + j];
            let low = v & 0x0F;
            let high = (v >> 4u8) & 0x0F;
            proof {
                lemma_nibbles(v);
            }
            unpacked[2 * (i + j)] = lookup[low as usize];
            unpacked[2 * (i + j) + 1] = lookup[high as usize];
            j += 1;
        }
        i += 32;
    }
    while i < len
        invariant
            i <= len,
            len == packed@.len(),
            unpacked@.len() == u0.len(),
            u0.len() >= 2 * len,
            u0.len() <= usize::MAX,
            forall|i2: int| 0 <= i2 < i ==> #[trigger] unpacked@[2 * i2] == low_nibble(packed@[i2]),
            forall|i2: int| 0 <= i2 < i ==> #[trigger] unpacked@[2 * i2 + 1] == high_nibble(packed@[i2]),
            forall|p: int| 2 * i <= p < u0.len() ==> #[trigger] unpacked@[p] == u0[p],
        decreases len - i,
    {
        let byte = packed[i] as i8;
        proof {
            lemma_nibbles(packed@[i as int]);
        }
        unpacked[2 * i] = (byte << 4u32) >> 4u32;
        unpacked[2 * i + 1] = byte >> 4u32;
        i += 1;
    }
}

} // verus!
