//! Source text of the generated AVX2 and AVX-512 kernels: a template per
//! instruction set, whose placeholders are replaced by the names, intrinsics
//! and code fragments of one element type.

pub mod laws;

use vstd::prelude::*;
use crate::codegen::laws::{
    begins_with, lemma_substitute_occurrence, no_placeholder, placeholder_like, placeholders_from,
    prefix_as_long_as, starts_placeholder, substitute_from,
};
use vstd::std_specs::iter::IteratorSpec;

verus! {

broadcast use {vstd::string::axiom_spec_iter, vstd::string::next_postcondition};

/// The characters of `s`.
fn chars_of(s: &str) -> (v: Vec<char>)
    ensures
        v@ == s@,
{
    let mut it = s.chars();
    let mut v: Vec<char> = Vec::new();
    loop
        invariant
            v@ + it.remaining() == s@,
            it.obeys_prophetic_iter_laws(),
            it.decrease() is Some,
        decreases it.decrease()->0,
    {
        match it.next() {
            Some(c) => {
                v.push(c);
                assert(v@ + it.remaining() =~= s@);
            },
            None => {
                assert(v@ =~= s@);
                return v;
            },
        }
    }
}

/// `s` with every occurrence of the non-empty `from` replaced by `to`,
/// scanning left to right without overlaps, as `str::replace` does.
pub open spec fn replace_spec(s: Seq<char>, from: Seq<char>, to: Seq<char>) -> Seq<char>
    decreases s.len(),
{
    if s.len() == 0 {
        Seq::empty()
    } else if 0 < from.len() <= s.len() && s.subrange(0, from.len() as int) == from {
        to + replace_spec(s.subrange(from.len() as int, s.len() as int), from, to)
    } else {
        seq![s[0]] + replace_spec(s.subrange(1, s.len() as int), from, to)
    }
}

/// Whether `from` occurs in `text` at position `at`.
fn occurs_at(text: &Vec<char>, from: &Vec<char>, at: usize) -> (r: bool)
    requires
        at <= text@.len(),
    ensures
        r == (from@.len() <= text@.len() - at && text@.subrange(at as int, at + from@.len()) == from@),
{
    if from.len() > text.len() - at {
        return false;
    }
    let text_len = text.len();
    let mut k: usize = 0;
    while k < from.len()
        invariant
            at + from@.len() <= text@.len(),
            text_len == text@.len(),
            k <= from@.len(),
            forall|q: int| 0 <= q < k ==> text@[at + q] == from@[q],
        decreases from@.len() - k,
    {
        if text[at + k] != from[k] {
            assert(text@.subrange(at as int, at + from@.len())[k as int] != from@[k as int]);
            return false;
        }
        k += 1;
    }
    assert(text@.subrange(at as int, at + from@.len()) =~= from@);
    true
}

/// `text` with every occurrence of the non-empty `from` replaced by `to`.
pub fn replace_all(text: &str, from: &str, to: &str) -> (r: String)
    requires
        from@.len() > 0,
    ensures
        r@ == replace_spec(text@, from@, to@),
{
    let t = chars_of(text);
    let f = chars_of(from);
    let n = t.len();
    let mut out = String::new();
    let mut i: usize = 0;
    proof {
        assert(t@.subrange(0, n as int) =~= t@);
    }
    while i < n
        invariant
            i <= n,
            n == t@.len(),
            t@ == text@,
            f@ == from@,
            f@.len() > 0,
            out@ + replace_spec(t@.subrange(i as int, n as int), f@, to@) == replace_spec(t@, f@, to@),
        decreases n - i,
    {
        let ghost rest = t@.subrange(i as int, n as int);
        if occurs_at(&t, &f, i) {
            proof {
                assert(rest.subrange(0, f@.len() as int) =~= t@.subrange(i as int, i + f@.len()));
                assert(rest.subrange(f@.len() as int, rest.len() as int) =~= t@.subrange(i + f@.len(), n as int));
                assert(out@ + to@ + replace_spec(t@.subrange(i + f@.len(), n as int), f@, to@)
                    =~= out@ + (to@ + replace_spec(t@.subrange(i + f@.len(), n as int), f@, to@)));
            }
            out.append(to);
            i += f.len();
        } else {
            let c = t[i];
            proof {
                if f@.len() <= rest.len() {
                    assert(rest.subrange(0, f@.len() as int) =~= t@.subrange(i as int, i + f@.len()));
                }
                assert(rest.subrange(1, rest.len() as int) =~= t@.subrange(i + 1, n as int));
                assert(out@.push(c) + replace_spec(t@.subrange(i + 1, n as int), f@, to@)
                    =~= out@ + (seq![c] + replace_spec(t@.subrange(i + 1, n as int), f@, to@)));
            }
            out.push(c);
            i += 1;
        }
    }
    proof {
        assert(t@.subrange(n as int, n as int) =~= Seq::<char>::empty());
    }
    out
}

/// The decimal digit `d`.
pub open spec fn digit_char(d: nat) -> char {
    ((48 + d) as u8) as char
}

/// `n` in decimal, without leading zeros, as `usize::to_string` writes it.
pub open spec fn decimal_spec(n: nat) -> Seq<char>
    decreases n,
{
    if n < 10 {
        seq![digit_char(n)]
    } else {
        decimal_spec(n / 10) + seq![digit_char(n % 10)]
    }
}

/// `n` in decimal, for a size.
pub open spec fn decimal_of(n: usize) -> Seq<char> {
    decimal_spec(n as nat)
}

/// `n` in decimal.
pub fn decimal(n: usize) -> (s: String)
    ensures
        s@ == decimal_spec(n as nat),
    decreases n,
{
    let d = (n % 10) as u8;
    let c = (48u8 + d) as char;
    if n < 10 {
        let mut s = String::new();
        s.push(c);
        proof {
            assert(s@ =~= seq![digit_char(n as nat)]);
        }
        s
    } else {
        let mut s = decimal(n / 10);
        s.push(c);
        proof {
            assert(s@ =~= decimal_spec((n / 10) as nat) + seq![digit_char((n % 10) as nat)]);
        }
        s
    }
}


/// The names, intrinsics and code fragments one element type fills a
/// kernel template with.
pub struct Param {
    pub scalar_type: &'static str,
    pub vector_type: &'static str,
    pub vector_underlying: &'static str,
    pub mask_type: &'static str,
    pub mask_underlying: &'static str,
    pub index_vector: &'static str,
    pub index_underlying: &'static str,
    pub lane_count: usize,
    pub scale: usize,
    pub prefix: &'static str,
    pub suffix: &'static str,
    pub suffix_upper: &'static str,
    pub permute_mask: &'static str,
    pub dup_even_code: &'static str,
    pub dup_odd_code: &'static str,
    pub sum_reduce_code: &'static str,
    pub recip_sqrt_code: &'static str,
    pub popcount_code: &'static str,
    pub cmp_eq_val: &'static str,
    pub cmp_ne_val: &'static str,
    pub cmp_lt_val: &'static str,
    pub cmp_le_val: &'static str,
    pub cmp_gt_val: &'static str,
    pub cmp_ge_val: &'static str,
    pub one_half_val: &'static str,
    pub three_val: &'static str,
}

/// The AVX2 kernel template.
pub const AVX2_TEMPLATE: &'static str = r#"//! AVX2 __SCALAR_TYPE__ hardware kernel.
//!
//! __LANE_COUNT__-lane __SCALAR_TYPE__ (`__VECTOR_UNDERLYING__`). Masked operations use `__PREFIX___blendv___SUFFIX__`
//! (blend-by-sign-bit). Gather uses native `__PREFIX___i32gather___SUFFIX__` (scale = __SCALE__).
//! Compress/expand are emulated via scalar loops — AVX2 has no native
//! `vcompress` instruction (that requires AVX-512F).

use crate::Avx2;
#[cfg(any(target_arch = "x86", target_arch = "x86_64"))]
use core::arch::x86_64::*;
use hermes_simd_core::kernel::SimdKernel;

/// Newtype over `__VECTOR_UNDERLYING__` so `Send + Sync` can be implemented on the wrapper.
#[cfg(any(target_arch = "x86", target_arch = "x86_64"))]
#[repr(transparent)]
#[derive(Copy, Clone)]
pub struct __VECTOR_TYPE__(pub __VECTOR_UNDERLYING__);

#[cfg(any(target_arch = "x86", target_arch = "x86_64"))]
unsafe impl Send for __VECTOR_TYPE__ {}
#[cfg(any(target_arch = "x86", target_arch = "x86_64"))]
unsafe impl Sync for __VECTOR_TYPE__ {}

/// AVX2 __SCALAR_TYPE__ blend mask.
///
/// Stored as a `__MASK_UNDERLYING__` register. Lane `i` is active when the sign bit
/// of `mask[i]` is set.
#[cfg(any(target_arch = "x86", target_arch = "x86_64"))]
#[repr(transparent)]
#[derive(Copy, Clone)]
pub struct __MASK_TYPE__(pub __MASK_UNDERLYING__);

#[cfg(any(target_arch = "x86", target_arch = "x86_64"))]
unsafe impl Send for __MASK_TYPE__ {}
#[cfg(any(target_arch = "x86", target_arch = "x86_64"))]
unsafe impl Sync for __MASK_TYPE__ {}

/// AVX2 gather index vector.
#[cfg(any(target_arch = "x86", target_arch = "x86_64"))]
#[repr(transparent)]
#[derive(Copy, Clone)]
pub struct __INDEX_VECTOR__(pub __INDEX_UNDERLYING__);

#[cfg(any(target_arch = "x86", target_arch = "x86_64"))]
unsafe impl Send for __INDEX_VECTOR__ {}
#[cfg(any(target_arch = "x86", target_arch = "x86_64"))]
unsafe impl Sync for __INDEX_VECTOR__ {}

#[cfg(any(target_arch = "x86", target_arch = "x86_64"))]
impl SimdKernel<__SCALAR_TYPE__> for Avx2 {
    type Vector = __VECTOR_TYPE__;
    type Mask = __MASK_TYPE__;
    type IndexVector = __INDEX_VECTOR__;
    const LANE_COUNT: usize = __LANE_COUNT__;
    const UNROLL_FACTOR: usize = 4;

    // -----------------------------------------------------------------------
    // Load / store
    // -----------------------------------------------------------------------

    #[target_feature(enable = "avx2")]
    #[inline]
    unsafe fn load_aligned(ptr: *const __SCALAR_TYPE__) -> Self::Vector {
        __VECTOR_TYPE__(__PREFIX___load___SUFFIX__(ptr))
    }

    #[target_feature(enable = "avx2")]
    #[inline]
    unsafe fn load_unaligned(ptr: *const __SCALAR_TYPE__) -> Self::Vector {
        __VECTOR_TYPE__(__PREFIX___loadu___SUFFIX__(ptr))
    }

    #[target_feature(enable = "avx2")]
    #[inline]
    unsafe fn store_aligned(ptr: *mut __SCALAR_TYPE__, val: Self::Vector) {
        __PREFIX___store___SUFFIX__(ptr, val.0);
    }

    #[target_feature(enable = "avx2")]
    #[inline]
    unsafe fn store_unaligned(ptr: *mut __SCALAR_TYPE__, val: Self::Vector) {
        __PREFIX___storeu___SUFFIX__(ptr, val.0);
    }

    // -----------------------------------------------------------------------
    // Arithmetic
    // -----------------------------------------------------------------------

    #[target_feature(enable = "avx2")]
    #[inline]
    unsafe fn add(a: Self::Vector, b: Self::Vector) -> Self::Vector {
        __VECTOR_TYPE__(__PREFIX___add___SUFFIX__(a.0, b.0))
    }

    #[target_feature(enable = "avx2")]
    #[inline]
    unsafe fn mul(a: Self::Vector, b: Self::Vector) -> Self::Vector {
        __VECTOR_TYPE__(__PREFIX___mul___SUFFIX__(a.0, b.0))
    }

    #[target_feature(enable = "avx2")]
    #[inline]
    unsafe fn sub(a: Self::Vector, b: Self::Vector) -> Self::Vector {
        __VECTOR_TYPE__(__PREFIX___sub___SUFFIX__(a.0, b.0))
    }

    /// FMA requires `avx2` + `fma` target features.
    #[target_feature(enable = "avx2,fma")]
    #[inline]
    unsafe fn fmadd(a: Self::Vector, b: Self::Vector, c: Self::Vector) -> Self::Vector {
        __VECTOR_TYPE__(__PREFIX___fmadd___SUFFIX__(a.0, b.0, c.0))
    }

    #[target_feature(enable = "avx2")]
    #[inline]
    unsafe fn swap_adjacent(v: Self::Vector) -> Self::Vector {
        __VECTOR_TYPE__(__PREFIX___permute___SUFFIX__(v.0, __PERMUTE_MASK__))
    }

    #[target_feature(enable = "avx2")]
    #[inline]
    unsafe fn dup_even(v: Self::Vector) -> Self::Vector {
        __DUP_EVEN_CODE__
    }

    #[target_feature(enable = "avx2")]
    #[inline]
    unsafe fn dup_odd(v: Self::Vector) -> Self::Vector {
        __DUP_ODD_CODE__
    }

    /// Alternating FMA requires `avx2` + `fma` target features.
    #[target_feature(enable = "avx2,fma")]
    #[inline]
    unsafe fn fmaddsub(a: Self::Vector, b: Self::Vector, c: Self::Vector) -> Self::Vector {
        __VECTOR_TYPE__(__PREFIX___fmaddsub___SUFFIX__(a.0, b.0, c.0))
    }

    /// Alternating FMA requires `avx2` + `fma` target features.
    #[target_feature(enable = "avx2,fma")]
    #[inline]
    unsafe fn fmsubadd(a: Self::Vector, b: Self::Vector, c: Self::Vector) -> Self::Vector {
        __VECTOR_TYPE__(__PREFIX___fmsubadd___SUFFIX__(a.0, b.0, c.0))
    }

    #[target_feature(enable = "avx2")]
    #[inline]
    unsafe fn sum_reduce(v: Self::Vector) -> __SCALAR_TYPE__ {
        __SUM_REDUCE_CODE__
    }

    // -----------------------------------------------------------------------
    // Masked load / store
    // -----------------------------------------------------------------------

    /// Merge-masked load via `blendv`: sign bit of mask selects loaded vs src.
    #[target_feature(enable = "avx2")]
    #[inline]
    unsafe fn masked_load_unaligned(
        ptr: *const __SCALAR_TYPE__,
        mask: Self::Mask,
        src: Self::Vector,
    ) -> Self::Vector {
        let loaded = __PREFIX___loadu___SUFFIX__(ptr);
        __VECTOR_TYPE__(__PREFIX___blendv___SUFFIX__(src.0, loaded, mask.0))
    }

    /// Masked store via maskstore; only lanes with sign bit set are written.
    #[target_feature(enable = "avx2")]
    #[inline]
    unsafe fn masked_store_unaligned(ptr: *mut __SCALAR_TYPE__, mask: Self::Mask, val: Self::Vector) {
        __PREFIX___maskstore___SUFFIX__(ptr, __PREFIX___cast__SUFFIX___si256(mask.0), val.0);
    }

    // -----------------------------------------------------------------------
    // Masked arithmetic
    // -----------------------------------------------------------------------

    #[target_feature(enable = "avx2")]
    #[inline]
    unsafe fn masked_add(
        a: Self::Vector,
        b: Self::Vector,
        mask: Self::Mask,
        src: Self::Vector,
    ) -> Self::Vector {
        let result = __PREFIX___add___SUFFIX__(a.0, b.0);
        __VECTOR_TYPE__(__PREFIX___blendv___SUFFIX__(src.0, result, mask.0))
    }

    #[target_feature(enable = "avx2")]
    #[inline]
    unsafe fn masked_mul(
        a: Self::Vector,
        b: Self::Vector,
        mask: Self::Mask,
        src: Self::Vector,
    ) -> Self::Vector {
        let result = __PREFIX___mul___SUFFIX__(a.0, b.0);
        __VECTOR_TYPE__(__PREFIX___blendv___SUFFIX__(src.0, result, mask.0))
    }

    #[target_feature(enable = "avx2,fma")]
    #[inline]
    unsafe fn masked_fmadd(
        a: Self::Vector,
        b: Self::Vector,
        c: Self::Vector,
        mask: Self::Mask,
    ) -> Self::Vector {
        let result = __PREFIX___fmadd___SUFFIX__(a.0, b.0, c.0);
        __VECTOR_TYPE__(__PREFIX___blendv___SUFFIX__(c.0, result, mask.0))
    }

    #[target_feature(enable = "avx2")]
    #[inline]
    unsafe fn masked_sum_reduce(v: Self::Vector, mask: Self::Mask) -> __SCALAR_TYPE__ {
        let zero = __PREFIX___setzero___SUFFIX__();
        let selected = __PREFIX___blendv___SUFFIX__(zero, v.0, mask.0);
        Self::sum_reduce(__VECTOR_TYPE__(selected))
    }

    // -----------------------------------------------------------------------
    // Compress / Expand (emulated)
    // -----------------------------------------------------------------------

    #[target_feature(enable = "avx2")]
    #[inline]
    unsafe fn compress(src: Self::Vector, mask: Self::Mask) -> Self::Vector {
        let mask_bits = __PREFIX___movemask___SUFFIX__(mask.0) as u32;
        let mut arr = [0.0__SCALAR_TYPE__; __LANE_COUNT__];
        __PREFIX___storeu___SUFFIX__(arr.as_mut_ptr(), src.0);
        let mut out = [0.0__SCALAR_TYPE__; __LANE_COUNT__];
        let mut k = 0usize;
        for i in 0..__LANE_COUNT__ {
            if (mask_bits >> i) & 1 != 0 {
                out[k] = arr[i];
                k += 1;
            }
        }
        __VECTOR_TYPE__(__PREFIX___loadu___SUFFIX__(out.as_ptr()))
    }

    #[target_feature(enable = "avx2")]
    #[inline]
    unsafe fn expand(src: Self::Vector, mask: Self::Mask, fill: Self::Vector) -> Self::Vector {
        let mask_bits = __PREFIX___movemask___SUFFIX__(mask.0) as u32;
        let mut src_arr = [0.0__SCALAR_TYPE__; __LANE_COUNT__];
        __PREFIX___storeu___SUFFIX__(src_arr.as_mut_ptr(), src.0);
        let mut out_arr = [0.0__SCALAR_TYPE__; __LANE_COUNT__];
        __PREFIX___storeu___SUFFIX__(out_arr.as_mut_ptr(), fill.0);
        let mut k = 0usize;
        for i in 0..__LANE_COUNT__ {
            if (mask_bits >> i) & 1 != 0 {
                out_arr[i] = src_arr[k];
                k += 1;
            }
        }
        __VECTOR_TYPE__(__PREFIX___loadu___SUFFIX__(out_arr.as_ptr()))
    }

    // -----------------------------------------------------------------------
    // Gather
    // -----------------------------------------------------------------------

    #[target_feature(enable = "avx2")]
    #[inline]
    unsafe fn gather(base: *const __SCALAR_TYPE__, indices: Self::IndexVector) -> Self::Vector {
        __VECTOR_TYPE__(__PREFIX___i32gather___SUFFIX__(base, indices.0, __SCALE__))
    }

    #[target_feature(enable = "avx2")]
    #[inline]
    unsafe fn gather_masked(
        base: *const __SCALAR_TYPE__,
        indices: Self::IndexVector,
        mask: Self::Mask,
        src: Self::Vector,
    ) -> Self::Vector {
        __VECTOR_TYPE__(__PREFIX___mask_i32gather___SUFFIX__(src.0, base, indices.0, mask.0, __SCALE__))
    }

    // -----------------------------------------------------------------------
    // Mask construction
    // -----------------------------------------------------------------------

    #[target_feature(enable = "avx2")]
    #[inline]
    unsafe fn mask_from_bools(bits: &[bool]) -> Self::Mask {
        debug_assert_eq!(bits.len(), __LANE_COUNT__);
        let vals: [__SCALAR_TYPE__; __LANE_COUNT__] = core::array::from_fn(|i| {
            if bits[i] {
                <__SCALAR_TYPE__>::from_bits(!0)
            } else {
                0.0
            }
        });
        __MASK_TYPE__(__PREFIX___loadu___SUFFIX__(vals.as_ptr()))
    }

    #[target_feature(enable = "avx2")]
    #[inline]
    unsafe fn leading_k_mask(k: usize) -> Self::Mask {
        let k = k.min(__LANE_COUNT__);
        let vals: [__SCALAR_TYPE__; __LANE_COUNT__] = core::array::from_fn(|i| {
            if i < k {
                <__SCALAR_TYPE__>::from_bits(!0)
            } else {
                0.0
            }
        });
        __MASK_TYPE__(__PREFIX___loadu___SUFFIX__(vals.as_ptr()))
    }

    // -----------------------------------------------------------------------
    // Broadcast / zero
    // -----------------------------------------------------------------------

    #[target_feature(enable = "avx2")]
    #[inline]
    unsafe fn zero() -> Self::Vector {
        __VECTOR_TYPE__(__PREFIX___setzero___SUFFIX__())
    }

    #[target_feature(enable = "avx2")]
    #[inline]
    unsafe fn splat(val: __SCALAR_TYPE__) -> Self::Vector {
        __VECTOR_TYPE__(__PREFIX___set1___SUFFIX__(val))
    }

    #[target_feature(enable = "avx2")]
    #[inline]
    unsafe fn div(a: Self::Vector, b: Self::Vector) -> Self::Vector {
        __VECTOR_TYPE__(__PREFIX___div___SUFFIX__(a.0, b.0))
    }

    #[target_feature(enable = "avx2")]
    #[inline]
    unsafe fn bitand(a: Self::Vector, b: Self::Vector) -> Self::Vector {
        __VECTOR_TYPE__(__PREFIX___and___SUFFIX__(a.0, b.0))
    }

    #[target_feature(enable = "avx2")]
    #[inline]
    unsafe fn bitor(a: Self::Vector, b: Self::Vector) -> Self::Vector {
        __VECTOR_TYPE__(__PREFIX___or___SUFFIX__(a.0, b.0))
    }

    #[target_feature(enable = "avx2")]
    #[inline]
    unsafe fn bitxor(a: Self::Vector, b: Self::Vector) -> Self::Vector {
        __VECTOR_TYPE__(__PREFIX___xor___SUFFIX__(a.0, b.0))
    }

    #[target_feature(enable = "avx2")]
    #[inline]
    unsafe fn abs(a: Self::Vector) -> Self::Vector {
        let sign_mask = __PREFIX___set1___SUFFIX__(-0.0);
        __VECTOR_TYPE__(__PREFIX___andnot___SUFFIX__(sign_mask, a.0))
    }

    #[target_feature(enable = "avx2")]
    #[inline]
    unsafe fn min(a: Self::Vector, b: Self::Vector) -> Self::Vector {
        __VECTOR_TYPE__(__PREFIX___min___SUFFIX__(a.0, b.0))
    }

    #[target_feature(enable = "avx2")]
    #[inline]
    unsafe fn max(a: Self::Vector, b: Self::Vector) -> Self::Vector {
        __VECTOR_TYPE__(__PREFIX___max___SUFFIX__(a.0, b.0))
    }

    #[target_feature(enable = "avx2")]
    #[inline]
    unsafe fn sqrt(a: Self::Vector) -> Self::Vector {
        __VECTOR_TYPE__(__PREFIX___sqrt___SUFFIX__(a.0))
    }

    #[target_feature(enable = "avx2")]
    #[inline]
    unsafe fn recip_sqrt(a: Self::Vector) -> Self::Vector {
        __RECIP_SQRT_CODE__
    }

    #[target_feature(enable = "avx2")]
    #[inline]
    unsafe fn popcount(a: Self::Vector) -> Self::Vector {
        __POPCOUNT_CODE__
    }

    #[target_feature(enable = "avx2")]
    #[inline]
    unsafe fn cmp_eq(a: Self::Vector, b: Self::Vector) -> Self::Vector {
        __VECTOR_TYPE__(__PREFIX___cmp___SUFFIX__(a.0, b.0, __CMP_EQ_VAL__))
    }

    #[target_feature(enable = "avx2")]
    #[inline]
    unsafe fn cmp_ne(a: Self::Vector, b: Self::Vector) -> Self::Vector {
        __VECTOR_TYPE__(__PREFIX___cmp___SUFFIX__(a.0, b.0, __CMP_NE_VAL__))
    }

    #[target_feature(enable = "avx2")]
    #[inline]
    unsafe fn cmp_lt(a: Self::Vector, b: Self::Vector) -> Self::Vector {
        __VECTOR_TYPE__(__PREFIX___cmp___SUFFIX__(a.0, b.0, __CMP_LT_VAL__))
    }

    #[target_feature(enable = "avx2")]
    #[inline]
    unsafe fn cmp_le(a: Self::Vector, b: Self::Vector) -> Self::Vector {
        __VECTOR_TYPE__(__PREFIX___cmp___SUFFIX__(a.0, b.0, __CMP_LE_VAL__))
    }

    #[target_feature(enable = "avx2")]
    #[inline]
    unsafe fn cmp_gt(a: Self::Vector, b: Self::Vector) -> Self::Vector {
        __VECTOR_TYPE__(__PREFIX___cmp___SUFFIX__(a.0, b.0, __CMP_GT_VAL__))
    }

    #[target_feature(enable = "avx2")]
    #[inline]
    unsafe fn cmp_ge(a: Self::Vector, b: Self::Vector) -> Self::Vector {
        __VECTOR_TYPE__(__PREFIX___cmp___SUFFIX__(a.0, b.0, __CMP_GE_VAL__))
    }

    #[target_feature(enable = "avx2")]
    #[inline]
    unsafe fn blend(
        mask: Self::Vector,
        true_val: Self::Vector,
        false_val: Self::Vector,
    ) -> Self::Vector {
        __VECTOR_TYPE__(__PREFIX___blendv___SUFFIX__(false_val.0, true_val.0, mask.0))
    }

    #[target_feature(enable = "avx2")]
    #[inline]
    unsafe fn mask_to_bitmask(mask: Self::Mask) -> u64 {
        __PREFIX___movemask___SUFFIX__(mask.0) as u64
    }

    #[target_feature(enable = "avx2")]
    #[inline]
    unsafe fn mask_to_vector(mask: Self::Mask) -> Self::Vector {
        __VECTOR_TYPE__(mask.0)
    }
}
"#;

/// The AVX-512 kernel template.
pub const AVX512_TEMPLATE: &'static str = r#"//! AVX-512F __SCALAR_TYPE__ hardware kernel.
//!
//! __LANE_COUNT__-lane __SCALAR_TYPE__ (`__VECTOR_UNDERLYING__`). Uses native AVX-512 predicated instructions:
//! - Masked load/store: `__PREFIX___mask_loadu___SUFFIX__`, `__PREFIX___mask_storeu___SUFFIX__`.
//! - Masked arithmetic: `__PREFIX___mask_add___SUFFIX__`, `__PREFIX___mask_mul___SUFFIX__`.
//! - Masked FMA: `__PREFIX___mask3_fmadd___SUFFIX__` (inactive lanes retain `c`).
//! - Compress: `__PREFIX___maskz_compress___SUFFIX__` (native — no emulation needed).
//! - Expand: `__PREFIX___mask_expand___SUFFIX__` (native).
//! - Gather: `__PREFIX___i32gather___SUFFIX__`, `__PREFIX___mask_i32gather___SUFFIX__`.
//! - Mask register: `__MASK_TYPE__` (__LANE_COUNT__-bit integer).

use crate::Avx512;
#[cfg(any(target_arch = "x86", target_arch = "x86_64"))]
use core::arch::x86_64::*;
use hermes_simd_core::kernel::SimdKernel;

/// Newtype over `__VECTOR_UNDERLYING__` providing `Send + Sync`.
#[cfg(any(target_arch = "x86", target_arch = "x86_64"))]
#[repr(transparent)]
#[derive(Copy, Clone)]
pub struct __VECTOR_TYPE__(pub __VECTOR_UNDERLYING__);

#[cfg(any(target_arch = "x86", target_arch = "x86_64"))]
unsafe impl Send for __VECTOR_TYPE__ {}
#[cfg(any(target_arch = "x86", target_arch = "x86_64"))]
unsafe impl Sync for __VECTOR_TYPE__ {}

#[cfg(any(target_arch = "x86", target_arch = "x86_64"))]
impl SimdKernel<__SCALAR_TYPE__> for Avx512 {
    type Vector = __VECTOR_TYPE__;
    /// Native AVX-512 __LANE_COUNT__-bit mask register. Bit `i` set → lane `i` active.
    type Mask = __MASK_TYPE__;
    /// __LANE_COUNT__ × i32 index vector for gather (`__INDEX_UNDERLYING__`).
    type IndexVector = __INDEX_UNDERLYING__;
    const LANE_COUNT: usize = __LANE_COUNT__;
    const UNROLL_FACTOR: usize = 4;

    // -----------------------------------------------------------------------
    // Load / store
    // -----------------------------------------------------------------------

    #[target_feature(enable = "avx512f")]
    #[inline]
    unsafe fn load_aligned(ptr: *const __SCALAR_TYPE__) -> Self::Vector {
        __VECTOR_TYPE__(__PREFIX___load___SUFFIX__(ptr))
    }

    #[target_feature(enable = "avx512f")]
    #[inline]
    unsafe fn load_unaligned(ptr: *const __SCALAR_TYPE__) -> Self::Vector {
        __VECTOR_TYPE__(__PREFIX___loadu___SUFFIX__(ptr))
    }

    #[target_feature(enable = "avx512f")]
    #[inline]
    unsafe fn store_aligned(ptr: *mut __SCALAR_TYPE__, val: Self::Vector) {
        __PREFIX___store___SUFFIX__(ptr, val.0);
    }

    #[target_feature(enable = "avx512f")]
    #[inline]
    unsafe fn store_unaligned(ptr: *mut __SCALAR_TYPE__, val: Self::Vector) {
        __PREFIX___storeu___SUFFIX__(ptr, val.0);
    }

    // -----------------------------------------------------------------------
    // Arithmetic
    // -----------------------------------------------------------------------

    #[target_feature(enable = "avx512f")]
    #[inline]
    unsafe fn add(a: Self::Vector, b: Self::Vector) -> Self::Vector {
        __VECTOR_TYPE__(__PREFIX___add___SUFFIX__(a.0, b.0))
    }

    #[target_feature(enable = "avx512f")]
    #[inline]
    unsafe fn mul(a: Self::Vector, b: Self::Vector) -> Self::Vector {
        __VECTOR_TYPE__(__PREFIX___mul___SUFFIX__(a.0, b.0))
    }

    #[target_feature(enable = "avx512f")]
    #[inline]
    unsafe fn sub(a: Self::Vector, b: Self::Vector) -> Self::Vector {
        __VECTOR_TYPE__(__PREFIX___sub___SUFFIX__(a.0, b.0))
    }

    #[target_feature(enable = "avx512f")]
    #[inline]
    unsafe fn fmadd(a: Self::Vector, b: Self::Vector, c: Self::Vector) -> Self::Vector {
        __VECTOR_TYPE__(__PREFIX___fmadd___SUFFIX__(a.0, b.0, c.0))
    }

    #[target_feature(enable = "avx512f")]
    #[inline]
    unsafe fn swap_adjacent(v: Self::Vector) -> Self::Vector {
        __VECTOR_TYPE__(__PREFIX___permute___SUFFIX__(v.0, __PERMUTE_MASK__))
    }

    #[target_feature(enable = "avx512f")]
    #[inline]
    unsafe fn dup_even(v: Self::Vector) -> Self::Vector {
        __DUP_EVEN_CODE__
    }

    #[target_feature(enable = "avx512f")]
    #[inline]
    unsafe fn dup_odd(v: Self::Vector) -> Self::Vector {
        __DUP_ODD_CODE__
    }

    #[target_feature(enable = "avx512f")]
    #[inline]
    unsafe fn fmaddsub(a: Self::Vector, b: Self::Vector, c: Self::Vector) -> Self::Vector {
        __VECTOR_TYPE__(__PREFIX___fmaddsub___SUFFIX__(a.0, b.0, c.0))
    }

    #[target_feature(enable = "avx512f")]
    #[inline]
    unsafe fn fmsubadd(a: Self::Vector, b: Self::Vector, c: Self::Vector) -> Self::Vector {
        __VECTOR_TYPE__(__PREFIX___fmsubadd___SUFFIX__(a.0, b.0, c.0))
    }

    #[target_feature(enable = "avx512f")]
    #[inline]
    unsafe fn sum_reduce(v: Self::Vector) -> __SCALAR_TYPE__ {
        __SUM_REDUCE_CODE__
    }

    // -----------------------------------------------------------------------
    // Native masked load / store
    // -----------------------------------------------------------------------

    #[target_feature(enable = "avx512f")]
    #[inline]
    unsafe fn masked_load_unaligned(
        ptr: *const __SCALAR_TYPE__,
        mask: Self::Mask,
        src: Self::Vector,
    ) -> Self::Vector {
        __VECTOR_TYPE__(__PREFIX___mask_loadu___SUFFIX__(src.0, mask, ptr))
    }

    #[target_feature(enable = "avx512f")]
    #[inline]
    unsafe fn masked_store_unaligned(ptr: *mut __SCALAR_TYPE__, mask: Self::Mask, val: Self::Vector) {
        __PREFIX___mask_storeu___SUFFIX__(ptr, mask, val.0);
    }

    // -----------------------------------------------------------------------
    // Native masked arithmetic
    // -----------------------------------------------------------------------

    #[target_feature(enable = "avx512f")]
    #[inline]
    unsafe fn masked_add(
        a: Self::Vector,
        b: Self::Vector,
        mask: Self::Mask,
        src: Self::Vector,
    ) -> Self::Vector {
        __VECTOR_TYPE__(__PREFIX___mask_add___SUFFIX__(src.0, mask, a.0, b.0))
    }

    #[target_feature(enable = "avx512f")]
    #[inline]
    unsafe fn masked_mul(
        a: Self::Vector,
        b: Self::Vector,
        mask: Self::Mask,
        src: Self::Vector,
    ) -> Self::Vector {
        __VECTOR_TYPE__(__PREFIX___mask_mul___SUFFIX__(src.0, mask, a.0, b.0))
    }

    /// `mask3_fmadd`: inactive lanes retain `c` (the addend / 3rd operand).
    #[target_feature(enable = "avx512f")]
    #[inline]
    unsafe fn masked_fmadd(
        a: Self::Vector,
        b: Self::Vector,
        c: Self::Vector,
        mask: Self::Mask,
    ) -> Self::Vector {
        __VECTOR_TYPE__(__PREFIX___mask3_fmadd___SUFFIX__(a.0, b.0, c.0, mask))
    }

    #[target_feature(enable = "avx512f")]
    #[inline]
    unsafe fn masked_sum_reduce(v: Self::Vector, mask: Self::Mask) -> __SCALAR_TYPE__ {
        let zero = __PREFIX___setzero___SUFFIX__();
        __PREFIX___reduce_add___SUFFIX__(__PREFIX___mask_mov___SUFFIX__(zero, mask, v.0))
    }

    // -----------------------------------------------------------------------
    // Native compress / expand
    // -----------------------------------------------------------------------

    #[target_feature(enable = "avx512f")]
    #[inline]
    unsafe fn compress(src: Self::Vector, mask: Self::Mask) -> Self::Vector {
        __VECTOR_TYPE__(__PREFIX___maskz_compress___SUFFIX__(mask, src.0))
    }

    #[target_feature(enable = "avx512f")]
    #[inline]
    unsafe fn expand(src: Self::Vector, mask: Self::Mask, fill: Self::Vector) -> Self::Vector {
        __VECTOR_TYPE__(__PREFIX___mask_expand___SUFFIX__(fill.0, mask, src.0))
    }

    // -----------------------------------------------------------------------
    // Gather
    // -----------------------------------------------------------------------

    #[target_feature(enable = "avx512f")]
    #[inline]
    unsafe fn gather(base: *const __SCALAR_TYPE__, indices: Self::IndexVector) -> Self::Vector {
        __VECTOR_TYPE__(__PREFIX___i32gather___SUFFIX__(indices, base, __SCALE__))
    }

    #[target_feature(enable = "avx512f")]
    #[inline]
    unsafe fn gather_masked(
        base: *const __SCALAR_TYPE__,
        indices: Self::IndexVector,
        mask: Self::Mask,
        src: Self::Vector,
    ) -> Self::Vector {
        __VECTOR_TYPE__(__PREFIX___mask_i32gather___SUFFIX__(src.0, mask, indices, base, __SCALE__))
    }

    // -----------------------------------------------------------------------
    // Mask construction
    // -----------------------------------------------------------------------

    #[target_feature(enable = "avx512f")]
    #[inline]
    unsafe fn mask_from_bools(bits: &[bool]) -> Self::Mask {
        debug_assert_eq!(bits.len(), __LANE_COUNT__);
        let mut mask: u64 = 0;
        for i in 0..__LANE_COUNT__ {
            if bits[i] {
                mask |= 1 << i;
            }
        }
        mask as Self::Mask
    }

    #[target_feature(enable = "avx512f")]
    #[inline]
    unsafe fn leading_k_mask(k: usize) -> Self::Mask {
        let k = k.min(__LANE_COUNT__);
        if k == 0 {
            0 as Self::Mask
        } else {
            let mask = (1u64 << k) - 1;
            mask as Self::Mask
        }
    }

    // -----------------------------------------------------------------------
    // Broadcast / zero
    // -----------------------------------------------------------------------

    #[target_feature(enable = "avx512f")]
    #[inline]
    unsafe fn zero() -> Self::Vector {
        __VECTOR_TYPE__(__PREFIX___setzero___SUFFIX__())
    }

    #[target_feature(enable = "avx512f")]
    #[inline]
    unsafe fn splat(val: __SCALAR_TYPE__) -> Self::Vector {
        __VECTOR_TYPE__(__PREFIX___set1___SUFFIX__(val))
    }

    #[target_feature(enable = "avx512f")]
    #[inline]
    unsafe fn div(a: Self::Vector, b: Self::Vector) -> Self::Vector {
        __VECTOR_TYPE__(__PREFIX___div___SUFFIX__(a.0, b.0))
    }

    #[target_feature(enable = "avx512f")]
    #[inline]
    unsafe fn bitand(a: Self::Vector, b: Self::Vector) -> Self::Vector {
        __VECTOR_TYPE__(__PREFIX___and___SUFFIX__(a.0, b.0))
    }

    #[target_feature(enable = "avx512f")]
    #[inline]
    unsafe fn bitor(a: Self::Vector, b: Self::Vector) -> Self::Vector {
        __VECTOR_TYPE__(__PREFIX___or___SUFFIX__(a.0, b.0))
    }

    #[target_feature(enable = "avx512f")]
    #[inline]
    unsafe fn bitxor(a: Self::Vector, b: Self::Vector) -> Self::Vector {
        __VECTOR_TYPE__(__PREFIX___xor___SUFFIX__(a.0, b.0))
    }

    #[target_feature(enable = "avx512f")]
    #[inline]
    unsafe fn abs(a: Self::Vector) -> Self::Vector {
        let sign_mask = __PREFIX___set1___SUFFIX__(-0.0);
        __VECTOR_TYPE__(__PREFIX___andnot___SUFFIX__(sign_mask, a.0))
    }

    #[target_feature(enable = "avx512f")]
    #[inline]
    unsafe fn min(a: Self::Vector, b: Self::Vector) -> Self::Vector {
        __VECTOR_TYPE__(__PREFIX___min___SUFFIX__(a.0, b.0))
    }

    #[target_feature(enable = "avx512f")]
    #[inline]
    unsafe fn max(a: Self::Vector, b: Self::Vector) -> Self::Vector {
        __VECTOR_TYPE__(__PREFIX___max___SUFFIX__(a.0, b.0))
    }

    #[target_feature(enable = "avx512f")]
    #[inline]
    unsafe fn sqrt(a: Self::Vector) -> Self::Vector {
        __VECTOR_TYPE__(__PREFIX___sqrt___SUFFIX__(a.0))
    }

    #[target_feature(enable = "avx512f")]
    #[inline]
    unsafe fn recip_sqrt(a: Self::Vector) -> Self::Vector {
        __RECIP_SQRT_CODE__
    }

    #[target_feature(enable = "avx512f")]
    #[inline]
    unsafe fn popcount(a: Self::Vector) -> Self::Vector {
        __POPCOUNT_CODE__
    }

    #[target_feature(enable = "avx512f")]
    #[inline]
    unsafe fn cmp_eq(a: Self::Vector, b: Self::Vector) -> Self::Vector {
        let m = __PREFIX___cmp___SUFFIX___mask(a.0, b.0, __CMP_EQ_VAL__);
        __VECTOR_TYPE__(__PREFIX___mask_blend___SUFFIX__(
            m,
            __PREFIX___setzero___SUFFIX__(),
            __PREFIX___set1___SUFFIX__(__SCALAR_TYPE__::from_bits(!0)),
        ))
    }

    #[target_feature(enable = "avx512f")]
    #[inline]
    unsafe fn cmp_ne(a: Self::Vector, b: Self::Vector) -> Self::Vector {
        let m = __PREFIX___cmp___SUFFIX___mask(a.0, b.0, __CMP_NE_VAL__);
        __VECTOR_TYPE__(__PREFIX___mask_blend___SUFFIX__(
            m,
            __PREFIX___setzero___SUFFIX__(),
            __PREFIX___set1___SUFFIX__(__SCALAR_TYPE__::from_bits(!0)),
        ))
    }

    #[target_feature(enable = "avx512f")]
    #[inline]
    unsafe fn cmp_lt(a: Self::Vector, b: Self::Vector) -> Self::Vector {
        let m = __PREFIX___cmp___SUFFIX___mask(a.0, b.0, __CMP_LT_VAL__);
        __VECTOR_TYPE__(__PREFIX___mask_blend___SUFFIX__(
            m,
            __PREFIX___setzero___SUFFIX__(),
            __PREFIX___set1___SUFFIX__(__SCALAR_TYPE__::from_bits(!0)),
        ))
    }

    #[target_feature(enable = "avx512f")]
    #[inline]
    unsafe fn cmp_le(a: Self::Vector, b: Self::Vector) -> Self::Vector {
        let m = __PREFIX___cmp___SUFFIX___mask(a.0, b.0, __CMP_LE_VAL__);
        __VECTOR_TYPE__(__PREFIX___mask_blend___SUFFIX__(
            m,
            __PREFIX___setzero___SUFFIX__(),
            __PREFIX___set1___SUFFIX__(__SCALAR_TYPE__::from_bits(!0)),
        ))
    }

    #[target_feature(enable = "avx512f")]
    #[inline]
    unsafe fn cmp_gt(a: Self::Vector, b: Self::Vector) -> Self::Vector {
        let m = __PREFIX___cmp___SUFFIX___mask(a.0, b.0, __CMP_GT_VAL__);
        __VECTOR_TYPE__(__PREFIX___mask_blend___SUFFIX__(
            m,
            __PREFIX___setzero___SUFFIX__(),
            __PREFIX___set1___SUFFIX__(__SCALAR_TYPE__::from_bits(!0)),
        ))
    }

    #[target_feature(enable = "avx512f")]
    #[inline]
    unsafe fn cmp_ge(a: Self::Vector, b: Self::Vector) -> Self::Vector {
        let m = __PREFIX___cmp___SUFFIX___mask(a.0, b.0, __CMP_GE_VAL__);
        __VECTOR_TYPE__(__PREFIX___mask_blend___SUFFIX__(
            m,
            __PREFIX___setzero___SUFFIX__(),
            __PREFIX___set1___SUFFIX__(__SCALAR_TYPE__::from_bits(!0)),
        ))
    }

    #[target_feature(enable = "avx512f")]
    #[inline]
    unsafe fn blend(
        mask: Self::Vector,
        true_val: Self::Vector,
        false_val: Self::Vector,
    ) -> Self::Vector {
        let m = __PREFIX___cmp___SUFFIX___mask(mask.0, __PREFIX___setzero___SUFFIX__(), __CMP_NE_VAL__);
        __VECTOR_TYPE__(__PREFIX___mask_blend___SUFFIX__(m, false_val.0, true_val.0))
    }

    #[target_feature(enable = "avx512f")]
    #[inline]
    unsafe fn mask_to_bitmask(mask: Self::Mask) -> u64 {
        mask as u64
    }

    #[target_feature(enable = "avx512f")]
    #[inline]
    unsafe fn mask_to_vector(mask: Self::Mask) -> Self::Vector {
        __VECTOR_TYPE__(__PREFIX___mask_blend___SUFFIX__(
            mask,
            __PREFIX___setzero___SUFFIX__(),
            __PREFIX___set1___SUFFIX__(__SCALAR_TYPE__::from_bits(!0)),
        ))
    }
}
"#;

/// The AVX2 kernel for the element type of `p`: the template with each
/// placeholder replaced, in turn, by what `p` gives for it.
pub open spec fn render_avx2_spec(p: Param) -> Seq<char> {
    let t = replace_spec(AVX2_TEMPLATE@, "__SCALAR_TYPE__"@, p.scalar_type@);
    let t = replace_spec(t, "__VECTOR_TYPE__"@, p.vector_type@);
    let t = replace_spec(t, "__VECTOR_UNDERLYING__"@, p.vector_underlying@);
    let t = replace_spec(t, "__MASK_TYPE__"@, p.mask_type@);
    let t = replace_spec(t, "__MASK_UNDERLYING__"@, p.mask_underlying@);
    let t = replace_spec(t, "__INDEX_VECTOR__"@, p.index_vector@);
    let t = replace_spec(t, "__INDEX_UNDERLYING__"@, p.index_underlying@);
    let t = replace_spec(t, "__LANE_COUNT__"@, decimal_of(p.lane_count));
    let t = replace_spec(t, "__SCALE__"@, decimal_of(p.scale));
    let t = replace_spec(t, "__PREFIX__"@, p.prefix@);
    let t = replace_spec(t, "__SUFFIX__"@, p.suffix@);
    let t = replace_spec(t, "__SUFFIX_UPPER__"@, p.suffix_upper@);
    let t = replace_spec(t, "__PERMUTE_MASK__"@, p.permute_mask@);
    let t = replace_spec(t, "__DUP_EVEN_CODE__"@, p.dup_even_code@);
    let t = replace_spec(t, "__DUP_ODD_CODE__"@, p.dup_odd_code@);
    let t = replace_spec(t, "__SUM_REDUCE_CODE__"@, p.sum_reduce_code@);
    let t = replace_spec(t, "__RECIP_SQRT_CODE__"@, p.recip_sqrt_code@);
    let t = replace_spec(t, "__POPCOUNT_CODE__"@, p.popcount_code@);
    let t = replace_spec(t, "__CMP_EQ_VAL__"@, p.cmp_eq_val@);
    let t = replace_spec(t, "__CMP_NE_VAL__"@, p.cmp_ne_val@);
    let t = replace_spec(t, "__CMP_LT_VAL__"@, p.cmp_lt_val@);
    let t = replace_spec(t, "__CMP_LE_VAL__"@, p.cmp_le_val@);
    let t = replace_spec(t, "__CMP_GT_VAL__"@, p.cmp_gt_val@);
    let t = replace_spec(t, "__CMP_GE_VAL__"@, p.cmp_ge_val@);
    let t = replace_spec(t, "__ONE_HALF_VAL__"@, p.one_half_val@);
    let t = replace_spec(t, "__THREE_VAL__"@, p.three_val@);
    t
}

/// Renders the AVX2 kernel source for the element type of `p`.
pub fn render_avx2(p: &Param) -> (s: String)
    ensures
        s@ == render_avx2_spec(*p),
{
    proof {
        reveal_strlit("__SCALAR_TYPE__");
        reveal_strlit("__VECTOR_TYPE__");
        reveal_strlit("__VECTOR_UNDERLYING__");
        reveal_strlit("__MASK_TYPE__");
        reveal_strlit("__MASK_UNDERLYING__");
        reveal_strlit("__INDEX_VECTOR__");
        reveal_strlit("__INDEX_UNDERLYING__");
        reveal_strlit("__LANE_COUNT__");
        reveal_strlit("__SCALE__");
        reveal_strlit("__PREFIX__");
        reveal_strlit("__SUFFIX__");
        reveal_strlit("__SUFFIX_UPPER__");
        reveal_strlit("__PERMUTE_MASK__");
        reveal_strlit("__DUP_EVEN_CODE__");
        reveal_strlit("__DUP_ODD_CODE__");
        reveal_strlit("__SUM_REDUCE_CODE__");
        reveal_strlit("__RECIP_SQRT_CODE__");
        reveal_strlit("__POPCOUNT_CODE__");
        reveal_strlit("__CMP_EQ_VAL__");
        reveal_strlit("__CMP_NE_VAL__");
        reveal_strlit("__CMP_LT_VAL__");
        reveal_strlit("__CMP_LE_VAL__");
        reveal_strlit("__CMP_GT_VAL__");
        reveal_strlit("__CMP_GE_VAL__");
        reveal_strlit("__ONE_HALF_VAL__");
        reveal_strlit("__THREE_VAL__");
    }
    let t = replace_all(AVX2_TEMPLATE, "__SCALAR_TYPE__", p.scalar_type);
    let t = replace_all(t.as_str(), "__VECTOR_TYPE__", p.vector_type);
    let t = replace_all(t.as_str(), "__VECTOR_UNDERLYING__", p.vector_underlying);
    let t = replace_all(t.as_str(), "__MASK_TYPE__", p.mask_type);
    let t = replace_all(t.as_str(), "__MASK_UNDERLYING__", p.mask_underlying);
    let t = replace_all(t.as_str(), "__INDEX_VECTOR__", p.index_vector);
    let t = replace_all(t.as_str(), "__INDEX_UNDERLYING__", p.index_underlying);
    let digits = decimal(p.lane_count);
    let t = replace_all(t.as_str(), "__LANE_COUNT__", digits.as_str());
    let digits = decimal(p.scale);
    let t = replace_all(t.as_str(), "__SCALE__", digits.as_str());
    let t = replace_all(t.as_str(), "__PREFIX__", p.prefix);
    let t = replace_all(t.as_str(), "__SUFFIX__", p.suffix);
    let t = replace_all(t.as_str(), "__SUFFIX_UPPER__", p.suffix_upper);
    let t = replace_all(t.as_str(), "__PERMUTE_MASK__", p.permute_mask);
    let t = replace_all(t.as_str(), "__DUP_EVEN_CODE__", p.dup_even_code);
    let t = replace_all(t.as_str(), "__DUP_ODD_CODE__", p.dup_odd_code);
    let t = replace_all(t.as_str(), "__SUM_REDUCE_CODE__", p.sum_reduce_code);
    let t = replace_all(t.as_str(), "__RECIP_SQRT_CODE__", p.recip_sqrt_code);
    let t = replace_all(t.as_str(), "__POPCOUNT_CODE__", p.popcount_code);
    let t = replace_all(t.as_str(), "__CMP_EQ_VAL__", p.cmp_eq_val);
    let t = replace_all(t.as_str(), "__CMP_NE_VAL__", p.cmp_ne_val);
    let t = replace_all(t.as_str(), "__CMP_LT_VAL__", p.cmp_lt_val);
    let t = replace_all(t.as_str(), "__CMP_LE_VAL__", p.cmp_le_val);
    let t = replace_all(t.as_str(), "__CMP_GT_VAL__", p.cmp_gt_val);
    let t = replace_all(t.as_str(), "__CMP_GE_VAL__", p.cmp_ge_val);
    let t = replace_all(t.as_str(), "__ONE_HALF_VAL__", p.one_half_val);
    let t = replace_all(t.as_str(), "__THREE_VAL__", p.three_val);
    t
}

/// The AVX-512 kernel for the element type of `p`: the template with each
/// placeholder replaced, in turn, by what `p` gives for it.
pub open spec fn render_avx512_spec(p: Param) -> Seq<char> {
    let t = replace_spec(AVX512_TEMPLATE@, "__SCALAR_TYPE__"@, p.scalar_type@);
    let t = replace_spec(t, "__VECTOR_TYPE__"@, p.vector_type@);
    let t = replace_spec(t, "__VECTOR_UNDERLYING__"@, p.vector_underlying@);
    let t = replace_spec(t, "__MASK_TYPE__"@, p.mask_type@);
    let t = replace_spec(t, "__MASK_UNDERLYING__"@, p.mask_underlying@);
    let t = replace_spec(t, "__INDEX_UNDERLYING__"@, p.index_underlying@);
    let t = replace_spec(t, "__LANE_COUNT__"@, decimal_of(p.lane_count));
    let t = replace_spec(t, "__SCALE__"@, decimal_of(p.scale));
    let t = replace_spec(t, "__PREFIX__"@, p.prefix@);
    let t = replace_spec(t, "__SUFFIX__"@, p.suffix@);
    let t = replace_spec(t, "__SUFFIX_UPPER__"@, p.suffix_upper@);
    let t = replace_spec(t, "__PERMUTE_MASK__"@, p.permute_mask@);
    let t = replace_spec(t, "__DUP_EVEN_CODE__"@, p.dup_even_code@);
    let t = replace_spec(t, "__DUP_ODD_CODE__"@, p.dup_odd_code@);
    let t = replace_spec(t, "__SUM_REDUCE_CODE__"@, p.sum_reduce_code@);
    let t = replace_spec(t, "__RECIP_SQRT_CODE__"@, p.recip_sqrt_code@);
    let t = replace_spec(t, "__POPCOUNT_CODE__"@, p.popcount_code@);
    let t = replace_spec(t, "__CMP_EQ_VAL__"@, p.cmp_eq_val@);
    let t = replace_spec(t, "__CMP_NE_VAL__"@, p.cmp_ne_val@);
    let t = replace_spec(t, "__CMP_LT_VAL__"@, p.cmp_lt_val@);
    let t = replace_spec(t, "__CMP_LE_VAL__"@, p.cmp_le_val@);
    let t = replace_spec(t, "__CMP_GT_VAL__"@, p.cmp_gt_val@);
    let t = replace_spec(t, "__CMP_GE_VAL__"@, p.cmp_ge_val@);
    let t = replace_spec(t, "__ONE_HALF_VAL__"@, p.one_half_val@);
    let t = replace_spec(t, "__THREE_VAL__"@, p.three_val@);
    t
}

/// Renders the AVX-512 kernel source for the element type of `p`.
pub fn render_avx512(p: &Param) -> (s: String)
    ensures
        s@ == render_avx512_spec(*p),
{
    proof {
        reveal_strlit("__SCALAR_TYPE__");
        reveal_strlit("__VECTOR_TYPE__");
        reveal_strlit("__VECTOR_UNDERLYING__");
        reveal_strlit("__MASK_TYPE__");
        reveal_strlit("__MASK_UNDERLYING__");
        reveal_strlit("__INDEX_UNDERLYING__");
        reveal_strlit("__LANE_COUNT__");
        reveal_strlit("__SCALE__");
        reveal_strlit("__PREFIX__");
        reveal_strlit("__SUFFIX__");
        reveal_strlit("__SUFFIX_UPPER__");
        reveal_strlit("__PERMUTE_MASK__");
        reveal_strlit("__DUP_EVEN_CODE__");
        reveal_strlit("__DUP_ODD_CODE__");
        reveal_strlit("__SUM_REDUCE_CODE__");
        reveal_strlit("__RECIP_SQRT_CODE__");
        reveal_strlit("__POPCOUNT_CODE__");
        reveal_strlit("__CMP_EQ_VAL__");
        reveal_strlit("__CMP_NE_VAL__");
        reveal_strlit("__CMP_LT_VAL__");
        reveal_strlit("__CMP_LE_VAL__");
        reveal_strlit("__CMP_GT_VAL__");
        reveal_strlit("__CMP_GE_VAL__");
        reveal_strlit("__ONE_HALF_VAL__");
        reveal_strlit("__THREE_VAL__");
    }
    let t = replace_all(AVX512_TEMPLATE, "__SCALAR_TYPE__", p.scalar_type);
    let t = replace_all(t.as_str(), "__VECTOR_TYPE__", p.vector_type);
    let t = replace_all(t.as_str(), "__VECTOR_UNDERLYING__", p.vector_underlying);
    let t = replace_all(t.as_str(), "__MASK_TYPE__", p.mask_type);
    let t = replace_all(t.as_str(), "__MASK_UNDERLYING__", p.mask_underlying);
    let t = replace_all(t.as_str(), "__INDEX_UNDERLYING__", p.index_underlying);
    let digits = decimal(p.lane_count);
    let t = replace_all(t.as_str(), "__LANE_COUNT__", digits.as_str());
    let digits = decimal(p.scale);
    let t = replace_all(t.as_str(), "__SCALE__", digits.as_str());
    let t = replace_all(t.as_str(), "__PREFIX__", p.prefix);
    let t = replace_all(t.as_str(), "__SUFFIX__", p.suffix);
    let t = replace_all(t.as_str(), "__SUFFIX_UPPER__", p.suffix_upper);
    let t = replace_all(t.as_str(), "__PERMUTE_MASK__", p.permute_mask);
    let t = replace_all(t.as_str(), "__DUP_EVEN_CODE__", p.dup_even_code);
    let t = replace_all(t.as_str(), "__DUP_ODD_CODE__", p.dup_odd_code);
    let t = replace_all(t.as_str(), "__SUM_REDUCE_CODE__", p.sum_reduce_code);
    let t = replace_all(t.as_str(), "__RECIP_SQRT_CODE__", p.recip_sqrt_code);
    let t = replace_all(t.as_str(), "__POPCOUNT_CODE__", p.popcount_code);
    let t = replace_all(t.as_str(), "__CMP_EQ_VAL__", p.cmp_eq_val);
    let t = replace_all(t.as_str(), "__CMP_NE_VAL__", p.cmp_ne_val);
    let t = replace_all(t.as_str(), "__CMP_LT_VAL__", p.cmp_lt_val);
    let t = replace_all(t.as_str(), "__CMP_LE_VAL__", p.cmp_le_val);
    let t = replace_all(t.as_str(), "__CMP_GT_VAL__", p.cmp_gt_val);
    let t = replace_all(t.as_str(), "__CMP_GE_VAL__", p.cmp_ge_val);
    let t = replace_all(t.as_str(), "__ONE_HALF_VAL__", p.one_half_val);
    let t = replace_all(t.as_str(), "__THREE_VAL__", p.three_val);
    t
}

/// The AVX2 placeholders and their values, in the order they are
/// replaced.
pub open spec fn avx2_substitutions(p: Param) -> Seq<(Seq<char>, Seq<char>)> {
    seq![
        ("__SCALAR_TYPE__"@, p.scalar_type@),
        ("__VECTOR_TYPE__"@, p.vector_type@),
        ("__VECTOR_UNDERLYING__"@, p.vector_underlying@),
        ("__MASK_TYPE__"@, p.mask_type@),
        ("__MASK_UNDERLYING__"@, p.mask_underlying@),
        ("__INDEX_VECTOR__"@, p.index_vector@),
        ("__INDEX_UNDERLYING__"@, p.index_underlying@),
        ("__LANE_COUNT__"@, decimal_of(p.lane_count)),
        ("__SCALE__"@, decimal_of(p.scale)),
        ("__PREFIX__"@, p.prefix@),
        ("__SUFFIX__"@, p.suffix@),
        ("__SUFFIX_UPPER__"@, p.suffix_upper@),
        ("__PERMUTE_MASK__"@, p.permute_mask@),
        ("__DUP_EVEN_CODE__"@, p.dup_even_code@),
        ("__DUP_ODD_CODE__"@, p.dup_odd_code@),
        ("__SUM_REDUCE_CODE__"@, p.sum_reduce_code@),
        ("__RECIP_SQRT_CODE__"@, p.recip_sqrt_code@),
        ("__POPCOUNT_CODE__"@, p.popcount_code@),
        ("__CMP_EQ_VAL__"@, p.cmp_eq_val@),
        ("__CMP_NE_VAL__"@, p.cmp_ne_val@),
        ("__CMP_LT_VAL__"@, p.cmp_lt_val@),
        ("__CMP_LE_VAL__"@, p.cmp_le_val@),
        ("__CMP_GT_VAL__"@, p.cmp_gt_val@),
        ("__CMP_GE_VAL__"@, p.cmp_ge_val@),
        ("__ONE_HALF_VAL__"@, p.one_half_val@),
        ("__THREE_VAL__"@, p.three_val@),
    ]
}

proof fn lemma_avx2_substitution(p: Param)
    ensures
        placeholders_from(avx2_substitutions(p), 0),
        render_avx2_spec(p) == substitute_from(AVX2_TEMPLATE@, avx2_substitutions(p), 0),
{
    reveal_strlit("__SCALAR_TYPE__");
    reveal_strlit("__VECTOR_TYPE__");
    reveal_strlit("__VECTOR_UNDERLYING__");
    reveal_strlit("__MASK_TYPE__");
    reveal_strlit("__MASK_UNDERLYING__");
    reveal_strlit("__INDEX_VECTOR__");
    reveal_strlit("__INDEX_UNDERLYING__");
    reveal_strlit("__LANE_COUNT__");
    reveal_strlit("__SCALE__");
    reveal_strlit("__PREFIX__");
    reveal_strlit("__SUFFIX__");
    reveal_strlit("__SUFFIX_UPPER__");
    reveal_strlit("__PERMUTE_MASK__");
    reveal_strlit("__DUP_EVEN_CODE__");
    reveal_strlit("__DUP_ODD_CODE__");
    reveal_strlit("__SUM_REDUCE_CODE__");
    reveal_strlit("__RECIP_SQRT_CODE__");
    reveal_strlit("__POPCOUNT_CODE__");
    reveal_strlit("__CMP_EQ_VAL__");
    reveal_strlit("__CMP_NE_VAL__");
    reveal_strlit("__CMP_LT_VAL__");
    reveal_strlit("__CMP_LE_VAL__");
    reveal_strlit("__CMP_GT_VAL__");
    reveal_strlit("__CMP_GE_VAL__");
    reveal_strlit("__ONE_HALF_VAL__");
    reveal_strlit("__THREE_VAL__");
    let subs = avx2_substitutions(p);
    assert forall|j: int| 0 <= j < subs.len() implies placeholder_like(#[trigger] subs[j].0) by {
    }
    reveal_with_fuel(substitute_from, 28);
}

/// Each placeholder of the AVX2 template turns into its own value of
/// `p`: where the template holds the placeholder followed by the character
/// (or underscore and character) shown, the rendered source holds that
/// value followed by the same text, for every value that holds no
/// placeholder itself.
#[verifier::spinoff_prover]
#[verifier::rlimit(100)]
pub proof fn lemma_avx2_places_values(p: Param)
    ensures
        no_placeholder(p.scalar_type@) ==> exists|before: Seq<char>, after: Seq<char>|
            render_avx2_spec(p) == before + (p.scalar_type@ + seq![' ']) + after,
        no_placeholder(p.vector_type@) ==> exists|before: Seq<char>, after: Seq<char>|
            render_avx2_spec(p) == before + (p.vector_type@ + seq!['(']) + after,
        no_placeholder(p.vector_underlying@) ==> exists|before: Seq<char>, after: Seq<char>|
            render_avx2_spec(p) == before + (p.vector_underlying@ + seq!['`']) + after,
        no_placeholder(p.mask_type@) ==> exists|before: Seq<char>, after: Seq<char>|
            render_avx2_spec(p) == before + (p.mask_type@ + seq!['(']) + after,
        no_placeholder(p.mask_underlying@) ==> exists|before: Seq<char>, after: Seq<char>|
            render_avx2_spec(p) == before + (p.mask_underlying@ + seq!['`']) + after,
        no_placeholder(p.index_vector@) ==> exists|before: Seq<char>, after: Seq<char>|
            render_avx2_spec(p) == before + (p.index_vector@ + seq!['(']) + after,
        no_placeholder(p.index_underlying@) ==> exists|before: Seq<char>, after: Seq<char>|
            render_avx2_spec(p) == before + (p.index_underlying@ + seq![')']) + after,
        no_placeholder(decimal_of(p.lane_count)) ==> exists|before: Seq<char>, after: Seq<char>|
            render_avx2_spec(p) == before + (decimal_of(p.lane_count) + seq!['-']) + after,
        no_placeholder(decimal_of(p.scale)) ==> exists|before: Seq<char>, after: Seq<char>|
            render_avx2_spec(p) == before + (decimal_of(p.scale) + seq![')']) + after,
        no_placeholder(p.prefix@) ==> exists|before: Seq<char>, after: Seq<char>|
            render_avx2_spec(p) == before + (p.prefix@ + seq!['_', 'b']) + after,
        no_placeholder(p.suffix@) ==> exists|before: Seq<char>, after: Seq<char>|
            render_avx2_spec(p) == before + (p.suffix@ + seq!['_', 's']) + after,
        no_placeholder(p.permute_mask@) ==> exists|before: Seq<char>, after: Seq<char>|
            render_avx2_spec(p) == before + (p.permute_mask@ + seq![')']) + after,
        no_placeholder(p.dup_even_code@) ==> exists|before: Seq<char>, after: Seq<char>|
            render_avx2_spec(p) == before + (p.dup_even_code@ + seq!['\n']) + after,
        no_placeholder(p.dup_odd_code@) ==> exists|before: Seq<char>, after: Seq<char>|
            render_avx2_spec(p) == before + (p.dup_odd_code@ + seq!['\n']) + after,
        no_placeholder(p.sum_reduce_code@) ==> exists|before: Seq<char>, after: Seq<char>|
            render_avx2_spec(p) == before + (p.sum_reduce_code@ + seq!['\n']) + after,
        no_placeholder(p.recip_sqrt_code@) ==> exists|before: Seq<char>, after: Seq<char>|
            render_avx2_spec(p) == before + (p.recip_sqrt_code@ + seq!['\n']) + after,
        no_placeholder(p.popcount_code@) ==> exists|before: Seq<char>, after: Seq<char>|
            render_avx2_spec(p) == before + (p.popcount_code@ + seq!['\n']) + after,
        no_placeholder(p.cmp_eq_val@) ==> exists|before: Seq<char>, after: Seq<char>|
            render_avx2_spec(p) == before + (p.cmp_eq_val@ + seq![')']) + after,
        no_placeholder(p.cmp_ne_val@) ==> exists|before: Seq<char>, after: Seq<char>|
            render_avx2_spec(p) == before + (p.cmp_ne_val@ + seq![')']) + after,
        no_placeholder(p.cmp_lt_val@) ==> exists|before: Seq<char>, after: Seq<char>|
            render_avx2_spec(p) == before + (p.cmp_lt_val@ + seq![')']) + after,
        no_placeholder(p.cmp_le_val@) ==> exists|before: Seq<char>, after: Seq<char>|
            render_avx2_spec(p) == before + (p.cmp_le_val@ + seq![')']) + after,
        no_placeholder(p.cmp_gt_val@) ==> exists|before: Seq<char>, after: Seq<char>|
            render_avx2_spec(p) == before + (p.cmp_gt_val@ + seq![')']) + after,
        no_placeholder(p.cmp_ge_val@) ==> exists|before: Seq<char>, after: Seq<char>|
            render_avx2_spec(p) == before + (p.cmp_ge_val@ + seq![')']) + after,
{
    reveal_strlit(r#"//! AVX2 __SCALAR_TYPE__ hardware kernel.
//!
//! __LANE_COUNT__-lane __SCALAR_TYPE__ (`__VECTOR_UNDERLYING__`). Masked operations use `__PREFIX___blendv___SUFFIX__`
//! (blend-by-sign-bit). Gather uses native `__PREFIX___i32gather___SUFFIX__` (scale = __SCALE__).
//! Compress/expand are emulated via scalar loops — AVX2 has no native
//! `vcompress` instruction (that requires AVX-512F).

use crate::Avx2;
#[cfg(any(target_arch = "x86", target_arch = "x86_64"))]
use core::arch::x86_64::*;
use hermes_simd_core::kernel::SimdKernel;

/// Newtype over `__VECTOR_UNDERLYING__` so `Send + Sync` can be implemented on the wrapper.
#[cfg(any(target_arch = "x86", target_arch = "x86_64"))]
#[repr(transparent)]
#[derive(Copy, Clone)]
pub struct __VECTOR_TYPE__(pub __VECTOR_UNDERLYING__);

#[cfg(any(target_arch = "x86", target_arch = "x86_64"))]
unsafe impl Send for __VECTOR_TYPE__ {}
#[cfg(any(target_arch = "x86", target_arch = "x86_64"))]
unsafe impl Sync for __VECTOR_TYPE__ {}

/// AVX2 __SCALAR_TYPE__ blend mask.
///
/// Stored as a `__MASK_UNDERLYING__` register. Lane `i` is active when the sign bit
/// of `mask[i]` is set.
#[cfg(any(target_arch = "x86", target_arch = "x86_64"))]
#[repr(transparent)]
#[derive(Copy, Clone)]
pub struct __MASK_TYPE__(pub __MASK_UNDERLYING__);

#[cfg(any(target_arch = "x86", target_arch = "x86_64"))]
unsafe impl Send for __MASK_TYPE__ {}
#[cfg(any(target_arch = "x86", target_arch = "x86_64"))]
unsafe impl Sync for __MASK_TYPE__ {}

/// AVX2 gather index vector.
#[cfg(any(target_arch = "x86", target_arch = "x86_64"))]
#[repr(transparent)]
#[derive(Copy, Clone)]
pub struct __INDEX_VECTOR__(pub __INDEX_UNDERLYING__);

#[cfg(any(target_arch = "x86", target_arch = "x86_64"))]
unsafe impl Send for __INDEX_VECTOR__ {}
#[cfg(any(target_arch = "x86", target_arch = "x86_64"))]
unsafe impl Sync for __INDEX_VECTOR__ {}

#[cfg(any(target_arch = "x86", target_arch = "x86_64"))]
impl SimdKernel<__SCALAR_TYPE__> for Avx2 {
    type Vector = __VECTOR_TYPE__;
    type Mask = __MASK_TYPE__;
    type IndexVector = __INDEX_VECTOR__;
    const LANE_COUNT: usize = __LANE_COUNT__;
    const UNROLL_FACTOR: usize = 4;

    // -----------------------------------------------------------------------
    // Load / store
    // -----------------------------------------------------------------------

    #[target_feature(enable = "avx2")]
    #[inline]
    unsafe fn load_aligned(ptr: *const __SCALAR_TYPE__) -> Self::Vector {
        __VECTOR_TYPE__(__PREFIX___load___SUFFIX__(ptr))
    }

    #[target_feature(enable = "avx2")]
    #[inline]
    unsafe fn load_unaligned(ptr: *const __SCALAR_TYPE__) -> Self::Vector {
        __VECTOR_TYPE__(__PREFIX___loadu___SUFFIX__(ptr))
    }

    #[target_feature(enable = "avx2")]
    #[inline]
    unsafe fn store_aligned(ptr: *mut __SCALAR_TYPE__, val: Self::Vector) {
        __PREFIX___store___SUFFIX__(ptr, val.0);
    }

    #[target_feature(enable = "avx2")]
    #[inline]
    unsafe fn store_unaligned(ptr: *mut __SCALAR_TYPE__, val: Self::Vector) {
        __PREFIX___storeu___SUFFIX__(ptr, val.0);
    }

    // -----------------------------------------------------------------------
    // Arithmetic
    // -----------------------------------------------------------------------

    #[target_feature(enable = "avx2")]
    #[inline]
    unsafe fn add(a: Self::Vector, b: Self::Vector) -> Self::Vector {
        __VECTOR_TYPE__(__PREFIX___add___SUFFIX__(a.0, b.0))
    }

    #[target_feature(enable = "avx2")]
    #[inline]
    unsafe fn mul(a: Self::Vector, b: Self::Vector) -> Self::Vector {
        __VECTOR_TYPE__(__PREFIX___mul___SUFFIX__(a.0, b.0))
    }

    #[target_feature(enable = "avx2")]
    #[inline]
    unsafe fn sub(a: Self::Vector, b: Self::Vector) -> Self::Vector {
        __VECTOR_TYPE__(__PREFIX___sub___SUFFIX__(a.0, b.0))
    }

    /// FMA requires `avx2` + `fma` target features.
    #[target_feature(enable = "avx2,fma")]
    #[inline]
    unsafe fn fmadd(a: Self::Vector, b: Self::Vector, c: Self::Vector) -> Self::Vector {
        __VECTOR_TYPE__(__PREFIX___fmadd___SUFFIX__(a.0, b.0, c.0))
    }

    #[target_feature(enable = "avx2")]
    #[inline]
    unsafe fn swap_adjacent(v: Self::Vector) -> Self::Vector {
        __VECTOR_TYPE__(__PREFIX___permute___SUFFIX__(v.0, __PERMUTE_MASK__))
    }

    #[target_feature(enable = "avx2")]
    #[inline]
    unsafe fn dup_even(v: Self::Vector) -> Self::Vector {
        __DUP_EVEN_CODE__
    }

    #[target_feature(enable = "avx2")]
    #[inline]
    unsafe fn dup_odd(v: Self::Vector) -> Self::Vector {
        __DUP_ODD_CODE__
    }

    /// Alternating FMA requires `avx2` + `fma` target features.
    #[target_feature(enable = "avx2,fma")]
    #[inline]
    unsafe fn fmaddsub(a: Self::Vector, b: Self::Vector, c: Self::Vector) -> Self::Vector {
        __VECTOR_TYPE__(__PREFIX___fmaddsub___SUFFIX__(a.0, b.0, c.0))
    }

    /// Alternating FMA requires `avx2` + `fma` target features.
    #[target_feature(enable = "avx2,fma")]
    #[inline]
    unsafe fn fmsubadd(a: Self::Vector, b: Self::Vector, c: Self::Vector) -> Self::Vector {
        __VECTOR_TYPE__(__PREFIX___fmsubadd___SUFFIX__(a.0, b.0, c.0))
    }

    #[target_feature(enable = "avx2")]
    #[inline]
    unsafe fn sum_reduce(v: Self::Vector) -> __SCALAR_TYPE__ {
        __SUM_REDUCE_CODE__
    }

    // -----------------------------------------------------------------------
    // Masked load / store
    // -----------------------------------------------------------------------

    /// Merge-masked load via `blendv`: sign bit of mask selects loaded vs src.
    #[target_feature(enable = "avx2")]
    #[inline]
    unsafe fn masked_load_unaligned(
        ptr: *const __SCALAR_TYPE__,
        mask: Self::Mask,
        src: Self::Vector,
    ) -> Self::Vector {
        let loaded = __PREFIX___loadu___SUFFIX__(ptr);
        __VECTOR_TYPE__(__PREFIX___blendv___SUFFIX__(src.0, loaded, mask.0))
    }

    /// Masked store via maskstore; only lanes with sign bit set are written.
    #[target_feature(enable = "avx2")]
    #[inline]
    unsafe fn masked_store_unaligned(ptr: *mut __SCALAR_TYPE__, mask: Self::Mask, val: Self::Vector) {
        __PREFIX___maskstore___SUFFIX__(ptr, __PREFIX___cast__SUFFIX___si256(mask.0), val.0);
    }

    // -----------------------------------------------------------------------
    // Masked arithmetic
    // -----------------------------------------------------------------------

    #[target_feature(enable = "avx2")]
    #[inline]
    unsafe fn masked_add(
        a: Self::Vector,
        b: Self::Vector,
        mask: Self::Mask,
        src: Self::Vector,
    ) -> Self::Vector {
        let result = __PREFIX___add___SUFFIX__(a.0, b.0);
        __VECTOR_TYPE__(__PREFIX___blendv___SUFFIX__(src.0, result, mask.0))
    }

    #[target_feature(enable = "avx2")]
    #[inline]
    unsafe fn masked_mul(
        a: Self::Vector,
        b: Self::Vector,
        mask: Self::Mask,
        src: Self::Vector,
    ) -> Self::Vector {
        let result = __PREFIX___mul___SUFFIX__(a.0, b.0);
        __VECTOR_TYPE__(__PREFIX___blendv___SUFFIX__(src.0, result, mask.0))
    }

    #[target_feature(enable = "avx2,fma")]
    #[inline]
    unsafe fn masked_fmadd(
        a: Self::Vector,
        b: Self::Vector,
        c: Self::Vector,
        mask: Self::Mask,
    ) -> Self::Vector {
        let result = __PREFIX___fmadd___SUFFIX__(a.0, b.0, c.0);
        __VECTOR_TYPE__(__PREFIX___blendv___SUFFIX__(c.0, result, mask.0))
    }

    #[target_feature(enable = "avx2")]
    #[inline]
    unsafe fn masked_sum_reduce(v: Self::Vector, mask: Self::Mask) -> __SCALAR_TYPE__ {
        let zero = __PREFIX___setzero___SUFFIX__();
        let selected = __PREFIX___blendv___SUFFIX__(zero, v.0, mask.0);
        Self::sum_reduce(__VECTOR_TYPE__(selected))
    }

    // -----------------------------------------------------------------------
    // Compress / Expand (emulated)
    // -----------------------------------------------------------------------

    #[target_feature(enable = "avx2")]
    #[inline]
    unsafe fn compress(src: Self::Vector, mask: Self::Mask) -> Self::Vector {
        let mask_bits = __PREFIX___movemask___SUFFIX__(mask.0) as u32;
        let mut arr = [0.0__SCALAR_TYPE__; __LANE_COUNT__];
        __PREFIX___storeu___SUFFIX__(arr.as_mut_ptr(), src.0);
        let mut out = [0.0__SCALAR_TYPE__; __LANE_COUNT__];
        let mut k = 0usize;
        for i in 0..__LANE_COUNT__ {
            if (mask_bits >> i) & 1 != 0 {
                out[k] = arr[i];
                k += 1;
            }
        }
        __VECTOR_TYPE__(__PREFIX___loadu___SUFFIX__(out.as_ptr()))
    }

    #[target_feature(enable = "avx2")]
    #[inline]
    unsafe fn expand(src: Self::Vector, mask: Self::Mask, fill: Self::Vector) -> Self::Vector {
        let mask_bits = __PREFIX___movemask___SUFFIX__(mask.0) as u32;
        let mut src_arr = [0.0__SCALAR_TYPE__; __LANE_COUNT__];
        __PREFIX___storeu___SUFFIX__(src_arr.as_mut_ptr(), src.0);
        let mut out_arr = [0.0__SCALAR_TYPE__; __LANE_COUNT__];
        __PREFIX___storeu___SUFFIX__(out_arr.as_mut_ptr(), fill.0);
        let mut k = 0usize;
        for i in 0..__LANE_COUNT__ {
            if (mask_bits >> i) & 1 != 0 {
                out_arr[i] = src_arr[k];
                k += 1;
            }
        }
        __VECTOR_TYPE__(__PREFIX___loadu___SUFFIX__(out_arr.as_ptr()))
    }

    // -----------------------------------------------------------------------
    // Gather
    // -----------------------------------------------------------------------

    #[target_feature(enable = "avx2")]
    #[inline]
    unsafe fn gather(base: *const __SCALAR_TYPE__, indices: Self::IndexVector) -> Self::Vector {
        __VECTOR_TYPE__(__PREFIX___i32gather___SUFFIX__(base, indices.0, __SCALE__))
    }

    #[target_feature(enable = "avx2")]
    #[inline]
    unsafe fn gather_masked(
        base: *const __SCALAR_TYPE__,
        indices: Self::IndexVector,
        mask: Self::Mask,
        src: Self::Vector,
    ) -> Self::Vector {
        __VECTOR_TYPE__(__PREFIX___mask_i32gather___SUFFIX__(src.0, base, indices.0, mask.0, __SCALE__))
    }

    // -----------------------------------------------------------------------
    // Mask construction
    // -----------------------------------------------------------------------

    #[target_feature(enable = "avx2")]
    #[inline]
    unsafe fn mask_from_bools(bits: &[bool]) -> Self::Mask {
        debug_assert_eq!(bits.len(), __LANE_COUNT__);
        let vals: [__SCALAR_TYPE__; __LANE_COUNT__] = core::array::from_fn(|i| {
            if bits[i] {
                <__SCALAR_TYPE__>::from_bits(!0)
            } else {
                0.0
            }
        });
        __MASK_TYPE__(__PREFIX___loadu___SUFFIX__(vals.as_ptr()))
    }

    #[target_feature(enable = "avx2")]
    #[inline]
    unsafe fn leading_k_mask(k: usize) -> Self::Mask {
        let k = k.min(__LANE_COUNT__);
        let vals: [__SCALAR_TYPE__; __LANE_COUNT__] = core::array::from_fn(|i| {
            if i < k {
                <__SCALAR_TYPE__>::from_bits(!0)
            } else {
                0.0
            }
        });
        __MASK_TYPE__(__PREFIX___loadu___SUFFIX__(vals.as_ptr()))
    }

    // -----------------------------------------------------------------------
    // Broadcast / zero
    // -----------------------------------------------------------------------

    #[target_feature(enable = "avx2")]
    #[inline]
    unsafe fn zero() -> Self::Vector {
        __VECTOR_TYPE__(__PREFIX___setzero___SUFFIX__())
    }

    #[target_feature(enable = "avx2")]
    #[inline]
    unsafe fn splat(val: __SCALAR_TYPE__) -> Self::Vector {
        __VECTOR_TYPE__(__PREFIX___set1___SUFFIX__(val))
    }

    #[target_feature(enable = "avx2")]
    #[inline]
    unsafe fn div(a: Self::Vector, b: Self::Vector) -> Self::Vector {
        __VECTOR_TYPE__(__PREFIX___div___SUFFIX__(a.0, b.0))
    }

    #[target_feature(enable = "avx2")]
    #[inline]
    unsafe fn bitand(a: Self::Vector, b: Self::Vector) -> Self::Vector {
        __VECTOR_TYPE__(__PREFIX___and___SUFFIX__(a.0, b.0))
    }

    #[target_feature(enable = "avx2")]
    #[inline]
    unsafe fn bitor(a: Self::Vector, b: Self::Vector) -> Self::Vector {
        __VECTOR_TYPE__(__PREFIX___or___SUFFIX__(a.0, b.0))
    }

    #[target_feature(enable = "avx2")]
    #[inline]
    unsafe fn bitxor(a: Self::Vector, b: Self::Vector) -> Self::Vector {
        __VECTOR_TYPE__(__PREFIX___xor___SUFFIX__(a.0, b.0))
    }

    #[target_feature(enable = "avx2")]
    #[inline]
    unsafe fn abs(a: Self::Vector) -> Self::Vector {
        let sign_mask = __PREFIX___set1___SUFFIX__(-0.0);
        __VECTOR_TYPE__(__PREFIX___andnot___SUFFIX__(sign_mask, a.0))
    }

    #[target_feature(enable = "avx2")]
    #[inline]
    unsafe fn min(a: Self::Vector, b: Self::Vector) -> Self::Vector {
        __VECTOR_TYPE__(__PREFIX___min___SUFFIX__(a.0, b.0))
    }

    #[target_feature(enable = "avx2")]
    #[inline]
    unsafe fn max(a: Self::Vector, b: Self::Vector) -> Self::Vector {
        __VECTOR_TYPE__(__PREFIX___max___SUFFIX__(a.0, b.0))
    }

    #[target_feature(enable = "avx2")]
    #[inline]
    unsafe fn sqrt(a: Self::Vector) -> Self::Vector {
        __VECTOR_TYPE__(__PREFIX___sqrt___SUFFIX__(a.0))
    }

    #[target_feature(enable = "avx2")]
    #[inline]
    unsafe fn recip_sqrt(a: Self::Vector) -> Self::Vector {
        __RECIP_SQRT_CODE__
    }

    #[target_feature(enable = "avx2")]
    #[inline]
    unsafe fn popcount(a: Self::Vector) -> Self::Vector {
        __POPCOUNT_CODE__
    }

    #[target_feature(enable = "avx2")]
    #[inline]
    unsafe fn cmp_eq(a: Self::Vector, b: Self::Vector) -> Self::Vector {
        __VECTOR_TYPE__(__PREFIX___cmp___SUFFIX__(a.0, b.0, __CMP_EQ_VAL__))
    }

    #[target_feature(enable = "avx2")]
    #[inline]
    unsafe fn cmp_ne(a: Self::Vector, b: Self::Vector) -> Self::Vector {
        __VECTOR_TYPE__(__PREFIX___cmp___SUFFIX__(a.0, b.0, __CMP_NE_VAL__))
    }

    #[target_feature(enable = "avx2")]
    #[inline]
    unsafe fn cmp_lt(a: Self::Vector, b: Self::Vector) -> Self::Vector {
        __VECTOR_TYPE__(__PREFIX___cmp___SUFFIX__(a.0, b.0, __CMP_LT_VAL__))
    }

    #[target_feature(enable = "avx2")]
    #[inline]
    unsafe fn cmp_le(a: Self::Vector, b: Self::Vector) -> Self::Vector {
        __VECTOR_TYPE__(__PREFIX___cmp___SUFFIX__(a.0, b.0, __CMP_LE_VAL__))
    }

    #[target_feature(enable = "avx2")]
    #[inline]
    unsafe fn cmp_gt(a: Self::Vector, b: Self::Vector) -> Self::Vector {
        __VECTOR_TYPE__(__PREFIX___cmp___SUFFIX__(a.0, b.0, __CMP_GT_VAL__))
    }

    #[target_feature(enable = "avx2")]
    #[inline]
    unsafe fn cmp_ge(a: Self::Vector, b: Self::Vector) -> Self::Vector {
        __VECTOR_TYPE__(__PREFIX___cmp___SUFFIX__(a.0, b.0, __CMP_GE_VAL__))
    }

    #[target_feature(enable = "avx2")]
    #[inline]
    unsafe fn blend(
        mask: Self::Vector,
        true_val: Self::Vector,
        false_val: Self::Vector,
    ) -> Self::Vector {
        __VECTOR_TYPE__(__PREFIX___blendv___SUFFIX__(false_val.0, true_val.0, mask.0))
    }

    #[target_feature(enable = "avx2")]
    #[inline]
    unsafe fn mask_to_bitmask(mask: Self::Mask) -> u64 {
        __PREFIX___movemask___SUFFIX__(mask.0) as u64
    }

    #[target_feature(enable = "avx2")]
    #[inline]
    unsafe fn mask_to_vector(mask: Self::Mask) -> Self::Vector {
        __VECTOR_TYPE__(mask.0)
    }
}
"#);
    let text = AVX2_TEMPLATE@;
    let subs = avx2_substitutions(p);
    lemma_avx2_substitution(p);
    reveal_strlit("__SCALAR_TYPE__");
    reveal_strlit("__VECTOR_TYPE__");
    reveal_strlit("__VECTOR_UNDERLYING__");
    reveal_strlit("__MASK_TYPE__");
    reveal_strlit("__MASK_UNDERLYING__");
    reveal_strlit("__INDEX_VECTOR__");
    reveal_strlit("__INDEX_UNDERLYING__");
    reveal_strlit("__LANE_COUNT__");
    reveal_strlit("__SCALE__");
    reveal_strlit("__PREFIX__");
    reveal_strlit("__SUFFIX__");
    reveal_strlit("__SUFFIX_UPPER__");
    reveal_strlit("__PERMUTE_MASK__");
    reveal_strlit("__DUP_EVEN_CODE__");
    reveal_strlit("__DUP_ODD_CODE__");
    reveal_strlit("__SUM_REDUCE_CODE__");
    reveal_strlit("__RECIP_SQRT_CODE__");
    reveal_strlit("__POPCOUNT_CODE__");
    reveal_strlit("__CMP_EQ_VAL__");
    reveal_strlit("__CMP_NE_VAL__");
    reveal_strlit("__CMP_LT_VAL__");
    reveal_strlit("__CMP_LE_VAL__");
    reveal_strlit("__CMP_GT_VAL__");
    reveal_strlit("__CMP_GE_VAL__");
    reveal_strlit("__ONE_HALF_VAL__");
    reveal_strlit("__THREE_VAL__");
    if no_placeholder(p.scalar_type@) {
        let tail = seq![' '];
        let piece = subs[0].0 + tail;
        assert(subs[0].0 == "__SCALAR_TYPE__"@ && subs[0].1 == p.scalar_type@);
        assert(text.subrange(9, 25) =~= piece);
        assert(no_placeholder(tail)) by {
            assert forall|q: int| 0 <= q && q + 3 <= tail.len() implies !#[trigger] starts_placeholder(tail, q) by {}
        }
        assert(no_placeholder(piece.drop_first())) by {
            let d = piece.drop_first();
            assert forall|q: int| 0 <= q && q + 3 <= d.len() implies !#[trigger] starts_placeholder(d, q) by {}
        }

        lemma_substitute_occurrence(text, 9, tail, subs, 0);
    }
    if no_placeholder(p.vector_type@) {
        let tail = seq!['('];
        let piece = subs[1].0 + tail;
        assert(subs[1].0 == "__VECTOR_TYPE__"@ && subs[1].1 == p.vector_type@);
        assert(text.subrange(740, 756) =~= piece);
        assert(no_placeholder(tail)) by {
            assert forall|q: int| 0 <= q && q + 3 <= tail.len() implies !#[trigger] starts_placeholder(tail, q) by {}
        }
        assert(no_placeholder(piece.drop_first())) by {
            let d = piece.drop_first();
            assert forall|q: int| 0 <= q && q + 3 <= d.len() implies !#[trigger] starts_placeholder(d, q) by {}
        }
        assert(!begins_with(piece, subs[0].0)) by { assert(prefix_as_long_as(piece, subs[0].0)[2] != subs[0].0[2]); }
        lemma_substitute_occurrence(text, 740, tail, subs, 1);
    }
    if no_placeholder(p.vector_underlying@) {
        let tail = seq!['`'];
        let piece = subs[2].0 + tail;
        assert(subs[2].0 == "__VECTOR_UNDERLYING__"@ && subs[2].1 == p.vector_underlying@);
        assert(text.subrange(88, 110) =~= piece);
        assert(no_placeholder(tail)) by {
            assert forall|q: int| 0 <= q && q + 3 <= tail.len() implies !#[trigger] starts_placeholder(tail, q) by {}
        }
        assert(no_placeholder(piece.drop_first())) by {
            let d = piece.drop_first();
            assert forall|q: int| 0 <= q && q + 3 <= d.len() implies !#[trigger] starts_placeholder(d, q) by {}
        }
        assert(!begins_with(piece, subs[0].0)) by { assert(prefix_as_long_as(piece, subs[0].0)[2] != subs[0].0[2]); }
        assert(!begins_with(piece, subs[1].0)) by { assert(prefix_as_long_as(piece, subs[1].0)[9] != subs[1].0[9]); }
        lemma_substitute_occurrence(text, 88, tail, subs, 2);
    }
    if no_placeholder(p.mask_type@) {
        let tail = seq!['('];
        let piece = subs[3].0 + tail;
        assert(subs[3].0 == "__MASK_TYPE__"@ && subs[3].1 == p.mask_type@);
        assert(text.subrange(1243, 1257) =~= piece);
        assert(no_placeholder(tail)) by {
            assert forall|q: int| 0 <= q && q + 3 <= tail.len() implies !#[trigger] starts_placeholder(tail, q) by {}
        }
        assert(no_placeholder(piece.drop_first())) by {
            let d = piece.drop_first();
            assert forall|q: int| 0 <= q && q + 3 <= d.len() implies !#[trigger] starts_placeholder(d, q) by {}
        }
        assert(!begins_with(piece, subs[0].0)) by { assert(subs[0].0.len() > piece.len()); }
        assert(!begins_with(piece, subs[1].0)) by { assert(subs[1].0.len() > piece.len()); }
        assert(!begins_with(piece, subs[2].0)) by { assert(subs[2].0.len() > piece.len()); }
        lemma_substitute_occurrence(text, 1243, tail, subs, 3);
    }
    if no_placeholder(p.mask_underlying@) {
        let tail = seq!['`'];
        let piece = subs[4].0 + tail;
        assert(subs[4].0 == "__MASK_UNDERLYING__"@ && subs[4].1 == p.mask_underlying@);
        assert(text.subrange(1038, 1058) =~= piece);
        assert(no_placeholder(tail)) by {
            assert forall|q: int| 0 <= q && q + 3 <= tail.len() implies !#[trigger] starts_placeholder(tail, q) by {}
        }
        assert(no_placeholder(piece.drop_first())) by {
            let d = piece.drop_first();
            assert forall|q: int| 0 <= q && q + 3 <= d.len() implies !#[trigger] starts_placeholder(d, q) by {}
        }
        assert(!begins_with(piece, subs[0].0)) by { assert(prefix_as_long_as(piece, subs[0].0)[2] != subs[0].0[2]); }
        assert(!begins_with(piece, subs[1].0)) by { assert(prefix_as_long_as(piece, subs[1].0)[2] != subs[1].0[2]); }
        assert(!begins_with(piece, subs[2].0)) by { assert(subs[2].0.len() > piece.len()); }
        assert(!begins_with(piece, subs[3].0)) by { assert(prefix_as_long_as(piece, subs[3].0)[7] != subs[3].0[7]); }
        lemma_substitute_occurrence(text, 1038, tail, subs, 4);
    }
    if no_placeholder(p.index_vector@) {
        let tail = seq!['('];
        let piece = subs[5].0 + tail;
        assert(subs[5].0 == "__INDEX_VECTOR__"@ && subs[5].1 == p.index_vector@);
        assert(text.subrange(1617, 1634) =~= piece);
        assert(no_placeholder(tail)) by {
            assert forall|q: int| 0 <= q && q + 3 <= tail.len() implies !#[trigger] starts_placeholder(tail, q) by {}
        }
        assert(no_placeholder(piece.drop_first())) by {
            let d = piece.drop_first();
            assert forall|q: int| 0 <= q && q + 3 <= d.len() implies !#[trigger] starts_placeholder(d, q) by {}
        }
        assert(!begins_with(piece, subs[0].0)) by { assert(prefix_as_long_as(piece, subs[0].0)[2] != subs[0].0[2]); }
        assert(!begins_with(piece, subs[1].0)) by { assert(prefix_as_long_as(piece, subs[1].0)[2] != subs[1].0[2]); }
        assert(!begins_with(piece, subs[2].0)) by { assert(subs[2].0.len() > piece.len()); }
        assert(!begins_with(piece, subs[3].0)) by { assert(prefix_as_long_as(piece, subs[3].0)[2] != subs[3].0[2]); }
        assert(!begins_with(piece, subs[4].0)) by { assert(subs[4].0.len() > piece.len()); }
        lemma_substitute_occurrence(text, 1617, tail, subs, 5);
    }
    if no_placeholder(p.index_underlying@) {
        let tail = seq![')'];
        let piece = subs[6].0 + tail;
        assert(subs[6].0 == "__INDEX_UNDERLYING__"@ && subs[6].1 == p.index_underlying@);
        assert(text.subrange(1638, 1659) =~= piece);
        assert(no_placeholder(tail)) by {
            assert forall|q: int| 0 <= q && q + 3 <= tail.len() implies !#[trigger] starts_placeholder(tail, q) by {}
        }
        assert(no_placeholder(piece.drop_first())) by {
            let d = piece.drop_first();
            assert forall|q: int| 0 <= q && q + 3 <= d.len() implies !#[trigger] starts_placeholder(d, q) by {}
        }
        assert(!begins_with(piece, subs[0].0)) by { assert(prefix_as_long_as(piece, subs[0].0)[2] != subs[0].0[2]); }
        assert(!begins_with(piece, subs[1].0)) by { assert(prefix_as_long_as(piece, subs[1].0)[2] != subs[1].0[2]); }
        assert(!begins_with(piece, subs[2].0)) by { assert(prefix_as_long_as(piece, subs[2].0)[2] != subs[2].0[2]); }
        assert(!begins_with(piece, subs[3].0)) by { assert(prefix_as_long_as(piece, subs[3].0)[2] != subs[3].0[2]); }
        assert(!begins_with(piece, subs[4].0)) by { assert(prefix_as_long_as(piece, subs[4].0)[2] != subs[4].0[2]); }
        assert(!begins_with(piece, subs[5].0)) by { assert(prefix_as_long_as(piece, subs[5].0)[8] != subs[5].0[8]); }
        lemma_substitute_occurrence(text, 1638, tail, subs, 6);
    }
    if no_placeholder(decimal_of(p.lane_count)) {
        let tail = seq!['-'];
        let piece = subs[7].0 + tail;
        assert(subs[7].0 == "__LANE_COUNT__"@ && subs[7].1 == decimal_of(p.lane_count));
        assert(text.subrange(50, 65) =~= piece);
        assert(no_placeholder(tail)) by {
            assert forall|q: int| 0 <= q && q + 3 <= tail.len() implies !#[trigger] starts_placeholder(tail, q) by {}
        }
        assert(no_placeholder(piece.drop_first())) by {
            let d = piece.drop_first();
            assert forall|q: int| 0 <= q && q + 3 <= d.len() implies !#[trigger] starts_placeholder(d, q) by {}
        }
        assert(!begins_with(piece, subs[0].0)) by { assert(prefix_as_long_as(piece, subs[0].0)[2] != subs[0].0[2]); }
        assert(!begins_with(piece, subs[1].0)) by { assert(prefix_as_long_as(piece, subs[1].0)[2] != subs[1].0[2]); }
        assert(!begins_with(piece, subs[2].0)) by { assert(subs[2].0.len() > piece.len()); }
        assert(!begins_with(piece, subs[3].0)) by { assert(prefix_as_long_as(piece, subs[3].0)[2] != subs[3].0[2]); }
        assert(!begins_with(piece, subs[4].0)) by { assert(subs[4].0.len() > piece.len()); }
        assert(!begins_with(piece, subs[5].0)) by { assert(subs[5].0.len() > piece.len()); }
        assert(!begins_with(piece, subs[6].0)) by { assert(subs[6].0.len() > piece.len()); }
        lemma_substitute_occurrence(text, 50, tail, subs, 7);
    }
    if no_placeholder(decimal_of(p.scale)) {
        let tail = seq![')'];
        let piece = subs[8].0 + tail;
        assert(subs[8].0 == "__SCALE__"@ && subs[8].1 == decimal_of(p.scale));
        assert(text.subrange(253, 263) =~= piece);
        assert(no_placeholder(tail)) by {
            assert forall|q: int| 0 <= q && q + 3 <= tail.len() implies !#[trigger] starts_placeholder(tail, q) by {}
        }
        assert(no_placeholder(piece.drop_first())) by {
            let d = piece.drop_first();
            assert forall|q: int| 0 <= q && q + 3 <= d.len() implies !#[trigger] starts_placeholder(d, q) by {}
        }
        assert(!begins_with(piece, subs[0].0)) by { assert(subs[0].0.len() > piece.len()); }
        assert(!begins_with(piece, subs[1].0)) by { assert(subs[1].0.len() > piece.len()); }
        assert(!begins_with(piece, subs[2].0)) by { assert(subs[2].0.len() > piece.len()); }
        assert(!begins_with(piece, subs[3].0)) by { assert(subs[3].0.len() > piece.len()); }
        assert(!begins_with(piece, subs[4].0)) by { assert(subs[4].0.len() > piece.len()); }
        assert(!begins_with(piece, subs[5].0)) by { assert(subs[5].0.len() > piece.len()); }
        assert(!begins_with(piece, subs[6].0)) by { assert(subs[6].0.len() > piece.len()); }
        assert(!begins_with(piece, subs[7].0)) by { assert(subs[7].0.len() > piece.len()); }
        lemma_substitute_occurrence(text, 253, tail, subs, 8);
    }
    if no_placeholder(p.prefix@) {
        let tail = seq!['_', 'b'];
        let piece = subs[9].0 + tail;
        assert(subs[9].0 == "__PREFIX__"@ && subs[9].1 == p.prefix@);
        assert(text.subrange(136, 148) =~= piece);
        assert(no_placeholder(tail)) by {
            assert forall|q: int| 0 <= q && q + 3 <= tail.len() implies !#[trigger] starts_placeholder(tail, q) by {}
        }
        assert(no_placeholder(piece.drop_first())) by {
            let d = piece.drop_first();
            assert forall|q: int| 0 <= q && q + 3 <= d.len() implies !#[trigger] starts_placeholder(d, q) by {}
        }
        assert(!begins_with(piece, subs[0].0)) by { assert(subs[0].0.len() > piece.len()); }
        assert(!begins_with(piece, subs[1].0)) by { assert(subs[1].0.len() > piece.len()); }
        assert(!begins_with(piece, subs[2].0)) by { assert(subs[2].0.len() > piece.len()); }
        assert(!begins_with(piece, subs[3].0)) by { assert(subs[3].0.len() > piece.len()); }
        assert(!begins_with(piece, subs[4].0)) by { assert(subs[4].0.len() > piece.len()); }
        assert(!begins_with(piece, subs[5].0)) by { assert(subs[5].0.len() > piece.len()); }
        assert(!begins_with(piece, subs[6].0)) by { assert(subs[6].0.len() > piece.len()); }
        assert(!begins_with(piece, subs[7].0)) by { assert(subs[7].0.len() > piece.len()); }
        assert(!begins_with(piece, subs[8].0)) by { assert(prefix_as_long_as(piece, subs[8].0)[2] != subs[8].0[2]); }
        lemma_substitute_occurrence(text, 136, tail, subs, 9);
    }
    if no_placeholder(p.suffix@) {
        let tail = seq!['_', 's'];
        let piece = subs[10].0 + tail;
        assert(subs[10].0 == "__SUFFIX__"@ && subs[10].1 == p.suffix@);
        assert(text.subrange(6236, 6248) =~= piece);
        assert(no_placeholder(tail)) by {
            assert forall|q: int| 0 <= q && q + 3 <= tail.len() implies !#[trigger] starts_placeholder(tail, q) by {}
        }
        assert(no_placeholder(piece.drop_first())) by {
            let d = piece.drop_first();
            assert forall|q: int| 0 <= q && q + 3 <= d.len() implies !#[trigger] starts_placeholder(d, q) by {}
        }
        assert(!begins_with(piece, subs[0].0)) by { assert(subs[0].0.len() > piece.len()); }
        assert(!begins_with(piece, subs[1].0)) by { assert(subs[1].0.len() > piece.len()); }
        assert(!begins_with(piece, subs[2].0)) by { assert(subs[2].0.len() > piece.len()); }
        assert(!begins_with(piece, subs[3].0)) by { assert(subs[3].0.len() > piece.len()); }
        assert(!begins_with(piece, subs[4].0)) by { assert(subs[4].0.len() > piece.len()); }
        assert(!begins_with(piece, subs[5].0)) by { assert(subs[5].0.len() > piece.len()); }
        assert(!begins_with(piece, subs[6].0)) by { assert(subs[6].0.len() > piece.len()); }
        assert(!begins_with(piece, subs[7].0)) by { assert(subs[7].0.len() > piece.len()); }
        assert(!begins_with(piece, subs[8].0)) by { assert(prefix_as_long_as(piece, subs[8].0)[3] != subs[8].0[3]); }
        assert(!begins_with(piece, subs[9].0)) by { assert(prefix_as_long_as(piece, subs[9].0)[2] != subs[9].0[2]); }
        lemma_substitute_occurrence(text, 6236, tail, subs, 10);
    }
    if no_placeholder(p.permute_mask@) {
        let tail = seq![')'];
        let piece = subs[12].0 + tail;
        assert(subs[12].0 == "__PERMUTE_MASK__"@ && subs[12].1 == p.permute_mask@);
        assert(text.subrange(4286, 4303) =~= piece);
        assert(no_placeholder(tail)) by {
            assert forall|q: int| 0 <= q && q + 3 <= tail.len() implies !#[trigger] starts_placeholder(tail, q) by {}
        }
        assert(no_placeholder(piece.drop_first())) by {
            let d = piece.drop_first();
            assert forall|q: int| 0 <= q && q + 3 <= d.len() implies !#[trigger] starts_placeholder(d, q) by {}
        }
        assert(!begins_with(piece, subs[0].0)) by { assert(prefix_as_long_as(piece, subs[0].0)[2] != subs[0].0[2]); }
        assert(!begins_with(piece, subs[1].0)) by { assert(prefix_as_long_as(piece, subs[1].0)[2] != subs[1].0[2]); }
        assert(!begins_with(piece, subs[2].0)) by { assert(subs[2].0.len() > piece.len()); }
        assert(!begins_with(piece, subs[3].0)) by { assert(prefix_as_long_as(piece, subs[3].0)[2] != subs[3].0[2]); }
        assert(!begins_with(piece, subs[4].0)) by { assert(subs[4].0.len() > piece.len()); }
        assert(!begins_with(piece, subs[5].0)) by { assert(prefix_as_long_as(piece, subs[5].0)[2] != subs[5].0[2]); }
        assert(!begins_with(piece, subs[6].0)) by { assert(subs[6].0.len() > piece.len()); }
        assert(!begins_with(piece, subs[7].0)) by { assert(prefix_as_long_as(piece, subs[7].0)[2] != subs[7].0[2]); }
        assert(!begins_with(piece, subs[8].0)) by { assert(prefix_as_long_as(piece, subs[8].0)[2] != subs[8].0[2]); }
        assert(!begins_with(piece, subs[9].0)) by { assert(prefix_as_long_as(piece, subs[9].0)[3] != subs[9].0[3]); }
        assert(!begins_with(piece, subs[10].0)) by { assert(prefix_as_long_as(piece, subs[10].0)[2] != subs[10].0[2]); }
        assert(!begins_with(piece, subs[11].0)) by { assert(prefix_as_long_as(piece, subs[11].0)[2] != subs[11].0[2]); }
        lemma_substitute_occurrence(text, 4286, tail, subs, 12);
    }
    if no_placeholder(p.dup_even_code@) {
        let tail = seq!['\n'];
        let piece = subs[13].0 + tail;
        assert(subs[13].0 == "__DUP_EVEN_CODE__"@ && subs[13].1 == p.dup_even_code@);
        assert(text.subrange(4431, 4449) =~= piece);
        assert(no_placeholder(tail)) by {
            assert forall|q: int| 0 <= q && q + 3 <= tail.len() implies !#[trigger] starts_placeholder(tail, q) by {}
        }
        assert(no_placeholder(piece.drop_first())) by {
            let d = piece.drop_first();
            assert forall|q: int| 0 <= q && q + 3 <= d.len() implies !#[trigger] starts_placeholder(d, q) by {}
        }
        assert(!begins_with(piece, subs[0].0)) by { assert(prefix_as_long_as(piece, subs[0].0)[2] != subs[0].0[2]); }
        assert(!begins_with(piece, subs[1].0)) by { assert(prefix_as_long_as(piece, subs[1].0)[2] != subs[1].0[2]); }
        assert(!begins_with(piece, subs[2].0)) by { assert(subs[2].0.len() > piece.len()); }
        assert(!begins_with(piece, subs[3].0)) by { assert(prefix_as_long_as(piece, subs[3].0)[2] != subs[3].0[2]); }
        assert(!begins_with(piece, subs[4].0)) by { assert(subs[4].0.len() > piece.len()); }
        assert(!begins_with(piece, subs[5].0)) by { assert(prefix_as_long_as(piece, subs[5].0)[2] != subs[5].0[2]); }
        assert(!begins_with(piece, subs[6].0)) by { assert(subs[6].0.len() > piece.len()); }
        assert(!begins_with(piece, subs[7].0)) by { assert(prefix_as_long_as(piece, subs[7].0)[2] != subs[7].0[2]); }
        assert(!begins_with(piece, subs[8].0)) by { assert(prefix_as_long_as(piece, subs[8].0)[2] != subs[8].0[2]); }
        assert(!begins_with(piece, subs[9].0)) by { assert(prefix_as_long_as(piece, subs[9].0)[2] != subs[9].0[2]); }
        assert(!begins_with(piece, subs[10].0)) by { assert(prefix_as_long_as(piece, subs[10].0)[2] != subs[10].0[2]); }
        assert(!begins_with(piece, subs[11].0)) by { assert(prefix_as_long_as(piece, subs[11].0)[2] != subs[11].0[2]); }
        assert(!begins_with(piece, subs[12].0)) by { assert(prefix_as_long_as(piece, subs[12].0)[2] != subs[12].0[2]); }
        lemma_substitute_occurrence(text, 4431, tail, subs, 13);
    }
    if no_placeholder(p.dup_odd_code@) {
        let tail = seq!['\n'];
        let piece = subs[14].0 + tail;
        assert(subs[14].0 == "__DUP_ODD_CODE__"@ && subs[14].1 == p.dup_odd_code@);
        assert(text.subrange(4574, 4591) =~= piece);
        assert(no_placeholder(tail)) by {
            assert forall|q: int| 0 <= q && q + 3 <= tail.len() implies !#[trigger] starts_placeholder(tail, q) by {}
        }
        assert(no_placeholder(piece.drop_first())) by {
            let d = piece.drop_first();
            assert forall|q: int| 0 <= q && q + 3 <= d.len() implies !#[trigger] starts_placeholder(d, q) by {}
        }
        assert(!begins_with(piece, subs[0].0)) by { assert(prefix_as_long_as(piece, subs[0].0)[2] != subs[0].0[2]); }
        assert(!begins_with(piece, subs[1].0)) by { assert(prefix_as_long_as(piece, subs[1].0)[2] != subs[1].0[2]); }
        assert(!begins_with(piece, subs[2].0)) by { assert(subs[2].0.len() > piece.len()); }
        assert(!begins_with(piece, subs[3].0)) by { assert(prefix_as_long_as(piece, subs[3].0)[2] != subs[3].0[2]); }
        assert(!begins_with(piece, subs[4].0)) by { assert(subs[4].0.len() > piece.len()); }
        assert(!begins_with(piece, subs[5].0)) by { assert(prefix_as_long_as(piece, subs[5].0)[2] != subs[5].0[2]); }
        assert(!begins_with(piece, subs[6].0)) by { assert(subs[6].0.len() > piece.len()); }
        assert(!begins_with(piece, subs[7].0)) by { assert(prefix_as_long_as(piece, subs[7].0)[2] != subs[7].0[2]); }
        assert(!begins_with(piece, subs[8].0)) by { assert(prefix_as_long_as(piece, subs[8].0)[2] != subs[8].0[2]); }
        assert(!begins_with(piece, subs[9].0)) by { assert(prefix_as_long_as(piece, subs[9].0)[2] != subs[9].0[2]); }
        assert(!begins_with(piece, subs[10].0)) by { assert(prefix_as_long_as(piece, subs[10].0)[2] != subs[10].0[2]); }
        assert(!begins_with(piece, subs[11].0)) by { assert(prefix_as_long_as(piece, subs[11].0)[2] != subs[11].0[2]); }
        assert(!begins_with(piece, subs[12].0)) by { assert(prefix_as_long_as(piece, subs[12].0)[2] != subs[12].0[2]); }
        assert(!begins_with(piece, subs[13].0)) by { assert(prefix_as_long_as(piece, subs[13].0)[6] != subs[13].0[6]); }
        lemma_substitute_occurrence(text, 4574, tail, subs, 14);
    }
    if no_placeholder(p.sum_reduce_code@) {
        let tail = seq!['\n'];
        let piece = subs[15].0 + tail;
        assert(subs[15].0 == "__SUM_REDUCE_CODE__"@ && subs[15].1 == p.sum_reduce_code@);
        assert(text.subrange(5306, 5326) =~= piece);
        assert(no_placeholder(tail)) by {
            assert forall|q: int| 0 <= q && q + 3 <= tail.len() implies !#[trigger] starts_placeholder(tail, q) by {}
        }
        assert(no_placeholder(piece.drop_first())) by {
            let d = piece.drop_first();
            assert forall|q: int| 0 <= q && q + 3 <= d.len() implies !#[trigger] starts_placeholder(d, q) by {}
        }
        assert(!begins_with(piece, subs[0].0)) by { assert(prefix_as_long_as(piece, subs[0].0)[3] != subs[0].0[3]); }
        assert(!begins_with(piece, subs[1].0)) by { assert(prefix_as_long_as(piece, subs[1].0)[2] != subs[1].0[2]); }
        assert(!begins_with(piece, subs[2].0)) by { assert(subs[2].0.len() > piece.len()); }
        assert(!begins_with(piece, subs[3].0)) by { assert(prefix_as_long_as(piece, subs[3].0)[2] != subs[3].0[2]); }
        assert(!begins_with(piece, subs[4].0)) by { assert(prefix_as_long_as(piece, subs[4].0)[2] != subs[4].0[2]); }
        assert(!begins_with(piece, subs[5].0)) by { assert(prefix_as_long_as(piece, subs[5].0)[2] != subs[5].0[2]); }
        assert(!begins_with(piece, subs[6].0)) by { assert(prefix_as_long_as(piece, subs[6].0)[2] != subs[6].0[2]); }
        assert(!begins_with(piece, subs[7].0)) by { assert(prefix_as_long_as(piece, subs[7].0)[2] != subs[7].0[2]); }
        assert(!begins_with(piece, subs[8].0)) by { assert(prefix_as_long_as(piece, subs[8].0)[3] != subs[8].0[3]); }
        assert(!begins_with(piece, subs[9].0)) by { assert(prefix_as_long_as(piece, subs[9].0)[2] != subs[9].0[2]); }
        assert(!begins_with(piece, subs[10].0)) by { assert(prefix_as_long_as(piece, subs[10].0)[4] != subs[10].0[4]); }
        assert(!begins_with(piece, subs[11].0)) by { assert(prefix_as_long_as(piece, subs[11].0)[4] != subs[11].0[4]); }
        assert(!begins_with(piece, subs[12].0)) by { assert(prefix_as_long_as(piece, subs[12].0)[2] != subs[12].0[2]); }
        assert(!begins_with(piece, subs[13].0)) by { assert(prefix_as_long_as(piece, subs[13].0)[2] != subs[13].0[2]); }
        assert(!begins_with(piece, subs[14].0)) by { assert(prefix_as_long_as(piece, subs[14].0)[2] != subs[14].0[2]); }
        lemma_substitute_occurrence(text, 5306, tail, subs, 15);
    }
    if no_placeholder(p.recip_sqrt_code@) {
        let tail = seq!['\n'];
        let piece = subs[16].0 + tail;
        assert(subs[16].0 == "__RECIP_SQRT_CODE__"@ && subs[16].1 == p.recip_sqrt_code@);
        assert(text.subrange(13488, 13508) =~= piece);
        assert(no_placeholder(tail)) by {
            assert forall|q: int| 0 <= q && q + 3 <= tail.len() implies !#[trigger] starts_placeholder(tail, q) by {}
        }
        assert(no_placeholder(piece.drop_first())) by {
            let d = piece.drop_first();
            assert forall|q: int| 0 <= q && q + 3 <= d.len() implies !#[trigger] starts_placeholder(d, q) by {}
        }
        assert(!begins_with(piece, subs[0].0)) by { assert(prefix_as_long_as(piece, subs[0].0)[2] != subs[0].0[2]); }
        assert(!begins_with(piece, subs[1].0)) by { assert(prefix_as_long_as(piece, subs[1].0)[2] != subs[1].0[2]); }
        assert(!begins_with(piece, subs[2].0)) by { assert(subs[2].0.len() > piece.len()); }
        assert(!begins_with(piece, subs[3].0)) by { assert(prefix_as_long_as(piece, subs[3].0)[2] != subs[3].0[2]); }
        assert(!begins_with(piece, subs[4].0)) by { assert(prefix_as_long_as(piece, subs[4].0)[2] != subs[4].0[2]); }
        assert(!begins_with(piece, subs[5].0)) by { assert(prefix_as_long_as(piece, subs[5].0)[2] != subs[5].0[2]); }
        assert(!begins_with(piece, subs[6].0)) by { assert(prefix_as_long_as(piece, subs[6].0)[2] != subs[6].0[2]); }
        assert(!begins_with(piece, subs[7].0)) by { assert(prefix_as_long_as(piece, subs[7].0)[2] != subs[7].0[2]); }
        assert(!begins_with(piece, subs[8].0)) by { assert(prefix_as_long_as(piece, subs[8].0)[2] != subs[8].0[2]); }
        assert(!begins_with(piece, subs[9].0)) by { assert(prefix_as_long_as(piece, subs[9].0)[2] != subs[9].0[2]); }
        assert(!begins_with(piece, subs[10].0)) by { assert(prefix_as_long_as(piece, subs[10].0)[2] != subs[10].0[2]); }
        assert(!begins_with(piece, subs[11].0)) by { assert(prefix_as_long_as(piece, subs[11].0)[2] != subs[11].0[2]); }
        assert(!begins_with(piece, subs[12].0)) by { assert(prefix_as_long_as(piece, subs[12].0)[2] != subs[12].0[2]); }
        assert(!begins_with(piece, subs[13].0)) by { assert(prefix_as_long_as(piece, subs[13].0)[2] != subs[13].0[2]); }
        assert(!begins_with(piece, subs[14].0)) by { assert(prefix_as_long_as(piece, subs[14].0)[2] != subs[14].0[2]); }
        assert(!begins_with(piece, subs[15].0)) by { assert(prefix_as_long_as(piece, subs[15].0)[2] != subs[15].0[2]); }
        lemma_substitute_occurrence(text, 13488, tail, subs, 16);
    }
    if no_placeholder(p.popcount_code@) {
        let tail = seq!['\n'];
        let piece = subs[17].0 + tail;
        assert(subs[17].0 == "__POPCOUNT_CODE__"@ && subs[17].1 == p.popcount_code@);
        assert(text.subrange(13634, 13652) =~= piece);
        assert(no_placeholder(tail)) by {
            assert forall|q: int| 0 <= q && q + 3 <= tail.len() implies !#[trigger] starts_placeholder(tail, q) by {}
        }
        assert(no_placeholder(piece.drop_first())) by {
            let d = piece.drop_first();
            assert forall|q: int| 0 <= q && q + 3 <= d.len() implies !#[trigger] starts_placeholder(d, q) by {}
        }
        assert(!begins_with(piece, subs[0].0)) by { assert(prefix_as_long_as(piece, subs[0].0)[2] != subs[0].0[2]); }
        assert(!begins_with(piece, subs[1].0)) by { assert(prefix_as_long_as(piece, subs[1].0)[2] != subs[1].0[2]); }
        assert(!begins_with(piece, subs[2].0)) by { assert(subs[2].0.len() > piece.len()); }
        assert(!begins_with(piece, subs[3].0)) by { assert(prefix_as_long_as(piece, subs[3].0)[2] != subs[3].0[2]); }
        assert(!begins_with(piece, subs[4].0)) by { assert(subs[4].0.len() > piece.len()); }
        assert(!begins_with(piece, subs[5].0)) by { assert(prefix_as_long_as(piece, subs[5].0)[2] != subs[5].0[2]); }
        assert(!begins_with(piece, subs[6].0)) by { assert(subs[6].0.len() > piece.len()); }
        assert(!begins_with(piece, subs[7].0)) by { assert(prefix_as_long_as(piece, subs[7].0)[2] != subs[7].0[2]); }
        assert(!begins_with(piece, subs[8].0)) by { assert(prefix_as_long_as(piece, subs[8].0)[2] != subs[8].0[2]); }
        assert(!begins_with(piece, subs[9].0)) by { assert(prefix_as_long_as(piece, subs[9].0)[3] != subs[9].0[3]); }
        assert(!begins_with(piece, subs[10].0)) by { assert(prefix_as_long_as(piece, subs[10].0)[2] != subs[10].0[2]); }
        assert(!begins_with(piece, subs[11].0)) by { assert(prefix_as_long_as(piece, subs[11].0)[2] != subs[11].0[2]); }
        assert(!begins_with(piece, subs[12].0)) by { assert(prefix_as_long_as(piece, subs[12].0)[3] != subs[12].0[3]); }
        assert(!begins_with(piece, subs[13].0)) by { assert(prefix_as_long_as(piece, subs[13].0)[2] != subs[13].0[2]); }
        assert(!begins_with(piece, subs[14].0)) by { assert(prefix_as_long_as(piece, subs[14].0)[2] != subs[14].0[2]); }
        assert(!begins_with(piece, subs[15].0)) by { assert(subs[15].0.len() > piece.len()); }
        assert(!begins_with(piece, subs[16].0)) by { assert(subs[16].0.len() > piece.len()); }
        lemma_substitute_occurrence(text, 13634, tail, subs, 17);
    }
    if no_placeholder(p.cmp_eq_val@) {
        let tail = seq![')'];
        let piece = subs[18].0 + tail;
        assert(subs[18].0 == "__CMP_EQ_VAL__"@ && subs[18].1 == p.cmp_eq_val@);
        assert(text.subrange(13845, 13860) =~= piece);
        assert(no_placeholder(tail)) by {
            assert forall|q: int| 0 <= q && q + 3 <= tail.len() implies !#[trigger] starts_placeholder(tail, q) by {}
        }
        assert(no_placeholder(piece.drop_first())) by {
            let d = piece.drop_first();
            assert forall|q: int| 0 <= q && q + 3 <= d.len() implies !#[trigger] starts_placeholder(d, q) by {}
        }
        assert(!begins_with(piece, subs[0].0)) by { assert(prefix_as_long_as(piece, subs[0].0)[2] != subs[0].0[2]); }
        assert(!begins_with(piece, subs[1].0)) by { assert(prefix_as_long_as(piece, subs[1].0)[2] != subs[1].0[2]); }
        assert(!begins_with(piece, subs[2].0)) by { assert(subs[2].0.len() > piece.len()); }
        assert(!begins_with(piece, subs[3].0)) by { assert(prefix_as_long_as(piece, subs[3].0)[2] != subs[3].0[2]); }
        assert(!begins_with(piece, subs[4].0)) by { assert(subs[4].0.len() > piece.len()); }
        assert(!begins_with(piece, subs[5].0)) by { assert(subs[5].0.len() > piece.len()); }
        assert(!begins_with(piece, subs[6].0)) by { assert(subs[6].0.len() > piece.len()); }
        assert(!begins_with(piece, subs[7].0)) by { assert(prefix_as_long_as(piece, subs[7].0)[2] != subs[7].0[2]); }
        assert(!begins_with(piece, subs[8].0)) by { assert(prefix_as_long_as(piece, subs[8].0)[2] != subs[8].0[2]); }
        assert(!begins_with(piece, subs[9].0)) by { assert(prefix_as_long_as(piece, subs[9].0)[2] != subs[9].0[2]); }
        assert(!begins_with(piece, subs[10].0)) by { assert(prefix_as_long_as(piece, subs[10].0)[2] != subs[10].0[2]); }
        assert(!begins_with(piece, subs[11].0)) by { assert(subs[11].0.len() > piece.len()); }
        assert(!begins_with(piece, subs[12].0)) by { assert(subs[12].0.len() > piece.len()); }
        assert(!begins_with(piece, subs[13].0)) by { assert(subs[13].0.len() > piece.len()); }
        assert(!begins_with(piece, subs[14].0)) by { assert(subs[14].0.len() > piece.len()); }
        assert(!begins_with(piece, subs[15].0)) by { assert(subs[15].0.len() > piece.len()); }
        assert(!begins_with(piece, subs[16].0)) by { assert(subs[16].0.len() > piece.len()); }
        assert(!begins_with(piece, subs[17].0)) by { assert(subs[17].0.len() > piece.len()); }
        lemma_substitute_occurrence(text, 13845, tail, subs, 18);
    }
    if no_placeholder(p.cmp_ne_val@) {
        let tail = seq![')'];
        let piece = subs[19].0 + tail;
        assert(subs[19].0 == "__CMP_NE_VAL__"@ && subs[19].1 == p.cmp_ne_val@);
        assert(text.subrange(14055, 14070) =~= piece);
        assert(no_placeholder(tail)) by {
            assert forall|q: int| 0 <= q && q + 3 <= tail.len() implies !#[trigger] starts_placeholder(tail, q) by {}
        }
        assert(no_placeholder(piece.drop_first())) by {
            let d = piece.drop_first();
            assert forall|q: int| 0 <= q && q + 3 <= d.len() implies !#[trigger] starts_placeholder(d, q) by {}
        }
        assert(!begins_with(piece, subs[0].0)) by { assert(prefix_as_long_as(piece, subs[0].0)[2] != subs[0].0[2]); }
        assert(!begins_with(piece, subs[1].0)) by { assert(prefix_as_long_as(piece, subs[1].0)[2] != subs[1].0[2]); }
        assert(!begins_with(piece, subs[2].0)) by { assert(subs[2].0.len() > piece.len()); }
        assert(!begins_with(piece, subs[3].0)) by { assert(prefix_as_long_as(piece, subs[3].0)[2] != subs[3].0[2]); }
        assert(!begins_with(piece, subs[4].0)) by { assert(subs[4].0.len() > piece.len()); }
        assert(!begins_with(piece, subs[5].0)) by { assert(subs[5].0.len() > piece.len()); }
        assert(!begins_with(piece, subs[6].0)) by { assert(subs[6].0.len() > piece.len()); }
        assert(!begins_with(piece, subs[7].0)) by { assert(prefix_as_long_as(piece, subs[7].0)[2] != subs[7].0[2]); }
        assert(!begins_with(piece, subs[8].0)) by { assert(prefix_as_long_as(piece, subs[8].0)[2] != subs[8].0[2]); }
        assert(!begins_with(piece, subs[9].0)) by { assert(prefix_as_long_as(piece, subs[9].0)[2] != subs[9].0[2]); }
        assert(!begins_with(piece, subs[10].0)) by { assert(prefix_as_long_as(piece, subs[10].0)[2] != subs[10].0[2]); }
        assert(!begins_with(piece, subs[11].0)) by { assert(subs[11].0.len() > piece.len()); }
        assert(!begins_with(piece, subs[12].0)) by { assert(subs[12].0.len() > piece.len()); }
        assert(!begins_with(piece, subs[13].0)) by { assert(subs[13].0.len() > piece.len()); }
        assert(!begins_with(piece, subs[14].0)) by { assert(subs[14].0.len() > piece.len()); }
        assert(!begins_with(piece, subs[15].0)) by { assert(subs[15].0.len() > piece.len()); }
        assert(!begins_with(piece, subs[16].0)) by { assert(subs[16].0.len() > piece.len()); }
        assert(!begins_with(piece, subs[17].0)) by { assert(subs[17].0.len() > piece.len()); }
        assert(!begins_with(piece, subs[18].0)) by { assert(prefix_as_long_as(piece, subs[18].0)[6] != subs[18].0[6]); }
        lemma_substitute_occurrence(text, 14055, tail, subs, 19);
    }
    if no_placeholder(p.cmp_lt_val@) {
        let tail = seq![')'];
        let piece = subs[20].0 + tail;
        assert(subs[20].0 == "__CMP_LT_VAL__"@ && subs[20].1 == p.cmp_lt_val@);
        assert(text.subrange(14265, 14280) =~= piece);
        assert(no_placeholder(tail)) by {
            assert forall|q: int| 0 <= q && q + 3 <= tail.len() implies !#[trigger] starts_placeholder(tail, q) by {}
        }
        assert(no_placeholder(piece.drop_first())) by {
            let d = piece.drop_first();
            assert forall|q: int| 0 <= q && q + 3 <= d.len() implies !#[trigger] starts_placeholder(d, q) by {}
        }
        assert(!begins_with(piece, subs[0].0)) by { assert(prefix_as_long_as(piece, subs[0].0)[2] != subs[0].0[2]); }
        assert(!begins_with(piece, subs[1].0)) by { assert(prefix_as_long_as(piece, subs[1].0)[2] != subs[1].0[2]); }
        assert(!begins_with(piece, subs[2].0)) by { assert(subs[2].0.len() > piece.len()); }
        assert(!begins_with(piece, subs[3].0)) by { assert(prefix_as_long_as(piece, subs[3].0)[2] != subs[3].0[2]); }
        assert(!begins_with(piece, subs[4].0)) by { assert(subs[4].0.len() > piece.len()); }
        assert(!begins_with(piece, subs[5].0)) by { assert(subs[5].0.len() > piece.len()); }
        assert(!begins_with(piece, subs[6].0)) by { assert(subs[6].0.len() > piece.len()); }
        assert(!begins_with(piece, subs[7].0)) by { assert(prefix_as_long_as(piece, subs[7].0)[2] != subs[7].0[2]); }
        assert(!begins_with(piece, subs[8].0)) by { assert(prefix_as_long_as(piece, subs[8].0)[2] != subs[8].0[2]); }
        assert(!begins_with(piece, subs[9].0)) by { assert(prefix_as_long_as(piece, subs[9].0)[2] != subs[9].0[2]); }
        assert(!begins_with(piece, subs[10].0)) by { assert(prefix_as_long_as(piece, subs[10].0)[2] != subs[10].0[2]); }
        assert(!begins_with(piece, subs[11].0)) by { assert(subs[11].0.len() > piece.len()); }
        assert(!begins_with(piece, subs[12].0)) by { assert(subs[12].0.len() > piece.len()); }
        assert(!begins_with(piece, subs[13].0)) by { assert(subs[13].0.len() > piece.len()); }
        assert(!begins_with(piece, subs[14].0)) by { assert(subs[14].0.len() > piece.len()); }
        assert(!begins_with(piece, subs[15].0)) by { assert(subs[15].0.len() > piece.len()); }
        assert(!begins_with(piece, subs[16].0)) by { assert(subs[16].0.len() > piece.len()); }
        assert(!begins_with(piece, subs[17].0)) by { assert(subs[17].0.len() > piece.len()); }
        assert(!begins_with(piece, subs[18].0)) by { assert(prefix_as_long_as(piece, subs[18].0)[6] != subs[18].0[6]); }
        assert(!begins_with(piece, subs[19].0)) by { assert(prefix_as_long_as(piece, subs[19].0)[6] != subs[19].0[6]); }
        lemma_substitute_occurrence(text, 14265, tail, subs, 20);
    }
    if no_placeholder(p.cmp_le_val@) {
        let tail = seq![')'];
        let piece = subs[21].0 + tail;
        assert(subs[21].0 == "__CMP_LE_VAL__"@ && subs[21].1 == p.cmp_le_val@);
        assert(text.subrange(14475, 14490) =~= piece);
        assert(no_placeholder(tail)) by {
            assert forall|q: int| 0 <= q && q + 3 <= tail.len() implies !#[trigger] starts_placeholder(tail, q) by {}
        }
        assert(no_placeholder(piece.drop_first())) by {
            let d = piece.drop_first();
            assert forall|q: int| 0 <= q && q + 3 <= d.len() implies !#[trigger] starts_placeholder(d, q) by {}
        }
        assert(!begins_with(piece, subs[0].0)) by { assert(prefix_as_long_as(piece, subs[0].0)[2] != subs[0].0[2]); }
        assert(!begins_with(piece, subs[1].0)) by { assert(prefix_as_long_as(piece, subs[1].0)[2] != subs[1].0[2]); }
        assert(!begins_with(piece, subs[2].0)) by { assert(subs[2].0.len() > piece.len()); }
        assert(!begins_with(piece, subs[3].0)) by { assert(prefix_as_long_as(piece, subs[3].0)[2] != subs[3].0[2]); }
        assert(!begins_with(piece, subs[4].0)) by { assert(subs[4].0.len() > piece.len()); }
        assert(!begins_with(piece, subs[5].0)) by { assert(subs[5].0.len() > piece.len()); }
        assert(!begins_with(piece, subs[6].0)) by { assert(subs[6].0.len() > piece.len()); }
        assert(!begins_with(piece, subs[7].0)) by { assert(prefix_as_long_as(piece, subs[7].0)[2] != subs[7].0[2]); }
        assert(!begins_with(piece, subs[8].0)) by { assert(prefix_as_long_as(piece, subs[8].0)[2] != subs[8].0[2]); }
        assert(!begins_with(piece, subs[9].0)) by { assert(prefix_as_long_as(piece, subs[9].0)[2] != subs[9].0[2]); }
        assert(!begins_with(piece, subs[10].0)) by { assert(prefix_as_long_as(piece, subs[10].0)[2] != subs[10].0[2]); }
        assert(!begins_with(piece, subs[11].0)) by { assert(subs[11].0.len() > piece.len()); }
        assert(!begins_with(piece, subs[12].0)) by { assert(subs[12].0.len() > piece.len()); }
        assert(!begins_with(piece, subs[13].0)) by { assert(subs[13].0.len() > piece.len()); }
        assert(!begins_with(piece, subs[14].0)) by { assert(subs[14].0.len() > piece.len()); }
        assert(!begins_with(piece, subs[15].0)) by { assert(subs[15].0.len() > piece.len()); }
        assert(!begins_with(piece, subs[16].0)) by { assert(subs[16].0.len() > piece.len()); }
        assert(!begins_with(piece, subs[17].0)) by { assert(subs[17].0.len() > piece.len()); }
        assert(!begins_with(piece, subs[18].0)) by { assert(prefix_as_long_as(piece, subs[18].0)[6] != subs[18].0[6]); }
        assert(!begins_with(piece, subs[19].0)) by { assert(prefix_as_long_as(piece, subs[19].0)[6] != subs[19].0[6]); }
        assert(!begins_with(piece, subs[20].0)) by { assert(prefix_as_long_as(piece, subs[20].0)[7] != subs[20].0[7]); }
        lemma_substitute_occurrence(text, 14475, tail, subs, 21);
    }
    if no_placeholder(p.cmp_gt_val@) {
        let tail = seq![')'];
        let piece = subs[22].0 + tail;
        assert(subs[22].0 == "__CMP_GT_VAL__"@ && subs[22].1 == p.cmp_gt_val@);
        assert(text.subrange(14685, 14700) =~= piece);
        assert(no_placeholder(tail)) by {
            assert forall|q: int| 0 <= q && q + 3 <= tail.len() implies !#[trigger] starts_placeholder(tail, q) by {}
        }
        assert(no_placeholder(piece.drop_first())) by {
            let d = piece.drop_first();
            assert forall|q: int| 0 <= q && q + 3 <= d.len() implies !#[trigger] starts_placeholder(d, q) by {}
        }
        assert(!begins_with(piece, subs[0].0)) by { assert(prefix_as_long_as(piece, subs[0].0)[2] != subs[0].0[2]); }
        assert(!begins_with(piece, subs[1].0)) by { assert(prefix_as_long_as(piece, subs[1].0)[2] != subs[1].0[2]); }
        assert(!begins_with(piece, subs[2].0)) by { assert(subs[2].0.len() > piece.len()); }
        assert(!begins_with(piece, subs[3].0)) by { assert(prefix_as_long_as(piece, subs[3].0)[2] != subs[3].0[2]); }
        assert(!begins_with(piece, subs[4].0)) by { assert(subs[4].0.len() > piece.len()); }
        assert(!begins_with(piece, subs[5].0)) by { assert(subs[5].0.len() > piece.len()); }
        assert(!begins_with(piece, subs[6].0)) by { assert(subs[6].0.len() > piece.len()); }
        assert(!begins_with(piece, subs[7].0)) by { assert(prefix_as_long_as(piece, subs[7].0)[2] != subs[7].0[2]); }
        assert(!begins_with(piece, subs[8].0)) by { assert(prefix_as_long_as(piece, subs[8].0)[2] != subs[8].0[2]); }
        assert(!begins_with(piece, subs[9].0)) by { assert(prefix_as_long_as(piece, subs[9].0)[2] != subs[9].0[2]); }
        assert(!begins_with(piece, subs[10].0)) by { assert(prefix_as_long_as(piece, subs[10].0)[2] != subs[10].0[2]); }
        assert(!begins_with(piece, subs[11].0)) by { assert(subs[11].0.len() > piece.len()); }
        assert(!begins_with(piece, subs[12].0)) by { assert(subs[12].0.len() > piece.len()); }
        assert(!begins_with(piece, subs[13].0)) by { assert(subs[13].0.len() > piece.len()); }
        assert(!begins_with(piece, subs[14].0)) by { assert(subs[14].0.len() > piece.len()); }
        assert(!begins_with(piece, subs[15].0)) by { assert(subs[15].0.len() > piece.len()); }
        assert(!begins_with(piece, subs[16].0)) by { assert(subs[16].0.len() > piece.len()); }
        assert(!begins_with(piece, subs[17].0)) by { assert(subs[17].0.len() > piece.len()); }
        assert(!begins_with(piece, subs[18].0)) by { assert(prefix_as_long_as(piece, subs[18].0)[6] != subs[18].0[6]); }
        assert(!begins_with(piece, subs[19].0)) by { assert(prefix_as_long_as(piece, subs[19].0)[6] != subs[19].0[6]); }
        assert(!begins_with(piece, subs[20].0)) by { assert(prefix_as_long_as(piece, subs[20].0)[6] != subs[20].0[6]); }
        assert(!begins_with(piece, subs[21].0)) by { assert(prefix_as_long_as(piece, subs[21].0)[6] != subs[21].0[6]); }
        lemma_substitute_occurrence(text, 14685, tail, subs, 22);
    }
    if no_placeholder(p.cmp_ge_val@) {
        let tail = seq![')'];
        let piece = subs[23].0 + tail;
        assert(subs[23].0 == "__CMP_GE_VAL__"@ && subs[23].1 == p.cmp_ge_val@);
        assert(text.subrange(14895, 14910) =~= piece);
        assert(no_placeholder(tail)) by {
            assert forall|q: int| 0 <= q && q + 3 <= tail.len() implies !#[trigger] starts_placeholder(tail, q) by {}
        }
        assert(no_placeholder(piece.drop_first())) by {
            let d = piece.drop_first();
            assert forall|q: int| 0 <= q && q + 3 <= d.len() implies !#[trigger] starts_placeholder(d, q) by {}
        }
        assert(!begins_with(piece, subs[0].0)) by { assert(prefix_as_long_as(piece, subs[0].0)[2] != subs[0].0[2]); }
        assert(!begins_with(piece, subs[1].0)) by { assert(prefix_as_long_as(piece, subs[1].0)[2] != subs[1].0[2]); }
        assert(!begins_with(piece, subs[2].0)) by { assert(subs[2].0.len() > piece.len()); }
        assert(!begins_with(piece, subs[3].0)) by { assert(prefix_as_long_as(piece, subs[3].0)[2] != subs[3].0[2]); }
        assert(!begins_with(piece, subs[4].0)) by { assert(subs[4].0.len() > piece.len()); }
        assert(!begins_with(piece, subs[5].0)) by { assert(subs[5].0.len() > piece.len()); }
        assert(!begins_with(piece, subs[6].0)) by { assert(subs[6].0.len() > piece.len()); }
        assert(!begins_with(piece, subs[7].0)) by { assert(prefix_as_long_as(piece, subs[7].0)[2] != subs[7].0[2]); }
        assert(!begins_with(piece, subs[8].0)) by { assert(prefix_as_long_as(piece, subs[8].0)[2] != subs[8].0[2]); }
        assert(!begins_with(piece, subs[9].0)) by { assert(prefix_as_long_as(piece, subs[9].0)[2] != subs[9].0[2]); }
        assert(!begins_with(piece, subs[10].0)) by { assert(prefix_as_long_as(piece, subs[10].0)[2] != subs[10].0[2]); }
        assert(!begins_with(piece, subs[11].0)) by { assert(subs[11].0.len() > piece.len()); }
        assert(!begins_with(piece, subs[12].0)) by { assert(subs[12].0.len() > piece.len()); }
        assert(!begins_with(piece, subs[13].0)) by { assert(subs[13].0.len() > piece.len()); }
        assert(!begins_with(piece, subs[14].0)) by { assert(subs[14].0.len() > piece.len()); }
        assert(!begins_with(piece, subs[15].0)) by { assert(subs[15].0.len() > piece.len()); }
        assert(!begins_with(piece, subs[16].0)) by { assert(subs[16].0.len() > piece.len()); }
        assert(!begins_with(piece, subs[17].0)) by { assert(subs[17].0.len() > piece.len()); }
        assert(!begins_with(piece, subs[18].0)) by { assert(prefix_as_long_as(piece, subs[18].0)[6] != subs[18].0[6]); }
        assert(!begins_with(piece, subs[19].0)) by { assert(prefix_as_long_as(piece, subs[19].0)[6] != subs[19].0[6]); }
        assert(!begins_with(piece, subs[20].0)) by { assert(prefix_as_long_as(piece, subs[20].0)[6] != subs[20].0[6]); }
        assert(!begins_with(piece, subs[21].0)) by { assert(prefix_as_long_as(piece, subs[21].0)[6] != subs[21].0[6]); }
        assert(!begins_with(piece, subs[22].0)) by { assert(prefix_as_long_as(piece, subs[22].0)[7] != subs[22].0[7]); }
        lemma_substitute_occurrence(text, 14895, tail, subs, 23);
    }
}

/// The AVX512 placeholders and their values, in the order they are
/// replaced.
pub open spec fn avx512_substitutions(p: Param) -> Seq<(Seq<char>, Seq<char>)> {
    seq![
        ("__SCALAR_TYPE__"@, p.scalar_type@),
        ("__VECTOR_TYPE__"@, p.vector_type@),
        ("__VECTOR_UNDERLYING__"@, p.vector_underlying@),
        ("__MASK_TYPE__"@, p.mask_type@),
        ("__MASK_UNDERLYING__"@, p.mask_underlying@),
        ("__INDEX_UNDERLYING__"@, p.index_underlying@),
        ("__LANE_COUNT__"@, decimal_of(p.lane_count)),
        ("__SCALE__"@, decimal_of(p.scale)),
        ("__PREFIX__"@, p.prefix@),
        ("__SUFFIX__"@, p.suffix@),
        ("__SUFFIX_UPPER__"@, p.suffix_upper@),
        ("__PERMUTE_MASK__"@, p.permute_mask@),
        ("__DUP_EVEN_CODE__"@, p.dup_even_code@),
        ("__DUP_ODD_CODE__"@, p.dup_odd_code@),
        ("__SUM_REDUCE_CODE__"@, p.sum_reduce_code@),
        ("__RECIP_SQRT_CODE__"@, p.recip_sqrt_code@),
        ("__POPCOUNT_CODE__"@, p.popcount_code@),
        ("__CMP_EQ_VAL__"@, p.cmp_eq_val@),
        ("__CMP_NE_VAL__"@, p.cmp_ne_val@),
        ("__CMP_LT_VAL__"@, p.cmp_lt_val@),
        ("__CMP_LE_VAL__"@, p.cmp_le_val@),
        ("__CMP_GT_VAL__"@, p.cmp_gt_val@),
        ("__CMP_GE_VAL__"@, p.cmp_ge_val@),
        ("__ONE_HALF_VAL__"@, p.one_half_val@),
        ("__THREE_VAL__"@, p.three_val@),
    ]
}

proof fn lemma_avx512_substitution(p: Param)
    ensures
        placeholders_from(avx512_substitutions(p), 0),
        render_avx512_spec(p) == substitute_from(AVX512_TEMPLATE@, avx512_substitutions(p), 0),
{
    reveal_strlit("__SCALAR_TYPE__");
    reveal_strlit("__VECTOR_TYPE__");
    reveal_strlit("__VECTOR_UNDERLYING__");
    reveal_strlit("__MASK_TYPE__");
    reveal_strlit("__MASK_UNDERLYING__");
    reveal_strlit("__INDEX_UNDERLYING__");
    reveal_strlit("__LANE_COUNT__");
    reveal_strlit("__SCALE__");
    reveal_strlit("__PREFIX__");
    reveal_strlit("__SUFFIX__");
    reveal_strlit("__SUFFIX_UPPER__");
    reveal_strlit("__PERMUTE_MASK__");
    reveal_strlit("__DUP_EVEN_CODE__");
    reveal_strlit("__DUP_ODD_CODE__");
    reveal_strlit("__SUM_REDUCE_CODE__");
    reveal_strlit("__RECIP_SQRT_CODE__");
    reveal_strlit("__POPCOUNT_CODE__");
    reveal_strlit("__CMP_EQ_VAL__");
    reveal_strlit("__CMP_NE_VAL__");
    reveal_strlit("__CMP_LT_VAL__");
    reveal_strlit("__CMP_LE_VAL__");
    reveal_strlit("__CMP_GT_VAL__");
    reveal_strlit("__CMP_GE_VAL__");
    reveal_strlit("__ONE_HALF_VAL__");
    reveal_strlit("__THREE_VAL__");
    let subs = avx512_substitutions(p);
    assert forall|j: int| 0 <= j < subs.len() implies placeholder_like(#[trigger] subs[j].0) by {
    }
    reveal_with_fuel(substitute_from, 27);
}

/// Each placeholder of the AVX512 template turns into its own value of
/// `p`: where the template holds the placeholder followed by the character
/// (or underscore and character) shown, the rendered source holds that
/// value followed by the same text, for every value that holds no
/// placeholder itself.
#[verifier::spinoff_prover]
#[verifier::rlimit(100)]
pub proof fn lemma_avx512_places_values(p: Param)
    ensures
        no_placeholder(p.scalar_type@) ==> exists|before: Seq<char>, after: Seq<char>|
            render_avx512_spec(p) == before + (p.scalar_type@ + seq![' ']) + after,
        no_placeholder(p.vector_type@) ==> exists|before: Seq<char>, after: Seq<char>|
            render_avx512_spec(p) == before + (p.vector_type@ + seq!['(']) + after,
        no_placeholder(p.vector_underlying@) ==> exists|before: Seq<char>, after: Seq<char>|
            render_avx512_spec(p) == before + (p.vector_underlying@ + seq!['`']) + after,
        no_placeholder(p.mask_type@) ==> exists|before: Seq<char>, after: Seq<char>|
            render_avx512_spec(p) == before + (p.mask_type@ + seq!['`']) + after,
        no_placeholder(p.index_underlying@) ==> exists|before: Seq<char>, after: Seq<char>|
            render_avx512_spec(p) == before + (p.index_underlying@ + seq!['`']) + after,
        no_placeholder(decimal_of(p.lane_count)) ==> exists|before: Seq<char>, after: Seq<char>|
            render_avx512_spec(p) == before + (decimal_of(p.lane_count) + seq!['-']) + after,
        no_placeholder(decimal_of(p.scale)) ==> exists|before: Seq<char>, after: Seq<char>|
            render_avx512_spec(p) == before + (decimal_of(p.scale) + seq![')']) + after,
        no_placeholder(p.prefix@) ==> exists|before: Seq<char>, after: Seq<char>|
            render_avx512_spec(p) == before + (p.prefix@ + seq!['_', 'm']) + after,
        no_placeholder(p.permute_mask@) ==> exists|before: Seq<char>, after: Seq<char>|
            render_avx512_spec(p) == before + (p.permute_mask@ + seq![')']) + after,
        no_placeholder(p.dup_even_code@) ==> exists|before: Seq<char>, after: Seq<char>|
            render_avx512_spec(p) == before + (p.dup_even_code@ + seq!['\n']) + after,
        no_placeholder(p.dup_odd_code@) ==> exists|before: Seq<char>, after: Seq<char>|
            render_avx512_spec(p) == before + (p.dup_odd_code@ + seq!['\n']) + after,
        no_placeholder(p.sum_reduce_code@) ==> exists|before: Seq<char>, after: Seq<char>|
            render_avx512_spec(p) == before + (p.sum_reduce_code@ + seq!['\n']) + after,
        no_placeholder(p.recip_sqrt_code@) ==> exists|before: Seq<char>, after: Seq<char>|
            render_avx512_spec(p) == before + (p.recip_sqrt_code@ + seq!['\n']) + after,
        no_placeholder(p.popcount_code@) ==> exists|before: Seq<char>, after: Seq<char>|
            render_avx512_spec(p) == before + (p.popcount_code@ + seq!['\n']) + after,
        no_placeholder(p.cmp_eq_val@) ==> exists|before: Seq<char>, after: Seq<char>|
            render_avx512_spec(p) == before + (p.cmp_eq_val@ + seq![')']) + after,
        no_placeholder(p.cmp_ne_val@) ==> exists|before: Seq<char>, after: Seq<char>|
            render_avx512_spec(p) == before + (p.cmp_ne_val@ + seq![')']) + after,
        no_placeholder(p.cmp_lt_val@) ==> exists|before: Seq<char>, after: Seq<char>|
            render_avx512_spec(p) == before + (p.cmp_lt_val@ + seq![')']) + after,
        no_placeholder(p.cmp_le_val@) ==> exists|before: Seq<char>, after: Seq<char>|
            render_avx512_spec(p) == before + (p.cmp_le_val@ + seq![')']) + after,
        no_placeholder(p.cmp_gt_val@) ==> exists|before: Seq<char>, after: Seq<char>|
            render_avx512_spec(p) == before + (p.cmp_gt_val@ + seq![')']) + after,
        no_placeholder(p.cmp_ge_val@) ==> exists|before: Seq<char>, after: Seq<char>|
            render_avx512_spec(p) == before + (p.cmp_ge_val@ + seq![')']) + after,
{
    reveal_strlit(r#"//! AVX-512F __SCALAR_TYPE__ hardware kernel.
//!
//! __LANE_COUNT__-lane __SCALAR_TYPE__ (`__VECTOR_UNDERLYING__`). Uses native AVX-512 predicated instructions:
//! - Masked load/store: `__PREFIX___mask_loadu___SUFFIX__`, `__PREFIX___mask_storeu___SUFFIX__`.
//! - Masked arithmetic: `__PREFIX___mask_add___SUFFIX__`, `__PREFIX___mask_mul___SUFFIX__`.
//! - Masked FMA: `__PREFIX___mask3_fmadd___SUFFIX__` (inactive lanes retain `c`).
//! - Compress: `__PREFIX___maskz_compress___SUFFIX__` (native — no emulation needed).
//! - Expand: `__PREFIX___mask_expand___SUFFIX__` (native).
//! - Gather: `__PREFIX___i32gather___SUFFIX__`, `__PREFIX___mask_i32gather___SUFFIX__`.
//! - Mask register: `__MASK_TYPE__` (__LANE_COUNT__-bit integer).

use crate::Avx512;
#[cfg(any(target_arch = "x86", target_arch = "x86_64"))]
use core::arch::x86_64::*;
use hermes_simd_core::kernel::SimdKernel;

/// Newtype over `__VECTOR_UNDERLYING__` providing `Send + Sync`.
#[cfg(any(target_arch = "x86", target_arch = "x86_64"))]
#[repr(transparent)]
#[derive(Copy, Clone)]
pub struct __VECTOR_TYPE__(pub __VECTOR_UNDERLYING__);

#[cfg(any(target_arch = "x86", target_arch = "x86_64"))]
unsafe impl Send for __VECTOR_TYPE__ {}
#[cfg(any(target_arch = "x86", target_arch = "x86_64"))]
unsafe impl Sync for __VECTOR_TYPE__ {}

#[cfg(any(target_arch = "x86", target_arch = "x86_64"))]
impl SimdKernel<__SCALAR_TYPE__> for Avx512 {
    type Vector = __VECTOR_TYPE__;
    /// Native AVX-512 __LANE_COUNT__-bit mask register. Bit `i` set → lane `i` active.
    type Mask = __MASK_TYPE__;
    /// __LANE_COUNT__ × i32 index vector for gather (`__INDEX_UNDERLYING__`).
    type IndexVector = __INDEX_UNDERLYING__;
    const LANE_COUNT: usize = __LANE_COUNT__;
    const UNROLL_FACTOR: usize = 4;

    // -----------------------------------------------------------------------
    // Load / store
    // -----------------------------------------------------------------------

    #[target_feature(enable = "avx512f")]
    #[inline]
    unsafe fn load_aligned(ptr: *const __SCALAR_TYPE__) -> Self::Vector {
        __VECTOR_TYPE__(__PREFIX___load___SUFFIX__(ptr))
    }

    #[target_feature(enable = "avx512f")]
    #[inline]
    unsafe fn load_unaligned(ptr: *const __SCALAR_TYPE__) -> Self::Vector {
        __VECTOR_TYPE__(__PREFIX___loadu___SUFFIX__(ptr))
    }

    #[target_feature(enable = "avx512f")]
    #[inline]
    unsafe fn store_aligned(ptr: *mut __SCALAR_TYPE__, val: Self::Vector) {
        __PREFIX___store___SUFFIX__(ptr, val.0);
    }

    #[target_feature(enable = "avx512f")]
    #[inline]
    unsafe fn store_unaligned(ptr: *mut __SCALAR_TYPE__, val: Self::Vector) {
        __PREFIX___storeu___SUFFIX__(ptr, val.0);
    }

    // -----------------------------------------------------------------------
    // Arithmetic
    // -----------------------------------------------------------------------

    #[target_feature(enable = "avx512f")]
    #[inline]
    unsafe fn add(a: Self::Vector, b: Self::Vector) -> Self::Vector {
        __VECTOR_TYPE__(__PREFIX___add___SUFFIX__(a.0, b.0))
    }

    #[target_feature(enable = "avx512f")]
    #[inline]
    unsafe fn mul(a: Self::Vector, b: Self::Vector) -> Self::Vector {
        __VECTOR_TYPE__(__PREFIX___mul___SUFFIX__(a.0, b.0))
    }

    #[target_feature(enable = "avx512f")]
    #[inline]
    unsafe fn sub(a: Self::Vector, b: Self::Vector) -> Self::Vector {
        __VECTOR_TYPE__(__PREFIX___sub___SUFFIX__(a.0, b.0))
    }

    #[target_feature(enable = "avx512f")]
    #[inline]
    unsafe fn fmadd(a: Self::Vector, b: Self::Vector, c: Self::Vector) -> Self::Vector {
        __VECTOR_TYPE__(__PREFIX___fmadd___SUFFIX__(a.0, b.0, c.0))
    }

    #[target_feature(enable = "avx512f")]
    #[inline]
    unsafe fn swap_adjacent(v: Self::Vector) -> Self::Vector {
        __VECTOR_TYPE__(__PREFIX___permute___SUFFIX__(v.0, __PERMUTE_MASK__))
    }

    #[target_feature(enable = "avx512f")]
    #[inline]
    unsafe fn dup_even(v: Self::Vector) -> Self::Vector {
        __DUP_EVEN_CODE__
    }

    #[target_feature(enable = "avx512f")]
    #[inline]
    unsafe fn dup_odd(v: Self::Vector) -> Self::Vector {
        __DUP_ODD_CODE__
    }

    #[target_feature(enable = "avx512f")]
    #[inline]
    unsafe fn fmaddsub(a: Self::Vector, b: Self::Vector, c: Self::Vector) -> Self::Vector {
        __VECTOR_TYPE__(__PREFIX___fmaddsub___SUFFIX__(a.0, b.0, c.0))
    }

    #[target_feature(enable = "avx512f")]
    #[inline]
    unsafe fn fmsubadd(a: Self::Vector, b: Self::Vector, c: Self::Vector) -> Self::Vector {
        __VECTOR_TYPE__(__PREFIX___fmsubadd___SUFFIX__(a.0, b.0, c.0))
    }

    #[target_feature(enable = "avx512f")]
    #[inline]
    unsafe fn sum_reduce(v: Self::Vector) -> __SCALAR_TYPE__ {
        __SUM_REDUCE_CODE__
    }

    // -----------------------------------------------------------------------
    // Native masked load / store
    // -----------------------------------------------------------------------

    #[target_feature(enable = "avx512f")]
    #[inline]
    unsafe fn masked_load_unaligned(
        ptr: *const __SCALAR_TYPE__,
        mask: Self::Mask,
        src: Self::Vector,
    ) -> Self::Vector {
        __VECTOR_TYPE__(__PREFIX___mask_loadu___SUFFIX__(src.0, mask, ptr))
    }

    #[target_feature(enable = "avx512f")]
    #[inline]
    unsafe fn masked_store_unaligned(ptr: *mut __SCALAR_TYPE__, mask: Self::Mask, val: Self::Vector) {
        __PREFIX___mask_storeu___SUFFIX__(ptr, mask, val.0);
    }

    // -----------------------------------------------------------------------
    // Native masked arithmetic
    // -----------------------------------------------------------------------

    #[target_feature(enable = "avx512f")]
    #[inline]
    unsafe fn masked_add(
        a: Self::Vector,
        b: Self::Vector,
        mask: Self::Mask,
        src: Self::Vector,
    ) -> Self::Vector {
        __VECTOR_TYPE__(__PREFIX___mask_add___SUFFIX__(src.0, mask, a.0, b.0))
    }

    #[target_feature(enable = "avx512f")]
    #[inline]
    unsafe fn masked_mul(
        a: Self::Vector,
        b: Self::Vector,
        mask: Self::Mask,
        src: Self::Vector,
    ) -> Self::Vector {
        __VECTOR_TYPE__(__PREFIX___mask_mul___SUFFIX__(src.0, mask, a.0, b.0))
    }

    /// `mask3_fmadd`: inactive lanes retain `c` (the addend / 3rd operand).
    #[target_feature(enable = "avx512f")]
    #[inline]
    unsafe fn masked_fmadd(
        a: Self::Vector,
        b: Self::Vector,
        c: Self::Vector,
        mask: Self::Mask,
    ) -> Self::Vector {
        __VECTOR_TYPE__(__PREFIX___mask3_fmadd___SUFFIX__(a.0, b.0, c.0, mask))
    }

    #[target_feature(enable = "avx512f")]
    #[inline]
    unsafe fn masked_sum_reduce(v: Self::Vector, mask: Self::Mask) -> __SCALAR_TYPE__ {
        let zero = __PREFIX___setzero___SUFFIX__();
        __PREFIX___reduce_add___SUFFIX__(__PREFIX___mask_mov___SUFFIX__(zero, mask, v.0))
    }

    // -----------------------------------------------------------------------
    // Native compress / expand
    // -----------------------------------------------------------------------

    #[target_feature(enable = "avx512f")]
    #[inline]
    unsafe fn compress(src: Self::Vector, mask: Self::Mask) -> Self::Vector {
        __VECTOR_TYPE__(__PREFIX___maskz_compress___SUFFIX__(mask, src.0))
    }

    #[target_feature(enable = "avx512f")]
    #[inline]
    unsafe fn expand(src: Self::Vector, mask: Self::Mask, fill: Self::Vector) -> Self::Vector {
        __VECTOR_TYPE__(__PREFIX___mask_expand___SUFFIX__(fill.0, mask, src.0))
    }

    // -----------------------------------------------------------------------
    // Gather
    // -----------------------------------------------------------------------

    #[target_feature(enable = "avx512f")]
    #[inline]
    unsafe fn gather(base: *const __SCALAR_TYPE__, indices: Self::IndexVector) -> Self::Vector {
        __VECTOR_TYPE__(__PREFIX___i32gather___SUFFIX__(indices, base, __SCALE__))
    }

    #[target_feature(enable = "avx512f")]
    #[inline]
    unsafe fn gather_masked(
        base: *const __SCALAR_TYPE__,
        indices: Self::IndexVector,
        mask: Self::Mask,
        src: Self::Vector,
    ) -> Self::Vector {
        __VECTOR_TYPE__(__PREFIX___mask_i32gather___SUFFIX__(src.0, mask, indices, base, __SCALE__))
    }

    // -----------------------------------------------------------------------
    // Mask construction
    // -----------------------------------------------------------------------

    #[target_feature(enable = "avx512f")]
    #[inline]
    unsafe fn mask_from_bools(bits: &[bool]) -> Self::Mask {
        debug_assert_eq!(bits.len(), __LANE_COUNT__);
        let mut mask: u64 = 0;
        for i in 0..__LANE_COUNT__ {
            if bits[i] {
                mask |= 1 << i;
            }
        }
        mask as Self::Mask
    }

    #[target_feature(enable = "avx512f")]
    #[inline]
    unsafe fn leading_k_mask(k: usize) -> Self::Mask {
        let k = k.min(__LANE_COUNT__);
        if k == 0 {
            0 as Self::Mask
        } else {
            let mask = (1u64 << k) - 1;
            mask as Self::Mask
        }
    }

    // -----------------------------------------------------------------------
    // Broadcast / zero
    // -----------------------------------------------------------------------

    #[target_feature(enable = "avx512f")]
    #[inline]
    unsafe fn zero() -> Self::Vector {
        __VECTOR_TYPE__(__PREFIX___setzero___SUFFIX__())
    }

    #[target_feature(enable = "avx512f")]
    #[inline]
    unsafe fn splat(val: __SCALAR_TYPE__) -> Self::Vector {
        __VECTOR_TYPE__(__PREFIX___set1___SUFFIX__(val))
    }

    #[target_feature(enable = "avx512f")]
    #[inline]
    unsafe fn div(a: Self::Vector, b: Self::Vector) -> Self::Vector {
        __VECTOR_TYPE__(__PREFIX___div___SUFFIX__(a.0, b.0))
    }

    #[target_feature(enable = "avx512f")]
    #[inline]
    unsafe fn bitand(a: Self::Vector, b: Self::Vector) -> Self::Vector {
        __VECTOR_TYPE__(__PREFIX___and___SUFFIX__(a.0, b.0))
    }

    #[target_feature(enable = "avx512f")]
    #[inline]
    unsafe fn bitor(a: Self::Vector, b: Self::Vector) -> Self::Vector {
        __VECTOR_TYPE__(__PREFIX___or___SUFFIX__(a.0, b.0))
    }

    #[target_feature(enable = "avx512f")]
    #[inline]
    unsafe fn bitxor(a: Self::Vector, b: Self::Vector) -> Self::Vector {
        __VECTOR_TYPE__(__PREFIX___xor___SUFFIX__(a.0, b.0))
    }

    #[target_feature(enable = "avx512f")]
    #[inline]
    unsafe fn abs(a: Self::Vector) -> Self::Vector {
        let sign_mask = __PREFIX___set1___SUFFIX__(-0.0);
        __VECTOR_TYPE__(__PREFIX___andnot___SUFFIX__(sign_mask, a.0))
    }

    #[target_feature(enable = "avx512f")]
    #[inline]
    unsafe fn min(a: Self::Vector, b: Self::Vector) -> Self::Vector {
        __VECTOR_TYPE__(__PREFIX___min___SUFFIX__(a.0, b.0))
    }

    #[target_feature(enable = "avx512f")]
    #[inline]
    unsafe fn max(a: Self::Vector, b: Self::Vector) -> Self::Vector {
        __VECTOR_TYPE__(__PREFIX___max___SUFFIX__(a.0, b.0))
    }

    #[target_feature(enable = "avx512f")]
    #[inline]
    unsafe fn sqrt(a: Self::Vector) -> Self::Vector {
        __VECTOR_TYPE__(__PREFIX___sqrt___SUFFIX__(a.0))
    }

    #[target_feature(enable = "avx512f")]
    #[inline]
    unsafe fn recip_sqrt(a: Self::Vector) -> Self::Vector {
        __RECIP_SQRT_CODE__
    }

    #[target_feature(enable = "avx512f")]
    #[inline]
    unsafe fn popcount(a: Self::Vector) -> Self::Vector {
        __POPCOUNT_CODE__
    }

    #[target_feature(enable = "avx512f")]
    #[inline]
    unsafe fn cmp_eq(a: Self::Vector, b: Self::Vector) -> Self::Vector {
        let m = __PREFIX___cmp___SUFFIX___mask(a.0, b.0, __CMP_EQ_VAL__);
        __VECTOR_TYPE__(__PREFIX___mask_blend___SUFFIX__(
            m,
            __PREFIX___setzero___SUFFIX__(),
            __PREFIX___set1___SUFFIX__(__SCALAR_TYPE__::from_bits(!0)),
        ))
    }

    #[target_feature(enable = "avx512f")]
    #[inline]
    unsafe fn cmp_ne(a: Self::Vector, b: Self::Vector) -> Self::Vector {
        let m = __PREFIX___cmp___SUFFIX___mask(a.0, b.0, __CMP_NE_VAL__);
        __VECTOR_TYPE__(__PREFIX___mask_blend___SUFFIX__(
            m,
            __PREFIX___setzero___SUFFIX__(),
            __PREFIX___set1___SUFFIX__(__SCALAR_TYPE__::from_bits(!0)),
        ))
    }

    #[target_feature(enable = "avx512f")]
    #[inline]
    unsafe fn cmp_lt(a: Self::Vector, b: Self::Vector) -> Self::Vector {
        let m = __PREFIX___cmp___SUFFIX___mask(a.0, b.0, __CMP_LT_VAL__);
        __VECTOR_TYPE__(__PREFIX___mask_blend___SUFFIX__(
            m,
            __PREFIX___setzero___SUFFIX__(),
            __PREFIX___set1___SUFFIX__(__SCALAR_TYPE__::from_bits(!0)),
        ))
    }

    #[target_feature(enable = "avx512f")]
    #[inline]
    unsafe fn cmp_le(a: Self::Vector, b: Self::Vector) -> Self::Vector {
        let m = __PREFIX___cmp___SUFFIX___mask(a.0, b.0, __CMP_LE_VAL__);
        __VECTOR_TYPE__(__PREFIX___mask_blend___SUFFIX__(
            m,
            __PREFIX___setzero___SUFFIX__(),
            __PREFIX___set1___SUFFIX__(__SCALAR_TYPE__::from_bits(!0)),
        ))
    }

    #[target_feature(enable = "avx512f")]
    #[inline]
    unsafe fn cmp_gt(a: Self::Vector, b: Self::Vector) -> Self::Vector {
        let m = __PREFIX___cmp___SUFFIX___mask(a.0, b.0, __CMP_GT_VAL__);
        __VECTOR_TYPE__(__PREFIX___mask_blend___SUFFIX__(
            m,
            __PREFIX___setzero___SUFFIX__(),
            __PREFIX___set1___SUFFIX__(__SCALAR_TYPE__::from_bits(!0)),
        ))
    }

    #[target_feature(enable = "avx512f")]
    #[inline]
    unsafe fn cmp_ge(a: Self::Vector, b: Self::Vector) -> Self::Vector {
        let m = __PREFIX___cmp___SUFFIX___mask(a.0, b.0, __CMP_GE_VAL__);
        __VECTOR_TYPE__(__PREFIX___mask_blend___SUFFIX__(
            m,
            __PREFIX___setzero___SUFFIX__(),
            __PREFIX___set1___SUFFIX__(__SCALAR_TYPE__::from_bits(!0)),
        ))
    }

    #[target_feature(enable = "avx512f")]
    #[inline]
    unsafe fn blend(
        mask: Self::Vector,
        true_val: Self::Vector,
        false_val: Self::Vector,
    ) -> Self::Vector {
        let m = __PREFIX___cmp___SUFFIX___mask(mask.0, __PREFIX___setzero___SUFFIX__(), __CMP_NE_VAL__);
        __VECTOR_TYPE__(__PREFIX___mask_blend___SUFFIX__(m, false_val.0, true_val.0))
    }

    #[target_feature(enable = "avx512f")]
    #[inline]
    unsafe fn mask_to_bitmask(mask: Self::Mask) -> u64 {
        mask as u64
    }

    #[target_feature(enable = "avx512f")]
    #[inline]
    unsafe fn mask_to_vector(mask: Self::Mask) -> Self::Vector {
        __VECTOR_TYPE__(__PREFIX___mask_blend___SUFFIX__(
            mask,
            __PREFIX___setzero___SUFFIX__(),
            __PREFIX___set1___SUFFIX__(__SCALAR_TYPE__::from_bits(!0)),
        ))
    }
}
"#);
    let text = AVX512_TEMPLATE@;
    let subs = avx512_substitutions(p);
    lemma_avx512_substitution(p);
    reveal_strlit("__SCALAR_TYPE__");
    reveal_strlit("__VECTOR_TYPE__");
    reveal_strlit("__VECTOR_UNDERLYING__");
    reveal_strlit("__MASK_TYPE__");
    reveal_strlit("__MASK_UNDERLYING__");
    reveal_strlit("__INDEX_UNDERLYING__");
    reveal_strlit("__LANE_COUNT__");
    reveal_strlit("__SCALE__");
    reveal_strlit("__PREFIX__");
    reveal_strlit("__SUFFIX__");
    reveal_strlit("__SUFFIX_UPPER__");
    reveal_strlit("__PERMUTE_MASK__");
    reveal_strlit("__DUP_EVEN_CODE__");
    reveal_strlit("__DUP_ODD_CODE__");
    reveal_strlit("__SUM_REDUCE_CODE__");
    reveal_strlit("__RECIP_SQRT_CODE__");
    reveal_strlit("__POPCOUNT_CODE__");
    reveal_strlit("__CMP_EQ_VAL__");
    reveal_strlit("__CMP_NE_VAL__");
    reveal_strlit("__CMP_LT_VAL__");
    reveal_strlit("__CMP_LE_VAL__");
    reveal_strlit("__CMP_GT_VAL__");
    reveal_strlit("__CMP_GE_VAL__");
    reveal_strlit("__ONE_HALF_VAL__");
    reveal_strlit("__THREE_VAL__");
    if no_placeholder(p.scalar_type@) {
        let tail = seq![' '];
        let piece = subs[0].0 + tail;
        assert(subs[0].0 == "__SCALAR_TYPE__"@ && subs[0].1 == p.scalar_type@);
        assert(text.subrange(13, 29) =~= piece);
        assert(no_placeholder(tail)) by {
            assert forall|q: int| 0 <= q && q + 3 <= tail.len() implies !#[trigger] starts_placeholder(tail, q) by {}
        }
        assert(no_placeholder(piece.drop_first())) by {
            let d = piece.drop_first();
            assert forall|q: int| 0 <= q && q + 3 <= d.len() implies !#[trigger] starts_placeholder(d, q) by {}
        }

        lemma_substitute_occurrence(text, 13, tail, subs, 0);
    }
    if no_placeholder(p.vector_type@) {
        let tail = seq!['('];
        let piece = subs[1].0 + tail;
        assert(subs[1].0 == "__VECTOR_TYPE__"@ && subs[1].1 == p.vector_type@);
        assert(text.subrange(1064, 1080) =~= piece);
        assert(no_placeholder(tail)) by {
            assert forall|q: int| 0 <= q && q + 3 <= tail.len() implies !#[trigger] starts_placeholder(tail, q) by {}
        }
        assert(no_placeholder(piece.drop_first())) by {
            let d = piece.drop_first();
            assert forall|q: int| 0 <= q && q + 3 <= d.len() implies !#[trigger] starts_placeholder(d, q) by {}
        }
        assert(!begins_with(piece, subs[0].0)) by { assert(prefix_as_long_as(piece, subs[0].0)[2] != subs[0].0[2]); }
        lemma_substitute_occurrence(text, 1064, tail, subs, 1);
    }
    if no_placeholder(p.vector_underlying@) {
        let tail = seq!['`'];
        let piece = subs[2].0 + tail;
        assert(subs[2].0 == "__VECTOR_UNDERLYING__"@ && subs[2].1 == p.vector_underlying@);
        assert(text.subrange(92, 114) =~= piece);
        assert(no_placeholder(tail)) by {
            assert forall|q: int| 0 <= q && q + 3 <= tail.len() implies !#[trigger] starts_placeholder(tail, q) by {}
        }
        assert(no_placeholder(piece.drop_first())) by {
            let d = piece.drop_first();
            assert forall|q: int| 0 <= q && q + 3 <= d.len() implies !#[trigger] starts_placeholder(d, q) by {}
        }
        assert(!begins_with(piece, subs[0].0)) by { assert(prefix_as_long_as(piece, subs[0].0)[2] != subs[0].0[2]); }
        assert(!begins_with(piece, subs[1].0)) by { assert(prefix_as_long_as(piece, subs[1].0)[9] != subs[1].0[9]); }
        lemma_substitute_occurrence(text, 92, tail, subs, 2);
    }
    if no_placeholder(p.mask_type@) {
        let tail = seq!['`'];
        let piece = subs[3].0 + tail;
        assert(subs[3].0 == "__MASK_TYPE__"@ && subs[3].1 == p.mask_type@);
        assert(text.subrange(694, 708) =~= piece);
        assert(no_placeholder(tail)) by {
            assert forall|q: int| 0 <= q && q + 3 <= tail.len() implies !#[trigger] starts_placeholder(tail, q) by {}
        }
        assert(no_placeholder(piece.drop_first())) by {
            let d = piece.drop_first();
            assert forall|q: int| 0 <= q && q + 3 <= d.len() implies !#[trigger] starts_placeholder(d, q) by {}
        }
        assert(!begins_with(piece, subs[0].0)) by { assert(subs[0].0.len() > piece.len()); }
        assert(!begins_with(piece, subs[1].0)) by { assert(subs[1].0.len() > piece.len()); }
        assert(!begins_with(piece, subs[2].0)) by { assert(subs[2].0.len() > piece.len()); }
        lemma_substitute_occurrence(text, 694, tail, subs, 3);
    }
    if no_placeholder(p.index_underlying@) {
        let tail = seq!['`'];
        let piece = subs[5].0 + tail;
        assert(subs[5].0 == "__INDEX_UNDERLYING__"@ && subs[5].1 == p.index_underlying@);
        assert(text.subrange(1616, 1637) =~= piece);
        assert(no_placeholder(tail)) by {
            assert forall|q: int| 0 <= q && q + 3 <= tail.len() implies !#[trigger] starts_placeholder(tail, q) by {}
        }
        assert(no_placeholder(piece.drop_first())) by {
            let d = piece.drop_first();
            assert forall|q: int| 0 <= q && q + 3 <= d.len() implies !#[trigger] starts_placeholder(d, q) by {}
        }
        assert(!begins_with(piece, subs[0].0)) by { assert(prefix_as_long_as(piece, subs[0].0)[2] != subs[0].0[2]); }
        assert(!begins_with(piece, subs[1].0)) by { assert(prefix_as_long_as(piece, subs[1].0)[2] != subs[1].0[2]); }
        assert(!begins_with(piece, subs[2].0)) by { assert(prefix_as_long_as(piece, subs[2].0)[2] != subs[2].0[2]); }
        assert(!begins_with(piece, subs[3].0)) by { assert(prefix_as_long_as(piece, subs[3].0)[2] != subs[3].0[2]); }
        assert(!begins_with(piece, subs[4].0)) by { assert(prefix_as_long_as(piece, subs[4].0)[2] != subs[4].0[2]); }
        lemma_substitute_occurrence(text, 1616, tail, subs, 5);
    }
    if no_placeholder(decimal_of(p.lane_count)) {
        let tail = seq!['-'];
        let piece = subs[6].0 + tail;
        assert(subs[6].0 == "__LANE_COUNT__"@ && subs[6].1 == decimal_of(p.lane_count));
        assert(text.subrange(54, 69) =~= piece);
        assert(no_placeholder(tail)) by {
            assert forall|q: int| 0 <= q && q + 3 <= tail.len() implies !#[trigger] starts_placeholder(tail, q) by {}
        }
        assert(no_placeholder(piece.drop_first())) by {
            let d = piece.drop_first();
            assert forall|q: int| 0 <= q && q + 3 <= d.len() implies !#[trigger] starts_placeholder(d, q) by {}
        }
        assert(!begins_with(piece, subs[0].0)) by { assert(prefix_as_long_as(piece, subs[0].0)[2] != subs[0].0[2]); }
        assert(!begins_with(piece, subs[1].0)) by { assert(prefix_as_long_as(piece, subs[1].0)[2] != subs[1].0[2]); }
        assert(!begins_with(piece, subs[2].0)) by { assert(subs[2].0.len() > piece.len()); }
        assert(!begins_with(piece, subs[3].0)) by { assert(prefix_as_long_as(piece, subs[3].0)[2] != subs[3].0[2]); }
        assert(!begins_with(piece, subs[4].0)) by { assert(subs[4].0.len() > piece.len()); }
        assert(!begins_with(piece, subs[5].0)) by { assert(subs[5].0.len() > piece.len()); }
        lemma_substitute_occurrence(text, 54, tail, subs, 6);
    }
    if no_placeholder(decimal_of(p.scale)) {
        let tail = seq![')'];
        let piece = subs[7].0 + tail;
        assert(subs[7].0 == "__SCALE__"@ && subs[7].1 == decimal_of(p.scale));
        assert(text.subrange(7998, 8008) =~= piece);
        assert(no_placeholder(tail)) by {
            assert forall|q: int| 0 <= q && q + 3 <= tail.len() implies !#[trigger] starts_placeholder(tail, q) by {}
        }
        assert(no_placeholder(piece.drop_first())) by {
            let d = piece.drop_first();
            assert forall|q: int| 0 <= q && q + 3 <= d.len() implies !#[trigger] starts_placeholder(d, q) by {}
        }
        assert(!begins_with(piece, subs[0].0)) by { assert(subs[0].0.len() > piece.len()); }
        assert(!begins_with(piece, subs[1].0)) by { assert(subs[1].0.len() > piece.len()); }
        assert(!begins_with(piece, subs[2].0)) by { assert(subs[2].0.len() > piece.len()); }
        assert(!begins_with(piece, subs[3].0)) by { assert(subs[3].0.len() > piece.len()); }
        assert(!begins_with(piece, subs[4].0)) by { assert(subs[4].0.len() > piece.len()); }
        assert(!begins_with(piece, subs[5].0)) by { assert(subs[5].0.len() > piece.len()); }
        assert(!begins_with(piece, subs[6].0)) by { assert(subs[6].0.len() > piece.len()); }
        lemma_substitute_occurrence(text, 7998, tail, subs, 7);
    }
    if no_placeholder(p.prefix@) {
        let tail = seq!['_', 'm'];
        let piece = subs[8].0 + tail;
        assert(subs[8].0 == "__PREFIX__"@ && subs[8].1 == p.prefix@);
        assert(text.subrange(188, 200) =~= piece);
        assert(no_placeholder(tail)) by {
            assert forall|q: int| 0 <= q && q + 3 <= tail.len() implies !#[trigger] starts_placeholder(tail, q) by {}
        }
        assert(no_placeholder(piece.drop_first())) by {
            let d = piece.drop_first();
            assert forall|q: int| 0 <= q && q + 3 <= d.len() implies !#[trigger] starts_placeholder(d, q) by {}
        }
        assert(!begins_with(piece, subs[0].0)) by { assert(subs[0].0.len() > piece.len()); }
        assert(!begins_with(piece, subs[1].0)) by { assert(subs[1].0.len() > piece.len()); }
        assert(!begins_with(piece, subs[2].0)) by { assert(subs[2].0.len() > piece.len()); }
        assert(!begins_with(piece, subs[3].0)) by { assert(subs[3].0.len() > piece.len()); }
        assert(!begins_with(piece, subs[4].0)) by { assert(subs[4].0.len() > piece.len()); }
        assert(!begins_with(piece, subs[5].0)) by { assert(subs[5].0.len() > piece.len()); }
        assert(!begins_with(piece, subs[6].0)) by { assert(subs[6].0.len() > piece.len()); }
        assert(!begins_with(piece, subs[7].0)) by { assert(prefix_as_long_as(piece, subs[7].0)[2] != subs[7].0[2]); }
        lemma_substitute_occurrence(text, 188, tail, subs, 8);
    }
    if no_placeholder(p.permute_mask@) {
        let tail = seq![')'];
        let piece = subs[11].0 + tail;
        assert(subs[11].0 == "__PERMUTE_MASK__"@ && subs[11].1 == p.permute_mask@);
        assert(text.subrange(3874, 3891) =~= piece);
        assert(no_placeholder(tail)) by {
            assert forall|q: int| 0 <= q && q + 3 <= tail.len() implies !#[trigger] starts_placeholder(tail, q) by {}
        }
        assert(no_placeholder(piece.drop_first())) by {
            let d = piece.drop_first();
            assert forall|q: int| 0 <= q && q + 3 <= d.len() implies !#[trigger] starts_placeholder(d, q) by {}
        }
        assert(!begins_with(piece, subs[0].0)) by { assert(prefix_as_long_as(piece, subs[0].0)[2] != subs[0].0[2]); }
        assert(!begins_with(piece, subs[1].0)) by { assert(prefix_as_long_as(piece, subs[1].0)[2] != subs[1].0[2]); }
        assert(!begins_with(piece, subs[2].0)) by { assert(subs[2].0.len() > piece.len()); }
        assert(!begins_with(piece, subs[3].0)) by { assert(prefix_as_long_as(piece, subs[3].0)[2] != subs[3].0[2]); }
        assert(!begins_with(piece, subs[4].0)) by { assert(subs[4].0.len() > piece.len()); }
        assert(!begins_with(piece, subs[5].0)) by { assert(subs[5].0.len() > piece.len()); }
        assert(!begins_with(piece, subs[6].0)) by { assert(prefix_as_long_as(piece, subs[6].0)[2] != subs[6].0[2]); }
        assert(!begins_with(piece, subs[7].0)) by { assert(prefix_as_long_as(piece, subs[7].0)[2] != subs[7].0[2]); }
        assert(!begins_with(piece, subs[8].0)) by { assert(prefix_as_long_as(piece, subs[8].0)[3] != subs[8].0[3]); }
        assert(!begins_with(piece, subs[9].0)) by { assert(prefix_as_long_as(piece, subs[9].0)[2] != subs[9].0[2]); }
        assert(!begins_with(piece, subs[10].0)) by { assert(prefix_as_long_as(piece, subs[10].0)[2] != subs[10].0[2]); }
        lemma_substitute_occurrence(text, 3874, tail, subs, 11);
    }
    if no_placeholder(p.dup_even_code@) {
        let tail = seq!['\n'];
        let piece = subs[12].0 + tail;
        assert(subs[12].0 == "__DUP_EVEN_CODE__"@ && subs[12].1 == p.dup_even_code@);
        assert(text.subrange(4022, 4040) =~= piece);
        assert(no_placeholder(tail)) by {
            assert forall|q: int| 0 <= q && q + 3 <= tail.len() implies !#[trigger] starts_placeholder(tail, q) by {}
        }
        assert(no_placeholder(piece.drop_first())) by {
            let d = piece.drop_first();
            assert forall|q: int| 0 <= q && q + 3 <= d.len() implies !#[trigger] starts_placeholder(d, q) by {}
        }
        assert(!begins_with(piece, subs[0].0)) by { assert(prefix_as_long_as(piece, subs[0].0)[2] != subs[0].0[2]); }
        assert(!begins_with(piece, subs[1].0)) by { assert(prefix_as_long_as(piece, subs[1].0)[2] != subs[1].0[2]); }
        assert(!begins_with(piece, subs[2].0)) by { assert(subs[2].0.len() > piece.len()); }
        assert(!begins_with(piece, subs[3].0)) by { assert(prefix_as_long_as(piece, subs[3].0)[2] != subs[3].0[2]); }
        assert(!begins_with(piece, subs[4].0)) by { assert(subs[4].0.len() > piece.len()); }
        assert(!begins_with(piece, subs[5].0)) by { assert(subs[5].0.len() > piece.len()); }
        assert(!begins_with(piece, subs[6].0)) by { assert(prefix_as_long_as(piece, subs[6].0)[2] != subs[6].0[2]); }
        assert(!begins_with(piece, subs[7].0)) by { assert(prefix_as_long_as(piece, subs[7].0)[2] != subs[7].0[2]); }
        assert(!begins_with(piece, subs[8].0)) by { assert(prefix_as_long_as(piece, subs[8].0)[2] != subs[8].0[2]); }
        assert(!begins_with(piece, subs[9].0)) by { assert(prefix_as_long_as(piece, subs[9].0)[2] != subs[9].0[2]); }
        assert(!begins_with(piece, subs[10].0)) by { assert(prefix_as_long_as(piece, subs[10].0)[2] != subs[10].0[2]); }
        assert(!begins_with(piece, subs[11].0)) by { assert(prefix_as_long_as(piece, subs[11].0)[2] != subs[11].0[2]); }
        lemma_substitute_occurrence(text, 4022, tail, subs, 12);
    }
    if no_placeholder(p.dup_odd_code@) {
        let tail = seq!['\n'];
        let piece = subs[13].0 + tail;
        assert(subs[13].0 == "__DUP_ODD_CODE__"@ && subs[13].1 == p.dup_odd_code@);
        assert(text.subrange(4168, 4185) =~= piece);
        assert(no_placeholder(tail)) by {
            assert forall|q: int| 0 <= q && q + 3 <= tail.len() implies !#[trigger] starts_placeholder(tail, q) by {}
        }
        assert(no_placeholder(piece.drop_first())) by {
            let d = piece.drop_first();
            assert forall|q: int| 0 <= q && q + 3 <= d.len() implies !#[trigger] starts_placeholder(d, q) by {}
        }
        assert(!begins_with(piece, subs[0].0)) by { assert(prefix_as_long_as(piece, subs[0].0)[2] != subs[0].0[2]); }
        assert(!begins_with(piece, subs[1].0)) by { assert(prefix_as_long_as(piece, subs[1].0)[2] != subs[1].0[2]); }
        assert(!begins_with(piece, subs[2].0)) by { assert(subs[2].0.len() > piece.len()); }
        assert(!begins_with(piece, subs[3].0)) by { assert(prefix_as_long_as(piece, subs[3].0)[2] != subs[3].0[2]); }
        assert(!begins_with(piece, subs[4].0)) by { assert(subs[4].0.len() > piece.len()); }
        assert(!begins_with(piece, subs[5].0)) by { assert(subs[5].0.len() > piece.len()); }
        assert(!begins_with(piece, subs[6].0)) by { assert(prefix_as_long_as(piece, subs[6].0)[2] != subs[6].0[2]); }
        assert(!begins_with(piece, subs[7].0)) by { assert(prefix_as_long_as(piece, subs[7].0)[2] != subs[7].0[2]); }
        assert(!begins_with(piece, subs[8].0)) by { assert(prefix_as_long_as(piece, subs[8].0)[2] != subs[8].0[2]); }
        assert(!begins_with(piece, subs[9].0)) by { assert(prefix_as_long_as(piece, subs[9].0)[2] != subs[9].0[2]); }
        assert(!begins_with(piece, subs[10].0)) by { assert(prefix_as_long_as(piece, subs[10].0)[2] != subs[10].0[2]); }
        assert(!begins_with(piece, subs[11].0)) by { assert(prefix_as_long_as(piece, subs[11].0)[2] != subs[11].0[2]); }
        assert(!begins_with(piece, subs[12].0)) by { assert(prefix_as_long_as(piece, subs[12].0)[6] != subs[12].0[6]); }
        lemma_substitute_occurrence(text, 4168, tail, subs, 13);
    }
    if no_placeholder(p.sum_reduce_code@) {
        let tail = seq!['\n'];
        let piece = subs[14].0 + tail;
        assert(subs[14].0 == "__SUM_REDUCE_CODE__"@ && subs[14].1 == p.sum_reduce_code@);
        assert(text.subrange(4771, 4791) =~= piece);
        assert(no_placeholder(tail)) by {
            assert forall|q: int| 0 <= q && q + 3 <= tail.len() implies !#[trigger] starts_placeholder(tail, q) by {}
        }
        assert(no_placeholder(piece.drop_first())) by {
            let d = piece.drop_first();
            assert forall|q: int| 0 <= q && q + 3 <= d.len() implies !#[trigger] starts_placeholder(d, q) by {}
        }
        assert(!begins_with(piece, subs[0].0)) by { assert(prefix_as_long_as(piece, subs[0].0)[3] != subs[0].0[3]); }
        assert(!begins_with(piece, subs[1].0)) by { assert(prefix_as_long_as(piece, subs[1].0)[2] != subs[1].0[2]); }
        assert(!begins_with(piece, subs[2].0)) by { assert(subs[2].0.len() > piece.len()); }
        assert(!begins_with(piece, subs[3].0)) by { assert(prefix_as_long_as(piece, subs[3].0)[2] != subs[3].0[2]); }
        assert(!begins_with(piece, subs[4].0)) by { assert(prefix_as_long_as(piece, subs[4].0)[2] != subs[4].0[2]); }
        assert(!begins_with(piece, subs[5].0)) by { assert(prefix_as_long_as(piece, subs[5].0)[2] != subs[5].0[2]); }
        assert(!begins_with(piece, subs[6].0)) by { assert(prefix_as_long_as(piece, subs[6].0)[2] != subs[6].0[2]); }
        assert(!begins_with(piece, subs[7].0)) by { assert(prefix_as_long_as(piece, subs[7].0)[3] != subs[7].0[3]); }
        assert(!begins_with(piece, subs[8].0)) by { assert(prefix_as_long_as(piece, subs[8].0)[2] != subs[8].0[2]); }
        assert(!begins_with(piece, subs[9].0)) by { assert(prefix_as_long_as(piece, subs[9].0)[4] != subs[9].0[4]); }
        assert(!begins_with(piece, subs[10].0)) by { assert(prefix_as_long_as(piece, subs[10].0)[4] != subs[10].0[4]); }
        assert(!begins_with(piece, subs[11].0)) by { assert(prefix_as_long_as(piece, subs[11].0)[2] != subs[11].0[2]); }
        assert(!begins_with(piece, subs[12].0)) by { assert(prefix_as_long_as(piece, subs[12].0)[2] != subs[12].0[2]); }
        assert(!begins_with(piece, subs[13].0)) by { assert(prefix_as_long_as(piece, subs[13].0)[2] != subs[13].0[2]); }
        lemma_substitute_occurrence(text, 4771, tail, subs, 14);
    }
    if no_placeholder(p.recip_sqrt_code@) {
        let tail = seq!['\n'];
        let piece = subs[15].0 + tail;
        assert(subs[15].0 == "__RECIP_SQRT_CODE__"@ && subs[15].1 == p.recip_sqrt_code@);
        assert(text.subrange(11437, 11457) =~= piece);
        assert(no_placeholder(tail)) by {
            assert forall|q: int| 0 <= q && q + 3 <= tail.len() implies !#[trigger] starts_placeholder(tail, q) by {}
        }
        assert(no_placeholder(piece.drop_first())) by {
            let d = piece.drop_first();
            assert forall|q: int| 0 <= q && q + 3 <= d.len() implies !#[trigger] starts_placeholder(d, q) by {}
        }
        assert(!begins_with(piece, subs[0].0)) by { assert(prefix_as_long_as(piece, subs[0].0)[2] != subs[0].0[2]); }
        assert(!begins_with(piece, subs[1].0)) by { assert(prefix_as_long_as(piece, subs[1].0)[2] != subs[1].0[2]); }
        assert(!begins_with(piece, subs[2].0)) by { assert(subs[2].0.len() > piece.len()); }
        assert(!begins_with(piece, subs[3].0)) by { assert(prefix_as_long_as(piece, subs[3].0)[2] != subs[3].0[2]); }
        assert(!begins_with(piece, subs[4].0)) by { assert(prefix_as_long_as(piece, subs[4].0)[2] != subs[4].0[2]); }
        assert(!begins_with(piece, subs[5].0)) by { assert(prefix_as_long_as(piece, subs[5].0)[2] != subs[5].0[2]); }
        assert(!begins_with(piece, subs[6].0)) by { assert(prefix_as_long_as(piece, subs[6].0)[2] != subs[6].0[2]); }
        assert(!begins_with(piece, subs[7].0)) by { assert(prefix_as_long_as(piece, subs[7].0)[2] != subs[7].0[2]); }
        assert(!begins_with(piece, subs[8].0)) by { assert(prefix_as_long_as(piece, subs[8].0)[2] != subs[8].0[2]); }
        assert(!begins_with(piece, subs[9].0)) by { assert(prefix_as_long_as(piece, subs[9].0)[2] != subs[9].0[2]); }
        assert(!begins_with(piece, subs[10].0)) by { assert(prefix_as_long_as(piece, subs[10].0)[2] != subs[10].0[2]); }
        assert(!begins_with(piece, subs[11].0)) by { assert(prefix_as_long_as(piece, subs[11].0)[2] != subs[11].0[2]); }
        assert(!begins_with(piece, subs[12].0)) by { assert(prefix_as_long_as(piece, subs[12].0)[2] != subs[12].0[2]); }
        assert(!begins_with(piece, subs[13].0)) by { assert(prefix_as_long_as(piece, subs[13].0)[2] != subs[13].0[2]); }
        assert(!begins_with(piece, subs[14].0)) by { assert(prefix_as_long_as(piece, subs[14].0)[2] != subs[14].0[2]); }
        lemma_substitute_occurrence(text, 11437, tail, subs, 15);
    }
    if no_placeholder(p.popcount_code@) {
        let tail = seq!['\n'];
        let piece = subs[16].0 + tail;
        assert(subs[16].0 == "__POPCOUNT_CODE__"@ && subs[16].1 == p.popcount_code@);
        assert(text.subrange(11586, 11604) =~= piece);
        assert(no_placeholder(tail)) by {
            assert forall|q: int| 0 <= q && q + 3 <= tail.len() implies !#[trigger] starts_placeholder(tail, q) by {}
        }
        assert(no_placeholder(piece.drop_first())) by {
            let d = piece.drop_first();
            assert forall|q: int| 0 <= q && q + 3 <= d.len() implies !#[trigger] starts_placeholder(d, q) by {}
        }
        assert(!begins_with(piece, subs[0].0)) by { assert(prefix_as_long_as(piece, subs[0].0)[2] != subs[0].0[2]); }
        assert(!begins_with(piece, subs[1].0)) by { assert(prefix_as_long_as(piece, subs[1].0)[2] != subs[1].0[2]); }
        assert(!begins_with(piece, subs[2].0)) by { assert(subs[2].0.len() > piece.len()); }
        assert(!begins_with(piece, subs[3].0)) by { assert(prefix_as_long_as(piece, subs[3].0)[2] != subs[3].0[2]); }
        assert(!begins_with(piece, subs[4].0)) by { assert(subs[4].0.len() > piece.len()); }
        assert(!begins_with(piece, subs[5].0)) by { assert(subs[5].0.len() > piece.len()); }
        assert(!begins_with(piece, subs[6].0)) by { assert(prefix_as_long_as(piece, subs[6].0)[2] != subs[6].0[2]); }
        assert(!begins_with(piece, subs[7].0)) by { assert(prefix_as_long_as(piece, subs[7].0)[2] != subs[7].0[2]); }
        assert(!begins_with(piece, subs[8].0)) by { assert(prefix_as_long_as(piece, subs[8].0)[3] != subs[8].0[3]); }
        assert(!begins_with(piece, subs[9].0)) by { assert(prefix_as_long_as(piece, subs[9].0)[2] != subs[9].0[2]); }
        assert(!begins_with(piece, subs[10].0)) by { assert(prefix_as_long_as(piece, subs[10].0)[2] != subs[10].0[2]); }
        assert(!begins_with(piece, subs[11].0)) by { assert(prefix_as_long_as(piece, subs[11].0)[3] != subs[11].0[3]); }
        assert(!begins_with(piece, subs[12].0)) by { assert(prefix_as_long_as(piece, subs[12].0)[2] != subs[12].0[2]); }
        assert(!begins_with(piece, subs[13].0)) by { assert(prefix_as_long_as(piece, subs[13].0)[2] != subs[13].0[2]); }
        assert(!begins_with(piece, subs[14].0)) by { assert(subs[14].0.len() > piece.len()); }
        assert(!begins_with(piece, subs[15].0)) by { assert(subs[15].0.len() > piece.len()); }
        lemma_substitute_occurrence(text, 11586, tail, subs, 16);
    }
    if no_placeholder(p.cmp_eq_val@) {
        let tail = seq![')'];
        let piece = subs[17].0 + tail;
        assert(subs[17].0 == "__CMP_EQ_VAL__"@ && subs[17].1 == p.cmp_eq_val@);
        assert(text.subrange(11797, 11812) =~= piece);
        assert(no_placeholder(tail)) by {
            assert forall|q: int| 0 <= q && q + 3 <= tail.len() implies !#[trigger] starts_placeholder(tail, q) by {}
        }
        assert(no_placeholder(piece.drop_first())) by {
            let d = piece.drop_first();
            assert forall|q: int| 0 <= q && q + 3 <= d.len() implies !#[trigger] starts_placeholder(d, q) by {}
        }
        assert(!begins_with(piece, subs[0].0)) by { assert(prefix_as_long_as(piece, subs[0].0)[2] != subs[0].0[2]); }
        assert(!begins_with(piece, subs[1].0)) by { assert(prefix_as_long_as(piece, subs[1].0)[2] != subs[1].0[2]); }
        assert(!begins_with(piece, subs[2].0)) by { assert(subs[2].0.len() > piece.len()); }
        assert(!begins_with(piece, subs[3].0)) by { assert(prefix_as_long_as(piece, subs[3].0)[2] != subs[3].0[2]); }
        assert(!begins_with(piece, subs[4].0)) by { assert(subs[4].0.len() > piece.len()); }
        assert(!begins_with(piece, subs[5].0)) by { assert(subs[5].0.len() > piece.len()); }
        assert(!begins_with(piece, subs[6].0)) by { assert(prefix_as_long_as(piece, subs[6].0)[2] != subs[6].0[2]); }
        assert(!begins_with(piece, subs[7].0)) by { assert(prefix_as_long_as(piece, subs[7].0)[2] != subs[7].0[2]); }
        assert(!begins_with(piece, subs[8].0)) by { assert(prefix_as_long_as(piece, subs[8].0)[2] != subs[8].0[2]); }
        assert(!begins_with(piece, subs[9].0)) by { assert(prefix_as_long_as(piece, subs[9].0)[2] != subs[9].0[2]); }
        assert(!begins_with(piece, subs[10].0)) by { assert(subs[10].0.len() > piece.len()); }
        assert(!begins_with(piece, subs[11].0)) by { assert(subs[11].0.len() > piece.len()); }
        assert(!begins_with(piece, subs[12].0)) by { assert(subs[12].0.len() > piece.len()); }
        assert(!begins_with(piece, subs[13].0)) by { assert(subs[13].0.len() > piece.len()); }
        assert(!begins_with(piece, subs[14].0)) by { assert(subs[14].0.len() > piece.len()); }
        assert(!begins_with(piece, subs[15].0)) by { assert(subs[15].0.len() > piece.len()); }
        assert(!begins_with(piece, subs[16].0)) by { assert(subs[16].0.len() > piece.len()); }
        lemma_substitute_occurrence(text, 11797, tail, subs, 17);
    }
    if no_placeholder(p.cmp_ne_val@) {
        let tail = seq![')'];
        let piece = subs[18].0 + tail;
        assert(subs[18].0 == "__CMP_NE_VAL__"@ && subs[18].1 == p.cmp_ne_val@);
        assert(text.subrange(12208, 12223) =~= piece);
        assert(no_placeholder(tail)) by {
            assert forall|q: int| 0 <= q && q + 3 <= tail.len() implies !#[trigger] starts_placeholder(tail, q) by {}
        }
        assert(no_placeholder(piece.drop_first())) by {
            let d = piece.drop_first();
            assert forall|q: int| 0 <= q && q + 3 <= d.len() implies !#[trigger] starts_placeholder(d, q) by {}
        }
        assert(!begins_with(piece, subs[0].0)) by { assert(prefix_as_long_as(piece, subs[0].0)[2] != subs[0].0[2]); }
        assert(!begins_with(piece, subs[1].0)) by { assert(prefix_as_long_as(piece, subs[1].0)[2] != subs[1].0[2]); }
        assert(!begins_with(piece, subs[2].0)) by { assert(subs[2].0.len() > piece.len()); }
        assert(!begins_with(piece, subs[3].0)) by { assert(prefix_as_long_as(piece, subs[3].0)[2] != subs[3].0[2]); }
        assert(!begins_with(piece, subs[4].0)) by { assert(subs[4].0.len() > piece.len()); }
        assert(!begins_with(piece, subs[5].0)) by { assert(subs[5].0.len() > piece.len()); }
        assert(!begins_with(piece, subs[6].0)) by { assert(prefix_as_long_as(piece, subs[6].0)[2] != subs[6].0[2]); }
        assert(!begins_with(piece, subs[7].0)) by { assert(prefix_as_long_as(piece, subs[7].0)[2] != subs[7].0[2]); }
        assert(!begins_with(piece, subs[8].0)) by { assert(prefix_as_long_as(piece, subs[8].0)[2] != subs[8].0[2]); }
        assert(!begins_with(piece, subs[9].0)) by { assert(prefix_as_long_as(piece, subs[9].0)[2] != subs[9].0[2]); }
        assert(!begins_with(piece, subs[10].0)) by { assert(subs[10].0.len() > piece.len()); }
        assert(!begins_with(piece, subs[11].0)) by { assert(subs[11].0.len() > piece.len()); }
        assert(!begins_with(piece, subs[12].0)) by { assert(subs[12].0.len() > piece.len()); }
        assert(!begins_with(piece, subs[13].0)) by { assert(subs[13].0.len() > piece.len()); }
        assert(!begins_with(piece, subs[14].0)) by { assert(subs[14].0.len() > piece.len()); }
        assert(!begins_with(piece, subs[15].0)) by { assert(subs[15].0.len() > piece.len()); }
        assert(!begins_with(piece, subs[16].0)) by { assert(subs[16].0.len() > piece.len()); }
        assert(!begins_with(piece, subs[17].0)) by { assert(prefix_as_long_as(piece, subs[17].0)[6] != subs[17].0[6]); }
        lemma_substitute_occurrence(text, 12208, tail, subs, 18);
    }
    if no_placeholder(p.cmp_lt_val@) {
        let tail = seq![')'];
        let piece = subs[19].0 + tail;
        assert(subs[19].0 == "__CMP_LT_VAL__"@ && subs[19].1 == p.cmp_lt_val@);
        assert(text.subrange(12619, 12634) =~= piece);
        assert(no_placeholder(tail)) by {
            assert forall|q: int| 0 <= q && q + 3 <= tail.len() implies !#[trigger] starts_placeholder(tail, q) by {}
        }
        assert(no_placeholder(piece.drop_first())) by {
            let d = piece.drop_first();
            assert forall|q: int| 0 <= q && q + 3 <= d.len() implies !#[trigger] starts_placeholder(d, q) by {}
        }
        assert(!begins_with(piece, subs[0].0)) by { assert(prefix_as_long_as(piece, subs[0].0)[2] != subs[0].0[2]); }
        assert(!begins_with(piece, subs[1].0)) by { assert(prefix_as_long_as(piece, subs[1].0)[2] != subs[1].0[2]); }
        assert(!begins_with(piece, subs[2].0)) by { assert(subs[2].0.len() > piece.len()); }
        assert(!begins_with(piece, subs[3].0)) by { assert(prefix_as_long_as(piece, subs[3].0)[2] != subs[3].0[2]); }
        assert(!begins_with(piece, subs[4].0)) by { assert(subs[4].0.len() > piece.len()); }
        assert(!begins_with(piece, subs[5].0)) by { assert(subs[5].0.len() > piece.len()); }
        assert(!begins_with(piece, subs[6].0)) by { assert(prefix_as_long_as(piece, subs[6].0)[2] != subs[6].0[2]); }
        assert(!begins_with(piece, subs[7].0)) by { assert(prefix_as_long_as(piece, subs[7].0)[2] != subs[7].0[2]); }
        assert(!begins_with(piece, subs[8].0)) by { assert(prefix_as_long_as(piece, subs[8].0)[2] != subs[8].0[2]); }
        assert(!begins_with(piece, subs[9].0)) by { assert(prefix_as_long_as(piece, subs[9].0)[2] != subs[9].0[2]); }
        assert(!begins_with(piece, subs[10].0)) by { assert(subs[10].0.len() > piece.len()); }
        assert(!begins_with(piece, subs[11].0)) by { assert(subs[11].0.len() > piece.len()); }
        assert(!begins_with(piece, subs[12].0)) by { assert(subs[12].0.len() > piece.len()); }
        assert(!begins_with(piece, subs[13].0)) by { assert(subs[13].0.len() > piece.len()); }
        assert(!begins_with(piece, subs[14].0)) by { assert(subs[14].0.len() > piece.len()); }
        assert(!begins_with(piece, subs[15].0)) by { assert(subs[15].0.len() > piece.len()); }
        assert(!begins_with(piece, subs[16].0)) by { assert(subs[16].0.len() > piece.len()); }
        assert(!begins_with(piece, subs[17].0)) by { assert(prefix_as_long_as(piece, subs[17].0)[6] != subs[17].0[6]); }
        assert(!begins_with(piece, subs[18].0)) by { assert(prefix_as_long_as(piece, subs[18].0)[6] != subs[18].0[6]); }
        lemma_substitute_occurrence(text, 12619, tail, subs, 19);
    }
    if no_placeholder(p.cmp_le_val@) {
        let tail = seq![')'];
        let piece = subs[20].0 + tail;
        assert(subs[20].0 == "__CMP_LE_VAL__"@ && subs[20].1 == p.cmp_le_val@);
        assert(text.subrange(13030, 13045) =~= piece);
        assert(no_placeholder(tail)) by {
            assert forall|q: int| 0 <= q && q + 3 <= tail.len() implies !#[trigger] starts_placeholder(tail, q) by {}
        }
        assert(no_placeholder(piece.drop_first())) by {
            let d = piece.drop_first();
            assert forall|q: int| 0 <= q && q + 3 <= d.len() implies !#[trigger] starts_placeholder(d, q) by {}
        }
        assert(!begins_with(piece, subs[0].0)) by { assert(prefix_as_long_as(piece, subs[0].0)[2] != subs[0].0[2]); }
        assert(!begins_with(piece, subs[1].0)) by { assert(prefix_as_long_as(piece, subs[1].0)[2] != subs[1].0[2]); }
        assert(!begins_with(piece, subs[2].0)) by { assert(subs[2].0.len() > piece.len()); }
        assert(!begins_with(piece, subs[3].0)) by { assert(prefix_as_long_as(piece, subs[3].0)[2] != subs[3].0[2]); }
        assert(!begins_with(piece, subs[4].0)) by { assert(subs[4].0.len() > piece.len()); }
        assert(!begins_with(piece, subs[5].0)) by { assert(subs[5].0.len() > piece.len()); }
        assert(!begins_with(piece, subs[6].0)) by { assert(prefix_as_long_as(piece, subs[6].0)[2] != subs[6].0[2]); }
        assert(!begins_with(piece, subs[7].0)) by { assert(prefix_as_long_as(piece, subs[7].0)[2] != subs[7].0[2]); }
        assert(!begins_with(piece, subs[8].0)) by { assert(prefix_as_long_as(piece, subs[8].0)[2] != subs[8].0[2]); }
        assert(!begins_with(piece, subs[9].0)) by { assert(prefix_as_long_as(piece, subs[9].0)[2] != subs[9].0[2]); }
        assert(!begins_with(piece, subs[10].0)) by { assert(subs[10].0.len() > piece.len()); }
        assert(!begins_with(piece, subs[11].0)) by { assert(subs[11].0.len() > piece.len()); }
        assert(!begins_with(piece, subs[12].0)) by { assert(subs[12].0.len() > piece.len()); }
        assert(!begins_with(piece, subs[13].0)) by { assert(subs[13].0.len() > piece.len()); }
        assert(!begins_with(piece, subs[14].0)) by { assert(subs[14].0.len() > piece.len()); }
        assert(!begins_with(piece, subs[15].0)) by { assert(subs[15].0.len() > piece.len()); }
        assert(!begins_with(piece, subs[16].0)) by { assert(subs[16].0.len() > piece.len()); }
        assert(!begins_with(piece, subs[17].0)) by { assert(prefix_as_long_as(piece, subs[17].0)[6] != subs[17].0[6]); }
        assert(!begins_with(piece, subs[18].0)) by { assert(prefix_as_long_as(piece, subs[18].0)[6] != subs[18].0[6]); }
        assert(!begins_with(piece, subs[19].0)) by { assert(prefix_as_long_as(piece, subs[19].0)[7] != subs[19].0[7]); }
        lemma_substitute_occurrence(text, 13030, tail, subs, 20);
    }
    if no_placeholder(p.cmp_gt_val@) {
        let tail = seq![')'];
        let piece = subs[21].0 + tail;
        assert(subs[21].0 == "__CMP_GT_VAL__"@ && subs[21].1 == p.cmp_gt_val@);
        assert(text.subrange(13441, 13456) =~= piece);
        assert(no_placeholder(tail)) by {
            assert forall|q: int| 0 <= q && q + 3 <= tail.len() implies !#[trigger] starts_placeholder(tail, q) by {}
        }
        assert(no_placeholder(piece.drop_first())) by {
            let d = piece.drop_first();
            assert forall|q: int| 0 <= q && q + 3 <= d.len() implies !#[trigger] starts_placeholder(d, q) by {}
        }
        assert(!begins_with(piece, subs[0].0)) by { assert(prefix_as_long_as(piece, subs[0].0)[2] != subs[0].0[2]); }
        assert(!begins_with(piece, subs[1].0)) by { assert(prefix_as_long_as(piece, subs[1].0)[2] != subs[1].0[2]); }
        assert(!begins_with(piece, subs[2].0)) by { assert(subs[2].0.len() > piece.len()); }
        assert(!begins_with(piece, subs[3].0)) by { assert(prefix_as_long_as(piece, subs[3].0)[2] != subs[3].0[2]); }
        assert(!begins_with(piece, subs[4].0)) by { assert(subs[4].0.len() > piece.len()); }
        assert(!begins_with(piece, subs[5].0)) by { assert(subs[5].0.len() > piece.len()); }
        assert(!begins_with(piece, subs[6].0)) by { assert(prefix_as_long_as(piece, subs[6].0)[2] != subs[6].0[2]); }
        assert(!begins_with(piece, subs[7].0)) by { assert(prefix_as_long_as(piece, subs[7].0)[2] != subs[7].0[2]); }
        assert(!begins_with(piece, subs[8].0)) by { assert(prefix_as_long_as(piece, subs[8].0)[2] != subs[8].0[2]); }
        assert(!begins_with(piece, subs[9].0)) by { assert(prefix_as_long_as(piece, subs[9].0)[2] != subs[9].0[2]); }
        assert(!begins_with(piece, subs[10].0)) by { assert(subs[10].0.len() > piece.len()); }
        assert(!begins_with(piece, subs[11].0)) by { assert(subs[11].0.len() > piece.len()); }
        assert(!begins_with(piece, subs[12].0)) by { assert(subs[12].0.len() > piece.len()); }
        assert(!begins_with(piece, subs[13].0)) by { assert(subs[13].0.len() > piece.len()); }
        assert(!begins_with(piece, subs[14].0)) by { assert(subs[14].0.len() > piece.len()); }
        assert(!begins_with(piece, subs[15].0)) by { assert(subs[15].0.len() > piece.len()); }
        assert(!begins_with(piece, subs[16].0)) by { assert(subs[16].0.len() > piece.len()); }
        assert(!begins_with(piece, subs[17].0)) by { assert(prefix_as_long_as(piece, subs[17].0)[6] != subs[17].0[6]); }
        assert(!begins_with(piece, subs[18].0)) by { assert(prefix_as_long_as(piece, subs[18].0)[6] != subs[18].0[6]); }
        assert(!begins_with(piece, subs[19].0)) by { assert(prefix_as_long_as(piece, subs[19].0)[6] != subs[19].0[6]); }
        assert(!begins_with(piece, subs[20].0)) by { assert(prefix_as_long_as(piece, subs[20].0)[6] != subs[20].0[6]); }
        lemma_substitute_occurrence(text, 13441, tail, subs, 21);
    }
    if no_placeholder(p.cmp_ge_val@) {
        let tail = seq![')'];
        let piece = subs[22].0 + tail;
        assert(subs[22].0 == "__CMP_GE_VAL__"@ && subs[22].1 == p.cmp_ge_val@);
        assert(text.subrange(13852, 13867) =~= piece);
        assert(no_placeholder(tail)) by {
            assert forall|q: int| 0 <= q && q + 3 <= tail.len() implies !#[trigger] starts_placeholder(tail, q) by {}
        }
        assert(no_placeholder(piece.drop_first())) by {
            let d = piece.drop_first();
            assert forall|q: int| 0 <= q && q + 3 <= d.len() implies !#[trigger] starts_placeholder(d, q) by {}
        }
        assert(!begins_with(piece, subs[0].0)) by { assert(prefix_as_long_as(piece, subs[0].0)[2] != subs[0].0[2]); }
        assert(!begins_with(piece, subs[1].0)) by { assert(prefix_as_long_as(piece, subs[1].0)[2] != subs[1].0[2]); }
        assert(!begins_with(piece, subs[2].0)) by { assert(subs[2].0.len() > piece.len()); }
        assert(!begins_with(piece, subs[3].0)) by { assert(prefix_as_long_as(piece, subs[3].0)[2] != subs[3].0[2]); }
        assert(!begins_with(piece, subs[4].0)) by { assert(subs[4].0.len() > piece.len()); }
        assert(!begins_with(piece, subs[5].0)) by { assert(subs[5].0.len() > piece.len()); }
        assert(!begins_with(piece, subs[6].0)) by { assert(prefix_as_long_as(piece, subs[6].0)[2] != subs[6].0[2]); }
        assert(!begins_with(piece, subs[7].0)) by { assert(prefix_as_long_as(piece, subs[7].0)[2] != subs[7].0[2]); }
        assert(!begins_with(piece, subs[8].0)) by { assert(prefix_as_long_as(piece, subs[8].0)[2] != subs[8].0[2]); }
        assert(!begins_with(piece, subs[9].0)) by { assert(prefix_as_long_as(piece, subs[9].0)[2] != subs[9].0[2]); }
        assert(!begins_with(piece, subs[10].0)) by { assert(subs[10].0.len() > piece.len()); }
        assert(!begins_with(piece, subs[11].0)) by { assert(subs[11].0.len() > piece.len()); }
        assert(!begins_with(piece, subs[12].0)) by { assert(subs[12].0.len() > piece.len()); }
        assert(!begins_with(piece, subs[13].0)) by { assert(subs[13].0.len() > piece.len()); }
        assert(!begins_with(piece, subs[14].0)) by { assert(subs[14].0.len() > piece.len()); }
        assert(!begins_with(piece, subs[15].0)) by { assert(subs[15].0.len() > piece.len()); }
        assert(!begins_with(piece, subs[16].0)) by { assert(subs[16].0.len() > piece.len()); }
        assert(!begins_with(piece, subs[17].0)) by { assert(prefix_as_long_as(piece, subs[17].0)[6] != subs[17].0[6]); }
        assert(!begins_with(piece, subs[18].0)) by { assert(prefix_as_long_as(piece, subs[18].0)[6] != subs[18].0[6]); }
        assert(!begins_with(piece, subs[19].0)) by { assert(prefix_as_long_as(piece, subs[19].0)[6] != subs[19].0[6]); }
        assert(!begins_with(piece, subs[20].0)) by { assert(prefix_as_long_as(piece, subs[20].0)[6] != subs[20].0[6]); }
        assert(!begins_with(piece, subs[21].0)) by { assert(prefix_as_long_as(piece, subs[21].0)[7] != subs[21].0[7]); }
        lemma_substitute_occurrence(text, 13852, tail, subs, 22);
    }
}

} // verus!
