use hermes_simd::codegen::{decimal, render_avx2, render_avx512, replace_all, Param, AVX2_TEMPLATE, AVX512_TEMPLATE};

fn sample() -> Param {
    Param {
        scalar_type: "f64",
        vector_type: "Avx2F64Vec",
        vector_underlying: "__m256d",
        mask_type: "Avx2F64Mask",
        mask_underlying: "__m256d",
        index_vector: "Avx2F64Idx",
        index_underlying: "__m128i",
        lane_count: 4,
        scale: 8,
        prefix: "_mm256",
        suffix: "pd",
        suffix_upper: "PD",
        permute_mask: "0b0101",
        dup_even_code: "Avx2F64Vec(_mm256_movedup_pd(v.0))",
        dup_odd_code: "Avx2F64Vec(_mm256_permute_pd(v.0, 0b1111))",
        sum_reduce_code: "        reduce(v)",
        recip_sqrt_code: "        rsqrt(a)",
        popcount_code: "        popcount(a)",
        cmp_eq_val: "_CMP_EQ_OQ",
        cmp_ne_val: "_CMP_NEQ_OQ",
        cmp_lt_val: "_CMP_LT_OQ",
        cmp_le_val: "_CMP_LE_OQ",
        cmp_gt_val: "_CMP_GT_OQ",
        cmp_ge_val: "_CMP_GE_OQ",
        one_half_val: "0.5f64",
        three_val: "3.0f64",
    }
}

fn std_chain(template: &str, p: &Param, with_index_vector: bool) -> String {
    let mut t = template
        .replace("__SCALAR_TYPE__", p.scalar_type)
        .replace("__VECTOR_TYPE__", p.vector_type)
        .replace("__VECTOR_UNDERLYING__", p.vector_underlying)
        .replace("__MASK_TYPE__", p.mask_type)
        .replace("__MASK_UNDERLYING__", p.mask_underlying);
    if with_index_vector {
        t = t.replace("__INDEX_VECTOR__", p.index_vector);
    }
    t.replace("__INDEX_UNDERLYING__", p.index_underlying)
        .replace("__LANE_COUNT__", &p.lane_count.to_string())
        .replace("__SCALE__", &p.scale.to_string())
        .replace("__PREFIX__", p.prefix)
        .replace("__SUFFIX__", p.suffix)
        .replace("__SUFFIX_UPPER__", p.suffix_upper)
        .replace("__PERMUTE_MASK__", p.permute_mask)
        .replace("__DUP_EVEN_CODE__", p.dup_even_code)
        .replace("__DUP_ODD_CODE__", p.dup_odd_code)
        .replace("__SUM_REDUCE_CODE__", p.sum_reduce_code)
        .replace("__RECIP_SQRT_CODE__", p.recip_sqrt_code)
        .replace("__POPCOUNT_CODE__", p.popcount_code)
        .replace("__CMP_EQ_VAL__", p.cmp_eq_val)
        .replace("__CMP_NE_VAL__", p.cmp_ne_val)
        .replace("__CMP_LT_VAL__", p.cmp_lt_val)
        .replace("__CMP_LE_VAL__", p.cmp_le_val)
        .replace("__CMP_GT_VAL__", p.cmp_gt_val)
        .replace("__CMP_GE_VAL__", p.cmp_ge_val)
        .replace("__ONE_HALF_VAL__", p.one_half_val)
        .replace("__THREE_VAL__", p.three_val)
}

#[test]
fn rendered_kernels_match_the_string_replacement_chain() {
    let p = sample();
    assert_eq!(render_avx2(&p), std_chain(AVX2_TEMPLATE, &p, true));
    assert_eq!(render_avx512(&p), std_chain(AVX512_TEMPLATE, &p, false));
    let avx2 = render_avx2(&p);
    assert!(avx2.starts_with("//! AVX2 f64 hardware kernel."));
    assert!(!avx2.contains("__SCALAR_TYPE__"));
    assert!(avx2.contains("pub struct Avx2F64Vec(pub __m256d);"));
}

#[test]
fn replace_all_scans_left_to_right_without_overlap() {
    assert_eq!(replace_all("aaa", "aa", "b"), "ba");
    assert_eq!(replace_all("x__A__y__A__", "__A__", "12"), "x12y12");
    assert_eq!(replace_all("no match", "zz", "q"), "no match");
    assert_eq!(replace_all("", "a", "b"), "");
    assert_eq!(replace_all("ééé", "é", "e"), "eee");
}

#[test]
fn decimal_matches_to_string() {
    for n in [0usize, 7, 10, 99, 100, 4096, 1234567890, usize::MAX] {
        assert_eq!(decimal(n), n.to_string());
    }
}
