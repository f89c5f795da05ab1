use hermes_simd::dispatch::{
    avx2_adapter_name, dispatch_name, feature_frames, helper_name, is_kernel_facet, returns_before_fallback,
    single_input_lifetime, split_features, targets_for, upper_camel_case, ArchFamily, DispatchTarget,
};

#[test]
fn kernel_names_become_type_names() {
    assert_eq!(upper_camel_case("dot_avx2_fma"), "DotAvx2Fma");
    assert_eq!(upper_camel_case("sum_kernel"), "SumKernel");
    assert_eq!(upper_camel_case("__leading__and_trailing_"), "LeadingAndTrailing");
    assert_eq!(upper_camel_case(""), "");
    assert_eq!(upper_camel_case("___"), "");
    assert_eq!(upper_camel_case("ßeta_x"), "SSetaX");
}

#[test]
fn dispatch_list_names() {
    assert_eq!(DispatchTarget::from_name("avx512f"), Some(DispatchTarget::Avx512f));
    assert_eq!(DispatchTarget::from_name("avx2"), Some(DispatchTarget::Avx2));
    assert_eq!(DispatchTarget::from_name("neon"), Some(DispatchTarget::Neon));
    assert_eq!(DispatchTarget::from_name("scalar"), Some(DispatchTarget::Scalar));
    assert_eq!(DispatchTarget::from_name("sse2"), None);
    assert_eq!(DispatchTarget::from_name("AVX2"), None);
}

#[test]
fn feature_strings() {
    assert_eq!(DispatchTarget::Avx512f.feature_str(), Some("avx512f"));
    assert_eq!(DispatchTarget::Avx2.feature_str(), Some("avx2,fma"));
    assert_eq!(DispatchTarget::Neon.feature_str(), Some("neon"));
    assert_eq!(DispatchTarget::Scalar.feature_str(), None);
}

#[test]
fn dispatcher_names_drop_the_kernel_suffix() {
    assert_eq!(dispatch_name("dot_kernel"), "dot");
    assert_eq!(dispatch_name("dot_impl"), "dot");
    assert_eq!(dispatch_name("dot_kernel_impl"), "dot_kernel");
    assert_eq!(dispatch_name("dot"), "dot");
    assert_eq!(dispatch_name("_kernel"), "");
    assert_eq!(dispatch_name("kernel"), "kernel");
}

#[test]
fn adapter_names() {
    assert_eq!(avx2_adapter_name("fused_dot"), "__HermesFusedDotAvx2Frame");
    assert_eq!(avx2_adapter_name(""), "__HermesAvx2Frame");
}

#[test]
fn targets_per_architecture_keep_the_listed_order() {
    let listed = vec![DispatchTarget::Neon, DispatchTarget::Avx2, DispatchTarget::Scalar, DispatchTarget::Avx512f];
    assert_eq!(
        targets_for(&listed, ArchFamily::X86),
        vec![DispatchTarget::Avx2, DispatchTarget::Scalar, DispatchTarget::Avx512f]
    );
    assert_eq!(targets_for(&listed, ArchFamily::Aarch64), vec![DispatchTarget::Neon, DispatchTarget::Scalar]);
    assert_eq!(targets_for(&listed, ArchFamily::Other), vec![DispatchTarget::Scalar]);
    assert_eq!(targets_for(&vec![DispatchTarget::Avx2], ArchFamily::Other), vec![DispatchTarget::Scalar]);
    assert!(returns_before_fallback(&listed));
    assert!(!returns_before_fallback(&vec![DispatchTarget::Avx2, DispatchTarget::Scalar]));
}

#[test]
fn frames_per_target() {
    let frames = feature_frames(DispatchTarget::Avx2, true);
    assert_eq!(frames.len(), 2);
    assert_eq!((frames[0].features, frames[0].requires_f16c), ("avx2,fma,f16c", Some(true)));
    assert_eq!((frames[1].features, frames[1].requires_f16c), ("avx2,fma", Some(false)));
    let frames = feature_frames(DispatchTarget::Avx2, false);
    assert_eq!(frames.len(), 1);
    assert_eq!((frames[0].features, frames[0].requires_f16c), ("avx2,fma", None));
    let frames = feature_frames(DispatchTarget::Avx512f, true);
    assert_eq!((frames.len(), frames[0].features, frames[0].requires_f16c), (1, "avx512f", None));
    assert_eq!(feature_frames(DispatchTarget::Neon, false)[0].features, "neon");
    assert!(feature_frames(DispatchTarget::Scalar, true).is_empty());
}

#[test]
fn helper_names_and_feature_lists() {
    assert_eq!(helper_name("dot", "avx2,fma,f16c"), "dot_avx2_fma_f16c");
    assert_eq!(helper_name("dot", "sse4-2"), "dot_sse4_2");
    assert_eq!(split_features("avx2,fma,f16c"), vec!["avx2", "fma", "f16c"]);
    assert_eq!(split_features("neon"), vec!["neon"]);
    assert_eq!(split_features(""), vec![""]);
    assert_eq!(split_features("a,,b,"), vec!["a", "", "b", ""]);
}

#[test]
fn kernel_facets_and_lifetimes() {
    assert!(is_kernel_facet("SimdKernel"));
    assert!(is_kernel_facet("SimdPermute"));
    assert!(!is_kernel_facet("SimdArch"));
    assert!(!is_kernel_facet("Copy"));
    assert!(single_input_lifetime(&vec!["a".to_string(), "a".to_string()]));
    assert!(!single_input_lifetime(&vec!["a".to_string(), "b".to_string()]));
    assert!(!single_input_lifetime(&vec![]));
}

#[test]
fn helper_names_of_a_kernel_over_a_scalar_type() {
    let dispatcher = dispatch_name("dot_kernel");
    let names: Vec<String> = feature_frames(DispatchTarget::Avx2, true)
        .iter()
        .map(|frame| helper_name(&dispatcher, frame.features))
        .collect();
    assert_eq!(names, vec!["dot_avx2_fma_f16c", "dot_avx2_fma"]);
    let f16c_frames = feature_frames(DispatchTarget::Avx2, true)
        .iter()
        .filter(|frame| split_features(frame.features).iter().any(|feature| feature == "f16c"))
        .count();
    assert_eq!(f16c_frames, 1);
    let plain: Vec<String> = feature_frames(DispatchTarget::Avx2, false)
        .iter()
        .map(|frame| helper_name(&dispatch_name("probe_kernel"), frame.features))
        .collect();
    assert_eq!(plain, vec!["probe_avx2_fma"]);
}

#[test]
fn only_a_neon_arm_makes_the_fallback_unreachable() {
    let x86 = targets_for(&vec![DispatchTarget::Avx2, DispatchTarget::Scalar], ArchFamily::X86);
    assert!(!returns_before_fallback(&x86));
    let arm = targets_for(&vec![DispatchTarget::Neon, DispatchTarget::Scalar], ArchFamily::Aarch64);
    assert!(returns_before_fallback(&arm));
}
