use hermes_simd::arch::{Avx512, AvxVnni, Scalar, SimdArch, IsaFamily, Neon, Avx2, SveArch, AmxBf16, AmxInt8};
use hermes_simd::tiling::{unpack_int4, unpack_int4_avx2};

fn reference(c: &[i32], a: &[i8], b: &[i8], m: usize, n: usize, k: usize) -> Vec<i32> {
    let mut expected = c.to_vec();
    for row in 0..m {
        for column in 0..n {
            let mut sum = 0i32;
            for depth in 0..k {
                sum = sum.wrapping_add((a[row * k + depth] as i32) * (b[depth * n + column] as i32));
            }
            expected[row * n + column] = expected[row * n + column].wrapping_add(sum);
        }
    }
    expected
}

#[test]
fn signed_tile_matches_wrapping_scalar_bitwise() {
    const M: usize = 16;
    const N: usize = 16;
    const K: usize = 64;
    let a: Vec<i8> = (0..M * K).map(|index| ((index * 89 + 3) % 256) as u8 as i8).collect();
    let b: Vec<i8> = (0..K * N).map(|index| ((index * 41 + 128) % 256) as u8 as i8).collect();
    let initial: Vec<i32> = (0..M * N).map(|index| (index as i32).wrapping_mul(7_919).wrapping_sub(40_000)).collect();
    let expected = reference(&initial, &a, &b, M, N, K);

    let mut primitive = initial.clone();
    Avx512::tile_matmul(&mut primitive, N, &a, K, &b, N);
    assert_eq!(primitive, expected);
}

#[test]
fn avx_vnni_tile_matches_scalar_bitwise() {
    let a: Vec<i8> = (0..16 * 64).map(|i| ((i * 37 + 11) % 256) as u8 as i8).collect();
    let b: Vec<i8> = (0..64 * 16).map(|i| ((i * 73 + 190) % 256) as u8 as i8).collect();
    let c_init: Vec<i32> = (0..16 * 16).map(|i| i * 1001 - 12345).collect();

    let mut c_vnni = c_init.clone();
    let mut c_ref = c_init;

    AvxVnni::tile_matmul(&mut c_vnni, 16, &a, 64, &b, 16);
    Scalar::tile_matmul::<16, 16, 64>(&mut c_ref, 16, &a, 64, &b, 16);

    assert_eq!(c_vnni, c_ref, "AVX-VNNI tile diverges from scalar reference");
}

#[test]
fn avx_vnni_tile_extreme_negative_operands() {
    let a = vec![-128i8; 16 * 64];
    let b = vec![-128i8; 64 * 16];
    let mut c_vnni = vec![i32::MAX - 7; 16 * 16];
    let mut c_ref = vec![i32::MAX - 7; 16 * 16];

    AvxVnni::tile_matmul(&mut c_vnni, 16, &a, 64, &b, 16);
    Scalar::tile_matmul::<16, 16, 64>(&mut c_ref, 16, &a, 64, &b, 16);

    assert_eq!(c_vnni, c_ref, "wraparound semantics diverge from scalar");
}

#[test]
fn scalar_tile_respects_strides_and_leaves_the_rest() {
    // A 2 x 3 tile inside rows of 5, with a 2 x 2 depth.
    let a: Vec<i8> = vec![1, 2, 9, 3, 4, 9];
    let b: Vec<i8> = vec![5, 6, 7, 9, -1, -2, -3, 9];
    let mut c = vec![100i32; 10];
    Scalar::tile_matmul::<2, 3, 2>(&mut c, 5, &a, 3, &b, 4);
    assert_eq!(c, vec![103, 102, 101, 100, 100, 111, 110, 109, 100, 100]);
}

#[test]
fn scalar_tile_wraps_on_overflow() {
    let a = vec![127i8; 4];
    let b = vec![127i8; 4];
    let mut c = vec![i32::MAX];
    Scalar::tile_matmul::<1, 1, 4>(&mut c, 1, &a, 4, &b, 1);
    assert_eq!(c[0], i32::MAX.wrapping_add(4 * 127 * 127));
}

#[test]
fn unpack_int4_sign_extends_both_nibbles() {
    let packed = [0x00u8, 0x7F, 0x80, 0xF8, 0x1E];
    let mut unpacked = [99i8; 12];
    unpack_int4(&packed, &mut unpacked);
    assert_eq!(unpacked, [0, 0, -1, 7, 0, -8, -8, -1, -2, 1, 99, 99]);
}

#[test]
fn backends_describe_themselves() {
    assert_eq!(Scalar::name(), "scalar");
    assert_eq!(Avx2::name(), "avx2");
    assert_eq!(Avx512::name(), "avx512");
    assert_eq!(Neon::name(), "neon");
    assert_eq!(SveArch::name(), "sve-emulated");
    assert_eq!(AmxBf16::name(), "amx_bf16");
    assert_eq!(AmxInt8::name(), "amx_int8");
    assert_eq!(Avx512::info().register_width_bits, 512);
    assert_eq!(Avx2::info().fma_throughput_hint, 4);
    assert_eq!(Neon::info().isa_family, IsaFamily::AArch64);
    assert_eq!(Scalar::info().register_width_bits, 0);
    assert_eq!(AmxInt8::info().register_width_bits, 8192);
    assert!(SveArch::is_runtime_supported());
}

#[test]
fn unpack_int4_blocks_agree_with_the_byte_loop() {
    let packed: Vec<u8> = (0..75u32).map(|i| (i * 37 + 11) as u8).collect();
    let mut by_block = vec![5i8; 152];
    let mut by_byte = vec![5i8; 152];
    unpack_int4_avx2(&packed, &mut by_block);
    unpack_int4(&packed, &mut by_byte);
    assert_eq!(by_block, by_byte);
    for (i, byte) in packed.iter().enumerate() {
        let low = (byte & 0x0F) as i8;
        let high = (byte >> 4) as i8;
        assert_eq!(by_block[2 * i], if low >= 8 { low - 16 } else { low });
        assert_eq!(by_block[2 * i + 1], if high >= 8 { high - 16 } else { high });
    }
    assert_eq!(&by_block[150..], &[5, 5]);
    // 0xF8: low nibble 8 reads -8, high nibble 15 reads -1.
    let mut one = [0i8; 2];
    unpack_int4_avx2(&[0xF8], &mut one);
    assert_eq!(one, [-8, -1]);
}
