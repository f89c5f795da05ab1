use hermes_simd::amx::config::AmxConfig;
use hermes_simd::amx::gemm::AmxGemm;
use hermes_simd::arch::AmxInt8;
use hermes_simd::amx::pack::pack_rhs_panel;
use hermes_simd::amx::probe::{
    has_amx_bf16, has_amx_int8, has_amx_tile, linux_permission_granted, windows_permission_granted, probe_start, probe_step, xcomp_offers_tile_data, xstate_enables_amx,
    AmxAvailability, PermissionProtocol, ProbeCache, ProbeEvent, ProbeState,
};
use hermes_simd::amx::session::{AmxBatchSession, AmxSession, AmxSessionError, AmxThreadState, TileCommand};

/// A host as the probe sees it.
#[derive(Clone, Copy)]
struct Host {
    max_leaf: u32,
    leaf1_ecx: u32,
    leaf7_edx: u32,
    xcr0: u64,
    permission: bool,
}

const AMX_HOST: Host = Host {
    max_leaf: 0x20,
    leaf1_ecx: 1 << 27,
    leaf7_edx: (1 << 22) | (1 << 24) | (1 << 25),
    xcr0: 0x6_00E7,
    permission: true,
};

/// Runs the probe against `host`, answering each question it asks.
fn probe(protocol: PermissionProtocol, host: Host) -> AmxAvailability {
    let mut state = probe_start(protocol);
    loop {
        state = match state {
            ProbeState::AwaitMaxLeaf { .. } => probe_step(state, ProbeEvent::MaxLeaf(host.max_leaf)),
            ProbeState::AwaitLeaves { .. } => probe_step(
                state,
                ProbeEvent::Leaves { leaf1_ecx: host.leaf1_ecx, leaf7_edx: host.leaf7_edx },
            ),
            ProbeState::AwaitXcr0 { .. } => probe_step(state, ProbeEvent::Xcr0(host.xcr0)),
            ProbeState::AwaitPermission { .. } => probe_step(state, ProbeEvent::Permission(host.permission)),
            ProbeState::Done(availability) => return availability,
        };
    }
}

/// Hosts that differ from a full AMX host in one condition or another.
fn hosts() -> Vec<Host> {
    let mut hosts = vec![AMX_HOST];
    hosts.push(Host { max_leaf: 6, ..AMX_HOST });
    hosts.push(Host { leaf1_ecx: 0, ..AMX_HOST });
    hosts.push(Host { leaf7_edx: (1 << 22) | (1 << 25), ..AMX_HOST });
    hosts.push(Host { leaf7_edx: 1 << 24, ..AMX_HOST });
    hosts.push(Host { leaf7_edx: (1 << 24) | (1 << 25), ..AMX_HOST });
    hosts.push(Host { xcr0: 0x2_00E7, ..AMX_HOST });
    hosts.push(Host { xcr0: 0xE7, ..AMX_HOST });
    hosts.push(Host { permission: false, ..AMX_HOST });
    hosts
}

#[test]
fn miri_session_nesting_preserves_active_config_until_outer_drop() {
    let config = AmxConfig::new_uniform(16, 64);
    let mut state = AmxThreadState::new();
    assert!(!AmxSession::is_active(&state));

    {
        let (outer, load) = AmxSession::new(&mut state, &config, true).unwrap();
        assert_eq!(load, TileCommand::Load);
        assert!(AmxSession::is_active(&state));
        {
            let (inner, keep) = AmxSession::new(&mut state, &config, true).unwrap();
            assert_eq!(keep, TileCommand::Keep);
            assert!(AmxSession::is_active(&state));
            assert_eq!(inner.exit(&mut state), TileCommand::Keep);
        }
        assert!(AmxSession::is_active(&state));
        assert_eq!(outer.exit(&mut state), TileCommand::Release);
    }

    assert!(!AmxSession::is_active(&state));
}

#[test]
fn miri_explicit_release_resets_session_state() {
    let config = AmxConfig::new_uniform(16, 64);
    let mut state = AmxThreadState::new();
    let (_session, _) = AmxSession::new(&mut state, &config, true).unwrap();
    assert!(AmxSession::is_active(&state));

    assert_eq!(AmxSession::release(&mut state, true), TileCommand::Release);
    assert!(!AmxSession::is_active(&state));
    assert_eq!(state.depth, 0);
}

#[test]
fn miri_batch_session_drop_resets_session_state() {
    let config = AmxConfig::new_uniform(16, 64);
    let mut state = AmxThreadState::new();
    {
        let (session, load) = AmxBatchSession::begin(&mut state, &config, true).unwrap();
        assert_eq!(load, TileCommand::Load);
        assert!(AmxSession::is_active(&state));
        assert_eq!(session.end(&mut state), TileCommand::Release);
    }
    assert!(!AmxSession::is_active(&state));
}

#[test]
fn nested_session_with_other_config_reloads() {
    let outer_config = AmxConfig::new_uniform(16, 64);
    let inner_config = AmxConfig::new_uniform(8, 32);
    let mut state = AmxThreadState::new();
    let (outer, _) = AmxSession::new(&mut state, &outer_config, true).unwrap();
    let (inner, reload) = AmxSession::new(&mut state, &inner_config, true).unwrap();
    assert_eq!(reload, TileCommand::Load);
    assert_eq!(state.depth, 2);
    assert_eq!(state.active, Some(inner_config));
    assert_eq!(inner.exit(&mut state), TileCommand::Keep);
    assert_eq!(outer.exit(&mut state), TileCommand::Release);
    assert_eq!(state.active, None);
}

#[test]
fn unsupported_host_refuses_sessions() {
    let config = AmxConfig::new_uniform(16, 64);
    let mut state = AmxThreadState::new();
    assert!(matches!(AmxSession::new(&mut state, &config, false), Err(AmxSessionError::UnsupportedTarget)));
    assert!(matches!(AmxBatchSession::begin(&mut state, &config, false), Err(AmxSessionError::UnsupportedTarget)));
    assert!(!AmxSession::is_active(&state));
    assert_eq!(AmxSession::release(&mut state, false), TileCommand::Keep);
    assert_eq!(
        AmxSessionError::UnsupportedTarget.message(),
        "AMX tile instructions are not supported or enabled for this process"
    );
}

#[test]
fn rhs_panel_groups_depth_values_by_output_column() {
    let source: Vec<i8> = (0..8 * 24).map(|value| value as i8).collect();
    let mut destination = [0i8; 2 * 16 * 4];

    pack_rhs_panel::<_, 4>(&source, 24, 3, 0, 8, &mut destination);

    for group in 0..2 {
        for output_column in 0..16 {
            for lane in 0..4 {
                assert_eq!(
                    destination[group * 64 + output_column * 4 + lane],
                    source[(group * 4 + lane) * 24 + 3 + output_column]
                );
            }
        }
    }
}

#[test]
fn rhs_panel_supports_bf16_pair_groups() {
    let source: Vec<u16> = (0..7 * 12).collect();
    let mut destination = [0u16; 3 * 6 * 2];

    pack_rhs_panel::<_, 2>(&source, 12, 2, 1, 6, &mut destination);

    for group in 0..3 {
        for output_column in 0..6 {
            for lane in 0..2 {
                assert_eq!(
                    destination[group * 12 + output_column * 2 + lane],
                    source[(1 + group * 2 + lane) * 12 + 2 + output_column]
                );
            }
        }
    }
}

#[test]
fn kernel_capabilities_imply_tile_capability() {
    for protocol in [PermissionProtocol::LinuxArchPrctl, PermissionProtocol::WindowsOptionalXState, PermissionProtocol::Unknown] {
        for host in hosts() {
            let mut cache = ProbeCache::new();
            let bf16 = has_amx_bf16(&mut cache, || probe(protocol, host));
            let int8 = has_amx_int8(&mut cache, || probe(protocol, host));
            if bf16 || int8 {
                assert!(
                    has_amx_tile(&mut cache, || probe(protocol, host)),
                    "a tile GEMM kernel was reported usable without tile configuration"
                );
            }
        }
    }
}

#[test]
fn probe_is_stable_across_calls() {
    let mut cache = ProbeCache::new();
    let no_amx = Host { max_leaf: 1, ..AMX_HOST };
    let linux = PermissionProtocol::LinuxArchPrctl;
    // The second detector would answer differently: the cache must not ask it.
    assert_eq!(has_amx_tile(&mut cache, || probe(linux, AMX_HOST)), has_amx_tile(&mut cache, || probe(linux, no_amx)));
    assert_eq!(has_amx_bf16(&mut cache, || probe(linux, no_amx)), has_amx_bf16(&mut cache, || probe(linux, no_amx)));
    assert_eq!(has_amx_int8(&mut cache, || probe(linux, no_amx)), has_amx_int8(&mut cache, || probe(linux, no_amx)));
    assert!(has_amx_tile(&mut cache, || probe(linux, no_amx)));
    let reloaded = ProbeCache::from_bits(cache.bits());
    assert_eq!(reloaded.bits(), cache.bits());
}

#[test]
fn cache_bytes_no_cache_can_hold_read_as_empty() {
    // A kernel bit without the tile bit, an unknown bit, a kernel bit on an
    // unfilled byte: none of them is a recorded probe outcome.
    for bits in [0b0101u8, 0b1001, 0b1_0001, 0b0100, 0xFF] {
        assert_eq!(ProbeCache::from_bits(bits).bits(), 0);
    }
    for bits in [0u8, 0b0001, 0b0011, 0b0111, 0b1011, 0b1111] {
        assert_eq!(ProbeCache::from_bits(bits).bits(), bits);
    }
    let mut cache = ProbeCache::from_bits(0b1011);
    assert!(has_amx_int8(&mut cache, || AmxAvailability { tile: false, bf16: false, int8: false }));
    assert!(has_amx_tile(&mut cache, || AmxAvailability { tile: false, bf16: false, int8: false }));
    assert!(!has_amx_bf16(&mut cache, || AmxAvailability { tile: true, bf16: true, int8: true }));
}

#[test]
fn permission_answers() {
    assert!(linux_permission_granted(0, Some(1 << 18)));
    assert!(!linux_permission_granted(-22, Some(1 << 18)));
    assert!(!linux_permission_granted(0, Some(1 << 17)));
    assert!(!linux_permission_granted(0, None));
    assert!(windows_permission_granted(1, 0x0006_0000));
    assert!(!windows_permission_granted(0, 0x0006_0000));
    assert!(!windows_permission_granted(1, 0x0002_0000));
}

#[test]
fn unsupported_platforms_refuse() {
    let mut cache = ProbeCache::new();
    assert!(
        !has_amx_tile(&mut cache, || probe(PermissionProtocol::Unknown, AMX_HOST)),
        "AMX reported usable on a platform with no known permission protocol"
    );
}

#[test]
fn full_amx_host_is_usable_and_each_missing_condition_refuses() {
    let linux = PermissionProtocol::LinuxArchPrctl;
    let all = AmxAvailability { tile: true, bf16: true, int8: true };
    let none = AmxAvailability { tile: false, bf16: false, int8: false };
    let hosts = hosts();
    assert_eq!(probe(linux, hosts[0]), all);
    for host in &hosts[1..4] {
        assert_eq!(probe(linux, *host), none);
    }
    assert_eq!(probe(linux, hosts[4]), AmxAvailability { tile: true, bf16: false, int8: false });
    assert_eq!(probe(linux, hosts[5]), AmxAvailability { tile: true, bf16: false, int8: true });
    for host in &hosts[6..] {
        assert_eq!(probe(linux, *host), none);
    }
    assert_eq!(probe(PermissionProtocol::WindowsOptionalXState, AMX_HOST), all);
}

#[test]
fn permission_mask_checks() {
    assert!(xcomp_offers_tile_data(Some(1 << 18)));
    assert!(!xcomp_offers_tile_data(Some(1 << 17)));
    assert!(!xcomp_offers_tile_data(None));
    assert!(xstate_enables_amx(0x6_0000));
    assert!(!xstate_enables_amx(0x4_0000));
}

#[test]
fn config_constructors_fill_every_tile() {
    let uniform = AmxConfig::new_uniform(16, 64);
    assert_eq!(uniform.palette_id, 1);
    assert_eq!(uniform.start_row, 0);
    assert_eq!(uniform.rows, [16; 8]);
    assert_eq!(uniform.cols_b, [64; 8]);
    assert_eq!(uniform.reserved, [0; 14]);
    assert_eq!(uniform.reserved2, [0; 16]);
    assert_eq!(uniform.reserved3, [0; 8]);

    let custom = AmxConfig::new_custom([1, 2, 3, 4, 5, 6, 7, 8], [8, 16, 24, 32, 40, 48, 56, 64]);
    assert_eq!(custom.rows, [1, 2, 3, 4, 5, 6, 7, 8]);
    assert_eq!(custom.cols_b, [8, 16, 24, 32, 40, 48, 56, 64]);
    assert!(custom.same_as(&custom));
    assert!(!custom.same_as(&uniform));

    // Packed B: 100 bytes of depth per column make 25 four-byte rows,
    // clipped to 16; ten columns make 40 bytes per row.
    let int8 = AmxConfig::for_dimensions(20, 10, 100, 1);
    assert_eq!(int8.rows, [16, 16, 16, 16, 16, 16, 16, 16]);
    assert_eq!(int8.cols_b, [64, 40, 40, 40, 40, 40, 40, 40]);

    // The int8 GEMM shape of a 32 x 32 x 64 product: full 16 x 64-byte tiles.
    let gemm = AmxConfig::for_dimensions(32, 32, 64, 1);
    assert_eq!(gemm.rows, [16; 8]);
    assert_eq!(gemm.cols_b, [64; 8]);

    let bf16 = AmxConfig::for_dimensions(4, 32, 8, 2);
    assert_eq!(bf16.rows, [4, 4, 4, 4, 4, 4, 4, 4]);
    assert_eq!(bf16.cols_b, [16, 64, 64, 64, 64, 64, 64, 64]);
    let odd = AmxConfig::for_dimensions(3, 5, 7, 1);
    assert_eq!(odd.rows, [3, 2, 3, 3, 3, 3, 2, 2]);
    assert_eq!(odd.cols_b, [7, 20, 20, 20, 20, 20, 20, 20]);
    for cfg in [int8, gemm, bf16, odd, AmxConfig::for_dimensions(1000, 1000, 1000, 4)] {
        assert!(cfg.rows.iter().all(|&r| r <= 16));
        assert!(cfg.cols_b.iter().all(|&c| c <= 64));
    }
    assert!(bf16.same_as(&AmxConfig::for_dimensions(4, 32, 8, 2)));
}

fn gemm_reference(m: usize, n: usize, k: usize, a: &[i8], a_stride: usize, b: &[i8], b_stride: usize, c: &mut [i32], c_stride: usize) {
    for r in 0..m {
        for col in 0..n {
            let mut sum = 0i32;
            for d in 0..k {
                sum = sum.wrapping_add(i32::from(a[r * a_stride + d]) * i32::from(b[d * b_stride + col]));
            }
            c[r * c_stride + col] = c[r * c_stride + col].wrapping_add(sum);
        }
    }
}

fn check_gemm(m: usize, n: usize, k: usize, a_stride: usize, b_stride: usize, c_stride: usize) {
    let a: Vec<i8> = (0..m * a_stride + 3).map(|i| ((i * 37 + 11) % 256) as u8 as i8).collect();
    let b: Vec<i8> = (0..k * b_stride + 5).map(|i| ((i * 73 + 190) % 256) as u8 as i8).collect();
    let initial: Vec<i32> = (0..m * c_stride + 7).map(|i| (i as i32).wrapping_mul(7_919).wrapping_sub(40_000)).collect();
    let mut expected = initial.clone();
    gemm_reference(m, n, k, &a, a_stride, &b, b_stride, &mut expected, c_stride);
    let mut got = initial;
    <AmxInt8 as AmxGemm<i8, i8, i32>>::amx_gemm(m, n, k, &a, a_stride, &b, b_stride, &mut got, c_stride);
    assert_eq!(got, expected, "gemm {m}x{n}x{k}");
}

#[test]
fn int8_gemm_matches_reference_on_whole_tiles() {
    check_gemm(32, 32, 128, 128, 32, 32);
    check_gemm(16, 48, 64, 64, 48, 48);
}

#[test]
fn int8_gemm_matches_reference_with_tails() {
    check_gemm(37, 41, 150, 150, 41, 41);
    check_gemm(20, 16, 70, 80, 20, 24);
    check_gemm(5, 3, 9, 9, 3, 3);
    check_gemm(33, 17, 63, 63, 17, 17);
    check_gemm(0, 4, 4, 4, 4, 4);
}

#[test]
fn int8_gemm_wraps_like_the_tile_instructions() {
    let a = vec![-128i8; 16 * 64];
    let b = vec![-128i8; 64 * 16];
    let mut c = vec![i32::MAX - 7; 16 * 16];
    let mut expected = c.clone();
    gemm_reference(16, 16, 64, &a, 64, &b, 16, &mut expected, 16);
    <AmxInt8 as AmxGemm<i8, i8, i32>>::amx_gemm(16, 16, 64, &a, 64, &b, 16, &mut c, 16);
    assert_eq!(c, expected);
}
