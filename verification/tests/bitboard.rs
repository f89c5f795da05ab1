use hermes_simd::bitboard::hybrid::HybridSwarMagic;
use hermes_simd::bitboard::hyperbola::{hyperbola_quintessence, Hyperbola};
use hermes_simd::bitboard::kernel::BitBoardKernel;
use hermes_simd::bitboard::kogge_stone::avx2::{kogge_stone_bishop_avx2, kogge_stone_queen_avx2, kogge_stone_rook_avx2};
use hermes_simd::bitboard::kogge_stone::avx512::{
    kogge_stone_bishop_avx512, kogge_stone_queen_avx512, kogge_stone_rook_avx512,
};
use hermes_simd::bitboard::kogge_stone::lanes::{shl_signed, shl_var, shr_var};
use hermes_simd::bitboard::kogge_stone::neon::{kogge_stone_bishop_neon, kogge_stone_queen_neon, kogge_stone_rook_neon};
use hermes_simd::bitboard::kogge_stone::{
    kogge_stone_bishop, kogge_stone_queen, kogge_stone_rook, select_fill, FillBackend, HostSimd, KoggeStone,
};
use hermes_simd::bitboard::magic::{bishop_mask, rook_mask, Magic, MagicTable};
use hermes_simd::bitboard::swar::{attack_ray, Swar, SwarUtils};

/// Attacks found by walking each ray square by square.
fn walk(square: u8, occupancy: u64, directions: &[(i32, i32)]) -> u64 {
    let rank = (square / 8) as i32;
    let file = (square % 8) as i32;
    let mut attacks = 0u64;
    for &(dr, df) in directions {
        let (mut r, mut f) = (rank + dr, file + df);
        while (0..8).contains(&r) && (0..8).contains(&f) {
            let bit = 1u64 << (r * 8 + f);
            attacks |= bit;
            if occupancy & bit != 0 {
                break;
            }
            r += dr;
            f += df;
        }
    }
    attacks
}

fn rook_reference(square: u8, occupancy: u64) -> u64 {
    walk(square, occupancy, &[(1, 0), (-1, 0), (0, 1), (0, -1)])
}

fn bishop_reference(square: u8, occupancy: u64) -> u64 {
    walk(square, occupancy, &[(1, 1), (1, -1), (-1, 1), (-1, -1)])
}

/// A spread of occupancies: empty, full, and pseudo-random boards.
fn boards() -> Vec<u64> {
    let mut boards = vec![0u64, u64::MAX, 0x0000_0010_0800_0000, 0xFF00_0000_0000_00FF, 0x8142_2418_1824_4281];
    let mut x = 0x9E37_79B9_7F4A_7C15u64;
    for _ in 0..40 {
        x ^= x << 13;
        x ^= x >> 7;
        x ^= x << 17;
        boards.push(x & (x >> 3));
        boards.push(x);
    }
    boards
}

#[test]
fn every_backend_matches_the_ray_walk() {
    let table = MagicTable::new();
    for occupancy in boards() {
        for square in 0..64u8 {
            let rook = rook_reference(square, occupancy);
            let bishop = bishop_reference(square, occupancy);
            assert_eq!(<Swar as BitBoardKernel>::rook_attacks(square, occupancy), rook);
            assert_eq!(<Swar as BitBoardKernel>::bishop_attacks(square, occupancy), bishop);
            assert_eq!(<KoggeStone as BitBoardKernel>::rook_attacks(square, occupancy), rook);
            assert_eq!(<KoggeStone as BitBoardKernel>::bishop_attacks(square, occupancy), bishop);
            assert_eq!(<Hyperbola as BitBoardKernel>::rook_attacks(square, occupancy), rook);
            assert_eq!(<Hyperbola as BitBoardKernel>::bishop_attacks(square, occupancy), bishop);
            assert_eq!(Magic::rook_attacks(&table, square, occupancy), rook);
            assert_eq!(Magic::bishop_attacks(&table, square, occupancy), bishop);
            assert_eq!(Magic::queen_attacks(&table, square, occupancy), rook | bishop);
            assert_eq!(HybridSwarMagic::rook_attacks(&table, square, occupancy), rook);
            assert_eq!(HybridSwarMagic::bishop_attacks(&table, square, occupancy), bishop);
            assert_eq!(<Swar as BitBoardKernel>::queen_attacks(square, occupancy), rook | bishop);
            assert_eq!(<Hyperbola as BitBoardKernel>::queen_attacks(square, occupancy), rook | bishop);
            assert_eq!(<KoggeStone as BitBoardKernel>::queen_attacks(square, occupancy), rook | bishop);
        }
    }
}

#[test]
fn rook_in_corner_on_empty_board_sees_rank_and_file() {
    assert_eq!(<Swar as BitBoardKernel>::rook_attacks(0, 0), 0x0101_0101_0101_01FE);
    assert_eq!(<KoggeStone as BitBoardKernel>::rook_attacks(63, 0), 0x7F80_8080_8080_8080);
}

#[test]
fn blockers_stop_rays_and_are_included() {
    // Rook on d4 (27) with blockers on d6 (43) and b4 (25).
    let occupancy = (1u64 << 43) | (1u64 << 25);
    let expected = (1u64 << 35) | (1u64 << 43) | (1u64 << 19) | (1u64 << 11) | (1u64 << 3)
        | (1u64 << 26) | (1u64 << 25) | (1u64 << 28) | (1u64 << 29) | (1u64 << 30) | (1u64 << 31);
    assert_eq!(<Hyperbola as BitBoardKernel>::rook_attacks(27, occupancy), expected);
}

#[test]
fn kogge_stone_merges_several_sliders() {
    let sliders = (1u64 << 0) | (1u64 << 63);
    let occupancy = 0x0000_0000_0010_0000u64;
    let mut rook = 0u64;
    let mut bishop = 0u64;
    for square in [0u8, 63u8] {
        rook |= rook_reference(square, occupancy);
        bishop |= bishop_reference(square, occupancy);
    }
    assert_eq!(kogge_stone_rook(sliders, occupancy), rook);
    assert_eq!(kogge_stone_bishop(sliders, occupancy), bishop);
    assert_eq!(kogge_stone_queen(sliders, occupancy), rook | bishop);
    assert_eq!(kogge_stone_rook(0, occupancy), 0);
}

#[test]
fn vector_fills_match_the_ray_walk() {
    for occupancy in boards() {
        for square in 0..64u8 {
            let slider = 1u64 << square;
            let rook = rook_reference(square, occupancy);
            let bishop = bishop_reference(square, occupancy);
            assert_eq!(kogge_stone_rook_avx2(slider, occupancy), rook);
            assert_eq!(kogge_stone_bishop_avx2(slider, occupancy), bishop);
            assert_eq!(kogge_stone_queen_avx2(slider, occupancy), rook | bishop);
            assert_eq!(kogge_stone_rook_avx512(slider, occupancy), rook);
            assert_eq!(kogge_stone_bishop_avx512(slider, occupancy), bishop);
            assert_eq!(kogge_stone_queen_avx512(slider, occupancy), rook | bishop);
            assert_eq!(kogge_stone_rook_neon(slider, occupancy), rook);
            assert_eq!(kogge_stone_bishop_neon(slider, occupancy), bishop);
            assert_eq!(kogge_stone_queen_neon(slider, occupancy), rook | bishop);
        }
    }
}

#[test]
fn vector_fills_exclude_the_slider_and_squares_behind_blockers() {
    // Rook on a1 on an empty board: the first rank and file, not a1 itself.
    assert_eq!(kogge_stone_rook_avx512(1, 0), 0x0101_0101_0101_01FE);
    // A blocker on a2 ends the file there.
    assert_eq!(kogge_stone_rook_avx512(1, 1 << 8), 0x0000_0000_0000_01FE);
    assert_eq!(kogge_stone_bishop_avx512(1, 0), 0x8040_2010_0804_0200);
    assert_eq!(kogge_stone_queen_avx512(1, 1 << 9), 0x0101_0101_0101_03FE);
    assert_eq!(kogge_stone_rook_neon(1u64 << 63, 0), 0x7F80_8080_8080_8080);
    assert_eq!(kogge_stone_bishop_avx2(1u64 << 27, 0), bishop_reference(27, 0));
}

#[test]
fn vector_fills_merge_several_sliders() {
    let sliders = (1u64 << 9) | (1u64 << 54);
    let occupancy = 0x0000_1000_0040_0000u64;
    let rook = rook_reference(9, occupancy) | rook_reference(54, occupancy);
    let bishop = bishop_reference(9, occupancy) | bishop_reference(54, occupancy);
    assert_eq!(kogge_stone_rook_avx2(sliders, occupancy), rook);
    assert_eq!(kogge_stone_bishop_avx512(sliders, occupancy), bishop);
    assert_eq!(kogge_stone_queen_neon(sliders, occupancy), rook | bishop);
    assert_eq!(kogge_stone_queen_avx2(0, occupancy), 0);
}

#[test]
fn lane_shifts_clear_on_large_counts() {
    assert_eq!(shl_var([1u64, 1, 3, 5], [0, 63, 64, 2]), [1, 1u64 << 63, 0, 20]);
    assert_eq!(shr_var([u64::MAX, 8], [60, 200]), [15, 0]);
    assert_eq!(shl_signed([0x100u64, 0x100, 0x100, 1], [4, -4, -64, 64]), [0x1000, 0x10, 0, 0]);
}

#[test]
fn hyperbola_along_a_file() {
    // File a, slider on a1, blocker on a4.
    let file_a = 0x0101_0101_0101_0101u64;
    let attacks = hyperbola_quintessence(0, 1u64 << 24, file_a);
    assert_eq!(attacks, (1u64 << 8) | (1u64 << 16) | (1u64 << 24));
}

#[test]
fn attack_ray_stops_at_first_blocker() {
    let north = |v: u64| v << 8;
    assert_eq!(attack_ray(1u64 << 3, 1u64 << 27, north), (1u64 << 11) | (1u64 << 19) | (1u64 << 27));
    assert_eq!(attack_ray(1u64 << 56, 0, north), 0);
}

#[test]
fn relevant_masks_leave_out_edges_and_the_square() {
    assert_eq!(rook_mask(0), 0x0001_0101_0101_017E);
    assert_eq!(bishop_mask(0), 0x0040_2010_0804_0200);
    assert_eq!(rook_mask(27).count_ones(), 10);
    assert_eq!(bishop_mask(27).count_ones(), 9);
    for square in 0..64u8 {
        assert_eq!(rook_mask(square) & (1u64 << square), 0);
        assert_eq!(bishop_mask(square) & 0xFF81_8181_8181_81FF, 0);
    }
}

#[test]
fn magic_numbers_are_sound_for_every_square() {
    assert!(MagicTable::new().uses_slots());
}

#[test]
fn swar_utils_exact_values() {
    assert_eq!(SwarUtils::popcount(0), 0);
    assert_eq!(SwarUtils::popcount(u64::MAX), 64);
    assert_eq!(SwarUtils::popcount(0xF0F0), 8);
    assert_eq!(SwarUtils::bit_scan_forward(0), 64);
    assert_eq!(SwarUtils::bit_scan_forward(0x50), 4);
    assert_eq!(SwarUtils::bit_scan_reverse(0x50), 6);
    assert_eq!(SwarUtils::bit_scan_reverse(1u64 << 63), 63);
    assert_eq!(SwarUtils::isolate_lsb(0b1011_0100), 0b100);
    assert_eq!(SwarUtils::clear_lsb(0b1011_0100), 0b1011_0000);
    assert_eq!(SwarUtils::isolate_msb(0b1011_0100), 0b1000_0000);
    assert_eq!(SwarUtils::isolate_msb(0), 0);
    assert_eq!(SwarUtils::blsmsk(0b1011_0100), 0b111);
    assert_eq!(SwarUtils::popcount_8(0x0103_0F00_FF00_0107), 0x0102_0400_0800_0103);
    assert_eq!(SwarUtils::popcount_16(0x0001_00FF_FFFF_0300), 0x0001_0008_0010_0002);
    assert_eq!(SwarUtils::popcount_32(0x8000_0001_FFFF_FFFF), 0x0000_0002_0000_0020);
    let shift = |v: u64, s: usize| v << s;
    assert_eq!(SwarUtils::parallel_prefix_shift(1, shift), 0xFF);
}

#[test]
fn pext_and_pdep_examples() {
    assert_eq!(SwarUtils::pext(0b1011_0110, 0b1111_0000), 0b1011);
    assert_eq!(SwarUtils::pext(0xFF, 0), 0);
    assert_eq!(SwarUtils::pdep(0b1011, 0b1111_0000), 0b1011_0000);
    assert_eq!(SwarUtils::pdep(0b101, 0b1_0001_0001), 0b1_0000_0001);
}

#[test]
fn pdep_of_pext_keeps_the_masked_bits() {
    let mut x = 0x2545_F491_4F6C_DD1Du64;
    for _ in 0..200 {
        x ^= x << 13;
        x ^= x >> 7;
        x ^= x << 17;
        let mask = x.rotate_left(17) & x.rotate_right(5);
        assert_eq!(SwarUtils::pdep(SwarUtils::pext(x, mask), mask), x & mask);
        assert_eq!(SwarUtils::pdep(x, mask) & !mask, 0);
    }
}

#[test]
fn pext_of_pdep_keeps_the_low_bits() {
    let mut x = 0x1234_5678_9ABC_DEF1u64;
    for _ in 0..200 {
        x ^= x << 13;
        x ^= x >> 7;
        x ^= x << 17;
        let mask = x.rotate_left(29) ^ x.rotate_right(3);
        let bits = mask.count_ones();
        let low = if bits == 64 { u64::MAX } else { (1u64 << bits) - 1 };
        assert_eq!(SwarUtils::pext(SwarUtils::pdep(x, mask), mask), x & low);
    }
    assert_eq!(SwarUtils::pext(SwarUtils::pdep(0b1111, 0b101), 0b101), 0b11);
}

#[test]
fn the_widest_fill_the_host_runs_is_chosen() {
    let host = |avx512f, avx2, neon| HostSimd { avx512f, avx2, neon };
    assert_eq!(select_fill(host(true, true, false)), FillBackend::Avx512);
    assert_eq!(select_fill(host(false, true, false)), FillBackend::Avx2);
    assert_eq!(select_fill(host(false, false, true)), FillBackend::Neon);
    assert_eq!(select_fill(host(false, false, false)), FillBackend::Scalar);
    for h in [host(true, true, false), host(false, true, false), host(false, false, true), host(false, false, false)] {
        for occupancy in boards().into_iter().take(12) {
            for square in 0..64u8 {
                let rook = rook_reference(square, occupancy);
                let bishop = bishop_reference(square, occupancy);
                assert_eq!(KoggeStone::rook_attacks_on(h, square, occupancy), rook);
                assert_eq!(KoggeStone::bishop_attacks_on(h, square, occupancy), bishop);
                assert_eq!(KoggeStone::queen_attacks_on(h, square, occupancy), rook | bishop);
            }
        }
    }
}
