//! Flood fills four directions per 256-bit register: one direction in each
//! of its first two 64-bit lanes, one register shifting toward higher squares
//! and one toward lower squares.

use vstd::prelude::*;
use crate::bits::{lemma_or_assoc_comm, lemma_or_regroup4};
use crate::bitboard::geometry::{union_over, rook_attacks_spec, bishop_attacks_spec, queen_attacks_spec};
use crate::bitboard::kogge_stone::{
    east_mask, west_mask, fill_north, fill_south, fill_east, fill_west, fill_north_east,
    fill_north_west, fill_south_east, fill_south_west, lemma_fill_unmasked, lemma_rook_fills,
    lemma_bishop_fills, lemma_queen_fills,
};
use crate::bitboard::kogge_stone::lanes::{
    shl_imm, shl_var, shr_var, and_lanes, or_lanes, step_left_lanes, step_right_lanes,
    lemma_doubled_counts,
};

verus! {

/// Rook attacks of every slider in `slider`, merged: north (+8) and east (+1)
/// fill in the lanes of the register that shifts up, south and west in the
/// one that shifts down.
pub fn kogge_stone_rook_avx2(slider: u64, occupancy: u64) -> (r: u64)
    ensures
        r == union_over(slider, |sq: int| rook_attacks_spec(sq, occupancy), 64),
{
    let p_scalar = !occupancy;
    let all: u64 = 0xFFFF_FFFF_FFFF_FFFF;

    let left_shifts: [u64; 4] = [8, 1, 0, 0];
    let mut g_left: [u64; 4] = [slider, slider, slider, slider];
    let mut p_left: [u64; 4] = [p_scalar, p_scalar, 0, 0];

    let right_shifts: [u64; 4] = [8, 1, 0, 0];
    let mut g_right: [u64; 4] = [slider, slider, slider, slider];
    let mut p_right: [u64; 4] = [p_scalar, p_scalar, 0, 0];

    proof { lemma_doubled_counts(); }

    // Step 0: one square.
    let (g, p) = step_left_lanes(g_left, p_left, left_shifts, [all, east_mask(1), 0, 0]);
    g_left = g;
    p_left = p;
    let (g, p) = step_right_lanes(g_right, p_right, right_shifts, [all, west_mask(1), 0, 0]);
    g_right = g;
    p_right = p;

    // Step 1: two squares.
    let (g, p) = step_left_lanes(g_left, p_left, shl_imm(left_shifts, 1), [all, east_mask(2), 0, 0]);
    g_left = g;
    p_left = p;
    let (g, p) = step_right_lanes(g_right, p_right, shl_imm(right_shifts, 1), [all, west_mask(2), 0, 0]);
    g_right = g;
    p_right = p;

    // Step 2: four squares.
    let (g, p) = step_left_lanes(g_left, p_left, shl_imm(left_shifts, 2), [all, east_mask(4), 0, 0]);
    g_left = g;
    p_left = p;
    let (g, p) = step_right_lanes(g_right, p_right, shl_imm(right_shifts, 2), [all, west_mask(4), 0, 0]);
    g_right = g;
    p_right = p;

    // One more square on: the attacks, blockers included, the slider not.
    let left_shifted = and_lanes(shl_var(g_left, left_shifts), [all, east_mask(1), 0, 0]);
    let right_shifted = and_lanes(shr_var(g_right, right_shifts), [all, west_mask(1), 0, 0]);

    let combined = or_lanes(left_shifted, right_shifted);
    let r = combined[0] | combined[1];
    proof {
        lemma_fill_unmasked(slider, occupancy);
        assert(left_shifted[0] == fill_north(slider, occupancy));
        assert(left_shifted[1] == fill_east(slider, occupancy));
        assert(right_shifted[0] == fill_south(slider, occupancy));
        assert(right_shifted[1] == fill_west(slider, occupancy));
        lemma_rook_fills(slider, occupancy);
        lemma_or_assoc_comm(fill_north(slider, occupancy) | fill_south(slider, occupancy),
            fill_east(slider, occupancy), fill_west(slider, occupancy));
    }
    r
}

/// Bishop attacks of every slider in `slider`, merged: north-east (+9) and
/// north-west (+7) fill in the lanes that shift up, south-east and south-west
/// in the lanes that shift down.
pub fn kogge_stone_bishop_avx2(slider: u64, occupancy: u64) -> (r: u64)
    ensures
        r == union_over(slider, |sq: int| bishop_attacks_spec(sq, occupancy), 64),
{
    let p_scalar = !occupancy;

    let left_shifts: [u64; 4] = [9, 7, 0, 0];
    let mut g_left: [u64; 4] = [slider, slider, slider, slider];
    let mut p_left: [u64; 4] = [p_scalar, p_scalar, 0, 0];

    let right_shifts: [u64; 4] = [7, 9, 0, 0];
    let mut g_right: [u64; 4] = [slider, slider, slider, slider];
    let mut p_right: [u64; 4] = [p_scalar, p_scalar, 0, 0];

    proof { lemma_doubled_counts(); }

    // Step 0: one square.
    let (g, p) = step_left_lanes(g_left, p_left, left_shifts, [east_mask(1), west_mask(1), 0, 0]);
    g_left = g;
    p_left = p;
    let (g, p) = step_right_lanes(g_right, p_right, right_shifts, [east_mask(1), west_mask(1), 0, 0]);
    g_right = g;
    p_right = p;

    // Step 1: two squares.
    let (g, p) = step_left_lanes(g_left, p_left, shl_imm(left_shifts, 1), [east_mask(2), west_mask(2), 0, 0]);
    g_left = g;
    p_left = p;
    let (g, p) = step_right_lanes(g_right, p_right, shl_imm(right_shifts, 1), [east_mask(2), west_mask(2), 0, 0]);
    g_right = g;
    p_right = p;

    // Step 2: four squares.
    let (g, p) = step_left_lanes(g_left, p_left, shl_imm(left_shifts, 2), [east_mask(4), west_mask(4), 0, 0]);
    g_left = g;
    p_left = p;
    let (g, p) = step_right_lanes(g_right, p_right, shl_imm(right_shifts, 2), [east_mask(4), west_mask(4), 0, 0]);
    g_right = g;
    p_right = p;

    let left_shifted = and_lanes(shl_var(g_left, left_shifts), [east_mask(1), west_mask(1), 0, 0]);
    let right_shifted = and_lanes(shr_var(g_right, right_shifts), [east_mask(1), west_mask(1), 0, 0]);

    let combined = or_lanes(left_shifted, right_shifted);
    let r = combined[0] | combined[1];
    proof {
        let ne = fill_north_east(slider, occupancy);
        let nw = fill_north_west(slider, occupancy);
        let se = fill_south_east(slider, occupancy);
        let sw = fill_south_west(slider, occupancy);
        assert(left_shifted[0] == ne);
        assert(left_shifted[1] == nw);
        assert(right_shifted[0] == se);
        assert(right_shifted[1] == sw);
        lemma_bishop_fills(slider, occupancy);
        lemma_or_regroup4(ne, se, 0, 0, nw, sw, 0, 0);
        lemma_or_assoc_comm(ne | nw, se, sw);
    }
    r
}

/// Queen attacks of every slider in `slider`, merged: the rook and bishop
/// fills run side by side, four registers at a time.
pub fn kogge_stone_queen_avx2(slider: u64, occupancy: u64) -> (r: u64)
    ensures
        r == union_over(slider, |sq: int| queen_attacks_spec(sq, occupancy), 64),
{
    let p_scalar = !occupancy;
    let all: u64 = 0xFFFF_FFFF_FFFF_FFFF;

    // Rook registers.
    let left_shifts_r: [u64; 4] = [8, 1, 0, 0];
    let mut g_left_r: [u64; 4] = [slider, slider, slider, slider];
    let mut p_left_r: [u64; 4] = [p_scalar, p_scalar, 0, 0];
    let right_shifts_r: [u64; 4] = [8, 1, 0, 0];
    let mut g_right_r: [u64; 4] = [slider, slider, slider, slider];
    let mut p_right_r: [u64; 4] = [p_scalar, p_scalar, 0, 0];

    // Bishop registers.
    let left_shifts_b: [u64; 4] = [9, 7, 0, 0];
    let mut g_left_b: [u64; 4] = [slider, slider, slider, slider];
    let mut p_left_b: [u64; 4] = [p_scalar, p_scalar, 0, 0];
    let right_shifts_b: [u64; 4] = [7, 9, 0, 0];
    let mut g_right_b: [u64; 4] = [slider, slider, slider, slider];
    let mut p_right_b: [u64; 4] = [p_scalar, p_scalar, 0, 0];

    proof { lemma_doubled_counts(); }

    // Step 0: one square.
    {
        let left_mask_r: [u64; 4] = [all, east_mask(1), 0, 0];
        let right_mask_r: [u64; 4] = [all, west_mask(1), 0, 0];
        let left_mask_b: [u64; 4] = [east_mask(1), west_mask(1), 0, 0];
        let right_mask_b: [u64; 4] = [east_mask(1), west_mask(1), 0, 0];

        let (g, p) = step_left_lanes(g_left_r, p_left_r, left_shifts_r, left_mask_r);
        g_left_r = g;
        p_left_r = p;
        let (g, p) = step_left_lanes(g_left_b, p_left_b, left_shifts_b, left_mask_b);
        g_left_b = g;
        p_left_b = p;
        let (g, p) = step_right_lanes(g_right_r, p_right_r, right_shifts_r, right_mask_r);
        g_right_r = g;
        p_right_r = p;
        let (g, p) = step_right_lanes(g_right_b, p_right_b, right_shifts_b, right_mask_b);
        g_right_b = g;
        p_right_b = p;
    }

    // Step 1: two squares.
    {
        let left_mask_r: [u64; 4] = [all, east_mask(2), 0, 0];
        let right_mask_r: [u64; 4] = [all, west_mask(2), 0, 0];
        let left_mask_b: [u64; 4] = [east_mask(2), west_mask(2), 0, 0];
        let right_mask_b: [u64; 4] = [east_mask(2), west_mask(2), 0, 0];

        let (g, p) = step_left_lanes(g_left_r, p_left_r, shl_imm(left_shifts_r, 1), left_mask_r);
        g_left_r = g;
        p_left_r = p;
        let (g, p) = step_left_lanes(g_left_b, p_left_b, shl_imm(left_shifts_b, 1), left_mask_b);
        g_left_b = g;
        p_left_b = p;
        let (g, p) = step_right_lanes(g_right_r, p_right_r, shl_imm(right_shifts_r, 1), right_mask_r);
        g_right_r = g;
        p_right_r = p;
        let (g, p) = step_right_lanes(g_right_b, p_right_b, shl_imm(right_shifts_b, 1), right_mask_b);
        g_right_b = g;
        p_right_b = p;
    }

    // Step 2: four squares; the propagators are not needed after it.
    {
        let left_mask_r: [u64; 4] = [all, east_mask(4), 0, 0];
        let right_mask_r: [u64; 4] = [all, west_mask(4), 0, 0];
        let left_mask_b: [u64; 4] = [east_mask(4), west_mask(4), 0, 0];
        let right_mask_b: [u64; 4] = [east_mask(4), west_mask(4), 0, 0];

        let (g, _) = step_left_lanes(g_left_r, p_left_r, shl_imm(left_shifts_r, 2), left_mask_r);
        g_left_r = g;
        let (g, _) = step_left_lanes(g_left_b, p_left_b, shl_imm(left_shifts_b, 2), left_mask_b);
        g_left_b = g;
        let (g, _) = step_right_lanes(g_right_r, p_right_r, shl_imm(right_shifts_r, 2), right_mask_r);
        g_right_r = g;
        let (g, _) = step_right_lanes(g_right_b, p_right_b, shl_imm(right_shifts_b, 2), right_mask_b);
        g_right_b = g;
    }

    let left_shifted_r = and_lanes(shl_var(g_left_r, left_shifts_r), [all, east_mask(1), 0, 0]);
    let right_shifted_r = and_lanes(shr_var(g_right_r, right_shifts_r), [all, west_mask(1), 0, 0]);
    let left_shifted_b = and_lanes(shl_var(g_left_b, left_shifts_b), [east_mask(1), west_mask(1), 0, 0]);
    let right_shifted_b = and_lanes(shr_var(g_right_b, right_shifts_b), [east_mask(1), west_mask(1), 0, 0]);

    let comb_r = or_lanes(left_shifted_r, right_shifted_r);
    let comb_b = or_lanes(left_shifted_b, right_shifted_b);
    let combined_all = or_lanes(comb_r, comb_b);
    let r = combined_all[0] | combined_all[1];
    proof {
        let n = fill_north(slider, occupancy);
        let s = fill_south(slider, occupancy);
        let e = fill_east(slider, occupancy);
        let w = fill_west(slider, occupancy);
        let ne = fill_north_east(slider, occupancy);
        let nw = fill_north_west(slider, occupancy);
        let se = fill_south_east(slider, occupancy);
        let sw = fill_south_west(slider, occupancy);
        lemma_fill_unmasked(slider, occupancy);
        assert(left_shifted_r[0] == n);
        assert(left_shifted_r[1] == e);
        assert(right_shifted_r[0] == s);
        assert(right_shifted_r[1] == w);
        assert(left_shifted_b[0] == ne);
        assert(left_shifted_b[1] == nw);
        assert(right_shifted_b[0] == se);
        assert(right_shifted_b[1] == sw);
        lemma_rook_fills(slider, occupancy);
        lemma_bishop_fills(slider, occupancy);
        lemma_queen_fills(slider, occupancy);
        lemma_or_regroup4(n, s, e, w, ne, se, nw, sw);
    }
    r
}

} // verus!
