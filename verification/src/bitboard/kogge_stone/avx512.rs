//! Flood fills up to eight directions in one 512-bit register: the lower four
//! 64-bit lanes shift toward higher squares, the upper four toward lower ones.
//!
//! Every lane is shifted both ways and the two shifts are joined. A lane that
//! does not shift one way is given the count 64 for it, which clears that
//! shift, so the join leaves each lane its own direction.

use vstd::prelude::*;
use crate::bits::{lemma_or_identity, lemma_or_assoc_comm, lemma_or_regroup4};
use crate::bitboard::geometry::{union_over, rook_attacks_spec, bishop_attacks_spec, queen_attacks_spec};
use crate::bitboard::kogge_stone::{
    east_mask, west_mask, east_mask_spec, west_mask_spec, fill_north, fill_south, fill_east, fill_west, fill_north_east,
    fill_north_west, fill_south_east, fill_south_west, lemma_fill_unmasked, lemma_rook_fills,
    lemma_bishop_fills, lemma_queen_fills,
};
use crate::bitboard::kogge_stone::lanes::{
    shl_imm, shl_var, shr_var, and_lanes, or_lanes, step_both_lanes, lemma_doubled_counts,
};

verus! {

/// Rook attacks of every slider in `slider`, merged: north and east fill in
/// lanes 0 and 1, south and west in lanes 4 and 5.
pub fn kogge_stone_rook_avx512(slider: u64, occupancy: u64) -> (r: u64)
    ensures
        r == union_over(slider, |sq: int| rook_attacks_spec(sq, occupancy), 64),
{
    let ps = !occupancy;
    let all: u64 = 0xFFFF_FFFF_FFFF_FFFF;

    let left_shifts: [u64; 8] = [8, 1, 64, 64, 64, 64, 64, 64];
    let right_shifts: [u64; 8] = [64, 64, 64, 64, 8, 1, 64, 64];

    let mut g: [u64; 8] = [slider, slider, slider, slider, slider, slider, slider, slider];
    let mut p: [u64; 8] = [ps, ps, 0, 0, ps, ps, 0, 0];

    let masks: [[u64; 8]; 3] = [
        [all, east_mask(1), 0, 0, all, west_mask(1), 0, 0],
        [all, east_mask(2), 0, 0, all, west_mask(2), 0, 0],
        [all, east_mask(4), 0, 0, all, west_mask(4), 0, 0],
    ];

    proof { lemma_doubled_counts(); }

    // Steps of one, two and four squares.
    let (g1, p1) = step_both_lanes(g, p, left_shifts, right_shifts, masks[0]);
    g = g1;
    p = p1;
    let (g1, p1) = step_both_lanes(g, p, shl_imm(left_shifts, 1), shl_imm(right_shifts, 1), masks[1]);
    g = g1;
    p = p1;
    let (g1, _) = step_both_lanes(g, p, shl_imm(left_shifts, 2), shl_imm(right_shifts, 2), masks[2]);
    g = g1;

    let final_l = and_lanes(shl_var(g, left_shifts), masks[0]);
    let final_r = and_lanes(shr_var(g, right_shifts), masks[0]);
    let final_res = or_lanes(final_l, final_r);

    let low: [u64; 4] = [final_res[0], final_res[1], final_res[2], final_res[3]];
    let high: [u64; 4] = [final_res[4], final_res[5], final_res[6], final_res[7]];
    let combined = or_lanes(low, high);
    let r = combined[0] | combined[1];
    proof {
        let n = fill_north(slider, occupancy);
        let s = fill_south(slider, occupancy);
        let e = fill_east(slider, occupancy);
        let w = fill_west(slider, occupancy);
        lemma_fill_unmasked(slider, occupancy);
        lemma_or_identity(all);
        lemma_or_identity(east_mask_spec(1));
        lemma_or_identity(west_mask_spec(1));
        assert(final_l[0] == n);
        assert(final_l[1] == e);
        assert(final_r[4] == s);
        assert(final_r[5] == w);
        lemma_or_identity(n);
        lemma_or_identity(e);
        lemma_or_identity(s);
        lemma_or_identity(w);
        assert(low[0] == n && low[1] == e && high[0] == s && high[1] == w);
        lemma_rook_fills(slider, occupancy);
        lemma_or_assoc_comm(n | s, e, w);
    }
    r
}

/// Bishop attacks of every slider in `slider`, merged: north-east and
/// north-west fill in lanes 0 and 1, south-east and south-west in lanes 4
/// and 5.
pub fn kogge_stone_bishop_avx512(slider: u64, occupancy: u64) -> (r: u64)
    ensures
        r == union_over(slider, |sq: int| bishop_attacks_spec(sq, occupancy), 64),
{
    let ps = !occupancy;

    let left_shifts: [u64; 8] = [9, 7, 64, 64, 64, 64, 64, 64];
    let right_shifts: [u64; 8] = [64, 64, 64, 64, 7, 9, 64, 64];

    let mut g: [u64; 8] = [slider, slider, slider, slider, slider, slider, slider, slider];
    let mut p: [u64; 8] = [ps, ps, 0, 0, ps, ps, 0, 0];

    let masks: [[u64; 8]; 3] = [
        [east_mask(1), west_mask(1), 0, 0, east_mask(1), west_mask(1), 0, 0],
        [east_mask(2), west_mask(2), 0, 0, east_mask(2), west_mask(2), 0, 0],
        [east_mask(4), west_mask(4), 0, 0, east_mask(4), west_mask(4), 0, 0],
    ];

    proof { lemma_doubled_counts(); }

    let (g1, p1) = step_both_lanes(g, p, left_shifts, right_shifts, masks[0]);
    g = g1;
    p = p1;
    let (g1, p1) = step_both_lanes(g, p, shl_imm(left_shifts, 1), shl_imm(right_shifts, 1), masks[1]);
    g = g1;
    p = p1;
    let (g1, _) = step_both_lanes(g, p, shl_imm(left_shifts, 2), shl_imm(right_shifts, 2), masks[2]);
    g = g1;

    let final_l = and_lanes(shl_var(g, left_shifts), masks[0]);
    let final_r = and_lanes(shr_var(g, right_shifts), masks[0]);
    let final_res = or_lanes(final_l, final_r);

    let low: [u64; 4] = [final_res[0], final_res[1], final_res[2], final_res[3]];
    let high: [u64; 4] = [final_res[4], final_res[5], final_res[6], final_res[7]];
    let combined = or_lanes(low, high);
    let r = combined[0] | combined[1];
    proof {
        let ne = fill_north_east(slider, occupancy);
        let nw = fill_north_west(slider, occupancy);
        let se = fill_south_east(slider, occupancy);
        let sw = fill_south_west(slider, occupancy);
        lemma_or_identity(east_mask_spec(1));
        lemma_or_identity(west_mask_spec(1));
        assert(final_l[0] == ne);
        assert(final_l[1] == nw);
        assert(final_r[4] == se);
        assert(final_r[5] == sw);
        lemma_or_identity(ne);
        lemma_or_identity(nw);
        lemma_or_identity(se);
        lemma_or_identity(sw);
        assert(low[0] == ne && low[1] == nw && high[0] == se && high[1] == sw);
        lemma_bishop_fills(slider, occupancy);
        lemma_or_regroup4(ne, se, 0, 0, nw, sw, 0, 0);
        lemma_or_assoc_comm(ne | nw, se, sw);
    }
    r
}

/// Queen attacks of every slider in `slider`, merged: all eight directions
/// fill in one register, the four that shift up in lanes 0 to 3 and the four
/// that shift down in lanes 4 to 7.
pub fn kogge_stone_queen_avx512(slider: u64, occupancy: u64) -> (r: u64)
    ensures
        r == union_over(slider, |sq: int| queen_attacks_spec(sq, occupancy), 64),
{
    let ps = !occupancy;
    let all: u64 = 0xFFFF_FFFF_FFFF_FFFF;

    // Up: north, east, north-east, north-west. Down: south, west, south-east,
    // south-west.
    let left_shifts: [u64; 8] = [8, 1, 9, 7, 64, 64, 64, 64];
    let right_shifts: [u64; 8] = [64, 64, 64, 64, 8, 1, 7, 9];

    let mut g: [u64; 8] = [slider, slider, slider, slider, slider, slider, slider, slider];
    let mut p: [u64; 8] = [ps, ps, ps, ps, ps, ps, ps, ps];

    let masks: [[u64; 8]; 3] = [
        [all, east_mask(1), east_mask(1), west_mask(1), all, west_mask(1), east_mask(1), west_mask(1)],
        [all, east_mask(2), east_mask(2), west_mask(2), all, west_mask(2), east_mask(2), west_mask(2)],
        [all, east_mask(4), east_mask(4), west_mask(4), all, west_mask(4), east_mask(4), west_mask(4)],
    ];

    proof { lemma_doubled_counts(); }

    let (g1, p1) = step_both_lanes(g, p, left_shifts, right_shifts, masks[0]);
    g = g1;
    p = p1;
    let (g1, p1) = step_both_lanes(g, p, shl_imm(left_shifts, 1), shl_imm(right_shifts, 1), masks[1]);
    g = g1;
    p = p1;
    let (g1, _) = step_both_lanes(g, p, shl_imm(left_shifts, 2), shl_imm(right_shifts, 2), masks[2]);
    g = g1;

    let final_l = and_lanes(shl_var(g, left_shifts), masks[0]);
    let final_r = and_lanes(shr_var(g, right_shifts), masks[0]);
    let final_res = or_lanes(final_l, final_r);

    let low: [u64; 4] = [final_res[0], final_res[1], final_res[2], final_res[3]];
    let high: [u64; 4] = [final_res[4], final_res[5], final_res[6], final_res[7]];
    let combined_256 = or_lanes(low, high);

    let low_128: [u64; 2] = [combined_256[0], combined_256[1]];
    let high_128: [u64; 2] = [combined_256[2], combined_256[3]];
    let combined_128 = or_lanes(low_128, high_128);
    let r = combined_128[0] | combined_128[1];
    proof {
        let n = fill_north(slider, occupancy);
        let s = fill_south(slider, occupancy);
        let e = fill_east(slider, occupancy);
        let w = fill_west(slider, occupancy);
        let ne = fill_north_east(slider, occupancy);
        let nw = fill_north_west(slider, occupancy);
        let se = fill_south_east(slider, occupancy);
        let sw = fill_south_west(slider, occupancy);
        lemma_fill_unmasked(slider, occupancy);
        lemma_or_identity(all);
        lemma_or_identity(east_mask_spec(1));
        lemma_or_identity(west_mask_spec(1));
        assert(final_l[0] == n);
        assert(final_l[1] == e);
        assert(final_l[2] == ne);
        assert(final_l[3] == nw);
        assert(final_r[4] == s);
        assert(final_r[5] == w);
        assert(final_r[6] == se);
        assert(final_r[7] == sw);
        lemma_or_identity(n);
        lemma_or_identity(e);
        lemma_or_identity(ne);
        lemma_or_identity(nw);
        lemma_or_identity(s);
        lemma_or_identity(w);
        lemma_or_identity(se);
        lemma_or_identity(sw);
        assert(combined_128[0] == (n | s) | (ne | se));
        assert(combined_128[1] == (e | w) | (nw | sw));
        lemma_rook_fills(slider, occupancy);
        lemma_bishop_fills(slider, occupancy);
        lemma_queen_fills(slider, occupancy);
        lemma_or_regroup4(n, s, e, w, ne, se, nw, sw);
    }
    r
}

} // verus!
