//! Flood fills two directions per 128-bit register, one in each 64-bit lane.
//! The register has one shift instruction for both ways: a positive count
//! shifts toward higher squares and a negated count toward lower ones.

use vstd::prelude::*;
use crate::bits::lemma_or_assoc_comm;
use crate::bitboard::geometry::{union_over, rook_attacks_spec, bishop_attacks_spec, queen_attacks_spec};
use crate::bitboard::kogge_stone::{
    east_mask, west_mask, fill_north, fill_south, fill_east, fill_west, fill_north_east,
    fill_north_west, fill_south_east, fill_south_west, lemma_fill_unmasked, lemma_rook_fills,
    lemma_bishop_fills, lemma_queen_fills,
};
use crate::bitboard::kogge_stone::lanes::{
    shl_imm, shl_signed, and_lanes, as_signed, neg_lanes, step_signed_lanes, lemma_doubled_counts,
};

verus! {

/// Rook attacks of every slider in `slider`, merged: north (+8) and east (+1)
/// in one register, south and west, by the negated counts, in another.
pub fn kogge_stone_rook_neon(slider: u64, occupancy: u64) -> (r: u64)
    ensures
        r == union_over(slider, |sq: int| rook_attacks_spec(sq, occupancy), 64),
{
    let ps = !occupancy;
    let all: u64 = 0xFFFF_FFFF_FFFF_FFFF;

    let left_shifts: [u64; 2] = [8, 1];
    let mut g_left: [u64; 2] = [slider, slider];
    let mut p_left: [u64; 2] = [ps, ps];

    let right_shifts: [u64; 2] = [8, 1];
    let mut g_right: [u64; 2] = [slider, slider];
    let mut p_right: [u64; 2] = [ps, ps];

    let left_masks: [[u64; 2]; 3] = [[all, east_mask(1)], [all, east_mask(2)], [all, east_mask(4)]];
    let right_masks: [[u64; 2]; 3] = [[all, west_mask(1)], [all, west_mask(2)], [all, west_mask(4)]];

    proof { lemma_doubled_counts(); }

    // Step 0: one square.
    let shift_amt = left_shifts;
    let (g, p) = step_signed_lanes(g_left, p_left, as_signed(shift_amt), left_masks[0]);
    g_left = g;
    p_left = p;
    let (g, p) = step_signed_lanes(g_right, p_right, neg_lanes(as_signed(shift_amt)), right_masks[0]);
    g_right = g;
    p_right = p;

    // Step 1: two squares.
    let shift_amt = shl_imm(left_shifts, 1);
    let (g, p) = step_signed_lanes(g_left, p_left, as_signed(shift_amt), left_masks[1]);
    g_left = g;
    p_left = p;
    let (g, p) = step_signed_lanes(g_right, p_right, neg_lanes(as_signed(shift_amt)), right_masks[1]);
    g_right = g;
    p_right = p;

    // Step 2: four squares.
    let shift_amt = shl_imm(left_shifts, 2);
    let (g, p) = step_signed_lanes(g_left, p_left, as_signed(shift_amt), left_masks[2]);
    g_left = g;
    p_left = p;
    let (g, p) = step_signed_lanes(g_right, p_right, neg_lanes(as_signed(shift_amt)), right_masks[2]);
    g_right = g;
    p_right = p;

    let final_left = and_lanes(shl_signed(g_left, as_signed(left_shifts)), left_masks[0]);
    let final_right = and_lanes(shl_signed(g_right, neg_lanes(as_signed(right_shifts))), right_masks[0]);

    let r = final_left[0] | final_left[1] | final_right[0] | final_right[1];
    proof {
        let n = fill_north(slider, occupancy);
        let s = fill_south(slider, occupancy);
        let e = fill_east(slider, occupancy);
        let w = fill_west(slider, occupancy);
        lemma_fill_unmasked(slider, occupancy);
        assert(final_left[0] == n);
        assert(final_left[1] == e);
        assert(final_right[0] == s);
        assert(final_right[1] == w);
        lemma_rook_fills(slider, occupancy);
        lemma_or_assoc_comm(n, e, s);
        lemma_or_assoc_comm(n, s, e);
        lemma_or_assoc_comm(e, s, 0);
    }
    r
}

/// Bishop attacks of every slider in `slider`, merged: north-east (+9) and
/// north-west (+7) in one register, south-east and south-west in another.
pub fn kogge_stone_bishop_neon(slider: u64, occupancy: u64) -> (r: u64)
    ensures
        r == union_over(slider, |sq: int| bishop_attacks_spec(sq, occupancy), 64),
{
    let ps = !occupancy;

    let left_shifts: [u64; 2] = [9, 7];
    let mut g_left: [u64; 2] = [slider, slider];
    let mut p_left: [u64; 2] = [ps, ps];

    let right_shifts: [u64; 2] = [7, 9];
    let mut g_right: [u64; 2] = [slider, slider];
    let mut p_right: [u64; 2] = [ps, ps];

    let left_masks: [[u64; 2]; 3] = [
        [east_mask(1), west_mask(1)],
        [east_mask(2), west_mask(2)],
        [east_mask(4), west_mask(4)],
    ];
    let right_masks: [[u64; 2]; 3] = [
        [east_mask(1), west_mask(1)],
        [east_mask(2), west_mask(2)],
        [east_mask(4), west_mask(4)],
    ];

    proof { lemma_doubled_counts(); }

    // Step 0: one square.
    let (g, p) = step_signed_lanes(g_left, p_left, as_signed(left_shifts), left_masks[0]);
    g_left = g;
    p_left = p;
    let (g, p) = step_signed_lanes(g_right, p_right, neg_lanes(as_signed(right_shifts)), right_masks[0]);
    g_right = g;
    p_right = p;

    // Step 1: two squares.
    let (g, p) = step_signed_lanes(g_left, p_left, as_signed(shl_imm(left_shifts, 1)), left_masks[1]);
    g_left = g;
    p_left = p;
    let (g, p) = step_signed_lanes(g_right, p_right, neg_lanes(as_signed(shl_imm(right_shifts, 1))), right_masks[1]);
    g_right = g;
    p_right = p;

    // Step 2: four squares.
    let (g, p) = step_signed_lanes(g_left, p_left, as_signed(shl_imm(left_shifts, 2)), left_masks[2]);
    g_left = g;
    p_left = p;
    let (g, p) = step_signed_lanes(g_right, p_right, neg_lanes(as_signed(shl_imm(right_shifts, 2))), right_masks[2]);
    g_right = g;
    p_right = p;

    let final_left = and_lanes(shl_signed(g_left, as_signed(left_shifts)), left_masks[0]);
    let final_right = and_lanes(shl_signed(g_right, neg_lanes(as_signed(right_shifts))), right_masks[0]);

    let r = final_left[0] | final_left[1] | final_right[0] | final_right[1];
    proof {
        assert(final_left[0] == fill_north_east(slider, occupancy));
        assert(final_left[1] == fill_north_west(slider, occupancy));
        assert(final_right[0] == fill_south_east(slider, occupancy));
        assert(final_right[1] == fill_south_west(slider, occupancy));
        lemma_bishop_fills(slider, occupancy);
    }
    r
}

/// Queen attacks of every slider in `slider`: the rook and bishop fills
/// joined.
pub fn kogge_stone_queen_neon(slider: u64, occupancy: u64) -> (r: u64)
    ensures
        r == union_over(slider, |sq: int| queen_attacks_spec(sq, occupancy), 64),
{
    let r = kogge_stone_rook_neon(slider, occupancy) | kogge_stone_bishop_neon(slider, occupancy);
    proof {
        lemma_queen_fills(slider, occupancy);
    }
    r
}

} // verus!
