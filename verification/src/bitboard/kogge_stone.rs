//! Kogge-Stone sliding attacks: each ray is a parallel-prefix flood fill.

pub mod lanes;
pub mod avx2;
pub mod avx512;
pub mod neon;

use vstd::prelude::*;
use crate::bits::{bit_set, low_mask, lemma_low_mask_step, lemma_or_identity};
use crate::bitboard::geometry::{
    Direction, ray_attacks, chain7, lemma_shifted_ray_chain7, union_over, lemma_union_over_or4,
    lemma_union_over_or2, lemma_union_over_single,
    lemma_ray_attacks_shifted, rook_attacks_spec, bishop_attacks_spec, queen_attacks_spec,
    north_one, south_one, east_one, west_one, north_east_one, north_west_one, south_east_one,
    south_west_one,
};
use crate::bitboard::kernel::BitBoardKernel;

verus! {

/// Marker for the Kogge-Stone flood-fill backend.
#[derive(Debug, Clone, Copy, PartialEq, Eq, Hash)]
pub struct KoggeStone;

pub open spec fn east_mask_spec(s: usize) -> u64 {
    if s == 1 { 0xFEFEFEFEFEFEFEFEu64 }
    else if s == 2 { 0xFCFCFCFCFCFCFCFCu64 }
    else if s == 4 { 0xF0F0F0F0F0F0F0F0u64 }
    else { 0xFFFFFFFFFFFFFFFFu64 }
}

pub open spec fn west_mask_spec(s: usize) -> u64 {
    if s == 1 { 0x7F7F7F7F7F7F7F7Fu64 }
    else if s == 2 { 0x3F3F3F3F3F3F3F3Fu64 }
    else if s == 4 { 0x0F0F0F0F0F0F0F0Fu64 }
    else { 0xFFFFFFFFFFFFFFFFu64 }
}

/// Squares that a shift east by `s` files can reach without wrapping.
pub(crate) fn east_mask(s: usize) -> (r: u64)
    ensures r == east_mask_spec(s),
{
    match s {
        1 => 0xFEFEFEFEFEFEFEFE,
        2 => 0xFCFCFCFCFCFCFCFC,
        4 => 0xF0F0F0F0F0F0F0F0,
        _ => 0xFFFFFFFFFFFFFFFF,
    }
}

/// Squares that a shift west by `s` files can reach without wrapping.
pub(crate) fn west_mask(s: usize) -> (r: u64)
    ensures r == west_mask_spec(s),
{
    match s {
        1 => 0x7F7F7F7F7F7F7F7F,
        2 => 0x3F3F3F3F3F3F3F3F,
        4 => 0x0F0F0F0F0F0F0F0F,
        _ => 0xFFFFFFFFFFFFFFFF,
    }
}

// One doubling step of the fill: the generator `g` spreads over `s` squares
// through the propagator `p` (empty squares), and `p` shrinks to the squares
// whose next `s` squares are all empty.

pub open spec fn step_left(g: u64, p: u64, shift: u64, mask: u64) -> (u64, u64) {
    (g | (((g << shift) & mask) & p), p & ((p << shift) & mask))
}

pub open spec fn step_right(g: u64, p: u64, shift: u64, mask: u64) -> (u64, u64) {
    (g | (((g >> shift) & mask) & p), p & ((p >> shift) & mask))
}

pub(crate) fn step_n(g: u64, p: u64, s: usize) -> (r: (u64, u64))
    requires s < 8,
    ensures r == (g | ((g << (s * 8) as u64) & p), p & (p << (s * 8) as u64)),
{
    let shift = s * 8;
    let sg = g << shift;
    let sp = p << shift;
    (g | (sg & p), p & sp)
}

pub(crate) fn step_s(g: u64, p: u64, s: usize) -> (r: (u64, u64))
    requires s < 8,
    ensures r == (g | ((g >> (s * 8) as u64) & p), p & (p >> (s * 8) as u64)),
{
    let shift = s * 8;
    let sg = g >> shift;
    let sp = p >> shift;
    (g | (sg & p), p & sp)
}

pub(crate) fn step_e(g: u64, p: u64, s: usize) -> (r: (u64, u64))
    requires s < 64,
    ensures r == step_left(g, p, s as u64, east_mask_spec(s)),
{
    let shift = s;
    let mask = east_mask(s);
    let sg = (g << shift) & mask;
    let sp = (p << shift) & mask;
    (g | (sg & p), p & sp)
}

pub(crate) fn step_w(g: u64, p: u64, s: usize) -> (r: (u64, u64))
    requires s < 64,
    ensures r == step_right(g, p, s as u64, west_mask_spec(s)),
{
    let shift = s;
    let mask = west_mask(s);
    let sg = (g >> shift) & mask;
    let sp = (p >> shift) & mask;
    (g | (sg & p), p & sp)
}

pub(crate) fn step_ne(g: u64, p: u64, s: usize) -> (r: (u64, u64))
    requires s < 8,
    ensures r == step_left(g, p, (s * 9) as u64, east_mask_spec(s)),
{
    let shift = s * 9;
    let mask = east_mask(s);
    let sg = (g << shift) & mask;
    let sp = (p << shift) & mask;
    (g | (sg & p), p & sp)
}

pub(crate) fn step_nw(g: u64, p: u64, s: usize) -> (r: (u64, u64))
    requires s < 8,
    ensures r == step_left(g, p, (s * 7) as u64, west_mask_spec(s)),
{
    let shift = s * 7;
    let mask = west_mask(s);
    let sg = (g << shift) & mask;
    let sp = (p << shift) & mask;
    (g | (sg & p), p & sp)
}

pub(crate) fn step_se(g: u64, p: u64, s: usize) -> (r: (u64, u64))
    requires s < 8,
    ensures r == step_right(g, p, (s * 7) as u64, east_mask_spec(s)),
{
    let shift = s * 7;
    let mask = east_mask(s);
    let sg = (g >> shift) & mask;
    let sp = (p >> shift) & mask;
    (g | (sg & p), p & sp)
}

pub(crate) fn step_sw(g: u64, p: u64, s: usize) -> (r: (u64, u64))
    requires s < 8,
    ensures r == step_right(g, p, (s * 9) as u64, west_mask_spec(s)),
{
    let shift = s * 9;
    let mask = west_mask(s);
    let sg = (g >> shift) & mask;
    let sp = (p >> shift) & mask;
    (g | (sg & p), p & sp)
}

// ---------------------------------------------------------------------------
// The whole fill per direction, written out for the bit-vector solver.
// ---------------------------------------------------------------------------

pub open spec fn fill_north(s: u64, occ: u64) -> u64 {
    let p0 = !occ;
    let g1 = s | ((s << 8u64) & p0);
    let p1 = p0 & (p0 << 8u64);
    let g2 = g1 | ((g1 << 16u64) & p1);
    let p2 = p1 & (p1 << 16u64);
    let g3 = g2 | ((g2 << 32u64) & p2);
    g3 << 8u64
}

pub open spec fn fill_south(s: u64, occ: u64) -> u64 {
    let p0 = !occ;
    let g1 = s | ((s >> 8u64) & p0);
    let p1 = p0 & (p0 >> 8u64);
    let g2 = g1 | ((g1 >> 16u64) & p1);
    let p2 = p1 & (p1 >> 16u64);
    let g3 = g2 | ((g2 >> 32u64) & p2);
    g3 >> 8u64
}

pub open spec fn fill_left(s: u64, occ: u64, shift: u64, shift2: u64, shift4: u64, m1: u64, m2: u64, m4: u64) -> u64 {
    let p0 = !occ;
    let g1 = step_left(s, p0, shift, m1).0;
    let p1 = step_left(s, p0, shift, m1).1;
    let g2 = step_left(g1, p1, shift2, m2).0;
    let p2 = step_left(g1, p1, shift2, m2).1;
    let g3 = step_left(g2, p2, shift4, m4).0;
    (g3 << shift) & m1
}

pub open spec fn fill_right(s: u64, occ: u64, shift: u64, shift2: u64, shift4: u64, m1: u64, m2: u64, m4: u64) -> u64 {
    let p0 = !occ;
    let g1 = step_right(s, p0, shift, m1).0;
    let p1 = step_right(s, p0, shift, m1).1;
    let g2 = step_right(g1, p1, shift2, m2).0;
    let p2 = step_right(g1, p1, shift2, m2).1;
    let g3 = step_right(g2, p2, shift4, m4).0;
    (g3 >> shift) & m1
}

pub open spec fn fill_east(s: u64, occ: u64) -> u64 {
    fill_left(s, occ, 1, 2, 4, 0xFEFEFEFEFEFEFEFEu64, 0xFCFCFCFCFCFCFCFCu64, 0xF0F0F0F0F0F0F0F0u64)
}

pub open spec fn fill_west(s: u64, occ: u64) -> u64 {
    fill_right(s, occ, 1, 2, 4, 0x7F7F7F7F7F7F7F7Fu64, 0x3F3F3F3F3F3F3F3Fu64, 0x0F0F0F0F0F0F0F0Fu64)
}

pub open spec fn fill_north_east(s: u64, occ: u64) -> u64 {
    fill_left(s, occ, 9, 18, 36, 0xFEFEFEFEFEFEFEFEu64, 0xFCFCFCFCFCFCFCFCu64, 0xF0F0F0F0F0F0F0F0u64)
}

pub open spec fn fill_north_west(s: u64, occ: u64) -> u64 {
    fill_left(s, occ, 7, 14, 28, 0x7F7F7F7F7F7F7F7Fu64, 0x3F3F3F3F3F3F3F3Fu64, 0x0F0F0F0F0F0F0F0Fu64)
}

pub open spec fn fill_south_east(s: u64, occ: u64) -> u64 {
    fill_right(s, occ, 7, 14, 28, 0xFEFEFEFEFEFEFEFEu64, 0xFCFCFCFCFCFCFCFCu64, 0xF0F0F0F0F0F0F0F0u64)
}

pub open spec fn fill_south_west(s: u64, occ: u64) -> u64 {
    fill_right(s, occ, 9, 18, 36, 0x7F7F7F7F7F7F7F7Fu64, 0x3F3F3F3F3F3F3F3Fu64, 0x0F0F0F0F0F0F0F0Fu64)
}

pub open spec fn fill(d: Direction, s: u64, occ: u64) -> u64 {
    match d {
        Direction::North => fill_north(s, occ),
        Direction::South => fill_south(s, occ),
        Direction::East => fill_east(s, occ),
        Direction::West => fill_west(s, occ),
        Direction::NorthEast => fill_north_east(s, occ),
        Direction::NorthWest => fill_north_west(s, occ),
        Direction::SouthEast => fill_south_east(s, occ),
        Direction::SouthWest => fill_south_west(s, occ),
    }
}

proof fn lemma_fill_orthogonal(k: u64, occ: u64)
    by (bit_vector)
    requires
        k < 64,
    ensures
        fill_north(1u64 << k, occ) == chain7(north_one(1u64 << k), north_one(north_one(1u64 << k)),
            north_one(north_one(north_one(1u64 << k))), north_one(north_one(north_one(north_one(1u64 << k)))),
            north_one(north_one(north_one(north_one(north_one(1u64 << k))))),
            north_one(north_one(north_one(north_one(north_one(north_one(1u64 << k)))))),
            north_one(north_one(north_one(north_one(north_one(north_one(north_one(1u64 << k))))))), occ),
        fill_south(1u64 << k, occ) == chain7(south_one(1u64 << k), south_one(south_one(1u64 << k)),
            south_one(south_one(south_one(1u64 << k))), south_one(south_one(south_one(south_one(1u64 << k)))),
            south_one(south_one(south_one(south_one(south_one(1u64 << k))))),
            south_one(south_one(south_one(south_one(south_one(south_one(1u64 << k)))))),
            south_one(south_one(south_one(south_one(south_one(south_one(south_one(1u64 << k))))))), occ),
        fill_east(1u64 << k, occ) == chain7(east_one(1u64 << k), east_one(east_one(1u64 << k)),
            east_one(east_one(east_one(1u64 << k))), east_one(east_one(east_one(east_one(1u64 << k)))),
            east_one(east_one(east_one(east_one(east_one(1u64 << k))))),
            east_one(east_one(east_one(east_one(east_one(east_one(1u64 << k)))))),
            east_one(east_one(east_one(east_one(east_one(east_one(east_one(1u64 << k))))))), occ),
        fill_west(1u64 << k, occ) == chain7(west_one(1u64 << k), west_one(west_one(1u64 << k)),
            west_one(west_one(west_one(1u64 << k))), west_one(west_one(west_one(west_one(1u64 << k)))),
            west_one(west_one(west_one(west_one(west_one(1u64 << k))))),
            west_one(west_one(west_one(west_one(west_one(west_one(1u64 << k)))))),
            west_one(west_one(west_one(west_one(west_one(west_one(west_one(1u64 << k))))))), occ),
{
}

proof fn lemma_fill_diagonal(k: u64, occ: u64)
    by (bit_vector)
    requires
        k < 64,
    ensures
        fill_north_east(1u64 << k, occ) == chain7(north_east_one(1u64 << k), north_east_one(north_east_one(1u64 << k)), north_east_one(north_east_one(north_east_one(1u64 << k))), north_east_one(north_east_one(north_east_one(north_east_one(1u64 << k)))), north_east_one(north_east_one(north_east_one(north_east_one(north_east_one(1u64 << k))))), north_east_one(north_east_one(north_east_one(north_east_one(north_east_one(north_east_one(1u64 << k)))))), north_east_one(north_east_one(north_east_one(north_east_one(north_east_one(north_east_one(north_east_one(1u64 << k))))))), occ),
        fill_north_west(1u64 << k, occ) == chain7(north_west_one(1u64 << k), north_west_one(north_west_one(1u64 << k)), north_west_one(north_west_one(north_west_one(1u64 << k))), north_west_one(north_west_one(north_west_one(north_west_one(1u64 << k)))), north_west_one(north_west_one(north_west_one(north_west_one(north_west_one(1u64 << k))))), north_west_one(north_west_one(north_west_one(north_west_one(north_west_one(north_west_one(1u64 << k)))))), north_west_one(north_west_one(north_west_one(north_west_one(north_west_one(north_west_one(north_west_one(1u64 << k))))))), occ),
        fill_south_east(1u64 << k, occ) == chain7(south_east_one(1u64 << k), south_east_one(south_east_one(1u64 << k)), south_east_one(south_east_one(south_east_one(1u64 << k))), south_east_one(south_east_one(south_east_one(south_east_one(1u64 << k)))), south_east_one(south_east_one(south_east_one(south_east_one(south_east_one(1u64 << k))))), south_east_one(south_east_one(south_east_one(south_east_one(south_east_one(south_east_one(1u64 << k)))))), south_east_one(south_east_one(south_east_one(south_east_one(south_east_one(south_east_one(south_east_one(1u64 << k))))))), occ),
        fill_south_west(1u64 << k, occ) == chain7(south_west_one(1u64 << k), south_west_one(south_west_one(1u64 << k)), south_west_one(south_west_one(south_west_one(1u64 << k))), south_west_one(south_west_one(south_west_one(south_west_one(1u64 << k)))), south_west_one(south_west_one(south_west_one(south_west_one(south_west_one(1u64 << k))))), south_west_one(south_west_one(south_west_one(south_west_one(south_west_one(south_west_one(1u64 << k)))))), south_west_one(south_west_one(south_west_one(south_west_one(south_west_one(south_west_one(south_west_one(1u64 << k))))))), occ),
{
}

/// The fill of a union of sliders is the union of their fills, and the
/// fill of no slider is empty.
proof fn lemma_fill_union(a: u64, b: u64, occ: u64)
    by (bit_vector)
    ensures
        fill_north(a | b, occ) == fill_north(a, occ) | fill_north(b, occ),
        fill_north(0u64, occ) == 0u64,
        fill_south(a | b, occ) == fill_south(a, occ) | fill_south(b, occ),
        fill_south(0u64, occ) == 0u64,
        fill_east(a | b, occ) == fill_east(a, occ) | fill_east(b, occ),
        fill_east(0u64, occ) == 0u64,
        fill_west(a | b, occ) == fill_west(a, occ) | fill_west(b, occ),
        fill_west(0u64, occ) == 0u64,
        fill_north_east(a | b, occ) == fill_north_east(a, occ) | fill_north_east(b, occ),
        fill_north_east(0u64, occ) == 0u64,
        fill_north_west(a | b, occ) == fill_north_west(a, occ) | fill_north_west(b, occ),
        fill_north_west(0u64, occ) == 0u64,
        fill_south_east(a | b, occ) == fill_south_east(a, occ) | fill_south_east(b, occ),
        fill_south_east(0u64, occ) == 0u64,
        fill_south_west(a | b, occ) == fill_south_west(a, occ) | fill_south_west(b, occ),
        fill_south_west(0u64, occ) == 0u64,
{
}

/// The fill from a single square is the geometric ray.
proof fn lemma_fill_single(d: Direction, k: u64, occ: u64)
    requires
        k < 64,
    ensures
        fill(d, 1u64 << k, occ) == ray_attacks(k as int, occ, d),
{
    lemma_fill_orthogonal(k, occ);
    lemma_fill_diagonal(k, occ);
    lemma_shifted_ray_chain7(d, 1u64 << k, occ);
    lemma_ray_attacks_shifted(d, k as int, occ);
}

/// The fill from the squares of `slider` below `n` is the union of their rays.
proof fn lemma_fill_prefix(d: Direction, slider: u64, occ: u64, n: u64)
    requires
        n <= 64,
    ensures
        fill(d, slider & low_mask(n), occ) == union_over(slider, |sq: int| ray_attacks(sq, occ, d), n as nat),
    decreases n,
{
    lemma_fill_union(0, 0, occ);
    lemma_low_mask_step(slider, 0);
    if n > 0 {
        let m = (n - 1) as u64;
        lemma_fill_prefix(d, slider, occ, m);
        lemma_low_mask_step(slider, m);
        lemma_fill_union(slider & low_mask(m), slider & (1u64 << m), occ);
        let prev = fill(d, slider & low_mask(m), occ);
        lemma_or_identity(prev);
        if bit_set(slider, m as int) {
            lemma_fill_single(d, m, occ);
        }
    }
}

/// The fill from every square of `slider` is the union of their rays.
proof fn lemma_fill_all(d: Direction, slider: u64, occ: u64)
    ensures
        fill(d, slider, occ) == union_over(slider, |sq: int| ray_attacks(sq, occ, d), 64),
{
    lemma_fill_prefix(d, slider, occ, 64);
    lemma_low_mask_step(slider, 0);
}

/// The four orthogonal fills together are the rook attacks of every slider.
pub(crate) proof fn lemma_rook_fills(slider: u64, occupancy: u64)
    ensures
        fill_north(slider, occupancy) | fill_south(slider, occupancy) | fill_east(slider, occupancy)
            | fill_west(slider, occupancy)
            == union_over(slider, |sq: int| rook_attacks_spec(sq, occupancy), 64),
{
    lemma_fill_all(Direction::North, slider, occupancy);
    lemma_fill_all(Direction::South, slider, occupancy);
    lemma_fill_all(Direction::East, slider, occupancy);
    lemma_fill_all(Direction::West, slider, occupancy);
    lemma_union_over_or4(slider, |sq: int| rook_attacks_spec(sq, occupancy),
        |sq: int| ray_attacks(sq, occupancy, Direction::North),
        |sq: int| ray_attacks(sq, occupancy, Direction::South),
        |sq: int| ray_attacks(sq, occupancy, Direction::East),
        |sq: int| ray_attacks(sq, occupancy, Direction::West), 64);
}

/// The four diagonal fills together are the bishop attacks of every slider.
pub(crate) proof fn lemma_bishop_fills(slider: u64, occupancy: u64)
    ensures
        fill_north_east(slider, occupancy) | fill_north_west(slider, occupancy)
            | fill_south_east(slider, occupancy) | fill_south_west(slider, occupancy)
            == union_over(slider, |sq: int| bishop_attacks_spec(sq, occupancy), 64),
{
    lemma_fill_all(Direction::NorthEast, slider, occupancy);
    lemma_fill_all(Direction::NorthWest, slider, occupancy);
    lemma_fill_all(Direction::SouthEast, slider, occupancy);
    lemma_fill_all(Direction::SouthWest, slider, occupancy);
    lemma_union_over_or4(slider, |sq: int| bishop_attacks_spec(sq, occupancy),
        |sq: int| ray_attacks(sq, occupancy, Direction::NorthEast),
        |sq: int| ray_attacks(sq, occupancy, Direction::NorthWest),
        |sq: int| ray_attacks(sq, occupancy, Direction::SouthEast),
        |sq: int| ray_attacks(sq, occupancy, Direction::SouthWest), 64);
}

/// Rook and bishop attacks of every slider together are its queen attacks.
pub(crate) proof fn lemma_queen_fills(slider: u64, occupancy: u64)
    ensures
        union_over(slider, |sq: int| rook_attacks_spec(sq, occupancy), 64)
            | union_over(slider, |sq: int| bishop_attacks_spec(sq, occupancy), 64)
            == union_over(slider, |sq: int| queen_attacks_spec(sq, occupancy), 64),
{
    lemma_union_over_or2(slider, |sq: int| queen_attacks_spec(sq, occupancy),
        |sq: int| rook_attacks_spec(sq, occupancy), |sq: int| bishop_attacks_spec(sq, occupancy), 64);
}

/// North and south fill with the same doubling steps as the others when the
/// masks keep every square.
pub(crate) proof fn lemma_fill_unmasked(s: u64, occ: u64)
    by (bit_vector)
    ensures
        fill_left(s, occ, 8, 16, 32, 0xFFFF_FFFF_FFFF_FFFFu64, 0xFFFF_FFFF_FFFF_FFFFu64, 0xFFFF_FFFF_FFFF_FFFFu64)
            == fill_north(s, occ),
        fill_right(s, occ, 8, 16, 32, 0xFFFF_FFFF_FFFF_FFFFu64, 0xFFFF_FFFF_FFFF_FFFFu64, 0xFFFF_FFFF_FFFF_FFFFu64)
            == fill_south(s, occ),
{
}

/// Rook attacks of every slider in `slider`, merged: each ray is flood-filled
/// through empty squares in three doubling steps, then moved one square on.
pub fn kogge_stone_rook(slider: u64, occupancy: u64) -> (r: u64)
    ensures
        r == union_over(slider, |sq: int| rook_attacks_spec(sq, occupancy), 64),
{
    let p = !occupancy;

    // North
    let (mut gn, mut pn) = (slider, p);
    let (g, pr) = step_n(gn, pn, 1);
    gn = g;
    pn = pr;
    let (g, pr) = step_n(gn, pn, 2);
    gn = g;
    pn = pr;
    let (g, pr) = step_n(gn, pn, 4);
    gn = g;
    pn = pr;
    let attacks_n = gn << 8u64;

    // South
    let (mut gs, mut ps) = (slider, p);
    let (g, pr) = step_s(gs, ps, 1);
    gs = g;
    ps = pr;
    let (g, pr) = step_s(gs, ps, 2);
    gs = g;
    ps = pr;
    let (g, pr) = step_s(gs, ps, 4);
    gs = g;
    ps = pr;
    let attacks_s = gs >> 8u64;

    // East
    let (mut ge, mut pe) = (slider, p);
    let (g, pr) = step_e(ge, pe, 1);
    ge = g;
    pe = pr;
    let (g, pr) = step_e(ge, pe, 2);
    ge = g;
    pe = pr;
    let (g, pr) = step_e(ge, pe, 4);
    ge = g;
    pe = pr;
    let attacks_e = (ge << 1u64) & 0xFEFEFEFEFEFEFEFEu64;

    // West
    let (mut gw, mut pw) = (slider, p);
    let (g, pr) = step_w(gw, pw, 1);
    gw = g;
    pw = pr;
    let (g, pr) = step_w(gw, pw, 2);
    gw = g;
    pw = pr;
    let (g, pr) = step_w(gw, pw, 4);
    gw = g;
    pw = pr;
    let attacks_w = (gw >> 1u64) & 0x7F7F7F7F7F7F7F7Fu64;

    proof {
        assert(attacks_n == fill_north(slider, occupancy));
        assert(attacks_s == fill_south(slider, occupancy));
        assert(attacks_e == fill_east(slider, occupancy));
        assert(attacks_w == fill_west(slider, occupancy));
        lemma_rook_fills(slider, occupancy);
    }
    attacks_n | attacks_s | attacks_e | attacks_w
}

/// Bishop attacks of every slider in `slider`, merged: each diagonal ray is
/// flood-filled through empty squares in three doubling steps.
pub fn kogge_stone_bishop(slider: u64, occupancy: u64) -> (r: u64)
    ensures
        r == union_over(slider, |sq: int| bishop_attacks_spec(sq, occupancy), 64),
{
    let p = !occupancy;

    // North-East
    let (mut gne, mut pne) = (slider, p);
    let (g, pr) = step_ne(gne, pne, 1);
    gne = g;
    pne = pr;
    let (g, pr) = step_ne(gne, pne, 2);
    gne = g;
    pne = pr;
    let (g, pr) = step_ne(gne, pne, 4);
    gne = g;
    pne = pr;
    let attacks_ne = (gne << 9u64) & 0xFEFEFEFEFEFEFEFEu64;

    // North-West
    let (mut gnw, mut pnw) = (slider, p);
    let (g, pr) = step_nw(gnw, pnw, 1);
    gnw = g;
    pnw = pr;
    let (g, pr) = step_nw(gnw, pnw, 2);
    gnw = g;
    pnw = pr;
    let (g, pr) = step_nw(gnw, pnw, 4);
    gnw = g;
    pnw = pr;
    let attacks_nw = (gnw << 7u64) & 0x7F7F7F7F7F7F7F7Fu64;

    // South-East
    let (mut gse, mut pse) = (slider, p);
    let (g, pr) = step_se(gse, pse, 1);
    gse = g;
    pse = pr;
    let (g, pr) = step_se(gse, pse, 2);
    gse = g;
    pse = pr;
    let (g, pr) = step_se(gse, pse, 4);
    gse = g;
    pse = pr;
    let attacks_se = (gse >> 7u64) & 0xFEFEFEFEFEFEFEFEu64;

    // South-West
    let (mut gsw, mut psw) = (slider, p);
    let (g, pr) = step_sw(gsw, psw, 1);
    gsw = g;
    psw = pr;
    let (g, pr) = step_sw(gsw, psw, 2);
    gsw = g;
    psw = pr;
    let (g, pr) = step_sw(gsw, psw, 4);
    gsw = g;
    psw = pr;
    let attacks_sw = (gsw >> 9u64) & 0x7F7F7F7F7F7F7F7Fu64;

    proof {
        assert(attacks_ne == fill_north_east(slider, occupancy));
        assert(attacks_nw == fill_north_west(slider, occupancy));
        assert(attacks_se == fill_south_east(slider, occupancy));
        assert(attacks_sw == fill_south_west(slider, occupancy));
        lemma_bishop_fills(slider, occupancy);
    }
    attacks_ne | attacks_nw | attacks_se | attacks_sw
}

/// Queen attacks of every slider in `slider`, merged: rook and bishop fills.
pub fn kogge_stone_queen(slider: u64, occupancy: u64) -> (r: u64)
    ensures
        r == union_over(slider, |sq: int| queen_attacks_spec(sq, occupancy), 64),
{
    let r = kogge_stone_rook(slider, occupancy) | kogge_stone_bishop(slider, occupancy);
    proof {
        lemma_queen_fills(slider, occupancy);
    }
    r
}

/// The kernel interface takes no host: it runs the scalar fill, which
/// answers as every vector fill does (see `KoggeStone::rook_attacks_on`).
impl BitBoardKernel for KoggeStone {
    fn rook_attacks(square: u8, occupancy: u64) -> (r: u64) {
        let slider = 1u64 << square;
        proof {
            lemma_union_over_single(square as u64, |sq: int| rook_attacks_spec(sq, occupancy), 64);
        }
        kogge_stone_rook(slider, occupancy)
    }

    fn bishop_attacks(square: u8, occupancy: u64) -> (r: u64) {
        let slider = 1u64 << square;
        proof {
            lemma_union_over_single(square as u64, |sq: int| bishop_attacks_spec(sq, occupancy), 64);
        }
        kogge_stone_bishop(slider, occupancy)
    }

    fn queen_attacks(square: u8, occupancy: u64) -> (r: u64) {
        let slider = 1u64 << square;
        proof {
            lemma_union_over_single(square as u64, |sq: int| queen_attacks_spec(sq, occupancy), 64);
        }
        kogge_stone_queen(slider, occupancy)
    }
}

/// The vector units a host offers the fills.
#[derive(Debug, Clone, Copy, PartialEq, Eq, Structural)]
pub struct HostSimd {
    pub avx512f: bool,
    pub avx2: bool,
    pub neon: bool,
}

/// Which fill runs.
#[derive(Debug, Clone, Copy, PartialEq, Eq, Structural)]
pub enum FillBackend {
    Avx512,
    Avx2,
    Neon,
    Scalar,
}

/// The widest fill the host runs: AVX-512 before AVX2, NEON where there is
/// neither, the scalar fill where there is none of them.
pub open spec fn select_fill_spec(host: HostSimd) -> FillBackend {
    if host.avx512f {
        FillBackend::Avx512
    } else if host.avx2 {
        FillBackend::Avx2
    } else if host.neon {
        FillBackend::Neon
    } else {
        FillBackend::Scalar
    }
}

/// The fill the Kogge-Stone backend runs on `host`.
pub fn select_fill(host: HostSimd) -> (b: FillBackend)
    ensures
        b == select_fill_spec(host),
{
    if host.avx512f {
        FillBackend::Avx512
    } else if host.avx2 {
        FillBackend::Avx2
    } else if host.neon {
        FillBackend::Neon
    } else {
        FillBackend::Scalar
    }
}

impl KoggeStone {
    /// Rook attacks from `square` by the fill `select_fill` picks for `host`.
    pub fn rook_attacks_on(host: HostSimd, square: u8, occupancy: u64) -> (r: u64)
        requires
            square < 64,
        ensures
            r == rook_attacks_spec(square as int, occupancy),
    {
        let slider = 1u64 << square;
        proof {
            lemma_union_over_single(square as u64, |sq: int| rook_attacks_spec(sq, occupancy), 64);
        }
        match select_fill(host) {
            FillBackend::Avx512 => avx512::kogge_stone_rook_avx512(slider, occupancy),
            FillBackend::Avx2 => avx2::kogge_stone_rook_avx2(slider, occupancy),
            FillBackend::Neon => neon::kogge_stone_rook_neon(slider, occupancy),
            FillBackend::Scalar => kogge_stone_rook(slider, occupancy),
        }
    }

    /// Bishop attacks from `square` by the fill `select_fill` picks for `host`.
    pub fn bishop_attacks_on(host: HostSimd, square: u8, occupancy: u64) -> (r: u64)
        requires
            square < 64,
        ensures
            r == bishop_attacks_spec(square as int, occupancy),
    {
        let slider = 1u64 << square;
        proof {
            lemma_union_over_single(square as u64, |sq: int| bishop_attacks_spec(sq, occupancy), 64);
        }
        match select_fill(host) {
            FillBackend::Avx512 => avx512::kogge_stone_bishop_avx512(slider, occupancy),
            FillBackend::Avx2 => avx2::kogge_stone_bishop_avx2(slider, occupancy),
            FillBackend::Neon => neon::kogge_stone_bishop_neon(slider, occupancy),
            FillBackend::Scalar => kogge_stone_bishop(slider, occupancy),
        }
    }

    /// Queen attacks from `square` by the fill `select_fill` picks for `host`.
    pub fn queen_attacks_on(host: HostSimd, square: u8, occupancy: u64) -> (r: u64)
        requires
            square < 64,
        ensures
            r == queen_attacks_spec(square as int, occupancy),
    {
        let slider = 1u64 << square;
        proof {
            lemma_union_over_single(square as u64, |sq: int| queen_attacks_spec(sq, occupancy), 64);
        }
        match select_fill(host) {
            FillBackend::Avx512 => avx512::kogge_stone_queen_avx512(slider, occupancy),
            FillBackend::Avx2 => avx2::kogge_stone_queen_avx2(slider, occupancy),
            FillBackend::Neon => neon::kogge_stone_queen_neon(slider, occupancy),
            FillBackend::Scalar => kogge_stone_queen(slider, occupancy),
        }
    }
}

} // verus!
