//! Board geometry and the reference meaning of a sliding attack.

use vstd::prelude::*;
use crate::bits::{bit_set, lemma_or_identity, lemma_or_regroup4, lemma_single_bit};

verus! {

/// One of the eight compass directions a slider moves in.
#[derive(Clone, Copy, Debug, PartialEq, Eq)]
pub enum Direction {
    North,
    South,
    East,
    West,
    NorthEast,
    NorthWest,
    SouthEast,
    SouthWest,
}

/// Rank change of one step in direction `d` (north is towards rank 7).
pub open spec fn rank_step(d: Direction) -> int {
    match d {
        Direction::North | Direction::NorthEast | Direction::NorthWest => 1,
        Direction::South | Direction::SouthEast | Direction::SouthWest => -1,
        Direction::East | Direction::West => 0,
    }
}

/// File change of one step in direction `d` (east is towards file 7).
pub open spec fn file_step(d: Direction) -> int {
    match d {
        Direction::East | Direction::NorthEast | Direction::SouthEast => 1,
        Direction::West | Direction::NorthWest | Direction::SouthWest => -1,
        Direction::North | Direction::South => 0,
    }
}

pub open spec fn on_board(rank: int, file: int) -> bool {
    0 <= rank < 8 && 0 <= file < 8
}

/// The bitboard holding only square `sq`.
pub open spec fn square_bit(sq: int) -> u64 {
    1u64 << (sq as u64)
}

/// The union of `f(sq)` over the squares `sq < n` that `board` holds.
pub open spec fn union_over(board: u64, f: spec_fn(int) -> u64, n: nat) -> u64
    decreases n,
{
    if n == 0 {
        0
    } else {
        let rest = union_over(board, f, (n - 1) as nat);
        if bit_set(board, n - 1) { rest | f(n - 1) } else { rest }
    }
}

/// The union over the squares of a one-square board is the value at that square.
pub proof fn lemma_union_over_single(k: u64, f: spec_fn(int) -> u64, n: nat)
    requires
        k < 64,
        n <= 64,
    ensures
        union_over(1u64 << k, f, n) == if (k as int) < n { f(k as int) } else { 0u64 },
    decreases n,
{
    if n > 0 {
        let m = (n - 1) as nat;
        lemma_union_over_single(k, f, m);
        lemma_single_bit(k, m as u64);
        lemma_or_identity(f(k as int));
        lemma_or_identity(0u64);
    }
}

/// Union over squares distributes over a square-wise union of four parts.
pub proof fn lemma_union_over_or4(
    board: u64,
    h: spec_fn(int) -> u64,
    f1: spec_fn(int) -> u64,
    f2: spec_fn(int) -> u64,
    f3: spec_fn(int) -> u64,
    f4: spec_fn(int) -> u64,
    n: nat,
)
    requires
        forall|sq: int| #[trigger] h(sq) == f1(sq) | f2(sq) | f3(sq) | f4(sq),
    ensures
        union_over(board, h, n) == union_over(board, f1, n) | union_over(board, f2, n)
            | union_over(board, f3, n) | union_over(board, f4, n),
    decreases n,
{
    if n == 0 {
        lemma_or_identity(0u64);
    } else {
        let m = (n - 1) as nat;
        lemma_union_over_or4(board, h, f1, f2, f3, f4, m);
        if bit_set(board, n - 1) {
            lemma_or_regroup4(union_over(board, f1, m), union_over(board, f2, m), union_over(board, f3, m),
                union_over(board, f4, m), f1(n - 1), f2(n - 1), f3(n - 1), f4(n - 1));
        }
    }
}

/// Union over squares distributes over a square-wise union of two parts.
pub proof fn lemma_union_over_or2(
    board: u64,
    h: spec_fn(int) -> u64,
    f1: spec_fn(int) -> u64,
    f2: spec_fn(int) -> u64,
    n: nat,
)
    requires
        forall|sq: int| #[trigger] h(sq) == f1(sq) | f2(sq),
    ensures
        union_over(board, h, n) == union_over(board, f1, n) | union_over(board, f2, n),
    decreases n,
{
    if n == 0 {
        lemma_or_identity(0u64);
    } else {
        let m = (n - 1) as nat;
        lemma_union_over_or2(board, h, f1, f2, m);
        if bit_set(board, n - 1) {
            lemma_or_regroup4(0, 0, 0, 0, 0, 0, 0, 0);
            lemma_or_regroup4(union_over(board, f1, m), union_over(board, f2, m), 0, 0, f1(n - 1), f2(n - 1), 0, 0);
        }
    }
}

/// The squares a slider on (`rank`, `file`) attacks in direction `d` within
/// `n` steps: each square along the ray, up to and including the first
/// occupied one, stopping at the board edge.
pub open spec fn ray_spec(rank: int, file: int, d: Direction, occupancy: u64, n: nat) -> u64
    decreases n,
{
    let r = rank + rank_step(d);
    let f = file + file_step(d);
    if n == 0 || !on_board(r, f) {
        0
    } else {
        let b = square_bit(r * 8 + f);
        if b & occupancy != 0 {
            b
        } else {
            b | ray_spec(r, f, d, occupancy, (n - 1) as nat)
        }
    }
}

/// The attack set of a slider on `sq` along direction `d`.
pub open spec fn ray_attacks(sq: int, occupancy: u64, d: Direction) -> u64 {
    ray_spec(sq / 8, sq % 8, d, occupancy, 7)
}

/// Squares a rook on `sq` attacks: the four orthogonal rays.
pub open spec fn rook_attacks_spec(sq: int, occupancy: u64) -> u64 {
    ray_attacks(sq, occupancy, Direction::North) | ray_attacks(sq, occupancy, Direction::South)
        | ray_attacks(sq, occupancy, Direction::East) | ray_attacks(sq, occupancy, Direction::West)
}

/// Squares a bishop on `sq` attacks: the four diagonal rays.
pub open spec fn bishop_attacks_spec(sq: int, occupancy: u64) -> u64 {
    ray_attacks(sq, occupancy, Direction::NorthEast) | ray_attacks(sq, occupancy, Direction::NorthWest)
        | ray_attacks(sq, occupancy, Direction::SouthEast) | ray_attacks(sq, occupancy, Direction::SouthWest)
}

/// Squares a queen on `sq` attacks: rook and bishop rays together.
pub open spec fn queen_attacks_spec(sq: int, occupancy: u64) -> u64 {
    rook_attacks_spec(sq, occupancy) | bishop_attacks_spec(sq, occupancy)
}

// ---------------------------------------------------------------------------
// One-square shifts of a whole bitboard, with wrap-around squares removed.
// ---------------------------------------------------------------------------

pub open spec fn north_one(v: u64) -> u64 { v << 8u64 }
pub open spec fn south_one(v: u64) -> u64 { v >> 8u64 }
pub open spec fn east_one(v: u64) -> u64 { (v << 1u64) & 0xFEFEFEFEFEFEFEFEu64 }
pub open spec fn west_one(v: u64) -> u64 { (v >> 1u64) & 0x7F7F7F7F7F7F7F7Fu64 }
pub open spec fn north_east_one(v: u64) -> u64 { (v << 9u64) & 0xFEFEFEFEFEFEFEFEu64 }
pub open spec fn north_west_one(v: u64) -> u64 { (v << 7u64) & 0x7F7F7F7F7F7F7F7Fu64 }
pub open spec fn south_east_one(v: u64) -> u64 { (v >> 7u64) & 0xFEFEFEFEFEFEFEFEu64 }
pub open spec fn south_west_one(v: u64) -> u64 { (v >> 9u64) & 0x7F7F7F7F7F7F7F7Fu64 }

/// Moves every square of `v` one step in direction `d`; squares that would
/// leave the board disappear.
pub open spec fn shift_one(d: Direction, v: u64) -> u64 {
    match d {
        Direction::North => north_one(v),
        Direction::South => south_one(v),
        Direction::East => east_one(v),
        Direction::West => west_one(v),
        Direction::NorthEast => north_east_one(v),
        Direction::NorthWest => north_west_one(v),
        Direction::SouthEast => south_east_one(v),
        Direction::SouthWest => south_west_one(v),
    }
}

/// A ray traced by repeated whole-board shifts: step, add, and stop once the
/// step meets an occupied square.
pub open spec fn shifted_ray(d: Direction, cur: u64, occupancy: u64, n: nat) -> u64
    decreases n,
{
    if n == 0 {
        0
    } else {
        let next = shift_one(d, cur);
        if next & occupancy != 0 {
            next
        } else {
            next | shifted_ray(d, next, occupancy, (n - 1) as nat)
        }
    }
}

/// A ray written out from its consecutive steps, for the bit-vector solver:
/// each step counts, and the ray stops at the first step that is occupied.
pub open spec fn chain2(s1: u64, s2: u64, occ: u64) -> u64 {
    if s1 & occ != 0 { s1 } else { s1 | s2 }
}

pub open spec fn chain3(s1: u64, s2: u64, s3: u64, occ: u64) -> u64 {
    if s1 & occ != 0 { s1 } else { s1 | chain2(s2, s3, occ) }
}

pub open spec fn chain4(s1: u64, s2: u64, s3: u64, s4: u64, occ: u64) -> u64 {
    if s1 & occ != 0 { s1 } else { s1 | chain3(s2, s3, s4, occ) }
}

pub open spec fn chain5(s1: u64, s2: u64, s3: u64, s4: u64, s5: u64, occ: u64) -> u64 {
    if s1 & occ != 0 { s1 } else { s1 | chain4(s2, s3, s4, s5, occ) }
}

pub open spec fn chain6(s1: u64, s2: u64, s3: u64, s4: u64, s5: u64, s6: u64, occ: u64) -> u64 {
    if s1 & occ != 0 { s1 } else { s1 | chain5(s2, s3, s4, s5, s6, occ) }
}

pub open spec fn chain7(s1: u64, s2: u64, s3: u64, s4: u64, s5: u64, s6: u64, s7: u64, occ: u64) -> u64 {
    if s1 & occ != 0 { s1 } else { s1 | chain6(s2, s3, s4, s5, s6, s7, occ) }
}

/// `shifted_ray` over seven steps, written out.
pub proof fn lemma_shifted_ray_chain7(d: Direction, s: u64, occ: u64)
    ensures
        shifted_ray(d, s, occ, 7) == ({
            let s1 = shift_one(d, s);
            let s2 = shift_one(d, s1);
            let s3 = shift_one(d, s2);
            let s4 = shift_one(d, s3);
            let s5 = shift_one(d, s4);
            let s6 = shift_one(d, s5);
            let s7 = shift_one(d, s6);
            chain7(s1, s2, s3, s4, s5, s6, s7, occ)
        }),
{
    reveal_with_fuel(shifted_ray, 8);
    let s7 = shift_one(d, shift_one(d, shift_one(d, shift_one(d, shift_one(d, shift_one(d, shift_one(d, s)))))));
    lemma_or_identity(s7);
}

/// A one-step shift of a single square lands on its neighbour, or vanishes at
/// the board edge; the empty board stays empty.
proof fn lemma_shift_single_square(r: u64, f: u64)
    by (bit_vector)
    requires
        r < 8,
        f < 8,
    ensures
        north_one(1u64 << (r * 8 + f) as u64) == if r < 7 { 1u64 << ((r + 1) * 8 + f) as u64 } else { 0u64 },
        south_one(1u64 << (r * 8 + f) as u64) == if r > 0 { 1u64 << ((r - 1) * 8 + f) as u64 } else { 0u64 },
        east_one(1u64 << (r * 8 + f) as u64) == if f < 7 { 1u64 << (r * 8 + f + 1) as u64 } else { 0u64 },
        west_one(1u64 << (r * 8 + f) as u64) == if f > 0 { 1u64 << (r * 8 + f - 1) as u64 } else { 0u64 },
        north_east_one(1u64 << (r * 8 + f) as u64) == if r < 7 && f < 7 { 1u64 << ((r + 1) * 8 + f + 1) as u64 } else { 0u64 },
        north_west_one(1u64 << (r * 8 + f) as u64) == if r < 7 && f > 0 { 1u64 << ((r + 1) * 8 + f - 1) as u64 } else { 0u64 },
        south_east_one(1u64 << (r * 8 + f) as u64) == if r > 0 && f < 7 { 1u64 << ((r - 1) * 8 + f + 1) as u64 } else { 0u64 },
        south_west_one(1u64 << (r * 8 + f) as u64) == if r > 0 && f > 0 { 1u64 << ((r - 1) * 8 + f - 1) as u64 } else { 0u64 },
        north_one(0u64) == 0u64,
        south_one(0u64) == 0u64,
        east_one(0u64) == 0u64,
        west_one(0u64) == 0u64,
        north_east_one(0u64) == 0u64,
        north_west_one(0u64) == 0u64,
        south_east_one(0u64) == 0u64,
        south_west_one(0u64) == 0u64,
{
}

/// `shift_one` in geometric terms.
pub proof fn lemma_shift_one_square(d: Direction, rank: int, file: int)
    requires
        on_board(rank, file),
    ensures
        shift_one(d, square_bit(rank * 8 + file)) == if on_board(rank + rank_step(d), file + file_step(d)) {
            square_bit((rank + rank_step(d)) * 8 + file + file_step(d))
        } else {
            0u64
        },
        shift_one(d, 0) == 0,
{
    lemma_shift_single_square(rank as u64, file as u64);
}

proof fn lemma_shifted_ray_empty(d: Direction, occ: u64, n: nat)
    ensures
        shifted_ray(d, 0, occ, n) == 0,
    decreases n,
{
    lemma_shift_one_square(d, 0, 0);
    if n > 0 {
        lemma_shifted_ray_empty(d, occ, (n - 1) as nat);
        lemma_or_identity(0u64);
    }
}

/// Tracing a ray by whole-board shifts gives the geometric ray.
pub proof fn lemma_shifted_ray_is_ray(d: Direction, rank: int, file: int, occ: u64, n: nat)
    requires
        on_board(rank, file),
    ensures
        shifted_ray(d, square_bit(rank * 8 + file), occ, n) == ray_spec(rank, file, d, occ, n),
    decreases n,
{
    if n > 0 {
        lemma_shift_one_square(d, rank, file);
        let r = rank + rank_step(d);
        let f = file + file_step(d);
        if on_board(r, f) {
            lemma_shifted_ray_is_ray(d, r, f, occ, (n - 1) as nat);
            assert((r * 8 + f) == (rank + rank_step(d)) * 8 + file + file_step(d));
        } else {
            lemma_shifted_ray_empty(d, occ, (n - 1) as nat);
            lemma_or_identity(occ);
            lemma_or_identity(0u64);
        }
    }
}

/// The attack set along `d` of the slider on `sq`, as a shifted ray.
pub proof fn lemma_ray_attacks_shifted(d: Direction, sq: int, occ: u64)
    requires
        0 <= sq < 64,
    ensures
        ray_attacks(sq, occ, d) == shifted_ray(d, square_bit(sq), occ, 7),
{
    lemma_shifted_ray_is_ray(d, sq / 8, sq % 8, occ, 7);
}

/// The attacks along `d` from square `k`, via the written-out ray.
pub proof fn lemma_ray_chain(d: Direction, k: u64, occ: u64)
    requires
        k < 64,
    ensures
        ray_attacks(k as int, occ, d) == ({
            let s = 1u64 << k;
            let s1 = shift_one(d, s);
            let s2 = shift_one(d, s1);
            let s3 = shift_one(d, s2);
            let s4 = shift_one(d, s3);
            let s5 = shift_one(d, s4);
            let s6 = shift_one(d, s5);
            let s7 = shift_one(d, s6);
            chain7(s1, s2, s3, s4, s5, s6, s7, occ)
        }),
{
    lemma_shifted_ray_chain7(d, 1u64 << k, occ);
    lemma_ray_attacks_shifted(d, k as int, occ);
}

} // verus!
