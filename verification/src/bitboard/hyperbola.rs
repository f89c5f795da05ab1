//! Hyperbola Quintessence sliding attacks: each line through the slider is
//! resolved with one subtraction forwards and one on the bit-reversed board.

use vstd::prelude::*;
use crate::bits::{lemma_bits_extensional, lemma_wrapping_as_truncation, lemma_or_assoc_comm};
use crate::bitboard::geometry::{
    Direction, ray_attacks, chain7, lemma_ray_chain,
    rook_attacks_spec, bishop_attacks_spec, north_one, south_one, east_one, west_one, north_east_one,
    north_west_one, south_east_one, south_west_one,
};
use crate::bitboard::kernel::BitBoardKernel;

verus! {

/// Marker for the Hyperbola Quintessence backend.
#[derive(Debug, Clone, Copy, PartialEq, Eq, Hash)]
pub struct Hyperbola;

/// `x` with its bit order reversed, as a swap network.
pub open spec fn bit_reverse_spec(x: u64) -> u64 {
    let a = ((x >> 1u64) & 0x5555555555555555u64) | ((x & 0x5555555555555555u64) << 1u64);
    let b = ((a >> 2u64) & 0x3333333333333333u64) | ((a & 0x3333333333333333u64) << 2u64);
    let c = ((b >> 4u64) & 0x0F0F0F0F0F0F0F0Fu64) | ((b & 0x0F0F0F0F0F0F0F0Fu64) << 4u64);
    let d = ((c >> 8u64) & 0x00FF00FF00FF00FFu64) | ((c & 0x00FF00FF00FF00FFu64) << 8u64);
    let e = ((d >> 16u64) & 0x0000FFFF0000FFFFu64) | ((d & 0x0000FFFF0000FFFFu64) << 16u64);
    (e >> 32u64) | (e << 32u64)
}

proof fn lemma_bit_reverse_spec(x: u64, i: u64)
    by (bit_vector)
    requires
        i < 64,
    ensures
        (bit_reverse_spec(x) >> i) & 1u64 == (x >> (63 - i) as u64) & 1u64,
{
}

/// Calls `u64::reverse_bits`, which reverses the order of the bits: bit `i`
/// of the result is bit `63 - i` of `x`.
#[verifier::external_body]
fn reverse_bits(x: u64) -> (r: u64)
    ensures
        forall|i: u64| i < 64 ==> #[trigger] ((r >> i) & 1u64) == (x >> (63 - i) as u64) & 1u64,
{
    x.reverse_bits()
}

fn reverse(x: u64) -> (r: u64)
    ensures
        r == bit_reverse_spec(x),
{
    let r = reverse_bits(x);
    proof {
        assert forall|i: u64| i < 64 implies #[trigger] ((r >> i) & 1u64) == ((bit_reverse_spec(x) >> i) & 1u64) by {
            lemma_bit_reverse_spec(x, i);
        }
        lemma_bits_extensional(r, bit_reverse_spec(x));
    }
    r
}

/// No bit of `x` lies in `lo..hi` (for `lo <= hi <= 64`).
pub open spec fn clear_between(x: u64, lo: u64, hi: u64) -> bool {
    (x >> lo) & (if hi - lo >= 64 { 0xFFFF_FFFF_FFFF_FFFFu64 } else { ((1u64 << (hi - lo) as u64) - 1) as u64 }) == 0
}

/// Square `j` is seen from `square` along the line `mask`: it lies on the
/// line, is not the slider itself, and no occupied square of the line lies
/// strictly between the two (in bit order).
pub open spec fn seen_along(square: u64, occupancy: u64, mask: u64, j: u64) -> bool {
    &&& (mask >> j) & 1u64 == 1u64
    &&& j != square
    &&& j > square ==> clear_between(occupancy & mask, (square + 1) as u64, j)
    &&& j < square ==> clear_between(occupancy & mask, (j + 1) as u64, square)
}

/// The subtraction formula, as computed.
pub open spec fn quintessence(square: u64, occupancy: u64, mask: u64) -> u64 {
    let s = 1u64 << square;
    let o = occupancy & mask;
    let forward = ((o - (s * 2) as u64) as u64) ^ o;
    let ro = bit_reverse_spec(o);
    let rs = bit_reverse_spec(s);
    let backward = ((ro - (rs * 2) as u64) as u64) ^ ro;
    ((forward & mask) | (bit_reverse_spec(backward) & mask)) & !s
}

proof fn lemma_quintessence_bit(k: u64, j: u64, occ: u64, mask: u64)
    by (bit_vector)
    requires
        k < 64,
        j < 64,
    ensures
        ((quintessence(k, occ, mask) >> j) & 1u64 == 1u64) == seen_along(k, occ, mask, j),
        (quintessence(k, occ, mask) >> j) & 1u64 == 0u64 || (quintessence(k, occ, mask) >> j) & 1u64 == 1u64,
{
}


/// A word whose bits are exactly the squares seen along `mask` is the
/// subtraction formula.
proof fn lemma_seen_along_determines(square: u64, occ: u64, mask: u64, r: u64)
    requires
        square < 64,
        forall|j: u64| j < 64 ==> (#[trigger] ((r >> j) & 1u64) == 1u64 <==> seen_along(square, occ, mask, j)),
    ensures
        r == quintessence(square, occ, mask),
{
    let q = quintessence(square, occ, mask);
    assert forall|j: u64| j < 64 implies #[trigger] ((r >> j) & 1u64) == ((q >> j) & 1u64) by {
        lemma_quintessence_bit(square, j, occ, mask);
        crate::bits::lemma_bit_facts(r, 0, j, 0);
        assert(((r >> j) & 1u64 == 1u64) == seen_along(square, occ, mask, j));
    }
    lemma_bits_extensional(r, q);
}

/// Generates the sliding attacks along the line `ray_mask` through `square`:
/// forwards by subtracting twice the slider from the line's occupancy, and
/// backwards the same way on the bit-reversed board.
pub fn hyperbola_quintessence(square: u8, occupancy: u64, ray_mask: u64) -> (r: u64)
    requires
        square < 64,
    ensures
        forall|j: u64| j < 64 ==> (#[trigger] ((r >> j) & 1u64) == 1u64
            <==> seen_along(square as u64, occupancy, ray_mask, j)),
{
    let slider = 1u64 << square;
    let o = occupancy & ray_mask;

    // Forward attacks
    let forward = o.wrapping_sub(slider.wrapping_mul(2)) ^ o;

    // Backward attacks (requires bit-reversal)
    let o_rev = reverse(o);
    let slider_rev = reverse(slider);
    let backward = o_rev.wrapping_sub(slider_rev.wrapping_mul(2)) ^ o_rev;

    // Combine and mask to the ray (excluding the slider itself)
    let r = ((forward & ray_mask) | (reverse(backward) & ray_mask)) & !slider;
    proof {
        lemma_wrapping_as_truncation(slider, 2);
        lemma_wrapping_as_truncation(slider_rev, 2);
        lemma_wrapping_as_truncation(o, (slider * 2) as u64);
        lemma_wrapping_as_truncation(o_rev, (slider_rev * 2) as u64);
        assert(r == quintessence(square as u64, occupancy, ray_mask));
        assert forall|j: u64| j < 64 implies (#[trigger] ((r >> j) & 1u64) == 1u64
            <==> seen_along(square as u64, occupancy, ray_mask, j)) by {
            lemma_quintessence_bit(square as u64, j, occupancy, ray_mask);
        }
    }
    r
}

// ---------------------------------------------------------------------------
// The four lines through a square.
// ---------------------------------------------------------------------------

/// The file (column) through square `sq`.
pub open spec fn file_line(sq: u64) -> u64 {
    0x0101010101010101u64 << (sq & 7u64)
}

/// The rank (row) through square `sq`.
pub open spec fn rank_line(sq: u64) -> u64 {
    0xFFu64 << (sq & 56u64)
}

/// The a1-h8 direction diagonal through square `sq`.
pub open spec fn diagonal_line(sq: u64) -> u64 {
    let f = sq & 7u64;
    let r = sq >> 3u64;
    if f >= r {
        0x8040201008040201u64 >> ((f - r) * 8) as u64
    } else {
        0x8040201008040201u64 << ((r - f) * 8) as u64
    }
}

/// The h1-a8 direction anti-diagonal through square `sq`.
pub open spec fn antidiagonal_line(sq: u64) -> u64 {
    let f = sq & 7u64;
    let r = sq >> 3u64;
    if r + f >= 7 {
        0x0102040810204080u64 << ((r + f - 7) * 8) as u64
    } else {
        0x0102040810204080u64 >> ((7 - r - f) * 8) as u64
    }
}

/// The square on file `g` of the diagonal through (`sr`, `sf`), if on the board.
pub open spec fn diagonal_term(sr: u64, sf: u64, g: u64) -> u64 {
    if sr + g >= sf && sr + g - sf < 8 { 1u64 << ((sr + g - sf) * 8 + g) as u64 } else { 0u64 }
}

/// The square on file `g` of the anti-diagonal through (`sr`, `sf`), if on the board.
pub open spec fn antidiagonal_term(sr: u64, sf: u64, g: u64) -> u64 {
    if sr + sf >= g && sr + sf - g < 8 { 1u64 << ((sr + sf - g) * 8 + g) as u64 } else { 0u64 }
}

/// The squares on files `0..f`.
pub open spec fn files_below(f: u64) -> u64 {
    if f == 0 { 0u64 } else { (((1u64 << f) - 1) as u64 * 0x0101010101010101u64) as u64 }
}

proof fn lemma_line_step(sr: u64, sf: u64, f: u64, x: u64)
    by (bit_vector)
    requires
        sr < 8,
        sf < 8,
        f < 8,
    ensures
        diagonal_line((sr * 8 + sf) as u64) & files_below((f + 1) as u64)
            == (diagonal_line((sr * 8 + sf) as u64) & files_below(f)) | diagonal_term(sr, sf, f),
        antidiagonal_line((sr * 8 + sf) as u64) & files_below((f + 1) as u64)
            == (antidiagonal_line((sr * 8 + sf) as u64) & files_below(f)) | antidiagonal_term(sr, sf, f),
        x & files_below(0) == 0u64,
        x & files_below(8) == x,
{
}

proof fn lemma_square_u8(square: u8)
    by (bit_vector)
    requires
        square < 64,
    ensures
        square & 7u8 < 8,
        square & 56u8 < 64,
        (square & 7u8) as u64 == (square as u64) & 7u64,
        (square & 56u8) as u64 == (square as u64) & 56u64,
        (square >> 3u8) as u64 == (square as u64) >> 3u64,
        ((square & 7u8) as u64) < 8,
        ((square >> 3u8) as u64) < 8,
        ((square >> 3u8) as u64) * 8 + ((square & 7u8) as u64) == square as u64,
{
}

fn file_ray(square: u8) -> (r: u64)
    requires
        square < 64,
    ensures
        r == file_line(square as u64),
{
    proof {
        lemma_square_u8(square);
    }
    0x0101010101010101u64 << (square & 7)
}

fn rank_ray(square: u8) -> (r: u64)
    requires
        square < 64,
    ensures
        r == rank_line(square as u64),
{
    proof {
        lemma_square_u8(square);
    }
    0xFFu64 << (square & 56)
}

fn diagonal_ray(square: u8) -> (r: u64)
    requires
        square < 64,
    ensures
        r == diagonal_line(square as u64),
{
    let s_file = (square & 7) as u64;
    let s_rank = (square >> 3) as u64;
    proof {
        lemma_square_u8(square);
        lemma_line_step(0, 0, 0, diagonal_line(square as u64));
    }
    let mut mask = 0u64;
    let mut f = 0u64;
    while f < 8
        invariant
            f <= 8,
            s_file < 8,
            s_rank < 8,
            s_rank * 8 + s_file == square,
            mask == diagonal_line(square as u64) & files_below(f),
        decreases 8 - f,
    {
        proof {
            lemma_line_step(s_rank, s_file, f, 0);
        }
        if s_rank + f >= s_file && s_rank + f - s_file < 8 {
            let r = s_rank + f - s_file;
            mask = mask | (1u64 << (r * 8 + f));
        } else {
            proof {
                crate::bits::lemma_or_identity(mask);
            }
        }
        f = f + 1;
    }
    proof {
        lemma_line_step(0, 0, 0, diagonal_line(square as u64));
    }
    mask
}

fn antidiagonal_ray(square: u8) -> (r: u64)
    requires
        square < 64,
    ensures
        r == antidiagonal_line(square as u64),
{
    let s_file = (square & 7) as u64;
    let s_rank = (square >> 3) as u64;
    proof {
        lemma_square_u8(square);
        lemma_line_step(0, 0, 0, antidiagonal_line(square as u64));
    }
    let mut mask = 0u64;
    let mut f = 0u64;
    while f < 8
        invariant
            f <= 8,
            s_file < 8,
            s_rank < 8,
            s_rank * 8 + s_file == square,
            mask == antidiagonal_line(square as u64) & files_below(f),
        decreases 8 - f,
    {
        proof {
            lemma_line_step(s_rank, s_file, f, 0);
        }
        if s_rank + s_file >= f && s_rank + s_file - f < 8 {
            let r = s_rank + s_file - f;
            mask = mask | (1u64 << (r * 8 + f));
        } else {
            proof {
                crate::bits::lemma_or_identity(mask);
            }
        }
        f = f + 1;
    }
    proof {
        lemma_line_step(0, 0, 0, antidiagonal_line(square as u64));
    }
    mask
}

proof fn lemma_quintessence_rook(k: u64, occ: u64)
    by (bit_vector)
    requires
        k < 64,
    ensures
        quintessence(k, occ, file_line(k)) == chain7(north_one(1u64 << k), north_one(north_one(1u64 << k)), north_one(north_one(north_one(1u64 << k))), north_one(north_one(north_one(north_one(1u64 << k)))), north_one(north_one(north_one(north_one(north_one(1u64 << k))))), north_one(north_one(north_one(north_one(north_one(north_one(1u64 << k)))))), north_one(north_one(north_one(north_one(north_one(north_one(north_one(1u64 << k))))))), occ) | chain7(south_one(1u64 << k), south_one(south_one(1u64 << k)), south_one(south_one(south_one(1u64 << k))), south_one(south_one(south_one(south_one(1u64 << k)))), south_one(south_one(south_one(south_one(south_one(1u64 << k))))), south_one(south_one(south_one(south_one(south_one(south_one(1u64 << k)))))), south_one(south_one(south_one(south_one(south_one(south_one(south_one(1u64 << k))))))), occ),
        quintessence(k, occ, rank_line(k)) == chain7(east_one(1u64 << k), east_one(east_one(1u64 << k)), east_one(east_one(east_one(1u64 << k))), east_one(east_one(east_one(east_one(1u64 << k)))), east_one(east_one(east_one(east_one(east_one(1u64 << k))))), east_one(east_one(east_one(east_one(east_one(east_one(1u64 << k)))))), east_one(east_one(east_one(east_one(east_one(east_one(east_one(1u64 << k))))))), occ) | chain7(west_one(1u64 << k), west_one(west_one(1u64 << k)), west_one(west_one(west_one(1u64 << k))), west_one(west_one(west_one(west_one(1u64 << k)))), west_one(west_one(west_one(west_one(west_one(1u64 << k))))), west_one(west_one(west_one(west_one(west_one(west_one(1u64 << k)))))), west_one(west_one(west_one(west_one(west_one(west_one(west_one(1u64 << k))))))), occ),
{
}

proof fn lemma_quintessence_bishop(k: u64, occ: u64)
    by (bit_vector)
    requires
        k < 64,
    ensures
        quintessence(k, occ, diagonal_line(k)) == chain7(north_east_one(1u64 << k), north_east_one(north_east_one(1u64 << k)), north_east_one(north_east_one(north_east_one(1u64 << k))), north_east_one(north_east_one(north_east_one(north_east_one(1u64 << k)))), north_east_one(north_east_one(north_east_one(north_east_one(north_east_one(1u64 << k))))), north_east_one(north_east_one(north_east_one(north_east_one(north_east_one(north_east_one(1u64 << k)))))), north_east_one(north_east_one(north_east_one(north_east_one(north_east_one(north_east_one(north_east_one(1u64 << k))))))), occ) | chain7(south_west_one(1u64 << k), south_west_one(south_west_one(1u64 << k)), south_west_one(south_west_one(south_west_one(1u64 << k))), south_west_one(south_west_one(south_west_one(south_west_one(1u64 << k)))), south_west_one(south_west_one(south_west_one(south_west_one(south_west_one(1u64 << k))))), south_west_one(south_west_one(south_west_one(south_west_one(south_west_one(south_west_one(1u64 << k)))))), south_west_one(south_west_one(south_west_one(south_west_one(south_west_one(south_west_one(south_west_one(1u64 << k))))))), occ),
        quintessence(k, occ, antidiagonal_line(k)) == chain7(north_west_one(1u64 << k), north_west_one(north_west_one(1u64 << k)), north_west_one(north_west_one(north_west_one(1u64 << k))), north_west_one(north_west_one(north_west_one(north_west_one(1u64 << k)))), north_west_one(north_west_one(north_west_one(north_west_one(north_west_one(1u64 << k))))), north_west_one(north_west_one(north_west_one(north_west_one(north_west_one(north_west_one(1u64 << k)))))), north_west_one(north_west_one(north_west_one(north_west_one(north_west_one(north_west_one(north_west_one(1u64 << k))))))), occ) | chain7(south_east_one(1u64 << k), south_east_one(south_east_one(1u64 << k)), south_east_one(south_east_one(south_east_one(1u64 << k))), south_east_one(south_east_one(south_east_one(south_east_one(1u64 << k)))), south_east_one(south_east_one(south_east_one(south_east_one(south_east_one(1u64 << k))))), south_east_one(south_east_one(south_east_one(south_east_one(south_east_one(south_east_one(1u64 << k)))))), south_east_one(south_east_one(south_east_one(south_east_one(south_east_one(south_east_one(south_east_one(1u64 << k))))))), occ),
{
}

impl BitBoardKernel for Hyperbola {
    fn rook_attacks(square: u8, occupancy: u64) -> (r: u64) {
        let vertical = hyperbola_quintessence(square, occupancy, file_ray(square));
        let horizontal = hyperbola_quintessence(square, occupancy, rank_ray(square));
        proof {
            let k = square as u64;
            lemma_seen_along_determines(k, occupancy, file_line(k), vertical);
            lemma_seen_along_determines(k, occupancy, rank_line(k), horizontal);
            lemma_quintessence_rook(k, occupancy);
            lemma_ray_chain(Direction::North, k, occupancy);
            lemma_ray_chain(Direction::South, k, occupancy);
            lemma_ray_chain(Direction::East, k, occupancy);
            lemma_ray_chain(Direction::West, k, occupancy);
            let n = ray_attacks(k as int, occupancy, Direction::North);
            let s = ray_attacks(k as int, occupancy, Direction::South);
            let e = ray_attacks(k as int, occupancy, Direction::East);
            let w = ray_attacks(k as int, occupancy, Direction::West);
            lemma_or_assoc_comm(n | s, e, w);
        }
        vertical | horizontal
    }

    fn bishop_attacks(square: u8, occupancy: u64) -> (r: u64) {
        let diagonal = hyperbola_quintessence(square, occupancy, diagonal_ray(square));
        let antidiagonal = hyperbola_quintessence(square, occupancy, antidiagonal_ray(square));
        proof {
            let k = square as u64;
            lemma_seen_along_determines(k, occupancy, diagonal_line(k), diagonal);
            lemma_seen_along_determines(k, occupancy, antidiagonal_line(k), antidiagonal);
            lemma_quintessence_bishop(k, occupancy);
            lemma_ray_chain(Direction::NorthEast, k, occupancy);
            lemma_ray_chain(Direction::NorthWest, k, occupancy);
            lemma_ray_chain(Direction::SouthEast, k, occupancy);
            lemma_ray_chain(Direction::SouthWest, k, occupancy);
            let ne = ray_attacks(k as int, occupancy, Direction::NorthEast);
            let nw = ray_attacks(k as int, occupancy, Direction::NorthWest);
            let se = ray_attacks(k as int, occupancy, Direction::SouthEast);
            let sw = ray_attacks(k as int, occupancy, Direction::SouthWest);
            crate::bits::lemma_or_regroup4(ne, sw, nw, se, 0, 0, 0, 0);
            crate::bits::lemma_word_laws(ne, nw, se, 0, 0, 0, 0, sw);
        }
        diagonal | antidiagonal
    }
}


} // verus!
