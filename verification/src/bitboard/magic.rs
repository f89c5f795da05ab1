//! Fancy magic bitboards: sliding attacks looked up in hashed tables.

use vstd::prelude::*;
use vstd::arithmetic::power2::{pow2, lemma_pow2_unfold, lemma_pow2_pos, lemma_pow2_strictly_increases};
use vstd::std_specs::bits::{u64_trailing_zeros, axiom_u64_trailing_zeros};
use crate::bits::{low_mask, lemma_wrapping_as_truncation};
use crate::bitboard::scatter::{
    deposit_from, lemma_deposit_skip, lemma_deposit_agree, lemma_empty_mask, lemma_lowest_step, lemma_or_above,
};
use crate::bitboard::hyperbola::{diagonal_line, antidiagonal_line};
use crate::bitboard::geometry::{
    Direction, chain7, lemma_ray_chain, ray_attacks, rook_attacks_spec, bishop_attacks_spec, queen_attacks_spec, north_one,
    south_one, east_one, west_one, north_east_one, north_west_one, south_east_one, south_west_one,
};
use crate::bitboard::bit_counts::{popcount_spec, swar_byte_counts, lemma_swar_total};
use crate::bitboard::scatter::{
    pext_spec, ones_from, lemma_extract_bound, lemma_pdep_pext, lemma_ones_from_popcount,
};
use crate::bitboard::swar::{attack_ray, step_relation, lemma_swar_ray_pub, SwarUtils};

verus! {

/// Marker for the fancy magic bitboard backend.
#[derive(Debug, Clone, Copy, PartialEq, Eq, Hash)]
pub struct Magic;

/// The squares whose occupancy can block a rook on `sq`: the rest of its rank
/// and file, without the edge squares that end every ray anyway.
pub open spec fn rook_relevant(sq: u64) -> u64 {
    let f = sq & 7u64;
    let r = sq >> 3u64;
    (((0x0101010101010101u64 << f) & 0x00FFFFFFFFFFFF00u64)
        | ((0xFFu64 << (r * 8) as u64) & 0x7E7E7E7E7E7E7E7Eu64)) & !(1u64 << sq)
}

/// The squares whose occupancy can block a bishop on `sq`: its diagonals,
/// without the border squares that end every ray anyway.
pub open spec fn bishop_relevant(sq: u64) -> u64 {
    (diagonal_line(sq) | antidiagonal_line(sq)) & 0x007E7E7E7E7E7E00u64 & !(1u64 << sq)
}

/// The rook squares added after the first `i - 1` loop rounds.
pub open spec fn rook_relevant_upto(r: u64, f: u64, i: u64) -> u64 {
    let ranks = (low_mask((8 * i) as u64) & !0xFFu64) as u64;
    let files = ((((1u64 << i) - 1) as u64 * 0x0101010101010101u64) as u64 & !0x0101010101010101u64) as u64;
    (((0x0101010101010101u64 << f) & ranks) | ((0xFFu64 << (r * 8) as u64) & files)) & !(1u64 << (r * 8 + f) as u64)
}

/// The ranks within distance `i - 1` of rank `r`.
pub open spec fn rank_band(r: u64, i: u64) -> u64 {
    let hi = if r + i >= 8 { 0xFFFF_FFFF_FFFF_FFFFu64 } else { ((1u64 << (8 * (r + i)) as u64) - 1) as u64 };
    let lo = if i > r { 0u64 } else { ((1u64 << (8 * (r - i + 1)) as u64) - 1) as u64 };
    hi & !lo
}

proof fn lemma_rook_relevant_step(r: u64, f: u64, i: u64)
    by (bit_vector)
    requires
        r < 8,
        f < 8,
        1 <= i < 7,
    ensures
        rook_relevant_upto(r, f, 1) == 0u64,
        rook_relevant_upto(r, f, (i + 1) as u64) == (rook_relevant_upto(r, f, i)
            | (if i != r { 1u64 << (i * 8 + f) as u64 } else { 0u64 })
            | (if i != f { 1u64 << (r * 8 + i) as u64 } else { 0u64 })),
        rook_relevant_upto(r, f, 7) == rook_relevant((r * 8 + f) as u64),
{
}

proof fn lemma_bishop_relevant_step(r: u64, f: u64, i: u64)
    by (bit_vector)
    requires
        r < 8,
        f < 8,
        1 <= i < 7,
    ensures
        bishop_relevant((r * 8 + f) as u64) & rank_band(r, 1) == 0u64,
        bishop_relevant((r * 8 + f) as u64) & rank_band(r, (i + 1) as u64) == ((bishop_relevant((r * 8 + f) as u64) & rank_band(r, i))
            | (if r + i < 7 && f + i < 7 { 1u64 << ((r + i) * 8 + f + i) as u64 } else { 0u64 })
            | (if r + i < 7 && f > i { 1u64 << ((r + i) * 8 + f - i) as u64 } else { 0u64 })
            | (if r > i && f + i < 7 { 1u64 << ((r - i) * 8 + f + i) as u64 } else { 0u64 })
            | (if r > i && f > i { 1u64 << ((r - i) * 8 + f - i) as u64 } else { 0u64 })),
        bishop_relevant((r * 8 + f) as u64) & rank_band(r, 7) == bishop_relevant((r * 8 + f) as u64),
{
}

proof fn lemma_square_u8(square: u8)
    by (bit_vector)
    requires
        square < 64,
    ensures
        ((square / 8) as u64) < 8,
        ((square % 8) as u64) < 8,
        (square / 8) as u64 * 8 + (square % 8) as u64 == square as u64,
{
}

/// Builds the rook occupancy mask of `sq`: its rank and file without the
/// edge squares and without `sq` itself.
pub fn rook_mask(sq: u8) -> (mask: u64)
    requires
        sq < 64,
    ensures
        mask == rook_relevant(sq as u64),
{
    let mut mask = 0u64;
    let r = (sq / 8) as u64;
    let f = (sq % 8) as u64;
    proof {
        lemma_square_u8(sq);
        lemma_rook_relevant_step(r, f, 1);
    }
    let mut i: u64 = 1;
    while i < 7
        invariant
            1 <= i <= 7,
            r < 8,
            f < 8,
            r * 8 + f == sq,
            mask == rook_relevant_upto(r, f, i),
        decreases 7 - i,
    {
        proof {
            lemma_rook_relevant_step(r, f, i);
            crate::bits::lemma_or_identity(mask);
        }
        let ghost before = mask;
        if i != r {
            mask |= 1u64 << (i * 8 + f);
        }
        let ghost middle = mask;
        if i != f {
            mask |= 1u64 << (r * 8 + i);
        }
        proof {
            crate::bits::lemma_or_identity(middle);
        }
        i += 1;
    }
    proof {
        lemma_rook_relevant_step(r, f, 1);
    }
    mask
}

/// Builds the bishop occupancy mask of `sq`: its diagonals without the
/// border squares and without `sq` itself.
pub fn bishop_mask(sq: u8) -> (mask: u64)
    requires
        sq < 64,
    ensures
        mask == bishop_relevant(sq as u64),
{
    let mut mask = 0u64;
    let r = (sq / 8) as u64;
    let f = (sq % 8) as u64;
    proof {
        lemma_square_u8(sq);
        lemma_bishop_relevant_step(r, f, 1);
    }
    let mut i: u64 = 1;
    while i < 7
        invariant
            1 <= i <= 7,
            r < 8,
            f < 8,
            r * 8 + f == sq,
            mask == bishop_relevant(sq as u64) & rank_band(r, i),
        decreases 7 - i,
    {
        proof {
            lemma_bishop_relevant_step(r, f, i);
        }
        let ghost m0 = mask;
        let ne = if r + i < 7 && f + i < 7 { 1u64 << ((r + i) * 8 + f + i) } else { 0 };
        let nw = if r + i < 7 && f > i { 1u64 << ((r + i) * 8 + f - i) } else { 0 };
        let se = if r > i && f + i < 7 { 1u64 << ((r - i) * 8 + f + i) } else { 0 };
        let sw = if r > i && f > i { 1u64 << ((r - i) * 8 + f - i) } else { 0 };
        if ne != 0 {
            mask |= ne;
        }
        if nw != 0 {
            mask |= nw;
        }
        if se != 0 {
            mask |= se;
        }
        if sw != 0 {
            mask |= sw;
        }
        proof {
            lemma_or_zero_chain(m0, ne, nw, se, sw);
        }
        i += 1;
    }
    proof {
        lemma_bishop_relevant_step(r, f, 1);
    }
    mask
}

/// ORing in only the nonzero ones of four words is ORing in all four.
proof fn lemma_or_zero_chain(m: u64, a: u64, b: u64, c: u64, d: u64)
    by (bit_vector)
    ensures
        ({
            let m1 = if a != 0 { m | a } else { m };
            let m2 = if b != 0 { m1 | b } else { m1 };
            let m3 = if c != 0 { m2 | c } else { m2 };
            let m4 = if d != 0 { m3 | d } else { m3 };
            m4 == m | a | b | c | d
        }),
{
}

/// Generates the occupancy pattern numbered `index` for `mask`: the low bits
/// of `index` placed, lowest first, at the squares of `mask`.
pub(crate) fn get_occupancy(index: usize, mask: u64) -> (occupancy: u64)
    ensures
        occupancy as nat == deposit_from(index as nat, mask, 0),
{
    let mut occupancy = 0u64;
    let mut m = mask;
    let mut i = index;
    let ghost mut pos: nat = 0;
    proof {
        lemma_pow2_pos(0);
        vstd::arithmetic::power2::lemma2_to64();
        crate::bits::lemma_low_mask_step(m, 0);
    }
    while m != 0
        invariant
            pos <= 64,
            m & low_mask(pos as u64) == 0,
            deposit_from(index as nat, mask, 0) == occupancy + deposit_from(i as nat, m, pos),
            occupancy < pow2(pos),
        decreases 64 - pos,
    {
        let ghost m0 = m;
        let ghost t = u64_trailing_zeros(m0) as u64;
        proof {
            axiom_u64_trailing_zeros(m0);
            lemma_wrapping_as_truncation(0, m0);
            lemma_lowest_step(m0, t, pos as u64, 0);
            lemma_deposit_skip(i as nat, m0, pos, t as nat);
            assert forall|k: u64| t + 1 <= k < 64 implies #[trigger] (((m0 ^ (1u64 << t)) >> k) & 1u64)
                == ((m0 >> k) & 1u64) by {
                lemma_lowest_step(m0, t, pos as u64, k);
            }
            lemma_deposit_agree(i as nat / 2, m0 ^ (1u64 << t), m0, t as nat + 1);
            vstd::bits::lemma_u64_pow2_no_overflow(t as nat);
            vstd::bits::lemma_u64_shl_is_mul(1, t);
            if pos < t {
                lemma_pow2_strictly_increases(pos, t as nat);
            }
            lemma_or_above(occupancy, t, i as u64, 0);
            lemma_pow2_unfold(t as nat + 1);
        }
        let lsb = m & m.wrapping_neg();
        m ^= lsb;
        if (i & 1) != 0 {
            occupancy |= lsb;
        }
        i >>= 1;
        proof {
            pos = t as nat + 1;
        }
    }
    proof {
        lemma_empty_mask(0, i as nat, pos);
    }
    occupancy
}

pub const ROOK_MAGICS: [u64; 64] = [
    612507691268440096u64,
    612507278951579776u64,
    72092778695245832u64,
    13907124514132861184u64,
    36037595259731970u64,
    4683752412853567490u64,
    144116304901620224u64,
    72064193267807488u64,
    422213022908800u64,
    2324420636851601920u64,
    5066833117843584u64,
    18437160864616448u64,
    1191905823245468288u64,
    73746496243761160u64,
    217298750773725188u64,
    1162491709658234966u64,
    18014948810555456u64,
    360571644730802304u64,
    4503737068946432u64,
    1154057300386783488u64,
    2252351717508096u64,
    2306969184032063552u64,
    722409925791711888u64,
    8070457129321923844u64,
    140881369776129u64,
    2305930988397535232u64,
    727366526348300288u64,
    2882338984544960769u64,
    2314854612957921664u64,
    1226109398745743488u64,
    18016614716868624u64,
    3940933141856388u64,
    70438008914056u64,
    1441292755694272521u64,
    13935298335742103616u64,
    650771245936148992u64,
    8800404767760u64,
    4611826764514067456u64,
    18304738365800706u64,
    2392641597604096u64,
    18014675537002496u64,
    72708505458589696u64,
    2306124621734543376u64,
    7318633399844880u64,
    288239172530012164u64,
    1125908513570880u64,
    423793149607938u64,
    72128522269097987u64,
    5080060654553923648u64,
    108368149504100864u64,
    9228018641916657792u64,
    621506644450222336u64,
    1155173871364606080u64,
    288934080773488768u64,
    11530377299149456384u64,
    6918392146485592576u64,
    88510740570371u64,
    5782639788609832065u64,
    144396738350809281u64,
    157913028229072929u64,
    5765170767461884162u64,
    562954517088258u64,
    2307021690107888132u64,
    2815026809283586u64,
];

pub const BISHOP_MAGICS: [u64; 64] = [
    2900320361214181632u64,
    4521240153325862u64,
    307415763168788480u64,
    577591189911371776u64,
    9307640807030792u64,
    299076021126434u64,
    4648803916316672u64,
    8368260145767256068u64,
    297246444856279360u64,
    9295447291819266081u64,
    4416308641792u64,
    81073727902580769u64,
    720580351445188672u64,
    2314992114330763778u64,
    5718564289912896u64,
    612666572850601984u64,
    18159602805933060u64,
    94575605329300608u64,
    2778721004624613648u64,
    2251853534609920u64,
    9259682319860499464u64,
    72198366053867524u64,
    4612249038727946256u64,
    2311648435029673024u64,
    297246406417580304u64,
    2253998907228672u64,
    1127016866841633u64,
    4644474689028384u64,
    3207833970406400000u64,
    142938675888640u64,
    2265548827396352u64,
    369437041106157696u64,
    608023367451217920u64,
    9224515546128126208u64,
    126127195025834048u64,
    70403640918528u64,
    657526662304433160u64,
    155391783633690752u64,
    18586217575221400u64,
    595040317506339856u64,
    2451251326177329220u64,
    2305915887359631364u64,
    288511954241199106u64,
    4611690700075958400u64,
    316745583693888u64,
    6926537335024648708u64,
    5480885148919529568u64,
    16141208930453029254u64,
    2883465404411281498u64,
    576976457634414720u64,
    986410176759168u64,
    702579169524056576u64,
    4693455495865565184u64,
    90297529081856u64,
    4618466725024890896u64,
    580965460101579777u64,
    2305988728998461956u64,
    565254270747148u64,
    9223372451327787272u64,
    72057733633020163u64,
    1127034055164428u64,
    5225583234828469520u64,
    904169302867347712u64,
    2612237321755557952u64,
];


/// Blockers outside the relevant squares never change a slider's rays.
#[verifier::rlimit(100)]
proof fn lemma_relevant_rook_rays(k: u64, occ: u64)
    by (bit_vector)
    requires
        k < 64,
    ensures
        chain7(north_one(1u64 << k), north_one(north_one(1u64 << k)), north_one(north_one(north_one(1u64 << k))), north_one(north_one(north_one(north_one(1u64 << k)))), north_one(north_one(north_one(north_one(north_one(1u64 << k))))), north_one(north_one(north_one(north_one(north_one(north_one(1u64 << k)))))), north_one(north_one(north_one(north_one(north_one(north_one(north_one(1u64 << k))))))), occ & rook_relevant(k)) == chain7(north_one(1u64 << k), north_one(north_one(1u64 << k)), north_one(north_one(north_one(1u64 << k))), north_one(north_one(north_one(north_one(1u64 << k)))), north_one(north_one(north_one(north_one(north_one(1u64 << k))))), north_one(north_one(north_one(north_one(north_one(north_one(1u64 << k)))))), north_one(north_one(north_one(north_one(north_one(north_one(north_one(1u64 << k))))))), occ),
        chain7(south_one(1u64 << k), south_one(south_one(1u64 << k)), south_one(south_one(south_one(1u64 << k))), south_one(south_one(south_one(south_one(1u64 << k)))), south_one(south_one(south_one(south_one(south_one(1u64 << k))))), south_one(south_one(south_one(south_one(south_one(south_one(1u64 << k)))))), south_one(south_one(south_one(south_one(south_one(south_one(south_one(1u64 << k))))))), occ & rook_relevant(k)) == chain7(south_one(1u64 << k), south_one(south_one(1u64 << k)), south_one(south_one(south_one(1u64 << k))), south_one(south_one(south_one(south_one(1u64 << k)))), south_one(south_one(south_one(south_one(south_one(1u64 << k))))), south_one(south_one(south_one(south_one(south_one(south_one(1u64 << k)))))), south_one(south_one(south_one(south_one(south_one(south_one(south_one(1u64 << k))))))), occ),
        chain7(east_one(1u64 << k), east_one(east_one(1u64 << k)), east_one(east_one(east_one(1u64 << k))), east_one(east_one(east_one(east_one(1u64 << k)))), east_one(east_one(east_one(east_one(east_one(1u64 << k))))), east_one(east_one(east_one(east_one(east_one(east_one(1u64 << k)))))), east_one(east_one(east_one(east_one(east_one(east_one(east_one(1u64 << k))))))), occ & rook_relevant(k)) == chain7(east_one(1u64 << k), east_one(east_one(1u64 << k)), east_one(east_one(east_one(1u64 << k))), east_one(east_one(east_one(east_one(1u64 << k)))), east_one(east_one(east_one(east_one(east_one(1u64 << k))))), east_one(east_one(east_one(east_one(east_one(east_one(1u64 << k)))))), east_one(east_one(east_one(east_one(east_one(east_one(east_one(1u64 << k))))))), occ),
        chain7(west_one(1u64 << k), west_one(west_one(1u64 << k)), west_one(west_one(west_one(1u64 << k))), west_one(west_one(west_one(west_one(1u64 << k)))), west_one(west_one(west_one(west_one(west_one(1u64 << k))))), west_one(west_one(west_one(west_one(west_one(west_one(1u64 << k)))))), west_one(west_one(west_one(west_one(west_one(west_one(west_one(1u64 << k))))))), occ & rook_relevant(k)) == chain7(west_one(1u64 << k), west_one(west_one(1u64 << k)), west_one(west_one(west_one(1u64 << k))), west_one(west_one(west_one(west_one(1u64 << k)))), west_one(west_one(west_one(west_one(west_one(1u64 << k))))), west_one(west_one(west_one(west_one(west_one(west_one(1u64 << k)))))), west_one(west_one(west_one(west_one(west_one(west_one(west_one(1u64 << k))))))), occ),
{
}

#[verifier::rlimit(100)]
proof fn lemma_relevant_bishop_rays(k: u64, occ: u64)
    by (bit_vector)
    requires
        k < 64,
    ensures
        chain7(north_east_one(1u64 << k), north_east_one(north_east_one(1u64 << k)), north_east_one(north_east_one(north_east_one(1u64 << k))), north_east_one(north_east_one(north_east_one(north_east_one(1u64 << k)))), north_east_one(north_east_one(north_east_one(north_east_one(north_east_one(1u64 << k))))), north_east_one(north_east_one(north_east_one(north_east_one(north_east_one(north_east_one(1u64 << k)))))), north_east_one(north_east_one(north_east_one(north_east_one(north_east_one(north_east_one(north_east_one(1u64 << k))))))), occ & bishop_relevant(k)) == chain7(north_east_one(1u64 << k), north_east_one(north_east_one(1u64 << k)), north_east_one(north_east_one(north_east_one(1u64 << k))), north_east_one(north_east_one(north_east_one(north_east_one(1u64 << k)))), north_east_one(north_east_one(north_east_one(north_east_one(north_east_one(1u64 << k))))), north_east_one(north_east_one(north_east_one(north_east_one(north_east_one(north_east_one(1u64 << k)))))), north_east_one(north_east_one(north_east_one(north_east_one(north_east_one(north_east_one(north_east_one(1u64 << k))))))), occ),
        chain7(north_west_one(1u64 << k), north_west_one(north_west_one(1u64 << k)), north_west_one(north_west_one(north_west_one(1u64 << k))), north_west_one(north_west_one(north_west_one(north_west_one(1u64 << k)))), north_west_one(north_west_one(north_west_one(north_west_one(north_west_one(1u64 << k))))), north_west_one(north_west_one(north_west_one(north_west_one(north_west_one(north_west_one(1u64 << k)))))), north_west_one(north_west_one(north_west_one(north_west_one(north_west_one(north_west_one(north_west_one(1u64 << k))))))), occ & bishop_relevant(k)) == chain7(north_west_one(1u64 << k), north_west_one(north_west_one(1u64 << k)), north_west_one(north_west_one(north_west_one(1u64 << k))), north_west_one(north_west_one(north_west_one(north_west_one(1u64 << k)))), north_west_one(north_west_one(north_west_one(north_west_one(north_west_one(1u64 << k))))), north_west_one(north_west_one(north_west_one(north_west_one(north_west_one(north_west_one(1u64 << k)))))), north_west_one(north_west_one(north_west_one(north_west_one(north_west_one(north_west_one(north_west_one(1u64 << k))))))), occ),
        chain7(south_east_one(1u64 << k), south_east_one(south_east_one(1u64 << k)), south_east_one(south_east_one(south_east_one(1u64 << k))), south_east_one(south_east_one(south_east_one(south_east_one(1u64 << k)))), south_east_one(south_east_one(south_east_one(south_east_one(south_east_one(1u64 << k))))), south_east_one(south_east_one(south_east_one(south_east_one(south_east_one(south_east_one(1u64 << k)))))), south_east_one(south_east_one(south_east_one(south_east_one(south_east_one(south_east_one(south_east_one(1u64 << k))))))), occ & bishop_relevant(k)) == chain7(south_east_one(1u64 << k), south_east_one(south_east_one(1u64 << k)), south_east_one(south_east_one(south_east_one(1u64 << k))), south_east_one(south_east_one(south_east_one(south_east_one(1u64 << k)))), south_east_one(south_east_one(south_east_one(south_east_one(south_east_one(1u64 << k))))), south_east_one(south_east_one(south_east_one(south_east_one(south_east_one(south_east_one(1u64 << k)))))), south_east_one(south_east_one(south_east_one(south_east_one(south_east_one(south_east_one(south_east_one(1u64 << k))))))), occ),
        chain7(south_west_one(1u64 << k), south_west_one(south_west_one(1u64 << k)), south_west_one(south_west_one(south_west_one(1u64 << k))), south_west_one(south_west_one(south_west_one(south_west_one(1u64 << k)))), south_west_one(south_west_one(south_west_one(south_west_one(south_west_one(1u64 << k))))), south_west_one(south_west_one(south_west_one(south_west_one(south_west_one(south_west_one(1u64 << k)))))), south_west_one(south_west_one(south_west_one(south_west_one(south_west_one(south_west_one(south_west_one(1u64 << k))))))), occ & bishop_relevant(k)) == chain7(south_west_one(1u64 << k), south_west_one(south_west_one(1u64 << k)), south_west_one(south_west_one(south_west_one(1u64 << k))), south_west_one(south_west_one(south_west_one(south_west_one(1u64 << k)))), south_west_one(south_west_one(south_west_one(south_west_one(south_west_one(1u64 << k))))), south_west_one(south_west_one(south_west_one(south_west_one(south_west_one(south_west_one(1u64 << k)))))), south_west_one(south_west_one(south_west_one(south_west_one(south_west_one(south_west_one(south_west_one(1u64 << k))))))), occ),
{
}

/// Only the relevant squares' occupancy matters to a slider's attacks.
pub proof fn lemma_relevant_occupancy(sq: u64, occ: u64)
    requires
        sq < 64,
    ensures
        rook_attacks_spec(sq as int, occ & rook_relevant(sq)) == rook_attacks_spec(sq as int, occ),
        bishop_attacks_spec(sq as int, occ & bishop_relevant(sq)) == bishop_attacks_spec(sq as int, occ),
{
    lemma_relevant_rook_rays(sq, occ);
    lemma_relevant_bishop_rays(sq, occ);
    let ro = occ & rook_relevant(sq);
    let bo = occ & bishop_relevant(sq);
    lemma_ray_chain(Direction::North, sq, ro);
    lemma_ray_chain(Direction::South, sq, ro);
    lemma_ray_chain(Direction::East, sq, ro);
    lemma_ray_chain(Direction::West, sq, ro);
    lemma_ray_chain(Direction::North, sq, occ);
    lemma_ray_chain(Direction::South, sq, occ);
    lemma_ray_chain(Direction::East, sq, occ);
    lemma_ray_chain(Direction::West, sq, occ);
    lemma_ray_chain(Direction::NorthEast, sq, bo);
    lemma_ray_chain(Direction::NorthWest, sq, bo);
    lemma_ray_chain(Direction::SouthEast, sq, bo);
    lemma_ray_chain(Direction::SouthWest, sq, bo);
    lemma_ray_chain(Direction::NorthEast, sq, occ);
    lemma_ray_chain(Direction::NorthWest, sq, occ);
    lemma_ray_chain(Direction::SouthEast, sq, occ);
    lemma_ray_chain(Direction::SouthWest, sq, occ);
}

proof fn lemma_relevant_popcount_bv(sq: u64)
    by (bit_vector)
    requires
        sq < 64,
    ensures
        1 <= ((swar_byte_counts(rook_relevant(sq)) * 0x0101010101010101u64) as u64) >> 56u64 <= 12,
        1 <= ((swar_byte_counts(bishop_relevant(sq)) * 0x0101010101010101u64) as u64) >> 56u64 <= 9,
{
}

/// A rook has between one and twelve relevant squares, a bishop between one
/// and nine.
pub proof fn lemma_relevant_popcount(sq: u64)
    requires
        sq < 64,
    ensures
        1 <= popcount_spec(rook_relevant(sq)) <= 12,
        1 <= popcount_spec(bishop_relevant(sq)) <= 9,
{
    lemma_relevant_popcount_bv(sq);
    lemma_swar_total(rook_relevant(sq));
    lemma_swar_total(bishop_relevant(sq));
}


// ---------------------------------------------------------------------------
// Shifts used to trace the attacks stored in the tables.
// ---------------------------------------------------------------------------

fn shift_n(v: u64) -> (r: u64)
    ensures r == north_one(v),
{
    v << 8u64
}

fn shift_s(v: u64) -> (r: u64)
    ensures r == south_one(v),
{
    v >> 8u64
}

fn shift_e(v: u64) -> (r: u64)
    ensures r == east_one(v),
{
    (v << 1u64) & 0xFEFEFEFEFEFEFEFEu64
}

fn shift_w(v: u64) -> (r: u64)
    ensures r == west_one(v),
{
    (v >> 1u64) & 0x7F7F7F7F7F7F7F7Fu64
}

fn shift_ne(v: u64) -> (r: u64)
    ensures r == north_east_one(v),
{
    (v << 9u64) & 0xFEFEFEFEFEFEFEFEu64
}

fn shift_nw(v: u64) -> (r: u64)
    ensures r == north_west_one(v),
{
    (v << 7u64) & 0x7F7F7F7F7F7F7F7Fu64
}

fn shift_se(v: u64) -> (r: u64)
    ensures r == south_east_one(v),
{
    (v >> 7u64) & 0xFEFEFEFEFEFEFEFEu64
}

fn shift_sw(v: u64) -> (r: u64)
    ensures r == south_west_one(v),
{
    (v >> 9u64) & 0x7F7F7F7F7F7F7F7Fu64
}

// ---------------------------------------------------------------------------
// What the tables hold.
// ---------------------------------------------------------------------------

/// The two sliding pieces that have magic tables.
#[derive(Debug, Clone, Copy, PartialEq, Eq)]
pub enum Slider {
    Rook,
    Bishop,
}

pub open spec fn relevant(p: Slider, sq: int) -> u64 {
    match p {
        Slider::Rook => rook_relevant(sq as u64),
        Slider::Bishop => bishop_relevant(sq as u64),
    }
}

pub open spec fn slider_attacks(p: Slider, sq: int, occ: u64) -> u64 {
    match p {
        Slider::Rook => rook_attacks_spec(sq, occ),
        Slider::Bishop => bishop_attacks_spec(sq, occ),
    }
}

pub open spec fn magic_of(p: Slider, sq: int) -> u64 {
    match p {
        Slider::Rook => ROOK_MAGICS@[sq],
        Slider::Bishop => BISHOP_MAGICS@[sq],
    }
}

/// The number of relevant squares: each square's table has `2^count` slots.
pub open spec fn relevant_count(p: Slider, sq: int) -> nat {
    popcount_spec(relevant(p, sq))
}

/// The occupancy pattern numbered `idx` over the relevant squares.
pub open spec fn pattern(p: Slider, sq: int, idx: nat) -> u64 {
    deposit_from(idx, relevant(p, sq), 0) as u64
}

/// The table slot an occupancy hashes to: the top `count` bits of the
/// wrapping product with the square's magic number.
pub open spec fn magic_hash(p: Slider, sq: int, occ: u64) -> nat {
    (occ.wrapping_mul(magic_of(p, sq)) >> ((64 - relevant_count(p, sq)) as u64)) as nat
}

/// The slot `h` of square `sq` after the first `n` patterns were stored: the
/// attacks of the last pattern among them that hashes to `h`, or empty.
pub open spec fn slot(p: Slider, sq: int, h: nat, n: nat) -> u64
    decreases n,
{
    if n == 0 {
        0
    } else if magic_hash(p, sq, pattern(p, sq, (n - 1) as nat)) == h {
        slider_attacks(p, sq, pattern(p, sq, (n - 1) as nat))
    } else {
        slot(p, sq, h, (n - 1) as nat)
    }
}

/// One more stored pattern changes only the slot it hashes to.
proof fn lemma_slot_step(p: Slider, sq: int, h: nat, n: nat)
    ensures
        slot(p, sq, h, n + 1) == if magic_hash(p, sq, pattern(p, sq, n)) == h {
            slider_attacks(p, sq, pattern(p, sq, n))
        } else {
            slot(p, sq, h, n)
        },
{
}

/// Where the table of square `sq` starts: the sizes of the tables before it.
pub open spec fn table_offset(p: Slider, sq: nat) -> nat
    decreases sq,
{
    if sq == 0 {
        0
    } else {
        table_offset(p, (sq - 1) as nat) + pow2(relevant_count(p, sq - 1))
    }
}

/// The magic number of `sq` sends every occupancy pattern to a slot that
/// holds that pattern's attacks.
pub open spec fn magic_sound(p: Slider, sq: int) -> bool {
    forall|idx: nat| idx < pow2(relevant_count(p, sq)) ==>
        #[trigger] slot(p, sq, magic_hash(p, sq, pattern(p, sq, idx)), pow2(relevant_count(p, sq)))
            == slider_attacks(p, sq, pattern(p, sq, idx))
}

proof fn lemma_table_offset_bounds(p: Slider, a: nat, b: nat)
    requires
        a <= b <= 64,
    ensures
        table_offset(p, a) <= table_offset(p, b),
        a < b ==> table_offset(p, a) + pow2(relevant_count(p, a as int)) <= table_offset(p, b),
        table_offset(p, b) <= b * 4096,
    decreases b,
{
    if b > 0 {
        lemma_relevant_popcount((b - 1) as u64);
        lemma_pow_le_4096(relevant_count(p, b - 1));
        if a < b {
            lemma_table_offset_bounds(p, a, (b - 1) as nat);
        } else {
            lemma_table_offset_bounds(p, (b - 1) as nat, (b - 1) as nat);
        }
    }
}

proof fn lemma_pow_le_4096(n: nat)
    requires
        n <= 12,
    ensures
        pow2(n) <= 4096,
        pow2(n) >= 1,
{
    vstd::arithmetic::power2::lemma2_to64();
    if n < 12 {
        lemma_pow2_strictly_increases(n, 12);
    }
}

/// The top `pop` bits of a word, as a number, are below `2^pop`.
proof fn lemma_hash_in_range(x: u64, pop: u64)
    by (bit_vector)
    requires
        1 <= pop <= 12,
    ensures
        (x >> ((64 - pop) as u64)) < (1u64 << pop),
{
}

/// `1 << pop` is `2^pop` for the table sizes in use.
proof fn lemma_table_size(pop: u64)
    requires
        pop <= 12,
    ensures
        (1u64 << pop) as nat == pow2(pop as nat),
        pow2(pop as nat) <= 4096,
        pow2(pop as nat) >= 1,
{
    vstd::bits::lemma_u64_pow2_no_overflow(pop as nat);
    vstd::bits::lemma_u64_shl_is_mul(1, pop);
    lemma_pow_le_4096(pop as nat);
}

/// Every magic number, rook and bishop, of every square is sound.
pub open spec fn all_magics_sound() -> bool {
    &&& forall|sq: int| 0 <= sq < 64 ==> #[trigger] magic_sound(Slider::Rook, sq)
    &&& forall|sq: int| 0 <= sq < 64 ==> #[trigger] magic_sound(Slider::Bishop, sq)
}

/// The built tables: one run of slots per square, indexed by the magic hash
/// of the relevant occupancy.
struct MagicData {
    rook_table: Vec<u64>,
    bishop_table: Vec<u64>,
    rook_offsets: Vec<usize>,
    bishop_offsets: Vec<usize>,
    rook_magics: [u64; 64],
    bishop_magics: [u64; 64],
}

impl MagicData {
    closed spec fn table(self, p: Slider) -> Seq<u64> {
        match p {
            Slider::Rook => self.rook_table@,
            Slider::Bishop => self.bishop_table@,
        }
    }

    closed spec fn offsets(self, p: Slider) -> Seq<usize> {
        match p {
            Slider::Rook => self.rook_offsets@,
            Slider::Bishop => self.bishop_offsets@,
        }
    }

    closed spec fn magics(self, p: Slider) -> Seq<u64> {
        match p {
            Slider::Rook => self.rook_magics@,
            Slider::Bishop => self.bishop_magics@,
        }
    }

    /// Slot `h` of the table of square `sq` for piece `p`.
    pub closed spec fn slot_value(self, p: Slider, sq: int, h: nat) -> u64 {
        self.table(p)[(table_offset(p, sq as nat) + h) as int]
    }

    /// The tables of one piece are laid out and filled as the construction
    /// prescribes.
    closed spec fn piece_wf(self, p: Slider) -> bool {
        &&& self.offsets(p).len() == 64
        &&& self.magics(p).len() == 64
        &&& forall|sq: int| 0 <= sq < 64 ==> #[trigger] self.offsets(p)[sq] == table_offset(p, sq as nat)
        &&& forall|sq: int| 0 <= sq < 64 ==> #[trigger] self.magics(p)[sq] == magic_of(p, sq)
        &&& self.table(p).len() == table_offset(p, 64)
        &&& forall|sq: int, h: nat| 0 <= sq < 64 && h < pow2(relevant_count(p, sq)) ==>
            #[trigger] slot(p, sq, h, pow2(relevant_count(p, sq))) == self.slot_value(p, sq, h)
    }

    #[verifier::type_invariant]
    closed spec fn wf(self) -> bool {
        self.piece_wf(Slider::Rook) && self.piece_wf(Slider::Bishop)
    }

    /// Builds both tables: every occupancy pattern of every square's relevant
    /// squares is traced ray by ray and stored at the slot it hashes to.
    fn build() -> (t: MagicData)
        ensures
            forall|p: Slider, sq: int, h: nat| 0 <= sq < 64 && h < pow2(relevant_count(p, sq)) ==>
                #[trigger] t.slot_value(p, sq, h) == slot(p, sq, h, pow2(relevant_count(p, sq))),
    {
        let (rook_offsets, rook_total) = table_layout(Slider::Rook);
        let (bishop_offsets, bishop_total) = table_layout(Slider::Bishop);
        let mut rook_table = vec![0u64; rook_total];
        let mut bishop_table = vec![0u64; bishop_total];
        fill_tables(Slider::Rook, &mut rook_table, &rook_offsets);
        fill_tables(Slider::Bishop, &mut bishop_table, &bishop_offsets);
        MagicData {
            rook_table,
            bishop_table,
            rook_offsets,
            bishop_offsets,
            rook_magics: ROOK_MAGICS,
            bishop_magics: BISHOP_MAGICS,
        }
    }

    /// The slot that `key` hashes to in the table of square `square`.
    fn stored_slot(&self, p: Slider, square: u8, key: u64) -> (r: u64)
        requires
            square < 64,
        ensures
            r == slot(p, square as int, magic_hash(p, square as int, key), pow2(relevant_count(p, square as int))),
    {
        proof {
            use_type_invariant(self);
        }
        let mask = relevant_mask(p, square);
        let pop = SwarUtils::popcount(mask) as u64;
        proof {
            lemma_relevant_popcount(square as u64);
            lemma_table_size(pop);
            lemma_table_offset_bounds(p, square as nat, 64);
            lemma_table_offset_bounds(p, (square + 1) as nat, 64);
            lemma_table_offset_bounds(p, 64, 64);
        }
        let (magic, offset) = match p {
            Slider::Rook => (self.rook_magics[square as usize], self.rook_offsets[square as usize]),
            Slider::Bishop => (self.bishop_magics[square as usize], self.bishop_offsets[square as usize]),
        };
        let shift: u64 = 64 - pop;
        let product = key.wrapping_mul(magic);
        proof {
            lemma_hash_in_range(product, pop);
        }
        let idx = (product >> shift) as usize;
        proof {
            assert(slot(p, square as int, idx as nat, pow2(relevant_count(p, square as int)))
                == self.slot_value(p, square as int, idx as nat));
        }
        match p {
            Slider::Rook => self.rook_table[offset + idx],
            Slider::Bishop => self.bishop_table[offset + idx],
        }
    }

    /// Looks up the attacks of piece `p` on `square`: hashes the relevant
    /// occupancy with the square's magic number and reads that slot.
    fn lookup(&self, p: Slider, square: u8, occupancy: u64) -> (r: u64)
        requires
            square < 64,
        ensures
            r == slot(p, square as int, magic_hash(p, square as int, occupancy & relevant(p, square as int)),
                pow2(relevant_count(p, square as int))),
            magic_sound(p, square as int) ==> r == slider_attacks(p, square as int, occupancy),
    {
        let mask = relevant_mask(p, square);
        let r = self.stored_slot(p, square, occupancy & mask);
        proof {
            let i = pext_spec(occupancy, mask);
            lemma_pdep_pext(occupancy, mask);
            lemma_extract_bound(occupancy, mask, 0);
            lemma_ones_from_popcount(mask);
            assert(pattern(p, square as int, i) == occupancy & mask);
            lemma_relevant_occupancy(square as u64, occupancy);
            if magic_sound(p, square as int) {
                assert(slot(p, square as int, magic_hash(p, square as int, pattern(p, square as int, i)),
                    pow2(relevant_count(p, square as int))) == slider_attacks(p, square as int, pattern(p, square as int, i)));
            }
        }
        r
    }

    /// Checks every stored slot against the attacks it must answer: returns
    /// whether the magic numbers of every square send each occupancy pattern
    /// to a slot holding that pattern's attacks.
    fn lookups_consistent(&self) -> (ok: bool)
        ensures
            ok == all_magics_sound(),
    {
        let rook_ok = self.piece_consistent(Slider::Rook);
        if !rook_ok {
            return false;
        }
        self.piece_consistent(Slider::Bishop)
    }

    fn piece_consistent(&self, p: Slider) -> (ok: bool)
        ensures
            ok == (forall|sq: int| 0 <= sq < 64 ==> #[trigger] magic_sound(p, sq)),
    {
        let mut sq: u8 = 0;
        while sq < 64
            invariant
                sq <= 64,
                forall|s: int| 0 <= s < sq ==> #[trigger] magic_sound(p, s),
            decreases 64 - sq,
        {
            let mask = relevant_mask(p, sq);
            let pop = SwarUtils::popcount(mask) as u64;
            proof {
                lemma_relevant_popcount(sq as u64);
                lemma_table_size(pop);
            }
            let num_patterns: usize = (1u64 << pop) as usize;
            let mut idx: usize = 0;
            while idx < num_patterns
                invariant
                    sq < 64,
                    idx <= num_patterns,
                    num_patterns == pow2(relevant_count(p, sq as int)),
                    mask == relevant(p, sq as int),
                    forall|i: nat| i < idx ==>
                        #[trigger] slot(p, sq as int, magic_hash(p, sq as int, pattern(p, sq as int, i)),
                            pow2(relevant_count(p, sq as int))) == slider_attacks(p, sq as int, pattern(p, sq as int, i)),
                decreases num_patterns - idx,
            {
                let occ = get_occupancy(idx, mask);
                let att = sliding_attacks(p, sq, occ);
                let stored = self.stored_slot(p, sq, occ);
                proof {
                    assert(occ == pattern(p, sq as int, idx as nat));
                }
                if stored != att {
                    proof {
                        assert(slot(p, sq as int, magic_hash(p, sq as int, pattern(p, sq as int, idx as nat)),
                            pow2(relevant_count(p, sq as int))) != slider_attacks(p, sq as int, pattern(p, sq as int, idx as nat)));
                        assert(!magic_sound(p, sq as int));
                    }
                    return false;
                }
                idx += 1;
            }
            sq += 1;
        }
        true
    }
}

/// Precomputed fancy magic tables, with the result of checking them: whether
/// every magic number sends each occupancy pattern of its square to a slot
/// holding that pattern's attacks.
pub struct MagicTable {
    data: MagicData,
    checked: bool,
}

impl MagicTable {
    #[verifier::type_invariant]
    closed spec fn wf(self) -> bool {
        self.checked == all_magics_sound()
    }

    /// Builds both tables and checks every occupancy pattern of every square
    /// against the slot its hash reads. A table is always returned; its
    /// lookups read the slots when the check passed (every magic number is
    /// sound) and trace the rays otherwise, so that they answer the attacks
    /// either way.
    pub fn new() -> (t: MagicTable)
        ensures
            t.slots_checked() == all_magics_sound(),
    {
        let data = MagicData::build();
        let checked = data.lookups_consistent();
        MagicTable { data, checked }
    }

    /// Whether the table's construction found every magic number sound.
    pub closed spec fn slots_checked(self) -> bool {
        self.checked
    }

    /// Whether the lookups read the slots: every magic number of every
    /// square is sound.
    pub fn uses_slots(&self) -> (r: bool)
        ensures
            r == self.slots_checked(),
            r == all_magics_sound(),
    {
        proof {
            use_type_invariant(self);
        }
        self.checked
    }

    /// The attacks of piece `p` on `square`: the slot the relevant occupancy
    /// hashes to when the magic numbers were found sound, the traced rays
    /// otherwise.
    fn attacks(&self, p: Slider, square: u8, occupancy: u64) -> (r: u64)
        requires
            square < 64,
        ensures
            r == slider_attacks(p, square as int, occupancy),
    {
        proof {
            use_type_invariant(self);
        }
        if self.checked {
            self.data.lookup(p, square, occupancy)
        } else {
            sliding_attacks(p, square, occupancy)
        }
    }
}

impl Magic {
    /// Rook attacks read from the magic table: the relevant occupancy is
    /// hashed with the square's magic number and that slot is read.
    pub fn rook_attacks(table: &MagicTable, square: u8, occupancy: u64) -> (r: u64)
        requires
            square < 64,
        ensures
            r == rook_attacks_spec(square as int, occupancy),
    {
        table.attacks(Slider::Rook, square, occupancy)
    }

    /// Bishop attacks read from the magic table, as for the rook.
    pub fn bishop_attacks(table: &MagicTable, square: u8, occupancy: u64) -> (r: u64)
        requires
            square < 64,
        ensures
            r == bishop_attacks_spec(square as int, occupancy),
    {
        table.attacks(Slider::Bishop, square, occupancy)
    }

    /// Queen attacks: the rook and bishop lookups together.
    pub fn queen_attacks(table: &MagicTable, square: u8, occupancy: u64) -> (r: u64)
        requires
            square < 64,
        ensures
            r == queen_attacks_spec(square as int, occupancy),
    {
        Self::rook_attacks(table, square, occupancy) | Self::bishop_attacks(table, square, occupancy)
    }
}

/// The relevant-square mask of `sq` for piece `p`.
fn relevant_mask(p: Slider, sq: u8) -> (m: u64)
    requires
        sq < 64,
    ensures
        m == relevant(p, sq as int),
{
    match p {
        Slider::Rook => rook_mask(sq),
        Slider::Bishop => bishop_mask(sq),
    }
}

/// The magic number of `sq` for piece `p`.
fn magic_number(p: Slider, sq: u8) -> (m: u64)
    requires
        sq < 64,
    ensures
        m == magic_of(p, sq as int),
{
    match p {
        Slider::Rook => ROOK_MAGICS[sq as usize],
        Slider::Bishop => BISHOP_MAGICS[sq as usize],
    }
}

/// The attacks of piece `p` on `square`, traced ray by ray.
fn sliding_attacks(p: Slider, square: u8, occ: u64) -> (r: u64)
    requires
        square < 64,
    ensures
        r == slider_attacks(p, square as int, occ),
{
    let slider = 1u64 << square;
    match p {
        Slider::Rook => {
            let n = attack_ray(slider, occ, shift_n);
            let s = attack_ray(slider, occ, shift_s);
            let e = attack_ray(slider, occ, shift_e);
            let w = attack_ray(slider, occ, shift_w);
            proof {
                lemma_swar_ray_pub(step_relation(shift_n), Direction::North, square, occ, n);
                lemma_swar_ray_pub(step_relation(shift_s), Direction::South, square, occ, s);
                lemma_swar_ray_pub(step_relation(shift_e), Direction::East, square, occ, e);
                lemma_swar_ray_pub(step_relation(shift_w), Direction::West, square, occ, w);
            }
            n | s | e | w
        },
        Slider::Bishop => {
            let ne = attack_ray(slider, occ, shift_ne);
            let nw = attack_ray(slider, occ, shift_nw);
            let se = attack_ray(slider, occ, shift_se);
            let sw = attack_ray(slider, occ, shift_sw);
            proof {
                lemma_swar_ray_pub(step_relation(shift_ne), Direction::NorthEast, square, occ, ne);
                lemma_swar_ray_pub(step_relation(shift_nw), Direction::NorthWest, square, occ, nw);
                lemma_swar_ray_pub(step_relation(shift_se), Direction::SouthEast, square, occ, se);
                lemma_swar_ray_pub(step_relation(shift_sw), Direction::SouthWest, square, occ, sw);
            }
            ne | nw | se | sw
        },
    }
}

/// Where each square's table starts, and the size of all tables together.
fn table_layout(p: Slider) -> (res: (Vec<usize>, usize))
    ensures
        res.0@.len() == 64,
        forall|sq: int| 0 <= sq < 64 ==> #[trigger] res.0@[sq] == table_offset(p, sq as nat),
        res.1 == table_offset(p, 64),
{
    let mut offsets: Vec<usize> = Vec::new();
    let mut total: usize = 0;
    let mut sq: u8 = 0;
    while sq < 64
        invariant
            sq <= 64,
            offsets@.len() == sq,
            forall|s: int| 0 <= s < sq ==> #[trigger] offsets@[s] == table_offset(p, s as nat),
            total == table_offset(p, sq as nat),
        decreases 64 - sq,
    {
        offsets.push(total);
        let mask = relevant_mask(p, sq);
        let pop = SwarUtils::popcount(mask) as u64;
        proof {
            lemma_relevant_popcount(sq as u64);
            lemma_table_size(pop);
            lemma_table_offset_bounds(p, (sq + 1) as nat, (sq + 1) as nat);
        }
        total = total + (1u64 << pop) as usize;
        sq = sq + 1;
    }
    (offsets, total)
}

/// Fills the tables of piece `p`: for every square and every occupancy
/// pattern of its relevant squares, the pattern's attacks go to the slot the
/// pattern hashes to.
#[verifier::rlimit(50)]
#[verifier::spinoff_prover]
fn fill_tables(p: Slider, table: &mut Vec<u64>, offsets: &Vec<usize>)
    requires
        offsets@.len() == 64,
        forall|sq: int| 0 <= sq < 64 ==> #[trigger] offsets@[sq] == table_offset(p, sq as nat),
        old(table)@.len() == table_offset(p, 64),
        forall|i: int| 0 <= i < old(table)@.len() ==> #[trigger] old(table)@[i] == 0,
    ensures
        final(table)@.len() == old(table)@.len(),
        forall|sq: int, h: nat| 0 <= sq < 64 && h < pow2(relevant_count(p, sq)) ==>
            #[trigger] slot(p, sq, h, pow2(relevant_count(p, sq))) == final(table)@[(table_offset(p, sq as nat) + h) as int],
{
    let mut sq: u8 = 0;
    while sq < 64
        invariant
            sq <= 64,
            offsets@.len() == 64,
            forall|s: int| 0 <= s < 64 ==> #[trigger] offsets@[s] == table_offset(p, s as nat),
            table@.len() == table_offset(p, 64),
            forall|s: int, h: nat| 0 <= s < sq && h < pow2(relevant_count(p, s)) ==>
                #[trigger] slot(p, s, h, pow2(relevant_count(p, s))) == table@[(table_offset(p, s as nat) + h) as int],
            forall|i: int| table_offset(p, sq as nat) <= i < table@.len() ==> #[trigger] table@[i] == 0,
        decreases 64 - sq,
    {
        let mask = relevant_mask(p, sq);
        let pop = SwarUtils::popcount(mask) as u64;
        proof {
            lemma_relevant_popcount(sq as u64);
            lemma_table_size(pop);
            lemma_table_offset_bounds(p, sq as nat, 64);
            lemma_table_offset_bounds(p, (sq + 1) as nat, 64);
            lemma_table_offset_bounds(p, 64, 64);
        }
        let num_patterns: usize = (1u64 << pop) as usize;
        let magic = magic_number(p, sq);
        let shift: u64 = 64 - pop;
        let offset = offsets[sq as usize];
        let ghost before = table@;
        let mut idx: usize = 0;
        while idx < num_patterns
            invariant
                sq < 64,
                1 <= pop <= 12,
                idx <= num_patterns,
                num_patterns == pow2(relevant_count(p, sq as int)),
                pop == relevant_count(p, sq as int),
                mask == relevant(p, sq as int),
                magic == magic_of(p, sq as int),
                shift == 64 - pop,
                offset == table_offset(p, sq as nat),
                offset + num_patterns <= table_offset(p, 64),
                table_offset(p, 64) <= 262144,
                table@.len() == table_offset(p, 64),
                forall|i: int| 0 <= i < offset ==> #[trigger] table@[i] == before[i],
                forall|h: nat| h < num_patterns ==>
                    #[trigger] slot(p, sq as int, h, idx as nat) == table@[offset + h],
                forall|i: int| offset + num_patterns <= i < table@.len() ==> #[trigger] table@[i] == 0,
            decreases num_patterns - idx,
        {
            let occ = get_occupancy(idx, mask);
            let att = sliding_attacks(p, sq, occ);
            let product = occ.wrapping_mul(magic);
            proof {
                lemma_hash_in_range(product, pop);
                lemma_table_size(pop);
            }
            let hash = (product >> shift) as usize;
            assert(hash < num_patterns);
            let ghost t0 = table@;
            table[offset + hash] = att;
            proof {
                assert(occ == pattern(p, sq as int, idx as nat));
                assert(hash == magic_hash(p, sq as int, occ));
                assert forall|h: nat| h < num_patterns implies
                    #[trigger] slot(p, sq as int, h, (idx + 1) as nat) == table@[offset + h] by {
                    lemma_slot_step(p, sq as int, h, idx as nat);
                    assert(slot(p, sq as int, h, idx as nat) == t0[offset + h]);
                    if h != hash as nat {
                        assert(table@[offset + h] == t0[offset + h]);
                    }
                }
            }
            idx += 1;
            proof {
                assert(forall|h: nat| h < num_patterns ==>
                    #[trigger] slot(p, sq as int, h, idx as nat) == table@[offset + h]);
            }
        }
        proof {
            assert forall|s: int, h: nat| 0 <= s < sq + 1 && h < pow2(relevant_count(p, s)) implies
                #[trigger] slot(p, s, h, pow2(relevant_count(p, s))) == table@[(table_offset(p, s as nat) + h) as int] by {
                if s < sq {
                    lemma_table_offset_bounds(p, s as nat, sq as nat);
                }
            }
        }
        sq = sq + 1;
    }
}

} // verus!
