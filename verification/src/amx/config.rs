//! The 64-byte tile configuration that `ldtilecfg` loads.

use vstd::prelude::*;

verus! {

/// Palette 1 tile configuration (TILECFG): the shape of each of the eight
/// tile registers.
#[derive(Debug, Clone, Copy, PartialEq, Eq)]
pub struct AmxConfig {
    /// Palette id (0 = initial state, 1 = palette 1).
    pub palette_id: u8,
    /// Start row for restarting after an interrupt.
    pub start_row: u8,
    /// Reserved bytes, zero.
    pub reserved: [u8; 14],
    /// Bytes per row of each tile.
    pub cols_b: [u16; 8],
    /// Reserved bytes, zero.
    pub reserved2: [u8; 16],
    /// Rows of each tile.
    pub rows: [u8; 8],
    /// Reserved bytes, zero.
    pub reserved3: [u8; 8],
}

/// The smaller of two sizes.
pub open spec fn min_size(a: int, b: int) -> int {
    if a <= b { a } else { b }
}

impl AmxConfig {
    /// Palette 1 with every reserved byte zero and the given tile shapes.
    pub open spec fn is_palette1(self, rows: Seq<u8>, cols_b: Seq<u16>) -> bool {
        &&& self.palette_id == 1
        &&& self.start_row == 0
        &&& forall|i: int| 0 <= i < 14 ==> #[trigger] self.reserved[i] == 0
        &&& forall|i: int| 0 <= i < 16 ==> #[trigger] self.reserved2[i] == 0
        &&& forall|i: int| 0 <= i < 8 ==> #[trigger] self.reserved3[i] == 0
        &&& self.rows@ == rows
        &&& self.cols_b@ == cols_b
    }

    /// Palette 1 where every tile has `r` rows of `c_bytes` bytes.
    pub fn new_uniform(r: u8, c_bytes: u16) -> (cfg: Self)
        ensures
            cfg.is_palette1(Seq::new(8, |i: int| r), Seq::new(8, |i: int| c_bytes)),
    {
        let cfg = Self {
            palette_id: 1,
            start_row: 0,
            reserved: [0u8; 14],
            cols_b: [c_bytes; 8],
            reserved2: [0u8; 16],
            rows: [r; 8],
            reserved3: [0u8; 8],
        };
        assert(cfg.rows@ =~= Seq::new(8, |i: int| r));
        assert(cfg.cols_b@ =~= Seq::new(8, |i: int| c_bytes));
        cfg
    }

    /// Palette 1 with the given rows and row bytes for each of the eight
    /// tiles.
    pub fn new_custom(rows: [u8; 8], cols_b: [u16; 8]) -> (cfg: Self)
        ensures
            cfg.is_palette1(rows@, cols_b@),
    {
        Self {
            palette_id: 1,
            start_row: 0,
            reserved: [0u8; 14],
            cols_b,
            reserved2: [0u8; 16],
            rows,
            reserved3: [0u8; 8],
        }
    }

    /// Whether every tile fits a palette-1 tile register: at most 16 rows
    /// of at most 64 bytes.
    pub open spec fn fits_registers(self) -> bool {
        forall|i: int| 0 <= i < 8 ==> #[trigger] self.rows[i] <= 16 && self.cols_b[i] <= 64
    }

    /// Tile shapes for an `m x k` by `k x n` product of `element_size`-byte
    /// elements accumulated in 32 bits. Tile 0 holds a block of A (`m` rows
    /// of `k` elements); tiles 1, 6 and 7 hold B as the packed panel the
    /// dot-product instructions read, in which each row carries 4 bytes of
    /// depth for each of the `n` columns, so `k * element_size / 4` rows
    /// (rounded up) of `n * 4` bytes; tiles 2 to 5 are 32-bit accumulators
    /// (`m` rows of `n * 4` bytes). Every shape is clipped to what a tile
    /// register holds: 16 rows of 64 bytes.
    ///
    /// These are the shapes the blocked GEMM loads: its B tiles are 16-row,
    /// 64-byte packed panels, and `ldtilecfg` takes only a valid palette-1
    /// configuration. Giving a B tile `k` rows of `n` elements, as a plain
    /// `k x n` block would need, exceeds a tile register as soon as `k`
    /// passes 16, and the GEMM then cannot run at all.
    pub fn for_dimensions(m: usize, n: usize, k: usize, element_size: usize) -> (cfg: Self)
        requires
            element_size > 0,
            k * element_size + 3 <= usize::MAX,
            n * 4 <= usize::MAX,
        ensures
            ({
                let r_a = min_size(m as int, 16) as u8;
                let c_a = min_size(k * element_size, 64) as u16;
                let r_b = min_size((k * element_size + 3) / 4, 16) as u8;
                let c_c = min_size(n * 4, 64) as u16;
                cfg.is_palette1(
                    seq![r_a, r_b, r_a, r_a, r_a, r_a, r_b, r_b],
                    seq![c_a, c_c, c_c, c_c, c_c, c_c, c_c, c_c],
                )
            }),
            cfg.fits_registers(),
            cfg.rows[0] <= m && cfg.rows[0] as int == min_size(m as int, 16),
            forall|i: int| 2 <= i < 6 ==> #[trigger] cfg.rows[i] == cfg.rows[0],
            cfg.rows[6] == cfg.rows[1] && cfg.rows[7] == cfg.rows[1],
            forall|i: int| 1 <= i < 8 ==> #[trigger] cfg.cols_b[i] == cfg.cols_b[1],
            cfg.cols_b[0] <= k * element_size,
            cfg.cols_b[1] <= n * 4,
            m >= 16 && n >= 16 && k * element_size >= 64 ==>
                forall|i: int| 0 <= i < 8 ==> #[trigger] cfg.rows[i] == 16 && cfg.cols_b[i] == 64,
            4 * cfg.rows[1] >= min_size(k * element_size, 64),
            4 * (cfg.rows[1] - 1) < k * element_size,
    {
        let r_a = if m <= 16 { m as u8 } else { 16u8 };
        let ka = k * element_size;
        let c_a_bytes = if ka <= 64 { ka as u16 } else { 64u16 };
        let groups = (ka + 3) / 4;
        let r_b = if groups <= 16 { groups as u8 } else { 16u8 };
        let nc = n * 4;
        let c_row_bytes = if nc <= 64 { nc as u16 } else { 64u16 };
        let r_c = r_a;

        let mut rows = [0u8; 8];
        let mut cols_b = [0u16; 8];

        // Tile 0: A.
        rows[0] = r_a;
        cols_b[0] = c_a_bytes;
        // Tile 1: packed B.
        rows[1] = r_b;
        cols_b[1] = c_row_bytes;
        // Tile 2: C.
        rows[2] = r_c;
        cols_b[2] = c_row_bytes;

        // Further accumulators and packed B panels for register blocking.
        rows[3] = r_c;
        cols_b[3] = c_row_bytes;
        rows[4] = r_c;
        cols_b[4] = c_row_bytes;
        rows[5] = r_c;
        cols_b[5] = c_row_bytes;
        rows[6] = r_b;
        cols_b[6] = c_row_bytes;
        rows[7] = r_b;
        cols_b[7] = c_row_bytes;

        let cfg = Self::new_custom(rows, cols_b);
        assert(cfg.rows@ =~= seq![r_a, r_b, r_c, r_c, r_c, r_c, r_b, r_b]);
        assert(cfg.cols_b@ =~= seq![c_a_bytes, c_row_bytes, c_row_bytes, c_row_bytes, c_row_bytes, c_row_bytes, c_row_bytes, c_row_bytes]);
        cfg
    }

    /// Whether two configurations are the same 64 bytes.
    pub fn same_as(&self, other: &AmxConfig) -> (r: bool)
        ensures
            r == self.same_spec(*other),
            r == (*self == *other),
    {
        if self.palette_id != other.palette_id || self.start_row != other.start_row {
            return false;
        }
        let mut i: usize = 0;
        while i < 8
            invariant
                i <= 8,
                forall|j: int| 0 <= j < i ==> self.cols_b[j] == other.cols_b[j] && self.rows[j] == other.rows[j]
                    && self.reserved3[j] == other.reserved3[j],
            decreases 8 - i,
        {
            if self.cols_b[i] != other.cols_b[i] || self.rows[i] != other.rows[i]
                || self.reserved3[i] != other.reserved3[i] {
                return false;
            }
            i += 1;
        }
        let mut i: usize = 0;
        while i < 14
            invariant
                i <= 14,
                forall|j: int| 0 <= j < i ==> self.reserved[j] == other.reserved[j],
            decreases 14 - i,
        {
            if self.reserved[i] != other.reserved[i] {
                return false;
            }
            i += 1;
        }
        let mut i: usize = 0;
        while i < 16
            invariant
                i <= 16,
                forall|j: int| 0 <= j < i ==> self.reserved2[j] == other.reserved2[j],
            decreases 16 - i,
        {
            if self.reserved2[i] != other.reserved2[i] {
                return false;
            }
            i += 1;
        }
        proof {
            lemma_same_is_equal(*self, *other);
            assert(self.cols_b@ =~= other.cols_b@);
            assert(self.rows@ =~= other.rows@);
            assert(self.reserved@ =~= other.reserved@);
            assert(self.reserved2@ =~= other.reserved2@);
            assert(self.reserved3@ =~= other.reserved3@);
        }
        true
    }

    /// Two configurations agree byte for byte.
    pub open spec fn same_spec(self, other: AmxConfig) -> bool {
        &&& self.palette_id == other.palette_id
        &&& self.start_row == other.start_row
        &&& self.reserved@ == other.reserved@
        &&& self.cols_b@ == other.cols_b@
        &&& self.reserved2@ == other.reserved2@
        &&& self.rows@ == other.rows@
        &&& self.reserved3@ == other.reserved3@
    }
}

/// Two configurations agree byte for byte exactly when they are the same
/// value: no byte of the 64, rows and column widths included, is left out of
/// the comparison.
pub proof fn lemma_same_is_equal(a: AmxConfig, b: AmxConfig)
    ensures
        a.same_spec(b) <==> a == b,
        a.rows != b.rows ==> !a.same_spec(b),
        a.cols_b != b.cols_b ==> !a.same_spec(b),
{
    broadcast use vstd::array::axiom_array_ext_equal;
    if a.same_spec(b) {
        assert(a.reserved =~= b.reserved);
        assert(a.cols_b =~= b.cols_b);
        assert(a.reserved2 =~= b.reserved2);
        assert(a.rows =~= b.rows);
        assert(a.reserved3 =~= b.reserved3);
    }
}

} // verus!
