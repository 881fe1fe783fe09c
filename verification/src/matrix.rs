use vstd::prelude::*;
use crate::segment::{spec_byte_bits, lemma_byte_bits_len};
use crate::ecc::QrCodeEcc;
use crate::format::{
    get_format_val, get_version_val, spec_format_role, spec_format_val, spec_version_role,
    spec_version_val, spec_word_bit, word_bit,
};
use crate::tables::{
    get_alignment_pattern_positions, lemma_align_positions_facts, spec_align_count,
    spec_align_positions,
};

verus! {

/// Side length of a symbol of the given version.
pub open spec fn spec_size(v: int) -> int {
    4 * v + 17
}

/// The color of cell (x, y) in a row-major grid of rows.
pub open spec fn grid_at(g: Seq<Vec<bool>>, x: int, y: int) -> bool {
    g[y]@[x]
}

/// A square grid of side `s`, held as `s` rows of `s` cells.
pub open spec fn spec_grid_wf(g: Seq<Vec<bool>>, s: int) -> bool {
    g.len() == s && (forall|y: int| 0 <= y < s ==> (#[trigger] g[y])@.len() == s)
}

/// Color of a finder-pattern cell at ring distance max(|dx|, |dy|) from
/// the center: dark square, light ring, dark ring, light separator ring.
pub open spec fn spec_finder_color(dx: int, dy: int) -> bool {
    let ax = if dx >= 0 { dx } else { -dx };
    let ay = if dy >= 0 { dy } else { -dy };
    let d = if ax >= ay { ax } else { ay };
    d != 2 && d != 4
}

/// Color of an alignment-pattern cell at ring distance max(|dx|, |dy|)
/// from the center: dark center, light ring, dark ring.
pub open spec fn spec_align_pat_color(dx: int, dy: int) -> bool {
    let ax = if dx >= 0 { dx } else { -dx };
    let ay = if dy >= 0 { dy } else { -dy };
    let d = if ax >= ay { ax } else { ay };
    d != 1
}

/// Color of a timing-pattern cell: alternating, dark on even coordinates.
pub open spec fn spec_timing_color(x: int, y: int) -> bool {
    if x == 6 {
        y % 2 == 0
    } else {
        x % 2 == 0
    }
}

/// Index of the alignment coordinate within distance two of `c`, scanning
/// from position `i` upward; -1 when there is none.
pub open spec fn spec_align_idx_from(ps: Seq<int>, c: int, i: nat) -> int
    decreases ps.len() - i,
{
    if i >= ps.len() {
        -1
    } else if ps[i as int] - 2 <= c <= ps[i as int] + 2 {
        i as int
    } else {
        spec_align_idx_from(ps, c, i + 1)
    }
}

/// Index of the alignment coordinate within distance two of `c`, or -1.
pub open spec fn spec_align_idx(v: int, c: int) -> int {
    spec_align_idx_from(spec_align_positions(v), c, 0)
}

/// The three coordinate pairs where an alignment pattern would overlap a
/// finder pattern and is skipped.
pub open spec fn spec_align_skip(v: int, i: int, j: int) -> bool {
    let n = spec_align_count(v);
    (i == 0 && j == 0) || (i == 0 && j == n - 1) || (i == n - 1 && j == 0)
}

/// Whether (x, y) lies inside a drawn alignment pattern.
pub open spec fn spec_align_hit(v: int, x: int, y: int) -> bool {
    let i = spec_align_idx(v, x);
    let j = spec_align_idx(v, y);
    i >= 0 && j >= 0 && !spec_align_skip(v, i, j)
}

/// Color of the drawn alignment pattern at (x, y).
pub open spec fn spec_align_color(v: int, x: int, y: int) -> bool {
    let px = spec_align_positions(v)[spec_align_idx(v, x)];
    let py = spec_align_positions(v)[spec_align_idx(v, y)];
    spec_align_pat_color(x - px, y - py)
}

/// Whether (x, y) lies in the 5x5 block of the alignment pattern whose
/// centers are the table coordinates at positions (a, b).
pub open spec fn spec_in_block(v: int, a: int, b: int, x: int, y: int) -> bool {
    -2 <= x - spec_align_positions(v)[a] <= 2 && -2 <= y - spec_align_positions(v)[b] <= 2
}

/// The three finder-pattern corners with their separators.
pub open spec fn spec_in_tl(s: int, x: int, y: int) -> bool {
    x <= 7 && y <= 7
}

pub open spec fn spec_in_tr(s: int, x: int, y: int) -> bool {
    x >= s - 8 && y <= 7
}

pub open spec fn spec_in_bl(s: int, x: int, y: int) -> bool {
    x <= 7 && y >= s - 8
}

/// Whether (x, y) is a function or reserved cell of a version-`v` symbol:
/// finder patterns with separators, timing patterns, alignment patterns,
/// the format-information cells with the dark module, and the
/// version-information cells for versions 7 and up.
pub open spec fn spec_is_function(v: int, x: int, y: int) -> bool {
    let s = spec_size(v);
    spec_format_role(s, x, y) is Some || (v >= 7 && spec_version_role(s, x, y) is Some)
        || spec_in_tl(s, x, y) || spec_in_tr(s, x, y) || spec_in_bl(s, x, y) || spec_align_hit(
        v,
        x,
        y,
    ) || x == 6 || y == 6
}

/// The stamped color of every function cell, before data placement:
/// version information, format information (with the mask field still
/// holding the reservation value zero), alignment, finder, and timing
/// patterns, in the builder's overwrite order; free cells are light.
pub open spec fn spec_base_color(v: int, e: QrCodeEcc, x: int, y: int) -> bool {
    let s = spec_size(v);
    if v >= 7 && spec_version_role(s, x, y) is Some {
        spec_word_bit(spec_version_val(v), spec_version_role(s, x, y)->Some_0)
    } else if spec_format_role(s, x, y) is Some {
        let r = spec_format_role(s, x, y)->Some_0;
        if r == 15 {
            true
        } else {
            spec_word_bit(spec_format_val(e, 0), r)
        }
    } else if spec_align_hit(v, x, y) {
        spec_align_color(v, x, y)
    } else if spec_in_tl(s, x, y) {
        spec_finder_color(x - 3, y - 3)
    } else if spec_in_tr(s, x, y) {
        spec_finder_color(x - (s - 4), y - 3)
    } else if spec_in_bl(s, x, y) {
        spec_finder_color(x - 3, y - (s - 4))
    } else if x == 6 || y == 6 {
        spec_timing_color(x, y)
    } else {
        false
    }
}


/// The scan that names a coordinate's alignment index finds exactly the
/// table entry within distance two, when one exists.
proof fn lemma_align_idx_from_at(ps: Seq<int>, c: int, k: nat, i: int)
    requires
        k <= i < ps.len(),
        ps[i] - 2 <= c <= ps[i] + 2,
        forall|a: int, b: int| 0 <= a < b < ps.len() ==> #[trigger] ps[a] + 5 <= #[trigger] ps[b],
    ensures
        spec_align_idx_from(ps, c, k) == i,
    decreases i - k,
{
    if k < i {
        assert(ps[k as int] + 5 <= ps[i]);
        lemma_align_idx_from_at(ps, c, (k + 1) as nat, i);
    }
}

/// A coordinate within distance two of the alignment position `i` has
/// alignment index `i`.
pub proof fn lemma_align_idx_at(v: int, i: int, c: int)
    requires
        1 <= v <= 40,
        0 <= i < spec_align_positions(v).len(),
        spec_align_positions(v)[i] - 2 <= c <= spec_align_positions(v)[i] + 2,
    ensures
        spec_align_idx(v, c) == i,
{
    lemma_align_positions_facts(v);
    lemma_align_idx_from_at(spec_align_positions(v), c, 0, i);
}

/// A coordinate's alignment index, when not -1, names a position within
/// distance two of it.
proof fn lemma_align_idx_from_valid(ps: Seq<int>, c: int, k: nat)
    ensures
        spec_align_idx_from(ps, c, k) == -1 || (k <= spec_align_idx_from(ps, c, k) < ps.len()
            && ps[spec_align_idx_from(ps, c, k)] - 2 <= c <= ps[spec_align_idx_from(ps, c, k)]
            + 2),
    decreases ps.len() - k,
{
    if k < ps.len() {
        lemma_align_idx_from_valid(ps, c, (k + 1) as nat);
    }
}

pub proof fn lemma_align_idx_valid(v: int, c: int)
    requires
        1 <= v <= 40,
    ensures
        spec_align_idx(v, c) == -1 || (0 <= spec_align_idx(v, c) < spec_align_positions(v).len()
            && spec_align_positions(v)[spec_align_idx(v, c)] - 2 <= c <= spec_align_positions(v)[
            spec_align_idx(v, c)] + 2),
{
    lemma_align_idx_from_valid(spec_align_positions(v), c, 0);
}

/// The color that the format-information stage writes at a format cell:
/// the always-dark module, or the cell's bit of the format word.
pub open spec fn spec_role_color(s: int, e: QrCodeEcc, mask: u8, x: int, y: int) -> bool {
    match spec_format_role(s, x, y) {
        Some(r) => if r == 15 {
            true
        } else {
            spec_word_bit(spec_format_val(e, mask), r)
        },
        None => false,
    }
}


/// The color of cell (x, y) in a grid of row sequences.
pub open spec fn sgrid_at(g: Seq<Seq<bool>>, x: int, y: int) -> bool {
    g[y][x]
}

/// The rows of a grid as mathematical sequences.
pub open spec fn views(g: Seq<Vec<bool>>) -> Seq<Seq<bool>> {
    g.map_values(|r: Vec<bool>| r@)
}

/// Cell `k` of the two-column zigzag strip whose right column is `right`:
/// the strip visits each row once, two cells per row, right column first,
/// running upward or downward by the strip's parity.
pub open spec fn spec_strip_cell(s: int, right: int, k: int) -> (int, int) {
    let vert = k / 2;
    let upward = ((right + 1) / 2) % 2 == 0;
    let y = if upward {
        s - 1 - vert
    } else {
        vert
    };
    (right - k % 2, y)
}

/// The cells of one zigzag strip, in traversal order.
pub open spec fn spec_strip(s: int, right: int) -> Seq<(int, int)> {
    Seq::new((2 * s) as nat, |k: int| spec_strip_cell(s, right, k))
}

/// The cells of all strips from right column `right` leftward, skipping
/// the timing column six.
pub open spec fn spec_zigzag_from(s: int, right: int) -> Seq<(int, int)>
    decreases right + 1 when right >= -1
{
    if right < 1 {
        Seq::empty()
    } else if right == 6 {
        spec_zigzag_from(s, 5)
    } else {
        spec_strip(s, right) + spec_zigzag_from(s, right - 2)
    }
}

/// The canonical zigzag traversal of the whole symbol, right edge to left
/// edge.
pub open spec fn spec_zigzag(s: int) -> Seq<(int, int)> {
    spec_zigzag_from(s, s - 1)
}

/// The grid after streaming `bits` into the free cells met along `rem`,
/// starting at bit `i`: each free cell takes the next bit (1 is dark)
/// until the bits run out; function cells and left-over free cells keep
/// their color.
pub open spec fn spec_place(
    g: Seq<Seq<bool>>,
    func: Seq<Seq<bool>>,
    rem: Seq<(int, int)>,
    bits: Seq<bool>,
    i: int,
) -> Seq<Seq<bool>>
    decreases rem.len(),
{
    if rem.len() == 0 {
        g
    } else {
        let x = rem[0].0;
        let y = rem[0].1;
        if !sgrid_at(func, x, y) && i < bits.len() {
            spec_place(g.update(y, g[y].update(x, bits[i])), func, rem.skip(1), bits, i + 1)
        } else {
            spec_place(g, func, rem.skip(1), bits, i)
        }
    }
}

/// Bit `i` of a byte sequence read most significant bit first.
pub proof fn lemma_byte_bits_index(s: Seq<u8>, i: int)
    requires
        0 <= i < 8 * s.len(),
    ensures
        spec_byte_bits(s)[i] == ((s[i / 8] >> ((7 - i % 8) as u32)) & 1 == 1),
    decreases s.len(),
{
    lemma_byte_bits_len(s);
    if i < 8 {
        assert(spec_byte_bits(s)[i] == crate::bits::spec_bits_of(s[0] as u32, 8)[i]);
        let b = s[0];
        let sh = (7 - i % 8) as u32;
        assert(((b as u32) >> sh) & 1 == 1 <==> (b >> sh) & 1 == 1) by (bit_vector)
            requires
                sh <= 7,
        ;
    } else {
        lemma_byte_bits_len(s.skip(1));
        lemma_byte_bits_index(s.skip(1), i - 8);
        assert(s.skip(1)[(i - 8) / 8] == s[i / 8]);
        assert((i - 8) % 8 == i % 8);
    }
}

/// One of the eight standard mask formulas over column x and row y; a
/// true value inverts the data cell.
pub open spec fn spec_mask_bit(mask: u8, x: int, y: int) -> bool {
    if mask == 0 {
        (x + y) % 2 == 0
    } else if mask == 1 {
        y % 2 == 0
    } else if mask == 2 {
        x % 3 == 0
    } else if mask == 3 {
        (x + y) % 3 == 0
    } else if mask == 4 {
        (x / 3 + y / 2) % 2 == 0
    } else if mask == 5 {
        x * y % 2 + x * y % 3 == 0
    } else if mask == 6 {
        (x * y % 2 + x * y % 3) % 2 == 0
    } else {
        ((x + y) % 2 + x * y % 3) % 2 == 0
    }
}

/// A module grid under construction: mutated through the stamping,
/// placement and masking phases, then sealed into the immutable `QrCode`.
pub struct QrBuilder {
    /// Version, 1 to 40.
    pub version: u8,
    /// Side length, 4 * version + 17.
    pub size: usize,
    /// Module colors, row-major; true is dark.
    pub modules: Vec<Vec<bool>>,
    /// Which cells are function or reserved cells.
    pub isfunction: Vec<Vec<bool>>,
}

impl QrBuilder {
    pub open spec fn wf(self) -> bool {
        &&& 1 <= self.version <= 40
        &&& self.size == spec_size(self.version as int)
        &&& spec_grid_wf(self.modules@, self.size as int)
        &&& spec_grid_wf(self.isfunction@, self.size as int)
    }

    pub open spec fn spec_at(self, x: int, y: int) -> bool {
        grid_at(self.modules@, x, y)
    }

    pub open spec fn spec_func_at(self, x: int, y: int) -> bool {
        grid_at(self.isfunction@, x, y)
    }

    /// Allocates a version-sized grid of light, non-function cells.
    pub fn new(version: u8) -> (r: QrBuilder)
        requires
            1 <= version <= 40,
        ensures
            r.wf(),
            r.version == version,
            forall|x: int, y: int|
                0 <= x < r.size && 0 <= y < r.size ==> !r.spec_at(x, y) && !r.spec_func_at(x, y),
    {
        let size: usize = 4 * (version as usize) + 17;
        let mut modules: Vec<Vec<bool>> = Vec::new();
        let mut y: usize = 0;
        while y < size
            invariant
                y <= size,
                modules@.len() == y,
                forall|yy: int|
                    0 <= yy < y ==> (#[trigger] modules@[yy])@.len() == size && forall|xx: int|
                        0 <= xx < size ==> !modules@[yy]@[xx],
            decreases size - y,
        {
            let mut row: Vec<bool> = Vec::new();
            let mut x: usize = 0;
            while x < size
                invariant
                    x <= size,
                    row@.len() == x,
                    forall|xx: int| 0 <= xx < x ==> !row@[xx],
                decreases size - x,
            {
                row.push(false);
                x = x + 1;
            }
            modules.push(row);
            y = y + 1;
        }
        let mut isfunction: Vec<Vec<bool>> = Vec::new();
        let mut y2: usize = 0;
        while y2 < size
            invariant
                y2 <= size,
                isfunction@.len() == y2,
                forall|yy: int|
                    0 <= yy < y2 ==> (#[trigger] isfunction@[yy])@.len() == size && forall|xx: int|
                        0 <= xx < size ==> !isfunction@[yy]@[xx],
            decreases size - y2,
        {
            let mut row: Vec<bool> = Vec::new();
            let mut x: usize = 0;
            while x < size
                invariant
                    x <= size,
                    row@.len() == x,
                    forall|xx: int| 0 <= xx < x ==> !row@[xx],
                decreases size - x,
            {
                row.push(false);
                x = x + 1;
            }
            isfunction.push(row);
            y2 = y2 + 1;
        }
        QrBuilder { version, size, modules, isfunction }
    }

    /// Reads the color of cell (x, y).
    pub fn get_module(&self, x: usize, y: usize) -> (r: bool)
        requires
            self.wf(),
            x < self.size,
            y < self.size,
        ensures
            r == self.spec_at(x as int, y as int),
    {
        self.modules[y][x]
    }

    /// Reads whether cell (x, y) is a function cell.
    pub fn get_function(&self, x: usize, y: usize) -> (r: bool)
        requires
            self.wf(),
            x < self.size,
            y < self.size,
        ensures
            r == self.spec_func_at(x as int, y as int),
    {
        self.isfunction[y][x]
    }

    /// Stamps cell (x, y) with the given color and marks it a function
    /// cell.
    pub fn set_function_module(&mut self, x: usize, y: usize, dark: bool)
        requires
            old(self).wf(),
            x < old(self).size,
            y < old(self).size,
        ensures
            final(self).wf(),
            final(self).version == old(self).version,
            final(self).size == old(self).size,
            forall|xx: int, yy: int|
                0 <= xx < old(self).size && 0 <= yy < old(self).size ==> final(self).spec_at(
                    xx,
                    yy,
                ) == (if xx == x && yy == y {
                    dark
                } else {
                    old(self).spec_at(xx, yy)
                }),
            forall|xx: int, yy: int|
                0 <= xx < old(self).size && 0 <= yy < old(self).size ==> final(self).spec_func_at(
                    xx,
                    yy,
                ) == (if xx == x && yy == y {
                    true
                } else {
                    old(self).spec_func_at(xx, yy)
                }),
    {
        let row = &mut self.modules[y];
        row.set(x, dark);
        let frow = &mut self.isfunction[y];
        frow.set(x, true);
    }


    /// Stamps the two timing patterns: alternating strips in row six and
    /// column six.
    pub fn draw_timing_patterns(&mut self)
        requires
            old(self).wf(),
        ensures
            final(self).wf(),
            final(self).version == old(self).version,
            final(self).size == old(self).size,
            forall|x: int, y: int|
                0 <= x < old(self).size && 0 <= y < old(self).size ==> final(self).spec_at(x, y)
                    == (if x == 6 || y == 6 {
                    spec_timing_color(x, y)
                } else {
                    old(self).spec_at(x, y)
                }),
            forall|x: int, y: int|
                0 <= x < old(self).size && 0 <= y < old(self).size ==> final(self).spec_func_at(
                    x,
                    y,
                ) == (x == 6 || y == 6 || old(self).spec_func_at(x, y)),
    {
        let size = self.size;
        let mut i: usize = 0;
        while i < size
            invariant
                i <= size,
                self.wf(),
                self.version == old(self).version,
                self.size == old(self).size,
                forall|x: int, y: int|
                    0 <= x < size && 0 <= y < size ==> self.spec_at(x, y) == (if (x == 6 && y < i)
                        || (y == 6 && x < i) {
                        spec_timing_color(x, y)
                    } else {
                        old(self).spec_at(x, y)
                    }),
                forall|x: int, y: int|
                    0 <= x < size && 0 <= y < size ==> self.spec_func_at(x, y) == ((x == 6 && y
                        < i) || (y == 6 && x < i) || old(self).spec_func_at(x, y)),
            decreases size - i,
        {
            self.set_function_module(6, i, i % 2 == 0);
            self.set_function_module(i, 6, i % 2 == 0);
            i = i + 1;
        }
    }

    /// Stamps one finder pattern (with its separator ring) centered at
    /// (cx, cy), clipped to the grid.
    pub fn draw_finder_pattern(&mut self, cx: usize, cy: usize)
        requires
            old(self).wf(),
            cx < old(self).size,
            cy < old(self).size,
        ensures
            final(self).wf(),
            final(self).version == old(self).version,
            final(self).size == old(self).size,
            forall|x: int, y: int|
                0 <= x < old(self).size && 0 <= y < old(self).size ==> final(self).spec_at(x, y)
                    == (if -4 <= x - cx <= 4 && -4 <= y - cy <= 4 {
                    spec_finder_color(x - cx, y - cy)
                } else {
                    old(self).spec_at(x, y)
                }),
            forall|x: int, y: int|
                0 <= x < old(self).size && 0 <= y < old(self).size ==> final(self).spec_func_at(
                    x,
                    y,
                ) == ((-4 <= x - cx <= 4 && -4 <= y - cy <= 4) || old(self).spec_func_at(x, y)),
    {
        let size = self.size;
        let mut dy: i64 = -4;
        while dy <= 4
            invariant
                -4 <= dy <= 5,
                self.wf(),
                self.version == old(self).version,
                self.size == old(self).size,
                forall|x: int, y: int|
                    0 <= x < size && 0 <= y < size ==> self.spec_at(x, y) == (if -4 <= x - cx <= 4
                        && -4 <= y - cy < dy {
                        spec_finder_color(x - cx, y - cy)
                    } else {
                        old(self).spec_at(x, y)
                    }),
                forall|x: int, y: int|
                    0 <= x < size && 0 <= y < size ==> self.spec_func_at(x, y) == ((-4 <= x - cx
                        <= 4 && -4 <= y - cy < dy) || old(self).spec_func_at(x, y)),
            decreases 5 - dy,
        {
            let mut dx: i64 = -4;
            while dx <= 4
                invariant
                    -4 <= dx <= 5,
                    -4 <= dy <= 4,
                    self.wf(),
                    self.version == old(self).version,
                    self.size == old(self).size,
                    forall|x: int, y: int|
                        0 <= x < size && 0 <= y < size ==> self.spec_at(x, y) == (if -4 <= x - cx
                            <= 4 && (-4 <= y - cy < dy || (y - cy == dy && -4 <= x - cx < dx)) {
                            spec_finder_color(x - cx, y - cy)
                        } else {
                            old(self).spec_at(x, y)
                        }),
                    forall|x: int, y: int|
                        0 <= x < size && 0 <= y < size ==> self.spec_func_at(x, y) == ((-4 <= x
                            - cx <= 4 && (-4 <= y - cy < dy || (y - cy == dy && -4 <= x - cx < dx)))
                            || old(self).spec_func_at(x, y)),
                decreases 5 - dx,
            {
                let px: i64 = cx as i64 + dx;
                let py: i64 = cy as i64 + dy;
                if 0 <= px && px < size as i64 && 0 <= py && py < size as i64 {
                    let ax: i64 = if dx >= 0 { dx } else { -dx };
                    let ay: i64 = if dy >= 0 { dy } else { -dy };
                    let d: i64 = if ax >= ay { ax } else { ay };
                    self.set_function_module(px as usize, py as usize, d != 2 && d != 4);
                }
                dx = dx + 1;
            }
            dy = dy + 1;
        }
    }

    /// Stamps one 5x5 alignment pattern centered at (px, py).
    pub fn draw_alignment_pattern(&mut self, px: usize, py: usize)
        requires
            old(self).wf(),
            2 <= px <= old(self).size - 3,
            2 <= py <= old(self).size - 3,
        ensures
            final(self).wf(),
            final(self).version == old(self).version,
            final(self).size == old(self).size,
            forall|x: int, y: int|
                0 <= x < old(self).size && 0 <= y < old(self).size ==> final(self).spec_at(x, y)
                    == (if -2 <= x - px <= 2 && -2 <= y - py <= 2 {
                    spec_align_pat_color(x - px, y - py)
                } else {
                    old(self).spec_at(x, y)
                }),
            forall|x: int, y: int|
                0 <= x < old(self).size && 0 <= y < old(self).size ==> final(self).spec_func_at(
                    x,
                    y,
                ) == ((-2 <= x - px <= 2 && -2 <= y - py <= 2) || old(self).spec_func_at(x, y)),
    {
        let size = self.size;
        let mut dy: i64 = -2;
        while dy <= 2
            invariant
                -2 <= dy <= 3,
                self.wf(),
                self.version == old(self).version,
                self.size == old(self).size,
                forall|x: int, y: int|
                    0 <= x < size && 0 <= y < size ==> self.spec_at(x, y) == (if -2 <= x - px <= 2
                        && -2 <= y - py < dy {
                        spec_align_pat_color(x - px, y - py)
                    } else {
                        old(self).spec_at(x, y)
                    }),
                forall|x: int, y: int|
                    0 <= x < size && 0 <= y < size ==> self.spec_func_at(x, y) == ((-2 <= x - px
                        <= 2 && -2 <= y - py < dy) || old(self).spec_func_at(x, y)),
            decreases 3 - dy,
        {
            let mut dx: i64 = -2;
            while dx <= 2
                invariant
                    -2 <= dx <= 3,
                    -2 <= dy <= 2,
                    self.wf(),
                    self.version == old(self).version,
                    self.size == old(self).size,
                    forall|x: int, y: int|
                        0 <= x < size && 0 <= y < size ==> self.spec_at(x, y) == (if -2 <= x - px
                            <= 2 && (-2 <= y - py < dy || (y - py == dy && -2 <= x - px < dx)) {
                            spec_align_pat_color(x - px, y - py)
                        } else {
                            old(self).spec_at(x, y)
                        }),
                    forall|x: int, y: int|
                        0 <= x < size && 0 <= y < size ==> self.spec_func_at(x, y) == ((-2 <= x
                            - px <= 2 && (-2 <= y - py < dy || (y - py == dy && -2 <= x - px < dx)))
                            || old(self).spec_func_at(x, y)),
                decreases 3 - dx,
            {
                let qx: i64 = px as i64 + dx;
                let qy: i64 = py as i64 + dy;
                let ax: i64 = if dx >= 0 { dx } else { -dx };
                let ay: i64 = if dy >= 0 { dy } else { -dy };
                let d: i64 = if ax >= ay { ax } else { ay };
                self.set_function_module(qx as usize, qy as usize, d != 1);
                dx = dx + 1;
            }
            dy = dy + 1;
        }
    }


    /// Writes the fifteen format-information bits (twice) and the dark
    /// module, per the cell-role map.
    pub fn draw_format_bits(&mut self, e: QrCodeEcc, mask: u8)
        requires
            old(self).wf(),
            mask <= 7,
        ensures
            final(self).wf(),
            final(self).version == old(self).version,
            final(self).size == old(self).size,
            forall|x: int, y: int|
                #![trigger final(self).spec_at(x, y)]
                0 <= x < old(self).size && 0 <= y < old(self).size ==> final(self).spec_at(x, y)
                    == (if spec_format_role(old(self).size as int, x, y) is Some {
                    spec_role_color(old(self).size as int, e, mask, x, y)
                } else {
                    old(self).spec_at(x, y)
                }),
            forall|x: int, y: int|
                #![trigger final(self).spec_func_at(x, y)]
                0 <= x < old(self).size && 0 <= y < old(self).size ==> final(self).spec_func_at(
                    x,
                    y,
                ) == (spec_format_role(old(self).size as int, x, y) is Some || old(
                    self,
                ).spec_func_at(x, y)),
    {
        let s = self.size;
        let ghost si = s as int;
        proof {
            assert(s >= 21);
        }
        let bits = get_format_val(e, mask);
        let mut i: usize = 0;
        while i < 6
            invariant
                i <= 6,
                self.wf(),
                self.version == old(self).version,
                self.size == old(self).size,
                bits == spec_format_val(e, mask),
                forall|x: int, y: int|
                    0 <= x < s && 0 <= y < s ==> self.spec_at(x, y) == (if x == 8 && 0 <= y < i {
                        spec_role_color(si, e, mask, x, y)
                    } else {
                        old(self).spec_at(x, y)
                    }),
                forall|x: int, y: int|
                    0 <= x < s && 0 <= y < s ==> self.spec_func_at(x, y) == ((x == 8 && 0 <= y < i)
                        || old(self).spec_func_at(x, y)),
            decreases 6 - i,
        {
            self.set_function_module(8, i, word_bit(bits, i as u8));
            i = i + 1;
        }
        self.set_function_module(8, 7, word_bit(bits, 6));
        self.set_function_module(8, 8, word_bit(bits, 7));
        self.set_function_module(7, 8, word_bit(bits, 8));
        let ghost c1 = |x: int, y: int|
            (x == 8 && 0 <= y <= 5) || (x == 8 && y == 7) || (x == 8 && y == 8) || (x == 7 && y
                == 8);
        let mut i2: usize = 9;
        while i2 < 15
            invariant
                9 <= i2 <= 15,
                self.wf(),
                self.version == old(self).version,
                self.size == old(self).size,
                bits == spec_format_val(e, mask),
                forall|x: int, y: int|
                    0 <= x < s && 0 <= y < s ==> self.spec_at(x, y) == (if c1(x, y) || (y == 8 && 15
                        - i2 <= x <= 5) {
                        spec_role_color(si, e, mask, x, y)
                    } else {
                        old(self).spec_at(x, y)
                    }),
                forall|x: int, y: int|
                    0 <= x < s && 0 <= y < s ==> self.spec_func_at(x, y) == (c1(x, y) || (y == 8
                        && 15 - i2 <= x <= 5) || old(self).spec_func_at(x, y)),
            decreases 15 - i2,
        {
            self.set_function_module(14 - i2, 8, word_bit(bits, i2 as u8));
            i2 = i2 + 1;
        }
        let ghost c2 = |x: int, y: int| c1(x, y) || (y == 8 && 0 <= x <= 5);
        let mut i3: usize = 0;
        while i3 < 8
            invariant
                i3 <= 8,
                self.wf(),
                self.version == old(self).version,
                self.size == old(self).size,
                bits == spec_format_val(e, mask),
                forall|x: int, y: int|
                    0 <= x < s && 0 <= y < s ==> self.spec_at(x, y) == (if c2(x, y) || (y == 8 && s
                        - i3 <= x <= s - 1) {
                        spec_role_color(si, e, mask, x, y)
                    } else {
                        old(self).spec_at(x, y)
                    }),
                forall|x: int, y: int|
                    0 <= x < s && 0 <= y < s ==> self.spec_func_at(x, y) == (c2(x, y) || (y == 8
                        && s - i3 <= x <= s - 1) || old(self).spec_func_at(x, y)),
            decreases 8 - i3,
        {
            self.set_function_module(s - 1 - i3, 8, word_bit(bits, i3 as u8));
            i3 = i3 + 1;
        }
        let ghost c3 = |x: int, y: int| c2(x, y) || (y == 8 && si - 8 <= x <= si - 1);
        let mut i4: usize = 8;
        while i4 < 15
            invariant
                8 <= i4 <= 15,
                self.wf(),
                self.version == old(self).version,
                self.size == old(self).size,
                bits == spec_format_val(e, mask),
                forall|x: int, y: int|
                    0 <= x < s && 0 <= y < s ==> self.spec_at(x, y) == (if c3(x, y) || (x == 8 && s
                        - 7 <= y < s - 15 + i4) {
                        spec_role_color(si, e, mask, x, y)
                    } else {
                        old(self).spec_at(x, y)
                    }),
                forall|x: int, y: int|
                    0 <= x < s && 0 <= y < s ==> self.spec_func_at(x, y) == (c3(x, y) || (x == 8
                        && s - 7 <= y < s - 15 + i4) || old(self).spec_func_at(x, y)),
            decreases 15 - i4,
        {
            self.set_function_module(8, s - 15 + i4, word_bit(bits, i4 as u8));
            i4 = i4 + 1;
        }
        self.set_function_module(8, s - 8, true);
        proof {
            assert forall|x: int, y: int| 0 <= x < s && 0 <= y < s implies self.spec_at(x, y) == (
            if spec_format_role(si, x, y) is Some {
                spec_role_color(si, e, mask, x, y)
            } else {
                old(self).spec_at(x, y)
            }) by {
                assert(spec_format_role(si, x, y) is Some <==> (c3(x, y) || (x == 8 && si - 7 <= y
                    <= si - 1) || (x == 8 && y == si - 8)));
            }
            assert forall|x: int, y: int| 0 <= x < s && 0 <= y < s implies self.spec_func_at(x, y)
                == (spec_format_role(si, x, y) is Some || old(self).spec_func_at(x, y)) by {
                assert(spec_format_role(si, x, y) is Some <==> (c3(x, y) || (x == 8 && si - 7 <= y
                    <= si - 1) || (x == 8 && y == si - 8)));
            }
        }
    }

    /// Writes the two version-information blocks (for versions 7 and up).
    pub fn draw_version(&mut self)
        requires
            old(self).wf(),
        ensures
            final(self).wf(),
            final(self).version == old(self).version,
            final(self).size == old(self).size,
            old(self).version < 7 ==> final(self).modules == old(self).modules && final(self).isfunction == old(self).isfunction,
            old(self).version >= 7 ==> forall|x: int, y: int|
                0 <= x < old(self).size && 0 <= y < old(self).size ==> final(self).spec_at(x, y)
                    == (if spec_version_role(old(self).size as int, x, y) is Some {
                    spec_word_bit(
                        spec_version_val(old(self).version as int),
                        spec_version_role(old(self).size as int, x, y)->Some_0,
                    )
                } else {
                    old(self).spec_at(x, y)
                }),
            old(self).version >= 7 ==> forall|x: int, y: int|
                0 <= x < old(self).size && 0 <= y < old(self).size ==> final(self).spec_func_at(
                    x,
                    y,
                ) == (spec_version_role(old(self).size as int, x, y) is Some || old(
                    self,
                ).spec_func_at(x, y)),
    {
        if self.version < 7 {
            return ;
        }
        let s = self.size;
        let ghost si = s as int;
        proof {
            assert(s >= 45);
        }
        let bits = get_version_val(self.version);
        let mut i: usize = 0;
        while i < 18
            invariant
                i <= 18,
                self.wf(),
                self.version == old(self).version >= 7,
                self.size == old(self).size,
                bits == spec_version_val(self.version as int),
                forall|x: int, y: int|
                    0 <= x < s && 0 <= y < s ==> self.spec_at(x, y) == (if spec_version_role(
                        si,
                        x,
                        y,
                    ) is Some && spec_version_role(si, x, y)->Some_0 < i {
                        spec_word_bit(
                            spec_version_val(self.version as int),
                            spec_version_role(si, x, y)->Some_0,
                        )
                    } else {
                        old(self).spec_at(x, y)
                    }),
                forall|x: int, y: int|
                    0 <= x < s && 0 <= y < s ==> self.spec_func_at(x, y) == ((spec_version_role(
                        si,
                        x,
                        y,
                    ) is Some && spec_version_role(si, x, y)->Some_0 < i) || old(
                        self,
                    ).spec_func_at(x, y)),
            decreases 18 - i,
        {
            let b = word_bit(bits, i as u8);
            let xa: usize = s - 11 + (i % 3);
            let ya: usize = i / 3;
            self.set_function_module(xa, ya, b);
            self.set_function_module(ya, xa, b);
            proof {
                assert((xa as int - (si - 11)) + 3 * (ya as int) == i);
            }
            i = i + 1;
        }
    }


    /// Stamps every function pattern: timing strips, the three finder
    /// patterns with separators, the alignment patterns, the
    /// format-information cells (reserved with mask value zero) with the
    /// dark module, and the version-information blocks. Afterward the
    /// grid is exactly the base pattern of (version, level) and the
    /// function-cell map is exactly the standard's.
    #[verifier::rlimit(60)]
    pub fn draw_function_patterns(&mut self, e: QrCodeEcc)
        requires
            old(self).wf(),
            forall|x: int, y: int|
                0 <= x < old(self).size && 0 <= y < old(self).size ==> !old(self).spec_at(x, y)
                    && !old(self).spec_func_at(x, y),
        ensures
            final(self).wf(),
            final(self).version == old(self).version,
            final(self).size == old(self).size,
            forall|x: int, y: int|
                0 <= x < final(self).size && 0 <= y < final(self).size ==> final(self).spec_at(
                    x,
                    y,
                ) == spec_base_color(final(self).version as int, e, x, y),
            forall|x: int, y: int|
                0 <= x < final(self).size && 0 <= y < final(self).size
                    ==> final(self).spec_func_at(x, y) == spec_is_function(final(self).version as int, x, y),
    {
        let s = self.size;
        let ghost v = self.version as int;
        let ghost si = s as int;
        let ghost g0 = *self;
        self.draw_timing_patterns();
        let ghost t1 = *self;
        self.draw_finder_pattern(3, 3);
        let ghost f1 = *self;
        self.draw_finder_pattern(s - 4, 3);
        let ghost f2 = *self;
        self.draw_finder_pattern(3, s - 4);
        let ghost mid = *self;
        proof {
            lemma_align_positions_facts(v);
        }
        let positions = get_alignment_pattern_positions(self.version);
        let n = positions.len();
        let mut i: usize = 0;
        while i < n
            invariant
                i <= n,
                n == spec_align_count(v) == spec_align_positions(v).len(),
                self.wf(),
                self.version == mid.version,
                self.size == mid.size,
                positions@.len() == n,
                forall|k: int| 0 <= k < n ==> positions@[k] as int == spec_align_positions(v)[k],
                forall|x: int, y: int|
                    0 <= x < s && 0 <= y < s && !spec_align_hit(v, x, y) ==> self.spec_at(x, y)
                        == mid.spec_at(x, y) && self.spec_func_at(x, y) == mid.spec_func_at(x, y),
                forall|a: int, b: int, x: int, y: int|
                    0 <= a < i && 0 <= b < n && !spec_align_skip(v, a, b) && 0 <= x < s && 0 <= y
                        < s && #[trigger] spec_in_block(v, a, b, x, y) ==> self.spec_at(x, y)
                        == spec_align_pat_color(
                        x - spec_align_positions(v)[a],
                        y - spec_align_positions(v)[b],
                    ) && self.spec_func_at(x, y),
                forall|x: int, y: int|
                    0 <= x < s && 0 <= y < s && spec_align_hit(v, x, y) && spec_align_idx(v, x)
                        >= i ==> self.spec_at(x, y) == mid.spec_at(x, y) && self.spec_func_at(x, y)
                        == mid.spec_func_at(x, y),
            decreases n - i,
        {
            let mut j: usize = 0;
            while j < n
                invariant
                    j <= n,
                    i < n,
                    n == spec_align_count(v) == spec_align_positions(v).len(),
                    self.wf(),
                    self.version == mid.version,
                    self.size == mid.size,
                    positions@.len() == n,
                    forall|k: int| 0 <= k < n ==> positions@[k] as int == spec_align_positions(
                        v,
                    )[k],
                    forall|x: int, y: int|
                        0 <= x < s && 0 <= y < s && !spec_align_hit(v, x, y) ==> self.spec_at(x, y)
                            == mid.spec_at(x, y) && self.spec_func_at(x, y) == mid.spec_func_at(
                            x,
                            y,
                        ),
                    forall|a: int, b: int, x: int, y: int|
                        0 <= a < n && 0 <= b < n && (a < i || (a == i && b < j))
                            && !spec_align_skip(v, a, b) && 0 <= x < s && 0 <= y < s
                            && #[trigger] spec_in_block(v, a, b, x, y) ==> self.spec_at(x, y)
                            == spec_align_pat_color(
                            x - spec_align_positions(v)[a],
                            y - spec_align_positions(v)[b],
                        ) && self.spec_func_at(x, y),
                    forall|x: int, y: int|
                        0 <= x < s && 0 <= y < s && spec_align_hit(v, x, y) && (spec_align_idx(
                            v,
                            x,
                        ) > i || (spec_align_idx(v, x) == i && spec_align_idx(v, y) >= j))
                            ==> self.spec_at(x, y) == mid.spec_at(x, y) && self.spec_func_at(x, y)
                            == mid.spec_func_at(x, y),
                decreases n - j,
            {
                let skip = (i == 0 && j == 0) || (i == 0 && j == n - 1) || (i == n - 1 && j == 0);
                proof {
                    lemma_align_positions_facts(v);
                }
                if !skip {
                    let px = positions[i] as usize;
                    let py = positions[j] as usize;
                    let ghost pre = *self;
                    self.draw_alignment_pattern(px, py);
                    proof {
                        assert forall|x: int, y: int|
                            0 <= x < s && 0 <= y < s && -2 <= x - px <= 2 && -2 <= y - py
                                <= 2 implies spec_align_hit(v, x, y) && spec_align_idx(v, x) == i
                            && spec_align_idx(v, y) == j by {
                            lemma_align_idx_at(v, i as int, x);
                            lemma_align_idx_at(v, j as int, y);
                        }
                        assert forall|x: int, y: int|
                            0 <= x < s && 0 <= y < s && !(-2 <= x - px <= 2 && -2 <= y - py
                                <= 2) implies self.spec_at(x, y) == pre.spec_at(x, y)
                            && self.spec_func_at(x, y) == pre.spec_func_at(x, y) by {}
                        assert forall|a: int, b: int, x: int, y: int|
                            0 <= a < n && 0 <= b < n && (a < i || (a == i && b < j + 1))
                                && !spec_align_skip(v, a, b) && 0 <= x < s && 0 <= y < s
                                && #[trigger] spec_in_block(v, a, b, x, y) implies self.spec_at(
                            x,
                            y,
                        ) == spec_align_pat_color(
                            x - spec_align_positions(v)[a],
                            y - spec_align_positions(v)[b],
                        ) && self.spec_func_at(x, y) by {
                            if a == i && b == j {
                            } else {
                                assert(spec_align_positions(v)[a] + 5 <= spec_align_positions(
                                    v,
                                )[i as int] || spec_align_positions(v)[i as int] + 5
                                    <= spec_align_positions(v)[a] || a == i);
                                assert(!(-2 <= x - px <= 2 && -2 <= y - py <= 2));
                            }
                        }
                    }
                }
                j = j + 1;
            }
            i = i + 1;
        }
        let ghost mid2 = *self;
        proof {
            assert forall|x: int, y: int| 0 <= x < s && 0 <= y < s implies mid2.spec_at(x, y) == (
            if spec_align_hit(v, x, y) {
                spec_align_color(v, x, y)
            } else {
                mid.spec_at(x, y)
            }) && mid2.spec_func_at(x, y) == (spec_align_hit(v, x, y) || mid.spec_func_at(
                x,
                y,
            )) by {
                lemma_align_idx_valid(v, x);
                lemma_align_idx_valid(v, y);
                if spec_align_hit(v, x, y) {
                    assert(spec_in_block(v, spec_align_idx(v, x), spec_align_idx(v, y), x, y));
                }
            }
        }
        self.draw_format_bits(e, 0);
        let ghost mid3 = *self;
        self.draw_version();
        proof {
            assert forall|x: int, y: int| 0 <= x < s && 0 <= y < s implies self.spec_at(x, y)
                == spec_base_color(v, e, x, y) by {
                lemma_align_idx_valid(v, x);
                lemma_align_idx_valid(v, y);
            }
            assert forall|x: int, y: int| 0 <= x < s && 0 <= y < s implies self.spec_func_at(x, y)
                == spec_is_function(v, x, y) by {
                lemma_align_idx_valid(v, x);
                lemma_align_idx_valid(v, y);
                assert(t1.spec_func_at(x, y) == (x == 6 || y == 6 || g0.spec_func_at(x, y)));
                assert(f1.spec_func_at(x, y) == ((-4 <= x - 3 <= 4 && -4 <= y - 3 <= 4)
                    || t1.spec_func_at(x, y)));
                assert(f2.spec_func_at(x, y) == ((-4 <= x - (si - 4) <= 4 && -4 <= y - 3 <= 4)
                    || f1.spec_func_at(x, y)));
                assert(mid.spec_func_at(x, y) == ((-4 <= x - 3 <= 4 && -4 <= y - (si - 4) <= 4)
                    || f2.spec_func_at(x, y)));
                assert(mid2.spec_func_at(x, y) == (spec_align_hit(v, x, y) || mid.spec_func_at(
                    x,
                    y,
                )));
                assert(mid3.spec_func_at(x, y) == (spec_format_role(si, x, y) is Some
                    || mid2.spec_func_at(x, y)));
            }
        }
    }


    /// Streams the interleaved codeword bits into the free cells in the
    /// canonical zigzag order: vertical two-column strips from the right
    /// edge leftward, alternating upward and downward, skipping function
    /// cells; free cells beyond the stream keep their light color.
    pub fn draw_codewords(&mut self, data: &Vec<u8>)
        requires
            old(self).wf(),
            data@.len() <= 4096,
        ensures
            final(self).wf(),
            final(self).version == old(self).version,
            final(self).size == old(self).size,
            final(self).isfunction == old(self).isfunction,
            views(final(self).modules@) == spec_place(
                views(old(self).modules@),
                views(old(self).isfunction@),
                spec_zigzag(old(self).size as int),
                spec_byte_bits(data@),
                0,
            ),
    {
        let size = self.size;
        let ghost si = size as int;
        let ghost func = views(old(self).isfunction@);
        let ghost bits = spec_byte_bits(data@);
        let ghost target = spec_place(views(old(self).modules@), func, spec_zigzag(si), bits, 0);
        proof {
            lemma_byte_bits_len(data@);
        }
        let nbits: usize = data.len() * 8;
        let mut i: usize = 0;
        let mut right: i64 = (size as i64) - 1;
        let ghost mut rem: Seq<(int, int)> = spec_zigzag(si);
        while right >= 1
            invariant
                self.wf(),
                self.version == old(self).version,
                self.size == old(self).size,
                self.isfunction == old(self).isfunction,
                i <= nbits,
                nbits == bits.len(),
                bits == spec_byte_bits(data@),
                -1 <= right <= si - 1,
                right != 6,
                rem == spec_zigzag_from(si, right as int),
                target == spec_place(views(self.modules@), func, rem, bits, i as int),
            decreases right + 1,
        {
            let ghost r = right as int;
            let mut vert: usize = 0;
            while vert < size
                invariant
                    self.wf(),
                    self.version == old(self).version,
                    self.size == old(self).size,
                    self.isfunction == old(self).isfunction,
                    i <= nbits,
                    vert <= size,
                    1 <= right <= si - 1,
                    right != 6,
                    r == right as int,
                    rem == spec_strip(si, r).skip(2 * vert) + spec_zigzag_from(si, r - 2),
                    target == spec_place(views(self.modules@), func, rem, bits, i as int),
                decreases size - vert,
            {
                let mut j: usize = 0;
                while j < 2
                    invariant
                        self.wf(),
                        self.version == old(self).version,
                        self.size == old(self).size,
                        self.isfunction == old(self).isfunction,
                        i <= nbits,
                        vert < size,
                        j <= 2,
                        1 <= right <= si - 1,
                        right != 6,
                        r == right as int,
                        rem == spec_strip(si, r).skip(2 * vert + j) + spec_zigzag_from(si, r - 2),
                        target == spec_place(views(self.modules@), func, rem, bits, i as int),
                    decreases 2 - j,
                {
                    let x: usize = (right as usize) - j;
                    let upward: bool = (((right + 1) / 2) % 2) == 0;
                    let y: usize = if upward {
                        size - 1 - vert
                    } else {
                        vert
                    };
                    proof {
                        assert(rem[0] == spec_strip(si, r)[2 * vert + j]);
                        assert(rem[0] == (x as int, y as int));
                        assert(rem.skip(1) =~= spec_strip(si, r).skip(2 * vert + j + 1)
                            + spec_zigzag_from(si, r - 2));
                    }
                    let ghost pre = *self;
                    let mut advanced = false;
                    proof {
                        assert(sgrid_at(func, x as int, y as int) == self.spec_func_at(
                            x as int,
                            y as int,
                        ));
                    }
                    if !self.get_function(x, y) && i < nbits {
                        let b = data[i / 8];
                        let sh: u32 = (7 - (i % 8)) as u32;
                        let bit = (b >> sh) & 1 == 1;
                        self.set_module(x, y, bit);
                        proof {
                            lemma_byte_bits_index(data@, i as int);
                            assert(bit == bits[i as int]);
                            let pv = views(pre.modules@);
                            let nv = pv.update(y as int, pv[y as int].update(x as int, bit));
                            assert forall|yy: int| 0 <= yy < si implies views(self.modules@)[yy]
                                =~= nv[yy] by {
                                assert(views(self.modules@)[yy] == self.modules@[yy]@);
                                assert(pv[yy] == pre.modules@[yy]@);
                                assert forall|xx: int| 0 <= xx < si implies self.modules@[yy]@[xx]
                                    == nv[yy][xx] by {
                                    assert(self.spec_at(xx, yy) == (if xx == x as int && yy
                                        == y as int {
                                        bit
                                    } else {
                                        pre.spec_at(xx, yy)
                                    }));
                                }
                            }
                            assert(views(self.modules@) =~= nv);
                            assert(spec_place(pv, func, rem, bits, i as int) == spec_place(
                                nv,
                                func,
                                rem.skip(1),
                                bits,
                                i + 1,
                            ));
                        }
                        i = i + 1;
                        advanced = true;
                    }
                    proof {
                        if !advanced {
                            assert(sgrid_at(func, x as int, y as int) || i >= bits.len());
                            assert(spec_place(views(self.modules@), func, rem, bits, i as int)
                                == spec_place(
                                views(self.modules@),
                                func,
                                rem.skip(1),
                                bits,
                                i as int,
                            ));
                        }
                        rem = rem.skip(1);
                    }
                    j = j + 1;
                }
                vert = vert + 1;
            }
            proof {
                assert(spec_strip(si, r).skip(2 * si) =~= Seq::empty());
                assert(rem =~= spec_zigzag_from(si, r - 2));
                if r - 2 == 6 {
                    assert(spec_zigzag_from(si, 6) == spec_zigzag_from(si, 5));
                    rem = spec_zigzag_from(si, 5);
                } else {
                    rem = spec_zigzag_from(si, r - 2);
                }
            }
            if right - 2 == 6 {
                right = 5;
            } else {
                right = right - 2;
            }
        }
        proof {
            assert(rem =~= Seq::<(int, int)>::empty());
            assert(spec_place(views(self.modules@), func, rem, bits, i as int) == views(
                self.modules@,
            ));
        }
    }

    /// The eight standard mask formulas over (row, column), dispatched by
    /// mask index.
    pub fn mask_bit(mask: u8, x: usize, y: usize) -> (r: bool)
        requires
            mask <= 7,
            x <= 176,
            y <= 176,
        ensures
            r == spec_mask_bit(mask, x as int, y as int),
    {
        proof {
            assert(x * y <= 176 * 176) by (nonlinear_arith)
                requires
                    x <= 176 && y <= 176,
            ;
        }
        if mask == 0 {
            (x + y) % 2 == 0
        } else if mask == 1 {
            y % 2 == 0
        } else if mask == 2 {
            x % 3 == 0
        } else if mask == 3 {
            (x + y) % 3 == 0
        } else if mask == 4 {
            (x / 3 + y / 2) % 2 == 0
        } else if mask == 5 {
            x * y % 2 + x * y % 3 == 0
        } else if mask == 6 {
            (x * y % 2 + x * y % 3) % 2 == 0
        } else {
            ((x + y) % 2 + x * y % 3) % 2 == 0
        }
    }

    /// XORs the mask formula into every non-function cell; function cells
    /// are never masked.
    pub fn apply_mask(&mut self, mask: u8)
        requires
            old(self).wf(),
            mask <= 7,
        ensures
            final(self).wf(),
            final(self).version == old(self).version,
            final(self).size == old(self).size,
            final(self).isfunction == old(self).isfunction,
            forall|x: int, y: int|
                #![trigger final(self).spec_at(x, y)]
                0 <= x < old(self).size && 0 <= y < old(self).size ==> final(self).spec_at(x, y)
                    == (if old(self).spec_func_at(x, y) {
                    old(self).spec_at(x, y)
                } else {
                    old(self).spec_at(x, y) != spec_mask_bit(mask, x, y)
                }),
    {
        let ghost orig = *self;
        let size = self.size;
        let mut y: usize = 0;
        while y < size
            invariant
                y <= size,
                self.wf(),
                self.version == orig.version,
                self.size == orig.size,
                self.isfunction == orig.isfunction,
                forall|xx: int, yy: int|
                    0 <= xx < size && 0 <= yy < size ==> self.spec_at(xx, yy) == (if yy < y
                        && !orig.spec_func_at(xx, yy) {
                        orig.spec_at(xx, yy) != spec_mask_bit(mask, xx, yy)
                    } else {
                        orig.spec_at(xx, yy)
                    }),
            decreases size - y,
        {
            let mut x: usize = 0;
            while x < size
                invariant
                    x <= size,
                    y < size,
                    self.wf(),
                    self.version == orig.version,
                    self.size == orig.size,
                    self.isfunction == orig.isfunction,
                    forall|xx: int, yy: int|
                        0 <= xx < size && 0 <= yy < size ==> self.spec_at(xx, yy) == (if (yy < y
                            || (yy == y && xx < x)) && !orig.spec_func_at(xx, yy) {
                            orig.spec_at(xx, yy) != spec_mask_bit(mask, xx, yy)
                        } else {
                            orig.spec_at(xx, yy)
                        }),
                decreases size - x,
            {
                if !self.get_function(x, y) {
                    let cur = self.get_module(x, y);
                    let mb = Self::mask_bit(mask, x, y);
                    self.set_module(x, y, cur != mb);
                }
                x = x + 1;
            }
            y = y + 1;
        }
    }

    /// Writes a data-region cell's color (does not touch the function
    /// flag).
    pub fn set_module(&mut self, x: usize, y: usize, dark: bool)
        requires
            old(self).wf(),
            x < old(self).size,
            y < old(self).size,
        ensures
            final(self).wf(),
            final(self).version == old(self).version,
            final(self).size == old(self).size,
            final(self).isfunction == old(self).isfunction,
            forall|xx: int, yy: int|
                0 <= xx < old(self).size && 0 <= yy < old(self).size ==> final(self).spec_at(
                    xx,
                    yy,
                ) == (if xx == x && yy == y {
                    dark
                } else {
                    old(self).spec_at(xx, yy)
                }),
    {
        let row = &mut self.modules[y];
        row.set(x, dark);
    }
}

} // verus!
