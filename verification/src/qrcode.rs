use vstd::prelude::*;
use crate::bits::{bits_to_bytes, spec_byte_at};
use crate::codewords::{
    add_ecc_and_interleave, assemble_bits, spec_add_ecc, spec_assembled, spec_fits, spec_fits_cci,
    spec_needed_bits,
};
use crate::ecc::QrCodeEcc;
use crate::format::{spec_format_role, spec_format_val, spec_word_bit};
use crate::matrix::{
    sgrid_at, spec_base_color, spec_is_function, spec_mask_bit, spec_place, spec_role_color,
    spec_size, spec_zigzag, spec_zigzag_from, views, QrBuilder,
};
use crate::segment::{spec_byte_bits, spec_is_alphanumeric, spec_is_numeric, spec_mode_data_bits, QrSegment, QrSegmentMode};
use crate::tables::{lemma_table_facts, num_data_codewords, spec_num_data_codewords};

verus! {

/// A version (size class) of a QR Code symbol, 1 to 40.
#[derive(Clone, Copy, Debug, PartialEq, Eq, Structural)]
pub struct Version {
    value: u8,
}

impl Version {
    pub closed spec fn spec_value(self) -> int {
        self.value as int
    }

    pub open spec fn wf(self) -> bool {
        1 <= self.spec_value() <= 40
    }

    /// The smallest version.
    pub fn min() -> (r: Version)
        ensures
            r.spec_value() == 1,
    {
        Version { value: 1 }
    }

    /// The largest version.
    pub fn max() -> (r: Version)
        ensures
            r.spec_value() == 40,
    {
        Version { value: 40 }
    }

    /// Wraps a version number, which must lie in [1, 40].
    pub fn new(value: u8) -> (r: Version)
        requires
            1 <= value <= 40,
        ensures
            r.spec_value() == value,
    {
        Version { value }
    }

    pub fn value(self) -> (r: u8)
        ensures
            r == self.spec_value(),
    {
        self.value
    }
}

/// A mask pattern index, 0 to 7.
#[derive(Clone, Copy, Debug, PartialEq, Eq, Structural)]
pub struct Mask {
    value: u8,
}

impl Mask {
    pub closed spec fn spec_value(self) -> int {
        self.value as int
    }

    pub open spec fn wf(self) -> bool {
        self.spec_value() <= 7
    }

    /// Wraps a mask index, which must lie in [0, 7].
    pub fn new(value: u8) -> (r: Mask)
        requires
            value <= 7,
        ensures
            r.spec_value() == value,
    {
        Mask { value }
    }

    pub fn value(self) -> (r: u8)
        ensures
            r == self.spec_value(),
    {
        self.value
    }
}

/// The one recoverable error of the encoder: the payload does not fit the
/// largest permitted version at the requested (or boosted) level.
#[derive(Clone, Copy, Debug, PartialEq, Eq, Structural)]
pub enum QrError {
    DataTooLong,
}

impl QrError {
    /// A human-readable description of the error.
    pub fn message(&self) -> (r: String)
        ensures
            r@ == "data too long for the requested error correction and version range"@,
    {
        String::from_str("data too long for the requested error correction and version range")
    }
}

/// The data codewords packed from the assembled bit stream.
pub open spec fn spec_data_codewords(ss: Seq<QrSegment>, v: int, e: QrCodeEcc) -> Seq<u8> {
    Seq::new(
        spec_num_data_codewords(v, e) as nat,
        |j: int| spec_byte_at(spec_assembled(ss, v, e), j) as u8,
    )
}

/// The full interleaved codeword stream of a symbol encoding.
pub open spec fn spec_codewords(ss: Seq<QrSegment>, v: int, e: QrCodeEcc) -> Seq<u8> {
    spec_add_ecc(spec_data_codewords(ss, v, e), v, e)
}

/// The base grids of a version as mathematical sequences.
pub open spec fn spec_base_views(v: int, e: QrCodeEcc) -> Seq<Seq<bool>> {
    Seq::new(
        spec_size(v) as nat,
        |y: int| Seq::new(spec_size(v) as nat, |x: int| spec_base_color(v, e, x, y)),
    )
}

pub open spec fn spec_func_views(v: int) -> Seq<Seq<bool>> {
    Seq::new(
        spec_size(v) as nat,
        |y: int| Seq::new(spec_size(v) as nat, |x: int| spec_is_function(v, x, y)),
    )
}

/// The grid after placing the codeword stream into the base pattern.
pub open spec fn spec_placed_views(ss: Seq<QrSegment>, v: int, e: QrCodeEcc) -> Seq<Seq<bool>> {
    spec_place(
        spec_base_views(v, e),
        spec_func_views(v),
        spec_zigzag(spec_size(v)),
        spec_byte_bits(spec_codewords(ss, v, e)),
        0,
    )
}

/// The color of cell (x, y) of the finished symbol encoding the segments
/// at (version, level, mask): format information with the chosen mask and
/// the dark module; other function cells as placed; data cells XORed with
/// the mask formula.
pub open spec fn spec_symbol_cell(
    ss: Seq<QrSegment>,
    v: int,
    e: QrCodeEcc,
    mask: u8,
    x: int,
    y: int,
) -> bool {
    let s = spec_size(v);
    if spec_format_role(s, x, y) is Some {
        spec_role_color(s, e, mask, x, y)
    } else if spec_is_function(v, x, y) {
        sgrid_at(spec_placed_views(ss, v, e), x, y)
    } else {
        sgrid_at(spec_placed_views(ss, v, e), x, y) != spec_mask_bit(mask, x, y)
    }
}

/// The finished symbol grid as row sequences.
pub open spec fn spec_symbol_views(ss: Seq<QrSegment>, v: int, e: QrCodeEcc, mask: u8) -> Seq<
    Seq<bool>,
> {
    Seq::new(
        spec_size(v) as nat,
        |y: int| Seq::new(spec_size(v) as nat, |x: int| spec_symbol_cell(ss, v, e, mask, x, y)),
    )
}

/// An immutable QR Code symbol: version, the error-correction level and
/// mask actually used, and the module grid; read queries only.
pub struct QrCode {
    version: u8,
    size: usize,
    ecl: QrCodeEcc,
    mask: u8,
    modules: Vec<Vec<bool>>,
}

impl QrCode {
    pub closed spec fn spec_version(self) -> int {
        self.version as int
    }

    pub closed spec fn spec_ecl(self) -> QrCodeEcc {
        self.ecl
    }

    pub closed spec fn spec_mask(self) -> int {
        self.mask as int
    }

    pub closed spec fn spec_side(self) -> int {
        self.size as int
    }

    pub closed spec fn spec_module(self, x: int, y: int) -> bool {
        self.modules@[y]@[x]
    }

    pub closed spec fn wf(self) -> bool {
        &&& 1 <= self.version <= 40
        &&& self.size == spec_size(self.version as int)
        &&& self.mask <= 7
        &&& self.modules@.len() == self.size
        &&& forall|y: int| 0 <= y < self.size ==> (#[trigger] self.modules@[y])@.len() == self.size
    }

    /// Side length of the symbol, in modules: 4 * version + 17.
    pub fn size(&self) -> (r: i32)
        requires
            self.wf(),
        ensures
            r == self.spec_side(),
            r == 4 * self.spec_version() + 17,
            21 <= r <= 177,
    {
        self.size as i32
    }

    /// The finally used version.
    pub fn version(&self) -> (r: Version)
        requires
            self.wf(),
        ensures
            r.spec_value() == self.spec_version(),
    {
        Version { value: self.version }
    }

    /// The finally used error-correction level.
    pub fn error_correction_level(&self) -> (r: QrCodeEcc)
        ensures
            r == self.spec_ecl(),
    {
        self.ecl
    }

    /// The finally used mask index.
    pub fn mask(&self) -> (r: Mask)
        requires
            self.wf(),
        ensures
            r.spec_value() == self.spec_mask(),
    {
        Mask { value: self.mask }
    }

    /// The color of the module at (x, y): true is dark. Coordinates
    /// outside the symbol are light.
    pub fn get_module(&self, x: i32, y: i32) -> (r: bool)
        requires
            self.wf(),
        ensures
            r == (0 <= x < self.spec_side() && 0 <= y < self.spec_side() && self.spec_module(
                x as int,
                y as int,
            )),
    {
        if 0 <= x && x < self.size as i32 && 0 <= y && y < self.size as i32 {
            self.modules[y as usize][x as usize]
        } else {
            false
        }
    }
}

/// Copies a grid row by row.
fn copy_grid(g: &Vec<Vec<bool>>) -> (r: Vec<Vec<bool>>)
    ensures
        r@.len() == g@.len(),
        forall|y: int| 0 <= y < g@.len() ==> (#[trigger] r@[y])@ == g@[y]@,
{
    let mut r: Vec<Vec<bool>> = Vec::new();
    let mut y: usize = 0;
    while y < g.len()
        invariant
            y <= g@.len(),
            r@.len() == y,
            forall|t: int| 0 <= t < y ==> (#[trigger] r@[t])@ == g@[t]@,
        decreases g@.len() - y,
    {
        let row = &g[y];
        let mut nr: Vec<bool> = Vec::new();
        let mut x: usize = 0;
        while x < row.len()
            invariant
                x <= row@.len(),
                nr@ =~= row@.take(x as int),
            decreases row@.len() - x,
        {
            let b = row[x];
            nr.push(b);
            proof {
                assert(row@.take(x + 1) =~= row@.take(x as int).push(b));
            }
            x = x + 1;
        }
        proof {
            assert(row@.take(row@.len() as int) =~= row@);
        }
        r.push(nr);
        y = y + 1;
    }
    r
}

/// The color of cell (x, y) after the finishing stage: masking of the
/// data region and the format information for the chosen mask.
pub open spec fn spec_finished(b: QrBuilder, e: QrCodeEcc, mask: u8, x: int, y: int) -> bool {
    if spec_format_role(b.size as int, x, y) is Some {
        spec_role_color(b.size as int, e, mask, x, y)
    } else if b.spec_func_at(x, y) {
        b.spec_at(x, y)
    } else {
        b.spec_at(x, y) != spec_mask_bit(mask, x, y)
    }
}

/// Produces the finished grid for one mask candidate on a private copy:
/// XORs the mask into the data region and writes the format information.
fn finish_symbol(b: &QrBuilder, e: QrCodeEcc, mask: u8) -> (r: QrBuilder)
    requires
        b.wf(),
        mask <= 7,
    ensures
        r.wf(),
        r.version == b.version,
        r.size == b.size,
        forall|x: int, y: int|
            0 <= x < b.size && 0 <= y < b.size ==> r.spec_at(x, y) == spec_finished(
                *b,
                e,
                mask,
                x,
                y,
            ),
{
    let mut c = QrBuilder {
        version: b.version,
        size: b.size,
        modules: copy_grid(&b.modules),
        isfunction: copy_grid(&b.isfunction),
    };
    proof {
        assert forall|x: int, y: int| 0 <= x < b.size && 0 <= y < b.size implies c.spec_at(x, y)
            == b.spec_at(x, y) && c.spec_func_at(x, y) == b.spec_func_at(x, y) by {}
    }
    c.apply_mask(mask);
    proof {
        assert forall|x: int, y: int| 0 <= x < b.size && 0 <= y < b.size implies c.spec_at(x, y)
            == (if b.spec_func_at(x, y) {
            b.spec_at(x, y)
        } else {
            b.spec_at(x, y) != spec_mask_bit(mask, x, y)
        }) by {}
    }
    c.draw_format_bits(e, mask);
    proof {
        assert forall|x: int, y: int| 0 <= x < b.size && 0 <= y < b.size implies c.spec_at(x, y)
            == spec_finished(*b, e, mask, x, y) by {}
    }
    c
}


// THE PENALTY MODEL: the scoring that the mask search minimizes, as a
// mathematical fold over a grid, mirrored exactly by the scorer below.

/// Saturating penalty addition, with a ceiling far above any real score.
pub open spec fn spec_bump(p: int, k: int) -> int {
    if p > 0xFFFF_FFFF - k {
        0xFFFF_FFFF
    } else {
        p + k
    }
}

/// Whether the five cells rightward (or downward) from (x, y) share one
/// color.
pub open spec fn spec_run5_row(g: Seq<Seq<bool>>, x: int, y: int) -> bool {
    let c = sgrid_at(g, x, y);
    sgrid_at(g, x + 1, y) == c && sgrid_at(g, x + 2, y) == c && sgrid_at(g, x + 3, y) == c
        && sgrid_at(g, x + 4, y) == c
}

pub open spec fn spec_run5_col(g: Seq<Seq<bool>>, x: int, y: int) -> bool {
    let c = sgrid_at(g, x, y);
    sgrid_at(g, x, y + 1) == c && sgrid_at(g, x, y + 2) == c && sgrid_at(g, x, y + 3) == c
        && sgrid_at(g, x, y + 4) == c
}

/// Rule 1 contribution of cell (x, y): one point per same-colored
/// five-cell window opening here, plus two more at a maximal run's start.
pub open spec fn spec_r1_cell(g: Seq<Seq<bool>>, s: int, x: int, y: int, p: int) -> int {
    let p1 = if x + 5 <= s && spec_run5_row(g, x, y) {
        let q = spec_bump(p, 1);
        if x == 0 || sgrid_at(g, x - 1, y) != sgrid_at(g, x, y) {
            spec_bump(q, 2)
        } else {
            q
        }
    } else {
        p
    };
    if y + 5 <= s && spec_run5_col(g, x, y) {
        let q = spec_bump(p1, 1);
        if y == 0 || sgrid_at(g, x, y - 1) != sgrid_at(g, x, y) {
            spec_bump(q, 2)
        } else {
            q
        }
    } else {
        p1
    }
}

pub open spec fn spec_r1_row(g: Seq<Seq<bool>>, s: int, y: int, x: int, p: int) -> int
    decreases s - x when x <= s
{
    if x >= s {
        p
    } else {
        spec_r1_row(g, s, y, x + 1, spec_r1_cell(g, s, x, y, p))
    }
}

pub open spec fn spec_r1_rows(g: Seq<Seq<bool>>, s: int, y: int, p: int) -> int
    decreases s - y when y <= s
{
    if y >= s {
        p
    } else {
        spec_r1_rows(g, s, y + 1, spec_r1_row(g, s, y, 0, p))
    }
}

/// Rule 2 contribution of cell (x, y): three points when it opens a
/// same-colored two-by-two block.
pub open spec fn spec_r2_cell(g: Seq<Seq<bool>>, s: int, x: int, y: int, p: int) -> int {
    if x + 1 < s && y + 1 < s && sgrid_at(g, x + 1, y) == sgrid_at(g, x, y) && sgrid_at(
        g,
        x,
        y + 1,
    ) == sgrid_at(g, x, y) && sgrid_at(g, x + 1, y + 1) == sgrid_at(g, x, y) {
        spec_bump(p, 3)
    } else {
        p
    }
}

pub open spec fn spec_r2_row(g: Seq<Seq<bool>>, s: int, y: int, x: int, p: int) -> int
    decreases s - x when x <= s
{
    if x >= s {
        p
    } else {
        spec_r2_row(g, s, y, x + 1, spec_r2_cell(g, s, x, y, p))
    }
}

pub open spec fn spec_r2_rows(g: Seq<Seq<bool>>, s: int, y: int, p: int) -> int
    decreases s - y when y <= s
{
    if y >= s {
        p
    } else {
        spec_r2_rows(g, s, y + 1, spec_r2_row(g, s, y, 0, p))
    }
}

/// The finder-like eleven-cell window, in both orientations.
pub open spec fn spec_finder_row(g: Seq<Seq<bool>>, x: int, y: int) -> bool {
    let pad_left = !sgrid_at(g, x, y) && !sgrid_at(g, x + 1, y) && !sgrid_at(g, x + 2, y)
        && !sgrid_at(g, x + 3, y) && sgrid_at(g, x + 4, y) && !sgrid_at(g, x + 5, y) && sgrid_at(
        g,
        x + 6,
        y,
    ) && sgrid_at(g, x + 7, y) && sgrid_at(g, x + 8, y) && !sgrid_at(g, x + 9, y) && sgrid_at(
        g,
        x + 10,
        y,
    );
    let pad_right = sgrid_at(g, x, y) && !sgrid_at(g, x + 1, y) && sgrid_at(g, x + 2, y)
        && sgrid_at(g, x + 3, y) && sgrid_at(g, x + 4, y) && !sgrid_at(g, x + 5, y) && sgrid_at(
        g,
        x + 6,
        y,
    ) && !sgrid_at(g, x + 7, y) && !sgrid_at(g, x + 8, y) && !sgrid_at(g, x + 9, y) && !sgrid_at(
        g,
        x + 10,
        y,
    );
    pad_left || pad_right
}

pub open spec fn spec_finder_col(g: Seq<Seq<bool>>, x: int, y: int) -> bool {
    let pad_left = !sgrid_at(g, x, y) && !sgrid_at(g, x, y + 1) && !sgrid_at(g, x, y + 2)
        && !sgrid_at(g, x, y + 3) && sgrid_at(g, x, y + 4) && !sgrid_at(g, x, y + 5) && sgrid_at(
        g,
        x,
        y + 6,
    ) && sgrid_at(g, x, y + 7) && sgrid_at(g, x, y + 8) && !sgrid_at(g, x, y + 9) && sgrid_at(
        g,
        x,
        y + 10,
    );
    let pad_right = sgrid_at(g, x, y) && !sgrid_at(g, x, y + 1) && sgrid_at(g, x, y + 2)
        && sgrid_at(g, x, y + 3) && sgrid_at(g, x, y + 4) && !sgrid_at(g, x, y + 5) && sgrid_at(
        g,
        x,
        y + 6,
    ) && !sgrid_at(g, x, y + 7) && !sgrid_at(g, x, y + 8) && !sgrid_at(g, x, y + 9) && !sgrid_at(
        g,
        x,
        y + 10,
    );
    pad_left || pad_right
}

/// Rule 3 contribution of cell (x, y): forty points per finder-like
/// window opening here, in each orientation.
pub open spec fn spec_r3_cell(g: Seq<Seq<bool>>, s: int, x: int, y: int, p: int) -> int {
    let p1 = if x + 11 <= s && spec_finder_row(g, x, y) {
        spec_bump(p, 40)
    } else {
        p
    };
    if y + 11 <= s && spec_finder_col(g, x, y) {
        spec_bump(p1, 40)
    } else {
        p1
    }
}

pub open spec fn spec_r3_row(g: Seq<Seq<bool>>, s: int, y: int, x: int, p: int) -> int
    decreases s - x when x <= s
{
    if x >= s {
        p
    } else {
        spec_r3_row(g, s, y, x + 1, spec_r3_cell(g, s, x, y, p))
    }
}

pub open spec fn spec_r3_rows(g: Seq<Seq<bool>>, s: int, y: int, p: int) -> int
    decreases s - y when y <= s
{
    if y >= s {
        p
    } else {
        spec_r3_rows(g, s, y + 1, spec_r3_row(g, s, y, 0, p))
    }
}

/// Dark cells in row `y` from column `x` rightward.
pub open spec fn spec_dark_row(g: Seq<Seq<bool>>, s: int, y: int, x: int, d: int) -> int
    decreases s - x when x <= s
{
    if x >= s {
        d
    } else {
        spec_dark_row(g, s, y, x + 1, d + (if sgrid_at(g, x, y) {
            1int
        } else {
            0int
        }))
    }
}

pub open spec fn spec_dark_rows(g: Seq<Seq<bool>>, s: int, y: int, d: int) -> int
    decreases s - y when y <= s
{
    if y >= s {
        d
    } else {
        spec_dark_rows(g, s, y + 1, spec_dark_row(g, s, y, 0, d))
    }
}

/// Rule 4: ten points per five percent that the dark share deviates from
/// half.
pub open spec fn spec_r4(g: Seq<Seq<bool>>, s: int, p: int) -> int {
    let dark = spec_dark_rows(g, s, 0, 0);
    let total = s * s;
    let scaled = 20 * dark;
    let dev = if scaled >= 10 * total {
        scaled - 10 * total
    } else {
        10 * total - scaled
    };
    spec_bump(p, 10 * (dev / total))
}

/// Total penalty of a grid under the four standard scoring rules.
pub open spec fn spec_penalty(g: Seq<Seq<bool>>, s: int) -> int {
    spec_r4(g, s, spec_r3_rows(g, s, 0, spec_r2_rows(g, s, 0, spec_r1_rows(g, s, 0, 0))))
}

/// The finished grid of one mask candidate, as row sequences.
pub open spec fn spec_finished_views(b: QrBuilder, e: QrCodeEcc, mask: u8) -> Seq<Seq<bool>> {
    Seq::new(
        b.size as nat,
        |y: int| Seq::new(b.size as nat, |x: int| spec_finished(b, e, mask, x, y)),
    )
}

/// Adds `k` penalty points, saturating at a ceiling far above any real
/// score so that the sum always fits.
fn bump(p: u64, k: u64) -> (r: u64)
    requires
        p <= 0xFFFF_FFFF,
        k <= 20000,
    ensures
        r <= 0xFFFF_FFFF,
        r == spec_bump(p as int, k as int),
{
    if p > 0xFFFF_FFFF - k {
        0xFFFF_FFFF
    } else {
        p + k
    }
}

/// Whether the eleven cells rightward from (x, y) form the finder-like
/// 1:1:3:1:1 run with its four light modules on either side.
fn finder_window_row(b: &QrBuilder, x: usize, y: usize) -> (r: bool)
    requires
        b.wf(),
        y < b.size,
        x + 11 <= b.size,
    ensures
        r == spec_finder_row(views(b.modules@), x as int, y as int),
{
    proof {
        assert(views(b.modules@)[y as int] == b.modules@[y as int]@);
    }
    let d0 = b.get_module(x, y);
    let d1 = b.get_module(x + 1, y);
    let d2 = b.get_module(x + 2, y);
    let d3 = b.get_module(x + 3, y);
    let d4 = b.get_module(x + 4, y);
    let d5 = b.get_module(x + 5, y);
    let d6 = b.get_module(x + 6, y);
    let d7 = b.get_module(x + 7, y);
    let d8 = b.get_module(x + 8, y);
    let d9 = b.get_module(x + 9, y);
    let d10 = b.get_module(x + 10, y);
    let pad_left = !d0 && !d1 && !d2 && !d3 && d4 && !d5 && d6 && d7 && d8 && !d9 && d10;
    let pad_right = d0 && !d1 && d2 && d3 && d4 && !d5 && d6 && !d7 && !d8 && !d9 && !d10;
    pad_left || pad_right
}

/// The vertical counterpart of the finder-like window test.
fn finder_window_col(b: &QrBuilder, x: usize, y: usize) -> (r: bool)
    requires
        b.wf(),
        x < b.size,
        y + 11 <= b.size,
    ensures
        r == spec_finder_col(views(b.modules@), x as int, y as int),
{
    proof {
        assert forall|k: int| 0 <= k <= 10 implies #[trigger] views(b.modules@)[y + k] == b.modules@[
            y + k
        ]@ by {}
    }
    let d0 = b.get_module(x, y);
    let d1 = b.get_module(x, y + 1);
    let d2 = b.get_module(x, y + 2);
    let d3 = b.get_module(x, y + 3);
    let d4 = b.get_module(x, y + 4);
    let d5 = b.get_module(x, y + 5);
    let d6 = b.get_module(x, y + 6);
    let d7 = b.get_module(x, y + 7);
    let d8 = b.get_module(x, y + 8);
    let d9 = b.get_module(x, y + 9);
    let d10 = b.get_module(x, y + 10);
    let pad_left = !d0 && !d1 && !d2 && !d3 && d4 && !d5 && d6 && d7 && d8 && !d9 && d10;
    let pad_right = d0 && !d1 && d2 && d3 && d4 && !d5 && d6 && !d7 && !d8 && !d9 && !d10;
    pad_left || pad_right
}

/// Total penalty of a finished grid under the four standard scoring
/// rules, used to pick the lowest-scoring mask.
#[verifier::rlimit(100)]
fn get_penalty_score(b: &QrBuilder) -> (p: u64)
    requires
        b.wf(),
    ensures
        p <= 0xFFFF_FFFF,
        p == spec_penalty(views(b.modules@), b.size as int),
{
    let size = b.size;
    let ghost g = views(b.modules@);
    let ghost si = size as int;
    proof {
        assert forall|x: int, y: int| 0 <= x < si && 0 <= y < si implies sgrid_at(g, x, y)
            == b.spec_at(x, y) by {
            assert(g[y] == b.modules@[y]@);
        }
    }
    let mut p: u64 = 0;
    let ghost t1 = spec_r1_rows(g, si, 0, 0);
    // Rule 1: every maximal run of five or more same-colored modules in a
    // row or column scores its length minus two: one point per five-cell
    // same-colored window plus two points at each such run's start.
    let mut y: usize = 0;
    while y < size
        invariant
            b.wf(),
            size == b.size,
            y <= size,
            p <= 0xFFFF_FFFF,
            spec_r1_rows(g, si, y as int, p as int) == t1,
        decreases size - y,
    {
        let mut x: usize = 0;
        while x < size
            invariant
                b.wf(),
                size == b.size,
                y < size,
                x <= size,
                p <= 0xFFFF_FFFF,
                spec_r1_rows(g, si, y + 1, spec_r1_row(g, si, y as int, x as int, p as int))
                    == t1,
            decreases size - x,
        {
            let ghost p0 = p as int;
            if x + 5 <= size {
                let c = b.get_module(x, y);
                if b.get_module(x + 1, y) == c && b.get_module(x + 2, y) == c && b.get_module(
                    x + 3,
                    y,
                ) == c && b.get_module(x + 4, y) == c {
                    p = bump(p, 1);
                    if x == 0 || b.get_module(x - 1, y) != c {
                        p = bump(p, 2);
                    }
                }
            }
            if y + 5 <= size {
                let c = b.get_module(x, y);
                if b.get_module(x, y + 1) == c && b.get_module(x, y + 2) == c && b.get_module(
                    x,
                    y + 3,
                ) == c && b.get_module(x, y + 4) == c {
                    p = bump(p, 1);
                    if y == 0 || b.get_module(x, y - 1) != c {
                        p = bump(p, 2);
                    }
                }
            }
            proof {
                assert(p as int == spec_r1_cell(g, si, x as int, y as int, p0));
            }
            x = x + 1;
        }
        y = y + 1;
    }
    proof {
        assert(p as int == t1);
    }
    // Rule 2: three points for every 2x2 block of same-colored modules,
    // overlapping blocks included.
    let ghost t2 = spec_r2_rows(g, si, 0, p as int);
    let mut y2: usize = 0;
    while y2 < size
        invariant
            b.wf(),
            size == b.size,
            y2 <= size,
            p <= 0xFFFF_FFFF,
            spec_r2_rows(g, si, y2 as int, p as int) == t2,
        decreases size - y2,
    {
        let mut x2: usize = 0;
        while x2 < size
            invariant
                b.wf(),
                size == b.size,
                y2 < size,
                x2 <= size,
                p <= 0xFFFF_FFFF,
                spec_r2_rows(g, si, y2 + 1, spec_r2_row(g, si, y2 as int, x2 as int, p as int))
                    == t2,
            decreases size - x2,
        {
            let ghost p0 = p as int;
            if x2 + 1 < size && y2 + 1 < size {
                let c = b.get_module(x2, y2);
                if b.get_module(x2 + 1, y2) == c && b.get_module(x2, y2 + 1) == c && b.get_module(
                    x2 + 1,
                    y2 + 1,
                ) == c {
                    p = bump(p, 3);
                }
            }
            proof {
                assert(p as int == spec_r2_cell(g, si, x2 as int, y2 as int, p0));
            }
            x2 = x2 + 1;
        }
        y2 = y2 + 1;
    }
    proof {
        assert(p as int == t2);
    }
    // Rule 3: forty points for every finder-like 1:1:3:1:1 window with
    // its light padding, in rows and in columns.
    let ghost t3 = spec_r3_rows(g, si, 0, p as int);
    let mut y3: usize = 0;
    while y3 < size
        invariant
            b.wf(),
            size == b.size,
            y3 <= size,
            p <= 0xFFFF_FFFF,
            spec_r3_rows(g, si, y3 as int, p as int) == t3,
        decreases size - y3,
    {
        let mut x3: usize = 0;
        while x3 < size
            invariant
                b.wf(),
                size == b.size,
                y3 < size,
                x3 <= size,
                p <= 0xFFFF_FFFF,
                spec_r3_rows(g, si, y3 + 1, spec_r3_row(g, si, y3 as int, x3 as int, p as int))
                    == t3,
            decreases size - x3,
        {
            let ghost p0 = p as int;
            if x3 + 11 <= size && finder_window_row(b, x3, y3) {
                p = bump(p, 40);
            }
            if y3 + 11 <= size && finder_window_col(b, x3, y3) {
                p = bump(p, 40);
            }
            proof {
                assert(p as int == spec_r3_cell(g, si, x3 as int, y3 as int, p0));
            }
            x3 = x3 + 1;
        }
        y3 = y3 + 1;
    }
    proof {
        assert(p as int == t3);
    }
    // Rule 4: ten points for every five percent that the dark-module
    // share deviates from half.
    let ghost td = spec_dark_rows(g, si, 0, 0);
    let mut dark: u64 = 0;
    let mut y4: usize = 0;
    while y4 < size
        invariant
            b.wf(),
            size == b.size,
            y4 <= size,
            dark <= (y4 as u64) * 177,
            spec_dark_rows(g, si, y4 as int, dark as int) == td,
        decreases size - y4,
    {
        let mut x4: usize = 0;
        while x4 < size
            invariant
                b.wf(),
                size == b.size,
                y4 < size,
                x4 <= size,
                dark <= (y4 as u64) * 177 + (x4 as u64),
                spec_dark_rows(g, si, y4 + 1, spec_dark_row(g, si, y4 as int, x4 as int, dark as int))
                    == td,
            decreases size - x4,
        {
            if b.get_module(x4, y4) {
                dark = dark + 1;
            }
            x4 = x4 + 1;
        }
        proof {
            assert((y4 as u64 + 1) * 177 == (y4 as u64) * 177 + 177) by (nonlinear_arith);
        }
        y4 = y4 + 1;
    }
    proof {
        assert(dark as int == td);
        assert(441 <= (size as u64) * (size as u64) <= 31329) by (nonlinear_arith)
            requires
                21 <= size <= 177,
        ;
        assert(dark <= 31329) by (nonlinear_arith)
            requires
                dark <= (size as u64) * 177 && size <= 177,
        ;
    }
    let total: u64 = (size as u64) * (size as u64);
    let scaled: u64 = 20 * dark;
    let dev: u64 = if scaled >= 10 * total {
        scaled - 10 * total
    } else {
        10 * total - scaled
    };
    let k: u64 = dev / total;
    proof {
        assert(k <= 1500) by (nonlinear_arith)
            requires
                k == dev / total && dev <= 630000 && total >= 441,
        ;
    }
    let r = bump(p, 10 * k);
    proof {
        assert(r as int == spec_r4(g, si, p as int));
    }
    r
}

proof fn lemma_needed_nonneg(ss: Seq<QrSegment>, v: int)
    requires
        1 <= v <= 40,
    ensures
        spec_needed_bits(ss, v) >= 0,
    decreases ss.len(),
{
    if ss.len() > 0 {
        lemma_needed_nonneg(ss.skip(1), v);
    }
}

/// Whether the segments fit a symbol of (version, level).
fn segs_fit(segs: &Vec<QrSegment>, ver: u8, e: QrCodeEcc) -> (r: bool)
    requires
        1 <= ver <= 40,
        forall|i: int| 0 <= i < segs@.len() ==> (#[trigger] segs@[i]).wf(),
    ensures
        r == spec_fits(segs@, e, ver as int),
{
    let ghost v = ver as int;
    proof {
        lemma_table_facts(v, e);
        lemma_needed_nonneg(segs@, v);
    }
    let cap: u64 = 8 * (num_data_codewords(ver, e) as u64);
    let mut used: u128 = 0;
    let mut i: usize = 0;
    proof {
        assert(segs@.skip(0) =~= segs@);
    }
    while i < segs.len()
        invariant
            i <= segs@.len(),
            used == spec_needed_bits(segs@, v) - spec_needed_bits(segs@.skip(i as int), v),
            forall|k: int|
                0 <= k < i ==> (#[trigger] segs@[k]).numchars < segs@[k].mode.spec_cci_cap(v),
            used <= cap,
        decreases segs@.len() - i,
    {
        let seg = &segs[i];
        proof {
            let tail = segs@.skip(i as int);
            assert(tail[0] == segs@[i as int]);
            assert(tail.skip(1) =~= segs@.skip(i + 1));
            lemma_needed_nonneg(segs@.skip(i + 1), v);
        }
        let cci_cap = seg.mode.cci_cap(ver);
        if seg.numchars as u64 >= cci_cap as u64 {
            return false;
        }
        let add: u128 = 4 + (seg.mode.cci_bits(ver) as u128) + (seg.data.len() as u128);
        used = used + add;
        if used > cap as u128 {
            proof {
                assert(spec_needed_bits(segs@, v) > cap);
            }
            return false;
        }
        i = i + 1;
    }
    proof {
        assert(segs@.skip(segs@.len() as int) =~= Seq::empty());
    }
    true
}

/// The level that "boost" settles on at a fixed version: the most
/// redundant of Medium, Quartile, High that still fits, or the requested
/// level when none of them does.
pub open spec fn spec_boosted(ss: Seq<QrSegment>, requested: QrCodeEcc, v: int) -> QrCodeEcc {
    if spec_fits(ss, QrCodeEcc::High, v) {
        QrCodeEcc::High
    } else if spec_fits(ss, QrCodeEcc::Quartile, v) {
        QrCodeEcc::Quartile
    } else if spec_fits(ss, QrCodeEcc::Medium, v) {
        QrCodeEcc::Medium
    } else {
        requested
    }
}

/// Runs the eight-mask evaluation on private copies of the placed grid
/// and returns the first mask index achieving the minimum penalty: the
/// running minimum is replaced only on strict improvement, so ties keep
/// the earlier mask.
fn choose_mask(b: &QrBuilder, e: QrCodeEcc) -> (m: u8)
    requires
        b.wf(),
    ensures
        m <= 7,
        forall|i: int|
            0 <= i < 8 ==> spec_penalty(spec_finished_views(*b, e, m), b.size as int)
                <= spec_penalty(#[trigger] spec_finished_views(*b, e, i as u8), b.size as int),
        forall|i: int|
            0 <= i < m ==> spec_penalty(spec_finished_views(*b, e, m), b.size as int)
                < spec_penalty(#[trigger] spec_finished_views(*b, e, i as u8), b.size as int),
{
    let mut best: u8 = 0;
    let mut bestp: u64 = u64::MAX;
    let mut i: u8 = 0;
    while i < 8
        invariant
            i <= 8,
            best <= 7,
            b.wf(),
            i > 0 ==> best < i && bestp == spec_penalty(
                spec_finished_views(*b, e, best),
                b.size as int,
            ),
            i == 0 ==> bestp == u64::MAX,
            forall|j: int|
                0 <= j < i ==> bestp <= spec_penalty(
                    #[trigger] spec_finished_views(*b, e, j as u8),
                    b.size as int,
                ),
            forall|j: int|
                0 <= j < best ==> bestp < spec_penalty(
                    #[trigger] spec_finished_views(*b, e, j as u8),
                    b.size as int,
                ),
        decreases 8 - i,
    {
        let cand = finish_symbol(b, e, i);
        proof {
            assert forall|yy: int| 0 <= yy < b.size implies views(cand.modules@)[yy]
                =~= spec_finished_views(*b, e, i)[yy] by {
                assert(views(cand.modules@)[yy] == cand.modules@[yy]@);
                assert forall|xx: int| 0 <= xx < b.size implies cand.modules@[yy]@[xx]
                    == spec_finished(*b, e, i, xx, yy) by {
                    assert(cand.spec_at(xx, yy) == spec_finished(*b, e, i, xx, yy));
                }
            }
            assert(views(cand.modules@) =~= spec_finished_views(*b, e, i));
        }
        let p = get_penalty_score(&cand);
        if p < bestp {
            bestp = p;
            best = i;
        }
        i = i + 1;
    }
    best
}

/// Encodes the segments into a symbol: picks the smallest version in
/// [minversion, maxversion] whose capacity at the requested level holds
/// the segments (failing with DataTooLong when none does), optionally
/// boosts the level, computes and interleaves the error-correction
/// codewords, stamps and fills the grid, and applies the requested or the
/// lowest-penalty mask.
pub fn encode_segments_advanced(
    segs: &Vec<QrSegment>,
    ecl: QrCodeEcc,
    minversion: Version,
    maxversion: Version,
    mask: Option<Mask>,
    boostecl: bool,
) -> (r: Result<QrCode, QrError>)
    requires
        minversion.wf(),
        maxversion.wf(),
        minversion.spec_value() <= maxversion.spec_value(),
        forall|i: int| 0 <= i < segs@.len() ==> (#[trigger] segs@[i]).wf(),
        mask matches Some(m) ==> m.wf(),
    ensures
        (r is Ok) == (exists|v: int|
            minversion.spec_value() <= v <= maxversion.spec_value() && spec_fits(segs@, ecl, v)),
        r matches Ok(qr) ==> {
            &&& qr.wf()
            &&& minversion.spec_value() <= qr.spec_version() <= maxversion.spec_value()
            &&& spec_fits(segs@, ecl, qr.spec_version())
            &&& (forall|v: int|
                minversion.spec_value() <= v < qr.spec_version() ==> !spec_fits(segs@, ecl, v))
            &&& qr.spec_ecl() == (if boostecl {
                spec_boosted(segs@, ecl, qr.spec_version())
            } else {
                ecl
            })
            &&& spec_fits(segs@, qr.spec_ecl(), qr.spec_version())
            &&& (mask matches Some(m) ==> qr.spec_mask() == m.spec_value())
            &&& 0 <= qr.spec_mask() <= 7
            &&& qr.spec_side() == 4 * qr.spec_version() + 17
            &&& (forall|x: int, y: int|
                0 <= x < qr.spec_side() && 0 <= y < qr.spec_side() ==> qr.spec_module(x, y)
                    == spec_symbol_cell(
                    segs@,
                    qr.spec_version(),
                    qr.spec_ecl(),
                    qr.spec_mask() as u8,
                    x,
                    y,
                ))
            &&& (mask is None ==> (forall|i: int|
                0 <= i < 8 ==> spec_penalty(
                    spec_symbol_views(
                        segs@,
                        qr.spec_version(),
                        qr.spec_ecl(),
                        qr.spec_mask() as u8,
                    ),
                    qr.spec_side(),
                ) <= spec_penalty(
                    #[trigger] spec_symbol_views(segs@, qr.spec_version(), qr.spec_ecl(), i as u8),
                    qr.spec_side(),
                )))
            &&& (mask is None ==> (forall|i: int|
                0 <= i < qr.spec_mask() ==> spec_penalty(
                    spec_symbol_views(
                        segs@,
                        qr.spec_version(),
                        qr.spec_ecl(),
                        qr.spec_mask() as u8,
                    ),
                    qr.spec_side(),
                ) < spec_penalty(
                    #[trigger] spec_symbol_views(segs@, qr.spec_version(), qr.spec_ecl(), i as u8),
                    qr.spec_side(),
                )))
        },
{
    let minv = minversion.value();
    let maxv = maxversion.value();
    let mut version: u8 = minv;
    let mut ok = segs_fit(segs, version, ecl);
    while !ok && version < maxv
        invariant
            minv <= version <= maxv,
            1 <= minv <= maxv <= 40,
            ok == spec_fits(segs@, ecl, version as int),
            forall|v: int| minv <= v < version ==> !spec_fits(segs@, ecl, v),
        decreases maxv - version,
    {
        version = version + 1;
        ok = segs_fit(segs, version, ecl);
    }
    if !ok {
        proof {
            assert(forall|v: int|
                minv <= v <= maxv ==> !spec_fits(segs@, ecl, v));
        }
        return Err(QrError::DataTooLong);
    }
    let ghost v = version as int;
    let mut e = ecl;
    if boostecl {
        if segs_fit(segs, version, QrCodeEcc::Medium) {
            e = QrCodeEcc::Medium;
        }
        if segs_fit(segs, version, QrCodeEcc::Quartile) {
            e = QrCodeEcc::Quartile;
        }
        if segs_fit(segs, version, QrCodeEcc::High) {
            e = QrCodeEcc::High;
        }
        proof {
            assert(e == spec_boosted(segs@, ecl, v));
        }
    }
    let bits = assemble_bits(segs, version, e);
    let data = bits_to_bytes(&bits);
    proof {
        lemma_table_facts(v, e);
        assert(data@ =~= spec_data_codewords(segs@, v, e));
    }
    let all = add_ecc_and_interleave(&data, version, e);
    let mut b = QrBuilder::new(version);
    b.draw_function_patterns(e);
    proof {
        let s = spec_size(v);
        assert forall|yy: int| 0 <= yy < s implies views(b.modules@)[yy] =~= spec_base_views(
            v,
            e,
        )[yy] by {
            assert(views(b.modules@)[yy] == b.modules@[yy]@);
            assert forall|xx: int| 0 <= xx < s implies b.modules@[yy]@[xx] == spec_base_color(
                v,
                e,
                xx,
                yy,
            ) by {
                assert(b.spec_at(xx, yy) == spec_base_color(v, e, xx, yy));
            }
        }
        assert(views(b.modules@) =~= spec_base_views(v, e));
        assert(views(b.modules@) == spec_base_views(v, e));
        assert forall|yy: int| 0 <= yy < s implies views(b.isfunction@)[yy] =~= spec_func_views(
            v,
        )[yy] by {
            assert(views(b.isfunction@)[yy] == b.isfunction@[yy]@);
            assert forall|xx: int| 0 <= xx < s implies b.isfunction@[yy]@[xx] == spec_is_function(
                v,
                xx,
                yy,
            ) by {
                assert(b.spec_func_at(xx, yy) == spec_is_function(v, xx, yy));
            }
        }
        assert(views(b.isfunction@) =~= spec_func_views(v));
        assert(views(b.isfunction@) == spec_func_views(v));
    }
    b.draw_codewords(&all);
    proof {
        assert(all@ == spec_codewords(segs@, v, e));
        assert(views(b.modules@) == spec_placed_views(segs@, v, e));
        assert(views(b.isfunction@) == spec_func_views(v));
    }
    let msk: u8 = match &mask {
        Some(m) => m.value(),
        None => choose_mask(&b, e),
    };
    let fin = finish_symbol(&b, e, msk);
    let qr = QrCode {
        version,
        size: fin.size,
        ecl: e,
        mask: msk,
        modules: fin.modules,
    };
    proof {
        assert forall|m2: u8, x: int, y: int|
            m2 <= 7 && 0 <= x < qr.spec_side() && 0 <= y < qr.spec_side() implies #[trigger] spec_finished(
            b,
            e,
            m2,
            x,
            y,
        ) == spec_symbol_cell(segs@, v, e, m2, x, y) by {
            assert(b.spec_func_at(x, y) == sgrid_at(views(b.isfunction@), x, y));
            assert(b.spec_at(x, y) == sgrid_at(views(b.modules@), x, y));
            assert(sgrid_at(spec_func_views(v), x, y) == spec_is_function(v, x, y));
        }
        assert forall|x: int, y: int|
            0 <= x < qr.spec_side() && 0 <= y < qr.spec_side() implies qr.spec_module(x, y)
            == spec_symbol_cell(segs@, v, e, msk, x, y) by {
            assert(qr.spec_module(x, y) == fin.spec_at(x, y));
            assert(fin.spec_at(x, y) == spec_finished(b, e, msk, x, y));
        }
        if mask is None {
            assert forall|m2: u8| m2 <= 7 implies #[trigger] spec_finished_views(b, e, m2)
                == spec_symbol_views(segs@, v, e, m2) by {
                assert(spec_finished_views(b, e, m2) =~~= spec_symbol_views(segs@, v, e, m2));
            }
            assert forall|i: int|
                0 <= i < 8 implies spec_penalty(spec_symbol_views(segs@, v, e, msk), b.size as int)
                <= spec_penalty(
                #[trigger] spec_symbol_views(segs@, v, e, i as u8),
                b.size as int,
            ) by {
                assert(spec_finished_views(b, e, i as u8) == spec_symbol_views(
                    segs@,
                    v,
                    e,
                    i as u8,
                ));
            }
            assert forall|i: int|
                0 <= i < msk implies spec_penalty(spec_symbol_views(segs@, v, e, msk), b.size as int)
                < spec_penalty(
                #[trigger] spec_symbol_views(segs@, v, e, i as u8),
                b.size as int,
            ) by {
                assert(spec_finished_views(b, e, i as u8) == spec_symbol_views(
                    segs@,
                    v,
                    e,
                    i as u8,
                ));
            }
        }
    }
    Ok(qr)
}

/// Encodes the segments at the given level with the full version range,
/// automatic mask selection, and level boosting.
pub fn encode_segments(segs: &Vec<QrSegment>, ecl: QrCodeEcc) -> (r: Result<QrCode, QrError>)
    requires
        forall|i: int| 0 <= i < segs@.len() ==> (#[trigger] segs@[i]).wf(),
    ensures
        (r is Ok) == (exists|v: int| 1 <= v <= 40 && spec_fits(segs@, ecl, v)),
        r matches Err(e2) ==> e2 == QrError::DataTooLong,
        r matches Ok(qr) ==> {
            &&& qr.wf()
            &&& 1 <= qr.spec_version() <= 40
            &&& spec_fits(segs@, ecl, qr.spec_version())
            &&& (forall|v: int| 1 <= v < qr.spec_version() ==> !spec_fits(segs@, ecl, v))
            &&& qr.spec_ecl() == spec_boosted(segs@, ecl, qr.spec_version())
            &&& spec_fits(segs@, qr.spec_ecl(), qr.spec_version())
            &&& 0 <= qr.spec_mask() <= 7
            &&& qr.spec_side() == 4 * qr.spec_version() + 17
            &&& (forall|x: int, y: int|
                0 <= x < qr.spec_side() && 0 <= y < qr.spec_side() ==> qr.spec_module(x, y)
                    == spec_symbol_cell(
                    segs@,
                    qr.spec_version(),
                    qr.spec_ecl(),
                    qr.spec_mask() as u8,
                    x,
                    y,
                ))
            &&& (forall|i: int|
                0 <= i < 8 ==> spec_penalty(
                    spec_symbol_views(
                        segs@,
                        qr.spec_version(),
                        qr.spec_ecl(),
                        qr.spec_mask() as u8,
                    ),
                    qr.spec_side(),
                ) <= spec_penalty(
                    #[trigger] spec_symbol_views(segs@, qr.spec_version(), qr.spec_ecl(), i as u8),
                    qr.spec_side(),
                ))
            &&& (forall|i: int|
                0 <= i < qr.spec_mask() ==> spec_penalty(
                    spec_symbol_views(
                        segs@,
                        qr.spec_version(),
                        qr.spec_ecl(),
                        qr.spec_mask() as u8,
                    ),
                    qr.spec_side(),
                ) < spec_penalty(
                    #[trigger] spec_symbol_views(segs@, qr.spec_version(), qr.spec_ecl(), i as u8),
                    qr.spec_side(),
                ))
        },
{
    encode_segments_advanced(segs, ecl, Version::min(), Version::max(), None, true)
}

// LAWS: properties of the encoding, stated over the specification
// functions above and proved once for all inputs.

/// Every function module of a finished symbol carries the standard fixed
/// pattern of its version: outside the format-information cells, a
/// function cell's color is the base pattern of (version, level), whatever
/// payload was encoded and whatever mask was chosen.
pub proof fn lemma_function_modules_fixed(
    ss: Seq<QrSegment>,
    v: int,
    e: QrCodeEcc,
    mask: u8,
    x: int,
    y: int,
)
    requires
        1 <= v <= 40,
        0 <= x < spec_size(v),
        0 <= y < spec_size(v),
        mask <= 7,
        spec_is_function(v, x, y),
        spec_format_role(spec_size(v), x, y) is None,
    ensures
        spec_symbol_cell(ss, v, e, mask, x, y) == spec_base_color(v, e, x, y),
{
    lemma_zigzag_bounds(spec_size(v), spec_size(v) - 1);
    lemma_place_preserves(
        spec_base_views(v, e),
        spec_func_views(v),
        spec_zigzag(spec_size(v)),
        spec_byte_bits(spec_codewords(ss, v, e)),
        0,
        x,
        y,
        spec_size(v),
    );
}

/// Every cell of the zigzag traversal lies inside the grid.
proof fn lemma_zigzag_bounds(s: int, right: int)
    requires
        s >= 1,
        -1 <= right <= s - 1,
    ensures
        forall|k: int|
            0 <= k < spec_zigzag_from(s, right).len() ==> 0 <= (#[trigger] spec_zigzag_from(
                s,
                right,
            )[k]).0 < s && 0 <= spec_zigzag_from(s, right)[k].1 < s,
    decreases right + 1,
{
    if right < 1 {
        assert(spec_zigzag_from(s, right).len() == 0);
    } else if right == 6 {
        lemma_zigzag_bounds(s, 5);
        assert(spec_zigzag_from(s, right) == spec_zigzag_from(s, 5));
        assert forall|k: int|
            0 <= k < spec_zigzag_from(s, right).len() implies 0 <= (#[trigger] spec_zigzag_from(
            s,
            right,
        )[k]).0 < s && 0 <= spec_zigzag_from(s, right)[k].1 < s by {
            assert(spec_zigzag_from(s, right)[k] == spec_zigzag_from(s, 5)[k]);
        }
    } else {
        lemma_zigzag_bounds(s, right - 2);
        assert forall|k: int|
            0 <= k < spec_zigzag_from(s, right).len() implies 0 <= (#[trigger] spec_zigzag_from(
            s,
            right,
        )[k]).0 < s && 0 <= spec_zigzag_from(s, right)[k].1 < s by {
            let strip = crate::matrix::spec_strip(s, right);
            if k < strip.len() {
                assert(spec_zigzag_from(s, right)[k] == strip[k]);
                assert(0 <= k / 2 < s);
            } else {
                assert(spec_zigzag_from(s, right)[k] == spec_zigzag_from(s, right - 2)[k
                    - strip.len()]);
            }
        }
    }
}

/// Placement never touches a function cell.
proof fn lemma_place_preserves(
    g: Seq<Seq<bool>>,
    func: Seq<Seq<bool>>,
    rem: Seq<(int, int)>,
    bits: Seq<bool>,
    i: int,
    x: int,
    y: int,
    s: int,
)
    requires
        g.len() == s,
        forall|yy: int| 0 <= yy < s ==> (#[trigger] g[yy]).len() == s,
        forall|k: int|
            0 <= k < rem.len() ==> 0 <= (#[trigger] rem[k]).0 < s && 0 <= rem[k].1 < s,
        0 <= x < s,
        0 <= y < s,
        sgrid_at(func, x, y),
    ensures
        sgrid_at(spec_place(g, func, rem, bits, i), x, y) == sgrid_at(g, x, y),
    decreases rem.len(),
{
    if rem.len() > 0 {
        let x0 = rem[0].0;
        let y0 = rem[0].1;
        assert(0 <= x0 < s && 0 <= y0 < s);
        if !sgrid_at(func, x0, y0) && i < bits.len() {
            let g2 = g.update(y0, g[y0].update(x0, bits[i]));
            assert(!(x0 == x && y0 == y));
            assert(sgrid_at(g2, x, y) == sgrid_at(g, x, y));
            assert(forall|yy: int| 0 <= yy < s ==> (#[trigger] g2[yy]).len() == s);
            lemma_place_preserves(g2, func, rem.skip(1), bits, i + 1, x, y, s);
        } else {
            lemma_place_preserves(g, func, rem.skip(1), bits, i, x, y, s);
        }
    }
}


/// Once the codeword stream is exhausted, placement leaves the grid
/// untouched: the remainder cells at the tail of the zigzag traversal
/// keep their light color.
pub proof fn lemma_place_exhausted(
    g: Seq<Seq<bool>>,
    func: Seq<Seq<bool>>,
    rem: Seq<(int, int)>,
    bits: Seq<bool>,
    i: int,
)
    requires
        i >= bits.len(),
    ensures
        spec_place(g, func, rem, bits, i) == g,
    decreases rem.len(),
{
    if rem.len() > 0 {
        lemma_place_exhausted(g, func, rem.skip(1), bits, i);
    }
}

/// Re-encoding with the mask that the automatic search selected yields a
/// cell-for-cell identical matrix: two grids that both realize the symbol
/// of the same segments, version, level and mask agree everywhere.
pub proof fn lemma_mask_reproducible(
    ss: Seq<QrSegment>,
    v: int,
    e: QrCodeEcc,
    mask: u8,
    g1: Seq<Seq<bool>>,
    g2: Seq<Seq<bool>>,
)
    requires
        forall|x: int, y: int|
            0 <= x < spec_size(v) && 0 <= y < spec_size(v) ==> sgrid_at(g1, x, y)
                == spec_symbol_cell(ss, v, e, mask, x, y),
        forall|x: int, y: int|
            0 <= x < spec_size(v) && 0 <= y < spec_size(v) ==> sgrid_at(g2, x, y)
                == spec_symbol_cell(ss, v, e, mask, x, y),
    ensures
        forall|x: int, y: int|
            0 <= x < spec_size(v) && 0 <= y < spec_size(v) ==> sgrid_at(g1, x, y) == sgrid_at(
                g2,
                x,
                y,
            ),
{
}

/// Capacity boundary: a segment list whose bit length exactly equals the
/// version's capacity at the level still fits that version, and one
/// excess bit no longer fits.
pub proof fn lemma_capacity_boundary(ss: Seq<QrSegment>, e: QrCodeEcc, v: int)
    requires
        1 <= v <= 40,
        spec_fits_cci(ss, v),
    ensures
        spec_needed_bits(ss, v) == 8 * spec_num_data_codewords(v, e) ==> spec_fits(ss, e, v),
        spec_needed_bits(ss, v) > 8 * spec_num_data_codewords(v, e) ==> !spec_fits(ss, e, v),
{
}

/// The mode that the greedy classifier gives a nonempty payload.
pub open spec fn spec_payload_mode(s: Seq<u8>) -> QrSegmentMode {
    if spec_is_numeric(s) {
        QrSegmentMode::Numeric
    } else if spec_is_alphanumeric(s) {
        QrSegmentMode::Alphanumeric
    } else {
        QrSegmentMode::Byte
    }
}

/// The encoded bit length of a nonempty payload's single segment at a
/// version: mode indicator, count indicator, and data bits.
pub open spec fn spec_payload_bits(s: Seq<u8>, v: int) -> int {
    4 + spec_payload_mode(s).spec_cci_bits(v) + spec_mode_data_bits(
        spec_payload_mode(s),
        s.len() as int,
    )
}

/// Whether a nonempty payload fits a symbol of (version, level) when
/// segmented by the greedy classifier.
pub open spec fn spec_payload_fits(s: Seq<u8>, e: QrCodeEcc, v: int) -> bool {
    s.len() < spec_payload_mode(s).spec_cci_cap(v) && spec_payload_bits(s, v) <= 8
        * spec_num_data_codewords(v, e)
}


/// The data bits of a nonempty payload's single segment.
pub open spec fn spec_payload_data(s: Seq<u8>) -> Seq<bool> {
    match spec_payload_mode(s) {
        QrSegmentMode::Numeric => crate::segment::spec_numeric_bits(s),
        QrSegmentMode::Alphanumeric => crate::segment::spec_alnum_bits(s),
        _ => spec_byte_bits(s),
    }
}

/// Whether `segs` is the segment list that the greedy classifier yields
/// for the payload bytes: empty for an empty payload, else one segment in
/// the payload's mode carrying its character count and data bits.
pub open spec fn spec_text_segments(bytes: Seq<u8>, segs: Seq<QrSegment>) -> bool {
    if bytes.len() == 0 {
        segs.len() == 0
    } else {
        &&& segs.len() == 1
        &&& segs[0].wf()
        &&& segs[0].mode == spec_payload_mode(bytes)
        &&& segs[0].numchars == bytes.len()
        &&& segs[0].data@ == spec_payload_data(bytes)
    }
}

/// Whether a payload fits a symbol of (version, level) once segmented by
/// the greedy classifier; an empty payload always fits.
pub open spec fn spec_text_fits(bytes: Seq<u8>, e: QrCodeEcc, v: int) -> bool {
    if bytes.len() == 0 {
        true
    } else {
        spec_payload_fits(bytes, e, v)
    }
}

/// A payload's segment list fits exactly when the payload does.
pub proof fn lemma_text_fits_glue(segs: Seq<QrSegment>, bytes: Seq<u8>, e: QrCodeEcc, v: int)
    requires
        1 <= v <= 40,
        spec_text_segments(bytes, segs),
    ensures
        spec_fits(segs, e, v) == spec_text_fits(bytes, e, v),
{
    lemma_table_facts(v, e);
    if bytes.len() == 0 {
        assert(spec_needed_bits(segs, v) == 0);
        assert(spec_fits_cci(segs, v));
    } else {
        lemma_payload_fits_glue(segs, bytes, e, v);
    }
}

/// The segment list built from a nonempty payload fits exactly when the
/// payload does: glue between the segment-level and payload-level fit.
pub proof fn lemma_payload_fits_glue(ss: Seq<QrSegment>, s: Seq<u8>, e: QrCodeEcc, v: int)
    requires
        1 <= v <= 40,
        s.len() >= 1,
        ss.len() == 1,
        ss[0].wf(),
        ss[0].mode == spec_payload_mode(s),
        ss[0].numchars == s.len(),
    ensures
        spec_fits(ss, e, v) == spec_payload_fits(s, e, v),
{
    assert(ss.skip(1).len() == 0);
    assert(spec_needed_bits(ss.skip(1), v) == 0);
    assert(spec_needed_bits(ss, v) == 4 + ss[0].mode.spec_cci_bits(v) + ss[0].data@.len());
    assert(spec_fits_cci(ss, v) == (ss[0].numchars < ss[0].mode.spec_cci_cap(v))) by {
        if ss[0].numchars < ss[0].mode.spec_cci_cap(v) {
            assert forall|i: int| 0 <= i < ss.len() implies (#[trigger] ss[i]).numchars
                < ss[i].mode.spec_cci_cap(v) by {
                assert(i == 0);
            }
        }
    }
}

/// Data bits of one mode never shrink as the character count grows.
proof fn lemma_mode_bits_monotone(m: QrSegmentMode, n1: int, n2: int)
    requires
        0 <= n1 <= n2,
    ensures
        spec_mode_data_bits(m, n1) <= spec_mode_data_bits(m, n2),
{
    vstd::arithmetic::div_mod::lemma_fundamental_div_mod(n1, 3);
    vstd::arithmetic::div_mod::lemma_fundamental_div_mod(n2, 3);
    vstd::arithmetic::div_mod::lemma_fundamental_div_mod(n1, 2);
    vstd::arithmetic::div_mod::lemma_fundamental_div_mod(n2, 2);
    assert(n1 / 3 <= n2 / 3 && n1 / 2 <= n2 / 2) by (nonlinear_arith)
        requires
            0 <= n1 <= n2,
    ;
    match m {
        QrSegmentMode::Numeric => {
            assert(3 * spec_mode_data_bits(m, n1) <= 10 * n1 + 2);
            assert(10 * n2 <= 3 * spec_mode_data_bits(m, n2));
            if n1 < n2 {
                assert(10 * n1 + 2 <= 10 * n2);
            } else {
                assert(n1 == n2);
            }
        },
        QrSegmentMode::Alphanumeric => {
            assert(2 * spec_mode_data_bits(m, n1) <= 11 * n1 + 1);
            assert(11 * n2 <= 2 * spec_mode_data_bits(m, n2));
            if n1 < n2 {
                assert(11 * n1 + 1 <= 11 * n2);
            } else {
                assert(n1 == n2);
            }
        },
        QrSegmentMode::Byte => {
        },
        QrSegmentMode::Kanji => {
        },
    }
}

/// A prefix of an all-digit payload is all digits; likewise for the
/// alphanumeric character set.
proof fn lemma_prefix_charset(s1: Seq<u8>, s2: Seq<u8>)
    requires
        s2.take(s1.len() as int) == s1,
        s1.len() <= s2.len(),
    ensures
        spec_is_numeric(s2) ==> spec_is_numeric(s1),
        spec_is_alphanumeric(s2) ==> spec_is_alphanumeric(s1),
{
    if spec_is_numeric(s2) {
        assert forall|i: int| 0 <= i < s1.len() implies crate::segment::spec_is_digit(
            #[trigger] s1[i],
        ) by {
            assert(s1[i] == s2.take(s1.len() as int)[i]);
            assert(s2.take(s1.len() as int)[i] == s2[i]);
        }
    }
    if spec_is_alphanumeric(s2) {
        assert forall|i: int| 0 <= i < s1.len() implies crate::segment::spec_alnum_val(
            #[trigger] s1[i],
        ) != -1 by {
            assert(s1[i] == s2.take(s1.len() as int)[i]);
            assert(s2.take(s1.len() as int)[i] == s2[i]);
        }
    }
}

/// VERSION MONOTONICITY LAW: extending the payload never shrinks its
/// encoded bit length at any version, so the smallest fitting version
/// (the one the encoder selects) never decreases when the payload grows,
/// the level held fixed.
pub proof fn lemma_version_monotonic(s1: Seq<u8>, s2: Seq<u8>, e: QrCodeEcc, v: int)
    requires
        1 <= v <= 40,
        s1.len() >= 1,
        s1.len() <= s2.len(),
        s2.take(s1.len() as int) == s1,
        spec_payload_fits(s2, e, v),
    ensures
        spec_payload_fits(s1, e, v),
{
    lemma_prefix_charset(s1, s2);
    let m1 = spec_payload_mode(s1);
    let m2 = spec_payload_mode(s2);
    let n1 = s1.len() as int;
    let n2 = s2.len() as int;
    vstd::arithmetic::div_mod::lemma_fundamental_div_mod(n1, 3);
    vstd::arithmetic::div_mod::lemma_fundamental_div_mod(n2, 2);
    vstd::arithmetic::div_mod::lemma_fundamental_div_mod(n1, 2);
    if m1 == m2 {
        lemma_mode_bits_monotone(m1, n1, n2);
    } else {
        // the extension left the numeric or alphanumeric character set,
        // so the mode moved to a roomier one with more bits per character
        assert(3 * spec_mode_data_bits(QrSegmentMode::Numeric, n1) <= 10 * n1 + 2);
        assert(2 * spec_mode_data_bits(QrSegmentMode::Alphanumeric, n1) <= 11 * n1 + 1);
        if m1 == QrSegmentMode::Numeric && m2 == QrSegmentMode::Alphanumeric {
            assert(11 * n2 <= 2 * spec_mode_data_bits(m2, n2));
            assert(6 * (spec_mode_data_bits(m1, n1) + 1) <= 20 * n1 + 10);
            assert(20 * n1 + 10 <= 33 * n1);
            assert(33 * n1 <= 33 * n2) by (nonlinear_arith)
                requires
                    n1 <= n2,
            ;
            assert(spec_payload_bits(s1, v) <= spec_payload_bits(s2, v));
        } else if m1 == QrSegmentMode::Numeric && m2 == QrSegmentMode::Byte {
            assert(3 * (spec_mode_data_bits(m1, n1) + 2) <= 10 * n1 + 8);
            assert(10 * n1 + 8 <= 24 * n1);
            assert(24 * n1 <= 24 * n2) by (nonlinear_arith)
                requires
                    n1 <= n2,
            ;
            assert(spec_payload_bits(s1, v) <= spec_payload_bits(s2, v));
        } else {
            assert(m1 == QrSegmentMode::Alphanumeric && m2 == QrSegmentMode::Byte);
            assert(2 * (spec_mode_data_bits(m1, n1) + 1) <= 11 * n1 + 3);
            assert(11 * n1 + 3 <= 16 * n1);
            assert(16 * n1 <= 16 * n2) by (nonlinear_arith)
                requires
                    n1 <= n2,
            ;
            assert(spec_payload_bits(s1, v) <= spec_payload_bits(s2, v));
        }
    }
    assert(n1 < spec_payload_mode(s1).spec_cci_cap(v)) by {
        assert(n2 < m2.spec_cci_cap(v));
    }
}

} // verus!
