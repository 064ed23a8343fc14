//! Automatic sheet placement: margins, gutters and alignment give a grid of
//! item slots via floor division, plus crop lines at every row and column
//! boundary.
use vstd::prelude::*;

use vstd::arithmetic::div_mod::lemma_fundamental_div_mod;
use vstd::arithmetic::div_mod::lemma_fundamental_div_mod_converse_div;
use vstd::arithmetic::div_mod::lemma_fundamental_div_mod_converse_mod;
use vstd::arithmetic::div_mod::lemma_div_pos_is_pos;
use vstd::arithmetic::div_mod::lemma_mod_bound;
use vstd::arithmetic::mul::lemma_mul_inequality;
use vstd::arithmetic::mul::lemma_mul_nonnegative;
use vstd::arithmetic::mul::lemma_mul_is_commutative;
use vstd::arithmetic::div_mod::lemma_div_nonincreasing;

use crate::config::sheet::CardPlacement;
use crate::config::sheet::CropLine;
use crate::config::sheet::CropLineOrientation;
use crate::config::sheet::Dimensions;
use crate::config::units::lemma_unit_points_bounds;
use crate::config::units::lower_seq;
use crate::config::units::lowercase;
use crate::config::units::unit_points;
use crate::config::units::Units;
use crate::config::units::MAX_LENGTH_MILLI;
use crate::config::PlacementError;
use crate::strings::chars_eq;
use crate::strings::str_eq;
use crate::Milli;

verus! {

/// Whether crop lines are drawn, and how long they are.
#[derive(PartialEq, Eq, Debug, Clone, Copy, Structural)]
pub struct CropLines {
    pub length: CropLineLength,
}

/// Crop lines either span the whole page or only reach into the margins.
#[derive(PartialEq, Eq, Debug, Clone, Copy, Structural)]
pub enum CropLineLength {
    Margin,
    Full,
}

/// The crop-line length a case-folded token names; anything unknown reads as
/// margin-length.
pub open spec fn crop_line_length_keyword(t: Seq<char>) -> CropLineLength {
    if t == "full"@ {
        CropLineLength::Full
    } else {
        CropLineLength::Margin
    }
}

impl CropLineLength {
    /// Reads a crop-line length keyword, ignoring case; unknown keywords fall
    /// back to margin-length.
    pub fn from_str(s: &str) -> (r: CropLineLength)
        ensures
            r == crop_line_length_keyword(lower_seq(s@)),
    {
        let t = lowercase(s);
        if chars_eq(&t, "full") {
            CropLineLength::Full
        } else {
            CropLineLength::Margin
        }
    }
}

/// Per-side page margins, in the sheet type's units.
#[derive(PartialEq, Eq, Debug, Clone, Copy, Structural)]
pub struct Margins {
    pub top: Milli,
    pub right: Milli,
    pub bottom: Milli,
    pub left: Milli,
}

impl Margins {
    /// Margin sides are lengths: non-negative and small enough for exact
    /// conversion.
    pub open spec fn in_range(&self) -> bool {
        &&& 0 <= self.top <= MAX_LENGTH_MILLI
        &&& 0 <= self.right <= MAX_LENGTH_MILLI
        &&& 0 <= self.bottom <= MAX_LENGTH_MILLI
        &&& 0 <= self.left <= MAX_LENGTH_MILLI
    }

    /// Converts every side to thousandths of a point.
    pub fn into_points(&self, base_units: &Units) -> (r: Margins)
        requires
            self.in_range(),
        ensures
            r.top == unit_points(*base_units, self.top as int),
            r.right == unit_points(*base_units, self.right as int),
            r.bottom == unit_points(*base_units, self.bottom as int),
            r.left == unit_points(*base_units, self.left as int),
            0 <= r.top <= MAX_LENGTH_MILLI * 2835,
            0 <= r.right <= MAX_LENGTH_MILLI * 2835,
            0 <= r.bottom <= MAX_LENGTH_MILLI * 2835,
            0 <= r.left <= MAX_LENGTH_MILLI * 2835,
    {
        Margins {
            top: base_units.convert_to_points(self.top),
            right: base_units.convert_to_points(self.right),
            bottom: base_units.convert_to_points(self.bottom),
            left: base_units.convert_to_points(self.left),
        }
    }

    /// Reads the margin shorthand: one number for all sides, two for
    /// vertical/horizontal, four for top/right/bottom/left; any other count
    /// is rejected.
    pub fn from_args(args: &Vec<Milli>) -> (r: Result<Margins, PlacementError>)
        ensures
            args@.len() == 1 ==> r == Ok::<_, PlacementError>(
                Margins { top: args@[0], right: args@[0], bottom: args@[0], left: args@[0] },
            ),
            args@.len() == 2 ==> r == Ok::<_, PlacementError>(
                Margins { top: args@[0], right: args@[1], bottom: args@[0], left: args@[1] },
            ),
            args@.len() == 4 ==> r == Ok::<_, PlacementError>(
                Margins { top: args@[0], right: args@[1], bottom: args@[2], left: args@[3] },
            ),
            args@.len() != 1 && args@.len() != 2 && args@.len() != 4 ==> r == Err::<Margins, _>(
                PlacementError::InvalidMarginArguments,
            ),
    {
        if args.len() == 1 {
            Ok(Margins { top: args[0], right: args[0], bottom: args[0], left: args[0] })
        } else if args.len() == 2 {
            Ok(Margins { top: args[0], right: args[1], bottom: args[0], left: args[1] })
        } else if args.len() == 4 {
            Ok(Margins { top: args[0], right: args[1], bottom: args[2], left: args[3] })
        } else {
            Err(PlacementError::InvalidMarginArguments)
        }
    }
}

/// Space between adjacent grid columns (horizontal) and rows (vertical), in
/// the sheet type's units.
#[derive(PartialEq, Eq, Debug, Clone, Copy, Structural)]
pub struct Gutter {
    pub horizontal: Milli,
    pub vertical: Milli,
}

impl Gutter {
    /// Gutters are lengths: non-negative and small enough for exact
    /// conversion.
    pub open spec fn in_range(&self) -> bool {
        &&& 0 <= self.horizontal <= MAX_LENGTH_MILLI
        &&& 0 <= self.vertical <= MAX_LENGTH_MILLI
    }

    /// Converts both directions to thousandths of a point.
    pub fn into_points(&self, base_units: &Units) -> (r: Gutter)
        requires
            self.in_range(),
        ensures
            r.horizontal == unit_points(*base_units, self.horizontal as int),
            r.vertical == unit_points(*base_units, self.vertical as int),
            0 <= r.horizontal <= MAX_LENGTH_MILLI * 2835,
            0 <= r.vertical <= MAX_LENGTH_MILLI * 2835,
    {
        Gutter {
            horizontal: base_units.convert_to_points(self.horizontal),
            vertical: base_units.convert_to_points(self.vertical),
        }
    }

    /// Reads the gutter shorthand: one number for both directions, or
    /// vertical then horizontal; any other count is rejected.
    pub fn from_args(args: &Vec<Milli>) -> (r: Result<Gutter, PlacementError>)
        ensures
            args@.len() == 1 ==> r == Ok::<_, PlacementError>(
                Gutter { horizontal: args@[0], vertical: args@[0] },
            ),
            args@.len() == 2 ==> r == Ok::<_, PlacementError>(
                Gutter { horizontal: args@[1], vertical: args@[0] },
            ),
            args@.len() != 1 && args@.len() != 2 ==> r == Err::<Gutter, _>(
                PlacementError::InvalidGutterArguments,
            ),
    {
        if args.len() == 1 {
            Ok(Gutter { horizontal: args[0], vertical: args[0] })
        } else if args.len() == 2 {
            Ok(Gutter { horizontal: args[1], vertical: args[0] })
        } else {
            Err(PlacementError::InvalidGutterArguments)
        }
    }
}

impl Default for Gutter {
    fn default() -> (r: Self)
        ensures
            r == (Gutter { horizontal: 0 as Milli, vertical: 0 as Milli }),
    {
        Gutter { horizontal: 0, vertical: 0 }
    }
}

/// Where leftover horizontal space goes: after the grid, split around it, or
/// before it.
#[derive(PartialEq, Eq, Debug, Clone, Copy, Structural)]
pub enum Align {
    Left,
    Center,
    Right,
}

/// The alignment a token names, or nothing for an unknown token.
pub open spec fn align_keyword(s: Seq<char>) -> Option<Align> {
    if s == "left"@ {
        Some(Align::Left)
    } else if s == "center"@ {
        Some(Align::Center)
    } else if s == "right"@ {
        Some(Align::Right)
    } else {
        None
    }
}

impl Align {
    /// Reads an alignment; anything unknown is rejected with the offending
    /// token.
    pub fn from_str(s: &str) -> (r: Result<Align, PlacementError>)
        ensures
            align_keyword(s@) matches Some(a) ==> r == Ok::<_, PlacementError>(a),
            align_keyword(s@) is None ==> (r matches Err(PlacementError::InvalidAlignment(t))
                && t@ == s@),
    {
        if str_eq(s, "left") {
            Ok(Align::Left)
        } else if str_eq(s, "center") {
            Ok(Align::Center)
        } else if str_eq(s, "right") {
            Ok(Align::Right)
        } else {
            Err(PlacementError::InvalidAlignment(String::from_str(s)))
        }
    }
}

impl Default for Align {
    fn default() -> (r: Self)
        ensures
            r == Align::Left,
    {
        Align::Left
    }
}

/// The automatic placement specification of a sheet type.
#[derive(PartialEq, Eq, Debug, Clone, Copy, Structural)]
pub struct Automatic {
    pub crop_lines: Option<CropLines>,
    pub margins: Margins,
    pub gutter: Gutter,
    pub align: Align,
}

/// Negative lengths clamp to zero.
pub open spec fn clamp0(n: int) -> int {
    if n >= 0 {
        n
    } else {
        0
    }
}

/// The smaller of two lengths.
pub open spec fn min2(a: int, b: int) -> int {
    if a <= b {
        a
    } else {
        b
    }
}

/// How far leftover space pushes the grid to the right.
pub open spec fn align_offset(a: Align, leftover: int) -> int {
    match a {
        Align::Left => 0,
        Align::Center => leftover / 2,
        Align::Right => leftover,
    }
}

impl Automatic {
    /// The converted left margin, in thousandths of a point; the other sides
    /// follow the same pattern.
    pub open spec fn m_left(&self, u: Units) -> int {
        unit_points(u, self.margins.left as int)
    }

    pub open spec fn m_right(&self, u: Units) -> int {
        unit_points(u, self.margins.right as int)
    }

    pub open spec fn m_top(&self, u: Units) -> int {
        unit_points(u, self.margins.top as int)
    }

    pub open spec fn m_bottom(&self, u: Units) -> int {
        unit_points(u, self.margins.bottom as int)
    }

    pub open spec fn g_h(&self, u: Units) -> int {
        unit_points(u, self.gutter.horizontal as int)
    }

    pub open spec fn g_v(&self, u: Units) -> int {
        unit_points(u, self.gutter.vertical as int)
    }

    /// The usable content width: the page minus the side margins, clamped to
    /// zero.
    pub open spec fn content_w(&self, page: Dimensions, u: Units) -> int {
        clamp0(page.width - self.m_left(u) - self.m_right(u))
    }

    pub open spec fn content_h(&self, page: Dimensions, u: Units) -> int {
        clamp0(page.height - self.m_top(u) - self.m_bottom(u))
    }

    /// The column count: how many gutter-separated items fit across the
    /// content area, by floor division.
    pub open spec fn ncols(&self, page: Dimensions, card: Dimensions, u: Units) -> int {
        (self.content_w(page, u) + self.g_h(u)) / (card.width + self.g_h(u))
    }

    /// The row count, analogously.
    pub open spec fn nrows(&self, page: Dimensions, card: Dimensions, u: Units) -> int {
        (self.content_h(page, u) + self.g_v(u)) / (card.height + self.g_v(u))
    }

    /// Horizontal space left once every full column is packed.
    pub open spec fn leftover_w(&self, page: Dimensions, card: Dimensions, u: Units) -> int {
        self.content_w(page, u) - (self.ncols(page, card, u) * card.width + (self.ncols(
            page,
            card,
            u,
        ) - 1) * self.g_h(u))
    }

    /// The x coordinate of the first column, after alignment.
    pub open spec fn x_start(&self, page: Dimensions, card: Dimensions, u: Units) -> int {
        self.m_left(u) + align_offset(self.align, self.leftover_w(page, card, u))
    }

    /// The x coordinate of the given column's slots.
    pub open spec fn slot_x(&self, page: Dimensions, card: Dimensions, u: Units, col: int) -> int {
        self.x_start(page, card, u) + col * (card.width + self.g_h(u))
    }

    /// The y coordinate of the given row's slots.
    pub open spec fn slot_y(&self, page: Dimensions, card: Dimensions, u: Units, row: int) -> int {
        self.m_top(u) + row * (card.height + self.g_v(u))
    }

    /// The length of horizontal crop lines, when crop lines are requested:
    /// the full page width, or the smaller side margin.
    pub open spec fn h_crop_len(&self, page: Dimensions, u: Units) -> Option<int> {
        match self.crop_lines {
            None => None,
            Some(cl) => Some(
                match cl.length {
                    CropLineLength::Full => page.width as int,
                    CropLineLength::Margin => min2(self.m_left(u), self.m_right(u)),
                },
            ),
        }
    }

    /// The length of vertical crop lines, when crop lines are requested.
    pub open spec fn v_crop_len(&self, page: Dimensions, u: Units) -> Option<int> {
        match self.crop_lines {
            None => None,
            Some(cl) => Some(
                match cl.length {
                    CropLineLength::Full => page.height as int,
                    CropLineLength::Margin => min2(self.m_top(u), self.m_bottom(u)),
                },
            ),
        }
    }

    /// The horizontal crop lines of the first `j` rows: one along each row's
    /// top edge, and one along its bottom edge when the vertical gutter is
    /// positive or the row is the last (so coincident zero-gutter edges are
    /// not doubled).
    pub open spec fn h_lines_upto(&self, page: Dimensions, card: Dimensions, u: Units, j: int) -> Seq<
        CropLine,
    >
        decreases j,
    {
        if j <= 0 || self.h_crop_len(page, u) is None {
            Seq::empty()
        } else {
            let len = self.h_crop_len(page, u)->0;
            let top = CropLine {
                orientation: CropLineOrientation::Horizontal,
                offset: self.slot_y(page, card, u, j - 1) as i64,
                length: len as i64,
            };
            let bottom = CropLine {
                orientation: CropLineOrientation::Horizontal,
                offset: (self.slot_y(page, card, u, j - 1) + card.height) as i64,
                length: len as i64,
            };
            self.h_lines_upto(page, card, u, j - 1) + (if self.g_v(u) > 0 || j == self.nrows(
                page,
                card,
                u,
            ) {
                seq![top, bottom]
            } else {
                seq![top]
            })
        }
    }

    /// The vertical crop lines of the first `i` columns, analogously.
    pub open spec fn v_lines_upto(&self, page: Dimensions, card: Dimensions, u: Units, i: int) -> Seq<
        CropLine,
    >
        decreases i,
    {
        if i <= 0 || self.v_crop_len(page, u) is None {
            Seq::empty()
        } else {
            let len = self.v_crop_len(page, u)->0;
            let left = CropLine {
                orientation: CropLineOrientation::Vertical,
                offset: self.slot_x(page, card, u, i - 1) as i64,
                length: len as i64,
            };
            let right = CropLine {
                orientation: CropLineOrientation::Vertical,
                offset: (self.slot_x(page, card, u, i - 1) + card.width) as i64,
                length: len as i64,
            };
            self.v_lines_upto(page, card, u, i - 1) + (if self.g_h(u) > 0 || i == self.ncols(
                page,
                card,
                u,
            ) {
                seq![left, right]
            } else {
                seq![left]
            })
        }
    }

    /// The inputs under which the planner's 64-bit arithmetic is exact: page
    /// and item dimensions are in range, the item has positive size, and
    /// margins and gutters are in range.
    pub open spec fn compile_wf(&self, page: Dimensions, card: Dimensions) -> bool {
        &&& 0 <= page.width <= MAX_LENGTH_MILLI
        &&& 0 <= page.height <= MAX_LENGTH_MILLI
        &&& 0 < card.width <= MAX_LENGTH_MILLI
        &&& 0 < card.height <= MAX_LENGTH_MILLI
        &&& self.margins.in_range()
        &&& self.gutter.in_range()
    }
    /// With at least one full column, the content area really is the page
    /// minus the side margins, every packed column fits inside it, and the
    /// leftover is exactly what the floor division leaves.
    pub proof fn lemma_columns_fit(&self, page: Dimensions, card: Dimensions, u: Units)
        requires
            self.compile_wf(page, card),
            self.ncols(page, card, u) >= 1,
        ensures
            0 <= self.g_h(u),
            self.ncols(page, card, u) * (card.width + self.g_h(u)) <= self.content_w(page, u)
                + self.g_h(u),
            self.leftover_w(page, card, u) == self.content_w(page, u) + self.g_h(u) - self.ncols(
                page,
                card,
                u,
            ) * (card.width + self.g_h(u)),
            0 <= self.leftover_w(page, card, u) <= self.content_w(page, u),
            0 <= align_offset(self.align, self.leftover_w(page, card, u)) <= self.leftover_w(
                page,
                card,
                u,
            ),
            self.content_w(page, u) == page.width - self.m_left(u) - self.m_right(u),
    {
        let gh = self.g_h(u);
        let w = self.content_w(page, u);
        let step = card.width + gh;
        let nc = self.ncols(page, card, u);
        lemma_unit_points_bounds(u, self.gutter.horizontal as int);
        lemma_fundamental_div_mod(w + gh, step);
        lemma_mod_bound(w + gh, step);
        lemma_mul_is_commutative(nc, step);
        assert(nc * step <= w + gh);
        assert(self.leftover_w(page, card, u) == w + gh - nc * step) by (nonlinear_arith)
            requires
                self.leftover_w(page, card, u) == w - (nc * card.width + (nc - 1) * gh),
                step == card.width + gh,
        ;
        let lo = self.leftover_w(page, card, u);
        if self.align is Center {
            lemma_div_pos_is_pos(lo, 2);
            lemma_div_nonincreasing(lo, 2);
        }
        assert(step <= nc * step) by (nonlinear_arith)
            requires
                nc >= 1,
                step > 0,
        ;
    }

    /// The row-direction counterpart of `lemma_columns_fit`.
    pub proof fn lemma_rows_fit(&self, page: Dimensions, card: Dimensions, u: Units)
        requires
            self.compile_wf(page, card),
            self.nrows(page, card, u) >= 1,
        ensures
            0 <= self.g_v(u),
            self.nrows(page, card, u) * (card.height + self.g_v(u)) <= self.content_h(page, u)
                + self.g_v(u),
            self.content_h(page, u) == page.height - self.m_top(u) - self.m_bottom(u),
    {
        let gv = self.g_v(u);
        let h = self.content_h(page, u);
        let step = card.height + gv;
        let nr = self.nrows(page, card, u);
        lemma_unit_points_bounds(u, self.gutter.vertical as int);
        lemma_fundamental_div_mod(h + gv, step);
        lemma_mod_bound(h + gv, step);
        lemma_mul_is_commutative(nr, step);
        assert(step <= nr * step) by (nonlinear_arith)
            requires
                nr >= 1,
                step > 0,
        ;
    }

    /// Every slot of the automatic grid lies fully inside the page's content
    /// area: between the margins on all four sides.
    pub proof fn lemma_slot_inside_page(
        &self,
        page: Dimensions,
        card: Dimensions,
        u: Units,
        col: int,
        row: int,
    )
        requires
            self.compile_wf(page, card),
            0 <= col < self.ncols(page, card, u),
            0 <= row < self.nrows(page, card, u),
        ensures
            self.m_left(u) <= self.slot_x(page, card, u, col),
            self.slot_x(page, card, u, col) + card.width <= page.width - self.m_right(u),
            self.m_top(u) <= self.slot_y(page, card, u, row),
            self.slot_y(page, card, u, row) + card.height <= page.height - self.m_bottom(u),
    {
        self.lemma_columns_fit(page, card, u);
        self.lemma_rows_fit(page, card, u);
        let gh = self.g_h(u);
        let gv = self.g_v(u);
        let colstep = card.width + gh;
        let rowstep = card.height + gv;
        let nc = self.ncols(page, card, u);
        let nr = self.nrows(page, card, u);
        let lo = self.leftover_w(page, card, u);
        lemma_mul_nonnegative(col, colstep);
        lemma_mul_inequality(col, nc - 1, colstep);
        assert((nc - 1) * colstep == nc * colstep - colstep) by (nonlinear_arith);
        lemma_mul_nonnegative(row, rowstep);
        lemma_mul_inequality(row, nr - 1, rowstep);
        assert((nr - 1) * rowstep == nr * rowstep - rowstep) by (nonlinear_arith);
    }

    /// Distinct slots of the automatic grid never overlap: slots in
    /// different columns are at least a full item width apart, slots in
    /// different rows at least a full item height.
    pub proof fn lemma_slots_disjoint(
        &self,
        page: Dimensions,
        card: Dimensions,
        u: Units,
        col1: int,
        row1: int,
        col2: int,
        row2: int,
    )
        requires
            self.compile_wf(page, card),
            0 <= col1 < self.ncols(page, card, u),
            0 <= row1 < self.nrows(page, card, u),
            0 <= col2 < self.ncols(page, card, u),
            0 <= row2 < self.nrows(page, card, u),
            col1 != col2 || row1 != row2,
        ensures
            self.slot_x(page, card, u, col1) + card.width <= self.slot_x(page, card, u, col2)
                || self.slot_x(page, card, u, col2) + card.width <= self.slot_x(
                page,
                card,
                u,
                col1,
            ) || self.slot_y(page, card, u, row1) + card.height <= self.slot_y(
                page,
                card,
                u,
                row2,
            ) || self.slot_y(page, card, u, row2) + card.height <= self.slot_y(
                page,
                card,
                u,
                row1,
            ),
    {
        lemma_unit_points_bounds(u, self.gutter.horizontal as int);
        lemma_unit_points_bounds(u, self.gutter.vertical as int);
        let gh = self.g_h(u);
        let gv = self.g_v(u);
        let colstep = card.width + gh;
        let rowstep = card.height + gv;
        if col1 < col2 {
            assert(col1 * colstep + colstep <= col2 * colstep) by (nonlinear_arith)
                requires
                    col1 + 1 <= col2,
                    colstep > 0,
            ;
        } else if col2 < col1 {
            assert(col2 * colstep + colstep <= col1 * colstep) by (nonlinear_arith)
                requires
                    col2 + 1 <= col1,
                    colstep > 0,
            ;
        } else if row1 < row2 {
            assert(row1 * rowstep + rowstep <= row2 * rowstep) by (nonlinear_arith)
                requires
                    row1 + 1 <= row2,
                    rowstep > 0,
            ;
        } else {
            assert(row2 * rowstep + rowstep <= row1 * rowstep) by (nonlinear_arith)
                requires
                    row2 + 1 <= row1,
                    rowstep > 0,
            ;
        }
    }

    /// With center alignment the leftover space splits evenly around the
    /// grid: the gap before the first column equals the gap after the last
    /// one. Stated for leftovers of an even number of length units, where
    /// halving is exact; a leftover of odd size leaves the right gap one
    /// thousandth of a point wider.
    pub proof fn lemma_center_symmetric(&self, page: Dimensions, card: Dimensions, u: Units)
        requires
            self.compile_wf(page, card),
            self.align is Center,
            self.ncols(page, card, u) >= 1,
            self.leftover_w(page, card, u) % 2 == 0,
        ensures
            self.x_start(page, card, u) - self.m_left(u) == (page.width - self.m_right(u)) - (
            self.slot_x(page, card, u, self.ncols(page, card, u) - 1) + card.width),
    {
        self.lemma_columns_fit(page, card, u);
        let gh = self.g_h(u);
        let colstep = card.width + gh;
        let nc = self.ncols(page, card, u);
        let lo = self.leftover_w(page, card, u);
        lemma_fundamental_div_mod(lo, 2);
        assert((nc - 1) * colstep == nc * colstep - colstep) by (nonlinear_arith);
    }

    /// Plans the automatic grid: converts margins and gutters to points,
    /// computes the column and row counts by floor division, and emits the
    /// slots row by row in reading order — left to right, then top to bottom
    /// — followed by the crop lines, horizontal then vertical. A grid with
    /// no full column or no full row has no slots and no crop lines.
    #[verifier::rlimit(100)]
    pub fn compile(&self, page: &Dimensions, card: &Dimensions, base_units: &Units) -> (r: (
        Vec<CardPlacement>,
        Vec<CropLine>,
    ))
        requires
            self.compile_wf(*page, *card),
        ensures
            ({
                let u = *base_units;
                let nc = self.ncols(*page, *card, u);
                let nr = self.nrows(*page, *card, u);
                &&& (nc == 0 || nr == 0) ==> (r.0@.len() == 0 && r.1@.len() == 0)
                &&& (nc > 0 && nr > 0) ==> {
                    &&& r.0@.len() == nr * nc
                    &&& (forall|k: int|
                        0 <= k < r.0@.len() ==> {
                            &&& (#[trigger] r.0@[k]).x == self.slot_x(*page, *card, u, k % (
                            nc as int))
                            &&& r.0@[k].y == self.slot_y(*page, *card, u, k / (nc as int))
                            &&& r.0@[k].rotate is None
                            &&& r.0@[k].reflect is None
                        })
                    &&& r.1@ == self.h_lines_upto(*page, *card, u, nr) + self.v_lines_upto(
                        *page,
                        *card,
                        u,
                        nc,
                    )
                }
            }),
    {
        let u = *base_units;
        let ghost gpage = *page;
        let ghost gcard = *card;
        let margins = self.margins.into_points(base_units);
        let gutter = self.gutter.into_points(base_units);
        proof {
            assert(MAX_LENGTH_MILLI * 2835 == 0x1_0000_0000_0000i64 * 2835);
        }

        let cw: i64 = if page.width >= margins.left && page.width - margins.left >= margins.right {
            page.width - margins.left - margins.right
        } else {
            0
        };
        let ch: i64 = if page.height >= margins.top && page.height - margins.top >= margins.bottom {
            page.height - margins.top - margins.bottom
        } else {
            0
        };
        proof {
            assert(cw == self.content_w(gpage, u));
            assert(ch == self.content_h(gpage, u));
        }

        let ncols: i64 = (((cw + gutter.horizontal) as u64) / ((card.width + gutter.horizontal)
            as u64)) as i64;
        let nrows: i64 = (((ch + gutter.vertical) as u64) / ((card.height + gutter.vertical)
            as u64)) as i64;
        proof {
            lemma_div_pos_is_pos(cw + self.g_h(u), gcard.width + self.g_h(u));
            lemma_div_pos_is_pos(ch + self.g_v(u), gcard.height + self.g_v(u));
            lemma_div_nonincreasing(cw + self.g_h(u), gcard.width + self.g_h(u));
            lemma_div_nonincreasing(ch + self.g_v(u), gcard.height + self.g_v(u));
            assert(ncols == self.ncols(gpage, gcard, u));
            assert(nrows == self.nrows(gpage, gcard, u));
        }

        if ncols == 0 || nrows == 0 {
            let slots: Vec<CardPlacement> = Vec::new();
            let lines: Vec<CropLine> = Vec::new();
            return (slots, lines);
        }

        let ghost pb: int = MAX_LENGTH_MILLI * 2835;
        let ghost colstep: int = gcard.width + self.g_h(u);
        let ghost rowstep: int = gcard.height + self.g_v(u);
        proof {
            lemma_fundamental_div_mod(cw + self.g_h(u), colstep);
            lemma_mod_bound(cw + self.g_h(u), colstep);
            lemma_fundamental_div_mod(ch + self.g_v(u), rowstep);
            lemma_mod_bound(ch + self.g_v(u), rowstep);
            // every full column and row fits inside the content area
            lemma_mul_is_commutative(ncols as int, colstep);
            lemma_mul_is_commutative(nrows as int, rowstep);
            assert(ncols * colstep <= cw + self.g_h(u));
            assert(nrows * rowstep <= ch + self.g_v(u));
            assert(self.leftover_w(gpage, gcard, u) == cw + self.g_h(u) - ncols * colstep)
                by (nonlinear_arith)
                requires
                    self.leftover_w(gpage, gcard, u) == cw - (ncols * gcard.width + (ncols - 1)
                        * self.g_h(u)),
                    colstep == gcard.width + self.g_h(u),
                    ncols == self.ncols(gpage, gcard, u),
                    cw == self.content_w(gpage, u),
            ;
            assert(0 <= self.leftover_w(gpage, gcard, u) <= cw);
        }

        let leftover: i64 = cw - (ncols * card.width + (ncols - 1) * gutter.horizontal);
        proof {
            assert(ncols * gcard.width + (ncols - 1) * self.g_h(u) == ncols * colstep - self.g_h(
                u,
            )) by (nonlinear_arith)
                requires
                    colstep == gcard.width + self.g_h(u),
            ;
            assert(0 <= ncols * gcard.width) by (nonlinear_arith)
                requires
                    ncols >= 0,
                    gcard.width > 0,
            ;
        }
        let x_start: i64 = margins.left + (match self.align {
            Align::Left => 0,
            Align::Center => ((leftover as u64) / 2) as i64,
            Align::Right => leftover,
        });
        let y_start: i64 = margins.top;
        proof {
            if self.align is Center {
                lemma_div_pos_is_pos(leftover as int, 2);
                lemma_div_nonincreasing(leftover as int, 2);
            }
            assert(x_start == self.x_start(gpage, gcard, u));
            assert(0 <= x_start <= 2 * pb);
            assert(y_start == self.m_top(u));
        }

        let mut slots: Vec<CardPlacement> = Vec::new();
        let mut j: i64 = 0;
        while j < nrows
            invariant
                self.compile_wf(gpage, gcard),
                u == *base_units,
                pb == MAX_LENGTH_MILLI * 2835,
                0 <= j <= nrows,
                ncols == self.ncols(gpage, gcard, u),
                nrows == self.nrows(gpage, gcard, u),
                ncols > 0 && nrows > 0,
                colstep == gcard.width + self.g_h(u),
                rowstep == gcard.height + self.g_v(u),
                0 < colstep <= 2 * pb,
                0 < rowstep <= 2 * pb,
                ncols * colstep <= 2 * pb,
                nrows * rowstep <= 2 * pb,
                x_start == self.x_start(gpage, gcard, u),
                0 <= x_start <= 2 * pb,
                y_start == self.m_top(u),
                0 <= y_start <= pb,
                card.width == gcard.width && card.height == gcard.height,
                gutter.horizontal == self.g_h(u) && gutter.vertical == self.g_v(u),
                slots@.len() == j * ncols,
                forall|k: int|
                    0 <= k < slots@.len() ==> {
                        &&& (#[trigger] slots@[k]).x == self.slot_x(gpage, gcard, u, k % (
                        ncols as int))
                        &&& slots@[k].y == self.slot_y(gpage, gcard, u, k / (ncols as int))
                        &&& slots@[k].rotate is None
                        &&& slots@[k].reflect is None
                    },
            decreases nrows - j,
        {
            proof {
                lemma_mul_inequality(j as int, nrows as int, rowstep);
                lemma_mul_nonnegative(j as int, rowstep);
            }
            let row_y: i64 = y_start + j * (card.height + gutter.vertical);
            proof {
                assert(row_y == self.slot_y(gpage, gcard, u, j as int));
            }
            let mut i: i64 = 0;
            while i < ncols
                invariant
                    self.compile_wf(gpage, gcard),
                    u == *base_units,
                    pb == MAX_LENGTH_MILLI * 2835,
                    0 <= i <= ncols,
                    0 <= j < nrows,
                    ncols == self.ncols(gpage, gcard, u),
                    nrows == self.nrows(gpage, gcard, u),
                    colstep == gcard.width + self.g_h(u),
                    rowstep == gcard.height + self.g_v(u),
                    0 < colstep <= 2 * pb,
                    ncols * colstep <= 2 * pb,
                    x_start == self.x_start(gpage, gcard, u),
                    0 <= x_start <= 2 * pb,
                    card.width == gcard.width && card.height == gcard.height,
                    gutter.horizontal == self.g_h(u) && gutter.vertical == self.g_v(u),
                    row_y == self.slot_y(gpage, gcard, u, j as int),
                    0 <= row_y <= 3 * pb,
                    slots@.len() == j * ncols + i,
                    forall|k: int|
                        0 <= k < slots@.len() ==> {
                            &&& (#[trigger] slots@[k]).x == self.slot_x(gpage, gcard, u, k % (
                            ncols as int))
                            &&& slots@[k].y == self.slot_y(gpage, gcard, u, k / (ncols as int))
                            &&& slots@[k].rotate is None
                            &&& slots@[k].reflect is None
                        },
                decreases ncols - i,
            {
                proof {
                    lemma_mul_inequality(i as int, ncols as int, colstep);
                    lemma_mul_nonnegative(i as int, colstep);
                }
                let x: i64 = x_start + i * (card.width + gutter.horizontal);
                proof {
                    assert(x == self.slot_x(gpage, gcard, u, i as int));
                    assert(j * ncols + i < nrows * ncols) by (nonlinear_arith)
                        requires
                            0 <= i < ncols,
                            0 <= j < nrows,
                    ;
                    lemma_fundamental_div_mod_converse_div(
                        (j as int) * (ncols as int) + (i as int),
                        ncols as int,
                        j as int,
                        i as int,
                    );
                    lemma_fundamental_div_mod_converse_mod(
                        (j as int) * (ncols as int) + (i as int),
                        ncols as int,
                        j as int,
                        i as int,
                    );
                }
                slots.push(CardPlacement { x, y: row_y, rotate: None, reflect: None });
                i += 1;
            }
            proof {
                assert(j * ncols + ncols == (j + 1) * ncols) by (nonlinear_arith);
            }
            j += 1;
        }
        proof {
            assert(slots@.len() == nrows * ncols);
        }

        let mut lines: Vec<CropLine> = Vec::new();

        let h_len: Option<i64> = match &self.crop_lines {
            Some(cl) => Some(
                match cl.length {
                    CropLineLength::Full => page.width,
                    CropLineLength::Margin => {
                        if margins.left <= margins.right {
                            margins.left
                        } else {
                            margins.right
                        }
                    },
                },
            ),
            None => None,
        };
        let v_len: Option<i64> = match &self.crop_lines {
            Some(cl) => Some(
                match cl.length {
                    CropLineLength::Full => page.height,
                    CropLineLength::Margin => {
                        if margins.top <= margins.bottom {
                            margins.top
                        } else {
                            margins.bottom
                        }
                    },
                },
            ),
            None => None,
        };
        proof {
            assert(match h_len {
                Some(l) => self.h_crop_len(gpage, u) == Some(l as int),
                None => self.h_crop_len(gpage, u) is None,
            });
            assert(match v_len {
                Some(l) => self.v_crop_len(gpage, u) == Some(l as int),
                None => self.v_crop_len(gpage, u) is None,
            });
        }

        if let Some(hl) = h_len {
            let mut j: i64 = 0;
            proof {
                assert(lines@ =~= self.h_lines_upto(gpage, gcard, u, 0));
            }
            while j < nrows
                invariant
                    self.compile_wf(gpage, gcard),
                    u == *base_units,
                    pb == MAX_LENGTH_MILLI * 2835,
                    0 <= j <= nrows,
                    ncols == self.ncols(gpage, gcard, u),
                    nrows == self.nrows(gpage, gcard, u),
                    ncols > 0 && nrows > 0,
                    rowstep == gcard.height + self.g_v(u),
                    0 < rowstep <= 2 * pb,
                    nrows * rowstep <= 2 * pb,
                    y_start == self.m_top(u),
                    0 <= y_start <= pb,
                    card.width == gcard.width && card.height == gcard.height,
                    gutter.horizontal == self.g_h(u) && gutter.vertical == self.g_v(u),
                    self.h_crop_len(gpage, u) == Some(hl as int),
                    lines@ == self.h_lines_upto(gpage, gcard, u, j as int),
                decreases nrows - j,
            {
                proof {
                    lemma_mul_inequality(j as int, nrows as int, rowstep);
                    lemma_mul_nonnegative(j as int, rowstep);
                }
                let row_y: i64 = y_start + j * (card.height + gutter.vertical);
                proof {
                    assert(row_y == self.slot_y(gpage, gcard, u, j as int));
                }
                lines.push(
                    CropLine {
                        orientation: CropLineOrientation::Horizontal,
                        offset: row_y,
                        length: hl,
                    },
                );
                if gutter.vertical > 0 || j == nrows - 1 {
                    lines.push(
                        CropLine {
                            orientation: CropLineOrientation::Horizontal,
                            offset: row_y + card.height,
                            length: hl,
                        },
                    );
                }
                proof {
                    assert(lines@ =~= self.h_lines_upto(gpage, gcard, u, j + 1));
                }
                j += 1;
            }
        }
        proof {
            if h_len is None {
                assert(lines@ =~= self.h_lines_upto(gpage, gcard, u, nrows as int));
            }
        }

        let ghost h_done = lines@;
        if let Some(vl) = v_len {
            let mut i: i64 = 0;
            proof {
                assert(lines@ =~= h_done + self.v_lines_upto(gpage, gcard, u, 0));
            }
            while i < ncols
                invariant
                    self.compile_wf(gpage, gcard),
                    u == *base_units,
                    pb == MAX_LENGTH_MILLI * 2835,
                    0 <= i <= ncols,
                    ncols == self.ncols(gpage, gcard, u),
                    nrows == self.nrows(gpage, gcard, u),
                    ncols > 0 && nrows > 0,
                    colstep == gcard.width + self.g_h(u),
                    0 < colstep <= 2 * pb,
                    ncols * colstep <= 2 * pb,
                    x_start == self.x_start(gpage, gcard, u),
                    0 <= x_start <= 2 * pb,
                    card.width == gcard.width && card.height == gcard.height,
                    gutter.horizontal == self.g_h(u) && gutter.vertical == self.g_v(u),
                    self.v_crop_len(gpage, u) == Some(vl as int),
                    h_done == self.h_lines_upto(gpage, gcard, u, nrows as int),
                    lines@ == h_done + self.v_lines_upto(gpage, gcard, u, i as int),
                decreases ncols - i,
            {
                proof {
                    lemma_mul_inequality(i as int, ncols as int, colstep);
                    lemma_mul_nonnegative(i as int, colstep);
                }
                let column_x: i64 = x_start + i * (card.width + gutter.horizontal);
                proof {
                    assert(column_x == self.slot_x(gpage, gcard, u, i as int));
                }
                lines.push(
                    CropLine {
                        orientation: CropLineOrientation::Vertical,
                        offset: column_x,
                        length: vl,
                    },
                );
                if gutter.horizontal > 0 || i == ncols - 1 {
                    lines.push(
                        CropLine {
                            orientation: CropLineOrientation::Vertical,
                            offset: column_x + card.width,
                            length: vl,
                        },
                    );
                }
                proof {
                    assert(lines@ =~= h_done + self.v_lines_upto(gpage, gcard, u, i + 1));
                }
                i += 1;
            }
        }
        proof {
            if v_len is None {
                assert(lines@ =~= self.h_lines_upto(gpage, gcard, u, nrows as int)
                    + self.v_lines_upto(gpage, gcard, u, ncols as int));
            }
        }

        (slots, lines)
    }
}

} // verus!
