//! Page measurement units and their conversion to typographic points. All
//! lengths travel as `Milli`: thousandths of a unit on the way in,
//! thousandths of a point on the way out, so conversion stays exact for
//! integral configurations.
use vstd::prelude::*;

use crate::Milli;
use crate::strings::chars_eq;
use crate::strings::chars_to_string;
use crate::strings::lower_char;
use crate::strings::lower_char_exec;

verus! {

/// A length bound, in thousandths of a unit, under which every unit
/// conversion and every grid computation stays inside 64-bit integers.
pub const MAX_LENGTH_MILLI: i64 = 0x1_0000_0000_0000;

/// The unit a sheet-type configuration is written in.
#[derive(PartialEq, Eq, Debug, Clone, Copy, Structural)]
pub enum Units {
    Points,
    Inches,
    Millimeters,
}

/// Thousandths of a point for `n` thousandths of the given unit: one inch is
/// 72 points and one millimeter 2.835 points, rounded down where the
/// millimeter conversion is inexact.
pub open spec fn unit_points(u: Units, n: int) -> int {
    match u {
        Units::Points => n,
        Units::Inches => n * 72,
        Units::Millimeters => (n * 2835) / 1000,
    }
}

/// The lower-case form of a string's characters.
pub open spec fn lower_seq(s: Seq<char>) -> Seq<char> {
    s.map_values(|c: char| lower_char(c))
}

/// Case-folds every character of `s`.
pub fn lowercase(s: &str) -> (r: Vec<char>)
    ensures
        r@ == lower_seq(s@),
{
    let n = s.unicode_len();
    let mut r: Vec<char> = Vec::new();
    let mut i: usize = 0;
    while i < n
        invariant
            n == s@.len(),
            i <= n,
            r@.len() == i,
            forall|j: int| 0 <= j < i ==> r@[j] == lower_char(#[trigger] s@[j]),
        decreases n - i,
    {
        r.push(lower_char_exec(s.get_char(i)));
        i += 1;
    }
    proof {
        assert(r@ =~= lower_seq(s@));
    }
    r
}

/// A converted length is non-negative and at most 2835 thousandths of a
/// point per thousandth of a unit (the millimeter rate, the largest).
pub proof fn lemma_unit_points_bounds(u: Units, n: int)
    requires
        0 <= n,
    ensures
        0 <= unit_points(u, n) <= n * 2835,
{
    match u {
        Units::Points => {
            assert(n <= n * 2835) by (nonlinear_arith)
                requires
                    0 <= n,
            ;
        },
        Units::Inches => {
            assert(n * 72 <= n * 2835) by (nonlinear_arith)
                requires
                    0 <= n,
            ;
            assert(0 <= n * 72) by (nonlinear_arith)
                requires
                    0 <= n,
            ;
        },
        Units::Millimeters => {
            vstd::arithmetic::div_mod::lemma_div_pos_is_pos(n * 2835, 1000);
            vstd::arithmetic::div_mod::lemma_div_nonincreasing(n * 2835, 1000);
            assert(0 <= n * 2835) by (nonlinear_arith)
                requires
                    0 <= n,
            ;
        },
    }
}

#[derive(PartialEq, Eq, Debug)]
pub enum UnitError {
    InvalidUnits(String),
}

/// The unit a case-folded token names, or nothing for an unknown token.
pub open spec fn units_keyword(t: Seq<char>) -> Option<Units> {
    if t == "in"@ {
        Some(Units::Inches)
    } else if t == "pt"@ {
        Some(Units::Points)
    } else if t == "mm"@ {
        Some(Units::Millimeters)
    } else {
        None
    }
}

impl Units {
    /// Converts a length in this unit to thousandths of a point, as
    /// `unit_points` describes. The bound keeps the product exact in 64
    /// bits.
    pub fn convert_to_points(&self, length: Milli) -> (r: Milli)
        requires
            0 <= length <= MAX_LENGTH_MILLI,
        ensures
            r == unit_points(*self, length as int),
            0 <= r <= length * 2835,
    {
        proof {
            lemma_unit_points_bounds(*self, length as int);
        }
        match self {
            Units::Points => length,
            Units::Inches => length * 72,
            Units::Millimeters => (((length as u64) * 2835) / 1000) as i64,
        }
    }

    /// Reads a unit name, ignoring case; anything unknown is rejected,
    /// carrying the case-folded token.
    pub fn from_str(s: &str) -> (r: Result<Units, UnitError>)
        ensures
            units_keyword(lower_seq(s@)) matches Some(u) ==> r == Ok::<_, UnitError>(u),
            units_keyword(lower_seq(s@)) is None ==> (r matches Err(UnitError::InvalidUnits(t))
                && t@ == lower_seq(s@)),
    {
        let t = lowercase(s);
        if chars_eq(&t, "in") {
            Ok(Units::Inches)
        } else if chars_eq(&t, "pt") {
            Ok(Units::Points)
        } else if chars_eq(&t, "mm") {
            Ok(Units::Millimeters)
        } else {
            Err(UnitError::InvalidUnits(chars_to_string(&t)))
        }
    }
}

/// Thousandths of a point covered by `length` pixels at the given raster
/// density: each pixel is one `dpi`-th of an inch.
pub open spec fn pixel_points(length: int, dpi: int) -> int {
    (length * 72000) / dpi
}

/// Converts a pixel length to thousandths of a point at the given density.
pub fn pixels_to_points(length: usize, dpi: usize) -> (r: Milli)
    requires
        0 < dpi,
        length * 72000 <= i64::MAX,
    ensures
        r == pixel_points(length as int, dpi as int),
{
    proof {
        vstd::arithmetic::div_mod::lemma_div_pos_is_pos(length * 72000, dpi as int);
        vstd::arithmetic::div_mod::lemma_div_nonincreasing(length * 72000, dpi as int);
    }
    (((length as u64) * 72000) / (dpi as u64)) as i64
}

/// The uniform scale from pixels to whole points at the given density, as an
/// exact ratio: 72 points per `dpi` pixels.
pub fn scale_factor_at_dpi(dpi: usize) -> (r: (u64, u64))
    requires
        0 < dpi,
    ensures
        r.0 == 72 && r.1 == dpi,
{
    (72, dpi as u64)
}

} // verus!
