//! Manual sheet placement: an explicit ordered slot list, plus an optional
//! explicit crop-line list with a shared default length.
use vstd::prelude::*;

use crate::config::sheet::CardPlacement;
use crate::config::sheet::CropLine;
use crate::config::sheet::CropLineOrientation;
use crate::config::units::unit_points;
use crate::config::units::Units;
use crate::config::units::MAX_LENGTH_MILLI;
use crate::config::PlacementError;
use crate::strings::str_eq;
use crate::Milli;

verus! {

/// One explicit slot: a position, an optional rotation (thousandths of a
/// degree) and an optional reflection.
#[derive(PartialEq, Eq, Debug, Clone, Copy, Structural)]
pub struct Card {
    pub x: Milli,
    pub y: Milli,
    pub rotate: Option<Milli>,
    pub flip: Option<Axis>,
}

#[derive(PartialEq, Eq, Debug, Clone, Copy, Structural)]
pub enum Axis {
    Horizontal,
    Vertical,
}

/// The reflection axis a token names, or nothing for an unknown token.
pub open spec fn axis_keyword(s: Seq<char>) -> Option<Axis> {
    if s == "horizontal"@ {
        Some(Axis::Horizontal)
    } else if s == "vertical"@ {
        Some(Axis::Vertical)
    } else {
        None
    }
}

impl Axis {
    /// Reads a reflection axis; anything unknown is rejected with the
    /// offending token.
    pub fn from_str(s: &str) -> (r: Result<Axis, PlacementError>)
        ensures
            axis_keyword(s@) matches Some(a) ==> r == Ok::<_, PlacementError>(a),
            axis_keyword(s@) is None ==> (r matches Err(PlacementError::InvalidAxis(t)) && t@
                == s@),
    {
        if str_eq(s, "horizontal") {
            Ok(Axis::Horizontal)
        } else if str_eq(s, "vertical") {
            Ok(Axis::Vertical)
        } else {
            Err(PlacementError::InvalidAxis(String::from_str(s)))
        }
    }
}

/// One explicit crop line: its offset, and its own length when it has one.
#[derive(PartialEq, Eq, Debug, Clone, Copy, Structural)]
pub enum Line {
    Horizontal(Milli, Option<Milli>),
    Vertical(Milli, Option<Milli>),
}

/// The explicit crop-line list, with an optional shared default length.
#[derive(PartialEq, Eq, Debug)]
pub struct CropLines {
    pub length: Option<Milli>,
    pub lines: Vec<Line>,
}

/// The sheet-plan axis a manual reflection maps to.
pub open spec fn sheet_axis(a: Axis) -> crate::config::sheet::Axis {
    match a {
        Axis::Horizontal => crate::config::sheet::Axis::Horizontal,
        Axis::Vertical => crate::config::sheet::Axis::Vertical,
    }
}

/// A manual length value is in conversion range.
pub open spec fn len_ok(n: Milli) -> bool {
    0 <= n <= MAX_LENGTH_MILLI
}

/// A crop-line entry's offset and own length are in conversion range.
pub open spec fn line_ok(l: Line) -> bool {
    match l {
        Line::Horizontal(off, len) => len_ok(off) && (len matches Some(v) ==> len_ok(v)),
        Line::Vertical(off, len) => len_ok(off) && (len matches Some(v) ==> len_ok(v)),
    }
}

impl Card {
    /// The slot's coordinates are in conversion range.
    pub open spec fn in_range(&self) -> bool {
        len_ok(self.x) && len_ok(self.y)
    }

    /// The compiled slot this entry stands for, in thousandths of a point.
    pub open spec fn compiled(&self, u: Units) -> CardPlacement {
        CardPlacement {
            x: unit_points(u, self.x as int) as i64,
            y: unit_points(u, self.y as int) as i64,
            rotate: self.rotate,
            reflect: match self.flip {
                Some(a) => Some(sheet_axis(a)),
                None => None,
            },
        }
    }

    /// Converts this entry to a compiled slot.
    pub fn compile(&self, base_units: &Units) -> (r: CardPlacement)
        requires
            self.in_range(),
        ensures
            r == self.compiled(*base_units),
    {
        let r = CardPlacement {
            x: base_units.convert_to_points(self.x),
            y: base_units.convert_to_points(self.y),
            rotate: self.rotate,
            reflect: match self.flip {
                Some(Axis::Horizontal) => Some(crate::config::sheet::Axis::Horizontal),
                Some(Axis::Vertical) => Some(crate::config::sheet::Axis::Vertical),
                None => None,
            },
        };
        proof {
            crate::config::units::lemma_unit_points_bounds(*base_units, self.x as int);
            crate::config::units::lemma_unit_points_bounds(*base_units, self.y as int);
        }
        r
    }
}

/// The compiled crop lines an explicit list stands for: each line takes its
/// own length, else the shared default, else zero; lines whose resolved
/// length is not positive are dropped.
pub open spec fn manual_lines(lines: Seq<Line>, default_len: Option<Milli>, u: Units) -> Seq<
    CropLine,
>
    decreases lines.len(),
{
    if lines.len() == 0 {
        Seq::empty()
    } else {
        let prev = manual_lines(lines.drop_last(), default_len, u);
        let (orientation, offset, own) = match lines.last() {
            Line::Horizontal(off, len) => (CropLineOrientation::Horizontal, off, len),
            Line::Vertical(off, len) => (CropLineOrientation::Vertical, off, len),
        };
        let raw = match own {
            Some(l) => l,
            None => match default_len {
                Some(l) => l,
                None => 0,
            },
        };
        let compiled = CropLine {
            orientation,
            offset: unit_points(u, offset as int) as i64,
            length: unit_points(u, raw as int) as i64,
        };
        if compiled.length > 0 {
            prev.push(compiled)
        } else {
            prev
        }
    }
}

impl CropLines {
    /// Every offset and length is in conversion range.
    pub open spec fn in_range(&self) -> bool {
        &&& (match self.length {
            Some(l) => len_ok(l),
            None => true,
        })
        &&& (forall|i: int| 0 <= i < self.lines@.len() ==> line_ok(#[trigger] self.lines@[i]))
    }

    /// Compiles the explicit list, as `manual_lines` describes.
    pub fn compile(&self, base_units: &Units) -> (r: Vec<CropLine>)
        requires
            self.in_range(),
        ensures
            r@ == manual_lines(self.lines@, self.length, *base_units),
    {
        let mut r: Vec<CropLine> = Vec::new();
        let mut i: usize = 0;
        proof {
            assert(self.lines@.subrange(0, 0) =~= Seq::<Line>::empty());
        }
        while i < self.lines.len()
            invariant
                i <= self.lines@.len(),
                self.in_range(),
                r@ == manual_lines(self.lines@.subrange(0, i as int), self.length, *base_units),
            decreases self.lines@.len() - i,
        {
            proof {
                assert(self.lines@.subrange(0, i + 1 as int).drop_last() =~= self.lines@.subrange(
                    0,
                    i as int,
                ));
                assert(self.lines@.subrange(0, i + 1 as int).last() == self.lines@[i as int]);
            }
            let (orientation, offset, own) = match self.lines[i] {
                Line::Horizontal(off, len) => (CropLineOrientation::Horizontal, off, len),
                Line::Vertical(off, len) => (CropLineOrientation::Vertical, off, len),
            };
            let raw = match own {
                Some(l) => l,
                None => match self.length {
                    Some(l) => l,
                    None => 0,
                },
            };
            let compiled = CropLine {
                orientation,
                offset: base_units.convert_to_points(offset),
                length: base_units.convert_to_points(raw),
            };
            if compiled.length > 0 {
                r.push(compiled);
            }
            i += 1;
        }
        proof {
            assert(self.lines@.subrange(0, self.lines@.len() as int) =~= self.lines@);
        }
        r
    }
}

/// The manual placement specification of a sheet type.
#[derive(PartialEq, Eq, Debug)]
pub struct Manual {
    pub crop_lines: Option<CropLines>,
    pub cards: Vec<Card>,
}

impl Manual {
    /// Every entry is in conversion range.
    pub open spec fn in_range(&self) -> bool {
        &&& (forall|i: int| 0 <= i < self.cards@.len() ==> (#[trigger] self.cards@[i]).in_range())
        &&& (match self.crop_lines {
            Some(cl) => cl.in_range(),
            None => true,
        })
    }

    /// Compiles the manual plan: each slot entry in order, and the explicit
    /// crop lines (or none when no list was given).
    pub fn compile(&self, base_units: &Units) -> (r: (Vec<CardPlacement>, Vec<CropLine>))
        requires
            self.in_range(),
        ensures
            r.0@.len() == self.cards@.len(),
            forall|i: int|
                0 <= i < self.cards@.len() ==> r.0@[i] == (#[trigger] self.cards@[i]).compiled(
                    *base_units,
                ),
            r.1@ == (match self.crop_lines {
                Some(cl) => manual_lines(cl.lines@, cl.length, *base_units),
                None => Seq::<CropLine>::empty(),
            }),
    {
        let mut slots: Vec<CardPlacement> = Vec::new();
        let mut i: usize = 0;
        while i < self.cards.len()
            invariant
                i <= self.cards@.len(),
                self.in_range(),
                slots@.len() == i,
                forall|j: int|
                    0 <= j < i ==> slots@[j] == (#[trigger] self.cards@[j]).compiled(*base_units),
            decreases self.cards@.len() - i,
        {
            slots.push(self.cards[i].compile(base_units));
            i += 1;
        }
        let lines = match &self.crop_lines {
            Some(cl) => cl.compile(base_units),
            None => Vec::new(),
        };
        proof {
            if self.crop_lines is None {
                assert(lines@ =~= Seq::<CropLine>::empty());
            }
        }
        (slots, lines)
    }
}

} // verus!
