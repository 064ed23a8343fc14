//! The compiled sheet plan: page and item dimensions, item slots, and crop
//! lines, all in thousandths of a point.
use vstd::prelude::*;

use crate::Milli;

verus! {

/// A width and height pair.
#[derive(PartialEq, Eq, Debug, Clone, Copy, Structural)]
pub struct Dimensions {
    pub width: Milli,
    pub height: Milli,
}

impl Dimensions {
    /// Packs a `(width, height)` pair.
    pub fn from(pair: (Milli, Milli)) -> (r: Dimensions)
        ensures
            r.width == pair.0 && r.height == pair.1,
    {
        Dimensions { width: pair.0, height: pair.1 }
    }
}

/// A printed guide mark showing where to trim.
#[derive(PartialEq, Eq, Debug, Clone, Copy, Structural)]
pub struct CropLine {
    pub orientation: CropLineOrientation,
    pub offset: Milli,
    pub length: Milli,
}

#[derive(PartialEq, Eq, Debug, Clone, Copy, Structural)]
pub enum CropLineOrientation {
    Horizontal,
    Vertical,
}

/// One slot an item is placed into: position of its top-left corner, with an
/// optional rotation (thousandths of a degree) and reflection.
#[derive(PartialEq, Eq, Debug, Clone, Copy, Structural)]
pub struct CardPlacement {
    pub x: Milli,
    pub y: Milli,
    pub rotate: Option<Milli>,
    pub reflect: Option<Axis>,
}

#[derive(PartialEq, Eq, Debug, Clone, Copy, Structural)]
pub enum Axis {
    Horizontal,
    Vertical,
}

/// A compiled sheet: built once at configuration-compile time, read-only
/// afterwards.
#[derive(PartialEq, Eq, Debug)]
pub struct Sheet {
    pub page_size: Dimensions,
    pub card_size: Dimensions,
    pub crop_lines: Vec<CropLine>,
    pub cards: Vec<CardPlacement>,
}

impl Sheet {
    /// How many items one page of this sheet holds.
    pub fn num_cards(&self) -> (r: usize)
        ensures
            r == self.cards@.len(),
    {
        self.cards.len()
    }
}

} // verus!
