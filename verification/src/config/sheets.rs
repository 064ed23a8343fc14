//! Sheet types: a named page/card size pairing with exactly one placement
//! plan, compiled once into an immutable sheet.
use vstd::prelude::*;

use crate::config::automatic::Align;
use crate::config::automatic::Automatic;
use crate::config::automatic::CropLineLength;
use crate::config::automatic::CropLines;
use crate::config::automatic::Gutter;
use crate::config::automatic::Margins;
use crate::config::manual::manual_lines;
use crate::config::manual::Manual;
use crate::config::sheet::Dimensions;
use crate::config::sheet::Sheet;
use crate::config::sizes::card_dims_points;
use crate::config::sizes::CardSize;
use crate::config::sizes::PageSize;
use crate::config::units::Units;
use crate::config::units::MAX_LENGTH_MILLI;
use crate::config::PlacementError;
use crate::model::geometry::Geometry;
use crate::strings::str_eq;

verus! {

/// One sheet-type definition: page size, card size, units, and exactly one
/// of automatic or manual placement (a definition carrying both keeps the
/// manual one).
#[derive(PartialEq, Eq, Debug)]
pub struct SheetType {
    pub name: String,
    pub units: Units,
    pub page_size: PageSize,
    pub card_size: CardSize,
    pub automatic: Option<Automatic>,
    pub manual: Option<Manual>,
}

impl SheetType {
    /// The inputs under which compilation's arithmetic is exact: sizes in
    /// range, the compiled page dimensions within the planner's bound, the
    /// card strictly positive, and every placement length in range.
    pub open spec fn compile_wf(&self) -> bool {
        &&& self.page_size.in_range()
        &&& self.card_size.in_range()
        &&& 0 <= self.page_size.dims_points(self.units).0 <= MAX_LENGTH_MILLI
        &&& 0 <= self.page_size.dims_points(self.units).1 <= MAX_LENGTH_MILLI
        &&& 0 < card_dims_points(self.card_size, self.units).0 <= MAX_LENGTH_MILLI
        &&& 0 < card_dims_points(self.card_size, self.units).1 <= MAX_LENGTH_MILLI
        &&& (self.automatic matches Some(a) ==> a.margins.in_range() && a.gutter.in_range())
        &&& (self.manual matches Some(m) ==> m.in_range())
    }

    /// Both placement plans were given: the automatic one will be ignored,
    /// which deserves a warning at load time.
    pub fn has_conflicting_placement(&self) -> (r: bool)
        ensures
            r == (self.automatic is Some && self.manual is Some),
    {
        self.automatic.is_some() && self.manual.is_some()
    }

    /// Compiles the sheet type: page and card sizes to points, then the
    /// manual plan when one is given (ignoring any automatic plan beside
    /// it), else the automatic plan, else a missing-placement error.
    pub fn compile(&self) -> (r: Result<Sheet, PlacementError>)
        requires
            self.compile_wf(),
        ensures
            self.automatic is None && self.manual is None ==> r == Err::<Sheet, _>(
                PlacementError::Missing,
            ),
            (self.automatic is Some || self.manual is Some) ==> (r matches Ok(s) && {
                &&& s.page_size.width == self.page_size.dims_points(self.units).0
                &&& s.page_size.height == self.page_size.dims_points(self.units).1
                &&& s.card_size.width == card_dims_points(self.card_size, self.units).0
                &&& s.card_size.height == card_dims_points(self.card_size, self.units).1
                &&& (match self.manual {
                    Some(m) => {
                        &&& s.cards@.len() == m.cards@.len()
                        &&& (forall|i: int|
                            0 <= i < m.cards@.len() ==> s.cards@[i] == (
                            #[trigger] m.cards@[i]).compiled(self.units))
                        &&& s.crop_lines@ == (match m.crop_lines {
                            Some(cl) => manual_lines(cl.lines@, cl.length, self.units),
                            None => Seq::<crate::config::sheet::CropLine>::empty(),
                        })
                    },
                    None => {
                        let a = self.automatic->0;
                        let nc = a.ncols(s.page_size, s.card_size, self.units);
                        let nr = a.nrows(s.page_size, s.card_size, self.units);
                        &&& (nc == 0 || nr == 0) ==> (s.cards@.len() == 0 && s.crop_lines@.len()
                            == 0)
                        &&& (nc > 0 && nr > 0) ==> {
                            &&& s.cards@.len() == nr * nc
                            &&& (forall|k: int|
                                0 <= k < s.cards@.len() ==> {
                                    &&& (#[trigger] s.cards@[k]).x == a.slot_x(
                                        s.page_size,
                                        s.card_size,
                                        self.units,
                                        k % (nc as int),
                                    )
                                    &&& s.cards@[k].y == a.slot_y(
                                        s.page_size,
                                        s.card_size,
                                        self.units,
                                        k / (nc as int),
                                    )
                                    &&& s.cards@[k].rotate is None
                                    &&& s.cards@[k].reflect is None
                                })
                            &&& s.crop_lines@ == a.h_lines_upto(s.page_size, s.card_size, self.units, nr)
                                + a.v_lines_upto(s.page_size, s.card_size, self.units, nc)
                        }
                    },
                })
            }),
    {
        let page_size = Dimensions::from(self.page_size.get_dimensions_in_points(&self.units));
        let card_size = Dimensions::from(self.card_size.get_dimensions_in_points(&self.units));

        if let Some(manual_placement) = &self.manual {
            let (cards, crop_lines) = manual_placement.compile(&self.units);
            Ok(Sheet { page_size, card_size, crop_lines, cards })
        } else if let Some(auto_placement) = &self.automatic {
            let (cards, crop_lines) = auto_placement.compile(&page_size, &card_size, &self.units);
            Ok(Sheet { page_size, card_size, crop_lines, cards })
        } else {
            Err(PlacementError::Missing)
        }
    }
}

/// Regions whose prevailing paper size is US Letter.
pub open spec fn letter_region(code: Seq<char>) -> bool {
    code == "BZ"@ || code == "CA"@ || code == "CL"@ || code == "CO"@ || code == "CR"@ || code
        == "GT"@ || code == "MX"@ || code == "NI"@ || code == "PA"@ || code == "PH"@ || code
        == "PR"@ || code == "SV"@ || code == "US"@ || code == "VE"@
}

/// Picks the default page for a locale region: letter paper the wide way
/// around in letter regions, A4 the wide way around everywhere else (and
/// when no region is known).
pub fn page_size_for_region(region: Option<&String>) -> (r: PageSize)
    ensures
        ({
            match region {
                Some(code) => {
                    if letter_region(code@) {
                        r == (PageSize {
                            dimensions: crate::config::sizes::PageDimensions::Letter,
                            orientation: Some(crate::config::sizes::PageOrientation::Wide),
                        })
                    } else {
                        r == (PageSize {
                            dimensions: crate::config::sizes::PageDimensions::A4,
                            orientation: Some(crate::config::sizes::PageOrientation::Wide),
                        })
                    }
                },
                None => r == (PageSize {
                    dimensions: crate::config::sizes::PageDimensions::A4,
                    orientation: Some(crate::config::sizes::PageOrientation::Wide),
                }),
            }
        }),
{
    match region {
        Some(code) => {
            let c = code.as_str();
            if str_eq(c, "BZ") || str_eq(c, "CA") || str_eq(c, "CL") || str_eq(c, "CO") || str_eq(
                c,
                "CR",
            ) || str_eq(c, "GT") || str_eq(c, "MX") || str_eq(c, "NI") || str_eq(c, "PA") || str_eq(
                c,
                "PH",
            ) || str_eq(c, "PR") || str_eq(c, "SV") || str_eq(c, "US") || str_eq(c, "VE") {
                PageSize::letter_landscape()
            } else {
                PageSize::a4_landscape()
            }
        },
        None => PageSize::a4_landscape(),
    }
}

impl SheetType {
    /// Synthesizes a sheet type for a card geometry when the project defines
    /// none: the card's content size read as inches at an assumed 300 dpi,
    /// the region's default page, half-inch margins, no gutter, centered,
    /// with margin-length crop lines.
    pub fn sythesize_for(card_geometry: &Geometry, region: Option<&String>) -> (r: SheetType)
        requires
            card_geometry.width <= 0x4000_0000,
            card_geometry.height <= 0x4000_0000,
        ensures
            r.name@ == "__generated"@,
            r.units == Units::Inches,
            r.page_size == page_size_for_region_spec(region),
            ({
                let cw = if card_geometry.cut.left + card_geometry.cut.right
                    <= card_geometry.width {
                    card_geometry.width - card_geometry.cut.left - card_geometry.cut.right
                } else {
                    0
                };
                let ch = if card_geometry.cut.top + card_geometry.cut.bottom
                    <= card_geometry.height {
                    card_geometry.height - card_geometry.cut.top - card_geometry.cut.bottom
                } else {
                    0
                };
                r.card_size == CardSize::Custom(((cw * 10) / 3) as i64, ((ch * 10) / 3) as i64)
            }),
            r.automatic matches Some(a) && a == (Automatic {
                crop_lines: Some(CropLines { length: CropLineLength::Margin }),
                margins: Margins { top: 500, right: 500, bottom: 500, left: 500 },
                gutter: Gutter { horizontal: 0, vertical: 0 },
                align: Align::Center,
            }),
            r.manual is None,
    {
        let (cw_px, ch_px) = card_geometry.content_size();
        // pixels at the assumed 300 dpi, in thousandths of an inch:
        // px / 300 in = px * 1000 / 300 = px * 10 / 3 thousandths
        let card_w: i64 = ((((cw_px as u64) * 10) / 3)) as i64;
        let card_h: i64 = ((((ch_px as u64) * 10) / 3)) as i64;
        SheetType {
            name: String::from_str("__generated"),
            units: Units::Inches,
            page_size: page_size_for_region(region),
            card_size: CardSize::Custom(card_w, card_h),
            automatic: Some(
                Automatic {
                    crop_lines: Some(CropLines { length: CropLineLength::Margin }),
                    margins: Margins { top: 500, right: 500, bottom: 500, left: 500 },
                    gutter: Gutter { horizontal: 0, vertical: 0 },
                    align: Align::Center,
                },
            ),
            manual: None,
        }
    }
}

/// The page `page_size_for_region` picks.
pub open spec fn page_size_for_region_spec(region: Option<&String>) -> PageSize {
    match region {
        Some(code) => {
            if letter_region(code@) {
                PageSize {
                    dimensions: crate::config::sizes::PageDimensions::Letter,
                    orientation: Some(crate::config::sizes::PageOrientation::Wide),
                }
            } else {
                PageSize {
                    dimensions: crate::config::sizes::PageDimensions::A4,
                    orientation: Some(crate::config::sizes::PageOrientation::Wide),
                }
            }
        },
        None => PageSize {
            dimensions: crate::config::sizes::PageDimensions::A4,
            orientation: Some(crate::config::sizes::PageOrientation::Wide),
        },
    }
}

} // verus!
