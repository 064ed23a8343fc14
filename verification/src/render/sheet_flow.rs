//! Sheet composition decisions: which page and slot each item of a sequence
//! lands in, the coordinate transform a slot applies to an item's drawing,
//! and how a crop line breaks into drawable segments.
use vstd::prelude::*;

use vstd::arithmetic::div_mod::lemma_fundamental_div_mod;
use vstd::arithmetic::div_mod::lemma_mod_bound;

use crate::config::sheet::CropLine;
use crate::config::sheet::CropLineOrientation;
use crate::config::sheet::CardPlacement;
use crate::config::sheet::Dimensions;
use crate::model::geometry::Geometry;
use crate::Milli;

verus! {

/// Where the item at position `idx` of the deck sequence lands: its sheet
/// number and its slot on that sheet. A new page opens whenever the slot
/// index wraps past the page's capacity.
pub fn sheet_position(idx: usize, cards_per_sheet: usize) -> (r: (usize, usize))
    requires
        cards_per_sheet > 0,
    ensures
        r.0 == idx as int / cards_per_sheet as int,
        r.1 == idx as int % cards_per_sheet as int,
        r.1 < cards_per_sheet,
        idx == cards_per_sheet * r.0 + r.1,
    {
    proof {
        lemma_fundamental_div_mod(idx as int, cards_per_sheet as int);
        lemma_mod_bound(idx as int, cards_per_sheet as int);
    }
    (idx / cards_per_sheet, idx % cards_per_sheet)
}

/// The coordinate chain a slot applies to an item's recorded drawing:
/// translate to the slot, scale uniformly from pixels to points, translate
/// back by the cut insets, and clip to the content area.
#[derive(PartialEq, Eq, Debug, Clone, Copy, Structural)]
pub struct CardTransform {
    pub translate_x: Milli,
    pub translate_y: Milli,
    pub scale_num: u64,
    pub scale_den: u64,
    pub cut_left: usize,
    pub cut_top: usize,
    pub clip_w: usize,
    pub clip_h: usize,
}

/// Computes the transform for drawing one item into one slot: slot position,
/// the 72-per-dpi uniform scale, the cut-inset offset, and the content-area
/// clip.
pub fn card_transform(slot: &CardPlacement, geometry: &Geometry) -> (r: CardTransform)
    requires
        geometry.dpi > 0,
    ensures
        r.translate_x == slot.x && r.translate_y == slot.y,
        r.scale_num == 72 && r.scale_den == geometry.dpi,
        r.cut_left == geometry.cut.left && r.cut_top == geometry.cut.top,
        r.clip_w == if geometry.cut.left + geometry.cut.right <= geometry.width {
            geometry.width - geometry.cut.left - geometry.cut.right
        } else {
            0
        },
        r.clip_h == if geometry.cut.top + geometry.cut.bottom <= geometry.height {
            geometry.height - geometry.cut.top - geometry.cut.bottom
        } else {
            0
        },
{
    let (clip_w, clip_h) = geometry.content_size();
    CardTransform {
        translate_x: slot.x,
        translate_y: slot.y,
        scale_num: 72,
        scale_den: geometry.dpi as u64,
        cut_left: geometry.cut.left,
        cut_top: geometry.cut.top,
        clip_w,
        clip_h,
    }
}

/// One straight stroke to draw, between two points.
#[derive(PartialEq, Eq, Debug, Clone, Copy, Structural)]
pub struct Segment {
    pub x1: Milli,
    pub y1: Milli,
    pub x2: Milli,
    pub y2: Milli,
}

/// The drawable segments of one crop line on a page: a line longer than half
/// the page's extent is drawn right across; a shorter one becomes two edge
/// ticks of its own length, one at each side.
pub open spec fn crop_segments(line: CropLine, page: Dimensions) -> Seq<Segment> {
    match line.orientation {
        CropLineOrientation::Horizontal => {
            if line.length > page.width / 2 {
                seq![Segment { x1: 0, y1: line.offset, x2: page.width, y2: line.offset }]
            } else {
                seq![
                    Segment { x1: 0, y1: line.offset, x2: line.length, y2: line.offset },
                    Segment {
                        x1: (page.width - line.length) as i64,
                        y1: line.offset,
                        x2: page.width,
                        y2: line.offset,
                    },
                ]
            }
        },
        CropLineOrientation::Vertical => {
            if line.length > page.height / 2 {
                seq![Segment { x1: line.offset, y1: 0, x2: line.offset, y2: page.height }]
            } else {
                seq![
                    Segment { x1: line.offset, y1: 0, x2: line.offset, y2: line.length },
                    Segment {
                        x1: line.offset,
                        y1: (page.height - line.length) as i64,
                        x2: line.offset,
                        y2: page.height,
                    },
                ]
            }
        },
    }
}

/// Breaks one crop line into its drawable segments, as `crop_segments`
/// describes.
pub fn crop_line_segments(line: &CropLine, page: &Dimensions) -> (r: Vec<Segment>)
    requires
        0 <= page.width && 0 <= page.height,
        0 <= line.length,
    ensures
        r@ == crop_segments(*line, *page),
{
    let mut r: Vec<Segment> = Vec::new();
    match line.orientation {
        CropLineOrientation::Horizontal => {
            let half: i64 = ((page.width as u64) / 2) as i64;
            if line.length > half {
                r.push(Segment { x1: 0, y1: line.offset, x2: page.width, y2: line.offset });
            } else {
                r.push(Segment { x1: 0, y1: line.offset, x2: line.length, y2: line.offset });
                r.push(
                    Segment {
                        x1: page.width - line.length,
                        y1: line.offset,
                        x2: page.width,
                        y2: line.offset,
                    },
                );
            }
        },
        CropLineOrientation::Vertical => {
            let half: i64 = ((page.height as u64) / 2) as i64;
            if line.length > half {
                r.push(Segment { x1: line.offset, y1: 0, x2: line.offset, y2: page.height });
            } else {
                r.push(Segment { x1: line.offset, y1: 0, x2: line.offset, y2: line.length });
                r.push(
                    Segment {
                        x1: line.offset,
                        y1: page.height - line.length,
                        x2: line.offset,
                        y2: page.height,
                    },
                );
            }
        },
    }
    proof {
        assert(r@ =~= crop_segments(*line, *page));
    }
    r
}

} // verus!
