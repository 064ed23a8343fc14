//! Image destination geometry: where an image of a given size lands inside
//! its frame under each scale mode — uniform fit, uniform fill, stretch, or
//! unscaled — with the bounding box centered on the frame except when
//! stretching.
use vstd::prelude::*;

use vstd::arithmetic::div_mod::lemma_div_is_ordered;
use vstd::arithmetic::div_mod::lemma_div_multiples_vanish;
use vstd::arithmetic::div_mod::lemma_div_pos_is_pos;
use vstd::arithmetic::div_mod::lemma_fundamental_div_mod;
use vstd::arithmetic::div_mod::lemma_mod_bound;
use vstd::arithmetic::mul::lemma_mul_nonnegative;

use crate::model::elements::Frame;
use crate::model::elements::Scale;

verus! {

/// A coordinate bound under which all destination-geometry arithmetic stays
/// inside 64-bit integers.
pub const MAX_IMAGE_COORD: i64 = 0x4000_0000;

/// The destination bounding box of a drawn image, before clipping. Fill and
/// unscaled modes may reach outside the frame; the painter clips them to it.
#[derive(PartialEq, Eq, Debug, Clone, Copy, Structural)]
pub struct ImageBounds {
    pub x: i64,
    pub y: i64,
    pub w: i64,
    pub h: i64,
}

/// Inputs the destination geometry accepts: the frame inside the coordinate
/// bound, and an image with positive, bounded dimensions.
pub open spec fn image_inputs_ok(frame: Frame, image_w: int, image_h: int) -> bool {
    &&& frame.x + frame.w <= MAX_IMAGE_COORD
    &&& frame.y + frame.h <= MAX_IMAGE_COORD
    &&& 0 < image_w <= MAX_IMAGE_COORD
    &&& 0 < image_h <= MAX_IMAGE_COORD
}

/// The scaled size of the image under a mode, rounding down: fit picks the
/// smaller of the width and height ratios, fill the larger, stretch the
/// frame itself, and the unscaled mode keeps the image's own size. The
/// limiting axis of fit and fill is exact.
pub open spec fn scaled_size(scale: Scale, fw: int, fh: int, iw: int, ih: int) -> (int, int) {
    match scale {
        Scale::Fit => {
            if fw * ih <= fh * iw {
                (fw, (ih * fw) / iw)
            } else {
                ((iw * fh) / ih, fh)
            }
        },
        Scale::Fill => {
            if fw * ih <= fh * iw {
                ((iw * fh) / ih, fh)
            } else {
                (fw, (ih * fw) / iw)
            }
        },
        Scale::Stretch => (fw, fh),
        Scale::NoScale => (iw, ih),
    }
}

/// The top-left corner of the destination box: the frame's own corner when
/// stretching, otherwise centered on the frame's center.
pub open spec fn image_origin(scale: Scale, frame: Frame, w: int, h: int) -> (int, int) {
    match scale {
        Scale::Stretch => (frame.x as int, frame.y as int),
        _ => (
            frame.x + frame.w / 2 - w / 2,
            frame.y + frame.h / 2 - h / 2,
        ),
    }
}

/// Computes the destination bounding box of an image inside `frame` under
/// the given scale mode, as `scaled_size` and `image_origin` describe.
pub fn scaled_image_bounds(scale: &Scale, frame: &Frame, image_w: usize, image_h: usize) -> (r:
    ImageBounds)
    requires
        image_inputs_ok(*frame, image_w as int, image_h as int),
    ensures
        ({
            let sz = scaled_size(*scale, frame.w as int, frame.h as int, image_w as int, image_h as int);
            let o = image_origin(*scale, *frame, sz.0, sz.1);
            r.w == sz.0 && r.h == sz.1 && r.x == o.0 && r.y == o.1
        }),
{
    let fw: u64 = frame.w as u64;
    let fh: u64 = frame.h as u64;
    let iw: u64 = image_w as u64;
    let ih: u64 = image_h as u64;
    proof {
        assert(frame.w * image_h <= MAX_IMAGE_COORD * MAX_IMAGE_COORD) by (nonlinear_arith)
            requires
                0 <= frame.w <= MAX_IMAGE_COORD,
                0 <= image_h <= MAX_IMAGE_COORD,
        ;
        assert(frame.h * image_w <= MAX_IMAGE_COORD * MAX_IMAGE_COORD) by (nonlinear_arith)
            requires
                0 <= frame.h <= MAX_IMAGE_COORD,
                0 <= image_w <= MAX_IMAGE_COORD,
        ;
        assert(image_h * frame.w <= MAX_IMAGE_COORD * MAX_IMAGE_COORD) by (nonlinear_arith)
            requires
                0 <= frame.w <= MAX_IMAGE_COORD,
                0 <= image_h <= MAX_IMAGE_COORD,
        ;
        assert(image_w * frame.h <= MAX_IMAGE_COORD * MAX_IMAGE_COORD) by (nonlinear_arith)
            requires
                0 <= frame.h <= MAX_IMAGE_COORD,
                0 <= image_w <= MAX_IMAGE_COORD,
        ;
    }
    let (sw, sh): (u64, u64) = match scale {
        Scale::Fit => {
            if fw * ih <= fh * iw {
                (fw, (ih * fw) / iw)
            } else {
                ((iw * fh) / ih, fh)
            }
        },
        Scale::Fill => {
            if fw * ih <= fh * iw {
                ((iw * fh) / ih, fh)
            } else {
                (fw, (ih * fw) / iw)
            }
        },
        Scale::Stretch => (fw, fh),
        Scale::NoScale => (iw, ih),
    };
    proof {
        lemma_div_pos_is_pos((image_h * frame.w) as int, image_w as int);
        lemma_div_pos_is_pos((image_w * frame.h) as int, image_h as int);
        lemma_div_is_ordered((image_h * frame.w) as int, MAX_IMAGE_COORD * MAX_IMAGE_COORD, image_w as int);
        lemma_div_is_ordered((image_w * frame.h) as int, MAX_IMAGE_COORD * MAX_IMAGE_COORD, image_h as int);
        assert(image_h * frame.w <= MAX_IMAGE_COORD * MAX_IMAGE_COORD) by (nonlinear_arith)
            requires
                0 <= image_h <= MAX_IMAGE_COORD,
                0 <= frame.w <= MAX_IMAGE_COORD,
        ;
        assert(image_w * frame.h <= MAX_IMAGE_COORD * MAX_IMAGE_COORD) by (nonlinear_arith)
            requires
                0 <= image_w <= MAX_IMAGE_COORD,
                0 <= frame.h <= MAX_IMAGE_COORD,
        ;
    }
    match scale {
        Scale::Stretch => {
            ImageBounds { x: frame.x as i64, y: frame.y as i64, w: sw as i64, h: sh as i64 }
        },
        _ => {
            let cx: i64 = (frame.x as i64) + ((frame.w as i64) / 2);
            let cy: i64 = (frame.y as i64) + ((frame.h as i64) / 2);
            ImageBounds {
                x: cx - ((sw / 2) as i64),
                y: cy - ((sh / 2) as i64),
                w: sw as i64,
                h: sh as i64,
            }
        },
    }
}

/// Halving rounds down no faster than the whole: for `0 <= a <= b`,
/// `b/2 - a/2` is at most `b - a`, and what remains above the half grows
/// with the whole.
proof fn lemma_half_lipschitz(a: int, b: int)
    requires
        0 <= a <= b,
    ensures
        a / 2 <= b / 2,
        b / 2 - a / 2 <= b - a,
        (b - b / 2) - (a - a / 2) <= b - a,
        a - a / 2 <= b - b / 2,
    decreases b - a,
{
    lemma_fundamental_div_mod(a, 2);
    lemma_fundamental_div_mod(b, 2);
    lemma_mod_bound(a, 2);
    lemma_mod_bound(b, 2);
    lemma_div_is_ordered(a, b, 2);
}

/// Fit keeps the image inside its frame and flush with it on at least one
/// axis: the bounding box is contained in the frame, and its width equals
/// the frame's width or its height the frame's height.
pub proof fn lemma_fit_contained(frame: Frame, iw: int, ih: int)
    requires
        image_inputs_ok(frame, iw, ih),
    ensures
        ({
            let sz = scaled_size(Scale::Fit, frame.w as int, frame.h as int, iw, ih);
            let o = image_origin(Scale::Fit, frame, sz.0, sz.1);
            &&& frame.x <= o.0
            &&& o.0 + sz.0 <= frame.x + frame.w
            &&& frame.y <= o.1
            &&& o.1 + sz.1 <= frame.y + frame.h
            &&& (sz.0 == frame.w || sz.1 == frame.h)
        }),
{
    let fw = frame.w as int;
    let fh = frame.h as int;
    if fw * ih <= fh * iw {
        lemma_div_is_ordered(ih * fw, fh * iw, iw);
        lemma_div_multiples_vanish(fh, iw);
        assert(ih * fw == fw * ih) by (nonlinear_arith);
        assert(iw * fh == fh * iw) by (nonlinear_arith);
        lemma_mul_nonnegative(ih, fw);
        lemma_div_pos_is_pos(ih * fw, iw);
        let sh = (ih * fw) / iw;
        lemma_half_lipschitz(sh, fh);
        lemma_half_lipschitz(fw, fw);
    } else {
        lemma_div_is_ordered(iw * fh, fw * ih, ih);
        lemma_div_multiples_vanish(fw, ih);
        assert(iw * fh == fh * iw) by (nonlinear_arith);
        assert(ih * fw == fw * ih) by (nonlinear_arith);
        lemma_mul_nonnegative(iw, fh);
        lemma_div_pos_is_pos(iw * fh, ih);
        let sw = (iw * fh) / ih;
        lemma_half_lipschitz(sw, fw);
        lemma_half_lipschitz(fh, fh);
    }
}

/// Fill covers the whole frame: the bounding box contains the frame on both
/// axes (the painter clips the excess away).
pub proof fn lemma_fill_covers(frame: Frame, iw: int, ih: int)
    requires
        image_inputs_ok(frame, iw, ih),
    ensures
        ({
            let sz = scaled_size(Scale::Fill, frame.w as int, frame.h as int, iw, ih);
            let o = image_origin(Scale::Fill, frame, sz.0, sz.1);
            &&& o.0 <= frame.x
            &&& frame.x + frame.w <= o.0 + sz.0
            &&& o.1 <= frame.y
            &&& frame.y + frame.h <= o.1 + sz.1
        }),
{
    let fw = frame.w as int;
    let fh = frame.h as int;
    if fw * ih <= fh * iw {
        lemma_div_is_ordered(fw * ih, iw * fh, ih);
        lemma_div_multiples_vanish(fw, ih);
        assert(fw * ih == ih * fw) by (nonlinear_arith);
        assert(iw * fh == fh * iw) by (nonlinear_arith);
        let sw = (iw * fh) / ih;
        lemma_half_lipschitz(fw, sw);
        lemma_half_lipschitz(fh, fh);
    } else {
        lemma_div_is_ordered(fh * iw, ih * fw, iw);
        lemma_div_multiples_vanish(fh, iw);
        assert(fh * iw == iw * fh) by (nonlinear_arith);
        assert(ih * fw == fw * ih) by (nonlinear_arith);
        let sh = (ih * fw) / iw;
        lemma_half_lipschitz(fh, sh);
        lemma_half_lipschitz(fw, fw);
    }
}

/// Stretch maps the image exactly onto the frame.
pub proof fn lemma_stretch_exact(frame: Frame, iw: int, ih: int)
    requires
        image_inputs_ok(frame, iw, ih),
    ensures
        ({
            let sz = scaled_size(Scale::Stretch, frame.w as int, frame.h as int, iw, ih);
            let o = image_origin(Scale::Stretch, frame, sz.0, sz.1);
            o.0 == frame.x && o.1 == frame.y && sz.0 == frame.w && sz.1 == frame.h
        }),
{
}

/// The unscaled mode centers the image on the frame's center, whatever the
/// frame's size: twice the box's corner plus its size equals twice the
/// frame's center, up to the one-unit parity remainder of halving.
pub proof fn lemma_unscaled_centered(frame: Frame, iw: int, ih: int)
    requires
        image_inputs_ok(frame, iw, ih),
    ensures
        ({
            let sz = scaled_size(Scale::NoScale, frame.w as int, frame.h as int, iw, ih);
            let o = image_origin(Scale::NoScale, frame, sz.0, sz.1);
            &&& 2 * o.0 + sz.0 == 2 * (frame.x + frame.w / 2) + (iw % 2)
            &&& 2 * o.1 + sz.1 == 2 * (frame.y + frame.h / 2) + (ih % 2)
        }),
{
    lemma_fundamental_div_mod(iw, 2);
    lemma_mod_bound(iw, 2);
    lemma_fundamental_div_mod(ih, 2);
    lemma_mod_bound(ih, 2);
}

} // verus!
