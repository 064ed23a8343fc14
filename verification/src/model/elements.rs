//! The recursive element tree: backgrounds, rectangles, text, images, and
//! nesting boxes that open a translated, clipped local coordinate space.
use vstd::prelude::*;

use crate::model::styles::clone_path_styles;
use crate::model::styles::PathStyle;
use crate::model::styles::TextStyle;
use crate::strings::str_eq;
use crate::templates::TemplateAwareString;

verus! {

/// A position and size inside the current local coordinate space, in pixels.
#[derive(PartialEq, Eq, Debug, Clone, Copy, Structural)]
pub struct Frame {
    pub x: usize,
    pub y: usize,
    pub w: usize,
    pub h: usize,
}

impl Frame {
    /// The frame's center, each coordinate rounded down.
    pub fn center(&self) -> (r: (usize, usize))
        requires
            self.x + self.w <= usize::MAX,
            self.y + self.h <= usize::MAX,
        ensures
            r.0 == self.x + self.w / 2,
            r.1 == self.y + self.h / 2,
    {
        (self.x + self.w / 2, self.y + self.h / 2)
    }
}

/// A rectangle with its own frame and path styles.
#[derive(PartialEq, Eq, Debug)]
pub struct Rectangle {
    pub x: usize,
    pub y: usize,
    pub w: usize,
    pub h: usize,
    pub style: Vec<PathStyle>,
}

/// A background: a rectangle covering the whole current frame.
#[derive(PartialEq, Eq, Debug)]
pub struct Background {
    pub style: Vec<PathStyle>,
}

impl Background {
    /// The rectangle a background paints: the full current frame, with the
    /// background's own styles.
    pub fn to_rect(&self, frame_width: usize, frame_height: usize) -> (r: Rectangle)
        ensures
            r.x == 0 && r.y == 0 && r.w == frame_width && r.h == frame_height,
            r.style@.map_values(|s: PathStyle| s@) == self.style@.map_values(|s: PathStyle| s@),
    {
        Rectangle { x: 0, y: 0, w: frame_width, h: frame_height, style: clone_path_styles(&self.style) }
    }
}

/// A text element: template-aware contents, a frame, an optional named style
/// set, and inline styles.
#[derive(PartialEq, Eq, Debug)]
pub struct Text {
    pub contents: TemplateAwareString,
    pub frame: Frame,
    pub style: Option<String>,
    pub inline_styles: Vec<TextStyle>,
}

/// How an image is scaled into its frame.
#[derive(PartialEq, Eq, Debug, Clone, Copy, Structural)]
pub enum Scale {
    Fit,
    Fill,
    Stretch,
    NoScale,
}

#[derive(PartialEq, Eq, Debug)]
pub enum ImageError {
    InvalidScaleMode(String),
}

/// The scale mode a token names, or nothing for an unknown token.
pub open spec fn scale_keyword(s: Seq<char>) -> Option<Scale> {
    if s == "fit"@ {
        Some(Scale::Fit)
    } else if s == "fill"@ {
        Some(Scale::Fill)
    } else if s == "stretch"@ {
        Some(Scale::Stretch)
    } else if s == "none"@ {
        Some(Scale::NoScale)
    } else {
        None
    }
}

impl Scale {
    /// Reads a scale mode; anything unknown is rejected with the offending
    /// token.
    pub fn from_str(s: &str) -> (r: Result<Scale, ImageError>)
        ensures
            scale_keyword(s@) matches Some(m) ==> r == Ok::<_, ImageError>(m),
            scale_keyword(s@) is None ==> (r matches Err(ImageError::InvalidScaleMode(given))
                && given@ == s@),
    {
        if str_eq(s, "fit") {
            Ok(Scale::Fit)
        } else if str_eq(s, "fill") {
            Ok(Scale::Fill)
        } else if str_eq(s, "stretch") {
            Ok(Scale::Stretch)
        } else if str_eq(s, "none") {
            Ok(Scale::NoScale)
        } else {
            Err(ImageError::InvalidScaleMode(String::from_str(s)))
        }
    }
}

/// An image element: a template-aware asset name, a frame, and a scale mode.
#[derive(PartialEq, Eq, Debug)]
pub struct Image {
    pub name: TemplateAwareString,
    pub frame: Frame,
    pub scale: Scale,
}

/// A nesting container: children paint in a coordinate space translated to
/// the box's top-left corner and clipped to its size.
#[derive(PartialEq, Eq, Debug)]
pub struct Box {
    pub x: usize,
    pub y: usize,
    pub w: usize,
    pub h: usize,
    pub contents: Vec<Element>,
}

/// One element of a layout; document order is paint order.
#[derive(PartialEq, Eq, Debug)]
pub enum Element {
    Rectangle(Rectangle),
    Text(Text),
    Image(Image),
    Box(Box),
    Background(Background),
}

} // verus!
