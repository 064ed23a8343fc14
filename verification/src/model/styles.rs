//! The style vocabulary: path styles for shapes, text styles for text runs.
use vstd::prelude::*;

use crate::model::color::ColorRef;
use crate::model::color::ColorRefView;
use crate::model::font::Font;
use crate::model::font::FontView;
use crate::model::only_if::OnlyIf;
use crate::model::only_if::OnlyIfView;
use crate::model::stroke::DashPatternView;
use crate::model::stroke::Stroke;
use crate::model::text;

verus! {

/// A solid fill.
#[derive(PartialEq, Eq, Debug)]
pub struct Solid {
    pub color: ColorRef,
}

impl View for Solid {
    type V = ColorRefView;

    open spec fn view(&self) -> ColorRefView {
        self.color@
    }
}

impl Clone for Solid {
    fn clone(&self) -> (r: Self)
        ensures
            r@ == self@,
    {
        Solid { color: self.color.clone() }
    }
}

/// A named fill kind, kept for configuration round trips.
#[derive(PartialEq, Eq, Debug)]
pub struct Fill {
    pub kind: String,
}

/// One styling rule for a drawn path: stroke it, fill it, or gate the whole
/// shape on a condition.
#[derive(PartialEq, Eq, Debug)]
pub enum PathStyle {
    Stroke(Stroke),
    Solid(Solid),
    OnlyIf(OnlyIf),
}

/// The mathematical value of a stroke style.
pub struct StrokeView {
    pub width: usize,
    pub color: ColorRefView,
    pub pattern: DashPatternView,
}

impl View for Stroke {
    type V = StrokeView;

    open spec fn view(&self) -> StrokeView {
        StrokeView { width: self.width, color: self.color@, pattern: self.pattern@ }
    }
}

impl Clone for Stroke {
    fn clone(&self) -> (r: Self)
        ensures
            r@ == self@,
    {
        Stroke { width: self.width, color: self.color.clone(), pattern: self.pattern.clone() }
    }
}

/// The mathematical value of a path style.
pub enum PathStyleView {
    Stroke(StrokeView),
    Solid(ColorRefView),
    OnlyIf(OnlyIfView),
}

impl View for PathStyle {
    type V = PathStyleView;

    open spec fn view(&self) -> PathStyleView {
        match self {
            PathStyle::Stroke(s) => PathStyleView::Stroke(s@),
            PathStyle::Solid(s) => PathStyleView::Solid(s@),
            PathStyle::OnlyIf(c) => PathStyleView::OnlyIf(c@),
        }
    }
}

impl Clone for PathStyle {
    fn clone(&self) -> (r: Self)
        ensures
            r@ == self@,
    {
        match self {
            PathStyle::Stroke(s) => PathStyle::Stroke(s.clone()),
            PathStyle::Solid(s) => PathStyle::Solid(s.clone()),
            PathStyle::OnlyIf(c) => PathStyle::OnlyIf(c.clone()),
        }
    }
}

/// One styling rule for a text run: a font declaration, size, alignment,
/// colors, or a condition gating visibility.
#[derive(PartialEq, Eq, Debug)]
pub enum TextStyle {
    Font(Font),
    Size(text::Size),
    Align(text::Align),
    Foreground(text::Foreground),
    Background(text::Background),
    OnlyIf(OnlyIf),
}

/// The mathematical value of a text style rule.
pub enum TextStyleView {
    Font(FontView),
    Size(text::Size),
    Align(text::Align),
    Foreground(ColorRefView),
    Background(ColorRefView),
    OnlyIf(OnlyIfView),
}

impl View for TextStyle {
    type V = TextStyleView;

    open spec fn view(&self) -> TextStyleView {
        match self {
            TextStyle::Font(f) => TextStyleView::Font(f@),
            TextStyle::Size(s) => TextStyleView::Size(*s),
            TextStyle::Align(a) => TextStyleView::Align(*a),
            TextStyle::Foreground(f) => TextStyleView::Foreground(f@),
            TextStyle::Background(b) => TextStyleView::Background(b@),
            TextStyle::OnlyIf(c) => TextStyleView::OnlyIf(c@),
        }
    }
}

impl Clone for TextStyle {
    fn clone(&self) -> (r: Self)
        ensures
            r@ == self@,
    {
        match self {
            TextStyle::Font(f) => TextStyle::Font(f.clone()),
            TextStyle::Size(s) => TextStyle::Size(*s),
            TextStyle::Align(a) => TextStyle::Align(*a),
            TextStyle::Foreground(f) => TextStyle::Foreground(f.clone()),
            TextStyle::Background(b) => TextStyle::Background(b.clone()),
            TextStyle::OnlyIf(c) => TextStyle::OnlyIf(c.clone()),
        }
    }
}

/// Clones a whole list of text style rules, value for value.
pub fn clone_text_styles(v: &Vec<TextStyle>) -> (r: Vec<TextStyle>)
    ensures
        r@.map_values(|t: TextStyle| t@) == v@.map_values(|t: TextStyle| t@),
{
    let mut r: Vec<TextStyle> = Vec::new();
    let mut i: usize = 0;
    while i < v.len()
        invariant
            i <= v@.len(),
            r@.len() == i,
            forall|j: int| 0 <= j < i ==> (#[trigger] r@[j])@ == v@[j]@,
        decreases v@.len() - i,
    {
        r.push(v[i].clone());
        i += 1;
    }
    proof {
        assert(r@.map_values(|t: TextStyle| t@) =~= v@.map_values(|t: TextStyle| t@));
    }
    r
}

/// Clones a whole list of path style rules, value for value.
pub fn clone_path_styles(v: &Vec<PathStyle>) -> (r: Vec<PathStyle>)
    ensures
        r@.map_values(|t: PathStyle| t@) == v@.map_values(|t: PathStyle| t@),
{
    let mut r: Vec<PathStyle> = Vec::new();
    let mut i: usize = 0;
    while i < v.len()
        invariant
            i <= v@.len(),
            r@.len() == i,
            forall|j: int| 0 <= j < i ==> (#[trigger] r@[j])@ == v@[j]@,
        decreases v@.len() - i,
    {
        r.push(v[i].clone());
        i += 1;
    }
    proof {
        assert(r@.map_values(|t: PathStyle| t@) =~= v@.map_values(|t: PathStyle| t@));
    }
    r
}

} // verus!
