//! Text styling and the style cascade: ordered layers override attributes
//! one by one, unset attributes pass through, and `only-if` conditions
//! accumulate across layers.
use vstd::prelude::*;

use crate::model::color::ColorRef;
use crate::model::color::ColorRefView;
use crate::model::font::Font;
use crate::model::font::Weight;
use crate::model::font::Width;
use crate::model::only_if::OnlyIf;
use crate::model::only_if::OnlyIfView;
use crate::model::styles::TextStyle;
use crate::model::styles::TextStyleView;
use crate::strings::chars_eq;
use crate::strings::normalize;
use crate::strings::normalized;

verus! {

/// Text foreground color.
#[derive(PartialEq, Eq, Debug)]
pub struct Foreground {
    pub color: ColorRef,
}

/// Text background color.
#[derive(PartialEq, Eq, Debug)]
pub struct Background {
    pub color: ColorRef,
}

impl View for Foreground {
    type V = ColorRefView;

    open spec fn view(&self) -> ColorRefView {
        self.color@
    }
}

impl View for Background {
    type V = ColorRefView;

    open spec fn view(&self) -> ColorRefView {
        self.color@
    }
}

impl Clone for Foreground {
    fn clone(&self) -> (r: Self)
        ensures
            r@ == self@,
    {
        Foreground { color: self.color.clone() }
    }
}

impl Clone for Background {
    fn clone(&self) -> (r: Self)
        ensures
            r@ == self@,
    {
        Background { color: self.color.clone() }
    }
}

/// A font size with its unit.
#[derive(PartialEq, Eq, Debug, Clone, Copy, Structural)]
pub struct Size {
    pub size: usize,
    pub units: Units,
}

#[derive(PartialEq, Eq, Debug, Clone, Copy, Structural)]
pub enum Units {
    Pixels,
    Points,
}

/// The unit keyword a normalized token names; anything unknown reads as
/// pixels.
pub open spec fn units_of_keyword(t: Seq<char>) -> Units {
    if t == "pt"@ {
        Units::Points
    } else {
        Units::Pixels
    }
}

impl Units {
    /// Reads a size unit, ignoring case, spaces and dashes; unknown keywords
    /// fall back to pixels.
    pub fn from_str(s: &str) -> (r: Units)
        ensures
            r == units_of_keyword(normalized(s@)),
    {
        let t = normalize(s);
        if chars_eq(&t, "pt") {
            Units::Points
        } else {
            Units::Pixels
        }
    }
}

impl Size {
    /// The size in pixels at the given raster density: point sizes scale by
    /// dpi over 72, pixel sizes pass through. The bound keeps the product
    /// inside the machine's integer range.
    pub fn pixel_size(&self, dpi: usize) -> (r: usize)
        requires
            self.size * dpi <= usize::MAX,
        ensures
            self.units is Pixels ==> r == self.size,
            self.units is Points ==> r == (self.size * dpi) / 72,
    {
        match self.units {
            Units::Pixels => self.size,
            Units::Points => (self.size * dpi) / 72,
        }
    }
}

/// A text alignment declaration.
#[derive(PartialEq, Eq, Debug, Clone, Copy, Structural)]
pub struct Align {
    pub alignment: Alignment,
}

#[derive(PartialEq, Eq, Debug, Clone, Copy, Structural)]
pub enum Alignment {
    Left,
    Center,
    Right,
    Justify,
}

/// The alignment keyword a normalized token names; anything unknown reads as
/// left alignment.
pub open spec fn alignment_of_keyword(t: Seq<char>) -> Alignment {
    if t == "center"@ {
        Alignment::Center
    } else if t == "right"@ {
        Alignment::Right
    } else if t == "justify"@ {
        Alignment::Justify
    } else {
        Alignment::Left
    }
}

impl Alignment {
    /// Reads an alignment keyword, ignoring case, spaces and dashes; unknown
    /// keywords fall back to left alignment.
    pub fn from_str(s: &str) -> (r: Alignment)
        ensures
            r == alignment_of_keyword(normalized(s@)),
    {
        let t = normalize(s);
        if chars_eq(&t, "center") {
            Alignment::Center
        } else if chars_eq(&t, "right") {
            Alignment::Right
        } else if chars_eq(&t, "justify") {
            Alignment::Justify
        } else {
            Alignment::Left
        }
    }
}

/// One fully-resolved, flattened text style: what one drawing operation
/// paints with.
#[derive(PartialEq, Eq, Debug)]
pub struct FlatTextStyle {
    pub foreground: Option<Foreground>,
    pub background: Option<Background>,
    pub size: Option<Size>,
    pub align: Alignment,
    pub font_family: Option<String>,
    pub font_weight: Weight,
    pub font_width: Width,
    pub font_style: Option<String>,
    pub conditions: Vec<OnlyIf>,
}

/// The mathematical value of a flattened text style.
#[verifier::ext_equal]
pub struct FlatTextStyleView {
    pub foreground: Option<ColorRefView>,
    pub background: Option<ColorRefView>,
    pub size: Option<Size>,
    pub align: Alignment,
    pub font_family: Option<Seq<char>>,
    pub font_weight: Weight,
    pub font_width: Width,
    pub font_style: Option<Seq<char>>,
    pub conditions: Seq<OnlyIfView>,
}

impl View for FlatTextStyle {
    type V = FlatTextStyleView;

    open spec fn view(&self) -> FlatTextStyleView {
        FlatTextStyleView {
            foreground: match &self.foreground {
                Some(f) => Some(f@),
                None => None,
            },
            background: match &self.background {
                Some(b) => Some(b@),
                None => None,
            },
            size: self.size,
            align: self.align,
            font_family: match &self.font_family {
                Some(f) => Some(f@),
                None => None,
            },
            font_weight: self.font_weight,
            font_width: self.font_width,
            font_style: match &self.font_style {
                Some(st) => Some(st@),
                None => None,
            },
            conditions: self.conditions@.map_values(|c: OnlyIf| c@),
        }
    }
}

impl Clone for FlatTextStyle {
    fn clone(&self) -> (r: Self)
        ensures
            r@ == self@,
    {
        let mut conditions: Vec<OnlyIf> = Vec::new();
        let mut i: usize = 0;
        while i < self.conditions.len()
            invariant
                i <= self.conditions@.len(),
                conditions@.len() == i,
                forall|j: int| 0 <= j < i ==> (#[trigger] conditions@[j])@ == self.conditions@[j]@,
            decreases self.conditions@.len() - i,
        {
            conditions.push(self.conditions[i].clone());
            i += 1;
        }
        let r = FlatTextStyle {
            foreground: match &self.foreground {
                Some(f) => Some(f.clone()),
                None => None,
            },
            background: match &self.background {
                Some(b) => Some(b.clone()),
                None => None,
            },
            size: self.size,
            align: self.align,
            font_family: match &self.font_family {
                Some(f) => Some(f.clone()),
                None => None,
            },
            font_weight: self.font_weight,
            font_width: self.font_width,
            font_style: match &self.font_style {
                Some(st) => Some(st.clone()),
                None => None,
            },
            conditions,
        };
        proof {
            assert(r@ =~= self@);
        }
        r
    }
}

/// The style every cascade starts from: nothing set, left-aligned, normal
/// weight and width, no conditions.
pub open spec fn base_flat_style() -> FlatTextStyleView {
    FlatTextStyleView {
        foreground: None,
        background: None,
        size: None,
        align: Alignment::Left,
        font_family: None,
        font_weight: Weight::Normal,
        font_width: Width::Normal,
        font_style: None,
        conditions: Seq::empty(),
    }
}

impl Default for FlatTextStyle {
    fn default() -> (r: Self)
        ensures
            r@ == base_flat_style(),
    {
        let r = FlatTextStyle {
            foreground: None,
            background: None,
            size: None,
            align: Alignment::Left,
            font_family: None,
            font_weight: Weight::Normal,
            font_width: Width::Normal,
            font_style: None,
            conditions: Vec::new(),
        };
        proof {
            assert(r@ =~= base_flat_style());
        }
        r
    }
}

/// One cascade layer applied to a flattened style: the layer's set attributes
/// override, its unset attributes pass the prior value through, and an
/// `only-if` accumulates.
pub open spec fn cascade_one(s: FlatTextStyleView, st: TextStyleView) -> FlatTextStyleView {
    match st {
        TextStyleView::Font(f) => FlatTextStyleView {
            font_family: if f.family is Some {
                f.family
            } else {
                s.font_family
            },
            font_style: if f.style is Some {
                f.style
            } else {
                s.font_style
            },
            font_weight: if f.weight is Some {
                f.weight->0
            } else {
                s.font_weight
            },
            font_width: if f.width is Some {
                f.width->0
            } else {
                s.font_width
            },
            ..s
        },
        TextStyleView::Size(sz) => FlatTextStyleView { size: Some(sz), ..s },
        TextStyleView::Align(a) => FlatTextStyleView { align: a.alignment, ..s },
        TextStyleView::Foreground(fg) => FlatTextStyleView { foreground: Some(fg), ..s },
        TextStyleView::Background(bg) => FlatTextStyleView { background: Some(bg), ..s },
        TextStyleView::OnlyIf(c) => FlatTextStyleView { conditions: s.conditions.push(c), ..s },
    }
}

/// A whole list of layers applied in order: later layers override earlier
/// ones attribute by attribute.
pub open spec fn cascade(s: FlatTextStyleView, layers: Seq<TextStyleView>) -> FlatTextStyleView
    decreases layers.len(),
{
    if layers.len() == 0 {
        s
    } else {
        cascade_one(cascade(s, layers.drop_last()), layers.last())
    }
}

/// The views of a list of style layers.
pub open spec fn styles_view(v: Seq<TextStyle>) -> Seq<TextStyleView> {
    v.map_values(|t: TextStyle| t@)
}

impl FlatTextStyle {
    /// Applies the given style layers on top of this style, in order, as
    /// `cascade` describes.
    pub fn apply(&mut self, styles: &[TextStyle])
        ensures
            final(self)@ == cascade(old(self)@, styles_view(styles@)),
    {
        let ghost s0 = self@;
        let ghost vs = styles_view(styles@);
        let n = styles.len();
        let mut i: usize = 0;
        proof {
            assert(vs.subrange(0, 0) =~= Seq::<TextStyleView>::empty());
        }
        while i < n
            invariant
                n == styles@.len(),
                vs == styles_view(styles@),
                i <= n,
                self@ == cascade(s0, vs.subrange(0, i as int)),
            decreases n - i,
        {
            let ghost prev = self@;
            match &styles[i] {
                TextStyle::Font(f) => {
                    if let Some(fam) = &f.family {
                        self.font_family = Some(fam.clone());
                    }
                    if let Some(st) = &f.style {
                        self.font_style = Some(st.clone());
                    }
                    if let Some(w) = &f.weight {
                        self.font_weight = *w;
                    }
                    if let Some(w) = &f.width {
                        self.font_width = *w;
                    }
                },
                TextStyle::Size(sz) => {
                    self.size = Some(*sz);
                },
                TextStyle::Align(a) => {
                    self.align = a.alignment;
                },
                TextStyle::Foreground(fg) => {
                    self.foreground = Some(fg.clone());
                },
                TextStyle::Background(bg) => {
                    self.background = Some(bg.clone());
                },
                TextStyle::OnlyIf(c) => {
                    self.conditions.push(c.clone());
                },
            }
            proof {
                assert(self@ =~= cascade_one(prev, styles@[i as int]@));
                assert(vs.subrange(0, i + 1 as int).drop_last() =~= vs.subrange(0, i as int));
                assert(vs.subrange(0, i + 1 as int).last() == styles@[i as int]@);
            }
            i += 1;
        }
        proof {
            assert(vs.subrange(0, n as int) =~= vs);
        }
    }
}

/// Identity law of the cascade: applying an empty layer list leaves any style
/// unchanged.
pub proof fn lemma_cascade_empty(s: FlatTextStyleView)
    ensures
        cascade(s, Seq::empty()) == s,
{
}

/// Override law of the cascade: when the same wholesale attribute is set
/// twice, only the later value remains.
pub proof fn lemma_cascade_override(
    s: FlatTextStyleView,
    layers: Seq<TextStyleView>,
    a: TextStyleView,
    b: TextStyleView,
)
    requires
        (a is Size && b is Size) || (a is Align && b is Align) || (a is Foreground
            && b is Foreground) || (a is Background && b is Background),
    ensures
        cascade(s, layers.push(a).push(b)) == cascade(s, layers.push(b)),
{
    assert(layers.push(a).push(b).drop_last() =~= layers.push(a));
    assert(layers.push(b).drop_last() =~= layers);
    assert(layers.push(a).drop_last() =~= layers);
    let x = cascade(s, layers);
    assert(cascade(s, layers.push(a)) == cascade_one(x, a));
    assert(cascade_one(cascade_one(x, a), b) =~= cascade_one(x, b));
}

/// Default-retention law of the cascade: an attribute no layer touches keeps
/// the value the cascade started from.
pub proof fn lemma_cascade_untouched(s: FlatTextStyleView, layers: Seq<TextStyleView>)
    ensures
        (forall|i: int| 0 <= i < layers.len() ==> !((#[trigger] layers[i]) is Size)) ==> cascade(
            s,
            layers,
        ).size == s.size,
        (forall|i: int| 0 <= i < layers.len() ==> !((#[trigger] layers[i]) is Align)) ==> cascade(
            s,
            layers,
        ).align == s.align,
        (forall|i: int| 0 <= i < layers.len() ==> !((#[trigger] layers[i]) is Foreground))
            ==> cascade(s, layers).foreground == s.foreground,
        (forall|i: int| 0 <= i < layers.len() ==> !((#[trigger] layers[i]) is Background))
            ==> cascade(s, layers).background == s.background,
        (forall|i: int| 0 <= i < layers.len() ==> !((#[trigger] layers[i]) is Font)) ==> cascade(
            s,
            layers,
        ).font_family == s.font_family && cascade(s, layers).font_weight == s.font_weight
            && cascade(s, layers).font_width == s.font_width && cascade(s, layers).font_style
            == s.font_style,
    decreases layers.len(),
{
    if layers.len() > 0 {
        lemma_cascade_untouched(s, layers.drop_last());
    }
}

} // verus!
