//! Font selection attributes: family, weight, width and slant, each
//! independently overridable by the style cascade.
use vstd::prelude::*;

use crate::strings::chars_eq;
use crate::strings::normalize;
use crate::strings::normalized;

verus! {

/// A font declaration; unset attributes pass through from the prior cascade
/// layer.
#[derive(PartialEq, Eq, Debug)]
pub struct Font {
    pub family: Option<String>,
    pub weight: Option<Weight>,
    pub width: Option<Width>,
    pub style: Option<String>,
}

#[derive(PartialEq, Eq, Debug, Clone, Copy, Structural)]
pub enum Width {
    UltraCondensed,
    Condensed,
    SemiCondensed,
    Normal,
    SemiWide,
    Wide,
    UltraWide,
}

#[derive(PartialEq, Eq, Debug, Clone, Copy, Structural)]
pub enum Weight {
    Thin,
    ExtraLight,
    Light,
    Normal,
    Medium,
    SemiBold,
    Bold,
    ExtraBold,
    Black,
    ExtraBlack,
}

/// The width keyword a normalized token names; anything unknown reads as
/// normal width.
pub open spec fn width_of_keyword(t: Seq<char>) -> Width {
    if t == "ultracondensed"@ {
        Width::UltraCondensed
    } else if t == "condensed"@ {
        Width::Condensed
    } else if t == "semicondensed"@ {
        Width::SemiCondensed
    } else if t == "semiwide"@ {
        Width::SemiWide
    } else if t == "wide"@ {
        Width::Wide
    } else if t == "ultrawide"@ {
        Width::UltraWide
    } else {
        Width::Normal
    }
}

/// The weight keyword a normalized token names; anything unknown reads as
/// normal weight.
pub open spec fn weight_of_keyword(t: Seq<char>) -> Weight {
    if t == "thin"@ {
        Weight::Thin
    } else if t == "extralight"@ {
        Weight::ExtraLight
    } else if t == "light"@ {
        Weight::Light
    } else if t == "medium"@ {
        Weight::Medium
    } else if t == "semibold"@ {
        Weight::SemiBold
    } else if t == "bold"@ {
        Weight::Bold
    } else if t == "extrabold"@ {
        Weight::ExtraBold
    } else if t == "black"@ {
        Weight::Black
    } else if t == "extrablack"@ {
        Weight::ExtraBlack
    } else {
        Weight::Normal
    }
}

impl Width {
    /// Reads a width keyword, ignoring case, spaces and dashes; unknown
    /// keywords fall back to normal width.
    pub fn from_str(s: &str) -> (r: Width)
        ensures
            r == width_of_keyword(normalized(s@)),
    {
        let t = normalize(s);
        if chars_eq(&t, "ultracondensed") {
            Width::UltraCondensed
        } else if chars_eq(&t, "condensed") {
            Width::Condensed
        } else if chars_eq(&t, "semicondensed") {
            Width::SemiCondensed
        } else if chars_eq(&t, "semiwide") {
            Width::SemiWide
        } else if chars_eq(&t, "wide") {
            Width::Wide
        } else if chars_eq(&t, "ultrawide") {
            Width::UltraWide
        } else {
            Width::Normal
        }
    }
}

impl Weight {
    /// Reads a weight keyword, ignoring case, spaces and dashes; unknown
    /// keywords fall back to normal weight.
    pub fn from_str(s: &str) -> (r: Weight)
        ensures
            r == weight_of_keyword(normalized(s@)),
    {
        let t = normalize(s);
        if chars_eq(&t, "thin") {
            Weight::Thin
        } else if chars_eq(&t, "extralight") {
            Weight::ExtraLight
        } else if chars_eq(&t, "light") {
            Weight::Light
        } else if chars_eq(&t, "medium") {
            Weight::Medium
        } else if chars_eq(&t, "semibold") {
            Weight::SemiBold
        } else if chars_eq(&t, "bold") {
            Weight::Bold
        } else if chars_eq(&t, "extrabold") {
            Weight::ExtraBold
        } else if chars_eq(&t, "black") {
            Weight::Black
        } else if chars_eq(&t, "extrablack") {
            Weight::ExtraBlack
        } else {
            Weight::Normal
        }
    }
}

/// The mathematical value of a font declaration.
pub struct FontView {
    pub family: Option<Seq<char>>,
    pub weight: Option<Weight>,
    pub width: Option<Width>,
    pub style: Option<Seq<char>>,
}

impl View for Font {
    type V = FontView;

    open spec fn view(&self) -> FontView {
        FontView {
            family: match &self.family {
                Some(f) => Some(f@),
                None => None,
            },
            weight: self.weight,
            width: self.width,
            style: match &self.style {
                Some(st) => Some(st@),
                None => None,
            },
        }
    }
}

impl Clone for Font {
    fn clone(&self) -> (r: Self)
        ensures
            r@ == self@,
    {
        Font {
            family: match &self.family {
                Some(f) => Some(f.clone()),
                None => None,
            },
            weight: self.weight,
            width: self.width,
            style: match &self.style {
                Some(st) => Some(st.clone()),
                None => None,
            },
        }
    }
}

} // verus!
