//! Page and card sizes: named paper and card formats, explicit dimensions,
//! and orientation flips, all compiled to thousandths of a point.
use vstd::prelude::*;

use crate::config::units::unit_points;
use crate::config::units::Units;
use crate::config::units::MAX_LENGTH_MILLI;
use crate::strings::chars_eq;
use crate::strings::lower_char;
use crate::strings::lower_char_exec;
use crate::Milli;

verus! {

/// An ASCII letter or digit: what survives name canonicalization.
pub open spec fn is_alnum(c: char) -> bool {
    ('A' <= c <= 'Z') || ('a' <= c <= 'z') || ('0' <= c <= '9')
}

/// A size name folded for lookup: every run of non-alphanumeric characters
/// collapses to one space, and letters fold to lower case.
pub open spec fn canonical(s: Seq<char>) -> Seq<char>
    decreases s.len(),
{
    if s.len() == 0 {
        Seq::empty()
    } else {
        let p = canonical(s.drop_last());
        if is_alnum(s.last()) {
            p.push(lower_char(s.last()))
        } else {
            if p.len() > 0 && p.last() == ' ' {
                p
            } else {
                p.push(' ')
            }
        }
    }
}

/// Computes the `canonical` form of a name.
pub fn canonicalize_name(s: &str) -> (r: Vec<char>)
    ensures
        r@ == canonical(s@),
{
    let n = s.unicode_len();
    let mut r: Vec<char> = Vec::new();
    let mut i: usize = 0;
    proof {
        assert(s@.subrange(0, 0) =~= Seq::<char>::empty());
    }
    while i < n
        invariant
            n == s@.len(),
            i <= n,
            r@ == canonical(s@.subrange(0, i as int)),
        decreases n - i,
    {
        let c = s.get_char(i);
        proof {
            assert(s@.subrange(0, i + 1 as int).drop_last() =~= s@.subrange(0, i as int));
            assert(s@.subrange(0, i + 1 as int).last() == s@[i as int]);
        }
        if ('A' <= c && c <= 'Z') || ('a' <= c && c <= 'z') || ('0' <= c && c <= '9') {
            r.push(lower_char_exec(c));
        } else {
            if r.len() == 0 {
                r.push(' ');
            } else if r[r.len() - 1] != ' ' {
                r.push(' ');
            }
        }
        i += 1;
    }
    proof {
        assert(s@.subrange(0, n as int) =~= s@);
    }
    r
}

/// A named or explicit paper size.
#[derive(PartialEq, Eq, Debug, Clone, Copy, Structural)]
pub enum PageDimensions {
    Letter,
    Legal,
    Tabloid,
    Ledger,
    A0,
    A1,
    A2,
    A3,
    A4,
    A5,
    A6,
    A7,
    A8,
    Custom(Milli, Milli),
}

/// Forcing a page the tall or the wide way around.
#[derive(PartialEq, Eq, Debug, Clone, Copy, Structural)]
pub enum PageOrientation {
    Tall,
    Wide,
}

/// A page size: base dimensions plus an optional orientation flip.
#[derive(PartialEq, Eq, Debug, Clone, Copy, Structural)]
pub struct PageSize {
    pub dimensions: PageDimensions,
    pub orientation: Option<PageOrientation>,
}

#[derive(PartialEq, Eq, Debug)]
pub enum SizeError {
    InvalidPageSizeName(String),
    InvalidOrientationName(String),
    InvalidCardSizeName(String),
}

/// The paper format a canonical name names, or nothing.
pub open spec fn page_size_keyword(t: Seq<char>) -> Option<PageDimensions> {
    if t == "letter"@ || t == "us letter"@ {
        Some(PageDimensions::Letter)
    } else if t == "legal"@ || t == "us legal"@ {
        Some(PageDimensions::Legal)
    } else if t == "tabloid"@ || t == "us tabloid"@ {
        Some(PageDimensions::Tabloid)
    } else if t == "ledger"@ || t == "us ledger"@ {
        Some(PageDimensions::Ledger)
    } else if t == "a0"@ {
        Some(PageDimensions::A0)
    } else if t == "a1"@ {
        Some(PageDimensions::A1)
    } else if t == "a2"@ {
        Some(PageDimensions::A2)
    } else if t == "a3"@ {
        Some(PageDimensions::A3)
    } else if t == "a4"@ {
        Some(PageDimensions::A4)
    } else if t == "a5"@ {
        Some(PageDimensions::A5)
    } else if t == "a6"@ {
        Some(PageDimensions::A6)
    } else if t == "a7"@ {
        Some(PageDimensions::A7)
    } else if t == "a8"@ {
        Some(PageDimensions::A8)
    } else {
        None
    }
}

/// Reads a paper format name, canonicalized; anything unknown is rejected
/// with the offending name.
pub fn page_dimensions_from_name(name: &str) -> (r: Result<PageDimensions, SizeError>)
    ensures
        page_size_keyword(canonical(name@)) matches Some(d) ==> r == Ok::<_, SizeError>(d),
        page_size_keyword(canonical(name@)) is None ==> (r matches Err(
            SizeError::InvalidPageSizeName(t),
        ) && t@ == name@),
{
    let t = canonicalize_name(name);
    if chars_eq(&t, "letter") || chars_eq(&t, "us letter") {
        Ok(PageDimensions::Letter)
    } else if chars_eq(&t, "legal") || chars_eq(&t, "us legal") {
        Ok(PageDimensions::Legal)
    } else if chars_eq(&t, "tabloid") || chars_eq(&t, "us tabloid") {
        Ok(PageDimensions::Tabloid)
    } else if chars_eq(&t, "ledger") || chars_eq(&t, "us ledger") {
        Ok(PageDimensions::Ledger)
    } else if chars_eq(&t, "a0") {
        Ok(PageDimensions::A0)
    } else if chars_eq(&t, "a1") {
        Ok(PageDimensions::A1)
    } else if chars_eq(&t, "a2") {
        Ok(PageDimensions::A2)
    } else if chars_eq(&t, "a3") {
        Ok(PageDimensions::A3)
    } else if chars_eq(&t, "a4") {
        Ok(PageDimensions::A4)
    } else if chars_eq(&t, "a5") {
        Ok(PageDimensions::A5)
    } else if chars_eq(&t, "a6") {
        Ok(PageDimensions::A6)
    } else if chars_eq(&t, "a7") {
        Ok(PageDimensions::A7)
    } else if chars_eq(&t, "a8") {
        Ok(PageDimensions::A8)
    } else {
        Err(SizeError::InvalidPageSizeName(String::from_str(name)))
    }
}

/// The orientation a canonical name names, or nothing.
pub open spec fn orientation_keyword(t: Seq<char>) -> Option<PageOrientation> {
    if t == "wide"@ || t == "landscape"@ {
        Some(PageOrientation::Wide)
    } else if t == "tall"@ || t == "portrait"@ {
        Some(PageOrientation::Tall)
    } else {
        None
    }
}

/// Reads an orientation name, canonicalized; anything unknown is rejected
/// with the offending name.
pub fn page_orientation_from_name(name: &str) -> (r: Result<PageOrientation, SizeError>)
    ensures
        orientation_keyword(canonical(name@)) matches Some(o) ==> r == Ok::<_, SizeError>(o),
        orientation_keyword(canonical(name@)) is None ==> (r matches Err(
            SizeError::InvalidOrientationName(t),
        ) && t@ == name@),
{
    let t = canonicalize_name(name);
    if chars_eq(&t, "wide") || chars_eq(&t, "landscape") {
        Ok(PageOrientation::Wide)
    } else if chars_eq(&t, "tall") || chars_eq(&t, "portrait") {
        Ok(PageOrientation::Tall)
    } else {
        Err(SizeError::InvalidOrientationName(String::from_str(name)))
    }
}

impl PageOrientation {
    /// Flips a size to the requested way around: tall makes height the
    /// larger side, wide makes width the larger side.
    pub open spec fn transformed(&self, size: (int, int)) -> (int, int) {
        match self {
            PageOrientation::Tall => {
                if size.0 > size.1 {
                    (size.1, size.0)
                } else {
                    size
                }
            },
            PageOrientation::Wide => {
                if size.1 > size.0 {
                    (size.1, size.0)
                } else {
                    size
                }
            },
        }
    }

    /// Applies `transformed` to a size in thousandths of a point.
    pub fn transform_size(&self, size: (Milli, Milli)) -> (r: (Milli, Milli))
        ensures
            (r.0 as int, r.1 as int) == self.transformed((size.0 as int, size.1 as int)),
    {
        match self {
            PageOrientation::Tall => {
                if size.0 > size.1 {
                    (size.1, size.0)
                } else {
                    size
                }
            },
            PageOrientation::Wide => {
                if size.1 > size.0 {
                    (size.1, size.0)
                } else {
                    size
                }
            },
        }
    }
}

/// The base dimensions of a paper format, in thousandths of a point: the US
/// formats from their inch sizes, the A series from its millimeter sizes,
/// a custom size from the sheet type's own units.
pub open spec fn page_dims_points(d: PageDimensions, u: Units) -> (int, int) {
    match d {
        PageDimensions::Letter => (unit_points(Units::Inches, 8500), unit_points(Units::Inches, 11000)),
        PageDimensions::Legal => (unit_points(Units::Inches, 8500), unit_points(Units::Inches, 14000)),
        PageDimensions::Tabloid => (
            unit_points(Units::Inches, 11000),
            unit_points(Units::Inches, 17000),
        ),
        PageDimensions::Ledger => (
            unit_points(Units::Inches, 17000),
            unit_points(Units::Inches, 11000),
        ),
        PageDimensions::A0 => (
            unit_points(Units::Millimeters, 841000),
            unit_points(Units::Millimeters, 1189000),
        ),
        PageDimensions::A1 => (
            unit_points(Units::Millimeters, 594000),
            unit_points(Units::Millimeters, 841000),
        ),
        PageDimensions::A2 => (
            unit_points(Units::Millimeters, 420000),
            unit_points(Units::Millimeters, 594000),
        ),
        PageDimensions::A3 => (
            unit_points(Units::Millimeters, 297000),
            unit_points(Units::Millimeters, 420000),
        ),
        PageDimensions::A4 => (
            unit_points(Units::Millimeters, 210000),
            unit_points(Units::Millimeters, 297000),
        ),
        PageDimensions::A5 => (
            unit_points(Units::Millimeters, 148000),
            unit_points(Units::Millimeters, 210000),
        ),
        PageDimensions::A6 => (
            unit_points(Units::Millimeters, 105000),
            unit_points(Units::Millimeters, 148000),
        ),
        PageDimensions::A7 => (
            unit_points(Units::Millimeters, 74000),
            unit_points(Units::Millimeters, 105000),
        ),
        PageDimensions::A8 => (
            unit_points(Units::Millimeters, 52000),
            unit_points(Units::Millimeters, 74000),
        ),
        PageDimensions::Custom(w, h) => (unit_points(u, w as int), unit_points(u, h as int)),
    }
}

impl PageSize {
    /// A custom size is in conversion range; named formats always are.
    pub open spec fn in_range(&self) -> bool {
        match self.dimensions {
            PageDimensions::Custom(w, h) => 0 <= w <= MAX_LENGTH_MILLI && 0 <= h
                <= MAX_LENGTH_MILLI,
            _ => true,
        }
    }

    /// The page's final dimensions, as `page_dims_points` with the optional
    /// orientation flip applied.
    pub open spec fn dims_points(&self, u: Units) -> (int, int) {
        let base = page_dims_points(self.dimensions, u);
        match self.orientation {
            Some(o) => o.transformed(base),
            None => base,
        }
    }

    /// Computes the page's dimensions in thousandths of a point.
    pub fn get_dimensions_in_points(&self, base_units: &Units) -> (r: (Milli, Milli))
        requires
            self.in_range(),
        ensures
            (r.0 as int, r.1 as int) == self.dims_points(*base_units),
    {
        let base: (Milli, Milli) = match self.dimensions {
            PageDimensions::Letter => (
                Units::Inches.convert_to_points(8500),
                Units::Inches.convert_to_points(11000),
            ),
            PageDimensions::Legal => (
                Units::Inches.convert_to_points(8500),
                Units::Inches.convert_to_points(14000),
            ),
            PageDimensions::Tabloid => (
                Units::Inches.convert_to_points(11000),
                Units::Inches.convert_to_points(17000),
            ),
            PageDimensions::Ledger => (
                Units::Inches.convert_to_points(17000),
                Units::Inches.convert_to_points(11000),
            ),
            PageDimensions::A0 => (
                Units::Millimeters.convert_to_points(841000),
                Units::Millimeters.convert_to_points(1189000),
            ),
            PageDimensions::A1 => (
                Units::Millimeters.convert_to_points(594000),
                Units::Millimeters.convert_to_points(841000),
            ),
            PageDimensions::A2 => (
                Units::Millimeters.convert_to_points(420000),
                Units::Millimeters.convert_to_points(594000),
            ),
            PageDimensions::A3 => (
                Units::Millimeters.convert_to_points(297000),
                Units::Millimeters.convert_to_points(420000),
            ),
            PageDimensions::A4 => (
                Units::Millimeters.convert_to_points(210000),
                Units::Millimeters.convert_to_points(297000),
            ),
            PageDimensions::A5 => (
                Units::Millimeters.convert_to_points(148000),
                Units::Millimeters.convert_to_points(210000),
            ),
            PageDimensions::A6 => (
                Units::Millimeters.convert_to_points(105000),
                Units::Millimeters.convert_to_points(148000),
            ),
            PageDimensions::A7 => (
                Units::Millimeters.convert_to_points(74000),
                Units::Millimeters.convert_to_points(105000),
            ),
            PageDimensions::A8 => (
                Units::Millimeters.convert_to_points(52000),
                Units::Millimeters.convert_to_points(74000),
            ),
            PageDimensions::Custom(w, h) => (
                base_units.convert_to_points(w),
                base_units.convert_to_points(h),
            ),
        };
        match &self.orientation {
            Some(o) => o.transform_size(base),
            None => base,
        }
    }

    /// US Letter the wide way around: the default for regions that print on
    /// letter paper.
    pub fn letter_landscape() -> (r: PageSize)
        ensures
            r == (PageSize {
                dimensions: PageDimensions::Letter,
                orientation: Some(PageOrientation::Wide),
            }),
    {
        PageSize { dimensions: PageDimensions::Letter, orientation: Some(PageOrientation::Wide) }
    }

    /// A4 the wide way around: the default everywhere else.
    pub fn a4_landscape() -> (r: PageSize)
        ensures
            r == (PageSize {
                dimensions: PageDimensions::A4,
                orientation: Some(PageOrientation::Wide),
            }),
    {
        PageSize { dimensions: PageDimensions::A4, orientation: Some(PageOrientation::Wide) }
    }
}

/// A named or explicit card format.
#[derive(PartialEq, Eq, Debug, Clone, Copy, Structural)]
pub enum CardSize {
    Poker,
    Bridge,
    Tarot,
    Square25,
    Square35,
    Mini,
    Custom(Milli, Milli),
}

/// The card format a canonical name names, or nothing.
pub open spec fn card_size_keyword(t: Seq<char>) -> Option<CardSize> {
    if t == "poker"@ {
        Some(CardSize::Poker)
    } else if t == "bridge"@ {
        Some(CardSize::Bridge)
    } else if t == "tarot"@ {
        Some(CardSize::Tarot)
    } else if t == "mini"@ {
        Some(CardSize::Mini)
    } else if t == "small square"@ {
        Some(CardSize::Square25)
    } else if t == "large square"@ {
        Some(CardSize::Square35)
    } else {
        None
    }
}

/// Reads a card format name, canonicalized; anything unknown is rejected
/// with the offending name.
pub fn card_size_from_name(name: &str) -> (r: Result<CardSize, SizeError>)
    ensures
        card_size_keyword(canonical(name@)) matches Some(c) ==> r == Ok::<_, SizeError>(c),
        card_size_keyword(canonical(name@)) is None ==> (r matches Err(
            SizeError::InvalidCardSizeName(t),
        ) && t@ == name@),
{
    let t = canonicalize_name(name);
    if chars_eq(&t, "poker") {
        Ok(CardSize::Poker)
    } else if chars_eq(&t, "bridge") {
        Ok(CardSize::Bridge)
    } else if chars_eq(&t, "tarot") {
        Ok(CardSize::Tarot)
    } else if chars_eq(&t, "mini") {
        Ok(CardSize::Mini)
    } else if chars_eq(&t, "small square") {
        Ok(CardSize::Square25)
    } else if chars_eq(&t, "large square") {
        Ok(CardSize::Square35)
    } else {
        Err(SizeError::InvalidCardSizeName(String::from_str(name)))
    }
}

/// The dimensions of a card format, in thousandths of a point: named formats
/// from their millimeter sizes, a custom size from the sheet type's units.
pub open spec fn card_dims_points(c: CardSize, u: Units) -> (int, int) {
    match c {
        CardSize::Poker => (
            unit_points(Units::Millimeters, 63000),
            unit_points(Units::Millimeters, 88000),
        ),
        CardSize::Bridge => (
            unit_points(Units::Millimeters, 56000),
            unit_points(Units::Millimeters, 88000),
        ),
        CardSize::Tarot => (
            unit_points(Units::Millimeters, 70000),
            unit_points(Units::Millimeters, 121000),
        ),
        CardSize::Square25 => (
            unit_points(Units::Millimeters, 63000),
            unit_points(Units::Millimeters, 63000),
        ),
        CardSize::Square35 => (
            unit_points(Units::Millimeters, 88000),
            unit_points(Units::Millimeters, 88000),
        ),
        CardSize::Mini => (
            unit_points(Units::Millimeters, 44000),
            unit_points(Units::Millimeters, 64000),
        ),
        CardSize::Custom(w, h) => (unit_points(u, w as int), unit_points(u, h as int)),
    }
}

impl CardSize {
    /// A custom size is in conversion range; named formats always are.
    pub open spec fn in_range(&self) -> bool {
        match self {
            CardSize::Custom(w, h) => 0 <= *w <= MAX_LENGTH_MILLI && 0 <= *h <= MAX_LENGTH_MILLI,
            _ => true,
        }
    }

    /// Computes the card's dimensions in thousandths of a point.
    pub fn get_dimensions_in_points(&self, base_units: &Units) -> (r: (Milli, Milli))
        requires
            self.in_range(),
        ensures
            (r.0 as int, r.1 as int) == card_dims_points(*self, *base_units),
    {
        match self {
            CardSize::Poker => (
                Units::Millimeters.convert_to_points(63000),
                Units::Millimeters.convert_to_points(88000),
            ),
            CardSize::Bridge => (
                Units::Millimeters.convert_to_points(56000),
                Units::Millimeters.convert_to_points(88000),
            ),
            CardSize::Tarot => (
                Units::Millimeters.convert_to_points(70000),
                Units::Millimeters.convert_to_points(121000),
            ),
            CardSize::Square25 => (
                Units::Millimeters.convert_to_points(63000),
                Units::Millimeters.convert_to_points(63000),
            ),
            CardSize::Square35 => (
                Units::Millimeters.convert_to_points(88000),
                Units::Millimeters.convert_to_points(88000),
            ),
            CardSize::Mini => (
                Units::Millimeters.convert_to_points(44000),
                Units::Millimeters.convert_to_points(64000),
            ),
            CardSize::Custom(w, h) => (
                base_units.convert_to_points(*w),
                base_units.convert_to_points(*h),
            ),
        }
    }
}

} // verus!
