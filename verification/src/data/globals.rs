//! Builtin registries: the fixed color palette and the builtin named text
//! styles that project definitions may shadow.
use vstd::prelude::*;

use crate::model::color::Color;
use crate::model::color::ColorRef;
use crate::model::font::Font;
use crate::model::font::FontView;
use crate::model::font::Weight;
use crate::model::styles::TextStyle;
use crate::model::styles::TextStyleView;
use crate::model::text::Foreground;
use crate::strings::str_eq;
use crate::templates::TemplateAwareString;
use crate::templates::TemplateAwareStringView;

verus! {

/// The builtin color palette: a fixed set of named colors, all fully
/// opaque but for `transparent`.
pub open spec fn builtin_color(name: Seq<char>) -> Option<Color> {
    if name == "transparent"@ {
        Some(Color::RGBA(0x00, 0x00, 0x00, 0x00))
    } else if name == "black"@ {
        Some(Color::RGBA(0x00, 0x00, 0x00, 0xff))
    } else if name == "dark gray"@ {
        Some(Color::RGBA(0x44, 0x44, 0x44, 0xff))
    } else if name == "gray"@ {
        Some(Color::RGBA(0x88, 0x88, 0x88, 0xff))
    } else if name == "light gray"@ {
        Some(Color::RGBA(0xcc, 0xcc, 0xcc, 0xff))
    } else if name == "white"@ {
        Some(Color::RGBA(0xff, 0xff, 0xff, 0xff))
    } else if name == "red"@ {
        Some(Color::RGBA(0xff, 0x00, 0x00, 0xff))
    } else if name == "green"@ {
        Some(Color::RGBA(0x00, 0xff, 0x00, 0xff))
    } else if name == "blue"@ {
        Some(Color::RGBA(0x00, 0x00, 0xff, 0xff))
    } else if name == "yellow"@ {
        Some(Color::RGBA(0xff, 0xff, 0x00, 0xff))
    } else if name == "cyan"@ {
        Some(Color::RGBA(0x00, 0xff, 0xff, 0xff))
    } else if name == "magenta"@ {
        Some(Color::RGBA(0xff, 0x00, 0xff, 0xff))
    } else {
        None
    }
}

/// Looks a name up in the builtin palette.
pub fn color_named(name: &str) -> (r: Option<Color>)
    ensures
        r == builtin_color(name@),
{
    if str_eq(name, "transparent") {
        Some(Color::RGBA(0x00, 0x00, 0x00, 0x00))
    } else if str_eq(name, "black") {
        Some(Color::RGBA(0x00, 0x00, 0x00, 0xff))
    } else if str_eq(name, "dark gray") {
        Some(Color::RGBA(0x44, 0x44, 0x44, 0xff))
    } else if str_eq(name, "gray") {
        Some(Color::RGBA(0x88, 0x88, 0x88, 0xff))
    } else if str_eq(name, "light gray") {
        Some(Color::RGBA(0xcc, 0xcc, 0xcc, 0xff))
    } else if str_eq(name, "white") {
        Some(Color::RGBA(0xff, 0xff, 0xff, 0xff))
    } else if str_eq(name, "red") {
        Some(Color::RGBA(0xff, 0x00, 0x00, 0xff))
    } else if str_eq(name, "green") {
        Some(Color::RGBA(0x00, 0xff, 0x00, 0xff))
    } else if str_eq(name, "blue") {
        Some(Color::RGBA(0x00, 0x00, 0xff, 0xff))
    } else if str_eq(name, "yellow") {
        Some(Color::RGBA(0xff, 0xff, 0x00, 0xff))
    } else if str_eq(name, "cyan") {
        Some(Color::RGBA(0x00, 0xff, 0xff, 0xff))
    } else if str_eq(name, "magenta") {
        Some(Color::RGBA(0xff, 0x00, 0xff, 0xff))
    } else {
        None
    }
}

/// The palette name a builtin style tag refers to, for the color-named
/// style tags (dashes in the tag become spaces in the color name).
pub open spec fn builtin_style_color(name: Seq<char>) -> Option<Seq<char>> {
    if name == "black"@ {
        Some("black"@)
    } else if name == "dark-gray"@ {
        Some("dark gray"@)
    } else if name == "gray"@ {
        Some("gray"@)
    } else if name == "light-gray"@ {
        Some("light gray"@)
    } else if name == "white"@ {
        Some("white"@)
    } else if name == "red"@ {
        Some("red"@)
    } else if name == "green"@ {
        Some("green"@)
    } else if name == "blue"@ {
        Some("blue"@)
    } else if name == "yellow"@ {
        Some("yellow"@)
    } else if name == "cyan"@ {
        Some("cyan"@)
    } else if name == "magenta"@ {
        Some("magenta"@)
    } else {
        None
    }
}

/// The builtin named style sets: `b` sets bold weight, `i` sets the italic
/// slant, and each palette color name sets that foreground color.
pub open spec fn builtin_style(name: Seq<char>) -> Option<Seq<TextStyleView>> {
    if name == "b"@ {
        Some(
            seq![
                TextStyleView::Font(
                    FontView {
                        family: None,
                        weight: Some(Weight::Bold),
                        width: None,
                        style: None,
                    },
                ),
            ],
        )
    } else if name == "i"@ {
        Some(
            seq![
                TextStyleView::Font(
                    FontView { family: None, weight: None, width: None, style: Some("italic"@) },
                ),
            ],
        )
    } else if builtin_style_color(name) is Some {
        Some(
            seq![
                TextStyleView::Foreground(
                    crate::model::color::ColorRefView::Named(
                        TemplateAwareStringView::RawString(builtin_style_color(name)->0),
                    ),
                ),
            ],
        )
    } else {
        None
    }
}

fn color_style(color_name: &str) -> (r: Vec<TextStyle>)
    ensures
        r@.map_values(|t: TextStyle| t@) =~= seq![
            TextStyleView::Foreground(
                crate::model::color::ColorRefView::Named(
                    TemplateAwareStringView::RawString(color_name@),
                ),
            ),
        ],
{
    let mut v: Vec<TextStyle> = Vec::new();
    v.push(
        TextStyle::Foreground(
            Foreground {
                color: ColorRef::Named(TemplateAwareString::RawString(String::from_str(color_name))),
            },
        ),
    );
    v
}

/// Looks a tag up among the builtin style sets.
pub fn style_named(name: &str) -> (r: Option<Vec<TextStyle>>)
    ensures
        match r {
            Some(v) => builtin_style(name@) == Some(v@.map_values(|t: TextStyle| t@)),
            None => builtin_style(name@) is None,
        },
{
    if str_eq(name, "b") {
        let mut v: Vec<TextStyle> = Vec::new();
        v.push(
            TextStyle::Font(Font { family: None, weight: Some(Weight::Bold), width: None, style: None }),
        );
        proof {
            assert(v@.map_values(|t: TextStyle| t@) =~= builtin_style(name@)->0);
        }
        Some(v)
    } else if str_eq(name, "i") {
        let mut v: Vec<TextStyle> = Vec::new();
        v.push(
            TextStyle::Font(
                Font {
                    family: None,
                    weight: None,
                    width: None,
                    style: Some(String::from_str("italic")),
                },
            ),
        );
        proof {
            assert(v@.map_values(|t: TextStyle| t@) =~= builtin_style(name@)->0);
        }
        Some(v)
    } else if str_eq(name, "black") {
        Some(color_style("black"))
    } else if str_eq(name, "dark-gray") {
        Some(color_style("dark gray"))
    } else if str_eq(name, "gray") {
        Some(color_style("gray"))
    } else if str_eq(name, "light-gray") {
        Some(color_style("light gray"))
    } else if str_eq(name, "white") {
        Some(color_style("white"))
    } else if str_eq(name, "red") {
        Some(color_style("red"))
    } else if str_eq(name, "green") {
        Some(color_style("green"))
    } else if str_eq(name, "blue") {
        Some(color_style("blue"))
    } else if str_eq(name, "yellow") {
        Some(color_style("yellow"))
    } else if str_eq(name, "cyan") {
        Some(color_style("cyan"))
    } else if str_eq(name, "magenta") {
        Some(color_style("magenta"))
    } else {
        None
    }
}

} // verus!
