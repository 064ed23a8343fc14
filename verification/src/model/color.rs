//! Color references: either a static RGB/RGBA literal or a named reference
//! that is resolved later against the project registry, with a hand-written
//! parser for the `rgb(...)` / `rgba(...)` literal forms.
use vstd::prelude::*;

use crate::strings::str_to_chars;
use crate::strings::substring;
use crate::strings::parse_unsigned;
use crate::strings::trim_range;
use crate::strings::trimmed;
use crate::strings::unsigned_decimal;
use crate::templates::has_open_marker;
use crate::templates::TemplateAwareString;

verus! {

/// The index of the first comma in `s`, or its length when there is none.
pub open spec fn first_comma(s: Seq<char>) -> int
    decreases s.len(),
{
    if s.len() == 0 {
        0
    } else if s[0] == ',' {
        0
    } else {
        1 + first_comma(s.drop_first())
    }
}

/// `s` split at every comma; commas separate, so `n` commas give `n + 1`
/// pieces, empty pieces included.
pub open spec fn split_commas(s: Seq<char>) -> Seq<Seq<char>>
    decreases s.len(),
{
    let k = first_comma(s);
    if 0 <= k < s.len() {
        seq![s.take(k)] + split_commas(s.skip(k + 1))
    } else {
        seq![s]
    }
}

proof fn lemma_first_comma(s: Seq<char>, k: int)
    requires
        0 <= k <= s.len(),
        forall|j: int| 0 <= j < k ==> (#[trigger] s[j]) != ',',
        k < s.len() ==> s[k] == ',',
    ensures
        first_comma(s) == k,
    decreases k,
{
    if k == 0 {
        if s.len() > 0 {
        }
    } else {
        lemma_first_comma(s.drop_first(), k - 1);
    }
}

/// The value a component text stands for: trimmed, then read as an unsigned
/// decimal byte, exactly as unsigned byte parsing reads it.
pub open spec fn component_value(raw: Seq<char>) -> Option<int> {
    unsigned_decimal(trimmed(raw), 255)
}

/// The pieces between the commas of `rgb(...)`, when `s` has that outer
/// shape.
pub open spec fn rgb_components(s: Seq<char>) -> Option<Seq<Seq<char>>> {
    if s.len() >= 5 && s[0] == 'r' && s[1] == 'g' && s[2] == 'b' && s[3] == '(' && s.last() == ')' {
        Some(split_commas(s.subrange(4, s.len() - 1)))
    } else {
        None
    }
}

/// The pieces between the commas of `rgba(...)`, when `s` has that outer
/// shape.
pub open spec fn rgba_components(s: Seq<char>) -> Option<Seq<Seq<char>>> {
    if s.len() >= 6 && s[0] == 'r' && s[1] == 'g' && s[2] == 'b' && s[3] == 'a' && s[4] == '('
        && s.last() == ')' {
        Some(split_commas(s.subrange(5, s.len() - 1)))
    } else {
        None
    }
}

/// An `rgb(c1,c2,c3)` form: exactly three pieces, none empty.
pub open spec fn is_rgb_form(s: Seq<char>) -> bool {
    rgb_components(s) matches Some(cs) && cs.len() == 3 && (forall|i: int|
        0 <= i < 3 ==> (#[trigger] cs[i]).len() > 0)
}

/// An `rgba(c1,c2,c3,c4)` form: exactly four pieces, none empty.
pub open spec fn is_rgba_form(s: Seq<char>) -> bool {
    rgba_components(s) matches Some(cs) && cs.len() == 4 && (forall|i: int|
        0 <= i < 4 ==> (#[trigger] cs[i]).len() > 0)
}

/// What parsing a color reference yields.
pub enum ColorParse {
    StaticRgb(int, int, int),
    StaticRgba(int, int, int, int),
    Named,
    Invalid(Seq<char>),
}

/// Reading a color reference: an `rgb` form with three valid byte components
/// is a static color, an `rgba` form with four likewise; a component that is
/// not a byte is rejected, naming the first offender; everything else is a
/// named reference.
pub open spec fn color_parse(s: Seq<char>) -> ColorParse {
    if is_rgb_form(s) {
        let cs = rgb_components(s)->0;
        if component_value(cs[0]) is None {
            ColorParse::Invalid(cs[0])
        } else if component_value(cs[1]) is None {
            ColorParse::Invalid(cs[1])
        } else if component_value(cs[2]) is None {
            ColorParse::Invalid(cs[2])
        } else {
            ColorParse::StaticRgb(
                component_value(cs[0])->0,
                component_value(cs[1])->0,
                component_value(cs[2])->0,
            )
        }
    } else if is_rgba_form(s) {
        let cs = rgba_components(s)->0;
        if component_value(cs[0]) is None {
            ColorParse::Invalid(cs[0])
        } else if component_value(cs[1]) is None {
            ColorParse::Invalid(cs[1])
        } else if component_value(cs[2]) is None {
            ColorParse::Invalid(cs[2])
        } else if component_value(cs[3]) is None {
            ColorParse::Invalid(cs[3])
        } else {
            ColorParse::StaticRgba(
                component_value(cs[0])->0,
                component_value(cs[1])->0,
                component_value(cs[2])->0,
                component_value(cs[3])->0,
            )
        }
    } else {
        ColorParse::Named
    }
}

/// A color as written in a layout: a literal value or a name to resolve.
#[derive(PartialEq, Eq, Debug)]
pub enum ColorRef {
    Static(Color),
    Named(TemplateAwareString),
}

/// A fully-resolved color value.
#[derive(PartialEq, Eq, Debug, Copy, Clone, Structural)]
pub enum Color {
    RGB(u8, u8, u8),
    RGBA(u8, u8, u8, u8),
}

#[derive(PartialEq, Eq, Debug)]
pub enum ColorParseError {
    InvalidComponent(String),
}

/// The mathematical value of a color reference.
pub enum ColorRefView {
    Static(Color),
    Named(crate::templates::TemplateAwareStringView),
}

impl View for ColorRef {
    type V = ColorRefView;

    open spec fn view(&self) -> ColorRefView {
        match self {
            ColorRef::Static(c) => ColorRefView::Static(*c),
            ColorRef::Named(t) => ColorRefView::Named(t@),
        }
    }
}

impl Clone for ColorRef {
    fn clone(&self) -> (r: Self)
        ensures
            r == *self,
    {
        match self {
            ColorRef::Static(c) => ColorRef::Static(*c),
            ColorRef::Named(t) => ColorRef::Named(t.clone()),
        }
    }
}

/// The index of the first comma of `s` between `from` and `to`, or `to` when
/// there is none.
fn find_comma(s: &Vec<char>, from: usize, to: usize) -> (k: usize)
    requires
        from <= to <= s@.len(),
    ensures
        from <= k <= to,
        forall|j: int| from <= j < k ==> (#[trigger] s@[j]) != ',',
        k < to ==> s@[k as int] == ',',
{
    let mut i = from;
    while i < to
        invariant
            from <= i <= to <= s@.len(),
            forall|j: int| from <= j < i ==> (#[trigger] s@[j]) != ',',
        decreases to - i,
    {
        if s[i] == ',' {
            return i;
        }
        i += 1;
    }
    to
}

/// The views of a list of component ranges of `s`.
pub open spec fn range_parts(s: Seq<char>, rs: Seq<(usize, usize)>) -> Seq<Seq<char>> {
    rs.map_values(|p: (usize, usize)| s.subrange(p.0 as int, p.1 as int))
}

/// Splits the characters of `s` between `lo` and `hi` at every comma,
/// returning the pieces as index ranges.
fn split_ranges(s: &Vec<char>, lo: usize, hi: usize) -> (r: Vec<(usize, usize)>)
    requires
        lo <= hi <= s@.len(),
    ensures
        range_parts(s@, r@) == split_commas(s@.subrange(lo as int, hi as int)),
        forall|i: int| 0 <= i < r@.len() ==> lo <= (#[trigger] r@[i]).0 <= r@[i].1 <= hi,
{
    let ghost whole = s@.subrange(lo as int, hi as int);
    let mut r: Vec<(usize, usize)> = Vec::new();
    let mut p = lo;
    let mut done = false;
    proof {
        assert(range_parts(s@, r@) =~= Seq::<Seq<char>>::empty());
        assert(Seq::<Seq<char>>::empty() + split_commas(whole) =~= split_commas(whole));
    }
    while !done
        invariant
            lo <= p <= hi <= s@.len(),
            whole == s@.subrange(lo as int, hi as int),
            forall|i: int| 0 <= i < r@.len() ==> lo <= (#[trigger] r@[i]).0 <= r@[i].1 <= hi,
            !done ==> split_commas(whole) == range_parts(s@, r@) + split_commas(
                s@.subrange(p as int, hi as int),
            ),
            done ==> split_commas(whole) == range_parts(s@, r@),
        decreases hi - p + (if done {
            0int
        } else {
            1int
        }),
    {
        let k = find_comma(s, p, hi);
        let ghost rest = s@.subrange(p as int, hi as int);
        let ghost old_parts = range_parts(s@, r@);
        proof {
            lemma_first_comma(rest, k - p);
        }
        r.push((p, k));
        proof {
            assert(range_parts(s@, r@) =~= old_parts.push(s@.subrange(p as int, k as int)));
        }
        if k < hi {
            proof {
                assert(rest.take(k - p) =~= s@.subrange(p as int, k as int));
                assert(rest.skip(k - p + 1) =~= s@.subrange(k + 1 as int, hi as int));
                assert(split_commas(rest) == seq![s@.subrange(p as int, k as int)] + split_commas(
                    s@.subrange(k + 1 as int, hi as int),
                ));
                assert(old_parts + (seq![s@.subrange(p as int, k as int)] + split_commas(
                    s@.subrange(k + 1 as int, hi as int),
                )) =~= range_parts(s@, r@) + split_commas(s@.subrange(k + 1 as int, hi as int)));
            }
            p = k + 1;
        } else {
            proof {
                assert(first_comma(rest) == rest.len());
                assert(split_commas(rest) == seq![rest]);
                assert(rest =~= s@.subrange(p as int, k as int));
                assert(old_parts + seq![rest] =~= range_parts(s@, r@));
            }
            done = true;
        }
    }
    r
}

/// Parses one color component: trimmed, then read as a decimal byte.
fn parse_component(s: &Vec<char>, lo: usize, hi: usize) -> (r: Option<u8>)
    requires
        lo <= hi <= s@.len(),
    ensures
        match component_value(s@.subrange(lo as int, hi as int)) {
            Some(v) => r == Some(v as u8),
            None => r is None,
        },
{
    let (a, b) = trim_range(s, lo, hi);
    match parse_unsigned(s, a, b, 255) {
        Some(v) => Some(v as u8),
        None => None,
    }
}

impl ColorRef {
    /// Reads a color reference as `color_parse` describes: an explicit
    /// `rgb(...)` or `rgba(...)` tuple becomes a static color, a tuple with a
    /// bad component is rejected naming that component, and any other text is
    /// a named reference, classified for templates.
    pub fn from_str(s: &str) -> (r: Result<ColorRef, ColorParseError>)
        ensures
            match color_parse(s@) {
                ColorParse::StaticRgb(cr, cg, cb) => r == Ok::<_, ColorParseError>(
                    ColorRef::Static(Color::RGB(cr as u8, cg as u8, cb as u8)),
                ),
                ColorParse::StaticRgba(cr, cg, cb, ca) => r == Ok::<_, ColorParseError>(
                    ColorRef::Static(Color::RGBA(cr as u8, cg as u8, cb as u8, ca as u8)),
                ),
                ColorParse::Named => r matches Ok(c) && c matches ColorRef::Named(t) && (
                t@.contents() == s@ && (t@ is Template <==> has_open_marker(s@))),
                ColorParse::Invalid(comp) => r matches Err(ColorParseError::InvalidComponent(t))
                    && t@ == comp,
            },
    {
        let cs = str_to_chars(s);
        let n = cs.len();
        if n >= 5 && cs[0] == 'r' && cs[1] == 'g' && cs[2] == 'b' && cs[3] == '(' && cs[n - 1]
            == ')' {
            let comps = split_ranges(&cs, 4, n - 1);
            proof {
                assert(s@.last() == ')');
                assert(rgb_components(s@) == Some(
                    split_commas(s@.subrange(4, s@.len() - 1)),
                ));
            }
            if comps.len() == 3 && comps[0].0 < comps[0].1 && comps[1].0 < comps[1].1
                && comps[2].0 < comps[2].1 {
                proof {
                    assert(forall|i: int|
                        0 <= i < 3 ==> (#[trigger] (rgb_components(s@)->0)[i]).len() > 0) by {
                        assert(forall|i: int|
                            0 <= i < 3 ==> (rgb_components(s@)->0)[i] == s@.subrange(
                                (#[trigger] comps@[i]).0 as int,
                                comps@[i].1 as int,
                            ));
                    }
                    assert(is_rgb_form(s@));
                }
                let c0 = match parse_component(&cs, comps[0].0, comps[0].1) {
                    Some(v) => v,
                    None => {
                        return Err(
                            ColorParseError::InvalidComponent(
                                substring(&cs, comps[0].0, comps[0].1),
                            ),
                        );
                    },
                };
                let c1 = match parse_component(&cs, comps[1].0, comps[1].1) {
                    Some(v) => v,
                    None => {
                        return Err(
                            ColorParseError::InvalidComponent(
                                substring(&cs, comps[1].0, comps[1].1),
                            ),
                        );
                    },
                };
                let c2 = match parse_component(&cs, comps[2].0, comps[2].1) {
                    Some(v) => v,
                    None => {
                        return Err(
                            ColorParseError::InvalidComponent(
                                substring(&cs, comps[2].0, comps[2].1),
                            ),
                        );
                    },
                };
                return Ok(ColorRef::Static(Color::RGB(c0, c1, c2)));
            }
            proof {
                assert(!is_rgb_form(s@));
                assert(rgba_components(s@) is None);
            }
        } else if n >= 6 && cs[0] == 'r' && cs[1] == 'g' && cs[2] == 'b' && cs[3] == 'a' && cs[4]
            == '(' && cs[n - 1] == ')' {
            let comps = split_ranges(&cs, 5, n - 1);
            proof {
                assert(s@.last() == ')');
                assert(rgba_components(s@) == Some(
                    split_commas(s@.subrange(5, s@.len() - 1)),
                ));
            }
            if comps.len() == 4 && comps[0].0 < comps[0].1 && comps[1].0 < comps[1].1
                && comps[2].0 < comps[2].1 && comps[3].0 < comps[3].1 {
                proof {
                    assert(forall|i: int|
                        0 <= i < 4 ==> (#[trigger] (rgba_components(s@)->0)[i]).len() > 0) by {
                        assert(forall|i: int|
                            0 <= i < 4 ==> (rgba_components(s@)->0)[i] == s@.subrange(
                                (#[trigger] comps@[i]).0 as int,
                                comps@[i].1 as int,
                            ));
                    }
                    assert(is_rgba_form(s@));
                }
                let c0 = match parse_component(&cs, comps[0].0, comps[0].1) {
                    Some(v) => v,
                    None => {
                        return Err(
                            ColorParseError::InvalidComponent(
                                substring(&cs, comps[0].0, comps[0].1),
                            ),
                        );
                    },
                };
                let c1 = match parse_component(&cs, comps[1].0, comps[1].1) {
                    Some(v) => v,
                    None => {
                        return Err(
                            ColorParseError::InvalidComponent(
                                substring(&cs, comps[1].0, comps[1].1),
                            ),
                        );
                    },
                };
                let c2 = match parse_component(&cs, comps[2].0, comps[2].1) {
                    Some(v) => v,
                    None => {
                        return Err(
                            ColorParseError::InvalidComponent(
                                substring(&cs, comps[2].0, comps[2].1),
                            ),
                        );
                    },
                };
                let c3 = match parse_component(&cs, comps[3].0, comps[3].1) {
                    Some(v) => v,
                    None => {
                        return Err(
                            ColorParseError::InvalidComponent(
                                substring(&cs, comps[3].0, comps[3].1),
                            ),
                        );
                    },
                };
                return Ok(ColorRef::Static(Color::RGBA(c0, c1, c2, c3)));
            }
            proof {
                assert(!is_rgba_form(s@));
                assert(rgb_components(s@) is None);
            }
        } else {
            proof {
                assert(rgb_components(s@) is None);
                assert(rgba_components(s@) is None);
            }
        }
        Ok(ColorRef::Named(TemplateAwareString::new(String::from_str(s))))
    }
}

} // verus!
