//! Project configuration: named colors, named text-style sets, and sheet
//! types with their placement plans.
pub mod automatic;
pub mod colors;
pub mod manual;
pub mod sheet;
pub mod sheets;
pub mod sizes;
pub mod styles;
pub mod units;

use vstd::prelude::*;

use crate::config::colors::ColorDefinition;
use crate::config::colors::ColorDefinitionError;
use crate::config::sheet::Sheet;
use crate::config::sheets::SheetType;
use crate::config::styles::TextStyle;
use crate::model::color::Color;
use crate::model::color::ColorRef;
use crate::model::styles::clone_text_styles;
use crate::model::styles::TextStyle as LayoutTextStyle;

verus! {

/// What can be wrong with a sheet type's placement configuration.
#[derive(PartialEq, Eq, Debug)]
pub enum PlacementError {
    InvalidAlignment(String),
    InvalidAxis(String),
    Missing,
    InvalidMarginArguments,
    InvalidGutterArguments,
}

/// One loaded configuration file: document metadata, color definitions,
/// named style sets, and sheet types, in file order.
#[derive(PartialEq, Eq, Debug)]
pub struct RawConfig {
    pub pdf_title: Option<String>,
    pub pdf_author: Option<String>,
    pub pdf_subject: Option<String>,
    pub pdf_keywords: Option<String>,
    pub colors: Vec<ColorDefinition>,
    pub text_styles: Vec<TextStyle>,
    pub sheet_types: Vec<SheetType>,
}

/// Resolving color definitions left to right: every definition must bind an
/// explicit static color; the first one that names another color instead
/// stops everything with its name.
pub open spec fn resolve_color_defs(
    defs: Seq<ColorDefinition>,
    acc: Seq<(String, Color)>,
) -> Result<Seq<(String, Color)>, String>
    decreases defs.len(),
{
    if defs.len() == 0 {
        Ok(acc)
    } else {
        match defs[0].definition {
            ColorRef::Static(c) => resolve_color_defs(
                defs.drop_first(),
                acc.push((defs[0].name, c)),
            ),
            ColorRef::Named(_) => Err(defs[0].name),
        }
    }
}

impl RawConfig {
    /// Resolves every color definition into a name/color registry list, as
    /// `resolve_color_defs` describes.
    pub fn get_colors(&self) -> (r: Result<Vec<(String, Color)>, ColorDefinitionError>)
        ensures
            match resolve_color_defs(self.colors@, Seq::empty()) {
                Ok(pairs) => r matches Ok(v) && v@ == pairs,
                Err(name) => r matches Err(ColorDefinitionError::InvalidColorDefinition(n)) && n@
                    == name@,
            },
    {
        let ghost whole = self.colors@;
        let mut out: Vec<(String, Color)> = Vec::new();
        let mut i: usize = 0;
        proof {
            assert(whole.skip(0) =~= whole);
        }
        while i < self.colors.len()
            invariant
                i <= self.colors@.len(),
                whole == self.colors@,
                resolve_color_defs(whole, Seq::empty()) == resolve_color_defs(
                    whole.skip(i as int),
                    out@,
                ),
            decreases self.colors@.len() - i,
        {
            proof {
                assert(whole.skip(i as int)[0] == self.colors@[i as int]);
                assert(whole.skip(i as int).drop_first() =~= whole.skip(i + 1 as int));
            }
            match self.colors[i].resolve_color() {
                Ok(c) => {
                    out.push((self.colors[i].name.clone(), c));
                    proof {
                        assert(out@ =~= out@.drop_last().push(
                            (self.colors@[i as int].name, c),
                        ));
                    }
                },
                Err(e) => {
                    return Err(e);
                },
            }
            i += 1;
        }
        proof {
            assert(whole.skip(self.colors@.len() as int).len() == 0);
        }
        Ok(out)
    }

    /// Copies every named style set into a name/styles registry list, in
    /// order.
    pub fn get_text_styles(&self) -> (r: Vec<(String, Vec<LayoutTextStyle>)>)
        ensures
            r@.len() == self.text_styles@.len(),
            forall|i: int|
                0 <= i < r@.len() ==> (#[trigger] r@[i]).0@ == self.text_styles@[i].name@ && r@[
                    i
                ].1@.map_values(|t: LayoutTextStyle| t@) == self.text_styles@[i].styles@.map_values(
                    |t: LayoutTextStyle| t@,
                ),
    {
        let mut out: Vec<(String, Vec<LayoutTextStyle>)> = Vec::new();
        let mut i: usize = 0;
        while i < self.text_styles.len()
            invariant
                i <= self.text_styles@.len(),
                out@.len() == i,
                forall|j: int|
                    0 <= j < i ==> (#[trigger] out@[j]).0@ == self.text_styles@[j].name@ && out@[
                        j
                    ].1@.map_values(|t: LayoutTextStyle| t@)
                        == self.text_styles@[j].styles@.map_values(|t: LayoutTextStyle| t@),
            decreases self.text_styles@.len() - i,
        {
            out.push(
                (self.text_styles[i].name.clone(), clone_text_styles(&self.text_styles[i].styles)),
            );
            i += 1;
        }
        out
    }

    /// Compiles every sheet type into a name/sheet registry list, in order;
    /// a sheet type with no placement plan stops everything.
    pub fn get_sheet_layouts(&self) -> (r: Result<Vec<(String, Sheet)>, PlacementError>)
        requires
            forall|i: int| 0 <= i < self.sheet_types@.len() ==> (#[trigger] self.sheet_types@[i]).compile_wf(),
        ensures
            (forall|i: int|
                0 <= i < self.sheet_types@.len() ==> ((#[trigger] self.sheet_types@[i]).automatic is Some
                    || self.sheet_types@[i].manual is Some)) ==> (r matches Ok(v) && v@.len()
                == self.sheet_types@.len() && (forall|i: int|
                0 <= i < v@.len() ==> (#[trigger] v@[i]).0@ == self.sheet_types@[i].name@)),
            (exists|i: int|
                0 <= i < self.sheet_types@.len() && (#[trigger] self.sheet_types@[i]).automatic is None
                    && self.sheet_types@[i].manual is None) ==> r == Err::<Vec<(String, Sheet)>, _>(
                PlacementError::Missing,
            ),
    {
        let mut out: Vec<(String, Sheet)> = Vec::new();
        let mut i: usize = 0;
        while i < self.sheet_types.len()
            invariant
                i <= self.sheet_types@.len(),
                forall|j: int|
                    0 <= j < self.sheet_types@.len() ==> (
                    #[trigger] self.sheet_types@[j]).compile_wf(),
                out@.len() == i,
                forall|j: int|
                    0 <= j < i ==> (#[trigger] out@[j]).0@ == self.sheet_types@[j].name@,
                forall|j: int|
                    0 <= j < i ==> ((#[trigger] self.sheet_types@[j]).automatic is Some
                        || self.sheet_types@[j].manual is Some),
            decreases self.sheet_types@.len() - i,
        {
            match self.sheet_types[i].compile() {
                Ok(sheet) => {
                    out.push((self.sheet_types[i].name.clone(), sheet));
                },
                Err(e) => {
                    proof {
                        assert(self.sheet_types@[i as int].automatic is None
                            && self.sheet_types@[i as int].manual is None);
                    }
                    return Err(e);
                },
            }
            i += 1;
        }
        Ok(out)
    }
}

} // verus!
