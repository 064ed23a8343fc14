//! Project text-style definitions: a name bound to an ordered list of style
//! layers.
use vstd::prelude::*;

use crate::model::styles::TextStyle as LayoutTextStyle;

verus! {

/// One named text-style set from the project configuration.
#[derive(PartialEq, Eq, Debug)]
pub struct TextStyle {
    pub name: String,
    pub styles: Vec<LayoutTextStyle>,
}

} // verus!
