//! Project color definitions: a name bound to an explicit static color.
//! Custom colors must be explicit tuples — a definition naming another color
//! is rejected at load time, so the registry can never chain references.
use vstd::prelude::*;

use crate::model::color::Color;
use crate::model::color::ColorRef;

verus! {

/// One named color definition from the project configuration.
#[derive(PartialEq, Eq, Debug)]
pub struct ColorDefinition {
    pub name: String,
    pub definition: ColorRef,
}

#[derive(PartialEq, Eq, Debug)]
pub enum ColorDefinitionError {
    InvalidColorDefinition(String),
}

impl ColorDefinition {
    /// The static color this definition binds; a definition that names
    /// another color instead is rejected with the definition's name.
    pub fn resolve_color(&self) -> (r: Result<Color, ColorDefinitionError>)
        ensures
            self.definition matches ColorRef::Static(c) ==> r == Ok::<_, ColorDefinitionError>(c),
            self.definition is Named ==> (r matches Err(
                ColorDefinitionError::InvalidColorDefinition(n),
            ) && n@ == self.name@),
    {
        match &self.definition {
            ColorRef::Named(_) => Err(
                ColorDefinitionError::InvalidColorDefinition(self.name.clone()),
            ),
            ColorRef::Static(color) => Ok(*color),
        }
    }
}

} // verus!
