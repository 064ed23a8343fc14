//! Rendering decisions: everything the orchestrator computes before any
//! pixel is painted — path-style resolution, text-run assembly, image
//! destination geometry, and sheet pagination.
pub mod image_fit;
pub mod paint;
pub mod sheet_flow;
pub mod text_flow;

use vstd::prelude::*;

verus! {

/// What went wrong while rendering a card.
#[derive(PartialEq, Eq, Debug)]
pub enum SkiaRendererError {
    GraphicsError(String),
    NoSuchImage(String),
}

} // verus!
