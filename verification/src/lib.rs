//! Layout compilation and composition engine for batch-producing card-style
//! artwork: a style-cascade and conditional-rendering model, an inline
//! text-markup parser, and a sheet/grid placement planner.
pub mod config;
pub mod data;
pub mod format;
pub mod model;
pub mod render;
pub mod strings;
pub mod templates;

use vstd::prelude::*;

verus! {

/// Lengths and coordinates of page geometry are carried in thousandths of a
/// point, so that unit conversion and grid arithmetic stay exact where the
/// configuration is exact.
pub type Milli = i64;

} // verus!
