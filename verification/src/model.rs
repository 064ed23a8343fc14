//! The layout model: the recursive element tree, its geometry, and the path
//! and text style vocabulary that the cascade engine resolves.
pub mod color;
pub mod font;
pub mod geometry;
pub mod elements;
pub mod only_if;
pub mod stroke;
pub mod styles;
pub mod text;
