//! Project data: cards (one record per item), the builtin registries, and
//! the project-scoped registries that resolvers consult.
pub mod card;
pub mod globals;
pub mod project;
