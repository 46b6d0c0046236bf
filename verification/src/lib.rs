//! Generational handle tables, the resource libraries built on them, and the
//! passes that keep draw bindings in step with the meshes they derive from.

pub mod asset_libraries;
pub mod render;
pub mod resources;
pub mod systems;
