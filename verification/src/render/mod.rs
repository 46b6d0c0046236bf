//! The resource kinds the libraries store: meshes, shader programs, and the
//! draw bindings derived from one of each.

pub mod mesh;
pub mod shader;
pub mod vao;
