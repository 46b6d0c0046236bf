//! Handles, the slot table that issues them, and one library per resource
//! kind.

pub mod handle;
pub mod mesh_library;
pub mod shader_library;
pub mod table;
pub mod vao_library;

pub use handle::Handle;
pub use table::HandleTable;
