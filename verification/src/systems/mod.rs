//! The passes that the scheduler runs once per tick.

pub mod vao_update;

pub use vao_update::{build_missing_vaos, rebuild_vaos};
