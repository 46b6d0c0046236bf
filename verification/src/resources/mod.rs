//! Plain-data layouts of the buffers shared with compute passes.

pub mod compute_arches_indirect;
