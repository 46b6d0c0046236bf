//! CPU-side geometry.

use vstd::prelude::*;

verus! {

/// One attribute of the interleaved vertex stream: what it means and how
/// many 32-bit components it has.
#[derive(Clone, Copy, Debug, PartialEq, Eq)]
pub struct VertexAttribute {
    pub semantic: u32,
    pub components: u32,
}

/// Vertex and index buffers of one mesh.
///
/// `vertices` is the interleaved vertex stream as raw 32-bit words, laid
/// out vertex by vertex in the order `layout` gives. A mesh without
/// indices is empty: nothing can be drawn from it yet.
#[derive(Clone, Debug)]
pub struct Mesh {
    pub layout: Vec<VertexAttribute>,
    pub vertices: Vec<u32>,
    pub indices: Vec<u32>,
}

impl Mesh {
    /// A mesh with the given layout and no data.
    pub fn new(layout: Vec<VertexAttribute>) -> (mesh: Self)
        ensures
            mesh.layout == layout,
            mesh.vertices@ == Seq::<u32>::empty(),
            mesh.indices@ == Seq::<u32>::empty(),
    {
        Mesh { layout, vertices: Vec::new(), indices: Vec::new() }
    }

    /// Whether the mesh has no indices.
    pub fn is_empty(&self) -> (empty: bool)
        ensures
            empty == (self.indices@.len() == 0),
    {
        self.indices.len() == 0
    }
}

} // verus!
