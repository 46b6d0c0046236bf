//! Shader programs as the binding builder sees them.

use vstd::prelude::*;

verus! {

/// One vertex input of a program: the location it is bound at, what it
/// expects to be fed, and with how many 32-bit components.
#[derive(Clone, Copy, Debug, PartialEq, Eq)]
pub struct ShaderInput {
    pub location: u32,
    pub semantic: u32,
    pub components: u32,
}

/// A GPU program object and the vertex inputs it declares.
///
/// `id` is the name the graphics API gave the program; 0 is never a
/// program, and stands for one that failed to compile.
#[derive(Clone, Debug)]
pub struct ShaderProgram {
    pub id: u32,
    pub inputs: Vec<ShaderInput>,
}

impl ShaderProgram {
    /// The program compiled: it has a name.
    pub open spec fn compiled(&self) -> bool {
        self.id != 0
    }

    /// The name of the program object.
    pub fn id(&self) -> (id: u32)
        ensures
            id == self.id,
    {
        self.id
    }

    /// Whether the program compiled.
    pub fn is_compiled(&self) -> (compiled: bool)
        ensures
            compiled == self.compiled(),
    {
        self.id != 0
    }
}

} // verus!
