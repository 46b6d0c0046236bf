//! Draw bindings and how one is derived from a mesh and a shader program.

use crate::asset_libraries::handle::Handle;
use crate::render::mesh::{Mesh, VertexAttribute};
use crate::render::shader::{ShaderInput, ShaderProgram};
use vstd::prelude::*;

verus! {

/// Most attributes a vertex layout may declare.
pub const MAX_VERTEX_ATTRIBUTES: usize = 16;

/// Most 32-bit components one attribute may have.
pub const MAX_COMPONENTS: u32 = 4;

/// Bytes in one component.
pub const COMPONENT_BYTES: u32 = 4;

/// Why no binding could be derived.
#[derive(Clone, Copy, Debug, PartialEq, Eq)]
pub enum BuildError {
    /// The mesh handle is stale or was never issued.
    UnknownMesh,
    /// The mesh has no indices yet. Not a failure: the mesh is not ready,
    /// and the attempt is to be repeated once it is.
    EmptyMesh,
    /// The shader handle is stale or was never issued, or the program it
    /// names did not compile.
    UnknownOrInvalidShader,
    /// The vertex layout is malformed, or the program declares an input
    /// that the layout cannot feed.
    MismatchedLayout,
}

impl BuildError {
    /// Whether this is the not-ready condition rather than a failure.
    pub fn is_not_ready(&self) -> (not_ready: bool)
        ensures
            not_ready == (*self is EmptyMesh),
    {
        match self {
            BuildError::EmptyMesh => true,
            _ => false,
        }
    }

    /// A short description for logs.
    pub fn message(&self) -> (text: &'static str)
        ensures
            text@ == match *self {
                BuildError::UnknownMesh => "unknown mesh handle"@,
                BuildError::EmptyMesh => "mesh has no indices"@,
                BuildError::UnknownOrInvalidShader => "unknown or invalid shader program"@,
                BuildError::MismatchedLayout => "vertex layout does not match shader inputs"@,
            },
    {
        match self {
            BuildError::UnknownMesh => "unknown mesh handle",
            BuildError::EmptyMesh => "mesh has no indices",
            BuildError::UnknownOrInvalidShader => "unknown or invalid shader program",
            BuildError::MismatchedLayout => "vertex layout does not match shader inputs",
        }
    }
}

/// One vertex input of the program wired to the vertex stream: the input's
/// location, its component count, and the byte offset of its data within a
/// vertex.
#[derive(Clone, Copy, Debug, PartialEq, Eq)]
pub struct AttributeBinding {
    pub location: u32,
    pub components: u32,
    pub offset: u32,
}

/// A draw binding: which mesh and program it was derived from, and the
/// attribute wiring the graphics API is to be given for them.
#[derive(Clone, Debug)]
pub struct VAO {
    pub mesh: Handle<Mesh>,
    pub shader: Handle<ShaderProgram>,
    pub program: u32,
    pub stride: u32,
    pub attributes: Vec<AttributeBinding>,
    pub index_count: usize,
}

/// What a draw binding is, as plain values.
pub struct VaoView {
    pub mesh: Handle<Mesh>,
    pub shader: Handle<ShaderProgram>,
    pub program: u32,
    pub stride: u32,
    pub attributes: Seq<AttributeBinding>,
    pub index_count: usize,
}

impl View for VAO {
    type V = VaoView;

    open spec fn view(&self) -> VaoView {
        VaoView {
            mesh: self.mesh,
            shader: self.shader,
            program: self.program,
            stride: self.stride,
            attributes: self.attributes@,
            index_count: self.index_count,
        }
    }
}

/// A layout the builder accepts: at most sixteen attributes of one to four
/// components each.
pub open spec fn layout_ok(layout: Seq<VertexAttribute>) -> bool {
    &&& layout.len() <= MAX_VERTEX_ATTRIBUTES
    &&& forall|i: int|
        0 <= i < layout.len() ==> 1 <= (#[trigger] layout[i]).components <= MAX_COMPONENTS
}

/// Number of 32-bit words that precede attribute `j` within a vertex.
pub open spec fn words_before(layout: Seq<VertexAttribute>, j: int) -> int
    decreases j,
{
    if j <= 0 {
        0
    } else {
        words_before(layout, j - 1) + layout[j - 1].components
    }
}

/// Attribute `j` is the first of the layout with the given semantic.
pub open spec fn first_with(layout: Seq<VertexAttribute>, semantic: u32, j: int) -> bool {
    &&& 0 <= j < layout.len()
    &&& layout[j].semantic == semantic
    &&& forall|k: int| 0 <= k < j ==> (#[trigger] layout[k]).semantic != semantic
}

/// Position of the attribute that feeds inputs of the given semantic.
pub open spec fn position_of(layout: Seq<VertexAttribute>, semantic: u32) -> Option<int> {
    if exists|j: int| first_with(layout, semantic, j) {
        Some(choose|j: int| first_with(layout, semantic, j))
    } else {
        None
    }
}

/// The wiring of one input: it is fed by the first attribute of its
/// semantic, which must have the component count the input expects.
pub open spec fn bind_input(layout: Seq<VertexAttribute>, input: ShaderInput) -> Option<
    AttributeBinding,
> {
    match position_of(layout, input.semantic) {
        Some(j) => if layout[j].components == input.components {
            Some(
                AttributeBinding {
                    location: input.location,
                    components: input.components,
                    offset: (COMPONENT_BYTES * words_before(layout, j)) as u32,
                },
            )
        } else {
            None
        },
        None => None,
    }
}

/// Every input of the program can be wired to the layout.
pub open spec fn bindable(layout: Seq<VertexAttribute>, inputs: Seq<ShaderInput>) -> bool {
    forall|k: int| 0 <= k < inputs.len() ==> bind_input(layout, #[trigger] inputs[k]) is Some
}

/// The wiring of the first `n` inputs, in the order the program declares
/// them.
pub open spec fn bindings(layout: Seq<VertexAttribute>, inputs: Seq<ShaderInput>, n: int) -> Seq<
    AttributeBinding,
> {
    Seq::new(n as nat, |k: int| bind_input(layout, inputs[k])->0)
}

/// The binding derived from a mesh and a program, or the reason there is
/// none. A function of the mesh's layout and index count and of the
/// program's name and inputs alone.
pub open spec fn derive_binding(
    mesh: Mesh,
    program: ShaderProgram,
    mesh_handle: Handle<Mesh>,
    shader_handle: Handle<ShaderProgram>,
) -> Result<VaoView, BuildError> {
    if mesh.indices@.len() == 0 {
        Err(BuildError::EmptyMesh)
    } else if !program.compiled() {
        Err(BuildError::UnknownOrInvalidShader)
    } else if !layout_ok(mesh.layout@) || !bindable(mesh.layout@, program.inputs@) {
        Err(BuildError::MismatchedLayout)
    } else {
        Ok(
            VaoView {
                mesh: mesh_handle,
                shader: shader_handle,
                program: program.id,
                stride: (COMPONENT_BYTES * words_before(
                    mesh.layout@,
                    mesh.layout@.len() as int,
                )) as u32,
                attributes: bindings(mesh.layout@, program.inputs@, program.inputs@.len() as int),
                index_count: mesh.indices@.len() as usize,
            },
        )
    }
}

/// The first attribute with a semantic is the position of that semantic.
pub proof fn lemma_position_of_first(layout: Seq<VertexAttribute>, semantic: u32, j: int)
    requires
        first_with(layout, semantic, j),
    ensures
        position_of(layout, semantic) == Some(j),
{
}

fn layout_accepted(layout: &Vec<VertexAttribute>) -> (accepted: bool)
    ensures
        accepted == layout_ok(layout@),
{
    if layout.len() > MAX_VERTEX_ATTRIBUTES {
        return false;
    }
    let mut i: usize = 0;
    while i < layout.len()
        invariant
            i <= layout.len(),
            forall|k: int| 0 <= k < i ==> 1 <= (#[trigger] layout@[k]).components <= MAX_COMPONENTS,
        decreases layout.len() - i,
    {
        if layout[i].components < 1 || layout[i].components > MAX_COMPONENTS {
            return false;
        }
        i += 1;
    }
    true
}

fn find_attribute(layout: &Vec<VertexAttribute>, semantic: u32) -> (found: Option<usize>)
    ensures
        match found {
            Some(j) => position_of(layout@, semantic) == Some(j as int),
            None => position_of(layout@, semantic) is None,
        },
{
    let mut i: usize = 0;
    while i < layout.len()
        invariant
            i <= layout.len(),
            forall|k: int| 0 <= k < i ==> (#[trigger] layout@[k]).semantic != semantic,
        decreases layout.len() - i,
    {
        if layout[i].semantic == semantic {
            proof {
                lemma_position_of_first(layout@, semantic, i as int);
            }
            return Some(i);
        }
        i += 1;
    }
    None
}

fn byte_offset(layout: &Vec<VertexAttribute>, j: usize) -> (offset: u32)
    requires
        layout_ok(layout@),
        j <= layout@.len(),
    ensures
        offset == COMPONENT_BYTES * words_before(layout@, j as int),
{
    let mut words: u32 = 0;
    let mut i: usize = 0;
    while i < j
        invariant
            i <= j <= layout@.len(),
            layout_ok(layout@),
            words == words_before(layout@, i as int),
            words <= MAX_COMPONENTS * i,
        decreases j - i,
    {
        words += layout[i].components;
        i += 1;
    }
    COMPONENT_BYTES * words
}

fn wire_input(layout: &Vec<VertexAttribute>, input: ShaderInput) -> (wired: Option<
    AttributeBinding,
>)
    requires
        layout_ok(layout@),
    ensures
        wired == bind_input(layout@, input),
{
    match find_attribute(layout, input.semantic) {
        Some(j) => {
            if layout[j].components == input.components {
                Some(
                    AttributeBinding {
                        location: input.location,
                        components: input.components,
                        offset: byte_offset(layout, j),
                    },
                )
            } else {
                None
            }
        },
        None => None,
    }
}

impl VAO {
    /// Derives the binding of `mesh` to `program`.
    ///
    /// Checks, in this order: that the mesh has indices; that the program
    /// compiled; that the layout is accepted and feeds every input. The
    /// result depends on the arguments alone, so building twice from
    /// unchanged inputs gives equal bindings.
    pub fn build(
        mesh: &Mesh,
        program: &ShaderProgram,
        mesh_handle: Handle<Mesh>,
        shader_handle: Handle<ShaderProgram>,
    ) -> (built: Result<VAO, BuildError>)
        ensures
            match built {
                Ok(vao) => derive_binding(*mesh, *program, mesh_handle, shader_handle) == Ok::<
                    VaoView,
                    BuildError,
                >(vao@),
                Err(error) => derive_binding(*mesh, *program, mesh_handle, shader_handle) == Err::<
                    VaoView,
                    BuildError,
                >(error),
            },
    {
        if mesh.is_empty() {
            return Err(BuildError::EmptyMesh);
        }
        if !program.is_compiled() {
            return Err(BuildError::UnknownOrInvalidShader);
        }
        if !layout_accepted(&mesh.layout) {
            return Err(BuildError::MismatchedLayout);
        }
        let mut attributes: Vec<AttributeBinding> = Vec::new();
        let mut k: usize = 0;
        while k < program.inputs.len()
            invariant
                k <= program.inputs@.len(),
                mesh.indices@.len() != 0,
                program.compiled(),
                layout_ok(mesh.layout@),
                forall|i: int|
                    0 <= i < k ==> bind_input(mesh.layout@, #[trigger] program.inputs@[i]) is Some,
                attributes@ == bindings(mesh.layout@, program.inputs@, k as int),
            decreases program.inputs.len() - k,
        {
            match wire_input(&mesh.layout, program.inputs[k]) {
                Some(binding) => {
                    attributes.push(binding);
                },
                None => {
                    return Err(BuildError::MismatchedLayout);
                },
            }
            k += 1;
        }
        let stride = byte_offset(&mesh.layout, mesh.layout.len());
        Ok(
            VAO {
                mesh: mesh_handle,
                shader: shader_handle,
                program: program.id,
                stride,
                attributes,
                index_count: mesh.indices.len(),
            },
        )
    }
}

} // verus!
