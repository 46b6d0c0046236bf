use asset_libraries::asset_libraries::handle::Handle;
use asset_libraries::render::mesh::{Mesh, VertexAttribute};
use asset_libraries::render::shader::{ShaderInput, ShaderProgram};
use asset_libraries::render::vao::{AttributeBinding, BuildError, VAO};

fn quad_mesh() -> Mesh {
    Mesh {
        layout: vec![
            VertexAttribute { semantic: 0, components: 3 },
            VertexAttribute { semantic: 1, components: 3 },
            VertexAttribute { semantic: 2, components: 2 },
        ],
        vertices: vec![0; 32],
        indices: vec![0, 1, 2, 2, 3, 0],
    }
}

fn textured_program() -> ShaderProgram {
    ShaderProgram {
        id: 42,
        inputs: vec![
            ShaderInput { location: 0, semantic: 0, components: 3 },
            ShaderInput { location: 5, semantic: 2, components: 2 },
        ],
    }
}

fn mesh_handle() -> Handle<Mesh> {
    Handle::new(3, 1)
}

fn shader_handle() -> Handle<ShaderProgram> {
    Handle::new(8, 2)
}

#[test]
fn build_wires_inputs_to_offsets() {
    let vao = VAO::build(&quad_mesh(), &textured_program(), mesh_handle(), shader_handle()).unwrap();
    assert_eq!(vao.mesh, mesh_handle());
    assert_eq!(vao.shader, shader_handle());
    assert_eq!(vao.program, 42);
    assert_eq!(vao.stride, 32);
    assert_eq!(vao.index_count, 6);
    assert_eq!(
        vao.attributes,
        vec![
            AttributeBinding { location: 0, components: 3, offset: 0 },
            AttributeBinding { location: 5, components: 2, offset: 24 },
        ]
    );
}

#[test]
fn build_uses_the_first_attribute_of_a_semantic() {
    let mut mesh = quad_mesh();
    mesh.layout.push(VertexAttribute { semantic: 1, components: 4 });
    let program = ShaderProgram {
        id: 1,
        inputs: vec![ShaderInput { location: 2, semantic: 1, components: 3 }],
    };
    let vao = VAO::build(&mesh, &program, mesh_handle(), shader_handle()).unwrap();
    assert_eq!(vao.stride, 48);
    assert_eq!(vao.attributes, vec![AttributeBinding { location: 2, components: 3, offset: 12 }]);
}

#[test]
fn build_with_no_inputs_binds_nothing() {
    let program = ShaderProgram { id: 9, inputs: vec![] };
    let vao = VAO::build(&quad_mesh(), &program, mesh_handle(), shader_handle()).unwrap();
    assert!(vao.attributes.is_empty());
    assert_eq!(vao.stride, 32);
    assert_eq!(vao.index_count, 6);
}

#[test]
fn build_of_empty_mesh_is_not_ready() {
    let mut mesh = quad_mesh();
    mesh.indices.clear();
    let error = VAO::build(&mesh, &textured_program(), mesh_handle(), shader_handle()).unwrap_err();
    assert_eq!(error, BuildError::EmptyMesh);
    assert!(error.is_not_ready());
}

#[test]
fn empty_mesh_is_reported_before_a_bad_program() {
    let mut mesh = quad_mesh();
    mesh.indices.clear();
    let program = ShaderProgram { id: 0, inputs: vec![] };
    assert_eq!(
        VAO::build(&mesh, &program, mesh_handle(), shader_handle()).unwrap_err(),
        BuildError::EmptyMesh
    );
}

#[test]
fn build_with_uncompiled_program_fails() {
    let mut program = textured_program();
    program.id = 0;
    assert!(!program.is_compiled());
    let error = VAO::build(&quad_mesh(), &program, mesh_handle(), shader_handle()).unwrap_err();
    assert_eq!(error, BuildError::UnknownOrInvalidShader);
    assert!(!error.is_not_ready());
}

#[test]
fn uncompiled_program_is_reported_before_a_bad_layout() {
    let mut mesh = quad_mesh();
    mesh.layout[0].components = 9;
    let program = ShaderProgram { id: 0, inputs: vec![] };
    assert_eq!(
        VAO::build(&mesh, &program, mesh_handle(), shader_handle()).unwrap_err(),
        BuildError::UnknownOrInvalidShader
    );
}

#[test]
fn build_with_missing_attribute_fails() {
    let program = ShaderProgram {
        id: 1,
        inputs: vec![
            ShaderInput { location: 0, semantic: 0, components: 3 },
            ShaderInput { location: 1, semantic: 7, components: 4 },
        ],
    };
    assert_eq!(
        VAO::build(&quad_mesh(), &program, mesh_handle(), shader_handle()).unwrap_err(),
        BuildError::MismatchedLayout
    );
}

#[test]
fn build_with_wrong_component_count_fails() {
    let program = ShaderProgram {
        id: 1,
        inputs: vec![ShaderInput { location: 0, semantic: 2, components: 3 }],
    };
    assert_eq!(
        VAO::build(&quad_mesh(), &program, mesh_handle(), shader_handle()).unwrap_err(),
        BuildError::MismatchedLayout
    );
}

#[test]
fn build_with_malformed_layout_fails() {
    let program = ShaderProgram { id: 1, inputs: vec![] };
    let mut zero = quad_mesh();
    zero.layout[1].components = 0;
    assert_eq!(
        VAO::build(&zero, &program, mesh_handle(), shader_handle()).unwrap_err(),
        BuildError::MismatchedLayout
    );
    let mut five = quad_mesh();
    five.layout[1].components = 5;
    assert_eq!(
        VAO::build(&five, &program, mesh_handle(), shader_handle()).unwrap_err(),
        BuildError::MismatchedLayout
    );
}

#[test]
fn layout_may_have_sixteen_attributes_and_no_more() {
    let program = ShaderProgram {
        id: 1,
        inputs: vec![ShaderInput { location: 0, semantic: 15, components: 4 }],
    };
    let mut mesh = Mesh::new(
        (0..16).map(|semantic| VertexAttribute { semantic, components: 4 }).collect(),
    );
    assert!(mesh.is_empty());
    mesh.indices = vec![0, 1, 2];
    assert!(!mesh.is_empty());
    let vao = VAO::build(&mesh, &program, mesh_handle(), shader_handle()).unwrap();
    assert_eq!(vao.stride, 256);
    assert_eq!(vao.attributes, vec![AttributeBinding { location: 0, components: 4, offset: 240 }]);
    mesh.layout.push(VertexAttribute { semantic: 16, components: 1 });
    assert_eq!(
        VAO::build(&mesh, &program, mesh_handle(), shader_handle()).unwrap_err(),
        BuildError::MismatchedLayout
    );
}

#[test]
fn build_twice_gives_equal_bindings() {
    let mesh = quad_mesh();
    let program = textured_program();
    let one = VAO::build(&mesh, &program, mesh_handle(), shader_handle()).unwrap();
    let two = VAO::build(&mesh, &program, mesh_handle(), shader_handle()).unwrap();
    assert_eq!(one.mesh, two.mesh);
    assert_eq!(one.shader, two.shader);
    assert_eq!(one.program, two.program);
    assert_eq!(one.stride, two.stride);
    assert_eq!(one.attributes, two.attributes);
    assert_eq!(one.index_count, two.index_count);
}

#[test]
fn error_messages() {
    assert_eq!(BuildError::UnknownMesh.message(), "unknown mesh handle");
    assert_eq!(BuildError::EmptyMesh.message(), "mesh has no indices");
    assert_eq!(
        BuildError::UnknownOrInvalidShader.message(),
        "unknown or invalid shader program"
    );
    assert_eq!(
        BuildError::MismatchedLayout.message(),
        "vertex layout does not match shader inputs"
    );
    assert!(!BuildError::UnknownMesh.is_not_ready());
    assert!(!BuildError::MismatchedLayout.is_not_ready());
}

#[test]
fn program_id_and_compiled() {
    let program = textured_program();
    assert_eq!(program.id(), 42);
    assert!(program.is_compiled());
}
