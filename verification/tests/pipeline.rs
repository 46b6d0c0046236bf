use asset_libraries::asset_libraries::handle::Handle;
use asset_libraries::asset_libraries::mesh_library::AssetMeshLibrary;
use asset_libraries::asset_libraries::shader_library::AssetShaderLibrary;
use asset_libraries::asset_libraries::vao_library::AssetVAOLibrary;
use asset_libraries::render::mesh::{Mesh, VertexAttribute};
use asset_libraries::render::shader::{ShaderInput, ShaderProgram};
use asset_libraries::render::vao::BuildError;
use asset_libraries::systems::vao_update::{
    build_missing_vaos, rebuild_vaos, BuildOutcome, RebuildOutcome, RebuildReport, Renderable,
};
use bevy_ecs::entity::Entity;

fn two_triangles() -> Mesh {
    Mesh {
        layout: vec![VertexAttribute { semantic: 0, components: 3 }],
        vertices: vec![0; 12],
        indices: vec![0, 1, 2, 2, 3, 0],
    }
}

fn no_indices() -> Mesh {
    Mesh::new(vec![VertexAttribute { semantic: 0, components: 3 }])
}

fn program(id: u32) -> ShaderProgram {
    ShaderProgram { id, inputs: vec![ShaderInput { location: 0, semantic: 0, components: 3 }] }
}

fn unbound(id: u32, mesh: Handle<Mesh>, shader: Handle<ShaderProgram>) -> Renderable {
    Renderable { entity: Entity::new(id), mesh, shader, vao: None }
}

#[test]
fn scenario_build_then_rebuild() {
    let mut meshes = AssetMeshLibrary::new();
    let mut shaders = AssetShaderLibrary::new();
    let mut vaos = AssetVAOLibrary::new();
    let m = meshes.add(two_triangles());
    let s = shaders.add(program(5));
    let mut entities = vec![unbound(1, m, s)];

    let outcomes = build_missing_vaos(&mut entities, &meshes, &shaders, &mut vaos);
    let b = entities[0].vao.unwrap();
    assert_eq!(outcomes, vec![BuildOutcome::Built { vao: b }]);
    assert_eq!(vaos.get(b).unwrap().index_count, 6);
    assert!(rebuild_vaos(&shaders, &mut meshes, &mut vaos).is_empty());

    meshes.get_mut(m).unwrap().indices.extend_from_slice(&[0, 3, 1]);
    meshes.mark_dirty(m);
    assert!(build_missing_vaos(&mut entities, &meshes, &shaders, &mut vaos)
        .iter()
        .all(|outcome| *outcome == BuildOutcome::AlreadyBound));
    let reports = rebuild_vaos(&shaders, &mut meshes, &mut vaos);

    assert_eq!(reports, vec![RebuildReport { mesh: m, outcome: RebuildOutcome::Rebuilt }]);
    assert_eq!(entities[0].vao, Some(b));
    assert_eq!(vaos.get(b).unwrap().index_count, 9);
    assert_eq!(vaos.get(b).unwrap().mesh, m);
    assert!(meshes.dirty_handles().is_empty());
}

#[test]
fn scenario_empty_mesh_waits_for_indices() {
    let mut meshes = AssetMeshLibrary::new();
    let mut shaders = AssetShaderLibrary::new();
    let mut vaos = AssetVAOLibrary::new();
    let m = meshes.add(no_indices());
    let s = shaders.add(program(5));
    let mut entities = vec![unbound(1, m, s)];

    for _ in 0..10 {
        let outcomes = build_missing_vaos(&mut entities, &meshes, &shaders, &mut vaos);
        assert_eq!(outcomes, vec![BuildOutcome::NotReady]);
        assert_eq!(entities[0].vao, None);
        assert!(!vaos.has_vao(m));
        assert!(rebuild_vaos(&shaders, &mut meshes, &mut vaos).is_empty());
    }

    let mesh = meshes.get_mut(m).unwrap();
    mesh.vertices = vec![0; 9];
    mesh.indices = vec![0, 1, 2];
    let outcomes = build_missing_vaos(&mut entities, &meshes, &shaders, &mut vaos);
    let b = entities[0].vao.unwrap();
    assert_eq!(outcomes, vec![BuildOutcome::Built { vao: b }]);
    assert_eq!(vaos.get(b).unwrap().index_count, 3);
}

#[test]
fn build_pass_handles_each_entity_on_its_own() {
    let mut meshes = AssetMeshLibrary::new();
    let mut shaders = AssetShaderLibrary::new();
    let mut vaos = AssetVAOLibrary::new();
    let full = meshes.add(two_triangles());
    let empty = meshes.add(no_indices());
    let good = shaders.add(program(5));
    let bad = shaders.add(program(0));
    let gone: Handle<Mesh> = Handle::new(40, 0);
    let existing = vaos.add(&meshes, &shaders, full, good).unwrap();
    let mut entities = vec![
        unbound(1, full, good),
        unbound(2, empty, good),
        unbound(3, full, bad),
        Renderable { entity: Entity::new(4), mesh: empty, shader: bad, vao: Some(existing) },
        unbound(5, gone, good),
        unbound(6, full, good),
    ];
    let before = entities.clone();

    let outcomes = build_missing_vaos(&mut entities, &meshes, &shaders, &mut vaos);

    let first = Handle::new(1, 0);
    let second = Handle::new(2, 0);
    assert_eq!(
        outcomes,
        vec![
            BuildOutcome::Built { vao: first },
            BuildOutcome::NotReady,
            BuildOutcome::Failed { error: BuildError::UnknownOrInvalidShader },
            BuildOutcome::AlreadyBound,
            BuildOutcome::Failed { error: BuildError::UnknownMesh },
            BuildOutcome::Built { vao: second },
        ]
    );
    let bindings: Vec<_> = entities.iter().map(|entity| entity.vao).collect();
    assert_eq!(bindings, vec![Some(first), None, None, Some(existing), None, Some(second)]);
    for (after, was) in entities.iter().zip(before.iter()) {
        assert_eq!(after.entity, was.entity);
        assert_eq!(after.mesh, was.mesh);
        assert_eq!(after.shader, was.shader);
    }
    assert!(vaos.get(first).is_some());
    assert!(vaos.get(second).is_some());
    assert!(vaos.get(Handle::new(3, 0)).is_none());
}

#[test]
fn failed_build_is_retried_next_tick() {
    let mut meshes = AssetMeshLibrary::new();
    let mut shaders = AssetShaderLibrary::new();
    let mut vaos = AssetVAOLibrary::new();
    let m = meshes.add(two_triangles());
    let s = shaders.add(program(0));
    let mut entities = vec![unbound(1, m, s)];
    for _ in 0..3 {
        assert_eq!(
            build_missing_vaos(&mut entities, &meshes, &shaders, &mut vaos),
            vec![BuildOutcome::Failed { error: BuildError::UnknownOrInvalidShader }]
        );
        assert_eq!(entities[0].vao, None);
    }
    shaders.get_mut(s).unwrap().id = 3;
    let outcomes = build_missing_vaos(&mut entities, &meshes, &shaders, &mut vaos);
    assert_eq!(outcomes, vec![BuildOutcome::Built { vao: entities[0].vao.unwrap() }]);
}

#[test]
fn build_pass_over_no_entities() {
    let meshes = AssetMeshLibrary::new();
    let shaders = AssetShaderLibrary::new();
    let mut vaos = AssetVAOLibrary::new();
    let mut entities: Vec<Renderable> = Vec::new();
    assert!(build_missing_vaos(&mut entities, &meshes, &shaders, &mut vaos).is_empty());
    assert!(entities.is_empty());
}

#[test]
fn dirty_mesh_is_cleaned_by_success_and_kept_by_failure() {
    let mut meshes = AssetMeshLibrary::new();
    let mut shaders = AssetShaderLibrary::new();
    let mut vaos = AssetVAOLibrary::new();
    let m = meshes.add(two_triangles());
    let s = shaders.add(program(5));
    let v = vaos.add(&meshes, &shaders, m, s).unwrap();

    meshes.get_mut(m).unwrap().indices.extend_from_slice(&[0, 3, 1]);
    meshes.mark_dirty(m);
    shaders.get_mut(s).unwrap().id = 0;
    for _ in 0..3 {
        let reports = rebuild_vaos(&shaders, &mut meshes, &mut vaos);
        assert_eq!(
            reports,
            vec![RebuildReport {
                mesh: m,
                outcome: RebuildOutcome::Failed { error: BuildError::UnknownOrInvalidShader },
            }]
        );
        assert_eq!(meshes.dirty_handles(), &vec![m]);
        assert_eq!(vaos.get(v).unwrap().index_count, 6);
    }

    shaders.get_mut(s).unwrap().id = 6;
    let reports = rebuild_vaos(&shaders, &mut meshes, &mut vaos);
    assert_eq!(reports, vec![RebuildReport { mesh: m, outcome: RebuildOutcome::Rebuilt }]);
    assert!(meshes.dirty_handles().is_empty());
    assert_eq!(vaos.get(v).unwrap().index_count, 9);
    assert_eq!(vaos.get(v).unwrap().program, 6);
}

#[test]
fn dirty_mesh_without_binding_is_dropped() {
    let mut meshes = AssetMeshLibrary::new();
    let shaders = AssetShaderLibrary::new();
    let mut vaos = AssetVAOLibrary::new();
    let m = meshes.add(two_triangles());
    let stale: Handle<Mesh> = Handle::new(12, 3);
    meshes.mark_dirty(m);
    meshes.mark_dirty(stale);
    let reports = rebuild_vaos(&shaders, &mut meshes, &mut vaos);
    assert_eq!(
        reports,
        vec![
            RebuildReport { mesh: m, outcome: RebuildOutcome::NoBinding },
            RebuildReport { mesh: stale, outcome: RebuildOutcome::NoBinding },
        ]
    );
    assert!(meshes.dirty_handles().is_empty());
}

#[test]
fn rebuild_pass_keeps_exactly_the_failures_in_order() {
    let mut meshes = AssetMeshLibrary::new();
    let mut shaders = AssetShaderLibrary::new();
    let mut vaos = AssetVAOLibrary::new();
    let a = meshes.add(two_triangles());
    let b = meshes.add(two_triangles());
    let c = meshes.add(two_triangles());
    let d = meshes.add(two_triangles());
    let s = shaders.add(program(5));
    vaos.add(&meshes, &shaders, a, s).unwrap();
    vaos.add(&meshes, &shaders, b, s).unwrap();
    vaos.add(&meshes, &shaders, d, s).unwrap();
    meshes.get_mut(a).unwrap().indices.clear();
    meshes.get_mut(d).unwrap().layout[0].components = 7;
    for handle in [d, c, b, a] {
        meshes.mark_dirty(handle);
    }

    let reports = rebuild_vaos(&shaders, &mut meshes, &mut vaos);

    assert_eq!(
        reports,
        vec![
            RebuildReport {
                mesh: d,
                outcome: RebuildOutcome::Failed { error: BuildError::MismatchedLayout },
            },
            RebuildReport { mesh: c, outcome: RebuildOutcome::NoBinding },
            RebuildReport { mesh: b, outcome: RebuildOutcome::Rebuilt },
            RebuildReport {
                mesh: a,
                outcome: RebuildOutcome::Failed { error: BuildError::EmptyMesh },
            },
        ]
    );
    assert_eq!(meshes.dirty_handles(), &vec![d, a]);
    assert!(meshes.get(a).is_some());
}

#[test]
fn rebuild_pass_with_nothing_dirty_changes_nothing() {
    let mut meshes = AssetMeshLibrary::new();
    let mut shaders = AssetShaderLibrary::new();
    let mut vaos = AssetVAOLibrary::new();
    let m = meshes.add(two_triangles());
    let s = shaders.add(program(5));
    let v = vaos.add(&meshes, &shaders, m, s).unwrap();
    meshes.get_mut(m).unwrap().indices.clear();
    assert!(rebuild_vaos(&shaders, &mut meshes, &mut vaos).is_empty());
    assert_eq!(vaos.get(v).unwrap().index_count, 6);
    assert!(meshes.dirty_handles().is_empty());
}

#[test]
fn entity_with_empty_mesh_is_never_bound() {
    let mut meshes = AssetMeshLibrary::new();
    let mut shaders = AssetShaderLibrary::new();
    let mut vaos = AssetVAOLibrary::new();
    let empty = meshes.add(no_indices());
    let full = meshes.add(two_triangles());
    let s = shaders.add(program(5));
    let mut entities = vec![unbound(1, full, s), unbound(2, empty, s), unbound(3, full, s)];
    for tick in 0..5 {
        let outcomes = build_missing_vaos(&mut entities, &meshes, &shaders, &mut vaos);
        assert_eq!(outcomes[1], BuildOutcome::NotReady);
        assert_eq!(entities[1].vao, None);
        assert_eq!(entities[1].entity, Entity::new(2));
        assert!(entities[0].vao.is_some());
        assert!(entities[2].vao.is_some());
        if tick > 0 {
            assert_eq!(outcomes[0], BuildOutcome::AlreadyBound);
        }
        meshes.mark_dirty(empty);
        rebuild_vaos(&shaders, &mut meshes, &mut vaos);
    }
    assert!(!vaos.has_vao(empty));
}
