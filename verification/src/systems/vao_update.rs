//! Building the bindings that are missing and rebuilding those whose mesh
//! changed.
//!
//! Within one tick the build pass runs first and the rebuild pass second.

use crate::asset_libraries::handle::Handle;
use crate::asset_libraries::mesh_library::AssetMeshLibrary;
use crate::asset_libraries::shader_library::AssetShaderLibrary;
use crate::asset_libraries::table::TableView;
use crate::asset_libraries::vao_library::{
    build, derived_from, first_failure, has_binding, lemma_no_failure_below, rebuild,
    AssetVAOLibrary,
};
use crate::render::mesh::Mesh;
use crate::render::shader::ShaderProgram;
use crate::render::vao::{BuildError, VaoView, VAO};
use bevy_ecs::entity::Entity;
use vstd::prelude::*;

verus! {

/// `bevy_ecs::entity::Entity`, the identifier that the component store
/// gives an entity. The passes carry it from their input to their output
/// and never look inside; nothing is claimed of it.
#[verifier::external_type_specification]
#[verifier::external_body]
pub struct ExEntity(bevy_ecs::entity::Entity);

/// What the component store holds for one entity that can be drawn: its
/// mesh, its shader program, and its binding once one has been built.
#[derive(Clone, Copy, Debug, PartialEq, Eq)]
pub struct Renderable {
    pub entity: Entity,
    pub mesh: Handle<Mesh>,
    pub shader: Handle<ShaderProgram>,
    pub vao: Option<Handle<VAO>>,
}

/// What the build pass did for one entity.
#[derive(Clone, Copy, Debug, PartialEq, Eq)]
pub enum BuildOutcome {
    /// The entity had a binding already and was passed over.
    AlreadyBound,
    /// The mesh has no indices yet; nothing was built and nothing is wrong.
    NotReady,
    /// A binding was built and attached to the entity.
    Built { vao: Handle<VAO> },
    /// No binding could be built; the entity is tried again next tick.
    Failed { error: BuildError },
}

/// What the rebuild pass did for one dirty mesh.
#[derive(Clone, Copy, Debug, PartialEq, Eq)]
pub enum RebuildOutcome {
    /// Every binding of the mesh was derived afresh; the mesh is clean.
    Rebuilt,
    /// The bindings could not be derived; they were left as they were and
    /// the mesh stays dirty.
    Failed { error: BuildError },
    /// No binding is derived from the mesh; the mesh is clean.
    NoBinding,
}

/// The outcome of the rebuild pass for one dirty mesh.
#[derive(Clone, Copy, Debug, PartialEq, Eq)]
pub struct RebuildReport {
    pub mesh: Handle<Mesh>,
    pub outcome: RebuildOutcome,
}

/// State after a build pass: the entities, the binding library, and one
/// outcome per entity.
pub struct BuildPass {
    pub renderables: Seq<Renderable>,
    pub vaos: TableView<VaoView>,
    pub outcomes: Seq<BuildOutcome>,
}

/// State after a rebuild pass: the handles still dirty, the binding
/// library, and one report per handle that was dirty.
pub struct RebuildPass {
    pub dirty: Seq<Handle<Mesh>>,
    pub vaos: TableView<VaoView>,
    pub reports: Seq<RebuildReport>,
}

/// The build pass extended by one entity. An entity with a binding is
/// passed over. For one without, a binding is built; only on success does
/// anything change: the binding joins the library and its handle is
/// attached to the entity.
pub open spec fn build_step(
    pass: BuildPass,
    entity: Renderable,
    meshes: TableView<Mesh>,
    shaders: TableView<ShaderProgram>,
) -> BuildPass {
    if entity.vao is Some {
        BuildPass {
            renderables: pass.renderables.push(entity),
            vaos: pass.vaos,
            outcomes: pass.outcomes.push(BuildOutcome::AlreadyBound),
        }
    } else {
        match build(pass.vaos, meshes, shaders, entity.mesh, entity.shader) {
            (vaos, Ok(vao)) => BuildPass {
                renderables: pass.renderables.push(
                    Renderable {
                        entity: entity.entity,
                        mesh: entity.mesh,
                        shader: entity.shader,
                        vao: Some(vao),
                    },
                ),
                vaos,
                outcomes: pass.outcomes.push(BuildOutcome::Built { vao }),
            },
            (_, Err(error)) => BuildPass {
                renderables: pass.renderables.push(entity),
                vaos: pass.vaos,
                outcomes: pass.outcomes.push(
                    if error is EmptyMesh {
                        BuildOutcome::NotReady
                    } else {
                        BuildOutcome::Failed { error }
                    },
                ),
            },
        }
    }
}

/// The build pass over `renderables`, first to last, starting from the
/// binding library `vaos`.
pub open spec fn build_missing(
    renderables: Seq<Renderable>,
    vaos: TableView<VaoView>,
    meshes: TableView<Mesh>,
    shaders: TableView<ShaderProgram>,
) -> BuildPass
    decreases renderables.len(),
{
    if renderables.len() == 0 {
        BuildPass { renderables: Seq::empty(), vaos, outcomes: Seq::empty() }
    } else {
        build_step(
            build_missing(renderables.drop_last(), vaos, meshes, shaders),
            renderables.last(),
            meshes,
            shaders,
        )
    }
}

/// The rebuild pass extended by one dirty mesh. With no binding derived
/// from it there is nothing to rebuild and the mesh is dropped from the
/// dirty set. Otherwise its bindings are rebuilt, and the mesh stays dirty
/// exactly if that fails.
pub open spec fn rebuild_step(
    pass: RebuildPass,
    mesh: Handle<Mesh>,
    meshes: TableView<Mesh>,
    shaders: TableView<ShaderProgram>,
) -> RebuildPass {
    if !has_binding(pass.vaos, mesh) {
        RebuildPass {
            dirty: pass.dirty,
            vaos: pass.vaos,
            reports: pass.reports.push(RebuildReport { mesh, outcome: RebuildOutcome::NoBinding }),
        }
    } else {
        match rebuild(pass.vaos, meshes, shaders, mesh) {
            Ok(vaos) => RebuildPass {
                dirty: pass.dirty,
                vaos,
                reports: pass.reports.push(
                    RebuildReport { mesh, outcome: RebuildOutcome::Rebuilt },
                ),
            },
            Err(error) => RebuildPass {
                dirty: pass.dirty.push(mesh),
                vaos: pass.vaos,
                reports: pass.reports.push(
                    RebuildReport { mesh, outcome: RebuildOutcome::Failed { error } },
                ),
            },
        }
    }
}

/// The rebuild pass over the dirty handles, first to last, starting from
/// the binding library `vaos`.
pub open spec fn rebuild_dirty(
    dirty: Seq<Handle<Mesh>>,
    vaos: TableView<VaoView>,
    meshes: TableView<Mesh>,
    shaders: TableView<ShaderProgram>,
) -> RebuildPass
    decreases dirty.len(),
{
    if dirty.len() == 0 {
        RebuildPass { dirty: Seq::empty(), vaos, reports: Seq::empty() }
    } else {
        rebuild_step(
            rebuild_dirty(dirty.drop_last(), vaos, meshes, shaders),
            dirty.last(),
            meshes,
            shaders,
        )
    }
}

/// Builds a binding for every entity that has a mesh and a shader program
/// but no binding yet, attaches it, and reports what happened to each
/// entity, in their order.
///
/// An entity whose mesh has no indices is passed over without complaint;
/// one whose build fails is left without a binding, so that the next tick
/// tries again. Mesh and shader handles of the entities are never touched.
pub fn build_missing_vaos(
    renderables: &mut Vec<Renderable>,
    assets_mesh: &AssetMeshLibrary,
    assets_shader: &AssetShaderLibrary,
    assets_vao: &mut AssetVAOLibrary,
) -> (outcomes: Vec<BuildOutcome>)
    requires
        old(assets_vao).wf(),
    ensures
        final(assets_vao).wf(),
        final(renderables)@ == build_missing(
            old(renderables)@,
            old(assets_vao)@,
            assets_mesh@.meshes,
            assets_shader@,
        ).renderables,
        final(assets_vao)@ == build_missing(
            old(renderables)@,
            old(assets_vao)@,
            assets_mesh@.meshes,
            assets_shader@,
        ).vaos,
        outcomes@ == build_missing(
            old(renderables)@,
            old(assets_vao)@,
            assets_mesh@.meshes,
            assets_shader@,
        ).outcomes,
{
    let mut outcomes: Vec<BuildOutcome> = Vec::new();
    let count = renderables.len();
    let mut i: usize = 0;
    assert(renderables@.take(0) =~= Seq::<Renderable>::empty());
    while i < count
        invariant
            i <= count,
            count == renderables@.len(),
            count == old(renderables)@.len(),
            assets_vao.wf(),
            forall|k: int| i <= k < count ==> renderables@[k] == old(renderables)@[k],
            build_missing(
                old(renderables)@.take(i as int),
                old(assets_vao)@,
                assets_mesh@.meshes,
                assets_shader@,
            ) == (BuildPass {
                renderables: renderables@.take(i as int),
                vaos: assets_vao@,
                outcomes: outcomes@,
            }),
        decreases count - i,
    {
        let ghost taken = renderables@.take(i as int);
        let entity = renderables[i];
        assert(old(renderables)@.take(i + 1).drop_last() =~= old(renderables)@.take(i as int));
        if entity.vao.is_some() {
            outcomes.push(BuildOutcome::AlreadyBound);
        } else {
            match assets_vao.add(assets_mesh, assets_shader, entity.mesh, entity.shader) {
                Ok(vao) => {
                    renderables.set(
                        i,
                        Renderable {
                            entity: entity.entity,
                            mesh: entity.mesh,
                            shader: entity.shader,
                            vao: Some(vao),
                        },
                    );
                    outcomes.push(BuildOutcome::Built { vao });
                },
                Err(error) => {
                    if error.is_not_ready() {
                        outcomes.push(BuildOutcome::NotReady);
                    } else {
                        outcomes.push(BuildOutcome::Failed { error });
                    }
                },
            }
        }
        assert(renderables@.take(i + 1) =~= taken.push(renderables@[i as int]));
        i += 1;
    }
    assert(old(renderables)@.take(count as int) =~= old(renderables)@);
    outcomes
}

/// Rebuilds the bindings of every mesh that is marked dirty and leaves
/// marked exactly the meshes whose rebuild failed. Reports what happened
/// to each dirty mesh, in the order they were marked.
///
/// With nothing dirty this does nothing. A dirty mesh that no binding is
/// derived from has nothing to rebuild and is dropped from the dirty set.
pub fn rebuild_vaos(
    assets_shader: &AssetShaderLibrary,
    assets_mesh: &mut AssetMeshLibrary,
    assets_vao: &mut AssetVAOLibrary,
) -> (reports: Vec<RebuildReport>)
    requires
        old(assets_mesh).wf(),
        old(assets_vao).wf(),
    ensures
        final(assets_mesh).wf(),
        final(assets_vao).wf(),
        final(assets_mesh)@.meshes == old(assets_mesh)@.meshes,
        final(assets_mesh)@.dirty == rebuild_dirty(
            old(assets_mesh)@.dirty,
            old(assets_vao)@,
            old(assets_mesh)@.meshes,
            assets_shader@,
        ).dirty,
        final(assets_vao)@ == rebuild_dirty(
            old(assets_mesh)@.dirty,
            old(assets_vao)@,
            old(assets_mesh)@.meshes,
            assets_shader@,
        ).vaos,
        reports@ == rebuild_dirty(
            old(assets_mesh)@.dirty,
            old(assets_vao)@,
            old(assets_mesh)@.meshes,
            assets_shader@,
        ).reports,
{
    let mut reports: Vec<RebuildReport> = Vec::new();
    if assets_mesh.dirty_handles().len() == 0 {
        return reports;
    }
    let dirty = assets_mesh.take_dirty();
    let mut i: usize = 0;
    while i < dirty.len()
        invariant
            i <= dirty@.len(),
            dirty@ == old(assets_mesh)@.dirty,
            dirty@.no_duplicates(),
            assets_mesh.wf(),
            assets_vao.wf(),
            assets_mesh@.meshes == old(assets_mesh)@.meshes,
            forall|handle: Handle<Mesh>| #[trigger]
                assets_mesh@.dirty.contains(handle) ==> dirty@.take(i as int).contains(handle),
            rebuild_dirty(
                dirty@.take(i as int),
                old(assets_vao)@,
                old(assets_mesh)@.meshes,
                assets_shader@,
            ) == (RebuildPass {
                dirty: assets_mesh@.dirty,
                vaos: assets_vao@,
                reports: reports@,
            }),
        decreases dirty.len() - i,
    {
        let mesh = dirty[i];
        let ghost still_dirty = assets_mesh@.dirty;
        proof {
            assert(dirty@.take(i + 1).drop_last() =~= dirty@.take(i as int));
        }
        let outcome = if assets_vao.has_vao(mesh) {
            match assets_vao.rebuild_vao(&*assets_mesh, assets_shader, mesh) {
                Ok(()) => RebuildOutcome::Rebuilt,
                Err(error) => {
                    assets_mesh.mark_dirty(mesh);
                    RebuildOutcome::Failed { error }
                },
            }
        } else {
            RebuildOutcome::NoBinding
        };
        reports.push(RebuildReport { mesh, outcome });
        proof {
            assert(dirty@.take(i + 1) =~= dirty@.take(i as int).push(mesh));
            assert forall|handle: Handle<Mesh>| #[trigger]
                assets_mesh@.dirty.contains(handle) implies dirty@.take(i + 1).contains(
                handle,
            ) by {
                lemma_push_contains(still_dirty, mesh, handle);
                lemma_push_contains(dirty@.take(i as int), mesh, handle);
            }
        }
        i += 1;
    }
    assert(dirty@.take(dirty@.len() as int) =~= dirty@);
    reports
}

/// The build pass run `ticks` times in a row over the same entities, each
/// run starting from what the one before left.
pub open spec fn build_missing_repeated(
    renderables: Seq<Renderable>,
    vaos: TableView<VaoView>,
    meshes: TableView<Mesh>,
    shaders: TableView<ShaderProgram>,
    ticks: nat,
) -> BuildPass
    decreases ticks,
{
    if ticks == 0 {
        BuildPass { renderables, vaos, outcomes: Seq::empty() }
    } else {
        let earlier = build_missing_repeated(
            renderables,
            vaos,
            meshes,
            shaders,
            (ticks - 1) as nat,
        );
        build_missing(earlier.renderables, earlier.vaos, meshes, shaders)
    }
}

/// What the build pass may do to one entity: nothing but attach a binding.
/// A binding that was there stays and is reported as such; otherwise the
/// entity has a binding afterwards exactly if the outcome says one was
/// built, and then it is that one.
pub open spec fn step_of(before: Renderable, after: Renderable, outcome: BuildOutcome) -> bool {
    &&& after.entity == before.entity
    &&& after.mesh == before.mesh
    &&& after.shader == before.shader
    &&& outcome is AlreadyBound <==> before.vao is Some
    &&& after.vao == match outcome {
        BuildOutcome::AlreadyBound => before.vao,
        BuildOutcome::Built { vao } => Some(vao),
        _ => None,
    }
}

/// The build pass reports on every entity, keeps their order, and changes
/// nothing of an entity but its binding.
pub proof fn lemma_build_missing_shape(
    renderables: Seq<Renderable>,
    vaos: TableView<VaoView>,
    meshes: TableView<Mesh>,
    shaders: TableView<ShaderProgram>,
)
    ensures
        build_missing(renderables, vaos, meshes, shaders).renderables.len() == renderables.len(),
        build_missing(renderables, vaos, meshes, shaders).outcomes.len() == renderables.len(),
        forall|k: int|
            0 <= k < renderables.len() ==> step_of(
                #[trigger] renderables[k],
                build_missing(renderables, vaos, meshes, shaders).renderables[k],
                build_missing(renderables, vaos, meshes, shaders).outcomes[k],
            ),
    decreases renderables.len(),
{
    if renderables.len() > 0 {
        let front = renderables.drop_last();
        lemma_build_missing_shape(front, vaos, meshes, shaders);
        assert forall|k: int| 0 <= k < renderables.len() implies step_of(
            #[trigger] renderables[k],
            build_missing(renderables, vaos, meshes, shaders).renderables[k],
            build_missing(renderables, vaos, meshes, shaders).outcomes[k],
        ) by {
            if k < front.len() {
                assert(front[k] == renderables[k]);
            }
        }
    }
}

/// Empty-mesh suppression, one pass. From whatever state the pass starts,
/// an entity without a binding whose mesh has no indices comes out of it
/// as it went in, still without a binding, and is reported as not ready.
pub proof fn lemma_empty_mesh_stays_unbound(
    renderables: Seq<Renderable>,
    vaos: TableView<VaoView>,
    meshes: TableView<Mesh>,
    shaders: TableView<ShaderProgram>,
    i: int,
)
    requires
        0 <= i < renderables.len(),
        renderables[i].vao is None,
        meshes.contains(renderables[i].mesh),
        meshes.value(renderables[i].mesh).indices@.len() == 0,
    ensures
        build_missing(renderables, vaos, meshes, shaders).renderables.len() == renderables.len(),
        build_missing(renderables, vaos, meshes, shaders).renderables[i] == renderables[i],
        build_missing(renderables, vaos, meshes, shaders).outcomes[i] == BuildOutcome::NotReady,
    decreases renderables.len(),
{
    lemma_build_missing_shape(renderables, vaos, meshes, shaders);
    lemma_build_missing_shape(renderables.drop_last(), vaos, meshes, shaders);
    if i < renderables.len() - 1 {
        lemma_empty_mesh_stays_unbound(renderables.drop_last(), vaos, meshes, shaders, i);
    }
}

/// Empty-mesh suppression, any number of ticks. However often the build
/// pass runs, an entity whose mesh has no indices gets no binding from it
/// as long as the mesh stays empty.
pub proof fn lemma_empty_mesh_never_bound(
    renderables: Seq<Renderable>,
    vaos: TableView<VaoView>,
    meshes: TableView<Mesh>,
    shaders: TableView<ShaderProgram>,
    i: int,
    ticks: nat,
)
    requires
        0 <= i < renderables.len(),
        renderables[i].vao is None,
        meshes.contains(renderables[i].mesh),
        meshes.value(renderables[i].mesh).indices@.len() == 0,
    ensures
        build_missing_repeated(renderables, vaos, meshes, shaders, ticks).renderables.len()
            == renderables.len(),
        build_missing_repeated(renderables, vaos, meshes, shaders, ticks).renderables[i]
            == renderables[i],
    decreases ticks,
{
    if ticks > 0 {
        lemma_empty_mesh_never_bound(renderables, vaos, meshes, shaders, i, (ticks - 1) as nat);
        let earlier = build_missing_repeated(
            renderables,
            vaos,
            meshes,
            shaders,
            (ticks - 1) as nat,
        );
        lemma_empty_mesh_stays_unbound(earlier.renderables, earlier.vaos, meshes, shaders, i);
    }
}

/// Two binding libraries agree on where their bindings come from: the same
/// slots are occupied at the same generations, and each binding names the
/// same mesh and the same shader in both.
pub open spec fn same_sources(a: TableView<VaoView>, b: TableView<VaoView>) -> bool {
    &&& a.slots.len() == b.slots.len()
    &&& forall|i: int|
        0 <= i < a.slots.len() ==> {
            &&& (#[trigger] a.slots[i]) is Occupied == b.slots[i] is Occupied
            &&& a.slots[i].stamp() == b.slots[i].stamp()
            &&& a.slots[i] is Occupied ==> {
                &&& a.slots[i]->value.mesh == b.slots[i]->value.mesh
                &&& a.slots[i]->value.shader == b.slots[i]->value.shader
            }
        }
}

/// Whether a rebuild for a mesh has bindings to work on, and whether and
/// how it fails, depends only on where the bindings come from.
pub proof fn lemma_same_sources_agree(
    a: TableView<VaoView>,
    b: TableView<VaoView>,
    meshes: TableView<Mesh>,
    shaders: TableView<ShaderProgram>,
    mesh: Handle<Mesh>,
    upto: int,
)
    requires
        same_sources(a, b),
        upto <= a.slots.len(),
    ensures
        first_failure(a, meshes, shaders, mesh, upto) == first_failure(
            b,
            meshes,
            shaders,
            mesh,
            upto,
        ),
        has_binding(a, mesh) == has_binding(b, mesh),
    decreases upto,
{
    if upto > 0 {
        lemma_same_sources_agree(a, b, meshes, shaders, mesh, upto - 1);
    }
    if has_binding(a, mesh) {
        let i = choose|i: int| derived_from(a, i, mesh);
        assert(derived_from(b, i, mesh));
    }
    if has_binding(b, mesh) {
        let i = choose|i: int| derived_from(b, i, mesh);
        assert(derived_from(a, i, mesh));
    }
}

/// The rebuild pass keeps every binding under its handle, with the mesh
/// and the shader it came from: no handle to a binding dies in the pass and
/// none is issued.
pub proof fn lemma_rebuild_dirty_keeps_sources(
    dirty: Seq<Handle<Mesh>>,
    vaos: TableView<VaoView>,
    meshes: TableView<Mesh>,
    shaders: TableView<ShaderProgram>,
)
    ensures
        same_sources(vaos, rebuild_dirty(dirty, vaos, meshes, shaders).vaos),
        rebuild_dirty(dirty, vaos, meshes, shaders).vaos.free == vaos.free,
        forall|handle: Handle<VAO>| #[trigger]
            rebuild_dirty(dirty, vaos, meshes, shaders).vaos.contains(handle) == vaos.contains(
                handle,
            ),
    decreases dirty.len(),
{
    if dirty.len() > 0 {
        lemma_rebuild_dirty_keeps_sources(dirty.drop_last(), vaos, meshes, shaders);
        let earlier = rebuild_dirty(dirty.drop_last(), vaos, meshes, shaders);
        let pass = rebuild_dirty(dirty, vaos, meshes, shaders);
        if pass.vaos != earlier.vaos {
            assert forall|i: int| 0 <= i < vaos.slots.len() implies {
                &&& (#[trigger] vaos.slots[i]) is Occupied == pass.vaos.slots[i] is Occupied
                &&& vaos.slots[i].stamp() == pass.vaos.slots[i].stamp()
                &&& vaos.slots[i] is Occupied ==> {
                    &&& vaos.slots[i]->value.mesh == pass.vaos.slots[i]->value.mesh
                    &&& vaos.slots[i]->value.shader == pass.vaos.slots[i]->value.shader
                }
            } by {
                lemma_no_failure_below(
                    earlier.vaos,
                    meshes,
                    shaders,
                    dirty.last(),
                    earlier.vaos.slots.len() as int,
                    i,
                );
            }
        }
    }
}

/// Dirty-set convergence. After one rebuild pass a mesh is dirty exactly
/// if it was dirty before, some binding is derived from it, and rebuilding
/// its bindings fails. So a rebuild that succeeds cleans the mesh, one that
/// fails keeps it dirty for the next pass, and a mesh without bindings is
/// cleaned without a rebuild. Handles stay in the order they were marked,
/// none of them twice.
pub proof fn lemma_dirty_convergence(
    dirty: Seq<Handle<Mesh>>,
    vaos: TableView<VaoView>,
    meshes: TableView<Mesh>,
    shaders: TableView<ShaderProgram>,
    mesh: Handle<Mesh>,
)
    ensures
        rebuild_dirty(dirty, vaos, meshes, shaders).dirty.contains(mesh) <==> {
            &&& dirty.contains(mesh)
            &&& has_binding(vaos, mesh)
            &&& rebuild(vaos, meshes, shaders, mesh) is Err
        },
        dirty.no_duplicates() ==> rebuild_dirty(dirty, vaos, meshes, shaders).dirty.no_duplicates(),
    decreases dirty.len(),
{
    if dirty.len() > 0 {
        let last = dirty.last();
        let front = dirty.drop_last();
        let earlier = rebuild_dirty(front, vaos, meshes, shaders);
        lemma_dirty_convergence(front, vaos, meshes, shaders, mesh);
        lemma_dirty_convergence(front, vaos, meshes, shaders, last);
        lemma_rebuild_dirty_keeps_sources(front, vaos, meshes, shaders);
        lemma_same_sources_agree(
            vaos,
            earlier.vaos,
            meshes,
            shaders,
            last,
            vaos.slots.len() as int,
        );
        assert(dirty =~= front.push(last));
        lemma_push_contains(front, last, mesh);
        lemma_push_contains(earlier.dirty, last, mesh);
    }
}

/// A sequence with `x` appended holds `y` exactly if `y` is `x` or the
/// sequence held it.
proof fn lemma_push_contains<A>(s: Seq<A>, x: A, y: A)
    ensures
        s.push(x).contains(y) <==> s.contains(y) || x == y,
{
    if s.contains(y) {
        let k = choose|k: int| 0 <= k < s.len() && s[k] == y;
        assert(s.push(x)[k] == y);
    }
    if x == y {
        assert(s.push(x)[s.len() as int] == y);
    }
    if s.push(x).contains(y) && x != y {
        let k = choose|k: int| 0 <= k < s.push(x).len() && s.push(x)[k] == y;
        assert(s[k] == y);
    }
}

} // verus!
