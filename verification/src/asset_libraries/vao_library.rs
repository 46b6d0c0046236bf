//! The library that owns the draw bindings, builds them from a mesh and a
//! shader program, and rebuilds them when the mesh changed.

use crate::asset_libraries::handle::Handle;
use crate::asset_libraries::mesh_library::AssetMeshLibrary;
use crate::asset_libraries::shader_library::AssetShaderLibrary;
use crate::asset_libraries::table::{
    lemma_add_keeps_wf, lemma_map_values, lemma_map_values_reflects_wf, HandleTable, Slot,
    TableView,
};
use crate::render::mesh::Mesh;
use crate::render::shader::ShaderProgram;
use crate::render::vao::{derive_binding, BuildError, VaoView, VAO};
use vstd::prelude::*;

verus! {

/// The binding of the mesh behind `mesh` to the program behind `shader`, or
/// the reason there is none. The checks come in this order: the mesh handle
/// is live; the mesh has indices; the shader handle is live and its
/// program compiled; the layout feeds every input of the program.
pub open spec fn binding_for(
    meshes: TableView<Mesh>,
    shaders: TableView<ShaderProgram>,
    mesh: Handle<Mesh>,
    shader: Handle<ShaderProgram>,
) -> Result<VaoView, BuildError> {
    if !meshes.contains(mesh) {
        Err(BuildError::UnknownMesh)
    } else if meshes.value(mesh).indices@.len() == 0 {
        Err(BuildError::EmptyMesh)
    } else if !shaders.contains(shader) {
        Err(BuildError::UnknownOrInvalidShader)
    } else {
        derive_binding(meshes.value(mesh), shaders.value(shader), mesh, shader)
    }
}

/// The library after a build for the given pair, and what the build
/// returns: on success the new binding is added and its handle returned;
/// otherwise the library stays as it is.
pub open spec fn build(
    vaos: TableView<VaoView>,
    meshes: TableView<Mesh>,
    shaders: TableView<ShaderProgram>,
    mesh: Handle<Mesh>,
    shader: Handle<ShaderProgram>,
) -> (TableView<VaoView>, Result<Handle<VAO>, BuildError>) {
    match binding_for(meshes, shaders, mesh, shader) {
        Ok(binding) => (vaos.add(binding), Ok(vaos.next_handle::<VAO>())),
        Err(error) => (vaos, Err(error)),
    }
}

/// Slot `i` holds a binding that was derived from `mesh`.
pub open spec fn derived_from(vaos: TableView<VaoView>, i: int, mesh: Handle<Mesh>) -> bool {
    vaos.occupied(i) && vaos.slots[i]->value.mesh == mesh
}

/// Some binding that the library owns was derived from `mesh`.
pub open spec fn has_binding(vaos: TableView<VaoView>, mesh: Handle<Mesh>) -> bool {
    exists|i: int| derived_from(vaos, i, mesh)
}

/// What slot `i` holds after a rebuild for `mesh`: a binding derived from
/// `mesh` is derived afresh for the program it was built with and keeps its
/// slot and generation; any other slot stays as it is.
pub open spec fn refreshed(
    vaos: TableView<VaoView>,
    meshes: TableView<Mesh>,
    shaders: TableView<ShaderProgram>,
    mesh: Handle<Mesh>,
    i: int,
) -> Result<Slot<VaoView>, BuildError> {
    if derived_from(vaos, i, mesh) {
        match binding_for(meshes, shaders, mesh, vaos.slots[i]->value.shader) {
            Ok(binding) => Ok(
                Slot::Occupied { generation: vaos.slots[i].stamp(), value: binding },
            ),
            Err(error) => Err(error),
        }
    } else {
        Ok(vaos.slots[i])
    }
}

/// The error of the first slot below `upto`, in index order, whose binding
/// cannot be derived afresh.
pub open spec fn first_failure(
    vaos: TableView<VaoView>,
    meshes: TableView<Mesh>,
    shaders: TableView<ShaderProgram>,
    mesh: Handle<Mesh>,
    upto: int,
) -> Option<BuildError>
    decreases upto,
{
    if upto <= 0 {
        None
    } else {
        match first_failure(vaos, meshes, shaders, mesh, upto - 1) {
            Some(error) => Some(error),
            None => match refreshed(vaos, meshes, shaders, mesh, upto - 1) {
                Ok(_) => None,
                Err(error) => Some(error),
            },
        }
    }
}

/// The library after a rebuild for `mesh`: every binding derived from
/// `mesh` replaced in place by a fresh one, or the first error if any of
/// them cannot be derived, in which case nothing is replaced.
pub open spec fn rebuild(
    vaos: TableView<VaoView>,
    meshes: TableView<Mesh>,
    shaders: TableView<ShaderProgram>,
    mesh: Handle<Mesh>,
) -> Result<TableView<VaoView>, BuildError> {
    match first_failure(vaos, meshes, shaders, mesh, vaos.slots.len() as int) {
        Some(error) => Err(error),
        None => Ok(
            TableView {
                slots: Seq::new(
                    vaos.slots.len(),
                    |i: int| refreshed(vaos, meshes, shaders, mesh, i)->Ok_0,
                ),
                free: vaos.free,
            },
        ),
    }
}

/// The function that maps a stored binding to its plain value.
pub open spec fn vao_view() -> spec_fn(VAO) -> VaoView {
    |vao: VAO| vao@
}

/// Owner of every draw binding.
pub struct AssetVAOLibrary {
    table: HandleTable<VAO>,
}

impl View for AssetVAOLibrary {
    type V = TableView<VaoView>;

    closed spec fn view(&self) -> TableView<VaoView> {
        self.table@.map_values(vao_view())
    }
}

impl AssetVAOLibrary {
    /// The invariant every operation keeps.
    pub open spec fn wf(&self) -> bool {
        self@.wf()
    }

    /// A library with no bindings.
    pub fn new() -> (library: Self)
        ensures
            library.wf(),
            library@ == TableView::<VaoView>::empty(),
    {
        let library = AssetVAOLibrary { table: HandleTable::new() };
        assert(library@.slots =~= TableView::<VaoView>::empty().slots);
        library
    }

    /// Derives, without storing it, the binding of the mesh behind
    /// `mesh_handle` to the program behind `shader_handle`.
    pub fn derive(
        assets_mesh: &AssetMeshLibrary,
        assets_shader: &AssetShaderLibrary,
        mesh_handle: Handle<Mesh>,
        shader_handle: Handle<ShaderProgram>,
    ) -> (derived: Result<VAO, BuildError>)
        ensures
            match derived {
                Ok(vao) => binding_for(
                    assets_mesh@.meshes,
                    assets_shader@,
                    mesh_handle,
                    shader_handle,
                ) == Ok::<VaoView, BuildError>(vao@),
                Err(error) => binding_for(
                    assets_mesh@.meshes,
                    assets_shader@,
                    mesh_handle,
                    shader_handle,
                ) == Err::<VaoView, BuildError>(error),
            },
    {
        let mesh = match assets_mesh.get(mesh_handle) {
            Some(mesh) => mesh,
            None => {
                return Err(BuildError::UnknownMesh);
            },
        };
        if mesh.is_empty() {
            return Err(BuildError::EmptyMesh);
        }
        let program = match assets_shader.get(shader_handle) {
            Some(program) => program,
            None => {
                return Err(BuildError::UnknownOrInvalidShader);
            },
        };
        VAO::build(mesh, program, mesh_handle, shader_handle)
    }

    /// Builds the binding of the mesh behind `mesh_handle` to the program
    /// behind `shader_handle` and stores it under a new handle.
    ///
    /// Fails, leaving the library as it was, with `UnknownMesh` if the mesh
    /// handle is not live, else with `EmptyMesh` if the mesh has no
    /// indices, else with `UnknownOrInvalidShader` if the shader handle is
    /// not live or its program did not compile, else with
    /// `MismatchedLayout` if the layout cannot feed the program.
    pub fn add(
        &mut self,
        assets_mesh: &AssetMeshLibrary,
        assets_shader: &AssetShaderLibrary,
        mesh_handle: Handle<Mesh>,
        shader_handle: Handle<ShaderProgram>,
    ) -> (built: Result<Handle<VAO>, BuildError>)
        requires
            old(self).wf(),
        ensures
            final(self).wf(),
            (final(self)@, built) == build(
                old(self)@,
                assets_mesh@.meshes,
                assets_shader@,
                mesh_handle,
                shader_handle,
            ),
            built matches Ok(handle) ==> !old(self)@.contains(handle) && final(self)@.get(handle)
                == Some(
                binding_for(assets_mesh@.meshes, assets_shader@, mesh_handle, shader_handle)->Ok_0,
            ),
    {
        match Self::derive(assets_mesh, assets_shader, mesh_handle, shader_handle) {
            Ok(vao) => {
                proof {
                    lemma_map_values_reflects_wf(self.table@, vao_view());
                    lemma_map_values(self.table@, vao_view(), self.table@.next_handle::<VAO>());
                }
                let handle = self.table.add(vao);
                proof {
                    lemma_map_values(self.table@, vao_view(), handle);
                }
                Ok(handle)
            },
            Err(error) => Err(error),
        }
    }

    /// The binding behind `handle`, or nothing if the handle is stale or
    /// was never issued.
    pub fn get(&self, handle: Handle<VAO>) -> (found: Option<&VAO>)
        requires
            self.wf(),
        ensures
            match found {
                Some(vao) => self@.contains(handle) && vao@ == self@.value(handle),
                None => !self@.contains(handle),
            },
    {
        proof {
            lemma_map_values_reflects_wf(self.table@, vao_view());
            lemma_map_values(self.table@, vao_view(), handle);
        }
        self.table.get(handle)
    }

    /// Gives the binding behind `handle` back and kills the handle, or does
    /// nothing if the handle is stale or was never issued.
    pub fn remove(&mut self, handle: Handle<VAO>) -> (removed: Option<VAO>)
        requires
            old(self).wf(),
        ensures
            final(self).wf(),
            final(self)@ == old(self)@.remove(handle),
            match removed {
                Some(vao) => old(self)@.contains(handle) && vao@ == old(self)@.value(handle),
                None => !old(self)@.contains(handle),
            },
            !final(self)@.contains(handle),
    {
        proof {
            lemma_map_values_reflects_wf(self.table@, vao_view());
            lemma_map_values(self.table@, vao_view(), handle);
        }
        let removed = self.table.remove(handle);
        proof {
            lemma_map_values(self.table@, vao_view(), handle);
        }
        removed
    }

    /// Whether some binding that the library owns was derived from the
    /// mesh behind `mesh_handle`.
    pub fn has_vao(&self, mesh_handle: Handle<Mesh>) -> (found: bool)
        requires
            self.wf(),
        ensures
            found == has_binding(self@, mesh_handle),
    {
        proof {
            lemma_map_values_reflects_wf(self.table@, vao_view());
        }
        let count = self.table.slot_count();
        let mut i: usize = 0;
        while i < count
            invariant
                i <= count,
                count == self.table@.slots.len(),
                self.table.wf(),
                forall|k: int| 0 <= k < i ==> !derived_from(self@, k, mesh_handle),
            decreases count - i,
        {
            if let Some(handle) = self.table.handle_at(i) {
                if let Some(vao) = self.table.get(handle) {
                    if vao.mesh == mesh_handle {
                        assert(derived_from(self@, i as int, mesh_handle));
                        return true;
                    }
                }
            }
            i += 1;
        }
        false
    }

    /// Derives afresh, and replaces in place, every binding that was
    /// derived from the mesh behind `mesh_handle`, each for the program it
    /// was built with. Handles to the bindings stay what they were.
    ///
    /// All of them are replaced or none: if one cannot be derived, the
    /// error of the first such binding in slot order is returned and the
    /// library is left as it was. With no binding for the mesh there is
    /// nothing to do, which is a success.
    pub fn rebuild_vao(
        &mut self,
        assets_mesh: &AssetMeshLibrary,
        assets_shader: &AssetShaderLibrary,
        mesh_handle: Handle<Mesh>,
    ) -> (rebuilt: Result<(), BuildError>)
        requires
            old(self).wf(),
        ensures
            final(self).wf(),
            match rebuild(old(self)@, assets_mesh@.meshes, assets_shader@, mesh_handle) {
                Ok(after) => rebuilt is Ok && final(self)@ == after,
                Err(error) => rebuilt == Err::<(), BuildError>(error) && final(self)@ == old(
                    self,
                )@,
            },
    {
        proof {
            lemma_map_values_reflects_wf(self.table@, vao_view());
        }
        let ghost before = self@;
        let ghost meshes = assets_mesh@.meshes;
        let ghost shaders = assets_shader@;
        let count = self.table.slot_count();
        // First make sure that every binding can be derived, so that the
        // replacing below cannot stop halfway.
        let mut i: usize = 0;
        while i < count
            invariant
                i <= count,
                count == self.table@.slots.len(),
                self.table.wf(),
                before == self@,
                before.wf(),
                meshes == assets_mesh@.meshes,
                shaders == assets_shader@,
                first_failure(before, meshes, shaders, mesh_handle, i as int) is None,
            decreases count - i,
        {
            if let Some(handle) = self.table.handle_at(i) {
                if let Some(vao) = self.table.get(handle) {
                    if vao.mesh == mesh_handle {
                        let shader_handle = vao.shader;
                        if let Err(error) = Self::derive(
                            assets_mesh,
                            assets_shader,
                            mesh_handle,
                            shader_handle,
                        ) {
                            proof {
                                lemma_failure_is_final(
                                    before,
                                    meshes,
                                    shaders,
                                    mesh_handle,
                                    i as int + 1,
                                    count as int,
                                );
                            }
                            return Err(error);
                        }
                    }
                }
            }
            i += 1;
        }
        let mut i: usize = 0;
        while i < count
            invariant
                i <= count,
                count == self.table@.slots.len(),
                count == before.slots.len(),
                self.table.wf(),
                self@.free == before.free,
                meshes == assets_mesh@.meshes,
                shaders == assets_shader@,
                first_failure(before, meshes, shaders, mesh_handle, count as int) is None,
                forall|k: int|
                    0 <= k < i ==> #[trigger] self@.slots[k] == refreshed(
                        before,
                        meshes,
                        shaders,
                        mesh_handle,
                        k,
                    )->Ok_0,
                forall|k: int| i <= k < count ==> #[trigger] self@.slots[k] == before.slots[k],
            decreases count - i,
        {
            proof {
                lemma_no_failure_below(
                    before,
                    meshes,
                    shaders,
                    mesh_handle,
                    count as int,
                    i as int,
                );
            }
            if let Some(handle) = self.table.handle_at(i) {
                proof {
                    lemma_map_values(self.table@, vao_view(), handle);
                }
                let derived_here = match self.table.get(handle) {
                    Some(vao) => if vao.mesh == mesh_handle {
                        Some(vao.shader)
                    } else {
                        None
                    },
                    None => None,
                };
                if let Some(shader_handle) = derived_here {
                    match Self::derive(assets_mesh, assets_shader, mesh_handle, shader_handle) {
                        Ok(vao) => {
                            let _ = self.table.replace(handle, vao);
                            proof {
                                lemma_map_values(self.table@, vao_view(), handle);
                            }
                        },
                        // The scan above found every binding derivable, and
                        // nothing the bindings derive from has changed since.
                        Err(error) => {
                            return Err(error);
                        },
                    }
                }
            }
            i += 1;
        }
        proof {
            lemma_map_values(
                self.table@,
                vao_view(),
                Handle::<VAO> { index: 0, generation: 0, marker: core::marker::PhantomData },
            );
            assert(self@.slots =~= rebuild(before, meshes, shaders, mesh_handle)->Ok_0.slots);
        }
        Ok(())
    }
}

/// A failure found below some slot is still the first failure when more
/// slots are looked at.
pub proof fn lemma_failure_is_final(
    vaos: TableView<VaoView>,
    meshes: TableView<Mesh>,
    shaders: TableView<ShaderProgram>,
    mesh: Handle<Mesh>,
    found: int,
    upto: int,
)
    requires
        found <= upto,
        first_failure(vaos, meshes, shaders, mesh, found) is Some,
    ensures
        first_failure(vaos, meshes, shaders, mesh, upto) == first_failure(
            vaos,
            meshes,
            shaders,
            mesh,
            found,
        ),
    decreases upto - found,
{
    if found < upto {
        lemma_failure_is_final(vaos, meshes, shaders, mesh, found, upto - 1);
    }
}

/// Where no binding below `upto` fails, each slot below `upto` has a value
/// after the rebuild, and none below any earlier slot fails.
pub proof fn lemma_no_failure_below(
    vaos: TableView<VaoView>,
    meshes: TableView<Mesh>,
    shaders: TableView<ShaderProgram>,
    mesh: Handle<Mesh>,
    upto: int,
    i: int,
)
    requires
        0 <= i < upto,
        first_failure(vaos, meshes, shaders, mesh, upto) is None,
    ensures
        refreshed(vaos, meshes, shaders, mesh, i) is Ok,
        first_failure(vaos, meshes, shaders, mesh, i) is None,
    decreases upto - i,
{
    if i + 1 < upto {
        lemma_no_failure_below(vaos, meshes, shaders, mesh, upto, i + 1);
    }
}

/// Idempotent build. Building twice for the same handles, with mesh and
/// program unchanged in between, fails twice with the same error or
/// succeeds twice; in the latter case the two bindings sit under different
/// handles and are equal in everything they hold.
pub proof fn lemma_build_twice(
    vaos: TableView<VaoView>,
    meshes: TableView<Mesh>,
    shaders: TableView<ShaderProgram>,
    mesh: Handle<Mesh>,
    shader: Handle<ShaderProgram>,
)
    requires
        vaos.wf(),
        vaos.slots.len() < usize::MAX,
    ensures
        ({
            let first = build(vaos, meshes, shaders, mesh, shader);
            let second = build(first.0, meshes, shaders, mesh, shader);
            &&& first.1 is Err ==> second.1 == first.1 && second.0 == vaos
            &&& first.1 matches Ok(one) ==> {
                &&& second.1 matches Ok(two)
                &&& one != two
                &&& second.0.contains(one)
                &&& second.0.contains(two)
                &&& second.0.value(one) == second.0.value(two)
                &&& second.0.value(one) == binding_for(meshes, shaders, mesh, shader)->Ok_0
            }
        }),
{
    if let Ok(binding) = binding_for(meshes, shaders, mesh, shader) {
        lemma_add_keeps_wf(vaos, binding);
    }
}

/// A rebuild that succeeds keeps every handle live that was live, makes no
/// other handle live, and leaves each binding with the mesh and the shader
/// handle it was derived from. Bindings derived from `mesh` then hold
/// exactly what deriving them now gives; all others hold what they held.
pub proof fn lemma_rebuild_keeps_handles(
    vaos: TableView<VaoView>,
    meshes: TableView<Mesh>,
    shaders: TableView<ShaderProgram>,
    mesh: Handle<Mesh>,
    handle: Handle<VAO>,
)
    requires
        rebuild(vaos, meshes, shaders, mesh) is Ok,
    ensures
        ({
            let after = rebuild(vaos, meshes, shaders, mesh)->Ok_0;
            &&& after.contains(handle) == vaos.contains(handle)
            &&& after.free == vaos.free
            &&& after.slots.len() == vaos.slots.len()
            &&& vaos.contains(handle) ==> {
                &&& after.value(handle).mesh == vaos.value(handle).mesh
                &&& after.value(handle).shader == vaos.value(handle).shader
                &&& vaos.value(handle).mesh == mesh ==> Ok::<VaoView, BuildError>(
                    after.value(handle),
                ) == binding_for(meshes, shaders, mesh, vaos.value(handle).shader)
                &&& vaos.value(handle).mesh != mesh ==> after.value(handle) == vaos.value(handle)
            }
        }),
{
    if handle.index < vaos.slots.len() {
        lemma_no_failure_below(
            vaos,
            meshes,
            shaders,
            mesh,
            vaos.slots.len() as int,
            handle.index as int,
        );
    }
}

} // verus!
