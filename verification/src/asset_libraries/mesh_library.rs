//! The library that owns the meshes and remembers which of them changed.

use crate::asset_libraries::handle::Handle;
use crate::asset_libraries::table::{HandleTable, TableView};
use crate::render::mesh::Mesh;
use vstd::prelude::*;

verus! {

/// What the mesh library holds: the meshes, and the handles marked dirty
/// in the order they were first marked.
pub struct MeshLibraryView {
    pub meshes: TableView<Mesh>,
    pub dirty: Seq<Handle<Mesh>>,
}

/// Owner of every mesh; hands out handles to them and keeps the set of
/// handles whose mesh changed since its bindings were last rebuilt.
pub struct AssetMeshLibrary {
    table: HandleTable<Mesh>,
    marked_as_dirty: Vec<Handle<Mesh>>,
}

impl View for AssetMeshLibrary {
    type V = MeshLibraryView;

    closed spec fn view(&self) -> MeshLibraryView {
        MeshLibraryView { meshes: self.table@, dirty: self.marked_as_dirty@ }
    }
}

impl AssetMeshLibrary {
    /// The invariant every operation keeps: the table is well-formed and
    /// no handle is marked dirty twice.
    pub open spec fn wf(&self) -> bool {
        self@.meshes.wf() && self@.dirty.no_duplicates()
    }

    /// A library with no meshes and nothing dirty.
    pub fn new() -> (library: Self)
        ensures
            library.wf(),
            library@.meshes == TableView::<Mesh>::empty(),
            library@.dirty == Seq::<Handle<Mesh>>::empty(),
    {
        AssetMeshLibrary { table: HandleTable::new(), marked_as_dirty: Vec::new() }
    }

    /// Takes ownership of `mesh` and returns the handle to it.
    pub fn add(&mut self, mesh: Mesh) -> (handle: Handle<Mesh>)
        requires
            old(self).wf(),
        ensures
            final(self).wf(),
            final(self)@.meshes == old(self)@.meshes.add(mesh),
            final(self)@.dirty == old(self)@.dirty,
            handle == old(self)@.meshes.next_handle::<Mesh>(),
            !old(self)@.meshes.contains(handle),
            final(self)@.meshes.get(handle) == Some(mesh),
    {
        self.table.add(mesh)
    }

    /// The mesh behind `handle`, or nothing if the handle is stale or was
    /// never issued.
    pub fn get(&self, handle: Handle<Mesh>) -> (found: Option<&Mesh>)
        ensures
            match found {
                Some(mesh) => self@.meshes.contains(handle) && *mesh == self@.meshes.value(handle),
                None => !self@.meshes.contains(handle),
            },
    {
        self.table.get(handle)
    }

    /// Mutable access to the mesh behind `handle`. Whoever changes the mesh
    /// through it has to call [`mark_dirty`](Self::mark_dirty) afterwards:
    /// nothing else tells the bindings that the mesh changed.
    pub fn get_mut(&mut self, handle: Handle<Mesh>) -> (found: Option<&mut Mesh>)
        requires
            old(self).wf(),
        ensures
            final(self).wf(),
            final(self)@.dirty == old(self)@.dirty,
            match found {
                Some(mesh) => {
                    &&& old(self)@.meshes.contains(handle)
                    &&& *mesh == old(self)@.meshes.value(handle)
                    &&& final(self)@.meshes == old(self)@.meshes.set(handle, *final(mesh))
                },
                None => {
                    &&& !old(self)@.meshes.contains(handle)
                    &&& final(self)@.meshes == old(self)@.meshes
                },
            },
    {
        self.table.get_mut(handle)
    }

    /// Gives the mesh behind `handle` back and kills the handle, or does
    /// nothing if the handle is stale or was never issued. The dirty set
    /// is left as it is.
    pub fn remove(&mut self, handle: Handle<Mesh>) -> (removed: Option<Mesh>)
        requires
            old(self).wf(),
        ensures
            final(self).wf(),
            final(self)@.meshes == old(self)@.meshes.remove(handle),
            final(self)@.dirty == old(self)@.dirty,
            removed == old(self)@.meshes.get(handle),
            !final(self)@.meshes.contains(handle),
    {
        self.table.remove(handle)
    }

    /// Whether `handle` is marked dirty.
    pub fn is_dirty(&self, handle: Handle<Mesh>) -> (dirty: bool)
        ensures
            dirty == self@.dirty.contains(handle),
    {
        let mut i: usize = 0;
        while i < self.marked_as_dirty.len()
            invariant
                i <= self.marked_as_dirty@.len(),
                forall|k: int| 0 <= k < i ==> self.marked_as_dirty@[k] != handle,
            decreases self.marked_as_dirty.len() - i,
        {
            if self.marked_as_dirty[i] == handle {
                return true;
            }
            i += 1;
        }
        false
    }

    /// Marks `handle` dirty. Marking a handle that is already marked
    /// changes nothing.
    pub fn mark_dirty(&mut self, handle: Handle<Mesh>)
        requires
            old(self).wf(),
        ensures
            final(self).wf(),
            final(self)@.meshes == old(self)@.meshes,
            final(self)@.dirty == if old(self)@.dirty.contains(handle) {
                old(self)@.dirty
            } else {
                old(self)@.dirty.push(handle)
            },
            final(self)@.dirty.contains(handle),
    {
        if !self.is_dirty(handle) {
            self.marked_as_dirty.push(handle);
            assert(self.marked_as_dirty@[self.marked_as_dirty@.len() - 1] == handle);
        }
    }

    /// The handles marked dirty, in the order they were first marked.
    pub fn dirty_handles(&self) -> (handles: &Vec<Handle<Mesh>>)
        ensures
            handles@ == self@.dirty,
    {
        &self.marked_as_dirty
    }

    /// Empties the dirty set and returns what it held.
    pub fn take_dirty(&mut self) -> (handles: Vec<Handle<Mesh>>)
        requires
            old(self).wf(),
        ensures
            final(self).wf(),
            final(self)@.meshes == old(self)@.meshes,
            final(self)@.dirty == Seq::<Handle<Mesh>>::empty(),
            handles@ == old(self)@.dirty,
    {
        let mut handles: Vec<Handle<Mesh>> = Vec::new();
        core::mem::swap(&mut self.marked_as_dirty, &mut handles);
        handles
    }
}

} // verus!
