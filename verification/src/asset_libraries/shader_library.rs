//! The library that owns the shader programs.

use crate::asset_libraries::handle::Handle;
use crate::asset_libraries::table::{HandleTable, TableView};
use crate::render::shader::ShaderProgram;
use vstd::prelude::*;

verus! {

/// Owner of every shader program; hands out handles to them.
pub struct AssetShaderLibrary {
    table: HandleTable<ShaderProgram>,
}

impl View for AssetShaderLibrary {
    type V = TableView<ShaderProgram>;

    closed spec fn view(&self) -> TableView<ShaderProgram> {
        self.table@
    }
}

impl AssetShaderLibrary {
    /// The invariant every operation keeps.
    pub open spec fn wf(&self) -> bool {
        self@.wf()
    }

    /// A library with no programs.
    pub fn new() -> (library: Self)
        ensures
            library.wf(),
            library@ == TableView::<ShaderProgram>::empty(),
    {
        AssetShaderLibrary { table: HandleTable::new() }
    }

    /// Takes ownership of `program` and returns the handle to it.
    pub fn add(&mut self, program: ShaderProgram) -> (handle: Handle<ShaderProgram>)
        requires
            old(self).wf(),
        ensures
            final(self).wf(),
            final(self)@ == old(self)@.add(program),
            handle == old(self)@.next_handle::<ShaderProgram>(),
            !old(self)@.contains(handle),
            final(self)@.get(handle) == Some(program),
    {
        self.table.add(program)
    }

    /// The program behind `handle`, or nothing if the handle is stale or
    /// was never issued.
    pub fn get(&self, handle: Handle<ShaderProgram>) -> (found: Option<&ShaderProgram>)
        ensures
            match found {
                Some(program) => self@.contains(handle) && *program == self@.value(handle),
                None => !self@.contains(handle),
            },
    {
        self.table.get(handle)
    }

    /// Mutable access to the program behind `handle`, for replacing it in
    /// place after a recompile.
    pub fn get_mut(&mut self, handle: Handle<ShaderProgram>) -> (found: Option<
        &mut ShaderProgram,
    >)
        requires
            old(self).wf(),
        ensures
            final(self).wf(),
            match found {
                Some(program) => {
                    &&& old(self)@.contains(handle)
                    &&& *program == old(self)@.value(handle)
                    &&& final(self)@ == old(self)@.set(handle, *final(program))
                },
                None => !old(self)@.contains(handle) && final(self)@ == old(self)@,
            },
    {
        self.table.get_mut(handle)
    }

    /// Gives the program behind `handle` back and kills the handle, or does
    /// nothing if the handle is stale or was never issued.
    pub fn remove(&mut self, handle: Handle<ShaderProgram>) -> (removed: Option<ShaderProgram>)
        requires
            old(self).wf(),
        ensures
            final(self).wf(),
            final(self)@ == old(self)@.remove(handle),
            removed == old(self)@.get(handle),
            !final(self)@.contains(handle),
    {
        self.table.remove(handle)
    }
}

} // verus!
