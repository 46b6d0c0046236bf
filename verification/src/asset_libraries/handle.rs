//! Typed generational handles.

use core::marker::PhantomData;
use vstd::prelude::*;
use vstd::std_specs::cmp::PartialEqSpecImpl;

verus! {

/// A copyable reference to one occupancy of one slot of a handle table.
///
/// `index` names the slot and `generation` the occupancy; `T` ties the
/// handle to the kind of resource it was issued for. Two handles are equal
/// when index and generation agree.
#[derive(Debug, Hash)]
pub struct Handle<T> {
    pub index: usize,
    pub generation: u64,
    pub marker: PhantomData<T>,
}

impl<T> Handle<T> {
    /// A handle for occupancy `generation` of slot `index`.
    pub fn new(index: usize, generation: u64) -> (handle: Self)
        ensures
            handle.index == index,
            handle.generation == generation,
    {
        Handle { index, generation, marker: PhantomData }
    }

    /// The slot this handle points at.
    pub fn index(&self) -> (index: usize)
        ensures
            index == self.index,
    {
        self.index
    }

    /// The occupancy of the slot this handle was issued for.
    pub fn generation(&self) -> (generation: u64)
        ensures
            generation == self.generation,
    {
        self.generation
    }

    /// Handles are determined by index and generation.
    pub proof fn lemma_equal_by_parts(self, other: Self)
        ensures
            (self.index == other.index && self.generation == other.generation) <==> self == other,
    {
    }
}

impl<T> Clone for Handle<T> {
    fn clone(&self) -> (copy: Self)
        ensures
            copy == *self,
    {
        *self
    }
}

impl<T> Copy for Handle<T> {

}

impl<T> PartialEq for Handle<T> {
    fn eq(&self, other: &Self) -> (equal: bool) {
        self.index == other.index && self.generation == other.generation
    }
}

impl<T> PartialEqSpecImpl for Handle<T> {
    open spec fn obeys_eq_spec() -> bool {
        true
    }

    open spec fn eq_spec(&self, other: &Self) -> bool {
        self.index == other.index && self.generation == other.generation
    }
}

impl<T> Eq for Handle<T> {

}

} // verus!
