//! The generational slot table behind every resource library.

use crate::asset_libraries::handle::Handle;
use core::marker::PhantomData;
use vstd::prelude::*;

verus! {

/// The last generation a slot can reach. A slot that reaches it is retired
/// for good instead of being handed out again.
pub const MAX_GENERATION: u64 = 0xffff_ffff_ffff_ffff;

/// One storage cell of a table.
///
/// An empty slot carries the generation its next occupant will get; an
/// occupied slot carries the generation of the one handle that is live for
/// it. Emptying a slot raises its generation by one.
pub enum Slot<T> {
    Empty { generation: u64 },
    Occupied { generation: u64, value: T },
}

impl<T> Slot<T> {
    /// The generation that the slot carries, in either state.
    pub open spec fn stamp(self) -> u64 {
        match self {
            Slot::Empty { generation } => generation,
            Slot::Occupied { generation, .. } => generation,
        }
    }
}

/// Mathematical model of a table: its slots in index order, and the indices
/// of reusable empty slots, the most recently freed last.
pub struct TableView<T> {
    pub slots: Seq<Slot<T>>,
    pub free: Seq<usize>,
}

impl<T> TableView<T> {
    /// The table with no slots.
    pub open spec fn empty() -> Self {
        TableView { slots: Seq::empty(), free: Seq::empty() }
    }

    /// Slot `i` exists, is empty, and may still be handed out.
    pub open spec fn reusable(self, i: int) -> bool {
        &&& 0 <= i < self.slots.len()
        &&& self.slots[i] is Empty
        &&& self.slots[i].stamp() < MAX_GENERATION
    }

    /// Slot `i` exists and holds a value.
    pub open spec fn occupied(self, i: int) -> bool {
        0 <= i < self.slots.len() && self.slots[i] is Occupied
    }

    /// The free list names exactly the reusable slots, each once, and no
    /// occupied slot sits at the last generation.
    pub open spec fn wf(self) -> bool {
        &&& self.slots.len() <= usize::MAX
        &&& forall|k: int|
            0 <= k < self.free.len() ==> self.reusable(#[trigger] self.free[k] as int)
        &&& forall|i: int| #[trigger] self.reusable(i) ==> self.free.contains(i as usize)
        &&& self.free.no_duplicates()
        &&& forall|i: int|
            0 <= i < self.slots.len() && (#[trigger] self.slots[i]) is Occupied
                ==> self.slots[i].stamp() < MAX_GENERATION
    }

    /// `handle` is live: its slot is occupied at the handle's generation.
    pub open spec fn contains<K>(self, handle: Handle<K>) -> bool {
        &&& handle.index < self.slots.len()
        &&& self.slots[handle.index as int] is Occupied
        &&& self.slots[handle.index as int].stamp() == handle.generation
    }

    /// The value behind a live handle.
    pub open spec fn value<K>(self, handle: Handle<K>) -> T
        recommends
            self.contains(handle),
    {
        self.slots[handle.index as int]->value
    }

    /// What a lookup of `handle` yields.
    pub open spec fn get<K>(self, handle: Handle<K>) -> Option<T> {
        if self.contains(handle) {
            Some(self.value(handle))
        } else {
            None
        }
    }

    /// `handle` has been removed: its slot has moved on to a later
    /// generation.
    pub open spec fn retired<K>(self, handle: Handle<K>) -> bool {
        &&& handle.index < self.slots.len()
        &&& handle.generation < self.slots[handle.index as int].stamp()
    }

    /// The handle that the next `add` issues: the most recently freed slot
    /// at its current generation, or a new slot at generation 0.
    pub open spec fn next_handle<K>(self) -> Handle<K> {
        if self.free.len() > 0 {
            Handle {
                index: self.free.last(),
                generation: self.slots[self.free.last() as int].stamp(),
                marker: PhantomData,
            }
        } else {
            Handle { index: self.slots.len() as usize, generation: 0, marker: PhantomData }
        }
    }

    /// The table after adding `value`.
    pub open spec fn add(self, value: T) -> Self {
        if self.free.len() > 0 {
            let i = self.free.last() as int;
            TableView {
                slots: self.slots.update(
                    i,
                    Slot::Occupied { generation: self.slots[i].stamp(), value },
                ),
                free: self.free.drop_last(),
            }
        } else {
            TableView {
                slots: self.slots.push(Slot::Occupied { generation: 0, value }),
                free: self.free,
            }
        }
    }

    /// The table after removing `handle`; unchanged if the handle is not
    /// live. The slot's generation goes up by one, and the slot joins the
    /// free list unless that was its last generation.
    pub open spec fn remove<K>(self, handle: Handle<K>) -> Self {
        if self.contains(handle) {
            let next = (handle.generation + 1) as u64;
            TableView {
                slots: self.slots.update(handle.index as int, Slot::Empty { generation: next }),
                free: if next < MAX_GENERATION {
                    self.free.push(handle.index)
                } else {
                    self.free
                },
            }
        } else {
            self
        }
    }

    /// The table with the value behind `handle` replaced in place;
    /// unchanged if the handle is not live.
    pub open spec fn set<K>(self, handle: Handle<K>, value: T) -> Self {
        if self.contains(handle) {
            TableView {
                slots: self.slots.update(
                    handle.index as int,
                    Slot::Occupied { generation: handle.generation, value },
                ),
                free: self.free,
            }
        } else {
            self
        }
    }
}

/// A slot allocator that stores values of one kind and hands out
/// generational handles to them.
pub struct HandleTable<T> {
    slots: Vec<Slot<T>>,
    free: Vec<usize>,
}

impl<T> View for HandleTable<T> {
    type V = TableView<T>;

    closed spec fn view(&self) -> TableView<T> {
        TableView { slots: self.slots@, free: self.free@ }
    }
}

impl<T> HandleTable<T> {
    /// The invariant every operation keeps.
    pub open spec fn wf(&self) -> bool {
        self@.wf()
    }

    /// An empty table.
    pub fn new() -> (table: Self)
        ensures
            table.wf(),
            table@ == TableView::<T>::empty(),
    {
        HandleTable { slots: Vec::new(), free: Vec::new() }
    }

    /// Number of slots, live or not.
    pub fn slot_count(&self) -> (count: usize)
        ensures
            count == self@.slots.len(),
    {
        self.slots.len()
    }

    /// Stores `value` and returns the handle to it. Reuses the most
    /// recently freed slot if there is one, else appends a slot.
    pub fn add(&mut self, value: T) -> (handle: Handle<T>)
        requires
            old(self).wf(),
        ensures
            final(self).wf(),
            final(self)@ == old(self)@.add(value),
            handle == old(self)@.next_handle::<T>(),
            !old(self)@.contains(handle),
            final(self)@.contains(handle),
            final(self)@.value(handle) == value,
    {
        match self.free.pop() {
            Some(index) => {
                let generation = match &self.slots[index] {
                    Slot::Empty { generation } => *generation,
                    Slot::Occupied { generation, .. } => *generation,
                };
                self.slots.set(index, Slot::Occupied { generation, value });
                proof {
                    lemma_add_keeps_wf(old(self)@, value);
                }
                Handle::new(index, generation)
            },
            None => {
                let index = self.slots.len();
                self.slots.push(Slot::Occupied { generation: 0, value });
                proof {
                    assert(self.slots.len() == old(self)@.slots.len() + 1);
                    lemma_add_keeps_wf(old(self)@, value);
                }
                Handle::new(index, 0)
            },
        }
    }

    /// Whether `handle` is live.
    pub fn contains(&self, handle: Handle<T>) -> (live: bool)
        ensures
            live == self@.contains(handle),
    {
        if handle.index < self.slots.len() {
            match &self.slots[handle.index] {
                Slot::Occupied { generation, .. } => *generation == handle.generation,
                Slot::Empty { .. } => false,
            }
        } else {
            false
        }
    }

    /// The value behind `handle`, or nothing if the handle is stale or was
    /// never issued.
    pub fn get(&self, handle: Handle<T>) -> (found: Option<&T>)
        ensures
            match found {
                Some(value) => self@.contains(handle) && *value == self@.value(handle),
                None => !self@.contains(handle),
            },
    {
        if handle.index < self.slots.len() {
            match &self.slots[handle.index] {
                Slot::Occupied { generation, value } => {
                    if *generation == handle.generation {
                        Some(value)
                    } else {
                        None
                    }
                },
                Slot::Empty { .. } => None,
            }
        } else {
            None
        }
    }

    /// Mutable access to the value behind `handle`, or nothing if the
    /// handle is stale or was never issued. Whatever the caller writes
    /// through the reference replaces the value in place.
    pub fn get_mut(&mut self, handle: Handle<T>) -> (found: Option<&mut T>)
        requires
            old(self).wf(),
        ensures
            final(self).wf(),
            match found {
                Some(value) => {
                    &&& old(self)@.contains(handle)
                    &&& *value == old(self)@.value(handle)
                    &&& final(self)@ == old(self)@.set(handle, *final(value))
                },
                None => !old(self)@.contains(handle) && final(self)@ == old(self)@,
            },
    {
        if self.contains(handle) {
            proof {
                lemma_set_keeps_wf(old(self)@, handle);
            }
            match &mut self.slots[handle.index] {
                Slot::Occupied { value, .. } => {
                    assert(old(self)@.set(handle, *final(value)).wf());
                    Some(value)
                },
                Slot::Empty { .. } => None,
            }
        } else {
            None
        }
    }

    /// Replaces the value behind `handle` in place and returns the old one;
    /// hands `value` back untouched if the handle is stale or was never
    /// issued. The handle stays live and keeps its identity.
    pub fn replace(&mut self, handle: Handle<T>, value: T) -> (outcome: Result<T, T>)
        requires
            old(self).wf(),
        ensures
            final(self).wf(),
            final(self)@ == old(self)@.set(handle, value),
            match outcome {
                Ok(previous) => old(self)@.contains(handle) && previous == old(self)@.value(handle),
                Err(rejected) => !old(self)@.contains(handle) && rejected == value,
            },
    {
        match self.get_mut(handle) {
            Some(stored) => {
                let mut previous = value;
                core::mem::swap(stored, &mut previous);
                Ok(previous)
            },
            None => Err(value),
        }
    }

    /// Takes the value behind `handle` out of the table, or does nothing if
    /// the handle is stale or was never issued. On success the slot is
    /// emptied at the next generation, so `handle` and every copy of it is
    /// dead from here on, and the slot is queued for reuse.
    pub fn remove(&mut self, handle: Handle<T>) -> (removed: Option<T>)
        requires
            old(self).wf(),
        ensures
            final(self).wf(),
            final(self)@ == old(self)@.remove(handle),
            removed == old(self)@.get(handle),
            !final(self)@.contains(handle),
            removed is Some ==> final(self)@.retired(handle),
    {
        if !self.contains(handle) {
            return None;
        }
        proof {
            lemma_remove_keeps_wf(old(self)@, handle);
        }
        let next: u64 = handle.generation + 1;
        let mut slot = Slot::Empty { generation: next };
        core::mem::swap(&mut self.slots[handle.index], &mut slot);
        if next < MAX_GENERATION {
            self.free.push(handle.index);
        }
        match slot {
            Slot::Occupied { value, .. } => Some(value),
            Slot::Empty { .. } => None,
        }
    }

    /// The live handle of slot `index`, or nothing if the slot is empty or
    /// out of range. Walking `0..slot_count()` with it visits every live
    /// handle once.
    pub fn handle_at(&self, index: usize) -> (found: Option<Handle<T>>)
        ensures
            match found {
                Some(handle) => handle.index == index && self@.contains(handle),
                None => !self@.occupied(index as int),
            },
    {
        if index < self.slots.len() {
            match &self.slots[index] {
                Slot::Occupied { generation, .. } => Some(Handle::new(index, *generation)),
                Slot::Empty { .. } => None,
            }
        } else {
            None
        }
    }
}

/// Removing from a well-formed table leaves it well-formed.
pub proof fn lemma_remove_keeps_wf<T, K>(table: TableView<T>, handle: Handle<K>)
    requires
        table.wf(),
    ensures
        table.remove(handle).wf(),
{
    let after = table.remove(handle);
    if table.contains(handle) {
        let i = handle.index as int;
        assert forall|j: int| #[trigger] after.reusable(j) implies after.free.contains(
            j as usize,
        ) by {
            if j == i {
                assert(after.free[table.free.len() as int] == handle.index);
            } else {
                assert(table.reusable(j));
                let k = choose|k: int| 0 <= k < table.free.len() && table.free[k] == j as usize;
                assert(after.free[k] == j as usize);
            }
        }
    }
}

/// Replacing a live value in place leaves a well-formed table well-formed.
pub proof fn lemma_set_keeps_wf<T, K>(table: TableView<T>, handle: Handle<K>)
    requires
        table.wf(),
    ensures
        forall|value: T| #[trigger] table.set(handle, value).wf(),
{
    assert forall|value: T| #[trigger] table.set(handle, value).wf() by {
        let after = table.set(handle, value);
        if table.contains(handle) {
            assert forall|i: int| #[trigger] after.reusable(i) implies after.free.contains(
                i as usize,
            ) by {
                assert(table.reusable(i));
            }
        }
    }
}

/// Adding to a well-formed table that has room leaves it well-formed.
pub proof fn lemma_add_keeps_wf<T>(table: TableView<T>, value: T)
    requires
        table.wf(),
        table.free.len() == 0 ==> table.slots.len() < usize::MAX,
    ensures
        table.add(value).wf(),
{
    let after = table.add(value);
    if table.free.len() > 0 {
        assert forall|i: int| #[trigger] after.reusable(i) implies after.free.contains(
            i as usize,
        ) by {
            assert(table.reusable(i));
            let k = choose|k: int| 0 <= k < table.free.len() && table.free[k] == i as usize;
            assert(after.free[k] == i as usize);
        }
    } else {
        assert forall|i: int| #[trigger] after.reusable(i) implies after.free.contains(
            i as usize,
        ) by {
            assert(table.reusable(i));
        }
    }
}

/// One step in the life of a table.
pub enum TableOp<T> {
    Add { value: T },
    Remove { handle: Handle<T> },
}

impl<T> TableView<T> {
    /// The table after one step.
    pub open spec fn apply(self, op: TableOp<T>) -> Self {
        match op {
            TableOp::Add { value } => self.add(value),
            TableOp::Remove { handle } => self.remove(handle),
        }
    }

    /// The table after a sequence of steps, first to last.
    pub open spec fn apply_all(self, ops: Seq<TableOp<T>>) -> Self
        decreases ops.len(),
    {
        if ops.len() == 0 {
            self
        } else {
            self.apply_all(ops.drop_last()).apply(ops.last())
        }
    }
}

/// A retired handle stays retired through any sequence of adds and removes
/// that the address space has room for, and no add along the way issues it
/// again.
pub proof fn lemma_retired_stays_retired<T>(
    table: TableView<T>,
    handle: Handle<T>,
    ops: Seq<TableOp<T>>,
)
    requires
        table.wf(),
        table.retired(handle),
        table.slots.len() + ops.len() <= usize::MAX,
    ensures
        table.apply_all(ops).wf(),
        table.apply_all(ops).retired(handle),
        table.apply_all(ops).slots.len() <= table.slots.len() + ops.len(),
        forall|n: int|
            0 <= n < ops.len() ==> #[trigger] table.apply_all(ops.take(n)).next_handle::<T>()
                != handle,
    decreases ops.len(),
{
    if ops.len() > 0 {
        let before = ops.drop_last();
        lemma_retired_stays_retired(table, handle, before);
        let mid = table.apply_all(before);
        match ops.last() {
            TableOp::Add { value } => {
                lemma_add_keeps_wf(mid, value);
            },
            TableOp::Remove { handle: other } => {
                lemma_remove_keeps_wf(mid, other);
            },
        }
        assert forall|n: int| 0 <= n < ops.len() implies #[trigger] table.apply_all(
            ops.take(n),
        ).next_handle::<T>() != handle by {
            if n < before.len() {
                assert(ops.take(n) =~= before.take(n));
            }
        }
    }
}

/// Generational safety. Once a handle has been removed, then after any
/// sequence of adds and removes that the address space has room for, a
/// lookup with it finds nothing, and no handle issued since equals it, not
/// even the one issued when its slot was reused.
pub proof fn lemma_removed_handle_stays_dead<T>(
    table: TableView<T>,
    handle: Handle<T>,
    ops: Seq<TableOp<T>>,
)
    requires
        table.wf(),
        table.contains(handle),
        table.slots.len() + ops.len() <= usize::MAX,
    ensures
        table.remove(handle).apply_all(ops).wf(),
        !table.remove(handle).apply_all(ops).contains(handle),
        table.remove(handle).apply_all(ops).get(handle) is None,
        forall|n: int|
            0 <= n < ops.len() ==> #[trigger] table.remove(handle).apply_all(
                ops.take(n),
            ).next_handle::<T>() != handle,
{
    lemma_remove_keeps_wf(table, handle);
    lemma_retired_stays_retired(table.remove(handle), handle, ops);
}

/// No two live handles share a slot: a slot has one live handle at most.
pub proof fn lemma_one_live_handle_per_slot<T>(table: TableView<T>, a: Handle<T>, b: Handle<T>)
    requires
        table.contains(a),
        table.contains(b),
        a.index == b.index,
    ensures
        a == b,
{
}

/// Slot reuse. While the free list is not exhausted an add takes the most
/// recently freed slot, and the number of slots stays what it was.
pub proof fn lemma_add_reuses_free_slot<T>(table: TableView<T>, value: T)
    requires
        table.wf(),
        table.free.len() > 0,
    ensures
        table.add(value).slots.len() == table.slots.len(),
        table.add(value).free == table.free.drop_last(),
        table.next_handle::<T>().index == table.free.last(),
        table.add(value).contains(table.next_handle::<T>()),
{
}

/// Slot reuse after a removal. The add that follows the removal of a
/// handle lands in that handle's slot, one generation on, and the number
/// of slots stays what it was. A slot whose next generation would be the
/// last one is retired instead and is left out here.
pub proof fn lemma_add_reuses_removed_slot<T>(table: TableView<T>, handle: Handle<T>, value: T)
    requires
        table.wf(),
        table.contains(handle),
        handle.generation + 1 < MAX_GENERATION,
    ensures
        table.remove(handle).add(value).slots.len() == table.slots.len(),
        table.remove(handle).next_handle::<T>().index == handle.index,
        table.remove(handle).next_handle::<T>().generation == handle.generation + 1,
        table.remove(handle).add(value).get(handle) is None,
        table.remove(handle).add(value).get(table.remove(handle).next_handle::<T>()) == Some(
            value,
        ),
{
}

impl<T> Slot<T> {
    /// The slot with its value, if it has one, seen through `f`.
    pub open spec fn map_value<U>(self, f: spec_fn(T) -> U) -> Slot<U> {
        match self {
            Slot::Empty { generation } => Slot::Empty { generation },
            Slot::Occupied { generation, value } => Slot::Occupied { generation, value: f(value) },
        }
    }
}

impl<T> TableView<T> {
    /// The table with every stored value seen through `f`: same slots,
    /// same generations, same free list.
    pub open spec fn map_values<U>(self, f: spec_fn(T) -> U) -> TableView<U> {
        TableView {
            slots: Seq::new(self.slots.len(), |i: int| self.slots[i].map_value(f)),
            free: self.free,
        }
    }
}

/// Seeing the values of a well-formed table through a function changes
/// nothing about which handles are live, which slots are reusable or which
/// handle comes next, and commutes with every operation.
pub proof fn lemma_map_values<T, U, K>(table: TableView<T>, f: spec_fn(T) -> U, handle: Handle<K>)
    requires
        table.wf(),
    ensures
        table.map_values(f).slots.len() == table.slots.len(),
        table.map_values(f).free == table.free,
        table.map_values(f).wf(),
        table.map_values(f).contains(handle) == table.contains(handle),
        table.contains(handle) ==> table.map_values(f).value(handle) == f(table.value(handle)),
        table.map_values(f).next_handle::<K>() == table.next_handle::<K>(),
        table.map_values(f).remove(handle) == table.remove(handle).map_values(f),
        forall|value: T| #[trigger]
            table.add(value).map_values(f) == table.map_values(f).add(f(value)),
        forall|value: T| #[trigger]
            table.set(handle, value).map_values(f) == table.map_values(f).set(handle, f(value)),
{
    let mapped = table.map_values(f);
    assert forall|i: int| mapped.reusable(i) == table.reusable(i) by {}
    assert(mapped.remove(handle).slots =~= table.remove(handle).map_values(f).slots);
    assert forall|value: T| #[trigger]
        table.add(value).map_values(f) == mapped.add(f(value)) by {
        assert(table.add(value).map_values(f).slots =~= mapped.add(f(value)).slots);
    }
    assert forall|value: T| #[trigger]
        table.set(handle, value).map_values(f) == mapped.set(handle, f(value)) by {
        assert(table.set(handle, value).map_values(f).slots =~= mapped.set(handle, f(value)).slots);
    }
}

/// A table is well-formed if it is so with its values seen through a
/// function.
pub proof fn lemma_map_values_reflects_wf<T, U>(table: TableView<T>, f: spec_fn(T) -> U)
    requires
        table.map_values(f).wf(),
    ensures
        table.wf(),
{
    let mapped = table.map_values(f);
    assert forall|i: int| mapped.reusable(i) == table.reusable(i) by {}
    assert forall|i: int|
        0 <= i < table.slots.len() && (#[trigger] table.slots[i]) is Occupied
        implies table.slots[i].stamp() < MAX_GENERATION by {
        assert(mapped.slots[i] is Occupied);
    }
}

} // verus!
