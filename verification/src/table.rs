//! The object table: the slot store that the host keeps for native code.
//!
//! Native code cannot hold a host value, so the host keeps it in a slot and
//! hands out the slot's index, a handle. A slot is occupied or free. Storing
//! takes the slot that was freed last, or a new one where none is free, so the
//! number of a released handle comes back for an unrelated value.
use vstd::prelude::*;

verus! {

/// The most slots that a table can have: a handle is a `u32`.
pub open spec fn max_slots() -> int {
    u32::MAX + 1
}

/// What a table holds, as mathematics.
pub struct TableModel<V> {
    /// The occupied slots and the value in each.
    pub entries: Map<u32, V>,
    /// The free slots in the order in which they were released.
    pub free: Seq<u32>,
    /// The number of slots, occupied and free.
    pub slots: nat,
}

impl<V> TableModel<V> {
    /// Every slot is occupied or free and not both, and no free slot is listed twice.
    pub open spec fn wf(self) -> bool {
        &&& self.slots <= max_slots()
        &&& forall|h: u32| self.entries.contains_key(h) ==> h < self.slots
        &&& forall|i: int|
            0 <= i < self.free.len() ==> (#[trigger] self.free[i]) < self.slots
                && !self.entries.contains_key(self.free[i])
        &&& forall|i: int, j: int|
            0 <= i < j < self.free.len() ==> self.free[i] != self.free[j]
        &&& forall|h: u32|
            h < self.slots && !self.entries.contains_key(h) ==> self.free.contains(h)
    }

    /// The table with no slot.
    pub open spec fn empty() -> TableModel<V> {
        TableModel { entries: Map::empty(), free: Seq::empty(), slots: 0 }
    }

    /// The handle that the next store gives, or `None` where the table is full.
    pub open spec fn next_handle(self) -> Option<u32> {
        if self.free.len() > 0 {
            Some(self.free.last())
        } else if self.slots < max_slots() {
            Some(self.slots as u32)
        } else {
            None
        }
    }

    /// The table after `value` is stored: in the slot that was freed last, or
    /// in a new slot where none is free. A full table stays as it is.
    pub open spec fn stored(self, value: V) -> TableModel<V> {
        if self.free.len() > 0 {
            TableModel {
                entries: self.entries.insert(self.free.last(), value),
                free: self.free.drop_last(),
                slots: self.slots,
            }
        } else if self.slots < max_slots() {
            TableModel {
                entries: self.entries.insert(self.slots as u32, value),
                free: self.free,
                slots: self.slots + 1,
            }
        } else {
            self
        }
    }

    /// The table after `handle` is released: its slot is free. Where the slot
    /// is not occupied, the table stays as it is.
    pub open spec fn released(self, handle: u32) -> TableModel<V> {
        if self.entries.contains_key(handle) {
            TableModel {
                entries: self.entries.remove(handle),
                free: self.free.push(handle),
                slots: self.slots,
            }
        } else {
            self
        }
    }
}

/// A store of host values under integer handles.
pub struct ObjectTable<V> {
    slots: Vec<Option<V>>,
    free: Vec<u32>,
}

impl<V> ObjectTable<V> {
    /// What the table holds.
    pub closed spec fn model(&self) -> TableModel<V> {
        TableModel {
            entries: Map::new(
                |h: u32| h < self.slots.len() && self.slots[h as int] is Some,
                |h: u32| self.slots[h as int]->Some_0,
            ),
            free: self.free@,
            slots: self.slots.len() as nat,
        }
    }

    /// The table is in order: what it holds is well-formed.
    pub open spec fn wf(&self) -> bool {
        self.model().wf()
    }

    /// A table with no slot.
    pub fn new() -> (r: ObjectTable<V>)
        ensures
            r.wf(),
            r.model() == TableModel::<V>::empty(),
    {
        let r = ObjectTable { slots: Vec::new(), free: Vec::new() };
        assert(r.model().entries =~= Map::<u32, V>::empty());
        r
    }

    /// Stores `value` and returns its handle.
    ///
    /// The handle is that of the slot that was freed last, or of a new slot
    /// where none is free. It is never the handle of an occupied slot. Where
    /// every handle is in use, the table stays as it is and `value` comes back.
    pub fn store(&mut self, value: V) -> (r: Result<u32, V>)
        requires
            old(self).wf(),
        ensures
            final(self).wf(),
            final(self).model() == old(self).model().stored(value),
            r == (match old(self).model().next_handle() {
                Some(h) => Ok::<u32, V>(h),
                None => Err::<u32, V>(value),
            }),
    {
        let ghost before = self.model();
        proof {
            lemma_stored_wf(before, value);
        }
        match self.free.pop() {
            Some(h) => {
                self.slots.set(h as usize, Some(value));
                assert(self.model().entries =~= before.entries.insert(h, value));
                Ok(h)
            },
            None => {
                if self.slots.len() <= u32::MAX as usize {
                    let h: u32 = self.slots.len() as u32;
                    self.slots.push(Some(value));
                    assert(self.model().entries =~= before.entries.insert(h, value));
                    Ok(h)
                } else {
                    Err(value)
                }
            },
        }
    }

    /// The value at `handle`, or `None` where its slot is not occupied.
    pub fn load(&self, handle: u32) -> (r: Option<&V>)
        requires
            self.wf(),
        ensures
            r == (if self.model().entries.contains_key(handle) {
                Some(&self.model().entries[handle])
            } else {
                None
            }),
    {
        if (handle as usize) < self.slots.len() {
            self.slots[handle as usize].as_ref()
        } else {
            None
        }
    }

    /// Tells whether the slot of `handle` is occupied.
    pub fn holds(&self, handle: u32) -> (r: bool)
        requires
            self.wf(),
        ensures
            r == self.model().entries.contains_key(handle),
    {
        (handle as usize) < self.slots.len() && self.slots[handle as usize].is_some()
    }

    /// Frees the slot of `handle`, which the next store takes. Where the slot
    /// is not occupied, nothing changes.
    pub fn release(&mut self, handle: u32)
        requires
            old(self).wf(),
        ensures
            final(self).wf(),
            final(self).model() == old(self).model().released(handle),
    {
        let ghost before = self.model();
        proof {
            lemma_released_wf(before, handle);
        }
        if (handle as usize) < self.slots.len() && self.slots[handle as usize].is_some() {
            self.slots.set(handle as usize, None);
            self.free.push(handle);
            assert(self.model().entries =~= before.entries.remove(handle));
        }
    }
}

/// Storing keeps a table in order.
pub proof fn lemma_stored_wf<V>(m: TableModel<V>, value: V)
    requires
        m.wf(),
    ensures
        m.stored(value).wf(),
{
    let s = m.stored(value);
    assert forall|k: u32| k < s.slots && !s.entries.contains_key(k) implies s.free.contains(k) by {
        if m.free.len() > 0 {
            assert(m.free.contains(k));
            let i = choose|i: int| 0 <= i < m.free.len() && m.free[i] == k;
            assert(s.free[i] == k);
        }
    }
}

/// Releasing keeps a table in order.
pub proof fn lemma_released_wf<V>(m: TableModel<V>, handle: u32)
    requires
        m.wf(),
    ensures
        m.released(handle).wf(),
{
    let r = m.released(handle);
    assert forall|k: u32| k < r.slots && !r.entries.contains_key(k) implies r.free.contains(k) by {
        if m.entries.contains_key(handle) {
            if k == handle {
                assert(r.free[r.free.len() - 1] == k);
            } else {
                assert(m.free.contains(k));
                let i = choose|i: int| 0 <= i < m.free.len() && m.free[i] == k;
                assert(r.free[i] == k);
            }
        }
    }
}

/// A store never hands out the handle of an occupied slot, and leaves every
/// occupied slot as it was.
pub proof fn lemma_store_is_fresh<V>(m: TableModel<V>, value: V)
    requires
        m.wf(),
    ensures
        m.next_handle() matches Some(h) ==> !m.entries.contains_key(h) && m.stored(value).entries
            == m.entries.insert(h, value),
        m.next_handle() is None ==> m.stored(value) == m,
{
}

/// A handle that is released is the handle that the next store gives: the
/// number comes back, for whatever is stored next.
pub proof fn lemma_released_handle_is_reused<V>(m: TableModel<V>, handle: u32, value: V)
    requires
        m.wf(),
        m.entries.contains_key(handle),
    ensures
        m.released(handle).next_handle() == Some(handle),
        m.released(handle).stored(value).entries == m.entries.insert(handle, value),
        m.released(handle).stored(value).free == m.free,
{
}

/// Releasing a handle twice is releasing it once, and releasing touches no other slot.
pub proof fn lemma_release_is_local<V>(m: TableModel<V>, handle: u32, other: u32)
    requires
        m.wf(),
    ensures
        m.released(handle).released(handle) == m.released(handle),
        other != handle ==> (m.released(handle).entries.contains_key(other)
            <==> m.entries.contains_key(other)),
        other != handle && m.entries.contains_key(other) ==> m.released(handle).entries[other]
            == m.entries[other],
{
}

} // verus!
