//! The handle registry: a table that issues and retires the opaque 64-bit
//! handles by which the host names its long-lived objects.
//!
//! A handle packs the position of a slot and the generation of its
//! occupant. Closing a handle empties the slot and raises its generation,
//! so a handle that was closed, or never issued, is told apart from every
//! live one and refused.

use vstd::prelude::*;
use vstd::string::*;
use crate::error::{ErrorModel, ParquetNativeError};

verus! {

/// Number of handles that one slot position can tell apart by generation,
/// and one more than the number of slot positions.
pub const HANDLE_RADIX: u64 = 0x1_0000_0000;

/// The handle that names generation `generation` of slot `index`.
pub open spec fn handle_of(index: int, generation: int) -> int {
    generation * HANDLE_RADIX + index + 1
}

/// The slot position that a handle names; -1 for a handle that names none.
pub open spec fn index_of(handle: u64) -> int {
    handle % HANDLE_RADIX - 1
}

/// The generation that a handle names.
pub open spec fn generation_of(handle: u64) -> int {
    handle as int / HANDLE_RADIX as int
}

/// Every handle is the packing of the position and the generation that it
/// names, so two handles that name the same are one.
pub proof fn lemma_handle_is_packed(handle: u64)
    ensures
        handle == handle_of(index_of(handle), generation_of(handle)),
{
}

/// Text of the error that a full table gives.
pub open spec fn full_message() -> Seq<char> {
    "the handle table is full"@
}

struct Slot<T> {
    generation: u32,
    value: Option<T>,
}

/// A table of objects of one sort, each under the handle that `open` gave
/// for it. Zero is never a handle of the table.
pub struct HandleTable<T> {
    slots: Vec<Slot<T>>,
}

impl<T> View for HandleTable<T> {
    type V = Map<u64, T>;

    /// The live handles and the object that each stands for.
    closed spec fn view(&self) -> Map<u64, T> {
        Map::new(|h: u64| self.occupies(h), |h: u64| self.slots@[index_of(h)].value->0)
    }
}

impl<T> HandleTable<T> {
    spec fn occupies(&self, handle: u64) -> bool {
        &&& 0 <= index_of(handle) < self.slots@.len()
        &&& self.slots@[index_of(handle)].value is Some
        &&& self.slots@[index_of(handle)].generation == generation_of(handle)
    }

    #[verifier::type_invariant]
    spec fn well_formed(&self) -> bool {
        &&& self.slots@.len() < HANDLE_RADIX
        &&& forall|i: int|
            0 <= i < self.slots@.len() && (#[trigger] self.slots@[i]).value is Some
                ==> self.slots@[i].generation < u32::MAX
    }

    /// Whether the handle was given out by some `open` of this table, be it
    /// live or closed since.
    pub closed spec fn ever_issued(&self, handle: u64) -> bool {
        &&& 0 <= index_of(handle) < self.slots@.len()
        &&& {
            ||| generation_of(handle) < self.slots@[index_of(handle)].generation
            ||| self.occupies(handle)
        }
    }

    /// Whether no further handle can be issued: every slot position is in
    /// use or has run through all its generations.
    pub closed spec fn is_full(&self) -> bool {
        &&& self.slots@.len() == HANDLE_RADIX - 1
        &&& forall|i: int|
            0 <= i < self.slots@.len() ==> {
                ||| (#[trigger] self.slots@[i]).value is Some
                ||| self.slots@[i].generation == u32::MAX
            }
    }

    /// A table without handles.
    pub fn new() -> (table: HandleTable<T>)
        ensures
            table@ == Map::<u64, T>::empty(),
            forall|h: u64| !table.ever_issued(h),
            !table.is_full(),
    {
        let table = HandleTable { slots: Vec::new() };
        assert(table@ =~= Map::<u64, T>::empty());
        table
    }

    /// Zero is never live, and every live handle was issued.
    pub proof fn lemma_live_handles(&self)
        ensures
            !self@.contains_key(0),
            forall|h: u64| self@.contains_key(h) ==> self.ever_issued(h),
    {
    }

    /// Two distinct live handles name distinct slots: no two live handles
    /// stand for the same object.
    pub proof fn lemma_live_handles_do_not_alias(&self, a: u64, b: u64)
        requires
            self@.contains_key(a),
            self@.contains_key(b),
            a != b,
        ensures
            index_of(a) != index_of(b),
    {
        if index_of(a) == index_of(b) {
            lemma_handle_is_packed(a);
            lemma_handle_is_packed(b);
        }
    }

    /// Puts an object into the table and returns its handle: non-zero and
    /// never issued before. The handles that were live stay live, with their
    /// objects; those that were closed stay closed. Only a full table
    /// refuses: the object is dropped and nothing changes.
    pub fn open(&mut self, value: T) -> (handle: Result<u64, ParquetNativeError>)
        ensures
            match handle {
                Ok(h) => {
                    &&& !old(self).is_full()
                    &&& h != 0
                    &&& 0 <= index_of(h) < HANDLE_RADIX - 1
                    &&& !old(self).ever_issued(h)
                    &&& final(self)@ == old(self)@.insert(h, value)
                    &&& forall|g: u64|
                        final(self).ever_issued(g) <==> old(self).ever_issued(g) || g == h
                },
                Err(e) => {
                    &&& old(self).is_full()
                    &&& e@ == ErrorModel::IO(full_message())
                    &&& final(self)@ == old(self)@
                    &&& forall|g: u64| final(self).ever_issued(g) <==> old(self).ever_issued(g)
                },
            },
    {
        proof {
            use_type_invariant(&*self);
        }
        let mut i: usize = 0;
        while i < self.slots.len()
            invariant
                i <= self.slots@.len(),
                *self == *old(self),
                self.slots@.len() < HANDLE_RADIX,
                forall|j: int|
                    0 <= j < i ==> {
                        ||| (#[trigger] self.slots@[j]).value is Some
                        ||| self.slots@[j].generation == u32::MAX
                    },
            decreases self.slots@.len() - i,
        {
            if self.slots[i].value.is_none() && self.slots[i].generation < u32::MAX {
                let generation = self.slots[i].generation;
                let handle: u64 = generation as u64 * HANDLE_RADIX + (i as u64 + 1);
                proof {
                    use_type_invariant(&*self);
                }
                assert(index_of(handle) == i && generation_of(handle) == generation);
                let mut slots: Vec<Slot<T>> = Vec::new();
                core::mem::swap(&mut self.slots, &mut slots);
                slots.set(i, Slot { generation, value: Some(value) });
                core::mem::swap(&mut self.slots, &mut slots);
                assert(self@ =~= old(self)@.insert(handle, value)) by {
                    assert forall|h: u64| self@.contains_key(h) <==> old(self)@.insert(
                        handle,
                        value,
                    ).contains_key(h) by {
                        lemma_handle_is_packed(h);
                    }
                }
                return Ok(handle);
            }
            i += 1;
        }
        if self.slots.len() as u64 >= HANDLE_RADIX - 1 {
            return Err(ParquetNativeError::IO(String::from_str("the handle table is full")));
        }
        let index = self.slots.len();
        let handle: u64 = index as u64 + 1;
        assert(index_of(handle) == index && generation_of(handle) == 0);
        let mut slots: Vec<Slot<T>> = Vec::new();
        core::mem::swap(&mut self.slots, &mut slots);
        slots.push(Slot { generation: 0, value: Some(value) });
        core::mem::swap(&mut self.slots, &mut slots);
        assert(self@ =~= old(self)@.insert(handle, value)) by {
            assert forall|h: u64| self@.contains_key(h) <==> old(self)@.insert(
                handle,
                value,
            ).contains_key(h) by {
                lemma_handle_is_packed(h);
            }
        }
        Ok(handle)
    }

    /// The object that a handle stands for; `None` for zero and for every
    /// handle that is not live.
    pub fn get(&self, handle: u64) -> (object: Option<&T>)
        ensures
            match object {
                Some(v) => self@.contains_key(handle) && *v == self@[handle],
                None => !self@.contains_key(handle),
            },
    {
        let low = handle % HANDLE_RADIX;
        if low == 0 {
            return None;
        }
        let index = (low - 1) as usize;
        if index >= self.slots.len() {
            return None;
        }
        let slot = &self.slots[index];
        if slot.generation as u64 != handle / HANDLE_RADIX {
            return None;
        }
        slot.value.as_ref()
    }

    /// The object that a handle stands for, or the null-handle error for
    /// zero and for every handle that is not live.
    pub fn resolve(&self, handle: u64) -> (object: Result<&T, ParquetNativeError>)
        ensures
            match object {
                Ok(v) => self@.contains_key(handle) && *v == self@[handle],
                Err(e) => !self@.contains_key(handle) && e@ == ErrorModel::Null,
            },
    {
        match self.get(handle) {
            Some(v) => Ok(v),
            None => Err(ParquetNativeError::Null),
        }
    }

    /// Puts another object under a live handle and hands out the one that
    /// was there. For zero and for every handle that is not live the table
    /// stays as it is and the object comes back as the error.
    pub fn replace(&mut self, handle: u64, object: T) -> (result: Result<T, T>)
        ensures
            match result {
                Ok(v) => {
                    &&& old(self)@.contains_key(handle)
                    &&& v == old(self)@[handle]
                    &&& final(self)@ == old(self)@.insert(handle, object)
                },
                Err(v) => {
                    &&& !old(self)@.contains_key(handle)
                    &&& v == object
                    &&& final(self)@ == old(self)@
                },
            },
            forall|h: u64| old(self).ever_issued(h) <==> final(self).ever_issued(h),
    {
        proof {
            use_type_invariant(&*self);
        }
        let low = handle % HANDLE_RADIX;
        if low == 0 {
            return Err(object);
        }
        let index = (low - 1) as usize;
        if index >= self.slots.len() {
            return Err(object);
        }
        if self.slots[index].generation as u64 != handle / HANDLE_RADIX
            || self.slots[index].value.is_none() {
            return Err(object);
        }
        let generation = self.slots[index].generation;
        let mut slot = Slot { generation, value: Some(object) };
        let mut slots: Vec<Slot<T>> = Vec::new();
        core::mem::swap(&mut self.slots, &mut slots);
        slots.set_and_swap(index, &mut slot);
        core::mem::swap(&mut self.slots, &mut slots);
        assert(self@ =~= old(self)@.insert(handle, object)) by {
            assert forall|h: u64| self@.contains_key(h) <==> old(self)@.insert(
                handle,
                object,
            ).contains_key(h) by {
                lemma_handle_is_packed(h);
                lemma_handle_is_packed(handle);
            }
        }
        Ok(slot.value.unwrap())
    }

    /// Closes a handle and hands out its object. Zero is no handle: nothing
    /// happens. A live handle leaves the table for good, and every other
    /// handle is as before. A handle that is not live, closed earlier or
    /// never issued, is refused with the null-handle error, and nothing
    /// changes.
    pub fn close(&mut self, handle: u64) -> (result: Result<Option<T>, ParquetNativeError>)
        ensures
            handle == 0 ==> result matches Ok(None),
            match result {
                Ok(Some(v)) => {
                    &&& old(self)@.contains_key(handle)
                    &&& v == old(self)@[handle]
                    &&& final(self)@ == old(self)@.remove(handle)
                },
                Ok(None) => handle == 0 && final(self)@ == old(self)@,
                Err(e) => {
                    &&& handle != 0
                    &&& !old(self)@.contains_key(handle)
                    &&& e@ == ErrorModel::Null
                    &&& final(self)@ == old(self)@
                },
            },
            forall|h: u64| old(self).ever_issued(h) <==> final(self).ever_issued(h),
    {
        proof {
            use_type_invariant(&*self);
        }
        if handle == 0 {
            return Ok(None);
        }
        let low = handle % HANDLE_RADIX;
        if low == 0 {
            return Err(ParquetNativeError::Null);
        }
        let index = (low - 1) as usize;
        if index >= self.slots.len() {
            return Err(ParquetNativeError::Null);
        }
        if self.slots[index].generation as u64 != handle / HANDLE_RADIX
            || self.slots[index].value.is_none() {
            return Err(ParquetNativeError::Null);
        }
        let generation = self.slots[index].generation;
        let mut slot = Slot { generation: generation + 1, value: None };
        let mut slots: Vec<Slot<T>> = Vec::new();
        core::mem::swap(&mut self.slots, &mut slots);
        slots.set_and_swap(index, &mut slot);
        core::mem::swap(&mut self.slots, &mut slots);
        assert(self@ =~= old(self)@.remove(handle)) by {
            assert forall|h: u64| self@.contains_key(h) <==> old(self)@.remove(
                handle,
            ).contains_key(h) by {
                lemma_handle_is_packed(h);
                lemma_handle_is_packed(handle);
            }
        }
        Ok(slot.value)
    }
}

} // verus!
