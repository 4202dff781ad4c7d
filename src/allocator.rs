//! The per-connection allocator of private services (capabilities).
//!
//! Slots only grow; a vacated slot's index goes on a free list and is the next
//! one handed out, so an id stays valid until it is released.
use vstd::prelude::*;
use crate::wire::bytes_eq;

verus! {

/// Reference to a private service held by a `PrivateServiceAllocator`.
#[derive(Debug)]
pub struct ServiceRef {
    /// Private service id
    pub service_id: usize,
    /// Private service checksum
    pub service_checksum: Vec<u8>,
}

impl ServiceRef {
    /// The reference is of a service whose checksum is `expected`.
    pub fn has_checksum(&self, expected: &[u8]) -> (r: bool)
        ensures
            r == (self.service_checksum@ == expected@),
    {
        bytes_eq(self.service_checksum.as_slice(), expected)
    }
}

/// Allocator for private services of type `S`.
pub struct PrivateServiceAllocator<S> {
    slots: Vec<Option<S>>,
    free_ids: Vec<usize>,
}

impl<S> PrivateServiceAllocator<S> {
    /// Contents of the slots, by index.
    pub closed spec fn slots(&self) -> Seq<Option<S>> {
        self.slots@
    }

    /// Indices vacated and not yet reused, most recent last.
    pub closed spec fn free_ids(&self) -> Seq<usize> {
        self.free_ids@
    }

    /// The free list holds exactly the empty slots, each once.
    pub closed spec fn wf(&self) -> bool {
        &&& forall|i: int|
            0 <= i < self.free_ids@.len() ==> {
                &&& #[trigger] self.free_ids@[i] < self.slots@.len()
                &&& self.slots@[self.free_ids@[i] as int] is None
            }
        &&& forall|i: int, j: int|
            0 <= i < j < self.free_ids@.len() ==> #[trigger] self.free_ids@[i]
                != #[trigger] self.free_ids@[j]
        &&& forall|k: int|
            0 <= k < self.slots@.len() && #[trigger] self.slots@[k] is None
                ==> self.free_ids@.contains(k as usize)
    }

    /// The service living at `id`, if any.
    pub open spec fn live(&self, id: int) -> Option<S> {
        if 0 <= id < self.slots().len() {
            self.slots()[id]
        } else {
            None
        }
    }

    /// The id that the next allocation takes.
    pub open spec fn next_id(&self) -> usize {
        if self.free_ids().len() > 0 {
            self.free_ids().last()
        } else {
            self.slots().len() as usize
        }
    }

    /// An allocator with no slots.
    pub fn new() -> (r: Self)
        ensures
            r.wf(),
            r.slots() == Seq::<Option<S>>::empty(),
            r.free_ids() == Seq::<usize>::empty(),
    {
        PrivateServiceAllocator { slots: Vec::new(), free_ids: Vec::new() }
    }

    /// Number of slots, live or vacated.
    pub fn slot_count(&self) -> (r: usize)
        ensures
            r == self.slots().len(),
    {
        self.slots.len()
    }

    /// Stores `service` and gives a reference to it carrying `checksum`. The
    /// most recently vacated slot is reused; with none, a slot is appended.
    pub fn allocate(&mut self, service: S, checksum: Vec<u8>) -> (r: ServiceRef)
        requires
            old(self).wf(),
            old(self).free_ids().len() > 0 || old(self).slots().len() < usize::MAX,
        ensures
            final(self).wf(),
            r.service_id == old(self).next_id(),
            r.service_checksum == checksum,
            old(self).free_ids().len() > 0 ==> {
                &&& final(self).slots() == old(self).slots().update(
                    r.service_id as int,
                    Some(service),
                )
                &&& final(self).free_ids() == old(self).free_ids().drop_last()
            },
            old(self).free_ids().len() == 0 ==> {
                &&& final(self).slots() == old(self).slots().push(Some(service))
                &&& final(self).free_ids() == old(self).free_ids()
            },
    {
        let ghost old_slots = self.slots@;
        let ghost old_free = self.free_ids@;
        match self.free_ids.pop() {
            Some(id) => {
                proof {
                    assert(old_free[old_free.len() - 1] == id);
                }
                self.slots.set(id, Some(service));
                proof {
                    assert forall|k: int|
                        0 <= k < self.slots@.len() && #[trigger] self.slots@[k] is None implies self.free_ids@.contains(
                        k as usize,
                    ) by {
                        assert(k != id);
                        assert(old_slots[k] is None);
                        assert(old_free.contains(k as usize));
                        let i = choose|i: int| 0 <= i < old_free.len() && old_free[i] == k as usize;
                        assert(i != old_free.len() - 1);
                        assert(self.free_ids@[i] == k as usize);
                    }
                    assert forall|i: int| 0 <= i < self.free_ids@.len() implies {
                        &&& #[trigger] self.free_ids@[i] < self.slots@.len()
                        &&& self.slots@[self.free_ids@[i] as int] is None
                    } by {
                        assert(old_free[i] == self.free_ids@[i]);
                        assert(old_free[i] != old_free[old_free.len() - 1]);
                    }
                }
                ServiceRef { service_id: id, service_checksum: checksum }
            },
            None => {
                let id = self.slots.len();
                self.slots.push(Some(service));
                proof {
                    assert forall|k: int|
                        0 <= k < self.slots@.len() && #[trigger] self.slots@[k] is None implies self.free_ids@.contains(
                        k as usize,
                    ) by {
                        assert(k < old_slots.len());
                        assert(old_slots[k] is None);
                    }
                }
                ServiceRef { service_id: id, service_checksum: checksum }
            },
        }
    }

    /// The service living at `id`, if any.
    pub fn get(&self, id: usize) -> (r: Option<&S>)
        ensures
            r is Some <==> self.live(id as int) is Some,
            r is Some ==> *r.unwrap() == self.live(id as int).unwrap(),
    {
        if id < self.slots.len() {
            match &self.slots[id] {
                Some(s) => Some(s),
                None => None,
            }
        } else {
            None
        }
    }

    /// Takes out the service living at `id` and puts `id` on the free list;
    /// with no service there, changes nothing and gives `None`.
    pub fn deallocate_by_id(&mut self, id: usize) -> (r: Option<S>)
        requires
            old(self).wf(),
        ensures
            final(self).wf(),
            r == old(self).live(id as int),
            r is Some ==> {
                &&& final(self).slots() == old(self).slots().update(id as int, None)
                &&& final(self).free_ids() == old(self).free_ids().push(id)
            },
            r is None ==> final(self).slots() == old(self).slots() && final(self).free_ids()
                == old(self).free_ids(),
    {
        if id >= self.slots.len() {
            return None;
        }
        let ghost old_slots = self.slots@;
        let ghost old_free = self.free_ids@;
        let taken = self.slots[id].take();
        proof {
            assert(self.slots@ == old_slots.update(id as int, None));
        }
        if taken.is_some() {
            self.free_ids.push(id);
            proof {
                assert forall|i: int, j: int|
                    0 <= i < j < self.free_ids@.len() implies #[trigger] self.free_ids@[i]
                    != #[trigger] self.free_ids@[j] by {
                    if j == old_free.len() {
                        assert(old_slots[old_free[i] as int] is None);
                    }
                }
                assert forall|k: int|
                    0 <= k < self.slots@.len() && #[trigger] self.slots@[k] is None implies self.free_ids@.contains(
                    k as usize,
                ) by {
                    if k == id {
                        assert(self.free_ids@[old_free.len() as int] == id);
                    } else {
                        assert(old_slots[k] is None);
                        let i = choose|i: int| 0 <= i < old_free.len() && old_free[i] == k as usize;
                        assert(self.free_ids@[i] == k as usize);
                    }
                }
            }
        } else {
            proof {
                assert(self.slots@ =~= old_slots);
            }
        }
        taken
    }

    /// Takes out the service that `service_ref` refers to.
    pub fn deallocate(&mut self, service_ref: ServiceRef) -> (r: Option<S>)
        requires
            old(self).wf(),
        ensures
            final(self).wf(),
            r == old(self).live(service_ref.service_id as int),
            r is Some ==> {
                &&& final(self).slots() == old(self).slots().update(
                    service_ref.service_id as int,
                    None,
                )
                &&& final(self).free_ids() == old(self).free_ids().push(service_ref.service_id)
            },
            r is None ==> final(self).slots() == old(self).slots() && final(self).free_ids()
                == old(self).free_ids(),
    {
        self.deallocate_by_id(service_ref.service_id)
    }
}

} // verus!
