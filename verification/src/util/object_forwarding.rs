//! Forwarding: where an object has been moved to.
use crate::util::address::ObjectReference;
use crate::util::metadata::side_metadata::SideTable;
use crate::vm::object_model::{CopySemantics, ObjectModel};
use vstd::prelude::*;

verus! {

/// Nobody has started to move the object.
pub const FORWARDING_NOT_TRIGGERED_YET: u8 = 0b00;

/// Somebody is moving the object.
pub const BEING_FORWARDED: u8 = 0b10;

/// The object has been moved, and its forwarding pointer is valid.
pub const FORWARDED: u8 = 0b11;

pub open spec fn forwarded_or_being_forwarded(status: u8) -> bool {
    status == BEING_FORWARDED || status == FORWARDED
}

/// Whether `status` says that the object was moved or is being moved.
pub fn state_is_forwarded_or_being_forwarded(status: u8) -> (b: bool)
    ensures
        b == forwarded_or_being_forwarded(status),
{
    status == BEING_FORWARDED || status == FORWARDED
}

/// The forwarding status and the forwarding pointer of each object in the memory from `start` on.
pub struct ForwardingTable {
    pub start: usize,
    /// One status per granule.
    pub status: SideTable,
    /// One pointer per granule.
    pub pointers: Vec<usize>,
}

impl ForwardingTable {
    pub open spec fn wf(&self) -> bool {
        self.pointers@.len() == self.status@.len()
    }

    pub open spec fn covers(&self, object: ObjectReference) -> bool {
        self.start <= object@ < self.start + self.status@.len() * 16
    }

    pub open spec fn granule(&self, object: ObjectReference) -> int {
        (object@ - self.start) / 16
    }

    pub open spec fn status_of(&self, object: ObjectReference) -> u8 {
        self.status@[self.granule(object)]
    }

    pub open spec fn forwarded(&self, object: ObjectReference) -> bool {
        self.status_of(object) == FORWARDED
    }

    /// Where `object` was moved to; means something only if it was moved.
    pub open spec fn pointer_of(&self, object: ObjectReference) -> ObjectReference {
        ObjectReference(self.pointers@[self.granule(object)])
    }

    /// Nobody has moved, or is moving, anything.
    pub fn new(start: usize, granules: usize) -> (t: Self)
        ensures
            t.wf(),
            t.start == start,
            t.status@ == Seq::new(granules as nat, |i: int| FORWARDING_NOT_TRIGGERED_YET),
            t.pointers@ == Seq::new(granules as nat, |i: int| 0usize),
    {
        let status = SideTable::new(granules);
        let mut pointers: Vec<usize> = Vec::new();
        let mut i: usize = 0;
        while i < granules
            invariant
                i <= granules,
                pointers@ == Seq::new(i as nat, |j: int| 0usize),
            decreases granules - i,
        {
            pointers.push(0);
            i += 1;
        }
        ForwardingTable { start, status, pointers }
    }

    pub fn is_forwarded(&self, object: ObjectReference) -> (b: bool)
        requires
            self.wf(),
            self.covers(object),
        ensures
            b == self.forwarded(object),
    {
        self.status.load((object.0 - self.start) / 16) == FORWARDED
    }

    pub fn read_forwarding_pointer(&self, object: ObjectReference) -> (o: ObjectReference)
        requires
            self.wf(),
            self.covers(object),
        ensures
            o == self.pointer_of(object),
    {
        ObjectReference(self.pointers[(object.0 - self.start) / 16])
    }

    /// Claims the right to move `object` where nobody has it yet, and returns the status that it
    /// had before.
    pub fn attempt_to_forward(&mut self, object: ObjectReference) -> (status: u8)
        requires
            old(self).wf(),
            old(self).covers(object),
        ensures
            final(self).wf(),
            status == old(self).status_of(object),
            status == FORWARDING_NOT_TRIGGERED_YET ==> *final(self) == (ForwardingTable {
                status: final(self).status,
                ..*old(self)
            }) && final(self).status@ == old(self).status@.update(
                old(self).granule(object),
                BEING_FORWARDED,
            ),
            status != FORWARDING_NOT_TRIGGERED_YET ==> *final(self) == *old(self),
    {
        let i: usize = (object.0 - self.start) / 16;
        let status: u8 = self.status.load(i);
        if status == FORWARDING_NOT_TRIGGERED_YET {
            self.status.store(i, BEING_FORWARDED);
        }
        status
    }

    /// Where `object`, whose status was `status`, has been moved to. It must not be on its way.
    pub fn spin_and_get_forwarded_object(&self, object: ObjectReference, status: u8) -> (o:
        ObjectReference)
        requires
            self.wf(),
            self.covers(object),
            forwarded_or_being_forwarded(status),
            self.status_of(object) != BEING_FORWARDED,
        ensures
            self.forwarded(object) ==> o == self.pointer_of(object),
            !self.forwarded(object) ==> o == object,
    {
        if self.is_forwarded(object) {
            self.read_forwarding_pointer(object)
        } else {
            object
        }
    }

    /// Moves `object`, which the caller has the right to move, to where the object model puts it,
    /// and records the new place. Gives the right back where there is no room for a copy.
    pub fn try_forward_object<VM: ObjectModel>(
        &mut self,
        object: ObjectReference,
        semantics: CopySemantics,
        vm: &mut VM,
    ) -> (new: Option<ObjectReference>)
        requires
            old(self).wf(),
            old(self).covers(object),
            old(self).status_of(object) == BEING_FORWARDED,
        ensures
            final(self).wf(),
            final(self).start == old(self).start,
            new == old(vm).copy_target(object, semantics),
            VM::copied(*old(vm), object, semantics, *final(vm)),
            new matches Some(to) ==> final(vm).size_of(to) == old(vm).size_of(object)
                && final(self).status@ == old(self).status@.update(
                old(self).granule(object),
                FORWARDED,
            ) && final(self).pointers@ == old(self).pointers@.update(
                old(self).granule(object),
                to.0,
            ),
            new is None ==> final(self).pointers == old(self).pointers && final(self).status@
                == old(self).status@.update(
                old(self).granule(object),
                FORWARDING_NOT_TRIGGERED_YET,
            ),
    {
        let i: usize = (object.0 - self.start) / 16;
        match vm.try_copy(object, semantics) {
            Some(to) => {
                self.pointers.set(i, to.0);
                self.status.store(i, FORWARDED);
                Some(to)
            },
            None => {
                self.status.store(i, FORWARDING_NOT_TRIGGERED_YET);
                None
            },
        }
    }
}

} // verus!
