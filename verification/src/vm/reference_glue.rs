//! Reference objects as the virtual machine sees them.
use crate::util::address::ObjectReference;
use vstd::prelude::*;

verus! {

/// What the virtual machine does with reference objects at the end of a collection.
pub trait ReferenceGlue {
    /// What `reference` refers to; null if it was cleared.
    spec fn referent_of(&self, reference: ObjectReference) -> ObjectReference;

    /// Whether `object` lies in a space of the heap.
    spec fn in_any_space(&self, object: ObjectReference) -> bool;

    /// The lists of references handed over so far, oldest first, each with the thread of the worker
    /// that handed it over.
    spec fn delivered(&self) -> Seq<(Seq<ObjectReference>, usize)>;

    /// Hands over references whose referents were cleared, on the thread `tls` of a worker.
    fn enqueue_references(&mut self, references: &Vec<ObjectReference>, tls: usize)
        ensures
            final(self).delivered() == old(self).delivered().push((references@, tls)),
            forall|x: ObjectReference| #[trigger]
                final(self).referent_of(x) == old(self).referent_of(x),
            forall|x: ObjectReference| #[trigger]
                final(self).in_any_space(x) == old(self).in_any_space(x),
    ;
}

} // verus!
