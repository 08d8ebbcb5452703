//! Queues of objects that a trace has found and not scanned yet.
use crate::util::address::ObjectReference;
use vstd::prelude::*;

verus! {

/// Takes the objects that a trace visits for the first time.
pub trait ObjectQueue {
    /// The objects queued so far, oldest first.
    spec fn queued(&self) -> Seq<ObjectReference>;

    fn enqueue(&mut self, object: ObjectReference)
        ensures
            final(self).queued() == old(self).queued().push(object),
    ;
}

/// A queue that keeps its objects in a vector.
pub struct VectorObjectQueue {
    pub buffer: Vec<ObjectReference>,
}

impl ObjectQueue for VectorObjectQueue {
    open spec fn queued(&self) -> Seq<ObjectReference> {
        self.buffer@
    }

    fn enqueue(&mut self, object: ObjectReference) {
        self.buffer.push(object);
    }
}

impl VectorObjectQueue {
    pub fn new() -> (q: Self)
        ensures
            q.queued() == Seq::<ObjectReference>::empty(),
    {
        VectorObjectQueue { buffer: Vec::new() }
    }

    /// Hands out everything queued so far and leaves the queue empty.
    pub fn take(&mut self) -> (objects: Vec<ObjectReference>)
        ensures
            objects@ == old(self).queued(),
            final(self).queued() == Seq::<ObjectReference>::empty(),
    {
        let mut objects: Vec<ObjectReference> = Vec::new();
        std::mem::swap(&mut objects, &mut self.buffer);
        objects
    }
}

} // verus!
