//! The work of tracing objects.
use crate::util::address::ObjectReference;
use vstd::prelude::*;

verus! {

/// How many slots a packet holds, unless the trace has its own number.
pub const EDGES_CAPACITY: usize = 4096;

/// A trace in progress, together with the references of the virtual machine that it sees.
///
/// An object is traced at most once; where it is after that is recorded for good. A trace either
/// leaves objects in place, or copies them to where no object was (`copies`), or only works out
/// where they will go.
pub trait ProcessEdgesWork: Sized {
    /// The virtual machine whose objects are traced.
    type VM;

    /// How many slots a packet holds.
    const CAPACITY: usize;

    spec fn wf(&self) -> bool;

    /// Whether there is an object at `object`.
    spec fn is_object(&self, object: ObjectReference) -> bool;

    /// Whether `object` is known to be alive.
    spec fn live(&self, object: ObjectReference) -> bool;

    /// What the reference object `reference` refers to; null if it was cleared.
    spec fn referent(&self, reference: ObjectReference) -> ObjectReference;

    /// The objects traced so far, each with where it is now.
    spec fn traced(&self) -> Map<ObjectReference, ObjectReference>;

    /// Whether an object that is moved is copied on the spot.
    spec fn copies(&self) -> bool;

    /// The objects found and not scanned yet, oldest first, each where it is now.
    spec fn nodes(&self) -> Seq<ObjectReference>;

    /// The objects handed on to other workers so far, oldest first.
    spec fn handed_on(&self) -> Seq<ObjectReference>;

    /// Queues `object` to be scanned.
    fn process_node(&mut self, object: ObjectReference)
        requires
            old(self).wf(),
        ensures
            final(self).wf(),
            final(self).nodes() == old(self).nodes().push(object),
            final(self).handed_on() == old(self).handed_on(),
            final(self).traced() == old(self).traced(),
            final(self).copies() == old(self).copies(),
            forall|x: ObjectReference|
                #[trigger] final(self).is_object(x) == old(self).is_object(x),
            forall|x: ObjectReference| #[trigger] final(self).live(x) == old(self).live(x),
            forall|x: ObjectReference| #[trigger]
                final(self).referent(x) == old(self).referent(x),
    ;

    fn is_live(&self, object: ObjectReference) -> (b: bool)
        requires
            self.wf(),
            self.is_object(object),
        ensures
            b == self.live(object),
    ;

    fn get_referent(&self, reference: ObjectReference) -> (referent: ObjectReference)
        requires
            self.wf(),
            self.is_object(reference),
        ensures
            referent == self.referent(reference),
    ;

    fn set_referent(&mut self, reference: ObjectReference, referent: ObjectReference)
        requires
            old(self).wf(),
            old(self).is_object(reference),
        ensures
            final(self).wf(),
            final(self).nodes() == old(self).nodes(),
            final(self).handed_on() == old(self).handed_on(),
            final(self).traced() == old(self).traced(),
            final(self).copies() == old(self).copies(),
            forall|x: ObjectReference|
                #[trigger] final(self).is_object(x) == old(self).is_object(x),
            forall|x: ObjectReference| #[trigger] final(self).live(x) == old(self).live(x),
            forall|x: ObjectReference| #[trigger]
                final(self).referent(x) == (if x == reference {
                    referent
                } else {
                    old(self).referent(x)
                }),
    ;

    fn clear_referent(&mut self, reference: ObjectReference)
        requires
            old(self).wf(),
            old(self).is_object(reference),
        ensures
            final(self).wf(),
            final(self).nodes() == old(self).nodes(),
            final(self).handed_on() == old(self).handed_on(),
            final(self).traced() == old(self).traced(),
            final(self).copies() == old(self).copies(),
            forall|x: ObjectReference|
                #[trigger] final(self).is_object(x) == old(self).is_object(x),
            forall|x: ObjectReference| #[trigger] final(self).live(x) == old(self).live(x),
            forall|x: ObjectReference| #[trigger]
                final(self).referent(x) == (if x == reference {
                    ObjectReference(0)
                } else {
                    old(self).referent(x)
                }),
    ;

    /// Keeps `object` alive, and returns where it is now. The null reference is handed back.
    fn trace_object(&mut self, object: ObjectReference) -> (r: ObjectReference)
        requires
            old(self).wf(),
            object@ == 0 || old(self).is_object(object),
        ensures
            final(self).wf(),
            final(self).copies() == old(self).copies(),
            final(self).handed_on() == old(self).handed_on(),
            final(self).nodes() == (if object@ == 0 || old(self).traced().contains_key(object) {
                old(self).nodes()
            } else {
                old(self).nodes().push(r)
            }),
            object@ == 0 ==> r@ == 0 && final(self).traced() == old(self).traced(),
            object@ != 0 ==> r@ != 0 && final(self).live(object) && final(self).live(r),
            object@ != 0 && old(self).traced().contains_key(object) ==> {
                &&& r == old(self).traced()[object]
                &&& final(self).traced() == old(self).traced()
                &&& forall|x: ObjectReference|
                    #[trigger] final(self).live(x) == old(self).live(x)
                &&& forall|x: ObjectReference|
                    #[trigger] final(self).is_object(x) == old(self).is_object(x)
            },
            object@ != 0 && !old(self).traced().contains_key(object) ==> final(self).traced()
                == old(self).traced().insert(object, r),
            object@ != 0 && !old(self).traced().contains_key(object) && old(self).copies() ==> (r
                == object || !old(self).is_object(r)) && final(self).is_object(r)
                && final(self).referent(r) == old(self).referent(object),
            forall|x: ObjectReference|
                old(self).is_object(x) ==> #[trigger] final(self).is_object(x),
            forall|x: ObjectReference|
                #[trigger] final(self).is_object(x) && x != r ==> old(self).is_object(x),
            forall|x: ObjectReference|
                old(self).is_object(x) && x != object && x != r ==> #[trigger] final(self).live(x)
                    == old(self).live(x),
            forall|x: ObjectReference|
                old(self).live(x) ==> #[trigger] final(self).live(x),
            forall|x: ObjectReference|
                old(self).is_object(x) ==> #[trigger] final(self).referent(x)
                    == old(self).referent(x),
    ;

    /// Hands the objects found and not scanned yet on to other workers.
    fn flush(&mut self)
        requires
            old(self).wf(),
        ensures
            final(self).wf(),
            final(self).nodes() == Seq::<ObjectReference>::empty(),
            final(self).handed_on() == old(self).handed_on() + old(self).nodes(),
            final(self).traced() == old(self).traced(),
            final(self).copies() == old(self).copies(),
            forall|x: ObjectReference|
                #[trigger] final(self).is_object(x) == old(self).is_object(x),
            forall|x: ObjectReference| #[trigger] final(self).live(x) == old(self).live(x),
            forall|x: ObjectReference| #[trigger]
                final(self).referent(x) == old(self).referent(x),
    ;
}

} // verus!
