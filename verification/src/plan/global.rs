//! What other parts of the collector ask a plan.
use vstd::prelude::*;

verus! {

/// A plan: the policy by which the heap is divided and collected.
pub trait Plan: Sized {
    /// Whether the plan wants a collection. `space_full` says that the space with the given name,
    /// if there is one, ran out of memory.
    spec fn wants_collection(&self, space_full: bool, space: Option<&'static str>) -> bool;

    /// The pages in use, with those that a collection needs.
    spec fn reserved(&self) -> usize;

    /// The pages in use for old objects.
    spec fn mature_reserved(&self) -> usize;

    /// The pages that a collection needs for copies.
    spec fn collection_reserved(&self) -> usize;

    /// Whether the plan collects new objects apart from old ones.
    spec fn is_generational(&self) -> bool;

    /// Whether the current collection is one of new objects only.
    spec fn nursery_gc(&self) -> bool;

    /// Whether a collection has been requested.
    spec fn gc_requested(&self) -> bool;

    fn collection_required(&self, space_full: bool, space: Option<&'static str>) -> (b: bool)
        ensures
            b == self.wants_collection(space_full, space),
    ;

    fn get_reserved_pages(&self) -> (n: usize)
        ensures
            n == self.reserved(),
    ;

    fn get_mature_reserved_pages(&self) -> (n: usize)
        ensures
            n == self.mature_reserved(),
    ;

    fn get_collection_reserved_pages(&self) -> (n: usize)
        ensures
            n == self.collection_reserved(),
    ;

    fn generational(&self) -> (b: bool)
        ensures
            b == self.is_generational(),
    ;

    fn is_current_gc_nursery(&self) -> (b: bool)
        ensures
            b == self.nursery_gc(),
    ;

    /// Requests a collection.
    fn request_gc(&mut self)
        ensures
            final(self).gc_requested(),
            final(self).reserved() == old(self).reserved(),
            final(self).mature_reserved() == old(self).mature_reserved(),
            final(self).collection_reserved() == old(self).collection_reserved(),
            final(self).is_generational() == old(self).is_generational(),
            final(self).nursery_gc() == old(self).nursery_gc(),
    ;
}

/// Whether `after` is `before` with a collection requested, as far as one can ask a plan.
pub open spec fn gc_request_made<P: Plan>(before: P, after: P) -> bool {
    &&& after.gc_requested()
    &&& after.reserved() == before.reserved()
    &&& after.mature_reserved() == before.mature_reserved()
    &&& after.collection_reserved() == before.collection_reserved()
    &&& after.is_generational() == before.is_generational()
    &&& after.nursery_gc() == before.nursery_gc()
}

} // verus!
