//! Objects as the virtual machine lays them out.
use crate::util::address::ObjectReference;
use vstd::prelude::*;

verus! {

/// Why an object is copied.
#[derive(Copy, Clone, PartialEq, Eq, Structural, Debug)]
pub enum CopySemantics {
    DefaultCopy,
    DefaultCompact,
    Nursery,
    PromoteToMature,
    Mature,
}

/// How the virtual machine measures and copies objects.
pub trait ObjectModel: Sized {
    /// The size of `object` in bytes.
    spec fn size_of(&self, object: ObjectReference) -> nat;

    /// Where a copy of `from` would go now; nowhere if there is no room.
    spec fn copy_target(&self, from: ObjectReference, semantics: CopySemantics) -> Option<
        ObjectReference,
    >;

    /// What an attempt to copy `from` makes of the virtual machine `before`.
    spec fn copied(
        before: Self,
        from: ObjectReference,
        semantics: CopySemantics,
        after: Self,
    ) -> bool;

    fn get_size(&self, object: ObjectReference) -> (size: usize)
        ensures
            size == self.size_of(object),
    ;

    /// Copies `from`. The copy has the size of the object.
    fn try_copy(&mut self, from: ObjectReference, semantics: CopySemantics) -> (to: Option<
        ObjectReference,
    >)
        ensures
            to == old(self).copy_target(from, semantics),
            Self::copied(*old(self), from, semantics, *final(self)),
            to matches Some(o) ==> final(self).size_of(o) == old(self).size_of(from),
    ;
}

} // verus!
