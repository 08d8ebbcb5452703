//! The virtual machine of the tests.
use crate::plan::global::Plan;
use crate::policy::immix::block::Block;
use crate::policy::lxr::immixspace::ImmixHooks;
use crate::scheduler::gc_work::{ProcessEdgesWork, EDGES_CAPACITY};
use crate::util::address::ObjectReference;
use crate::vm::active_plan::ActivePlan;
use crate::vm::binding::VMBinding;
use crate::vm::object_model::{CopySemantics, ObjectModel};
use crate::vm::reference_glue::ReferenceGlue;
use std::collections::{HashMap, HashSet};
use vstd::prelude::*;

verus! {

/// A virtual machine without code, only with threads and objects.
pub struct MockVM {
    /// The sizes of the objects, by their addresses. Any other object has the default size.
    pub sizes: HashMap<usize, usize>,
    pub default_size: usize,
    /// Where the next copy goes.
    pub copy_cursor: usize,
    /// Where there is no more room for copies.
    pub copy_limit: usize,
    /// The threads that have mutators.
    pub mutator_threads: Vec<usize>,
    /// How many of them the iterator has handed out.
    pub next_mutator: usize,
    /// What the reference objects refer to, by their addresses.
    pub referents: HashMap<usize, usize>,
    /// The lists of cleared references received, each with the thread that it came from.
    pub received: Vec<(Vec<ObjectReference>, usize)>,
}

impl VMBinding for MockVM {
    const MIN_ALIGNMENT: usize = 4;

    const MAX_ALIGNMENT: usize = 64;
}

/// The alignments of the virtual machine: multiples of 4 bytes, up to 64.
pub proof fn lemma_alignments()
    ensures
        MockVM::MIN_ALIGNMENT == 4,
        MockVM::MAX_ALIGNMENT == 64,
{
}

impl MockVM {
    /// A virtual machine whose objects have `default_size` bytes, with room for copies from
    /// `copy_cursor` up to `copy_limit`.
    pub fn new(default_size: usize, copy_cursor: usize, copy_limit: usize) -> (vm: Self)
        ensures
            vm.sizes@ == Map::<usize, usize>::empty(),
            vm.default_size == default_size,
            vm.copy_cursor == copy_cursor,
            vm.copy_limit == copy_limit,
            vm.mutator_threads@ == Seq::<usize>::empty(),
            vm.next_mutator == 0,
            vm.referents@ == Map::<usize, usize>::empty(),
            vm.received@ == Seq::<(Vec<ObjectReference>, usize)>::empty(),
    {
        MockVM {
            sizes: HashMap::new(),
            default_size,
            copy_cursor,
            copy_limit,
            mutator_threads: Vec::new(),
            next_mutator: 0,
            referents: HashMap::new(),
            received: Vec::new(),
        }
    }
}

impl ObjectModel for MockVM {
    open spec fn size_of(&self, object: ObjectReference) -> nat {
        if self.sizes@.contains_key(object.0) {
            self.sizes@[object.0] as nat
        } else {
            self.default_size as nat
        }
    }

    open spec fn copy_target(&self, from: ObjectReference, semantics: CopySemantics) -> Option<
        ObjectReference,
    > {
        if self.copy_cursor <= self.copy_limit && self.size_of(from) <= self.copy_limit
            - self.copy_cursor {
            Some(ObjectReference(self.copy_cursor))
        } else {
            None
        }
    }

    open spec fn copied(
        before: Self,
        from: ObjectReference,
        semantics: CopySemantics,
        after: Self,
    ) -> bool {
        match before.copy_target(from, semantics) {
            Some(to) => {
                &&& after == (MockVM {
                    copy_cursor: (before.copy_cursor + before.size_of(from)) as usize,
                    sizes: after.sizes,
                    ..before
                })
                &&& after.sizes@ == before.sizes@.insert(to.0, before.size_of(from) as usize)
            },
            None => after == before,
        }
    }

    fn get_size(&self, object: ObjectReference) -> (size: usize) {
        match self.sizes.get(&object.0) {
            Some(size) => *size,
            None => self.default_size,
        }
    }

    fn try_copy(&mut self, from: ObjectReference, _semantics: CopySemantics) -> (to: Option<
        ObjectReference,
    >) {
        let size: usize = self.get_size(from);
        if self.copy_cursor <= self.copy_limit && size <= self.copy_limit - self.copy_cursor {
            let to: usize = self.copy_cursor;
            self.copy_cursor = to + size;
            let _ = self.sizes.insert(to, size);
            Some(ObjectReference(to))
        } else {
            None
        }
    }
}

impl ReferenceGlue for MockVM {
    open spec fn referent_of(&self, reference: ObjectReference) -> ObjectReference {
        if self.referents@.contains_key(reference.0) {
            ObjectReference(self.referents@[reference.0])
        } else {
            ObjectReference(0)
        }
    }

    open spec fn in_any_space(&self, object: ObjectReference) -> bool {
        object@ != 0
    }

    open spec fn delivered(&self) -> Seq<(Seq<ObjectReference>, usize)> {
        self.received@.map_values(|v: (Vec<ObjectReference>, usize)| (v.0@, v.1))
    }

    fn enqueue_references(&mut self, references: &Vec<ObjectReference>, tls: usize) {
        let mut list: Vec<ObjectReference> = Vec::new();
        let mut i: usize = 0;
        while i < references.len()
            invariant
                i <= references@.len(),
                list@ == references@.take(i as int),
            decreases references@.len() - i,
        {
            list.push(references[i]);
            assert(references@.take(i + 1) == references@.take(i as int).push(
                references@[i as int],
            ));
            i += 1;
        }
        assert(references@.take(i as int) == references@);
        self.received.push((list, tls));
        assert(self.delivered() =~= old(self).delivered().push((references@, tls)));
    }
}

impl ActivePlan for MockVM {
    open spec fn threads(&self) -> Seq<usize> {
        self.mutator_threads@
    }

    open spec fn position(&self) -> nat {
        self.next_mutator as nat
    }

    fn is_mutator(&self, tls: usize) -> (b: bool) {
        let mut i: usize = 0;
        while i < self.mutator_threads.len()
            invariant
                i <= self.mutator_threads@.len(),
                forall|j: int| 0 <= j < i ==> self.mutator_threads@[j] != tls,
            decreases self.mutator_threads@.len() - i,
        {
            if self.mutator_threads[i] == tls {
                return true;
            }
            i += 1;
        }
        false
    }

    fn reset_mutator_iterator(&mut self) {
        self.next_mutator = 0;
    }

    fn get_next_mutator(&mut self) -> (m: Option<usize>) {
        if self.next_mutator < self.mutator_threads.len() {
            let m: usize = self.mutator_threads[self.next_mutator];
            self.next_mutator = self.next_mutator + 1;
            Some(m)
        } else {
            None
        }
    }

    fn number_of_mutators(&self) -> (n: usize) {
        self.mutator_threads.len()
    }
}

/// A plan that says what it is told to.
#[derive(Copy, Clone)]
pub struct MockPlan {
    pub reserved_pages: usize,
    pub mature_reserved_pages: usize,
    pub collection_reserved_pages: usize,
    pub generational: bool,
    pub nursery_collection: bool,
    /// More reserved pages than this call for a collection.
    pub collection_threshold: usize,
    pub requested: bool,
}

impl Plan for MockPlan {
    open spec fn wants_collection(&self, space_full: bool, space: Option<&'static str>) -> bool {
        space_full || self.reserved_pages > self.collection_threshold
    }

    open spec fn reserved(&self) -> usize {
        self.reserved_pages
    }

    open spec fn mature_reserved(&self) -> usize {
        self.mature_reserved_pages
    }

    open spec fn collection_reserved(&self) -> usize {
        self.collection_reserved_pages
    }

    open spec fn is_generational(&self) -> bool {
        self.generational
    }

    open spec fn nursery_gc(&self) -> bool {
        self.nursery_collection
    }

    open spec fn gc_requested(&self) -> bool {
        self.requested
    }

    fn collection_required(&self, space_full: bool, _space: Option<&'static str>) -> (b: bool) {
        space_full || self.reserved_pages > self.collection_threshold
    }

    fn get_reserved_pages(&self) -> (n: usize) {
        self.reserved_pages
    }

    fn get_mature_reserved_pages(&self) -> (n: usize) {
        self.mature_reserved_pages
    }

    fn get_collection_reserved_pages(&self) -> (n: usize) {
        self.collection_reserved_pages
    }

    fn generational(&self) -> (b: bool) {
        self.generational
    }

    fn is_current_gc_nursery(&self) -> (b: bool) {
        self.nursery_collection
    }

    fn request_gc(&mut self) {
        self.requested = true;
    }
}

/// What a trace does with the objects it reaches.
#[derive(Copy, Clone, PartialEq, Eq, Structural, Debug)]
pub enum TraceMode {
    /// It leaves them where they are.
    InPlace,
    /// It copies them.
    Copying,
    /// It works out where they will go.
    Computing,
}

/// A trace over objects that are nothing but addresses.
pub struct MockTrace {
    pub mode: TraceMode,
    /// The addresses of the objects.
    pub objects: HashSet<usize>,
    /// The addresses of those known to be alive.
    pub live_objects: HashSet<usize>,
    /// What the reference objects refer to.
    pub referents: HashMap<usize, usize>,
    /// Where the objects traced are.
    pub forwarded: HashMap<usize, usize>,
    /// Where objects will go; the others stay.
    pub destinations: HashMap<usize, usize>,
    pub queue: Vec<ObjectReference>,
    /// The objects handed on, oldest first.
    pub handed_on: Vec<ObjectReference>,
    /// Where the next copy goes. Every object lies before it.
    pub cursor: usize,
}

impl MockTrace {
    /// A trace that copies objects from `cursor` on, if it copies them. There are no objects yet.
    pub fn new(mode: TraceMode, cursor: usize) -> (t: Self)
        requires
            cursor > 0,
        ensures
            t.wf(),
            t.mode == mode,
            t.cursor == cursor,
            t.objects@ == Set::<usize>::empty(),
            t.live_objects@ == Set::<usize>::empty(),
            t.referents@ == Map::<usize, usize>::empty(),
            t.forwarded@ == Map::<usize, usize>::empty(),
            t.destinations@ == Map::<usize, usize>::empty(),
            t.queue@ == Seq::<ObjectReference>::empty(),
            t.handed_on@ == Seq::<ObjectReference>::empty(),
    {
        MockTrace {
            mode,
            objects: HashSet::new(),
            live_objects: HashSet::new(),
            referents: HashMap::new(),
            forwarded: HashMap::new(),
            destinations: HashMap::new(),
            queue: Vec::new(),
            handed_on: Vec::new(),
            cursor,
        }
    }

    /// Adds an object, which refers to `referent` and is known to be alive or not.
    pub fn add_object(&mut self, object: ObjectReference, referent: ObjectReference, live: bool)
        requires
            old(self).wf(),
            0 < object@ < old(self).cursor,
            !old(self).is_object(object),
            !old(self).live_objects@.contains(object.0),
        ensures
            final(self).wf(),
            final(self).is_object(object),
            final(self).referent(object) == referent,
            final(self).live(object) == live,
            final(self).traced() == old(self).traced(),
            final(self).objects@ == old(self).objects@.insert(object.0),
    {
        let _ = self.objects.insert(object.0);
        let _ = self.referents.insert(object.0, referent.0);
        if live {
            let _ = self.live_objects.insert(object.0);
        }
    }
}

impl ProcessEdgesWork for MockTrace {
    type VM = MockVM;

    const CAPACITY: usize = EDGES_CAPACITY;

    open spec fn wf(&self) -> bool {
        &&& self.cursor > 0
        &&& forall|x: usize| #[trigger] self.objects@.contains(x) ==> 0 < x < self.cursor
        &&& forall|x: usize| #[trigger]
            self.forwarded@.contains_key(x) ==> self.live_objects@.contains(x)
                && self.live_objects@.contains(self.forwarded@[x]) && self.forwarded@[x] != 0
    }

    open spec fn is_object(&self, object: ObjectReference) -> bool {
        self.objects@.contains(object.0)
    }

    open spec fn live(&self, object: ObjectReference) -> bool {
        self.live_objects@.contains(object.0)
    }

    open spec fn referent(&self, reference: ObjectReference) -> ObjectReference {
        if self.referents@.contains_key(reference.0) {
            ObjectReference(self.referents@[reference.0])
        } else {
            ObjectReference(0)
        }
    }

    open spec fn traced(&self) -> Map<ObjectReference, ObjectReference> {
        Map::new(
            |o: ObjectReference| self.forwarded@.contains_key(o.0),
            |o: ObjectReference| ObjectReference(self.forwarded@[o.0]),
        )
    }

    open spec fn copies(&self) -> bool {
        self.mode != TraceMode::Computing
    }

    open spec fn nodes(&self) -> Seq<ObjectReference> {
        self.queue@
    }

    open spec fn handed_on(&self) -> Seq<ObjectReference> {
        self.handed_on@
    }

    fn process_node(&mut self, object: ObjectReference) {
        self.queue.push(object);
    }

    fn is_live(&self, object: ObjectReference) -> (b: bool) {
        self.live_objects.contains(&object.0)
    }

    fn get_referent(&self, reference: ObjectReference) -> (referent: ObjectReference) {
        match self.referents.get(&reference.0) {
            Some(referent) => ObjectReference(*referent),
            None => ObjectReference(0),
        }
    }

    fn set_referent(&mut self, reference: ObjectReference, referent: ObjectReference) {
        let _ = self.referents.insert(reference.0, referent.0);
    }

    fn clear_referent(&mut self, reference: ObjectReference) {
        let _ = self.referents.insert(reference.0, 0);
    }

    fn trace_object(&mut self, object: ObjectReference) -> (r: ObjectReference) {
        if object.is_null() {
            return object;
        }
        match self.forwarded.get(&object.0) {
            Some(to) => {
                assert(self.traced()[object] == ObjectReference(*to));
                return ObjectReference(*to);
            },
            None => {},
        }
        let to: usize = match self.mode {
            TraceMode::InPlace => object.0,
            TraceMode::Copying => {
                if self.cursor <= usize::MAX - 16 {
                    let to: usize = self.cursor;
                    let referent = self.get_referent(object);
                    let _ = self.objects.insert(to);
                    let _ = self.referents.insert(to, referent.0);
                    self.cursor = to + 16;
                    to
                } else {
                    object.0
                }
            },
            TraceMode::Computing => match self.destinations.get(&object.0) {
                Some(to) => if *to != 0 {
                    *to
                } else {
                    object.0
                },
                None => object.0,
            },
        };
        let _ = self.live_objects.insert(object.0);
        let _ = self.live_objects.insert(to);
        let _ = self.forwarded.insert(object.0, to);
        self.queue.push(ObjectReference(to));
        assert(self.traced() =~= old(self).traced().insert(object, ObjectReference(to)));
        ObjectReference(to)
    }

    fn flush(&mut self) {
        self.handed_on.append(&mut self.queue);
    }
}

/// Hooks that record the blocks they are told of, each with whether it was taken for copies.
pub struct MockHooks {
    pub clean: Vec<(Block, bool)>,
    pub reused: Vec<(Block, bool)>,
    /// Whether a trace is in progress.
    pub tracing: bool,
}

impl MockHooks {
    pub fn new(tracing: bool) -> (hooks: Self)
        ensures
            hooks.clean@ == Seq::<(Block, bool)>::empty(),
            hooks.reused@ == Seq::<(Block, bool)>::empty(),
            hooks.tracing == tracing,
    {
        MockHooks { clean: Vec::new(), reused: Vec::new(), tracing }
    }
}

impl ImmixHooks for MockHooks {
    open spec fn clean_block_noted(before: Self, block: Block, copy: bool, after: Self) -> bool {
        &&& after.clean@ == before.clean@.push((block, copy))
        &&& after.reused == before.reused
        &&& after.tracing == before.tracing
    }

    open spec fn reusable_block_noted(before: Self, block: Block, copy: bool, after: Self) -> bool {
        &&& after.clean == before.clean
        &&& after.reused@ == before.reused@.push((block, copy))
        &&& after.tracing == before.tracing
    }

    open spec fn cm_in_progress(&self) -> bool {
        self.tracing
    }

    fn on_clean_block_acquired(&mut self, block: Block, copy: bool) {
        self.clean.push((block, copy));
    }

    fn on_reusable_block_acquired(&mut self, block: Block, copy: bool) {
        self.reused.push((block, copy));
    }

    fn cm_in_progress_or_final_mark(&self) -> (b: bool) {
        self.tracing
    }
}

} // verus!
