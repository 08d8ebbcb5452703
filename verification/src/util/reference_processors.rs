//! The processors of all reference strengths together.
use crate::plan::status::PlanStatus;
use crate::scheduler::gc_work::ProcessEdgesWork;
use crate::util::address::ObjectReference;
use crate::util::reference_model::{
    forwardable, forwarded, forwarded_reference, handed_over, is_reference, lemma_forwarded_further,
    lemma_found_further, lemma_still_forwardable, nodes_found, retained, scannable, scanned,
};
use crate::util::reference_processor::{ReferenceProcessor, Semantics};
use crate::vm::reference_glue::ReferenceGlue;
use vstd::prelude::*;

verus! {

/// One processor for each strength.
pub struct ReferenceProcessors {
    pub soft: ReferenceProcessor,
    pub weak: ReferenceProcessor,
    pub phantom: ReferenceProcessor,
}

/// What scanning the soft references makes of the world. Unless memory is short, what they refer
/// to is retained first.
pub open spec fn soft_scanned<E: ProcessEdgesWork>(
    before: E,
    table: Set<ObjectReference>,
    emergency: bool,
    after: E,
    kept: Set<ObjectReference>,
    enqueued: Seq<ObjectReference>,
) -> bool {
    if emergency {
        scanned(before, table, after, kept, enqueued)
    } else {
        exists|middle: E| #[trigger]
            retained(before, table, middle) && scanned(middle, table, after, kept, enqueued)
    }
}

/// Whether `after` is `before` with another table and another list of references to hand over.
pub open spec fn same_but_references(
    before: ReferenceProcessor,
    after: ReferenceProcessor,
) -> bool {
    after == (ReferenceProcessor {
        references: after.references,
        enqueued_references: after.enqueued_references,
        ..before
    })
}

/// Whether `after` is `before` with the references `added` as candidates, unless these are not
/// taken.
pub open spec fn candidates_added(
    before: ReferenceProcessor,
    added: Set<ObjectReference>,
    after: ReferenceProcessor,
) -> bool {
    &&& after == (ReferenceProcessor { references: after.references, ..before })
    &&& after.table() == (if before.allow_new_candidate {
        before.table().union(added)
    } else {
        before.table()
    })
}

/// Whether `after` is `before` at the end of a collection.
pub open spec fn collection_ended(before: ReferenceProcessor, after: ReferenceProcessor) -> bool {
    &&& after == (ReferenceProcessor {
        enqueued_references: after.enqueued_references,
        allow_new_candidate: true,
        ..before
    })
    &&& after.enqueued_references@ == Seq::<ObjectReference>::empty()
}

impl ReferenceProcessors {
    /// Each processor is of the strength that its name says.
    pub open spec fn wf(&self) -> bool {
        &&& self.soft.semantics == Semantics::SOFT
        &&& self.weak.semantics == Semantics::WEAK
        &&& self.phantom.semantics == Semantics::PHANTOM
    }

    pub open spec fn of(&self, semantics: Semantics) -> ReferenceProcessor {
        match semantics {
            Semantics::SOFT => self.soft,
            Semantics::WEAK => self.weak,
            Semantics::PHANTOM => self.phantom,
        }
    }

    /// Whether every reference that has not been cleared is there once, in one of the processors.
    pub open spec fn each_once<E: ProcessEdgesWork>(&self, world: E) -> bool {
        &&& self.soft.each_once(world)
        &&& self.weak.each_once(world)
        &&& self.phantom.each_once(world)
        &&& forall|a: ObjectReference| #[trigger]
            self.weak.domain().contains(a) && self.soft.domain().contains(a) ==> world.referent(
                a,
            )@ == 0
        &&& forall|a: ObjectReference| #[trigger]
            self.phantom.domain().contains(a) && (self.soft.domain().contains(a)
                || self.weak.domain().contains(a)) ==> world.referent(a)@ == 0
    }

    /// The references of all processors.
    pub open spec fn domain(&self) -> Set<ObjectReference> {
        self.soft.domain().union(self.weak.domain()).union(self.phantom.domain())
    }

    pub fn new() -> (p: Self)
        ensures
            p.wf(),
            forall|s: Semantics|
                {
                    &&& (#[trigger] p.of(s)).table() == Set::<ObjectReference>::empty()
                    &&& p.of(s).enqueued_references@ == Seq::<ObjectReference>::empty()
                    &&& p.of(s).allow_new_candidate
                },
    {
        ReferenceProcessors {
            soft: ReferenceProcessor::new(Semantics::SOFT),
            weak: ReferenceProcessor::new(Semantics::WEAK),
            phantom: ReferenceProcessor::new(Semantics::PHANTOM),
        }
    }

    pub fn get(&self, semantics: Semantics) -> (p: &ReferenceProcessor)
        ensures
            *p == self.of(semantics),
    {
        match semantics {
            Semantics::SOFT => &self.soft,
            Semantics::WEAK => &self.weak,
            Semantics::PHANTOM => &self.phantom,
        }
    }

    pub fn add_soft_candidate(&mut self, reff: ObjectReference)
        ensures
            *final(self) == (ReferenceProcessors { soft: final(self).soft, ..*old(self) }),
            candidates_added(old(self).soft, set![reff], final(self).soft),
    {
        self.soft.add_candidate(reff);
        assert(old(self).soft.table().insert(reff) =~= old(self).soft.table().union(set![reff]));
    }

    pub fn add_soft_candidates(&mut self, refs: &[ObjectReference])
        ensures
            *final(self) == (ReferenceProcessors { soft: final(self).soft, ..*old(self) }),
            candidates_added(old(self).soft, refs@.to_set(), final(self).soft),
    {
        self.soft.add_candidates(refs);
    }

    pub fn add_weak_candidate(&mut self, reff: ObjectReference)
        ensures
            *final(self) == (ReferenceProcessors { weak: final(self).weak, ..*old(self) }),
            candidates_added(old(self).weak, set![reff], final(self).weak),
    {
        self.weak.add_candidate(reff);
        assert(old(self).weak.table().insert(reff) =~= old(self).weak.table().union(set![reff]));
    }

    pub fn add_weak_candidates(&mut self, refs: &[ObjectReference])
        ensures
            *final(self) == (ReferenceProcessors { weak: final(self).weak, ..*old(self) }),
            candidates_added(old(self).weak, refs@.to_set(), final(self).weak),
    {
        self.weak.add_candidates(refs);
    }

    pub fn add_phantom_candidate(&mut self, reff: ObjectReference)
        ensures
            *final(self) == (ReferenceProcessors { phantom: final(self).phantom, ..*old(self) }),
            candidates_added(old(self).phantom, set![reff], final(self).phantom),
    {
        self.phantom.add_candidate(reff);
        assert(old(self).phantom.table().insert(reff) =~= old(self).phantom.table().union(
            set![reff],
        ));
    }

    pub fn add_phantom_candidates(&mut self, refs: &[ObjectReference])
        ensures
            *final(self) == (ReferenceProcessors { phantom: final(self).phantom, ..*old(self) }),
            candidates_added(old(self).phantom, refs@.to_set(), final(self).phantom),
    {
        self.phantom.add_candidates(refs);
    }

    /// Hands the references cleared in this collection to the virtual machine: the soft ones, then
    /// the weak ones, then the phantom ones, all on the thread `tls` of a worker.
    pub fn enqueue_refs<VM: ReferenceGlue>(&mut self, vm: &mut VM, tls: usize)
        requires
            old(self).soft.can_enqueue(*old(vm)),
            old(self).weak.can_enqueue(*old(vm)),
            old(self).phantom.can_enqueue(*old(vm)),
        ensures
            collection_ended(old(self).soft, final(self).soft),
            collection_ended(old(self).weak, final(self).weak),
            collection_ended(old(self).phantom, final(self).phantom),
            final(vm).delivered() == handed_over(
                handed_over(
                    handed_over(old(vm).delivered(), old(self).soft.enqueued_references@, tls),
                    old(self).weak.enqueued_references@,
                    tls,
                ),
                old(self).phantom.enqueued_references@,
                tls,
            ),
    {
        self.soft.enqueue(vm, tls);
        self.weak.enqueue(vm, tls);
        self.phantom.enqueue(vm, tls);
    }

    /// Forwards the references of every strength, and what they refer to: the soft ones, then the
    /// weak ones, then the phantom ones. For a plan that knows where objects go only once it knows
    /// which are alive.
    pub fn forward_refs<E: ProcessEdgesWork>(&mut self, trace: &mut E, plan: &PlanStatus)
        requires
            plan.needs_forward_after_liveness,
            old(trace).wf(),
            old(self).each_once(*old(trace)),
            forwardable(*old(trace), old(self).domain()),
        ensures
            final(trace).wf(),
            nodes_found(*old(trace), *final(trace)),
            forwarded(*old(trace), old(self).domain(), *final(trace)),
            exists|first: E, second: E| #[trigger]
                forwarded_in_turn(
                    *old(trace),
                    *old(self),
                    first,
                    second,
                    *final(trace),
                    *final(self),
                ),
            old(self).soft.forwarded_to(*final(trace), final(self).soft),
            old(self).weak.forwarded_to(*final(trace), final(self).weak),
            old(self).phantom.forwarded_to(*final(trace), final(self).phantom),
    {
        let ghost w0 = *trace;
        let ghost soft = self.soft.domain();
        let ghost weak = self.weak.domain();
        let ghost phantom = self.phantom.domain();
        proof {
            assert forall|a: ObjectReference|
                soft.contains(a) || weak.contains(a) || phantom.contains(a) implies #[trigger]
                self.domain().contains(a) by {}
            assert(forwardable(w0, soft) && forwardable(w0, weak) && forwardable(w0, phantom)) by {
                assert forall|a: ObjectReference| #[trigger] soft.contains(a) implies
                    self.domain().contains(a) by {}
                assert forall|a: ObjectReference| #[trigger] weak.contains(a) implies
                    self.domain().contains(a) by {}
                assert forall|a: ObjectReference| #[trigger] phantom.contains(a) implies
                    self.domain().contains(a) by {}
            }
        }
        self.soft.forward(trace, plan.is_current_gc_nursery());
        let ghost w1 = *trace;
        proof {
            lemma_still_forwardable(w0, soft, w1, weak);
            lemma_still_once(w0, soft, w1, self.weak);
        }
        self.weak.forward(trace, plan.is_current_gc_nursery());
        let ghost w2 = *trace;
        proof {
            lemma_forwarded_further(w0, soft, w1, weak, w2);
            lemma_still_forwardable(w0, soft.union(weak), w2, phantom);
            lemma_still_once(w0, soft.union(weak), w2, self.phantom);
            lemma_found_further(w0, w1, w2);
        }
        self.phantom.forward(trace, plan.is_current_gc_nursery());
        proof {
            lemma_forwarded_further(w0, soft.union(weak), w2, phantom, *trace);
            lemma_found_further(w0, w2, *trace);
            assert(forwarded_in_turn(w0, *old(self), w1, w2, *trace, *self));
            lemma_forwarded_stays(w0, old(self).soft, w1, *trace, self.soft);
            lemma_forwarded_stays(w1, old(self).weak, w2, *trace, self.weak);
        }
    }

    /// Scans the soft references. Where memory is not short, what they refer to is kept alive
    /// first, as far as the references are alive.
    pub fn scan_soft_refs<E: ProcessEdgesWork>(&mut self, trace: &mut E, plan: &PlanStatus)
        requires
            old(self).wf(),
            old(trace).wf(),
            scannable(*old(trace), old(self).soft.table()),
            old(self).soft.enqueued_references@.len() == 0,
        ensures
            final(self).wf(),
            final(trace).wf(),
            nodes_found(*old(trace), *final(trace)),
            *final(self) == (ReferenceProcessors { soft: final(self).soft, ..*old(self) }),
            same_but_references(old(self).soft, final(self).soft),
            soft_scanned(
                *old(trace),
                old(self).soft.table(),
                plan.emergency_collection,
                *final(trace),
                final(self).soft.table(),
                final(self).soft.enqueued_references@,
            ),
    {
        if !plan.is_emergency_collection() {
            self.soft.retain(trace, plan.is_current_gc_nursery());
        }
        let ghost middle = *trace;
        self.soft.scan(trace, plan.is_current_gc_nursery());
        proof {
            if !plan.emergency_collection {
                lemma_found_further(*old(trace), middle, *trace);
            }
        }
        assert(!plan.emergency_collection ==> retained(
            *old(trace),
            old(self).soft.table(),
            middle,
        ));
    }

    /// Scans the weak references. To be called after the soft references were scanned.
    pub fn scan_weak_refs<E: ProcessEdgesWork>(&mut self, trace: &mut E, plan: &PlanStatus)
        requires
            old(self).wf(),
            old(trace).wf(),
            scannable(*old(trace), old(self).weak.table()),
            old(self).weak.enqueued_references@.len() == 0,
        ensures
            final(self).wf(),
            final(trace).wf(),
            nodes_found(*old(trace), *final(trace)),
            *final(self) == (ReferenceProcessors { weak: final(self).weak, ..*old(self) }),
            same_but_references(old(self).weak, final(self).weak),
            scanned(
                *old(trace),
                old(self).weak.table(),
                *final(trace),
                final(self).weak.table(),
                final(self).weak.enqueued_references@,
            ),
    {
        self.weak.scan(trace, plan.is_current_gc_nursery());
    }

    /// Scans the phantom references. To be called after the weak references were scanned.
    pub fn scan_phantom_refs<E: ProcessEdgesWork>(&mut self, trace: &mut E, plan: &PlanStatus)
        requires
            old(self).wf(),
            old(trace).wf(),
            scannable(*old(trace), old(self).phantom.table()),
            old(self).phantom.enqueued_references@.len() == 0,
        ensures
            final(self).wf(),
            final(trace).wf(),
            nodes_found(*old(trace), *final(trace)),
            *final(self) == (ReferenceProcessors { phantom: final(self).phantom, ..*old(self) }),
            same_but_references(old(self).phantom, final(self).phantom),
            scanned(
                *old(trace),
                old(self).phantom.table(),
                *final(trace),
                final(self).phantom.table(),
                final(self).phantom.enqueued_references@,
            ),
    {
        self.phantom.scan(trace, plan.is_current_gc_nursery());
    }
}

/// Whether the processors of `before` were forwarded to those of `after` in turn: the soft
/// references, which makes `first` of the world, then the weak ones, which makes `second` of it, and
/// then the phantom ones.
pub open spec fn forwarded_in_turn<E: ProcessEdgesWork>(
    world: E,
    before: ReferenceProcessors,
    first: E,
    second: E,
    end: E,
    after: ReferenceProcessors,
) -> bool {
    &&& forwarded(world, before.soft.domain(), first)
    &&& before.soft.forwarded_to(first, after.soft)
    &&& forwarded(first, before.weak.domain(), second)
    &&& before.weak.forwarded_to(second, after.weak)
    &&& forwarded(second, before.phantom.domain(), end)
    &&& before.phantom.forwarded_to(end, after.phantom)
}

/// Forwarding the references of `domain` leaves each of those of `p` that have not been cleared
/// there once.
proof fn lemma_still_once<E: ProcessEdgesWork>(
    before: E,
    domain: Set<ObjectReference>,
    after: E,
    p: ReferenceProcessor,
)
    requires
        forwarded(before, domain, after),
        forwardable(before, p.domain()),
        p.each_once(before),
    ensures
        p.each_once(after),
{
    assert forall|a: ObjectReference| #[trigger] p.domain().contains(a) && before.referent(a)@
        == 0 implies after.referent(a)@ == 0 by {
        assert(is_reference(before, a));
        if domain.contains(a) {
            assert(forwarded_reference(before, a, after));
        }
    }
    assert forall|a: ObjectReference| #[trigger]
        p.enqueued_references@.contains(a) implies p.domain().contains(a) by {}
    assert forall|i: int, j: int|
        #![trigger p.enqueued_references@[i], p.enqueued_references@[j]]
        0 <= i < j < p.enqueued_references@.len() && p.enqueued_references@[i]
            == p.enqueued_references@[j] implies after.referent(p.enqueued_references@[i])@ == 0 by {
        assert(p.enqueued_references@.contains(p.enqueued_references@[i]));
    }
}

/// Where the references of a processor were forwarded to stays the same when others are traced.
proof fn lemma_forwarded_stays<E: ProcessEdgesWork>(
    before: E,
    p: ReferenceProcessor,
    middle: E,
    after: E,
    q: ReferenceProcessor,
)
    requires
        forwarded(before, p.domain(), middle),
        p.forwarded_to(middle, q),
        forall|x: ObjectReference| #[trigger]
            middle.traced().contains_key(x) ==> after.traced().contains_key(x) && after.traced()[x]
                == middle.traced()[x],
    ensures
        p.forwarded_to(after, q),
{
    assert forall|a: ObjectReference| #[trigger] p.table().contains(a) implies after.traced()[a]
        == middle.traced()[a] by {
        assert(p.domain().contains(a));
        assert(forwarded_reference(before, a, middle));
    }
    assert(p.enqueued_references@.map_values(|a: ObjectReference| after.traced()[a])
        =~= p.enqueued_references@.map_values(|a: ObjectReference| middle.traced()[a])) by {
        assert forall|i: int| 0 <= i < p.enqueued_references@.len() implies after.traced()[(
        #[trigger] p.enqueued_references@[i])] == middle.traced()[p.enqueued_references@[i]] by {
            let a = p.enqueued_references@[i];
            assert(p.enqueued_references@.to_set().contains(a));
            assert(p.domain().contains(a));
            assert(forwarded_reference(before, a, middle));
        }
    }
    assert forall|r: ObjectReference| #[trigger]
        q.table().contains(r) <==> exists|a: ObjectReference| #[trigger]
            p.table().contains(a) && after.traced()[a] == r by {
        if q.table().contains(r) {
            let a = choose|a: ObjectReference| #[trigger]
                p.table().contains(a) && middle.traced()[a] == r;
            assert(p.table().contains(a) && after.traced()[a] == r);
        }
        if exists|a: ObjectReference| #[trigger] p.table().contains(a) && after.traced()[a] == r {
            let a = choose|a: ObjectReference| #[trigger]
                p.table().contains(a) && after.traced()[a] == r;
            assert(p.table().contains(a) && middle.traced()[a] == r);
        }
    }
}

impl Default for ReferenceProcessors {
    fn default() -> (p: Self)
        ensures
            p.wf(),
            forall|s: Semantics|
                {
                    &&& (#[trigger] p.of(s)).table() == Set::<ObjectReference>::empty()
                    &&& p.of(s).enqueued_references@ == Seq::<ObjectReference>::empty()
                    &&& p.of(s).allow_new_candidate
                },
    {
        Self::new()
    }
}

} // verus!
