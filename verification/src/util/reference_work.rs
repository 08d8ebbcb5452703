//! The packets of work that process references, and the buffers in which workers collect them.
use crate::plan::status::PlanStatus;
use crate::scheduler::gc_work::ProcessEdgesWork;
use crate::scheduler::{
    GCWorkScheduler, WorkBucketStage, WorkPacket, DESIGNATED_WORK_CAPACITY,
};
use crate::util::address::ObjectReference;
use crate::util::reference_model::{
    comes_from, concerned, forwardable, forwarded, forwarded_reference, found, found_more,
    handed_over, lemma_found_further, lemma_found_same, newly_traced, nodes_found, retained,
    scannable, scanned, settled, still_traced, traced_by_scan, Fate,
};
use crate::util::reference_processors::{
    candidates_added, collection_ended, forwarded_in_turn, same_but_references, soft_scanned,
    ReferenceProcessors,
};
use crate::vm::reference_glue::ReferenceGlue;
use std::marker::PhantomData;
use vstd::prelude::*;

verus! {

/// Whether nothing that a trace says differs between `before` and `after`.
pub open spec fn same_world<E: ProcessEdgesWork>(before: E, after: E) -> bool {
    &&& after.traced() == before.traced()
    &&& after.copies() == before.copies()
    &&& forall|x: ObjectReference| #[trigger] after.is_object(x) == before.is_object(x)
    &&& forall|x: ObjectReference| #[trigger] after.live(x) == before.live(x)
    &&& forall|x: ObjectReference| #[trigger] after.referent(x) == before.referent(x)
}

/// Whether what was found grew by the objects that were traced, and all of it was handed on.
pub open spec fn found_and_handed_on<E: ProcessEdgesWork>(before: E, after: E) -> bool {
    &&& found_more(before, after)
    &&& after.nodes() == Seq::<ObjectReference>::empty()
}

/// Handing on what was found.
proof fn lemma_handed_on<E: ProcessEdgesWork>(before: E, middle: E, after: E)
    requires
        nodes_found(before, middle),
        still_traced(before, middle),
        after.traced() == middle.traced(),
        after.nodes() == Seq::<ObjectReference>::empty(),
        after.handed_on() == middle.handed_on() + middle.nodes(),
    ensures
        found_and_handed_on(before, after),
{
    assert(found(after) =~= found(middle));
    lemma_found_same(middle, after);
    lemma_found_further(before, middle, after);
}

proof fn lemma_scanned_same_world<E: ProcessEdgesWork>(
    before: E,
    table: Set<ObjectReference>,
    middle: E,
    after: E,
    kept: Set<ObjectReference>,
    enqueued: Seq<ObjectReference>,
)
    requires
        scanned(before, table, middle, kept, enqueued),
        same_world(middle, after),
    ensures
        scanned(before, table, after, kept, enqueued),
{
    assert forall|a: ObjectReference| #[trigger] table.contains(a) implies settled(
        before,
        a,
        after,
    ) by {
        assert(settled(before, a, middle));
    }
    assert forall|x: ObjectReference| #[trigger] newly_traced(
        before,
        after,
        x,
    ) implies traced_by_scan(before, table, x) by {
        assert(newly_traced(before, middle, x));
    }
    assert forall|which: Fate, r: ObjectReference| #[trigger]
        comes_from(before, table, which, after, r) == comes_from(
            before,
            table,
            which,
            middle,
            r,
        ) by {}
}

/// A packet that scans the soft references.
pub struct SoftRefProcessing<E: ProcessEdgesWork>(PhantomData<E>);

impl<E: ProcessEdgesWork> SoftRefProcessing<E> {
    pub fn new() -> Self {
        Self(PhantomData)
    }

    /// Scans the soft references by the trace `w`, and hands on what it found.
    pub fn do_work(
        &mut self,
        w: &mut E,
        reference_processors: &mut ReferenceProcessors,
        plan: &PlanStatus,
    )
        requires
            old(reference_processors).wf(),
            old(w).wf(),
            scannable(*old(w), old(reference_processors).soft.table()),
            old(reference_processors).soft.enqueued_references@.len() == 0,
        ensures
            final(reference_processors).wf(),
            final(w).wf(),
            found_and_handed_on(*old(w), *final(w)),
            *final(reference_processors) == (ReferenceProcessors {
                soft: final(reference_processors).soft,
                ..*old(reference_processors)
            }),
            same_but_references(old(reference_processors).soft, final(reference_processors).soft),
            soft_scanned(
                *old(w),
                old(reference_processors).soft.table(),
                plan.emergency_collection,
                *final(w),
                final(reference_processors).soft.table(),
                final(reference_processors).soft.enqueued_references@,
            ),
    {
        let ghost before = *w;
        let ghost table = reference_processors.soft.table();
        reference_processors.scan_soft_refs(w, plan);
        let ghost middle = *w;
        w.flush();
        proof {
            lemma_handed_on(before, middle, *w);
            let kept = reference_processors.soft.table();
            let enqueued = reference_processors.soft.enqueued_references@;
            if plan.emergency_collection {
                lemma_scanned_same_world(before, table, middle, *w, kept, enqueued);
            } else {
                let start = choose|start: E| #[trigger]
                    retained(before, table, start) && scanned(
                        start,
                        table,
                        middle,
                        kept,
                        enqueued,
                    );
                lemma_scanned_same_world(start, table, middle, *w, kept, enqueued);
            }
        }
    }
}

/// A packet that scans the weak references.
pub struct WeakRefProcessing<E: ProcessEdgesWork>(PhantomData<E>);

impl<E: ProcessEdgesWork> WeakRefProcessing<E> {
    pub fn new() -> Self {
        Self(PhantomData)
    }

    /// Scans the weak references by the trace `w`, and hands on what it found.
    pub fn do_work(
        &mut self,
        w: &mut E,
        reference_processors: &mut ReferenceProcessors,
        plan: &PlanStatus,
    )
        requires
            old(reference_processors).wf(),
            old(w).wf(),
            scannable(*old(w), old(reference_processors).weak.table()),
            old(reference_processors).weak.enqueued_references@.len() == 0,
        ensures
            final(reference_processors).wf(),
            final(w).wf(),
            found_and_handed_on(*old(w), *final(w)),
            *final(reference_processors) == (ReferenceProcessors {
                weak: final(reference_processors).weak,
                ..*old(reference_processors)
            }),
            same_but_references(old(reference_processors).weak, final(reference_processors).weak),
            scanned(
                *old(w),
                old(reference_processors).weak.table(),
                *final(w),
                final(reference_processors).weak.table(),
                final(reference_processors).weak.enqueued_references@,
            ),
    {
        let ghost before = *w;
        let ghost table = reference_processors.weak.table();
        reference_processors.scan_weak_refs(w, plan);
        let ghost middle = *w;
        w.flush();
        proof {
            lemma_handed_on(before, middle, *w);
            lemma_scanned_same_world(
                before,
                table,
                middle,
                *w,
                reference_processors.weak.table(),
                reference_processors.weak.enqueued_references@,
            );
        }
    }
}

/// A packet that scans the phantom references.
pub struct PhantomRefProcessing<E: ProcessEdgesWork>(PhantomData<E>);

impl<E: ProcessEdgesWork> PhantomRefProcessing<E> {
    pub fn new() -> Self {
        Self(PhantomData)
    }

    /// Scans the phantom references by the trace `w`, and hands on what it found.
    pub fn do_work(
        &mut self,
        w: &mut E,
        reference_processors: &mut ReferenceProcessors,
        plan: &PlanStatus,
    )
        requires
            old(reference_processors).wf(),
            old(w).wf(),
            scannable(*old(w), old(reference_processors).phantom.table()),
            old(reference_processors).phantom.enqueued_references@.len() == 0,
        ensures
            final(reference_processors).wf(),
            final(w).wf(),
            found_and_handed_on(*old(w), *final(w)),
            *final(reference_processors) == (ReferenceProcessors {
                phantom: final(reference_processors).phantom,
                ..*old(reference_processors)
            }),
            same_but_references(
                old(reference_processors).phantom,
                final(reference_processors).phantom,
            ),
            scanned(
                *old(w),
                old(reference_processors).phantom.table(),
                *final(w),
                final(reference_processors).phantom.table(),
                final(reference_processors).phantom.enqueued_references@,
            ),
    {
        let ghost before = *w;
        let ghost table = reference_processors.phantom.table();
        reference_processors.scan_phantom_refs(w, plan);
        let ghost middle = *w;
        w.flush();
        proof {
            lemma_handed_on(before, middle, *w);
            lemma_scanned_same_world(
                before,
                table,
                middle,
                *w,
                reference_processors.phantom.table(),
                reference_processors.phantom.enqueued_references@,
            );
        }
    }
}

/// A packet that forwards the references of every strength.
pub struct RefForwarding<E: ProcessEdgesWork>(PhantomData<E>);

impl<E: ProcessEdgesWork> RefForwarding<E> {
    pub fn new() -> Self {
        Self(PhantomData)
    }

    /// Forwards the references by the trace `w`, and hands on what it found.
    pub fn do_work(
        &mut self,
        w: &mut E,
        reference_processors: &mut ReferenceProcessors,
        plan: &PlanStatus,
    )
        requires
            plan.needs_forward_after_liveness,
            old(w).wf(),
            old(reference_processors).each_once(*old(w)),
            forwardable(*old(w), old(reference_processors).domain()),
        ensures
            final(w).wf(),
            found_and_handed_on(*old(w), *final(w)),
            exists|first: E, second: E| #[trigger]
                forwarded_in_turn(
                    *old(w),
                    *old(reference_processors),
                    first,
                    second,
                    *final(w),
                    *final(reference_processors),
                ),
            forwarded(*old(w), old(reference_processors).domain(), *final(w)),
            old(reference_processors).soft.forwarded_to(*final(w), final(reference_processors).soft),
            old(reference_processors).weak.forwarded_to(*final(w), final(reference_processors).weak),
            old(reference_processors).phantom.forwarded_to(
                *final(w),
                final(reference_processors).phantom,
            ),
    {
        let ghost before = *w;
        let ghost domain = reference_processors.domain();
        reference_processors.forward_refs(w, plan);
        let ghost middle = *w;
        w.flush();
        proof {
            lemma_handed_on(before, middle, *w);
            assert forall|a: ObjectReference| #[trigger] domain.contains(
                a,
            ) implies forwarded_reference(before, a, *w) by {
                assert(forwarded_reference(before, a, middle));
            }
            assert forall|x: ObjectReference| #[trigger] newly_traced(
                before,
                *w,
                x,
            ) implies concerned(before, domain, x) by {
                assert(newly_traced(before, middle, x));
            }
            let (first, second) = choose|first: E, second: E| #[trigger]
                forwarded_in_turn(
                    before,
                    *old(reference_processors),
                    first,
                    second,
                    middle,
                    *reference_processors,
                );
            let phantom = old(reference_processors).phantom.domain();
            assert forall|a: ObjectReference| #[trigger] phantom.contains(
                a,
            ) implies forwarded_reference(second, a, *w) by {
                assert(forwarded_reference(second, a, middle));
            }
            assert forall|x: ObjectReference| #[trigger] newly_traced(
                second,
                *w,
                x,
            ) implies concerned(second, phantom, x) by {
                assert(newly_traced(second, middle, x));
            }
            assert(forwarded_in_turn(
                before,
                *old(reference_processors),
                first,
                second,
                *w,
                *reference_processors,
            ));
        }
    }
}

/// A packet that hands the references cleared to the virtual machine.
pub struct RefEnqueue<VM: ReferenceGlue>(PhantomData<VM>);

impl<VM: ReferenceGlue> RefEnqueue<VM> {
    pub fn new() -> Self {
        Self(PhantomData)
    }

    /// Hands the references cleared to the virtual machine, on the thread `tls` of a worker.
    pub fn do_work(
        &mut self,
        vm: &mut VM,
        reference_processors: &mut ReferenceProcessors,
        tls: usize,
    )
        requires
            old(reference_processors).soft.can_enqueue(*old(vm)),
            old(reference_processors).weak.can_enqueue(*old(vm)),
            old(reference_processors).phantom.can_enqueue(*old(vm)),
        ensures
            collection_ended(old(reference_processors).soft, final(reference_processors).soft),
            collection_ended(old(reference_processors).weak, final(reference_processors).weak),
            collection_ended(
                old(reference_processors).phantom,
                final(reference_processors).phantom,
            ),
            final(vm).delivered() == handed_over(
                handed_over(
                    handed_over(
                        old(vm).delivered(),
                        old(reference_processors).soft.enqueued_references@,
                        tls,
                    ),
                    old(reference_processors).weak.enqueued_references@,
                    tls,
                ),
                old(reference_processors).phantom.enqueued_references@,
                tls,
            ),
    {
        reference_processors.enqueue_refs(vm, tls);
    }
}

/// The references that a worker found and has not passed on.
pub struct ReferenceBuffer {
    /// Whether references are kept here, rather than passed on at once.
    pub do_buffer: bool,
    pub soft_refs: Vec<ObjectReference>,
    pub weak_refs: Vec<ObjectReference>,
    pub phantom_refs: Vec<ObjectReference>,
}

impl ReferenceBuffer {
    /// An empty buffer that passes references on at once.
    pub fn new() -> (b: Self)
        ensures
            !b.do_buffer,
            b.soft_refs@ == Seq::<ObjectReference>::empty(),
            b.weak_refs@ == Seq::<ObjectReference>::empty(),
            b.phantom_refs@ == Seq::<ObjectReference>::empty(),
    {
        ReferenceBuffer {
            do_buffer: false,
            soft_refs: Vec::new(),
            weak_refs: Vec::new(),
            phantom_refs: Vec::new(),
        }
    }

    /// Keeps the soft reference `reff`, or passes it on as a candidate.
    pub fn add_soft_ref(
        &mut self,
        reference_processors: &mut ReferenceProcessors,
        reff: ObjectReference,
    )
        ensures
            *final(self) == (ReferenceBuffer { soft_refs: final(self).soft_refs, ..*old(self) }),
            old(self).do_buffer ==> {
                &&& final(self).soft_refs@ == old(self).soft_refs@.push(reff)
                &&& *final(reference_processors) == *old(reference_processors)
            },
            !old(self).do_buffer ==> {
                &&& final(self).soft_refs == old(self).soft_refs
                &&& *final(reference_processors) == (ReferenceProcessors {
                    soft: final(reference_processors).soft,
                    ..*old(reference_processors)
                })
                &&& candidates_added(
                    old(reference_processors).soft,
                    set![reff],
                    final(reference_processors).soft,
                )
            },
    {
        if self.do_buffer {
            self.soft_refs.push(reff);
        } else {
            reference_processors.add_soft_candidate(reff);
        }
    }

    /// Keeps the weak reference `reff`, or passes it on as a candidate.
    pub fn add_weak_ref(
        &mut self,
        reference_processors: &mut ReferenceProcessors,
        reff: ObjectReference,
    )
        ensures
            *final(self) == (ReferenceBuffer { weak_refs: final(self).weak_refs, ..*old(self) }),
            old(self).do_buffer ==> {
                &&& final(self).weak_refs@ == old(self).weak_refs@.push(reff)
                &&& *final(reference_processors) == *old(reference_processors)
            },
            !old(self).do_buffer ==> {
                &&& final(self).weak_refs == old(self).weak_refs
                &&& *final(reference_processors) == (ReferenceProcessors {
                    weak: final(reference_processors).weak,
                    ..*old(reference_processors)
                })
                &&& candidates_added(
                    old(reference_processors).weak,
                    set![reff],
                    final(reference_processors).weak,
                )
            },
    {
        if self.do_buffer {
            self.weak_refs.push(reff);
        } else {
            reference_processors.add_weak_candidate(reff);
        }
    }

    /// Keeps the phantom reference `reff`, or passes it on as a candidate.
    pub fn add_phantom_ref(
        &mut self,
        reference_processors: &mut ReferenceProcessors,
        reff: ObjectReference,
    )
        ensures
            *final(self) == (ReferenceBuffer {
                phantom_refs: final(self).phantom_refs,
                ..*old(self)
            }),
            old(self).do_buffer ==> {
                &&& final(self).phantom_refs@ == old(self).phantom_refs@.push(reff)
                &&& *final(reference_processors) == *old(reference_processors)
            },
            !old(self).do_buffer ==> {
                &&& final(self).phantom_refs == old(self).phantom_refs
                &&& *final(reference_processors) == (ReferenceProcessors {
                    phantom: final(reference_processors).phantom,
                    ..*old(reference_processors)
                })
                &&& candidates_added(
                    old(reference_processors).phantom,
                    set![reff],
                    final(reference_processors).phantom,
                )
            },
    {
        if self.do_buffer {
            self.phantom_refs.push(reff);
        } else {
            reference_processors.add_phantom_candidate(reff);
        }
    }

    /// Whether no reference is kept here.
    pub open spec fn empty(&self) -> bool {
        &&& self.soft_refs@.len() == 0
        &&& self.weak_refs@.len() == 0
        &&& self.phantom_refs@.len() == 0
    }

    /// Ends the use of the buffer in a collection. Nothing may be left in it, and it stays as it
    /// is.
    pub fn flush(&mut self)
        requires
            old(self).empty(),
        ensures
            *final(self) == *old(self),
    {
    }
}

/// A packet that has every worker check its buffer.
pub struct ScheduleFlushWorkerRefBuffer<E: ProcessEdgesWork>(pub PhantomData<E>);

impl<E: ProcessEdgesWork> ScheduleFlushWorkerRefBuffer<E> {
    /// Queues a packet for every worker. Each of them must have room for it.
    pub fn do_work(&mut self, scheduler: &mut GCWorkScheduler)
        requires
            forall|i: int|
                0 <= i < old(scheduler).workers() ==> (#[trigger] old(scheduler).designated(
                    i,
                )).len() < DESIGNATED_WORK_CAPACITY,
        ensures
            final(scheduler).workers() == old(scheduler).workers(),
            final(scheduler).activated == old(scheduler).activated,
            forall|i: int|
                0 <= i < old(scheduler).workers() ==> #[trigger] final(scheduler).designated(i)
                    == old(scheduler).designated(i).push(WorkPacket::FlushWorkerRefBuffer),
    {
        scheduler.push_flush_ref_buffer();
    }
}

/// A packet that checks the buffer of one worker.
pub struct FlushWorkerRefBuffer<E: ProcessEdgesWork>(PhantomData<E>);

impl<E: ProcessEdgesWork> FlushWorkerRefBuffer<E> {
    pub fn new() -> Self {
        Self(PhantomData)
    }

    /// Ends the use of a worker's buffer. This must be before references are processed.
    pub fn do_work(&mut self, buffer: &mut ReferenceBuffer, scheduler: &GCWorkScheduler)
        requires
            !scheduler.activated@.contains(WorkBucketStage::SoftRefClosure),
            old(buffer).empty(),
        ensures
            *final(buffer) == *old(buffer),
    {
        buffer.flush();
    }
}

} // verus!
