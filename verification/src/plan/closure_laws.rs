//! What holds of the edges and the references that a closure visits.
use crate::plan::status::PlanStatus;
use crate::plan::tracing::{ObjectQueue, VectorObjectQueue};
use crate::plan::transitive_closure::{edges_in, packet_edges, ObjectsClosure};
use crate::scheduler::gc_work::ProcessEdgesWork;
use crate::scheduler::worker::GCWorker;
use crate::scheduler::{WorkBucketStage, WorkPacket};
use crate::util::address::{Address, ObjectReference};
use crate::util::reference_outcome_laws::in_table;
use crate::util::reference_processors::ReferenceProcessors;
use vstd::prelude::*;

verus! {

/// The edges in packets of work, one packet after the other.
pub open spec fn slots_of(work: Seq<(WorkBucketStage, WorkPacket)>) -> Seq<Address>
    decreases work.len(),
{
    if work.len() == 0 {
        Seq::empty()
    } else {
        match work.last().1 {
            WorkPacket::ProcessEdges { edges, roots: _ } => slots_of(work.drop_last()) + edges@,
            _ => slots_of(work.drop_last()),
        }
    }
}

proof fn lemma_slots(work: Seq<(WorkBucketStage, WorkPacket)>)
    ensures
        slots_of(work) == edges_in(work),
    decreases work.len(),
{
    if work.len() > 0 {
        lemma_slots(work.drop_last());
        match work.last().1 {
            WorkPacket::ProcessEdges { edges, roots: _ } => {},
            _ => {
                assert(slots_of(work.drop_last()) + packet_edges(work.last().1) =~= slots_of(
                    work.drop_last(),
                ));
            },
        }
    }
}

/// Whether the packet traces edges that are not roots, in the closure stage, and how many: `size`.
pub open spec fn closure_packet(packet: (WorkBucketStage, WorkPacket), size: int) -> bool {
    &&& packet.0 == WorkBucketStage::Closure
    &&& packet.1 matches WorkPacket::ProcessEdges { edges, roots } && !roots && edges@.len() == size
}

/// Every edge visited is in the work or in the buffer, after those visited before it, and no edge is lost,
/// made up or moved. The buffer never holds as many as fill a packet: the edge that makes it full sends all
/// of them on as one packet, and no other edge sends anything on.
#[verifier::spinoff_prover]
pub proof fn law_visited_edges_are_kept_in_order<'a, E: ProcessEdgesWork>(
    c: &mut ObjectsClosure<'a, E>,
    slot: Address,
)
    requires
        c.buffer@.len() < E::CAPACITY,
        call_ensures(ObjectsClosure::<'a, E>::visit_edge, (c, slot), ()),
    ensures
        slots_of(final(c).worker.added_work@) + final(c).buffer@ == (slots_of(
            old(c).worker.added_work@,
        ) + old(c).buffer@).push(slot),
        final(c).buffer@.len() < E::CAPACITY,
        ({
            let was = old(c).worker.added_work@;
            let now = final(c).worker.added_work@;
            &&& old(c).buffer@.len() + 1 < E::CAPACITY ==> now == was && final(c).buffer@ == old(c).buffer@.push(slot)
            &&& old(c).buffer@.len() + 1 == E::CAPACITY ==> {
                &&& now.len() == was.len() + 1
                &&& now.drop_last() == was
                &&& closure_packet(now.last(), E::CAPACITY as int)
                &&& final(c).buffer@.len() == 0
            }
        }),
        final(c).worker.reference_buffer == old(c).worker.reference_buffer,
        final(c).worker.ordinal == old(c).worker.ordinal,
        final(c).worker.object_model == old(c).worker.object_model,
{
    lemma_slots(c.worker.added_work@);
    lemma_slots(final(c).worker.added_work@);
    assert(slots_of(final(c).worker.added_work@) + final(c).buffer@ == final(c).visited());
    assert(slots_of(c.worker.added_work@) + c.buffer@ == c.visited());
}

/// Flushing sends all edges of the buffer on as one packet and leaves none; the order of the edges stays.
#[verifier::spinoff_prover]
pub proof fn law_flushed_edges_are_in_the_work<'a, E: ProcessEdgesWork>(
    c: &mut ObjectsClosure<'a, E>,
)
    requires
        call_ensures(ObjectsClosure::<'a, E>::flush, (c,), ()),
    ensures
        final(c).buffer@.len() == 0,
        slots_of(final(c).worker.added_work@) == slots_of(old(c).worker.added_work@) + old(c).buffer@,
        final(c).worker.added_work@.len() == old(c).worker.added_work@.len() + 1,
        final(c).worker.added_work@.drop_last() == old(c).worker.added_work@,
        closure_packet(final(c).worker.added_work@.last(), old(c).buffer@.len() as int),
        final(c).worker.reference_buffer == old(c).worker.reference_buffer,
        final(c).worker.ordinal == old(c).worker.ordinal,
        final(c).worker.object_model == old(c).worker.object_model,
{
    lemma_slots(c.worker.added_work@);
    lemma_slots(final(c).worker.added_work@);
    assert(final(c).visited() =~= slots_of(final(c).worker.added_work@));
}

/// References visited are kept by the worker, or are candidates of their strength, and nothing else is kept; no edge is
/// touched.
#[verifier::spinoff_prover]
pub proof fn law_visited_references_are_kept<'a, E: ProcessEdgesWork>(
    soft: &mut ObjectsClosure<'a, E>,
    p: &mut ReferenceProcessors,
    weak: &mut ObjectsClosure<'a, E>,
    q: &mut ReferenceProcessors,
    phantom: &mut ObjectsClosure<'a, E>,
    r: &mut ReferenceProcessors,
    reff: ObjectReference,
    x: ObjectReference,
)
    requires
        call_ensures(ObjectsClosure::<'a, E>::visit_soft_ref, (soft, p, reff), ()),
        call_ensures(ObjectsClosure::<'a, E>::visit_weak_ref, (weak, q, reff), ()),
        call_ensures(ObjectsClosure::<'a, E>::visit_phantom_ref, (phantom, r, reff), ()),
    ensures
        old(soft).worker.reference_buffer.do_buffer ==> final(soft).worker.reference_buffer.soft_refs@ == old(soft).worker.reference_buffer.soft_refs@.push(reff)
            && *final(p) == *old(p),
        !old(soft).worker.reference_buffer.do_buffer ==> in_table(final(p).soft, x) == (in_table(
            old(p).soft,
            x,
        ) || (old(p).soft.allow_new_candidate && x == reff)),
        final(p).weak == old(p).weak && final(p).phantom == old(p).phantom,
        old(weak).worker.reference_buffer.do_buffer ==> final(weak).worker.reference_buffer.weak_refs@ == old(weak).worker.reference_buffer.weak_refs@.push(reff)
            && *final(q) == *old(q),
        !old(weak).worker.reference_buffer.do_buffer ==> in_table(final(q).weak, x) == (in_table(
            old(q).weak,
            x,
        ) || (old(q).weak.allow_new_candidate && x == reff)),
        final(q).soft == old(q).soft && final(q).phantom == old(q).phantom,
        old(phantom).worker.reference_buffer.do_buffer ==> final(phantom).worker.reference_buffer.phantom_refs@ == old(phantom).worker.reference_buffer.phantom_refs@.push(reff) && *final(r) == *old(r),
        !old(phantom).worker.reference_buffer.do_buffer ==> in_table(final(r).phantom, x) == (
        in_table(old(r).phantom, x) || (old(r).phantom.allow_new_candidate && x == reff)),
        final(r).soft == old(r).soft && final(r).weak == old(r).weak,
        final(soft).buffer == old(soft).buffer,
        final(soft).worker.added_work == old(soft).worker.added_work,
        final(weak).buffer == old(weak).buffer,
        final(weak).worker.added_work == old(weak).worker.added_work,
        final(phantom).buffer == old(phantom).buffer,
        final(phantom).worker.added_work == old(phantom).worker.added_work,
        final(soft).worker.reference_buffer.weak_refs == old(soft).worker.reference_buffer.weak_refs,
        final(soft).worker.reference_buffer.phantom_refs == old(soft).worker.reference_buffer.phantom_refs,
        final(soft).worker.reference_buffer.do_buffer == old(soft).worker.reference_buffer.do_buffer,
        !old(soft).worker.reference_buffer.do_buffer ==> final(soft).worker.reference_buffer.soft_refs
            == old(soft).worker.reference_buffer.soft_refs,
        final(p).soft.enqueued_references@ == old(p).soft.enqueued_references@,
        final(p).soft.allow_new_candidate == old(p).soft.allow_new_candidate,
        final(weak).worker.reference_buffer.soft_refs == old(weak).worker.reference_buffer.soft_refs,
        final(weak).worker.reference_buffer.phantom_refs == old(weak).worker.reference_buffer.phantom_refs,
        final(weak).worker.reference_buffer.do_buffer == old(weak).worker.reference_buffer.do_buffer,
        !old(weak).worker.reference_buffer.do_buffer ==> final(weak).worker.reference_buffer.weak_refs
            == old(weak).worker.reference_buffer.weak_refs,
        final(q).weak.enqueued_references@ == old(q).weak.enqueued_references@,
        final(q).weak.allow_new_candidate == old(q).weak.allow_new_candidate,
        final(phantom).worker.reference_buffer.soft_refs == old(phantom).worker.reference_buffer.soft_refs,
        final(phantom).worker.reference_buffer.weak_refs == old(phantom).worker.reference_buffer.weak_refs,
        final(phantom).worker.reference_buffer.do_buffer == old(phantom).worker.reference_buffer.do_buffer,
        !old(phantom).worker.reference_buffer.do_buffer ==> final(phantom).worker.reference_buffer.phantom_refs
            == old(phantom).worker.reference_buffer.phantom_refs,
        final(r).phantom.enqueued_references@ == old(r).phantom.enqueued_references@,
        final(r).phantom.allow_new_candidate == old(r).phantom.allow_new_candidate,
{
    assert(final(p).soft.table().contains(x) == in_table(final(p).soft, x));
    assert(p.soft.table().contains(x) == in_table(p.soft, x));
    assert(final(q).weak.table().contains(x) == in_table(final(q).weak, x));
    assert(q.weak.table().contains(x) == in_table(q.weak, x));
    assert(final(r).phantom.table().contains(x) == in_table(final(r).phantom, x));
    assert(r.phantom.table().contains(x) == in_table(r.phantom, x));
}

/// What is queued comes out in the order in which it was queued, once, and leaves nothing behind; a worker's
/// packets are kept in the order in which they were added.
#[verifier::spinoff_prover]
pub proof fn law_queues_keep_their_order<VM>(
    made: VectorObjectQueue,
    first: &mut VectorObjectQueue,
    object: ObjectReference,
    second: &mut VectorObjectQueue,
    objects: Vec<ObjectReference>,
    worker: &mut GCWorker<VM>,
    stage: WorkBucketStage,
    packet: WorkPacket,
)
    requires
        call_ensures(VectorObjectQueue::new, (), made),
        call_ensures(VectorObjectQueue::enqueue, (first, object), ()),
        *second == *final(first),
        call_ensures(VectorObjectQueue::take, (second,), objects),
        call_ensures(GCWorker::<VM>::add_work, (worker, stage, packet), ()),
    ensures
        made.buffer@.len() == 0,
        objects@ == old(first).buffer@.push(object),
        final(second).buffer@.len() == 0,
        final(worker).added_work@ == old(worker).added_work@.push((stage, packet)),
        final(worker).reference_buffer == old(worker).reference_buffer,
        final(worker).ordinal == old(worker).ordinal,
        final(worker).object_model == old(worker).object_model,
{
}

/// A new closure has visited nothing, and works for the worker it was given.
#[verifier::spinoff_prover]
pub proof fn law_new_closure_has_no_edges<'a, E: ProcessEdgesWork>(
    worker: &'a mut GCWorker<E::VM>,
    c: ObjectsClosure<'a, E>,
)
    requires
        call_ensures(ObjectsClosure::<'a, E>::new, (worker,), c),
    ensures
        c.buffer@.len() == 0,
        *old(c.worker) == *old(worker),
        *final(c.worker) == *final(worker),
{
}

/// What a plan says of the collection in progress is what it was told.
pub proof fn law_status_says_what_it_was_told(status: PlanStatus, emergency: bool, nursery: bool)
    requires
        call_ensures(PlanStatus::is_emergency_collection, (&status,), emergency),
        call_ensures(PlanStatus::is_current_gc_nursery, (&status,), nursery),
    ensures
        emergency == status.emergency_collection,
        nursery == status.current_gc_nursery,
{
}

} // verus!
