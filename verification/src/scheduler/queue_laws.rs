//! What holds of the queues of the workers.
use crate::scheduler::{
    GCWorkScheduler, GCWorkerShared, WorkBucketStage, WorkPacket, DESIGNATED_WORK_CAPACITY,
};
use crate::scheduler::worker::GCWorker;
use vstd::prelude::*;

verus! {

/// The packets that wait for the worker with the number `i` alone.
pub open spec fn queue_of(scheduler: GCWorkScheduler, i: int) -> Seq<WorkPacket> {
    scheduler.worker_group.workers_shared@[i].designated_work@
}

/// A queue has room for sixteen packets. One that is pushed while there is room is the last of the queue; otherwise
/// it is handed back, and the queue stays as it is.
pub proof fn law_queue_takes_packets_while_there_is_room(
    made: GCWorkerShared,
    worker: &mut GCWorkerShared,
    packet: WorkPacket,
    r: Result<(), WorkPacket>,
)
    requires
        call_ensures(GCWorkerShared::new, (), made),
        call_ensures(GCWorkerShared::push_designated, (worker, packet), r),
    ensures
        made.designated_work@.len() == 0,
        r is Ok <==> old(worker).designated_work@.len() < 16,
        r is Ok ==> final(worker).designated_work@ == old(worker).designated_work@.push(packet),
        r matches Err(p) ==> p == packet && final(worker).designated_work@ == old(worker).designated_work@,
        DESIGNATED_WORK_CAPACITY == 16,
{
}

/// In a full collection every worker that has room gets a packet to drop its buffers, and every worker one to check
/// the references it keeps where that is asked for; each after the packets that wait already. Workers without
/// room keep what they have.
#[verifier::spinoff_prover]
pub proof fn law_every_worker_gets_its_packet(
    preparing: &mut GCWorkScheduler,
    flushing: &mut GCWorkScheduler,
    i: int,
)
    requires
        call_ensures(GCWorkScheduler::push_prepare_collector, (preparing,), ()),
        0 <= i < preparing.worker_group.workers_shared@.len(),
        call_ensures(GCWorkScheduler::push_flush_ref_buffer, (flushing,), ()),
        i < flushing.worker_group.workers_shared@.len(),
    ensures
        final(preparing).worker_group.workers_shared@.len() == old(preparing).worker_group.workers_shared@.len(),
        queue_of(*old(preparing), i).len() < 16 ==> queue_of(*final(preparing), i) == queue_of(
            *old(preparing),
            i,
        ).push(WorkPacket::PrepareCollector),
        queue_of(*old(preparing), i).len() >= 16 ==> queue_of(*final(preparing), i) == queue_of(
            *old(preparing),
            i,
        ),
        final(preparing).activated == old(preparing).activated,
        final(flushing).worker_group.workers_shared@.len() == old(flushing).worker_group.workers_shared@.len(),
        queue_of(*final(flushing), i) == queue_of(*old(flushing), i).push(
            WorkPacket::FlushWorkerRefBuffer,
        ),
        final(flushing).activated == old(flushing).activated,
{
    assert(final(preparing).designated(i) == queue_of(*final(preparing), i));
    assert(preparing.designated(i) == queue_of(*preparing, i));
    assert(final(flushing).designated(i) == queue_of(*final(flushing), i));
    assert(flushing.designated(i) == queue_of(*flushing, i));
}

/// A new scheduler has as many workers as asked for, none of which has anything to do, and no stage has begun. A
/// stage has begun exactly if it is among those activated.
pub proof fn law_new_scheduler_has_nothing_to_do<VM>(
    workers: usize,
    scheduler: GCWorkScheduler,
    i: int,
    other: GCWorkScheduler,
    stage: WorkBucketStage,
    begun: bool,
    early: bool,
    ordinal: usize,
    model: VM,
    worker: GCWorker<VM>,
)
    requires
        call_ensures(GCWorkScheduler::new, (workers,), scheduler),
        0 <= i < workers,
        call_ensures(GCWorkScheduler::is_activated, (&other, stage), begun),
        call_ensures(GCWorkScheduler::is_activated, (&scheduler, stage), early),
        call_ensures(GCWorker::<VM>::new, (ordinal, model), worker),
    ensures
        scheduler.worker_group.workers_shared@.len() == workers,
        queue_of(scheduler, i).len() == 0,
        begun <==> other.activated@.contains(stage),
        !early,
        worker.ordinal == ordinal,
        worker.object_model == model,
        worker.added_work@.len() == 0,
        worker.reference_buffer.soft_refs@.len() == 0,
        worker.reference_buffer.weak_refs@.len() == 0,
        worker.reference_buffer.phantom_refs@.len() == 0,
        !worker.reference_buffer.do_buffer,
{
    assert(scheduler.designated(i) == queue_of(scheduler, i));
}

} // verus!
