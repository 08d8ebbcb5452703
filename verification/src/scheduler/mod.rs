//! Work packets, the queues they wait in, and the workers that run them.
pub mod gc_work;
pub mod queue_laws;
pub mod worker;

use crate::util::address::Address;
use vstd::prelude::*;

verus! {

/// The stages of a collection that work is queued for.
#[derive(Copy, Clone, PartialEq, Eq, Structural, Debug)]
pub enum WorkBucketStage {
    Closure,
    SoftRefClosure,
    WeakRefClosure,
    PhantomRefClosure,
}

/// A unit of work.
#[derive(Debug)]
pub enum WorkPacket {
    /// Resets the allocation buffers of a worker.
    PrepareCollector,
    /// Checks that a worker has passed on the references it buffered.
    FlushWorkerRefBuffer,
    /// Traces what the given slots point to.
    ProcessEdges { edges: Vec<Address>, roots: bool },
}

/// How many packets one worker can have waiting for it alone.
pub const DESIGNATED_WORK_CAPACITY: usize = 16;

/// The part of a worker that other threads reach.
pub struct GCWorkerShared {
    /// Packets that only this worker may run, oldest first.
    pub designated_work: Vec<WorkPacket>,
}

impl GCWorkerShared {
    pub fn new() -> (w: Self)
        ensures
            w.designated_work@ == Seq::<WorkPacket>::empty(),
    {
        GCWorkerShared { designated_work: Vec::new() }
    }

    /// Queues `packet` for this worker, or hands it back where the queue is full.
    pub fn push_designated(&mut self, packet: WorkPacket) -> (r: Result<(), WorkPacket>)
        ensures
            old(self).designated_work@.len() < DESIGNATED_WORK_CAPACITY ==> r is Ok
                && final(self).designated_work@ == old(self).designated_work@.push(packet),
            old(self).designated_work@.len() >= DESIGNATED_WORK_CAPACITY ==> r
                == Err::<(), WorkPacket>(packet) && *final(self) == *old(self),
    {
        if self.designated_work.len() < DESIGNATED_WORK_CAPACITY {
            self.designated_work.push(packet);
            Ok(())
        } else {
            Err(packet)
        }
    }
}

/// The workers of a collector.
pub struct WorkerGroup {
    pub workers_shared: Vec<GCWorkerShared>,
}

/// Hands work to the workers.
pub struct GCWorkScheduler {
    pub worker_group: WorkerGroup,
    /// The stages whose work may run already.
    pub activated: Vec<WorkBucketStage>,
}

/// What `queue` is after `packet` has been offered to it.
pub open spec fn offered(queue: Seq<WorkPacket>, packet: WorkPacket) -> Seq<WorkPacket> {
    if queue.len() < DESIGNATED_WORK_CAPACITY {
        queue.push(packet)
    } else {
        queue
    }
}

impl GCWorkScheduler {
    /// The packets that wait for worker `i` alone.
    pub open spec fn designated(&self, i: int) -> Seq<WorkPacket> {
        self.worker_group.workers_shared@[i].designated_work@
    }

    pub open spec fn workers(&self) -> nat {
        self.worker_group.workers_shared@.len()
    }

    pub fn new(workers: usize) -> (s: Self)
        ensures
            s.workers() == workers,
            forall|i: int| 0 <= i < workers ==> #[trigger] s.designated(i) == Seq::<WorkPacket>::empty(),
            s.activated@ == Seq::<WorkBucketStage>::empty(),
    {
        let mut shared: Vec<GCWorkerShared> = Vec::new();
        let mut i: usize = 0;
        while i < workers
            invariant
                i <= workers,
                shared@.len() == i,
                forall|j: int|
                    0 <= j < i ==> (#[trigger] shared@[j]).designated_work@ == Seq::<
                        WorkPacket,
                    >::empty(),
            decreases workers - i,
        {
            shared.push(GCWorkerShared::new());
            i += 1;
        }
        GCWorkScheduler {
            worker_group: WorkerGroup { workers_shared: shared },
            activated: Vec::new(),
        }
    }

    /// Whether work of `stage` may run.
    pub fn is_activated(&self, stage: WorkBucketStage) -> (b: bool)
        ensures
            b == self.activated@.contains(stage),
    {
        let mut i: usize = 0;
        while i < self.activated.len()
            invariant
                i <= self.activated.len(),
                forall|j: int| 0 <= j < i ==> self.activated@[j] != stage,
            decreases self.activated.len() - i,
        {
            if self.activated[i] == stage {
                return true;
            }
            i += 1;
        }
        false
    }

    /// Queues a `PrepareCollector` packet for every worker whose queue has room.
    pub fn push_prepare_collector(&mut self)
        ensures
            final(self).workers() == old(self).workers(),
            final(self).activated == old(self).activated,
            forall|i: int|
                0 <= i < old(self).workers() ==> #[trigger] final(self).designated(i) == offered(
                    old(self).designated(i),
                    WorkPacket::PrepareCollector,
                ),
    {
        let n: usize = self.worker_group.workers_shared.len();
        let mut i: usize = 0;
        while i < n
            invariant
                i <= n,
                n == self.workers(),
                n == old(self).workers(),
                self.activated == old(self).activated,
                forall|j: int|
                    0 <= j < i ==> #[trigger] self.designated(j) == offered(
                        old(self).designated(j),
                        WorkPacket::PrepareCollector,
                    ),
                forall|j: int|
                    i <= j < n ==> #[trigger] self.designated(j) == old(self).designated(j),
            decreases n - i,
        {
            let ghost before = *self;
            assert(self.designated(i as int) == old(self).designated(i as int));
            let w = &mut self.worker_group.workers_shared[i];
            let _ = w.push_designated(WorkPacket::PrepareCollector);
            assert forall|j: int| 0 <= j < n && j != i implies #[trigger] self.designated(j)
                == before.designated(j) by {}
            i += 1;
        }
    }

    /// Queues a `FlushWorkerRefBuffer` packet for every worker. Each of them must have room.
    pub fn push_flush_ref_buffer(&mut self)
        requires
            forall|i: int|
                0 <= i < old(self).workers() ==> (#[trigger] old(self).designated(i)).len()
                    < DESIGNATED_WORK_CAPACITY,
        ensures
            final(self).workers() == old(self).workers(),
            final(self).activated == old(self).activated,
            forall|i: int|
                0 <= i < old(self).workers() ==> #[trigger] final(self).designated(i) == old(
                    self,
                ).designated(i).push(WorkPacket::FlushWorkerRefBuffer),
    {
        let n: usize = self.worker_group.workers_shared.len();
        let mut i: usize = 0;
        while i < n
            invariant
                i <= n,
                n == self.workers(),
                n == old(self).workers(),
                self.activated == old(self).activated,
                forall|j: int|
                    0 <= j < n ==> (#[trigger] old(self).designated(j)).len()
                        < DESIGNATED_WORK_CAPACITY,
                forall|j: int|
                    0 <= j < i ==> #[trigger] self.designated(j) == old(self).designated(j).push(
                        WorkPacket::FlushWorkerRefBuffer,
                    ),
                forall|j: int|
                    i <= j < n ==> #[trigger] self.designated(j) == old(self).designated(j),
            decreases n - i,
        {
            let ghost before = *self;
            assert(self.designated(i as int) == old(self).designated(i as int));
            let w = &mut self.worker_group.workers_shared[i];
            let _ = w.push_designated(WorkPacket::FlushWorkerRefBuffer);
            assert forall|j: int| 0 <= j < n && j != i implies #[trigger] self.designated(j)
                == before.designated(j) by {}
            i += 1;
        }
    }
}

} // verus!
