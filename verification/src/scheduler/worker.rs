//! The workers of a collector, as they see themselves.
use crate::scheduler::{WorkBucketStage, WorkPacket};
use crate::util::reference_work::ReferenceBuffer;
use vstd::prelude::*;

verus! {

/// A worker. It copies objects by the object model of the virtual machine.
pub struct GCWorker<VM> {
    pub ordinal: usize,
    pub object_model: VM,
    /// The work that this worker has added, oldest first, each packet with its stage.
    pub added_work: Vec<(WorkBucketStage, WorkPacket)>,
    pub reference_buffer: ReferenceBuffer,
}

impl<VM> GCWorker<VM> {
    /// A worker that has not done anything yet.
    pub fn new(ordinal: usize, object_model: VM) -> (w: Self)
        ensures
            w.ordinal == ordinal,
            w.object_model == object_model,
            w.added_work@ == Seq::<(WorkBucketStage, WorkPacket)>::empty(),
            w.reference_buffer.empty(),
            !w.reference_buffer.do_buffer,
    {
        GCWorker {
            ordinal,
            object_model,
            added_work: Vec::new(),
            reference_buffer: ReferenceBuffer::new(),
        }
    }

    /// Adds a packet to the work of a stage.
    pub fn add_work(&mut self, stage: WorkBucketStage, packet: WorkPacket)
        ensures
            *final(self) == (GCWorker { added_work: final(self).added_work, ..*old(self) }),
            final(self).added_work@ == old(self).added_work@.push((stage, packet)),
    {
        self.added_work.push((stage, packet));
    }
}

} // verus!
