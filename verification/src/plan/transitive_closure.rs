//! Following the edges of the object graph.
use crate::scheduler::gc_work::ProcessEdgesWork;
use crate::scheduler::worker::GCWorker;
use crate::scheduler::{WorkBucketStage, WorkPacket};
use crate::util::address::{Address, ObjectReference};
use crate::util::reference_processors::{candidates_added, ReferenceProcessors};
use crate::util::reference_work::ReferenceBuffer;
use vstd::prelude::*;

verus! {

/// Takes the objects whose edges are to be followed.
pub trait TransitiveClosure {
    spec fn ready(&self) -> bool;

    /// The objects taken and not followed yet, oldest first.
    spec fn waiting(&self) -> Seq<ObjectReference>;

    fn process_node(&mut self, object: ObjectReference)
        requires
            old(self).ready(),
        ensures
            final(self).ready(),
            final(self).waiting() == old(self).waiting().push(object),
    ;
}

impl<T: ProcessEdgesWork> TransitiveClosure for T {
    open spec fn ready(&self) -> bool {
        self.wf()
    }

    open spec fn waiting(&self) -> Seq<ObjectReference> {
        self.nodes()
    }

    fn process_node(&mut self, object: ObjectReference) {
        ProcessEdgesWork::process_node(self, object);
    }
}

/// Collects the edges of objects, and adds them to the work of a worker.
pub struct ObjectsClosure<'a, E: ProcessEdgesWork> {
    /// The edges collected and not added yet.
    pub buffer: Vec<Address>,
    pub worker: &'a mut GCWorker<E::VM>,
}

/// How many edges make a packet of the trace full. One edge at least is in every packet.
pub open spec fn full_packet<E: ProcessEdgesWork>() -> nat {
    if E::CAPACITY == 0 {
        1
    } else {
        E::CAPACITY as nat
    }
}

/// Whether all the packets from the one with the index `first` on hold `size` edges.
pub open spec fn packets_hold(
    work: Seq<(WorkBucketStage, WorkPacket)>,
    first: nat,
    size: nat,
) -> bool {
    forall|i: int| first <= i < work.len() ==> packet_holds(#[trigger] work[i].1, size)
}

/// Whether the packet holds `size` edges.
pub open spec fn packet_holds(packet: WorkPacket, size: nat) -> bool {
    packet matches WorkPacket::ProcessEdges { edges, roots: _ } && edges@.len() == size
}

/// The edges in packets of work, in order.
pub open spec fn edges_in(work: Seq<(WorkBucketStage, WorkPacket)>) -> Seq<Address>
    decreases work.len(),
{
    if work.len() == 0 {
        Seq::empty()
    } else {
        edges_in(work.drop_last()) + packet_edges(work.last().1)
    }
}

/// The edges in a packet, in order.
pub open spec fn packet_edges(packet: WorkPacket) -> Seq<Address> {
    match packet {
        WorkPacket::ProcessEdges { edges, roots: _ } => edges@,
        _ => Seq::empty(),
    }
}

/// Full packets cut the edges visited into pieces of the same length, in order: none is lost, added
/// or moved.
pub proof fn law_packets_cut_the_edges_in_order(
    work: Seq<(WorkBucketStage, WorkPacket)>,
    size: nat,
    k: nat,
)
    requires
        packets_hold(work, 0, size),
        k < work.len(),
    ensures
        edges_in(work).len() == work.len() * size,
        edges_in(work).subrange((k * size) as int, ((k + 1) * size) as int) == packet_edges(
            work[k as int].1,
        ),
    decreases work.len(),
{
    let rest = work.drop_last();
    let n: nat = rest.len();
    assert forall|i: int| 0 <= i < rest.len() implies packet_holds(
        #[trigger] rest[i].1,
        size,
    ) by {
        assert(packet_holds(work[i].1, size));
    }
    assert(packet_holds(work[n as int].1, size));
    if n > 0 {
        law_packets_cut_the_edges_in_order(rest, size, 0);
    } else {
        assert(edges_in(rest).len() == 0);
        assert(n * size == 0) by (nonlinear_arith)
            requires
                n == 0,
        ;
    }
    assert((n + 1) * size == n * size + size) by (nonlinear_arith);
    assert(edges_in(work).len() == work.len() * size);
    if k < n {
        law_packets_cut_the_edges_in_order(rest, size, k);
        assert((k + 1) * size <= n * size) by (nonlinear_arith)
            requires
                k + 1 <= n,
        ;
        assert(k * size <= (k + 1) * size) by (nonlinear_arith);
        assert(edges_in(work).subrange((k * size) as int, ((k + 1) * size) as int) =~= edges_in(
            rest,
        ).subrange((k * size) as int, ((k + 1) * size) as int));
    } else {
        assert(edges_in(work).subrange((k * size) as int, ((k + 1) * size) as int)
            =~= packet_edges(work[k as int].1));
    }
}

/// Whether `after` is `before` with the edges of `buffer` added as a packet.
pub open spec fn edges_added<VM>(
    before: GCWorker<VM>,
    buffer: Seq<Address>,
    after: GCWorker<VM>,
) -> bool {
    &&& after == (GCWorker { added_work: after.added_work, ..before })
    &&& after.added_work@.len() == before.added_work@.len() + 1
    &&& after.added_work@.drop_last() == before.added_work@
    &&& after.added_work@.last().0 == WorkBucketStage::Closure
    &&& after.added_work@.last().1 matches WorkPacket::ProcessEdges { edges, roots } && edges@
        == buffer && !roots
}

/// Adding edges as a packet keeps them in order.
proof fn lemma_edges_added<VM>(before: GCWorker<VM>, buffer: Seq<Address>, after: GCWorker<VM>)
    requires
        edges_added(before, buffer, after),
    ensures
        edges_in(after.added_work@) == edges_in(before.added_work@) + buffer,
{
}

/// Adding a packet keeps how much those from any on hold, where it holds as much itself.
proof fn lemma_full_packet_added<VM>(
    before: GCWorker<VM>,
    buffer: Seq<Address>,
    after: GCWorker<VM>,
)
    requires
        edges_added(before, buffer, after),
    ensures
        forall|first: nat|
            packets_hold(before.added_work@, first, buffer.len()) ==> #[trigger] packets_hold(
                after.added_work@,
                first,
                buffer.len(),
            ),
{
    assert forall|first: nat| packets_hold(before.added_work@, first, buffer.len()) implies
        #[trigger] packets_hold(after.added_work@, first, buffer.len()) by {
        assert forall|i: int| first <= i < after.added_work@.len() implies packet_holds(
            #[trigger] after.added_work@[i].1,
            buffer.len(),
        ) by {
            if 0 <= i < before.added_work@.len() {
                assert(after.added_work@[i] == after.added_work@.drop_last()[i]);
                assert(packet_holds(before.added_work@[i].1, buffer.len()));
            }
        }
    }
}

impl<'a, E: ProcessEdgesWork> ObjectsClosure<'a, E> {
    /// The edges here do not make a packet full.
    pub open spec fn wf(&self) -> bool {
        self.buffer@.len() < full_packet::<E>()
    }

    /// The edges visited: those added to the work, and those still here.
    pub open spec fn visited(&self) -> Seq<Address> {
        edges_in(self.worker.added_work@) + self.buffer@
    }

    pub fn new(worker: &'a mut GCWorker<E::VM>) -> (c: Self)
        ensures
            c.wf(),
            c.buffer@ == Seq::<Address>::empty(),
            *c.worker == *old(worker),
            *final(c.worker) == *final(worker),
    {
        ObjectsClosure { buffer: Vec::new(), worker }
    }

    /// Adds the edges collected to the work, even if there are none.
    pub fn flush(&mut self)
        ensures
            final(self).wf(),
            final(self).buffer@ == Seq::<Address>::empty(),
            edges_added(*old(self).worker, old(self).buffer@, *final(self).worker),
            final(self).visited() == old(self).visited(),
            *final(final(self).worker) == *final(old(self).worker),
    {
        let mut new_edges: Vec<Address> = Vec::new();
        std::mem::swap(&mut new_edges, &mut self.buffer);
        self.worker.add_work(
            WorkBucketStage::Closure,
            WorkPacket::ProcessEdges { edges: new_edges, roots: false },
        );
        proof {
            assert(self.worker.added_work@.drop_last() == old(self).worker.added_work@);
            lemma_edges_added(*old(self).worker, old(self).buffer@, *self.worker);
        }
    }

    /// Takes the edge at `slot`. Where that makes a packet full, it is added to the work. So every
    /// packet that is added here is full.
    pub fn visit_edge(&mut self, slot: Address)
        requires
            old(self).wf(),
        ensures
            final(self).wf(),
            final(self).visited() == old(self).visited().push(slot),
            old(self).buffer@.len() + 1 < full_packet::<E>() ==> final(self).buffer@ == old(
                self,
            ).buffer@.push(slot) && *final(self).worker == *old(self).worker,
            old(self).buffer@.len() + 1 == full_packet::<E>() ==> final(self).buffer@.len() == 0
                && edges_added(
                *old(self).worker,
                old(self).buffer@.push(slot),
                *final(self).worker,
            ),
            forall|first: nat|
                packets_hold(old(self).worker.added_work@, first, full_packet::<E>())
                    ==> #[trigger] packets_hold(
                    final(self).worker.added_work@,
                    first,
                    full_packet::<E>(),
                ),
            *final(final(self).worker) == *final(old(self).worker),
    {
        self.buffer.push(slot);
        if self.buffer.len() >= E::CAPACITY {
            let mut new_edges: Vec<Address> = Vec::new();
            std::mem::swap(&mut new_edges, &mut self.buffer);
            self.worker.add_work(
                WorkBucketStage::Closure,
                WorkPacket::ProcessEdges { edges: new_edges, roots: false },
            );
            proof {
                assert(self.worker.added_work@.drop_last() == old(self).worker.added_work@);
                lemma_edges_added(*old(self).worker, old(self).buffer@.push(slot), *self.worker);
                lemma_full_packet_added(
                    *old(self).worker,
                    old(self).buffer@.push(slot),
                    *self.worker,
                );
            }
        }
    }

    /// Takes the soft reference `reff`.
    pub fn visit_soft_ref(
        &mut self,
        reference_processors: &mut ReferenceProcessors,
        reff: ObjectReference,
    )
        ensures
            final(self).buffer == old(self).buffer,
            *final(self).worker == (GCWorker {
                reference_buffer: ReferenceBuffer {
                    soft_refs: final(self).worker.reference_buffer.soft_refs,
                    ..old(self).worker.reference_buffer
                },
                ..*old(self).worker
            }),
            old(self).worker.reference_buffer.do_buffer ==> {
                &&& final(self).worker.reference_buffer.soft_refs@ == old(
                    self,
                ).worker.reference_buffer.soft_refs@.push(reff)
                &&& *final(reference_processors) == *old(reference_processors)
            },
            !old(self).worker.reference_buffer.do_buffer ==> {
                &&& *final(self).worker == *old(self).worker
                &&& *final(reference_processors) == (ReferenceProcessors {
                    soft: final(reference_processors).soft,
                    ..*old(reference_processors)
                })
                &&& candidates_added(
                    old(reference_processors).soft,
                    set![reff],
                    final(reference_processors).soft,
                )
            },
            *final(final(self).worker) == *final(old(self).worker),
    {
        self.worker.reference_buffer.add_soft_ref(reference_processors, reff);
    }

    /// Takes the weak reference `reff`.
    pub fn visit_weak_ref(
        &mut self,
        reference_processors: &mut ReferenceProcessors,
        reff: ObjectReference,
    )
        ensures
            final(self).buffer == old(self).buffer,
            *final(self).worker == (GCWorker {
                reference_buffer: ReferenceBuffer {
                    weak_refs: final(self).worker.reference_buffer.weak_refs,
                    ..old(self).worker.reference_buffer
                },
                ..*old(self).worker
            }),
            old(self).worker.reference_buffer.do_buffer ==> {
                &&& final(self).worker.reference_buffer.weak_refs@ == old(
                    self,
                ).worker.reference_buffer.weak_refs@.push(reff)
                &&& *final(reference_processors) == *old(reference_processors)
            },
            !old(self).worker.reference_buffer.do_buffer ==> {
                &&& *final(self).worker == *old(self).worker
                &&& *final(reference_processors) == (ReferenceProcessors {
                    weak: final(reference_processors).weak,
                    ..*old(reference_processors)
                })
                &&& candidates_added(
                    old(reference_processors).weak,
                    set![reff],
                    final(reference_processors).weak,
                )
            },
            *final(final(self).worker) == *final(old(self).worker),
    {
        self.worker.reference_buffer.add_weak_ref(reference_processors, reff);
    }

    /// Takes the phantom reference `reff`.
    pub fn visit_phantom_ref(
        &mut self,
        reference_processors: &mut ReferenceProcessors,
        reff: ObjectReference,
    )
        ensures
            final(self).buffer == old(self).buffer,
            *final(self).worker == (GCWorker {
                reference_buffer: ReferenceBuffer {
                    phantom_refs: final(self).worker.reference_buffer.phantom_refs,
                    ..old(self).worker.reference_buffer
                },
                ..*old(self).worker
            }),
            old(self).worker.reference_buffer.do_buffer ==> {
                &&& final(self).worker.reference_buffer.phantom_refs@ == old(
                    self,
                ).worker.reference_buffer.phantom_refs@.push(reff)
                &&& *final(reference_processors) == *old(reference_processors)
            },
            !old(self).worker.reference_buffer.do_buffer ==> {
                &&& *final(self).worker == *old(self).worker
                &&& *final(reference_processors) == (ReferenceProcessors {
                    phantom: final(reference_processors).phantom,
                    ..*old(reference_processors)
                })
                &&& candidates_added(
                    old(reference_processors).phantom,
                    set![reff],
                    final(reference_processors).phantom,
                )
            },
            *final(final(self).worker) == *final(old(self).worker),
    {
        self.worker.reference_buffer.add_phantom_ref(reference_processors, reff);
    }
}

} // verus!
