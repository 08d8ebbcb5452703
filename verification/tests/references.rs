use mmtk::plan::status::PlanStatus;
use mmtk::plan::transitive_closure::{ObjectsClosure, TransitiveClosure};
use mmtk::scheduler::gc_work::{ProcessEdgesWork, EDGES_CAPACITY};
use mmtk::scheduler::worker::GCWorker;
use mmtk::scheduler::{GCWorkScheduler, WorkBucketStage, WorkPacket};
use mmtk::util::address::{Address, ObjectReference};
use mmtk::util::reference_processor::{ReferenceProcessor, Semantics};
use mmtk::util::reference_processors::ReferenceProcessors;
use mmtk::util::rounding::to_single;
use mmtk::util::reference_work::{
    FlushWorkerRefBuffer, PhantomRefProcessing, RefEnqueue, RefForwarding, ReferenceBuffer,
    ScheduleFlushWorkerRefBuffer, SoftRefProcessing, WeakRefProcessing,
};
use mmtk::util::test_util::mock_vm::{MockTrace, MockVM, TraceMode};
use std::collections::HashSet;
use std::marker::PhantomData;

const NULL: ObjectReference = ObjectReference(0);

fn o(a: usize) -> ObjectReference {
    ObjectReference(a)
}

fn set(addresses: &[usize]) -> HashSet<usize> {
    addresses.iter().cloned().collect()
}

fn status(emergency: bool) -> PlanStatus {
    PlanStatus {
        emergency_collection: emergency,
        current_gc_nursery: false,
        needs_forward_after_liveness: true,
    }
}

/// A world with one reference of each kind: 16 is dead, 32 has no referent, the referent of 48 is
/// alive, and that of 64 is dead.
fn world(mode: TraceMode) -> MockTrace {
    let mut w = MockTrace::new(mode, 0x1000);
    w.add_object(o(16), o(160), false);
    w.add_object(o(32), NULL, true);
    w.add_object(o(48), o(160), true);
    w.add_object(o(64), o(176), true);
    w.add_object(o(160), NULL, true);
    w.add_object(o(176), NULL, false);
    w
}

fn table() -> Vec<ObjectReference> {
    vec![o(16), o(32), o(48), o(64)]
}

#[test]
fn new_processors_are_empty() {
    let p = ReferenceProcessors::new();
    for s in [Semantics::SOFT, Semantics::WEAK, Semantics::PHANTOM] {
        assert_eq!(p.get(s).semantics, s);
        assert!(p.get(s).references.is_empty());
        assert!(p.get(s).enqueued_references.is_empty());
        assert!(p.get(s).allow_new_candidate);
    }
    let d = ReferenceProcessors::default();
    assert_eq!(d.get(Semantics::WEAK).semantics, Semantics::WEAK);
}

#[test]
fn candidates_go_to_their_processor_once() {
    let mut p = ReferenceProcessors::new();
    p.add_soft_candidate(o(16));
    p.add_soft_candidates(&[o(16), o(32)]);
    p.add_weak_candidate(o(48));
    p.add_weak_candidates(&[]);
    p.add_phantom_candidate(o(64));
    p.add_phantom_candidates(&[o(80), o(96)]);
    assert_eq!(p.get(Semantics::SOFT).references, set(&[16, 32]));
    assert_eq!(p.get(Semantics::WEAK).references, set(&[48]));
    assert_eq!(p.get(Semantics::PHANTOM).references, set(&[64, 80, 96]));
}

#[test]
fn candidates_can_be_refused() {
    let mut p = ReferenceProcessor::new(Semantics::WEAK);
    p.allow_new_candidate = false;
    p.add_candidate(o(16));
    p.add_candidates(&[o(32)]);
    p.add_candidates_and_enqueue(&[o(48)], &[o(64)]);
    assert!(p.references.is_empty());
    assert!(p.enqueued_references.is_empty());
    p.enqueue_candidates(&[o(80)]);
    assert_eq!(p.enqueued_references, vec![o(80)]);
    p.allow_new_candidate = true;
    p.add_candidates_and_enqueue(&[o(48)], &[o(64)]);
    assert_eq!(p.references, set(&[48]));
    assert_eq!(p.enqueued_references, vec![o(80), o(64)]);
}

#[test]
fn scan_in_place() {
    let mut w = world(TraceMode::InPlace);
    let mut p = ReferenceProcessor::new(Semantics::WEAK);
    p.add_candidates(&table());
    p.scan(&mut w, false);
    assert_eq!(p.references, set(&[48]));
    assert_eq!(p.enqueued_references, vec![o(64)]);
    assert_eq!(w.get_referent(o(16)), NULL);
    assert_eq!(w.get_referent(o(48)), o(160));
    assert_eq!(w.get_referent(o(64)), NULL);
    assert!(!w.is_live(o(16)));
    assert!(!w.is_live(o(176)));
}

#[test]
fn scan_with_copies() {
    let mut w = world(TraceMode::Copying);
    let mut p = ReferenceProcessor::new(Semantics::WEAK);
    p.add_candidates(&table());
    p.scan(&mut w, false);
    let kept = w.forwarded[&48];
    let enqueued = w.forwarded[&64];
    assert_eq!(p.references, set(&[kept]));
    assert_eq!(p.enqueued_references, vec![o(enqueued)]);
    assert_eq!(w.get_referent(o(kept)), o(w.forwarded[&160]));
    assert_eq!(w.get_referent(o(enqueued)), NULL);
    assert!(!w.forwarded.contains_key(&16));
    assert!(!w.forwarded.contains_key(&176));
    // The copies are at new places.
    assert!(kept >= 0x1000 && enqueued >= 0x1000 && kept != enqueued);
}

#[test]
fn scan_of_one_reference() {
    let mut w = world(TraceMode::Copying);
    let mut enqueued = vec![];
    assert_eq!(ReferenceProcessor::scan_single_reference(&mut w, o(16), &mut enqueued), None);
    assert_eq!(ReferenceProcessor::scan_single_reference(&mut w, o(32), &mut enqueued), None);
    assert!(enqueued.is_empty());
    let kept = ReferenceProcessor::scan_single_reference(&mut w, o(48), &mut enqueued);
    assert_eq!(kept, Some(o(w.forwarded[&48])));
    assert!(enqueued.is_empty());
    assert_eq!(ReferenceProcessor::scan_single_reference(&mut w, o(64), &mut enqueued), None);
    assert_eq!(enqueued, vec![o(w.forwarded[&64])]);
}

#[test]
fn soft_references_keep_their_referents() {
    let mut w = world(TraceMode::Copying);
    let mut p = ReferenceProcessors::new();
    p.add_soft_candidates(&table());
    p.scan_soft_refs(&mut w, &status(false));
    assert_eq!(p.soft.references, set(&[w.forwarded[&48], w.forwarded[&64]]));
    assert!(p.soft.enqueued_references.is_empty());
    assert!(w.is_live(o(176)));
    assert_eq!(w.get_referent(o(w.forwarded[&64])), o(w.forwarded[&176]));
}

#[test]
fn soft_references_are_cleared_in_an_emergency() {
    let mut w = world(TraceMode::InPlace);
    let mut p = ReferenceProcessors::new();
    p.add_soft_candidates(&table());
    p.scan_soft_refs(&mut w, &status(true));
    assert_eq!(p.soft.references, set(&[48]));
    assert_eq!(p.soft.enqueued_references, vec![o(64)]);
    assert!(!w.is_live(o(176)));
}

#[test]
fn retaining_leaves_references_as_they_are() {
    let mut w = world(TraceMode::Copying);
    ReferenceProcessor::retain_single_reference(&mut w, o(16));
    ReferenceProcessor::retain_single_reference(&mut w, o(32));
    assert!(w.forwarded.is_empty());
    ReferenceProcessor::retain_single_reference(&mut w, o(64));
    assert!(w.is_live(o(176)));
    assert_eq!(w.get_referent(o(64)), o(176));
    assert!(!w.forwarded.contains_key(&64));
}

#[test]
fn forwarding_updates_references_and_referents() {
    let mut w = world(TraceMode::Computing);
    w.destinations.insert(48, 0x30);
    w.destinations.insert(64, 0x34);
    w.destinations.insert(160, 0x38);
    let mut p = ReferenceProcessor::new(Semantics::PHANTOM);
    p.add_candidates(&[o(48)]);
    p.enqueue_candidates(&[o(64)]);
    w.set_referent(o(64), NULL);
    p.forward(&mut w, false);
    assert_eq!(p.references, set(&[0x30]));
    assert_eq!(p.enqueued_references, vec![o(0x34)]);
    assert_eq!(w.get_referent(o(48)), o(0x38));
    assert_eq!(w.get_referent(o(64)), NULL);
    // No candidate is taken until the end of the collection.
    p.add_candidate(o(16));
    assert_eq!(p.references, set(&[0x30]));
}

#[test]
fn references_are_handed_over_once() {
    let mut vm = MockVM::new(16, 0, 0);
    let mut p = ReferenceProcessors::new();
    p.add_weak_candidate(o(16));
    p.soft.enqueue_candidates(&[o(32), o(48)]);
    p.phantom.enqueue_candidates(&[o(64)]);
    p.weak.allow_new_candidate = false;
    p.enqueue_refs(&mut vm, 7);
    assert_eq!(vm.received, vec![(vec![o(32), o(48)], 7), (vec![o(64)], 7)]);
    assert!(p.soft.enqueued_references.is_empty());
    assert_eq!(p.weak.references, set(&[16]));
    assert!(p.weak.allow_new_candidate);
    p.enqueue_refs(&mut vm, 8);
    assert_eq!(vm.received.len(), 2);
    // Each list comes with the thread that hands it over.
    p.weak.enqueue_candidates(&[o(80)]);
    p.weak.enqueue(&mut vm, 9);
    assert_eq!(vm.received[2], (vec![o(80)], 9));
}

#[test]
fn tables_are_split_for_the_workers() {
    let mut p = ReferenceProcessor::new(Semantics::WEAK);
    assert!(p.split_ref_table(4, true).is_empty());
    let refs: Vec<ObjectReference> = (1..=10).map(|i| o(i * 16)).collect();
    p.add_candidates(&refs);
    let parts = p.split_ref_table(4, false);
    let sizes: Vec<usize> = parts.iter().map(|c| c.len()).collect();
    assert_eq!(sizes, vec![3, 3, 3, 1]);
    let all: HashSet<usize> = parts.iter().flatten().map(|r| r.0).collect();
    assert_eq!(all, p.references);
    assert_eq!(all.len(), 10);
    // Evenly, and the table is emptied.
    let parts = p.split_ref_table(5, true);
    assert_eq!(parts.len(), 5);
    assert!(parts.iter().all(|c| c.len() == 2));
    assert!(p.references.is_empty());
}

#[test]
fn parts_have_a_greatest_size() {
    let mut p = ReferenceProcessor::new(Semantics::WEAK);
    let refs: Vec<ObjectReference> = (1..=9000).map(|i| o(i * 16)).collect();
    p.add_candidates(&refs);
    let sizes: Vec<usize> = p.split_ref_table(2, false).iter().map(|c| c.len()).collect();
    assert_eq!(sizes, vec![4096, 4096, 808]);
    // Without workers there is a greatest size too.
    assert_eq!(p.split_ref_table(0, false).len(), 3);
    assert_eq!(ReferenceProcessor::MAX_REFERENCES_PER_WORK_PACKET, 4096);
}

#[test]
fn parts_are_reckoned_in_single_precision() {
    let size = ReferenceProcessor::refs_per_work_packet;
    assert_eq!(size(10, 4), 3);
    assert_eq!(size(10, 5), 2);
    assert_eq!(size(1, 1000), 1);
    assert_eq!(size(4097, 1), 4096);
    // The exact quotient is above 2048.
    assert_eq!(size(16777217, 8192), 2048);
    let mut seed: u64 = 1;
    for i in 0..20000 {
        seed = seed.wrapping_mul(6364136223846793005).wrapping_add(1442695040888963407);
        let threads = ((seed >> 33) as usize >> (i % 31)).max(1);
        let len = ((seed >> 12) as usize % (4096 * threads)).max(1);
        assert_eq!(size(len, threads), (len as f32 / threads as f32).ceil() as usize);
    }
    let big = [u64::MAX as usize / 4096, (1 << 52) - 1, (1 << 40) + 1, (1 << 24) + 1, 3, 1];
    for threads in big {
        for len in [1, 2, 3, (1 << 24) - 1, (1 << 24) + 1, (1 << 25) + 3, (1 << 60) + 1, usize::MAX] {
            if len <= 4096 * threads {
                assert_eq!(size(len, threads), (len as f32 / threads as f32).ceil() as usize);
            }
        }
    }
    assert_eq!(to_single(u64::MAX), 1 << 64);
    assert_eq!(to_single(16777217), 16777216);
    assert_eq!(to_single(16777219), 16777220);
}

#[test]
fn retaining_traces_referents_that_are_alive() {
    let mut w = world(TraceMode::InPlace);
    let mut p = ReferenceProcessor::new(Semantics::SOFT);
    p.add_candidates(&[o(48), o(16)]);
    p.retain(&mut w, false);
    // The referent of 48 was alive, and has been traced all the same; nothing else has.
    assert_eq!(w.queue, vec![o(160)]);
    assert_eq!(w.forwarded.len(), 1);
}

#[test]
fn packets_process_references() {
    let mut w = world(TraceMode::InPlace);
    let mut p = ReferenceProcessors::new();
    p.add_soft_candidates(&[o(32)]);
    p.add_weak_candidates(&[o(48)]);
    p.add_phantom_candidates(&[o(64)]);
    SoftRefProcessing::new().do_work(&mut w, &mut p, &status(false));
    WeakRefProcessing::new().do_work(&mut w, &mut p, &status(false));
    PhantomRefProcessing::new().do_work(&mut w, &mut p, &status(false));
    assert!(w.queue.is_empty());
    assert!(p.soft.references.is_empty());
    assert_eq!(p.weak.references, set(&[48]));
    assert_eq!(p.phantom.enqueued_references, vec![o(64)]);
    let mut vm = MockVM::new(16, 0, 0);
    vm.referents.insert(48, 160);
    RefEnqueue::new().do_work(&mut vm, &mut p, 5);
    assert_eq!(vm.received, vec![(vec![o(64)], 5)]);
}

#[test]
fn packets_hand_on_what_they_find() {
    let mut w = world(TraceMode::InPlace);
    let mut p = ReferenceProcessors::new();
    p.add_soft_candidate(o(64));
    p.add_weak_candidate(o(48));
    SoftRefProcessing::new().do_work(&mut w, &mut p, &status(false));
    // The dead referent is kept alive, and the reference is kept.
    assert_eq!(w.handed_on, vec![o(176), o(64)]);
    assert!(w.queue.is_empty());
    WeakRefProcessing::new().do_work(&mut w, &mut p, &status(false));
    assert_eq!(w.handed_on, vec![o(176), o(64), o(48), o(160)]);
    assert!(w.queue.is_empty());
    p.add_phantom_candidate(o(64));
    PhantomRefProcessing::new().do_work(&mut w, &mut p, &status(false));
    // Nothing new was found.
    assert_eq!(w.handed_on.len(), 4);
    assert_eq!(p.phantom.references, set(&[64]));
}

#[test]
fn found_objects_are_queued_once() {
    let mut w = world(TraceMode::InPlace);
    let mut p = ReferenceProcessor::new(Semantics::SOFT);
    p.add_candidate(o(64));
    p.retain(&mut w, false);
    assert_eq!(w.queue, vec![o(176)]);
    p.retain(&mut w, false);
    assert_eq!(w.queue, vec![o(176)]);
    p.scan(&mut w, false);
    assert_eq!(w.queue, vec![o(176), o(64)]);
    assert!(w.handed_on.is_empty());
    w.flush();
    assert!(w.queue.is_empty());
    assert_eq!(w.handed_on, vec![o(176), o(64)]);
}

#[test]
fn a_cleared_reference_may_be_forwarded_twice() {
    let mut w = world(TraceMode::Computing);
    w.destinations.insert(32, 0x28);
    let mut p = ReferenceProcessor::new(Semantics::WEAK);
    p.add_candidate(o(32));
    p.enqueue_candidates(&[o(32)]);
    p.forward(&mut w, false);
    assert_eq!(p.references, set(&[0x28]));
    assert_eq!(p.enqueued_references, vec![o(0x28)]);
    assert_eq!(w.get_referent(o(32)), NULL);
}

#[test]
fn kinds_are_forwarded_in_turn() {
    let mut w = world(TraceMode::Computing);
    w.destinations.insert(48, 0x30);
    w.destinations.insert(64, 0x34);
    let mut p = ReferenceProcessors::new();
    p.add_phantom_candidate(o(32));
    p.add_weak_candidate(o(64));
    p.add_soft_candidate(o(48));
    p.forward_refs(&mut w, &status(false));
    assert_eq!(p.soft.references, set(&[0x30]));
    assert_eq!(p.weak.references, set(&[0x34]));
    // Soft ones first, then weak ones, then phantom ones.
    let at = |object: usize| w.queue.iter().position(|x| *x == o(object)).unwrap();
    assert!(at(0x30) < at(0x34));
    assert!(at(0x34) < at(32));
    for s in [Semantics::SOFT, Semantics::WEAK, Semantics::PHANTOM] {
        let before = p.get(s).references.clone();
        assert!(!p.get(s).allow_new_candidate);
        match s {
            Semantics::SOFT => p.add_soft_candidate(o(160)),
            Semantics::WEAK => p.add_weak_candidate(o(160)),
            Semantics::PHANTOM => p.add_phantom_candidate(o(160)),
        }
        assert_eq!(p.get(s).references, before);
    }
}

#[test]
fn packets_forward_references() {
    let mut w = world(TraceMode::Computing);
    w.destinations.insert(48, 0x70);
    let mut p = ReferenceProcessors::new();
    p.add_soft_candidate(o(32));
    p.add_weak_candidate(o(48));
    RefForwarding::new().do_work(&mut w, &mut p, &status(false));
    assert_eq!(p.soft.references, set(&[32]));
    assert_eq!(p.weak.references, set(&[0x70]));
    assert_eq!(w.get_referent(o(48)), o(160));
    assert!(!p.phantom.allow_new_candidate);
    assert!(w.queue.is_empty());
}

#[test]
fn buffers_keep_or_pass_on() {
    let mut p = ReferenceProcessors::new();
    let mut b = ReferenceBuffer::new();
    b.flush();
    b.add_soft_ref(&mut p, o(16));
    b.add_weak_ref(&mut p, o(32));
    b.add_phantom_ref(&mut p, o(48));
    assert_eq!(p.soft.references, set(&[16]));
    assert_eq!(p.weak.references, set(&[32]));
    assert_eq!(p.phantom.references, set(&[48]));
    b.do_buffer = true;
    b.add_soft_ref(&mut p, o(64));
    b.add_weak_ref(&mut p, o(80));
    b.add_phantom_ref(&mut p, o(96));
    assert_eq!(b.soft_refs, vec![o(64)]);
    assert_eq!(b.weak_refs, vec![o(80)]);
    assert_eq!(b.phantom_refs, vec![o(96)]);
    assert_eq!(p.soft.references, set(&[16]));
}

#[test]
fn buffers_are_checked_by_every_worker() {
    let mut scheduler = GCWorkScheduler::new(3);
    let mut packet: ScheduleFlushWorkerRefBuffer<MockTrace> =
        ScheduleFlushWorkerRefBuffer(PhantomData);
    packet.do_work(&mut scheduler);
    for w in &scheduler.worker_group.workers_shared {
        assert_eq!(w.designated_work.len(), 1);
        assert!(matches!(w.designated_work[0], WorkPacket::FlushWorkerRefBuffer));
    }
    assert!(!scheduler.is_activated(WorkBucketStage::SoftRefClosure));
    let mut b = ReferenceBuffer::new();
    let mut flush: FlushWorkerRefBuffer<MockTrace> = FlushWorkerRefBuffer::new();
    flush.do_work(&mut b, &scheduler);
    assert!(b.soft_refs.is_empty());
    // A queue takes so many packets and no more.
    for _ in 0..20 {
        let _ = scheduler.worker_group.workers_shared[0]
            .push_designated(WorkPacket::PrepareCollector);
    }
    assert_eq!(scheduler.worker_group.workers_shared[0].designated_work.len(), 16);
    scheduler.push_prepare_collector();
    assert_eq!(scheduler.worker_group.workers_shared[0].designated_work.len(), 16);
    assert_eq!(scheduler.worker_group.workers_shared[1].designated_work.len(), 2);
    scheduler.activated.push(WorkBucketStage::SoftRefClosure);
    assert!(scheduler.is_activated(WorkBucketStage::SoftRefClosure));
}

#[test]
fn edges_are_added_in_packets() {
    let mut worker = GCWorker::new(0, MockVM::new(16, 0, 0));
    assert_eq!(MockTrace::CAPACITY, EDGES_CAPACITY);
    let mut p = ReferenceProcessors::new();
    {
        let mut c = ObjectsClosure::<MockTrace>::new(&mut worker);
        for i in 0..EDGES_CAPACITY + 2 {
            c.visit_edge(Address(8 * i));
        }
        assert_eq!(c.buffer.len(), 2);
        c.visit_soft_ref(&mut p, o(16));
        c.visit_weak_ref(&mut p, o(32));
        c.visit_phantom_ref(&mut p, o(48));
        c.flush();
        c.flush();
    }
    assert_eq!(p.soft.references, set(&[16]));
    assert_eq!(p.weak.references, set(&[32]));
    assert_eq!(p.phantom.references, set(&[48]));
    let mut seen = vec![];
    let mut sizes = vec![];
    for (stage, packet) in &worker.added_work {
        assert_eq!(*stage, WorkBucketStage::Closure);
        match packet {
            WorkPacket::ProcessEdges { edges, roots } => {
                assert!(!*roots);
                sizes.push(edges.len());
                seen.extend(edges.iter().map(|a| a.0));
            }
            _ => panic!("unexpected packet"),
        }
    }
    // A flush adds a packet even if it is empty.
    assert_eq!(sizes, vec![EDGES_CAPACITY, 2, 0]);
    let expected: Vec<usize> = (0..EDGES_CAPACITY + 2).map(|i| 8 * i).collect();
    assert_eq!(seen, expected);
}

#[test]
fn nodes_are_queued_in_order() {
    let mut w = world(TraceMode::InPlace);
    TransitiveClosure::process_node(&mut w, o(48));
    TransitiveClosure::process_node(&mut w, o(64));
    assert_eq!(w.queue, vec![o(48), o(64)]);
}
