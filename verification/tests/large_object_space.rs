use mmtk::plan::tracing::VectorObjectQueue;
use mmtk::policy::largeobjectspace::{LargeObjectSpace, LargeObjectSpaceArgs};
use mmtk::policy::lxr::LXRLargeObjectSpace;
use mmtk::util::address::{Address, ObjectReference};
use mmtk::util::allocation::allocator::AllocatorContext;
use mmtk::util::allocation::large_object_allocator::{LargeObjectAllocator, SpaceKind};
use mmtk::util::metadata::side_metadata::SideMetadataSpec;
use mmtk::util::test_util::mock_vm::MockVM;

const START: usize = 0x8000_0000;
const PAGE: usize = 4096;

fn args(pages: usize) -> LargeObjectSpaceArgs {
    LargeObjectSpaceArgs { name: "los", start: Address(START), pages, needs_log_bit: true }
}

fn space(pages: usize) -> LXRLargeObjectSpace {
    LXRLargeObjectSpace::new(args(pages), false, true)
}

/// Allocates an object of `pages` pages, and sets up its tables.
fn object(s: &mut LXRLargeObjectSpace, pages: usize) -> ObjectReference {
    let a = s.allocate_pages(pages);
    assert!(!a.is_zero());
    let o = ObjectReference(a.0);
    s.initialize_object_metadata(o, pages * PAGE);
    o
}

#[test]
fn a_new_large_object_space_is_empty() {
    let s = space(4);
    assert_eq!(s.name(), "los");
    assert_eq!(s.common().extra_metadata, vec![SideMetadataSpec::LosPageReuseCount]);
    assert!(!s.is_movable());
    let o = ObjectReference(START);
    assert!(!s.pin_object(o));
    assert!(!s.unpin_object(o));
    assert!(s.is_object_pinned(o));
    assert!(!LXRLargeObjectSpace::may_move_objects());
    assert_eq!(s.num_pages_released_lazy(), 0);
    assert!(!s.los.protect_memory_on_release);
    assert!(s.los.clear_log_bit_on_sweep);
    assert!(s.los.treadmill.alloc_nursery.is_empty());
}

#[test]
fn pages_are_taken_from_the_first_place_with_room() {
    let mut s = space(6);
    assert_eq!(s.allocate_pages(2), Address(START));
    assert_eq!(s.allocate_pages(2), Address(START + 2 * PAGE));
    assert_eq!(s.allocate_pages(3), Address(0));
    s.release_multiple_pages(Address(START));
    assert_eq!(s.allocate_pages(3), Address(0));
    assert_eq!(s.allocate_pages(2), Address(START));
    assert_eq!(s.allocate_pages(1), Address(START + 4 * PAGE));
}

#[test]
fn new_objects_are_marked_and_counted() {
    let mut s = space(8);
    let a = object(&mut s, 2);
    assert_eq!(s.los.treadmill.alloc_nursery, vec![a]);
    assert!(s.is_marked(a));
    assert_eq!(s.los.page_reuse_counts.load(0), 0);
    // The reuse counts of the pages go up where they are to, and wrap round.
    s.bump_page_reuse_count = true;
    s.los.page_reuse_counts.store(3, 255);
    let p = s.allocate_pages(3);
    let b = ObjectReference(p.0 + 16);
    s.initialize_object_metadata(b, 2 * PAGE + 1 - 16);
    assert_eq!(s.los.page_reuse_counts.load(1), 0);
    assert_eq!(s.los.page_reuse_counts.load(2), 1);
    assert_eq!(s.los.page_reuse_counts.load(3), 0);
    assert_eq!(s.los.page_reuse_counts.load(4), 0);
}

#[test]
fn marking_touches_only_its_bits() {
    let mut s = space(2);
    let o = ObjectReference(START);
    s.los.mark_nursery.store(0, 0b1111_0110);
    assert!(s.is_marked(o));
    assert!(!s.attempt_mark(o));
    assert_eq!(s.los.mark_nursery.load(0), 0b1111_0110);
    s.prepare(true);
    assert!(!s.is_marked(o));
    assert!(s.attempt_mark(o));
    assert_eq!(s.los.mark_nursery.load(0), 0b1111_0101);
    assert!(!s.test_and_mark(o));
    s.prepare(false);
    assert!(s.is_marked(o));
    s.prepare(true);
    assert!(!s.is_marked(o));
}

#[test]
fn large_objects_are_queued_once() {
    let mut s = space(2);
    let o = ObjectReference(START);
    s.prepare(true);
    let mut q = VectorObjectQueue::new();
    assert_eq!(s.trace_object(&mut q, o), o);
    assert_eq!(s.trace_object(&mut q, o), o);
    assert_eq!(s.sft_trace_object(&mut q, o), o);
    assert_eq!(q.take(), vec![o]);
}

#[test]
fn liveness_of_large_objects() {
    let mut s = space(2);
    let o = ObjectReference(START);
    assert!(!s.is_live(o));
    s.rc.set(o, 1);
    assert!(s.is_live(o));
    s.prepare(true);
    assert!(s.is_live(o));
    assert!(!s.is_reachable(o));
    s.is_end_of_satb_or_full_gc = true;
    assert!(!s.is_live(o));
    s.attempt_mark(o);
    assert!(s.is_live(o));
    assert!(s.is_reachable(o));
    s.rc.set(o, 0);
    assert!(!s.is_live(o));
    assert!(!s.is_reachable(o));
}

#[test]
fn new_objects_survive_by_their_counts() {
    let mut s = space(8);
    let a = object(&mut s, 2);
    let b = object(&mut s, 3);
    let c = object(&mut s, 1);
    s.rc.set(a, 1);
    s.rc.set(c, 1);
    s.set_side_log_bits();
    s.release(false);
    assert!(s.los.treadmill.alloc_nursery.is_empty());
    assert_eq!(s.los.treadmill.mature, vec![a, c]);
    assert_eq!(s.los.used, vec![true, true, false, false, false, true, false, false]);
    assert_eq!(s.los.lengths, vec![2, 0, 0, 0, 0, 1, 0, 0]);
    // The log entries of the pages given back are cleared, and no others.
    assert_eq!(s.los.field_unlog.load(2 * 512 - 1), 1);
    assert_eq!(s.los.field_unlog.load(2 * 512), 0);
    assert_eq!(s.los.field_unlog.load(5 * 512 - 1), 0);
    assert_eq!(s.los.field_unlog.load(5 * 512), 1);
    // These pages are not counted as given back lazily, and can be allocated again.
    assert_eq!(s.num_pages_released_lazy(), 0);
    assert_eq!(s.allocate_pages(3), Address(b.0));
    s.clear_side_log_bits();
    assert_eq!(s.los.field_unlog.load(0), 0);
}

#[test]
fn freed_objects_give_their_pages_back() {
    let mut s = space(8);
    let a = object(&mut s, 2);
    let b = object(&mut s, 3);
    s.rc.set(a, 1);
    s.rc.set(b, 1);
    s.release_rc_nursery_objects();
    s.rc.set(b, 0);
    s.rc_free(b);
    assert_eq!(s.los.treadmill.mature, vec![a]);
    assert_eq!(s.num_pages_released_lazy(), 3);
    // It is not there any more.
    s.rc_free(b);
    assert_eq!(s.num_pages_released_lazy(), 3);
    s.prepare(false);
    assert_eq!(s.num_pages_released_lazy(), 0);
}

#[test]
fn dead_objects_are_swept_after_a_trace() {
    let mut s = space(8);
    let a = object(&mut s, 2);
    let b = object(&mut s, 3);
    let c = object(&mut s, 1);
    for o in [a, b, c] {
        s.rc.set(o, 2);
    }
    s.release_rc_nursery_objects();
    s.sweep_rc_mature_objects_after_satb(&|o: ObjectReference| o == b);
    assert_eq!(s.los.treadmill.mature, vec![b]);
    assert_eq!(s.rc.count(a), 0);
    assert_eq!(s.rc.count(b), 2);
    assert_eq!(s.rc.count(c), 0);
    assert_eq!(s.num_pages_released_lazy(), 3);
    assert_eq!(s.los.used, vec![false, false, true, true, true, false, false, false]);
}

#[test]
fn large_object_allocation() {
    let context = AllocatorContext { max_heap_pages: 6, out_of_memory: false };
    let mut s = space(8);
    let mut a: LargeObjectAllocator<MockVM> =
        LargeObjectAllocator::new(7, SpaceKind::LXRLargeObject, context);
    assert_eq!(a.get_tls(), 7);
    assert_eq!(a.get_space(), SpaceKind::LXRLargeObject);
    assert_eq!(a.get_context().max_heap_pages, 6);
    assert!(!a.does_thread_local_allocation());
    // A page exactly, at the least alignment.
    assert_eq!(a.allocate(&mut s, PAGE, 4, 0), Address(START));
    // One byte more than a page can hold once it is aligned.
    assert_eq!(a.allocate(&mut s, PAGE - 59, 64, 0), Address(START + PAGE));
    assert_eq!(s.los.lengths[1], 2);
    let r = a.allocate(&mut s, 100, 64, 4);
    assert_eq!(r, Address(START + 3 * PAGE + 60));
    assert!(r.add_bytes(4).is_aligned_to(64));
    // More than the heap can ever have.
    assert_eq!(a.allocate(&mut s, 7 * PAGE, 4, 0), Address(0));
    assert!(a.get_context().out_of_memory);
    // No room.
    assert_eq!(a.allocate(&mut s, 5 * PAGE, 4, 0), Address(0));
    assert_eq!(a.alloc_slow_once(&mut s, 4 * PAGE, 4, 0), Address(START + 4 * PAGE));
}

#[test]
fn plain_large_object_spaces_serve_too() {
    let context = AllocatorContext { max_heap_pages: 6, out_of_memory: false };
    let mut s = LargeObjectSpace::new_with_extra_side_metadata_specs(args(2), true, false, vec![]);
    let mut a: LargeObjectAllocator<MockVM> =
        LargeObjectAllocator::new(0, SpaceKind::LargeObject, context);
    assert_eq!(a.allocate(&mut s, 10, 8, 0), Address(START));
    assert_eq!(s.used, vec![true, false]);
}
