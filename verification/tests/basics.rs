use mmtk::memory_manager;
use mmtk::plan::gc_work::{ClearCommonPlanUnlogBits, CommonPlan, SetCommonPlanUnlogBits};
use mmtk::plan::lxr::mutator::{
    create_lxr_mutator, lxr_mutator_prepare, lxr_mutator_release, BarrierSelector, Mutator,
    MutatorFunction,
};
use mmtk::policy::immortalspace::{ImmortalSpace, ImmortalSpaceArgs};
use mmtk::policy::largeobjectspace::LargeObjectSpaceArgs;
use mmtk::policy::lxr::LXRLargeObjectSpace;
use mmtk::util::address::{Address, ObjectReference};
use mmtk::util::allocation::allocator::{align_allocation, get_maximum_aligned_size};
use mmtk::util::allocation::allocators::{
    create_allocator_mapping, AllocationSemantics, AllocatorSelector,
};
use mmtk::util::allocation::large_object_allocator::SpaceKind;
use mmtk::util::conversions::bytes_to_pages_up;
use mmtk::util::debug_util::breakpoint;
use mmtk::util::object_forwarding::{
    state_is_forwarded_or_being_forwarded, ForwardingTable, BEING_FORWARDED, FORWARDED,
    FORWARDING_NOT_TRIGGERED_YET,
};
use mmtk::util::options::GCTriggerSelector;
use mmtk::util::statistics::counter::array::BoundedArray;
use mmtk::util::test_util::fixtures::{
    Fixture, FixtureContent, MMTKSingleton, MutatorFixture, SerialFixture,
};
use mmtk::util::test_util::mock_vm::MockVM;
use mmtk::vm::active_plan::ActivePlan;
use mmtk::vm::object_model::CopySemantics;
use mmtk::vm::vmspace::VMSpace;
use std::cell::Cell;

const ALL: [AllocationSemantics; 7] = [
    AllocationSemantics::Default,
    AllocationSemantics::Immortal,
    AllocationSemantics::Los,
    AllocationSemantics::Code,
    AllocationSemantics::ReadOnly,
    AllocationSemantics::LargeCode,
    AllocationSemantics::NonMoving,
];

#[test]
fn mapping_of_allocators() {
    let mut map = create_allocator_mapping();
    for s in ALL {
        assert_eq!(map.get(s), AllocatorSelector::Unassigned);
    }
    map.set(AllocationSemantics::Code, AllocatorSelector::Malloc(3));
    for s in ALL {
        let expected = if s == AllocationSemantics::Code {
            AllocatorSelector::Malloc(3)
        } else {
            AllocatorSelector::Unassigned
        };
        assert_eq!(map.get(s), expected);
    }
}

#[test]
fn mutators_of_the_plan() {
    let f = MutatorFixture::create();
    let m: Mutator<MockVM> = create_lxr_mutator(9, &f.mmtk);
    assert_eq!(m.mutator_tls, 9);
    assert_eq!(m.barrier, BarrierSelector::FieldBarrier);
    for s in ALL {
        let expected = match s {
            AllocationSemantics::Default => AllocatorSelector::Immix(0),
            AllocationSemantics::Los => AllocatorSelector::LargeObject(0),
            _ => AllocatorSelector::Unassigned,
        };
        assert_eq!(m.config.allocator_mapping.get(s), expected);
    }
    assert_eq!(
        m.config.space_mapping,
        vec![
            (AllocatorSelector::Immix(0), SpaceKind::Immix),
            (AllocatorSelector::LargeObject(0), SpaceKind::LXRLargeObject),
        ]
    );
    assert_eq!(m.config.prepare_func, MutatorFunction::LXRPrepare);
    assert_eq!(m.config.release_func, MutatorFunction::LXRRelease);
    assert_eq!(m.plan, f.mmtk.plan.handle());
    assert_eq!(m.plan.immix_space, 0x4000_0000);
    assert_eq!(m.plan.los, 0x8000_0000);
    assert_eq!(m.allocators.immix.as_ref().unwrap().tls, 9);
    assert_eq!(m.allocators.large_object.as_ref().unwrap().space, SpaceKind::LXRLargeObject);
}

#[test]
fn mutators_let_go_of_their_memory() {
    let mut f = MutatorFixture::create();
    let default = AllocationSemantics::Default;
    let a = memory_manager::allocate(&mut f.mutator, &mut f.mmtk.plan, 16, 8, 0, default);
    let b = memory_manager::allocate(&mut f.mutator, &mut f.mmtk.plan, 16, 8, 0, default);
    assert_eq!(b.0, a.0 + 16);
    lxr_mutator_prepare(&mut f.mutator, 3);
    assert!(f.mutator.allocators.immix.as_ref().unwrap().cursor.is_zero());
    let c = memory_manager::allocate(&mut f.mutator, &mut f.mmtk.plan, 16, 8, 0, default);
    // It has a new block.
    assert_ne!(c.0 / 32768, a.0 / 32768);
    lxr_mutator_release(&mut f.mutator, 3);
    assert!(f.mutator.allocators.immix.as_ref().unwrap().limit.is_zero());
    // By the functions that the mutator holds.
    for function in [f.mutator.config.prepare_func, f.mutator.config.release_func] {
        memory_manager::allocate(&mut f.mutator, &mut f.mmtk.plan, 16, 8, 0, default);
        assert!(!f.mutator.allocators.immix.as_ref().unwrap().cursor.is_zero());
        function.call(&mut f.mutator, 3);
        assert!(f.mutator.allocators.immix.as_ref().unwrap().cursor.is_zero());
    }
}

#[test]
fn allocation_ends_with_the_heap() {
    let mut f = MutatorFixture::create_with_heapsize(2 * 32768);
    let default = AllocationSemantics::Default;
    let mut n = 0;
    let mut last = 0;
    loop {
        let a = memory_manager::allocate(&mut f.mutator, &mut f.mmtk.plan, 8192, 4, 0, default);
        if a.is_zero() {
            break;
        }
        assert_ne!(a.0, last);
        last = a.0;
        n += 1;
    }
    assert_eq!(n, 8);
    let large = AllocationSemantics::Los;
    let a = memory_manager::allocate(&mut f.mutator, &mut f.mmtk.plan, 40000, 8, 0, large);
    assert_eq!(a, Address(0x8000_0000));
    let a = memory_manager::allocate(&mut f.mutator, &mut f.mmtk.plan, 70000, 8, 0, large);
    assert!(a.is_zero());
    // The alignment alone takes a page, and any offset can be aligned.
    let a = memory_manager::allocate(&mut f.mutator, &mut f.mmtk.plan, 0, 16, 0, large);
    assert_eq!(a, Address(0x8000_0000 + 10 * 4096));
    let a = memory_manager::allocate(&mut f.mutator, &mut f.mmtk.plan, 100, 64, 5, large);
    assert_eq!(a, Address(0x8000_0000 + 11 * 4096 + 59));
}

#[test]
fn fixtures_are_created_when_they_are_used() {
    let mut f: SerialFixture<MMTKSingleton> = SerialFixture::default();
    assert!(f.content.is_none());
    let calls = Cell::new(0);
    f.with_fixture(|c: &MMTKSingleton| {
        assert!(c.mmtk.initialized);
        assert!(!c.mmtk.collection_enabled);
        assert_eq!(c.mmtk.options.gc_trigger, GCTriggerSelector::FixedHeapSize(1024 * 1024));
        calls.set(calls.get() + 1);
    });
    f.with_fixture_mut(|c: &mut MMTKSingleton| {
        c.mmtk.collection_enabled = true;
        calls.set(calls.get() + 1);
    });
    // The same content is there the next time.
    f.with_fixture(|c: &MMTKSingleton| {
        assert!(c.mmtk.collection_enabled);
        calls.set(calls.get() + 1);
    });
    assert_eq!(calls.get(), 3);
}

/// Counts in what is created how often that is looked at.
struct Looks(Cell<u32>);

impl FixtureContent for Looks {
    fn create() -> Self {
        Looks(Cell::new(0))
    }
}

#[test]
fn fixtures_are_created_once() {
    let mut f: Fixture<Looks> = Fixture::default();
    assert!(f.content.is_none());
    for n in 0..3 {
        f.with_fixture(|c: &Looks| {
            assert_eq!(c.0.get(), n);
            c.0.set(n + 1);
        });
    }
    f.initialize();
    f.read(|c: &Looks| assert_eq!(c.0.get(), 3));
}

#[test]
fn aligning() {
    let a = |region, align, offset| {
        align_allocation::<MockVM>(Address(region), align, offset).as_usize()
    };
    assert_eq!(a(64, 64, 0), 64);
    assert_eq!(a(68, 64, 0), 128);
    assert_eq!(a(68, 64, 60), 68);
    assert_eq!(a(68, 8, 4), 68);
    assert_eq!(a(66, 4, 0), 68);
    assert_eq!(get_maximum_aligned_size::<MockVM>(100, 4), 100);
    assert_eq!(get_maximum_aligned_size::<MockVM>(100, 16), 112);
    assert_eq!(bytes_to_pages_up(0), 0);
    assert_eq!(bytes_to_pages_up(1), 1);
    assert_eq!(bytes_to_pages_up(4096), 1);
    assert_eq!(bytes_to_pages_up(4097), 2);
    assert_eq!(Address(4097).align_down(4096), Address(4096));
    assert_eq!(Address(4097).align_up(4096), Address(8192));
    assert_eq!(Address(4096).align_up(4096), Address(4096));
}

#[test]
fn forwarding() {
    let mut t = ForwardingTable::new(0x1000, 16);
    let o = ObjectReference(0x1020);
    assert!(!t.is_forwarded(o));
    assert_eq!(t.attempt_to_forward(o), FORWARDING_NOT_TRIGGERED_YET);
    assert_eq!(t.attempt_to_forward(o), BEING_FORWARDED);
    assert!(state_is_forwarded_or_being_forwarded(BEING_FORWARDED));
    assert!(!state_is_forwarded_or_being_forwarded(FORWARDING_NOT_TRIGGERED_YET));
    // Without room, the right to move the object is given back.
    let mut full = MockVM::new(16, 0x1080, 0x1080);
    assert_eq!(t.try_forward_object(o, CopySemantics::DefaultCopy, &mut full), None);
    assert_eq!(t.attempt_to_forward(o), FORWARDING_NOT_TRIGGERED_YET);
    let mut vm = MockVM::new(16, 0x1080, 0x1100);
    let to = t.try_forward_object(o, CopySemantics::DefaultCopy, &mut vm);
    assert_eq!(to, Some(ObjectReference(0x1080)));
    assert!(t.is_forwarded(o));
    assert_eq!(t.read_forwarding_pointer(o), ObjectReference(0x1080));
    assert_eq!(t.spin_and_get_forwarded_object(o, FORWARDED), ObjectReference(0x1080));
}

#[test]
fn bounded_arrays() {
    let mut a: BoundedArray<u32, 4> = BoundedArray::new(7);
    assert_eq!(a.get(3), Some(7));
    assert_eq!(a.get(4), None);
    assert!(a.set(2, 9));
    assert!(!a.set(4, 9));
    assert_eq!((a.get(1), a.get(2)), (Some(7), Some(9)));
}

#[test]
fn breakpoints_do_nothing() {
    breakpoint::gc_start(1);
    breakpoint::trace_object(2);
    breakpoint::scan_object(3);
    breakpoint::follow_edge(4, 5);
    breakpoint::gc_end(1);
}

#[test]
fn mutators_are_gone_through_in_order() {
    let mut vm = MockVM::new(16, 0, 0);
    vm.mutator_threads = vec![5, 3, 8];
    let mut it = vm.mutators();
    assert_eq!(it.next(&mut vm), Some(5));
    assert_eq!(it.next(&mut vm), Some(3));
    // A new iterator starts again.
    let mut again = vm.mutators();
    assert_eq!(again.collect(&mut vm), vec![5, 3, 8]);
    assert_eq!(again.next(&mut vm), None);
    assert_eq!(vm.number_of_mutators(), 3);
    assert!(vm.is_mutator(8));
    assert!(!vm.is_mutator(4));
}

fn immortal(granules: usize) -> ImmortalSpace {
    VMSpace::new(ImmortalSpaceArgs {
        name: "vm",
        start: Address(0x1000),
        granules,
        needs_log_bit: true,
    })
}

#[test]
fn the_space_of_the_virtual_machine() {
    let mut s = immortal(4);
    assert_eq!(s.common.name, "vm");
    assert_eq!(s.mark_state, 0);
    VMSpace::prepare(&mut s);
    assert_eq!(s.mark_state, 1);
    VMSpace::release(&mut s);
    assert_eq!(s.mark_state, 1);
    VMSpace::prepare(&mut s);
    assert_eq!(s.mark_state, 0);
}

#[test]
fn log_bits_of_all_spaces() {
    let mut common = CommonPlan { immortal: immortal(2), nonmoving: immortal(3) };
    let mut los = Some(LXRLargeObjectSpace::new(
        LargeObjectSpaceArgs {
            name: "los",
            start: Address(0x8000_0000),
            pages: 1,
            needs_log_bit: true,
        },
        false,
        true,
    ));
    SetCommonPlanUnlogBits.do_work(&mut common, &mut los);
    assert_eq!(common.immortal.unlog.entries, vec![1, 1]);
    assert_eq!(common.nonmoving.unlog.entries, vec![1, 1, 1]);
    assert!(los.as_ref().unwrap().los.field_unlog.entries.iter().all(|b| *b == 1));
    ClearCommonPlanUnlogBits.do_work(&mut common, &mut los);
    assert_eq!(common.nonmoving.unlog.entries, vec![0, 0, 0]);
    assert!(los.as_ref().unwrap().los.field_unlog.entries.iter().all(|b| *b == 0));
    let mut none: Option<LXRLargeObjectSpace> = None;
    SetCommonPlanUnlogBits.do_work(&mut common, &mut none);
    assert_eq!(common.immortal.unlog.entries, vec![1, 1]);
    assert!(none.is_none());
}
