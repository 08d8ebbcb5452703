//! What holds of the fixtures and of the virtual machine of the tests.
use crate::plan::global::Plan;
use crate::policy::immix::block::Block;
use crate::policy::lxr::immixspace::ImmixHooks;
use crate::scheduler::gc_work::ProcessEdgesWork;
use crate::util::address::ObjectReference;
use crate::util::options::GCTriggerSelector;
use crate::util::test_util::fixtures::{
    Fixture, FixtureContent, MMTKSingleton, MutatorFixture, SerialFixture,
};
use crate::util::test_util::mock_vm::{MockHooks, MockPlan, MockTrace, MockVM, TraceMode};
use crate::vm::active_plan::ActivePlan;
use crate::vm::object_model::{CopySemantics, ObjectModel};
use crate::vm::reference_glue::ReferenceGlue;
use vstd::prelude::*;

verus! {

/// What a fixture holds is created once: whoever uses it next finds what was there, and the function given is called
/// on it.
#[verifier::spinoff_prover]
pub proof fn law_fixture_is_created_once<T: FixtureContent, F: Fn(&T)>(
    made: Fixture<T>,
    first: &mut Fixture<T>,
    f: F,
    second: &mut Fixture<T>,
    g: F,
    initializing: &mut Fixture<T>,
    serial: &mut SerialFixture<T>,
    again: &mut SerialFixture<T>,
)
    requires
        call_ensures(Fixture::<T>::new, (), made),
        call_ensures(Fixture::<T>::with_fixture::<F>, (first, f), ()),
        *second == *final(first),
        call_ensures(Fixture::<T>::with_fixture::<F>, (second, g), ()),
        call_ensures(Fixture::<T>::initialize, (initializing,), ()),
        call_ensures(SerialFixture::<T>::with_fixture::<F>, (serial, f), ()),
        *again == *final(serial),
        call_ensures(SerialFixture::<T>::with_fixture::<F>, (again, g), ()),
    ensures
        made.content is None,
        final(first).content is Some,
        old(first).content matches Some(c) ==> *final(first).content->0 == *c,
        call_ensures(f, (&*final(first).content->0,), ()),
        final(second).content is Some,
        *final(second).content->0 == *final(first).content->0,
        call_ensures(g, (&*final(first).content->0,), ()),
        final(initializing).content is Some,
        old(initializing).content matches Some(c) ==> *final(initializing).content->0 == *c,
        final(serial).content is Some,
        old(serial).content matches Some(c) ==> *final(serial).content->0 == *c,
        call_ensures(f, (&*final(serial).content->0,), ()),
        *final(again).content->0 == *final(serial).content->0,
{
}

/// A fixture with a heap of some size: as many pages and blocks as fit into it, all blocks free, and a mutator of its
/// plan that has no memory at hand. Collections are disabled.
#[verifier::spinoff_prover]
pub proof fn law_fixture_has_its_heap(
    size: usize,
    f: MutatorFixture,
    usual: MutatorFixture,
    alone: MMTKSingleton,
)
    requires
        call_ensures(MutatorFixture::create_with_heapsize, (size,), f),
        call_ensures(<MutatorFixture as FixtureContent>::create, (), usual),
        call_ensures(<MMTKSingleton as FixtureContent>::create, (), alone),
    ensures
        f.mmtk.context.max_heap_pages * 4096 <= size < (f.mmtk.context.max_heap_pages + 1) * 4096,
        ({
            let blocks = f.mmtk.plan.immix_space.immix.block_states@.len();
            &&& blocks * 32768 <= size < (blocks + 1) * 32768
            &&& f.mmtk.plan.immix_space.immix.pr.free@.len() == blocks
        }),
        f.mmtk.options.gc_trigger == GCTriggerSelector::FixedHeapSize(size),
        f.mmtk.initialized && !f.mmtk.collection_enabled,
        f.mutator.plan.immix_space == f.mmtk.plan.immix_space.immix.common.start,
        f.mutator.plan.los == f.mmtk.plan.los.los.common.start,
        f.mutator.allocators.immix is Some && f.mutator.allocators.immix->0.limit@ == 0,
        f.mutator.allocators.large_object is Some,
        usual.mmtk.options.gc_trigger == GCTriggerSelector::FixedHeapSize(0x10_0000),
        usual.mmtk.plan.immix_space.immix.pr.free@.len() == 32,
        usual.mmtk.initialized && !usual.mmtk.collection_enabled,
        alone.mmtk.options.gc_trigger == GCTriggerSelector::FixedHeapSize(0x10_0000),
        alone.mmtk.initialized && !alone.mmtk.collection_enabled,
{
    assert(f.mmtk.plan.immix_space.immix.blocks()
        == f.mmtk.plan.immix_space.immix.block_states@.len());
}

/// Copies of the mock virtual machine lie one after the other, each as large as the object copied, as long as there is
/// room.
#[verifier::spinoff_prover]
pub proof fn law_mock_copies_lie_one_after_the_other(
    first: &mut MockVM,
    a: ObjectReference,
    semantics: CopySemantics,
    to: Option<ObjectReference>,
    size: usize,
    second: &mut MockVM,
    b: ObjectReference,
    next: Option<ObjectReference>,
    copy_size: usize,
)
    requires
        call_ensures(<MockVM as ObjectModel>::get_size, (&*first, a), size),
        call_ensures(<MockVM as ObjectModel>::try_copy, (first, a, semantics), to),
        *second == *final(first),
        call_ensures(<MockVM as ObjectModel>::try_copy, (second, b, semantics), next),
        to is Some ==> call_ensures(
            <MockVM as ObjectModel>::get_size,
            (&*final(first), to->0),
            copy_size,
        ),
    ensures
        to is Some <==> old(first).copy_cursor + size <= old(first).copy_limit,
        to matches Some(o) ==> o.0 == old(first).copy_cursor && copy_size == size,
        to is Some && next is Some ==> next->0@ == to->0@ + size,
        to is None ==> *final(first) == *old(first),
{
}

/// A list that the mock virtual machine is handed is the last that it has received, with its thread; its threads are
/// gone through in order.
#[verifier::spinoff_prover]
pub proof fn law_mock_receives_lists_in_order(
    vm: &mut MockVM,
    references: &Vec<ObjectReference>,
    tls: usize,
    asked: usize,
    is: bool,
    n: usize,
    stepping: &mut MockVM,
    next: Option<usize>,
)
    requires
        call_ensures(<MockVM as ReferenceGlue>::enqueue_references, (vm, references, tls), ()),
        call_ensures(<MockVM as ActivePlan>::is_mutator, (&*vm, asked), is),
        call_ensures(<MockVM as ActivePlan>::number_of_mutators, (&*vm,), n),
        call_ensures(<MockVM as ActivePlan>::get_next_mutator, (stepping,), next),
    ensures
        final(vm).received@.len() == old(vm).received@.len() + 1,
        final(vm).received@.last().0@ == references@,
        final(vm).received@.last().1 == tls,
        is <==> old(vm).mutator_threads@.contains(asked),
        n == old(vm).mutator_threads@.len(),
        old(stepping).next_mutator < old(stepping).mutator_threads@.len() ==> next == Some(
            old(stepping).mutator_threads@[old(stepping).next_mutator as int],
        ),
        old(stepping).next_mutator >= old(stepping).mutator_threads@.len() ==> next is None,
{
    let was = vm.delivered();
    let now = final(vm).delivered();
    assert(now.len() == was.len() + 1);
    assert(now.last() == (references@, tls));
    assert(now.last() == (final(vm).received@.last().0@, final(vm).received@.last().1));
}

/// The mock plan says what it was told to.
pub proof fn law_mock_plan_says_what_it_was_told(
    plan: MockPlan,
    space_full: bool,
    space: Option<&'static str>,
    required: bool,
    reserved: usize,
    mature: usize,
    copies: usize,
    generational: bool,
    nursery: bool,
)
    requires
        call_ensures(<MockPlan as Plan>::collection_required, (&plan, space_full, space), required),
        call_ensures(<MockPlan as Plan>::get_reserved_pages, (&plan,), reserved),
        call_ensures(<MockPlan as Plan>::get_mature_reserved_pages, (&plan,), mature),
        call_ensures(<MockPlan as Plan>::get_collection_reserved_pages, (&plan,), copies),
        call_ensures(<MockPlan as Plan>::generational, (&plan,), generational),
        call_ensures(<MockPlan as Plan>::is_current_gc_nursery, (&plan,), nursery),
    ensures
        required <==> space_full || plan.reserved_pages > plan.collection_threshold,
        reserved == plan.reserved_pages,
        mature == plan.mature_reserved_pages,
        copies == plan.collection_reserved_pages,
        generational == plan.generational,
        nursery == plan.nursery_collection,
{
}

/// The mock hooks record the blocks that they are told of, in order, each with what it is for.
pub proof fn law_mock_hooks_record_blocks(
    clean: &mut MockHooks,
    reused: &mut MockHooks,
    block: Block,
    copy: bool,
    hooks: MockHooks,
    tracing: bool,
)
    requires
        call_ensures(<MockHooks as ImmixHooks>::on_clean_block_acquired, (clean, block, copy), ()),
        call_ensures(
            <MockHooks as ImmixHooks>::on_reusable_block_acquired,
            (reused, block, copy),
            (),
        ),
        call_ensures(
            <MockHooks as ImmixHooks>::cm_in_progress_or_final_mark,
            (&hooks,),
            tracing,
        ),
    ensures
        final(clean).clean@ == old(clean).clean@.push((block, copy)),
        final(clean).reused@ == old(clean).reused@,
        final(reused).reused@ == old(reused).reused@.push((block, copy)),
        final(reused).clean@ == old(reused).clean@,
        tracing == hooks.tracing,
{
}

/// An object added to a mock trace is there, with what it refers to, and is alive if it is said to be; a new trace has
/// none.
pub proof fn law_mock_objects_are_as_added(
    mode: TraceMode,
    cursor: usize,
    made: MockTrace,
    trace: &mut MockTrace,
    o: ObjectReference,
    referent: ObjectReference,
    live: bool,
    is_live: bool,
    refers: ObjectReference,
    x: usize,
)
    requires
        call_ensures(MockTrace::new, (mode, cursor), made),
        call_ensures(MockTrace::add_object, (trace, o, referent, live), ()),
        call_ensures(<MockTrace as ProcessEdgesWork>::is_live, (&*final(trace), o), is_live),
        call_ensures(<MockTrace as ProcessEdgesWork>::get_referent, (&*final(trace), o), refers),
    ensures
        made.mode == mode && made.cursor == cursor && !made.objects@.contains(x),
        is_live == live,
        refers == referent,
        final(trace).objects@.contains(o.0),
        final(trace).objects@.contains(x) <==> old(trace).objects@.contains(x) || x == o.0,
{
}

/// A fixture that may be changed holds what the function made of what it held. New fixtures hold nothing.
#[verifier::spinoff_prover]
pub proof fn law_fixture_holds_what_was_made_of_it<T: FixtureContent, F: Fn(&T), G: Fn(&mut T)>(
    reading: &Fixture<T>,
    f: F,
    changing: &mut SerialFixture<T>,
    g: G,
    made: SerialFixture<T>,
    one: Fixture<T>,
    other: SerialFixture<T>,
)
    requires
        call_ensures(Fixture::<T>::read::<F>, (reading, f), ()),
        call_ensures(SerialFixture::<T>::with_fixture_mut::<G>, (changing, g), ()),
        call_ensures(SerialFixture::<T>::new, (), made),
        call_ensures(<Fixture<T> as Default>::default, (), one),
        call_ensures(<SerialFixture<T> as Default>::default, (), other),
    ensures
        call_ensures(f, (&*reading.content->0,), ()),
        final(changing).content is Some,
        old(changing).content matches Some(c) ==> exists|m: &mut T|
            *m == *c && *final(m) == *final(changing).content->0 && #[trigger] call_ensures(
                g,
                (m,),
                (),
            ),
        made.content is None,
        one.content is None,
        other.content is None,
{
}

/// A new virtual machine and new hooks have recorded nothing.
pub proof fn law_mocks_start_empty(
    default_size: usize,
    copy_cursor: usize,
    copy_limit: usize,
    vm: MockVM,
    tracing: bool,
    hooks: MockHooks,
)
    requires
        call_ensures(MockVM::new, (default_size, copy_cursor, copy_limit), vm),
        call_ensures(MockHooks::new, (tracing,), hooks),
    ensures
        vm.received@.len() == 0,
        vm.mutator_threads@.len() == 0,
        vm.next_mutator == 0,
        vm.default_size == default_size,
        vm.copy_cursor == copy_cursor,
        vm.copy_limit == copy_limit,
        vm.sizes@.dom() == Set::<usize>::empty(),
        vm.referents@.dom() == Set::<usize>::empty(),
        hooks.clean@.len() == 0,
        hooks.reused@.len() == 0,
        hooks.tracing == tracing,
{
}

} // verus!
