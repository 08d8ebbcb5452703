//! What holds once packets of work on references have run, and of the references that workers keep.
use crate::plan::status::PlanStatus;
use crate::scheduler::gc_work::ProcessEdgesWork;
use crate::scheduler::{GCWorkScheduler, WorkPacket};
use crate::util::address::ObjectReference;
use crate::util::reference_model::{
    forwardable, forwarded_reference, found_in_order, found_more, is_reference,
    lemma_grown_moved_apart, newly_traced, retained, scannable, scanned,
};
use crate::util::reference_outcome_laws::{in_table, joined, lemma_joined_push, lemma_scan_outcome};
use crate::util::reference_processor::{ReferenceProcessor, Semantics};
use crate::util::reference_processors::ReferenceProcessors;
use crate::util::reference_work::{
    FlushWorkerRefBuffer, PhantomRefProcessing, RefEnqueue, RefForwarding, ReferenceBuffer,
    ScheduleFlushWorkerRefBuffer, SoftRefProcessing, WeakRefProcessing,
};
use crate::vm::reference_glue::ReferenceGlue;
use vstd::prelude::*;

verus! {

/// Whether `list` begins with `start`.
pub open spec fn begins_with(list: Seq<ObjectReference>, start: Seq<ObjectReference>) -> bool {
    start.len() <= list.len() && list.subrange(0, start.len() as int) == start
}

/// What was found, in the order in which it was: first what was handed on, then what waits.
pub open spec fn all_found<E: ProcessEdgesWork>(world: E) -> Seq<ObjectReference> {
    world.handed_on() + world.nodes()
}

/// What was found before stays in front, each object that was traced since is among what was found, where it
/// is now, and nothing else came.
#[verifier::spinoff_prover]
proof fn lemma_found<E: ProcessEdgesWork>(
    before: E,
    after: E,
    x: ObjectReference,
    i: int,
)
    requires
        found_more(before, after),
    ensures
        begins_with(all_found(after), all_found(before)),
        after.traced().contains_key(x) && !before.traced().contains_key(x) ==> all_found(
            after,
        ).contains(after.traced()[x]),
        all_found(before).len() <= i < all_found(after).len() ==> exists|y: ObjectReference|
            after.traced().contains_key(y) && !before.traced().contains_key(y)
                && #[trigger] after.traced()[y] == all_found(after)[i],
{
    let order = choose|order: Seq<ObjectReference>| #[trigger] found_in_order(before, after, order);
    let places = order.map_values(|x: ObjectReference| after.traced()[x]);
    let was = all_found(before);
    let now = all_found(after);
    assert(now == was + places);
    assert(now.subrange(0, was.len() as int) =~= was);
    if after.traced().contains_key(x) && !before.traced().contains_key(x) {
        assert(newly_traced(before, after, x));
        assert(order.contains(x));
        let k = order.index_of(x);
        assert(now[was.len() + k] == after.traced()[x]);
    }
    if was.len() <= i < now.len() {
        let y = order[i - was.len()];
        assert(order.contains(y));
        assert(newly_traced(before, after, y));
        assert(after.traced()[y] == now[i]);
    }
}

/// Scanning, retaining and forwarding the references of one strength: what they trace waits to be scanned,
/// after what waited before, and nothing else does; nothing is handed on.
#[verifier::spinoff_prover]
pub proof fn law_traced_objects_wait_to_be_scanned<E: ProcessEdgesWork>(
    p: &mut ReferenceProcessor,
    scanning: &mut E,
    q: &ReferenceProcessor,
    retaining: &mut E,
    r: &mut ReferenceProcessor,
    forwarding: &mut E,
    nursery: bool,
    x: ObjectReference,
    i: int,
)
    requires
        call_ensures(ReferenceProcessor::scan::<E>, (p, scanning, nursery), ()),
        call_ensures(ReferenceProcessor::retain::<E>, (q, retaining, nursery), ()),
        call_ensures(ReferenceProcessor::forward::<E>, (r, forwarding, nursery), ()),
    ensures
        final(scanning).handed_on() == old(scanning).handed_on(),
        begins_with(all_found(*final(scanning)), all_found(*old(scanning))),
        final(scanning).traced().contains_key(x) && !old(scanning).traced().contains_key(x)
            ==> all_found(*final(scanning)).contains(final(scanning).traced()[x]),
        final(retaining).handed_on() == old(retaining).handed_on(),
        begins_with(all_found(*final(retaining)), all_found(*old(retaining))),
        final(retaining).traced().contains_key(x) && !old(retaining).traced().contains_key(x)
            ==> all_found(*final(retaining)).contains(final(retaining).traced()[x]),
        final(forwarding).handed_on() == old(forwarding).handed_on(),
        begins_with(all_found(*final(forwarding)), all_found(*old(forwarding))),
        final(forwarding).traced().contains_key(x) && !old(forwarding).traced().contains_key(x)
            ==> all_found(*final(forwarding)).contains(final(forwarding).traced()[x]),
        all_found(*old(scanning)).len() <= i < all_found(*final(scanning)).len() ==> exists|
            y: ObjectReference,
        |
            final(scanning).traced().contains_key(y) && !old(scanning).traced().contains_key(y)
                && #[trigger] final(scanning).traced()[y] == all_found(*final(scanning))[i],
{
    lemma_found(*scanning, *final(scanning), x, i);
    lemma_found(*retaining, *final(retaining), x, 0);
    lemma_found(*forwarding, *final(forwarding), x, 0);
}

/// A packet on references hands on everything that waited and everything that it found, in that order, and
/// nothing else.
#[verifier::spinoff_prover]
pub proof fn law_packets_hand_on_what_they_found<E: ProcessEdgesWork>(
    soft: &mut SoftRefProcessing<E>,
    soft_world: &mut E,
    weak: &mut WeakRefProcessing<E>,
    weak_world: &mut E,
    phantom: &mut PhantomRefProcessing<E>,
    phantom_world: &mut E,
    forwarding: &mut RefForwarding<E>,
    forwarded_world: &mut E,
    a: &mut ReferenceProcessors,
    b: &mut ReferenceProcessors,
    c: &mut ReferenceProcessors,
    d: &mut ReferenceProcessors,
    plan: &PlanStatus,
    x: ObjectReference,
)
    requires
        call_ensures(SoftRefProcessing::<E>::do_work, (soft, soft_world, a, plan), ()),
        call_ensures(WeakRefProcessing::<E>::do_work, (weak, weak_world, b, plan), ()),
        call_ensures(PhantomRefProcessing::<E>::do_work, (phantom, phantom_world, c, plan), ()),
        call_ensures(RefForwarding::<E>::do_work, (forwarding, forwarded_world, d, plan), ()),
    ensures
        final(soft_world).nodes().len() == 0,
        begins_with(final(soft_world).handed_on(), all_found(*old(soft_world))),
        final(soft_world).traced().contains_key(x) && !old(soft_world).traced().contains_key(x)
            ==> final(soft_world).handed_on().contains(final(soft_world).traced()[x]),
        final(weak_world).nodes().len() == 0,
        begins_with(final(weak_world).handed_on(), all_found(*old(weak_world))),
        final(weak_world).traced().contains_key(x) && !old(weak_world).traced().contains_key(x)
            ==> final(weak_world).handed_on().contains(final(weak_world).traced()[x]),
        final(phantom_world).nodes().len() == 0,
        begins_with(final(phantom_world).handed_on(), all_found(*old(phantom_world))),
        final(phantom_world).traced().contains_key(x) && !old(phantom_world).traced().contains_key(x) ==> final(phantom_world).handed_on().contains(
            final(phantom_world).traced()[x],
        ),
        final(forwarded_world).nodes().len() == 0,
        begins_with(final(forwarded_world).handed_on(), all_found(*old(forwarded_world))),
        final(forwarded_world).traced().contains_key(x) && !old(forwarded_world).traced().contains_key(x) ==> final(forwarded_world).handed_on().contains(
            final(forwarded_world).traced()[x],
        ),
{
    lemma_found(*soft_world, *final(soft_world), x, 0);
    lemma_found(*weak_world, *final(weak_world), x, 0);
    lemma_found(*phantom_world, *final(phantom_world), x, 0);
    lemma_found(*forwarded_world, *final(forwarded_world), x, 0);
    assert(all_found(*final(soft_world)) =~= final(soft_world).handed_on());
    assert(all_found(*final(weak_world)) =~= final(weak_world).handed_on());
    assert(all_found(*final(phantom_world)) =~= final(phantom_world).handed_on());
    assert(all_found(*final(forwarded_world)) =~= final(forwarded_world).handed_on());
}

/// The packets on weak and on phantom references: one that is alive and refers to something stays exactly if
/// what it refers to is alive, and waits to be handed over otherwise. References of other strengths are left
/// alone.
#[verifier::spinoff_prover]
pub proof fn law_weak_and_phantom_packets_hold_nothing<E: ProcessEdgesWork>(
    weak: &mut WeakRefProcessing<E>,
    weak_world: &mut E,
    p: &mut ReferenceProcessors,
    phantom: &mut PhantomRefProcessing<E>,
    phantom_world: &mut E,
    q: &mut ReferenceProcessors,
    plan: &PlanStatus,
    a: ObjectReference,
    b: ObjectReference,
)
    requires
        scannable(*weak_world, p.weak.table()),
        p.weak.enqueued_references@.len() == 0,
        call_ensures(WeakRefProcessing::<E>::do_work, (weak, weak_world, p, plan), ()),
        in_table(p.weak, a),
        weak_world.live(a),
        weak_world.referent(a)@ != 0,
        scannable(*phantom_world, q.phantom.table()),
        q.phantom.enqueued_references@.len() == 0,
        call_ensures(PhantomRefProcessing::<E>::do_work, (phantom, phantom_world, q, plan), ()),
        in_table(q.phantom, b),
        phantom_world.live(b),
        phantom_world.referent(b)@ != 0,
    ensures
        ({
            let new = final(weak_world).traced()[a];
            let live = old(weak_world).live(old(weak_world).referent(a));
            &&& in_table(final(p).weak, new) == live
            &&& final(p).weak.enqueued_references@.contains(new) == !live
            &&& final(weak_world).live(old(weak_world).referent(a)) == live
        }),
        final(p).soft == old(p).soft,
        final(p).phantom == old(p).phantom,
        ({
            let new = final(phantom_world).traced()[b];
            let live = old(phantom_world).live(old(phantom_world).referent(b));
            &&& in_table(final(q).phantom, new) == live
            &&& final(q).phantom.enqueued_references@.contains(new) == !live
            &&& final(phantom_world).live(old(phantom_world).referent(b)) == live
        }),
        final(q).soft == old(q).soft,
        final(q).weak == old(q).weak,
{
    assert(p.weak.table().contains(a));
    assert(is_reference(*weak_world, a));
    lemma_scan_outcome(
        *weak_world,
        p.weak.table(),
        *final(weak_world),
        final(p).weak.table(),
        final(p).weak.enqueued_references@,
        a,
    );
    let new = final(weak_world).traced()[a];
    assert(final(p).weak.table().contains(new) == in_table(final(p).weak, new));
    assert(q.phantom.table().contains(b));
    assert(is_reference(*phantom_world, b));
    lemma_scan_outcome(
        *phantom_world,
        q.phantom.table(),
        *final(phantom_world),
        final(q).phantom.table(),
        final(q).phantom.enqueued_references@,
        b,
    );
    let place = final(phantom_world).traced()[b];
    assert(final(q).phantom.table().contains(place) == in_table(final(q).phantom, place));
}

/// The packet on soft references: as long as memory is not short, one that is alive and refers to something
/// stays, and keeps that alive; where memory is short, it stays exactly if that is alive by another way.
#[verifier::spinoff_prover]
pub proof fn law_soft_packet_holds_while_memory_lasts<E: ProcessEdgesWork>(
    soft: &mut SoftRefProcessing<E>,
    world: &mut E,
    p: &mut ReferenceProcessors,
    plan: &PlanStatus,
    a: ObjectReference,
)
    requires
        scannable(*world, p.soft.table()),
        p.soft.enqueued_references@.len() == 0,
        call_ensures(SoftRefProcessing::<E>::do_work, (soft, world, p, plan), ()),
        in_table(p.soft, a),
        world.live(a),
        world.referent(a)@ != 0,
    ensures
        ({
            let new = final(world).traced()[a];
            let stays = !plan.emergency_collection || old(world).live(old(world).referent(a));
            &&& in_table(final(p).soft, new) == stays
            &&& final(p).soft.enqueued_references@.contains(new) == !stays
            &&& final(world).live(old(world).referent(a)) == stays
        }),
        final(p).weak == old(p).weak,
        final(p).phantom == old(p).phantom,
{
    let before = *world;
    let after = *final(world);
    let table = p.soft.table();
    let kept = final(p).soft.table();
    let enqueued = final(p).soft.enqueued_references@;
    assert(table.contains(a));
    assert(is_reference(before, a));
    let new = after.traced()[a];
    assert(kept.contains(new) == in_table(final(p).soft, new));
    if plan.emergency_collection {
        lemma_scan_outcome(before, table, after, kept, enqueued, a);
    } else {
        let middle = choose|middle: E| #[trigger]
            retained(before, table, middle) && scanned(middle, table, after, kept, enqueued);
        lemma_grown_moved_apart(before, middle, table);
        assert forall|c: ObjectReference| #[trigger] table.contains(c) implies is_reference(
            middle,
            c,
        ) by {
            assert(is_reference(before, c));
        }
        lemma_scan_outcome(middle, table, after, kept, enqueued, a);
        assert(middle.is_object(before.referent(a)));
    }
}

/// The packet at the end of a collection hands over every reference that waited, the soft ones first, then the
/// weak ones, then the phantom ones, and nothing else; none waits any more.
#[verifier::spinoff_prover]
pub proof fn law_enqueue_packet_hands_everything_over<VM: ReferenceGlue>(
    packet: &mut RefEnqueue<VM>,
    vm: &mut VM,
    p: &mut ReferenceProcessors,
    tls: usize,
    i: int,
)
    requires
        call_ensures(RefEnqueue::<VM>::do_work, (packet, vm, p, tls), ()),
    ensures
        joined(final(vm).delivered()) == joined(old(vm).delivered()) + old(p).soft.enqueued_references@ + old(p).weak.enqueued_references@ + old(p).phantom.enqueued_references@,
        old(vm).delivered().len() <= i < final(vm).delivered().len() ==> final(vm).delivered()[i].1
            == tls && final(vm).delivered()[i].0.len() > 0,
        0 <= i < old(vm).delivered().len() ==> final(vm).delivered()[i] == old(vm).delivered()[i],
        final(p).soft.enqueued_references@.len() == 0,
        final(p).weak.enqueued_references@.len() == 0,
        final(p).phantom.enqueued_references@.len() == 0,
        final(p).soft.allow_new_candidate,
        final(p).weak.allow_new_candidate,
        final(p).phantom.allow_new_candidate,
        final(p).soft.references == old(p).soft.references,
        final(p).weak.references == old(p).weak.references,
        final(p).phantom.references == old(p).phantom.references,
{
    let was = vm.delivered();
    let soft = p.soft.enqueued_references@;
    let weak = p.weak.enqueued_references@;
    let phantom = p.phantom.enqueued_references@;
    let first = if soft.len() == 0 {
        was
    } else {
        was.push((soft, tls))
    };
    let second = if weak.len() == 0 {
        first
    } else {
        first.push((weak, tls))
    };
    lemma_joined_push(was, soft, tls);
    lemma_joined_push(first, weak, tls);
    lemma_joined_push(second, phantom, tls);
    assert(joined(first) =~= joined(was) + soft);
    assert(joined(second) =~= joined(was) + soft + weak);
    assert(joined(final(vm).delivered()) =~= joined(was) + soft + weak + phantom);
}

/// What forwarding makes of the references of one strength: each reference of the table, and each that waits,
/// is where the trace says it is now, those that wait in the same order, and none is made up.
pub open spec fn followed<E: ProcessEdgesWork>(
    before: ReferenceProcessor,
    world: E,
    after: ReferenceProcessor,
    a: ObjectReference,
    i: int,
) -> bool {
    &&& in_table(before, a) ==> in_table(after, world.traced()[a])
    &&& in_table(after, a) ==> exists|b: ObjectReference|
        in_table(before, b) && #[trigger] world.traced()[b] == a
    &&& after.enqueued_references@.len() == before.enqueued_references@.len()
    &&& 0 <= i < before.enqueued_references@.len() ==> after.enqueued_references@[i]
        == world.traced()[before.enqueued_references@[i]]
    &&& !after.allow_new_candidate
    &&& after.semantics == before.semantics
}

proof fn lemma_followed<E: ProcessEdgesWork>(
    before: ReferenceProcessor,
    world: E,
    after: ReferenceProcessor,
    a: ObjectReference,
    i: int,
)
    requires
        before.forwarded_to(world, after),
    ensures
        followed(before, world, after, a, i),
{
    if in_table(before, a) {
        assert(before.table().contains(a));
        assert(after.table().contains(world.traced()[a]));
    }
    if in_table(after, a) {
        assert(after.table().contains(a));
        let b = choose|b: ObjectReference| #[trigger]
            before.table().contains(b) && world.traced()[b] == a;
        assert(in_table(before, b) && world.traced()[b] == a);
    }
}

/// Forwarding follows the references of every strength, and what they refer to; it is the same by the packet.
#[verifier::spinoff_prover]
pub proof fn law_references_of_every_strength_are_followed<E: ProcessEdgesWork>(
    p: &mut ReferenceProcessors,
    trace: &mut E,
    packet: &mut RefForwarding<E>,
    q: &mut ReferenceProcessors,
    world: &mut E,
    plan: &PlanStatus,
    a: ObjectReference,
    i: int,
)
    requires
        forwardable(*trace, p.domain()),
        call_ensures(ReferenceProcessors::forward_refs::<E>, (p, trace, plan), ()),
        forwardable(*world, q.domain()),
        call_ensures(RefForwarding::<E>::do_work, (packet, world, q, plan), ()),
    ensures
        followed(old(p).soft, *final(trace), final(p).soft, a, i),
        followed(old(p).weak, *final(trace), final(p).weak, a, i),
        followed(old(p).phantom, *final(trace), final(p).phantom, a, i),
        followed(old(q).soft, *final(world), final(q).soft, a, i),
        followed(old(q).weak, *final(world), final(q).weak, a, i),
        followed(old(q).phantom, *final(world), final(q).phantom, a, i),
        in_table(old(p).soft, a) || in_table(old(p).weak, a) || in_table(old(p).phantom, a) ==> {
            let referent = old(trace).referent(a);
            &&& final(trace).traced().contains_key(a)
            &&& referent@ == 0 ==> final(trace).referent(a)@ == 0
            &&& referent@ != 0 ==> final(trace).referent(a) == final(trace).traced()[referent]
        },
        in_table(old(q).soft, a) || in_table(old(q).weak, a) || in_table(old(q).phantom, a) ==> {
            let referent = old(world).referent(a);
            &&& final(world).traced().contains_key(a)
            &&& referent@ == 0 ==> final(world).referent(a)@ == 0
            &&& referent@ != 0 ==> final(world).referent(a) == final(world).traced()[referent]
        },
{
    lemma_followed(p.soft, *final(trace), final(p).soft, a, i);
    lemma_followed(p.weak, *final(trace), final(p).weak, a, i);
    lemma_followed(p.phantom, *final(trace), final(p).phantom, a, i);
    lemma_followed(q.soft, *final(world), final(q).soft, a, i);
    lemma_followed(q.weak, *final(world), final(q).weak, a, i);
    lemma_followed(q.phantom, *final(world), final(q).phantom, a, i);
    if in_table(p.soft, a) || in_table(p.weak, a) || in_table(p.phantom, a) {
        assert(p.soft.table().contains(a) || p.weak.table().contains(a)
            || p.phantom.table().contains(a));
        assert(p.domain().contains(a));
        assert(forwarded_reference(*trace, a, *final(trace)));
    }
    if in_table(q.soft, a) || in_table(q.weak, a) || in_table(q.phantom, a) {
        assert(q.soft.table().contains(a) || q.weak.table().contains(a)
            || q.phantom.table().contains(a));
        assert(q.domain().contains(a));
        assert(forwarded_reference(*world, a, *final(world)));
    }
}

/// Several candidates of a strength go to the processor of that strength, as one does.
#[verifier::spinoff_prover]
pub proof fn law_lists_of_candidates_go_to_their_strength(
    soft: &mut ReferenceProcessors,
    weak: &mut ReferenceProcessors,
    phantom: &mut ReferenceProcessors,
    refs: &[ObjectReference],
    a: ObjectReference,
)
    requires
        call_ensures(ReferenceProcessors::add_soft_candidates, (soft, refs), ()),
        call_ensures(ReferenceProcessors::add_weak_candidates, (weak, refs), ()),
        call_ensures(ReferenceProcessors::add_phantom_candidates, (phantom, refs), ()),
    ensures
        in_table(final(soft).soft, a) == (in_table(old(soft).soft, a) || (old(soft).soft.allow_new_candidate && refs@.contains(a))),
        final(soft).weak == old(soft).weak,
        final(soft).phantom == old(soft).phantom,
        in_table(final(weak).weak, a) == (in_table(old(weak).weak, a) || (old(weak).weak.allow_new_candidate && refs@.contains(a))),
        final(weak).soft == old(weak).soft,
        final(weak).phantom == old(weak).phantom,
        in_table(final(phantom).phantom, a) == (in_table(old(phantom).phantom, a) || (old(phantom).phantom.allow_new_candidate && refs@.contains(a))),
        final(phantom).soft == old(phantom).soft,
        final(phantom).weak == old(phantom).weak,
{
    assert(refs@.to_set().contains(a) == refs@.contains(a));
    assert(final(soft).soft.table().contains(a) == in_table(final(soft).soft, a));
    assert(soft.soft.table().contains(a) == in_table(soft.soft, a));
    assert(final(weak).weak.table().contains(a) == in_table(final(weak).weak, a));
    assert(weak.weak.table().contains(a) == in_table(weak.weak, a));
    assert(final(phantom).phantom.table().contains(a) == in_table(final(phantom).phantom, a));
    assert(phantom.phantom.table().contains(a) == in_table(phantom.phantom, a));
}

/// A reference that a worker finds is not lost: it is in the worker's buffer, last, where references are kept,
/// and is a candidate of its strength otherwise; the buffer and the tables of the other strengths are left
/// alone.
#[verifier::spinoff_prover]
pub proof fn law_buffer_loses_no_reference(
    soft: &mut ReferenceBuffer,
    p: &mut ReferenceProcessors,
    weak: &mut ReferenceBuffer,
    q: &mut ReferenceProcessors,
    phantom: &mut ReferenceBuffer,
    r: &mut ReferenceProcessors,
    reff: ObjectReference,
    x: ObjectReference,
)
    requires
        call_ensures(ReferenceBuffer::add_soft_ref, (soft, p, reff), ()),
        call_ensures(ReferenceBuffer::add_weak_ref, (weak, q, reff), ()),
        call_ensures(ReferenceBuffer::add_phantom_ref, (phantom, r, reff), ()),
    ensures
        old(soft).do_buffer ==> final(soft).soft_refs@ == old(soft).soft_refs@.push(reff)
            && *final(p) == *old(p),
        !old(soft).do_buffer ==> final(soft).soft_refs == old(soft).soft_refs && (in_table(
            final(p).soft,
            x,
        ) == (in_table(old(p).soft, x) || (old(p).soft.allow_new_candidate && x == reff))),
        final(soft).weak_refs == old(soft).weak_refs,
        final(soft).phantom_refs == old(soft).phantom_refs,
        final(p).weak == old(p).weak && final(p).phantom == old(p).phantom,
        old(weak).do_buffer ==> final(weak).weak_refs@ == old(weak).weak_refs@.push(reff)
            && *final(q) == *old(q),
        !old(weak).do_buffer ==> final(weak).weak_refs == old(weak).weak_refs && (in_table(
            final(q).weak,
            x,
        ) == (in_table(old(q).weak, x) || (old(q).weak.allow_new_candidate && x == reff))),
        final(weak).soft_refs == old(weak).soft_refs,
        final(weak).phantom_refs == old(weak).phantom_refs,
        final(q).soft == old(q).soft && final(q).phantom == old(q).phantom,
        old(phantom).do_buffer ==> final(phantom).phantom_refs@ == old(phantom).phantom_refs@.push(reff) && *final(r) == *old(r),
        !old(phantom).do_buffer ==> final(phantom).phantom_refs == old(phantom).phantom_refs && (
        in_table(final(r).phantom, x) == (in_table(old(r).phantom, x) || (old(r).phantom.allow_new_candidate && x == reff))),
        final(phantom).soft_refs == old(phantom).soft_refs,
        final(phantom).weak_refs == old(phantom).weak_refs,
        final(r).soft == old(r).soft && final(r).weak == old(r).weak,
        final(soft).do_buffer == old(soft).do_buffer,
        final(weak).do_buffer == old(weak).do_buffer,
        final(phantom).do_buffer == old(phantom).do_buffer,
{
    assert(final(p).soft.table().contains(x) == in_table(final(p).soft, x));
    assert(p.soft.table().contains(x) == in_table(p.soft, x));
    assert(final(q).weak.table().contains(x) == in_table(final(q).weak, x));
    assert(q.weak.table().contains(x) == in_table(q.weak, x));
    assert(final(r).phantom.table().contains(x) == in_table(final(r).phantom, x));
    assert(r.phantom.table().contains(x) == in_table(r.phantom, x));
}

/// Every worker gets a packet to check its buffer, after those that wait for it already.
#[verifier::spinoff_prover]
pub proof fn law_every_worker_checks_its_buffer<E: ProcessEdgesWork>(
    packet: &mut ScheduleFlushWorkerRefBuffer<E>,
    scheduler: &mut GCWorkScheduler,
    i: int,
)
    requires
        call_ensures(ScheduleFlushWorkerRefBuffer::<E>::do_work, (packet, scheduler), ()),
        0 <= i < scheduler.worker_group.workers_shared@.len(),
    ensures
        ({
            let was = old(scheduler).worker_group.workers_shared@[i].designated_work@;
            let now = final(scheduler).worker_group.workers_shared@[i].designated_work@;
            &&& final(scheduler).worker_group.workers_shared@.len() == old(scheduler).worker_group.workers_shared@.len()
            &&& now.len() == was.len() + 1
            &&& now.drop_last() == was
            &&& now.last() is FlushWorkerRefBuffer
        }),
{
    let was = scheduler.designated(i);
    let now = final(scheduler).designated(i);
    assert(now == was.push(WorkPacket::FlushWorkerRefBuffer));
    assert(now.drop_last() =~= was);
}

/// New processors have no references, one for each strength, and take candidates; the processor that is asked
/// for by its strength is the one of that strength.
pub proof fn law_new_processors_are_empty(
    p: ReferenceProcessors,
    one: ReferenceProcessor,
    semantics: Semantics,
    of: &ReferenceProcessor,
    a: ObjectReference,
)
    requires
        call_ensures(ReferenceProcessors::new, (), p),
        call_ensures(ReferenceProcessor::new, (semantics,), one),
        call_ensures(ReferenceProcessors::get, (&p, semantics), of),
    ensures
        of.semantics == semantics,
        !in_table(*of, a),
        of.enqueued_references@.len() == 0,
        of.allow_new_candidate,
        semantics == Semantics::SOFT ==> *of == p.soft,
        semantics == Semantics::WEAK ==> *of == p.weak,
        semantics == Semantics::PHANTOM ==> *of == p.phantom,
        !in_table(one, a),
        one.enqueued_references@.len() == 0,
        one.semantics == semantics,
        one.allow_new_candidate,
{
    assert(*of == p.of(semantics));
    assert(of.table().contains(a) == in_table(*of, a));
    assert(one.table().contains(a) == in_table(one, a));
}

/// A new buffer is empty and passes references on at once; the end of its use in a collection leaves it as it
/// is, and so does the packet that checks it. Processors made by default are new ones.
#[verifier::spinoff_prover]
pub proof fn law_new_buffer_is_empty<E: ProcessEdgesWork>(
    buffer: ReferenceBuffer,
    flushing: &mut ReferenceBuffer,
    packet: &mut FlushWorkerRefBuffer<E>,
    checking: &mut ReferenceBuffer,
    scheduler: &GCWorkScheduler,
    p: ReferenceProcessors,
    a: ObjectReference,
)
    requires
        call_ensures(ReferenceBuffer::new, (), buffer),
        call_ensures(ReferenceBuffer::flush, (flushing,), ()),
        call_ensures(FlushWorkerRefBuffer::<E>::do_work, (packet, checking, scheduler), ()),
        call_ensures(<ReferenceProcessors as Default>::default, (), p),
    ensures
        !buffer.do_buffer,
        buffer.soft_refs@.len() == 0,
        buffer.weak_refs@.len() == 0,
        buffer.phantom_refs@.len() == 0,
        *final(flushing) == *old(flushing),
        *final(checking) == *old(checking),
        !in_table(p.soft, a) && !in_table(p.weak, a) && !in_table(p.phantom, a),
        p.soft.semantics == Semantics::SOFT && p.weak.semantics == Semantics::WEAK
            && p.phantom.semantics == Semantics::PHANTOM,
        p.soft.allow_new_candidate && p.weak.allow_new_candidate && p.phantom.allow_new_candidate,
        p.soft.enqueued_references@.len() == 0 && p.weak.enqueued_references@.len() == 0
            && p.phantom.enqueued_references@.len() == 0,
{
    assert(p.soft == p.of(Semantics::SOFT) && p.weak == p.of(Semantics::WEAK) && p.phantom == p.of(
        Semantics::PHANTOM,
    ));
    assert(p.soft.table().contains(a) == in_table(p.soft, a));
    assert(p.weak.table().contains(a) == in_table(p.weak, a));
    assert(p.phantom.table().contains(a) == in_table(p.phantom, a));
}

} // verus!
