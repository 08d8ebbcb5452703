//! What holds of the references and of the world once references were processed.
use crate::plan::status::PlanStatus;
use crate::scheduler::gc_work::ProcessEdgesWork;
use crate::util::address::ObjectReference;
use crate::util::reference_model::{
    comes_from, fate, forwardable, forwarded_reference, held_by, is_reference,
    lemma_grown_moved_apart, newly_traced, retained, scannable, scanned, settled, traced_by_scan,
    Fate,
};
use crate::util::reference_processor::ReferenceProcessor;
use crate::util::reference_processors::ReferenceProcessors;
use crate::vm::reference_glue::ReferenceGlue;
use vstd::prelude::*;

verus! {

/// Whether `a` is in the table of the processor.
pub open spec fn in_table(p: ReferenceProcessor, a: ObjectReference) -> bool {
    p.references@.contains(a.0)
}

/// Every reference that waits to be handed over is handed over, all of them in one list, in the order in
/// which they waited, with the thread that does so; where none waits, nothing is. Nothing handed over
/// earlier changes. Afterwards none waits, the table is as before, and candidates are taken.
pub proof fn law_waiting_references_are_handed_over<VM: ReferenceGlue>(
    p: &mut ReferenceProcessor,
    vm: &mut VM,
    tls: usize,
    i: int,
)
    requires
        p.can_enqueue(*vm),
        call_ensures(ReferenceProcessor::enqueue::<VM>, (p, vm, tls), ()),
    ensures
        ({
            let was = old(vm).delivered();
            let now = final(vm).delivered();
            let waited = old(p).enqueued_references@;
            &&& waited.len() == 0 ==> now == was
            &&& waited.len() > 0 ==> {
                &&& now.len() == was.len() + 1
                &&& now.drop_last() == was
                &&& now.last().0.len() == waited.len()
                &&& 0 <= i < waited.len() ==> now.last().0[i] == waited[i]
                &&& now.last().1 == tls
            }
        }),
        final(p).enqueued_references@.len() == 0,
        final(p).allow_new_candidate,
        final(p).references == old(p).references,
        final(p).semantics == old(p).semantics,
{
    if p.enqueued_references@.len() > 0 {
        assert(final(vm).delivered().drop_last() =~= vm.delivered());
    }
}

/// The references in the lists, one list after the other.
pub open spec fn joined(lists: Seq<(Seq<ObjectReference>, usize)>) -> Seq<ObjectReference>
    decreases lists.len(),
{
    if lists.len() == 0 {
        Seq::empty()
    } else {
        joined(lists.drop_last()) + lists.last().0
    }
}

pub proof fn lemma_joined_push(
    lists: Seq<(Seq<ObjectReference>, usize)>,
    list: Seq<ObjectReference>,
    tls: usize,
)
    ensures
        joined(lists.push((list, tls))) == joined(lists) + list,
{
    assert(lists.push((list, tls)).drop_last() =~= lists);
}

/// At the end of a collection the virtual machine has received every reference that waited, the soft ones
/// first, then the weak ones, then the phantom ones, each once more than before, and nothing else; no list
/// is empty. None waits any more, the tables are as before, and candidates of every strength are taken.
#[verifier::spinoff_prover]
pub proof fn law_all_waiting_references_are_handed_over<VM: ReferenceGlue>(
    p: &mut ReferenceProcessors,
    vm: &mut VM,
    tls: usize,
    i: int,
)
    requires
        p.soft.can_enqueue(*vm),
        p.weak.can_enqueue(*vm),
        p.phantom.can_enqueue(*vm),
        call_ensures(ReferenceProcessors::enqueue_refs::<VM>, (p, vm, tls), ()),
    ensures
        ({
            let was = old(vm).delivered();
            let now = final(vm).delivered();
            &&& joined(now) == joined(was) + old(p).soft.enqueued_references@ + old(p).weak.enqueued_references@ + old(p).phantom.enqueued_references@
            &&& was.len() <= now.len() <= was.len() + 3
            &&& was.len() <= i < now.len() ==> now[i].1 == tls && now[i].0.len() > 0
            &&& 0 <= i < was.len() ==> now[i] == was[i]
        }),
        final(p).soft.enqueued_references@.len() == 0,
        final(p).weak.enqueued_references@.len() == 0,
        final(p).phantom.enqueued_references@.len() == 0,
        final(p).soft.allow_new_candidate,
        final(p).weak.allow_new_candidate,
        final(p).phantom.allow_new_candidate,
        final(p).soft.references == old(p).soft.references,
        final(p).weak.references == old(p).weak.references,
        final(p).phantom.references == old(p).phantom.references,
{
    let was = vm.delivered();
    let soft = p.soft.enqueued_references@;
    let weak = p.weak.enqueued_references@;
    let phantom = p.phantom.enqueued_references@;
    let first = if soft.len() == 0 {
        was
    } else {
        was.push((soft, tls))
    };
    let second = if weak.len() == 0 {
        first
    } else {
        first.push((weak, tls))
    };
    lemma_joined_push(was, soft, tls);
    lemma_joined_push(first, weak, tls);
    lemma_joined_push(second, phantom, tls);
    assert(joined(first) =~= joined(was) + soft);
    assert(joined(second) =~= joined(was) + soft + weak);
    assert(joined(final(vm).delivered()) =~= joined(was) + soft + weak + phantom);
}

/// What the scan of a table made of one of its references.
#[verifier::spinoff_prover]
pub proof fn lemma_scan_outcome<E: ProcessEdgesWork>(
    before: E,
    table: Set<ObjectReference>,
    after: E,
    kept: Set<ObjectReference>,
    enqueued: Seq<ObjectReference>,
    a: ObjectReference,
)
    requires
        scannable(before, table),
        scanned(before, table, after, kept, enqueued),
        table.contains(a),
    ensures
        ({
            let referent = before.referent(a);
            let new = after.traced()[a];
            &&& !before.live(a) ==> after.referent(a)@ == 0
            &&& before.live(a) ==> after.traced().contains_key(a)
            &&& before.live(a) && referent@ == 0 ==> !kept.contains(new) && !enqueued.contains(new)
            &&& before.live(a) && referent@ != 0 && before.live(referent) ==> {
                &&& kept.contains(new)
                &&& !enqueued.contains(new)
                &&& after.traced().contains_key(referent)
                &&& after.referent(new) == after.traced()[referent]
            }
            &&& before.live(a) && referent@ != 0 && !before.live(referent) ==> {
                &&& !kept.contains(new)
                &&& enqueued.contains(new)
                &&& after.referent(new)@ == 0
                &&& !after.live(referent)
            }
        }),
{
    let new = after.traced()[a];
    assert(is_reference(before, a));
    assert(settled(before, a, after));
    assert forall|c: ObjectReference| #[trigger] table.contains(c) implies before.is_object(c) by {
        assert(is_reference(before, c));
    }
    lemma_grown_moved_apart(before, after, table);
    if before.live(a) {
        if kept.contains(new) {
            let b = choose|b: ObjectReference| #[trigger]
                table.contains(b) && fate(before, b) == Fate::ReferentLive && after.traced()[b]
                    == new;
            assert(settled(before, b, after));
        }
        if enqueued.contains(new) {
            let b = choose|b: ObjectReference| #[trigger]
                table.contains(b) && fate(before, b) == Fate::ReferentDead && after.traced()[b]
                    == new;
            assert(settled(before, b, after));
        }
        if fate(before, a) == Fate::ReferentLive {
            assert(comes_from(before, table, Fate::ReferentLive, after, new));
        }
        if fate(before, a) == Fate::ReferentDead {
            assert(comes_from(before, table, Fate::ReferentDead, after, new));
        }
    }
}

/// What becomes of a reference of a table that is scanned. A dead one is cleared. One that is alive and
/// refers to nothing is dropped. One whose referent is alive stays in the table, at its new place and with
/// its referent where that is now, and does not wait. One whose referent is dead leaves the table, is
/// cleared and waits; its referent stays dead.
pub proof fn law_scan_decides_by_what_is_alive<E: ProcessEdgesWork>(
    p: &mut ReferenceProcessor,
    trace: &mut E,
    nursery: bool,
    a: ObjectReference,
)
    requires
        trace.wf(),
        scannable(*trace, p.table()),
        p.enqueued_references@.len() == 0,
        call_ensures(ReferenceProcessor::scan::<E>, (p, trace, nursery), ()),
        in_table(*p, a),
    ensures
        ({
            let referent = old(trace).referent(a);
            let new = final(trace).traced()[a];
            let waits = final(p).enqueued_references@.contains(new);
            &&& !old(trace).live(a) ==> final(trace).referent(a)@ == 0
            &&& old(trace).live(a) && referent@ == 0 ==> !in_table(*final(p), new) && !waits
            &&& old(trace).live(a) && referent@ != 0 && old(trace).live(referent) ==> {
                &&& in_table(*final(p), new)
                &&& !waits
                &&& final(trace).traced().contains_key(referent)
                &&& final(trace).referent(new) == final(trace).traced()[referent]
            }
            &&& old(trace).live(a) && referent@ != 0 && !old(trace).live(referent) ==> {
                &&& !in_table(*final(p), new)
                &&& waits
                &&& final(trace).referent(new)@ == 0
                &&& !final(trace).live(referent)
            }
        }),
{
    assert(p.table().contains(a));
    lemma_scan_outcome(
        *trace,
        p.table(),
        *final(trace),
        final(p).table(),
        final(p).enqueued_references@,
        a,
    );
    let new = final(trace).traced()[a];
    assert(final(p).table().contains(new) == in_table(*final(p), new));
}

/// Whatever is in the table or waits after a scan was a reference of the table that was alive and had a
/// referent. None waits twice. Nothing comes to life by a scan, no other reference is changed, and nothing
/// is traced but references of the table that are alive and referents that are.
#[verifier::spinoff_prover]
pub proof fn law_scan_makes_nothing_up<E: ProcessEdgesWork>(
    p: &mut ReferenceProcessor,
    trace: &mut E,
    nursery: bool,
    r: ObjectReference,
    x: ObjectReference,
)
    requires
        trace.wf(),
        scannable(*trace, p.table()),
        p.enqueued_references@.len() == 0,
        call_ensures(ReferenceProcessor::scan::<E>, (p, trace, nursery), ()),
    ensures
        in_table(*final(p), r) ==> exists|a: ObjectReference|
            {
                &&& in_table(*old(p), a)
                &&& old(trace).live(a)
                &&& old(trace).referent(a)@ != 0
                &&& old(trace).live(old(trace).referent(a))
                &&& #[trigger] final(trace).traced()[a] == r
            },
        final(p).enqueued_references@.contains(r) ==> exists|a: ObjectReference|
            {
                &&& in_table(*old(p), a)
                &&& old(trace).live(a)
                &&& old(trace).referent(a)@ != 0
                &&& !old(trace).live(old(trace).referent(a))
                &&& #[trigger] final(trace).traced()[a] == r
            },
        final(p).enqueued_references@.no_duplicates(),
        final(p).allow_new_candidate == old(p).allow_new_candidate,
        final(p).semantics == old(p).semantics,
        old(trace).is_object(x) ==> final(trace).live(x) == old(trace).live(x),
        old(trace).traced().contains_key(x) ==> final(trace).traced().contains_key(x) && final(trace).traced()[x] == old(trace).traced()[x],
        final(trace).traced().contains_key(x) && !old(trace).traced().contains_key(x) ==> old(trace).live(x) && (in_table(*old(p), x) || exists|a: ObjectReference| #[trigger]
            in_table(*old(p), a) && old(trace).live(a) && old(trace).referent(a) == x),
        old(trace).is_object(x) && !in_table(*old(p), x) && (forall|a: ObjectReference| #[trigger]
            in_table(*old(p), a) && old(trace).traced().contains_key(a) ==> old(trace).traced()[a]
                != x) ==> final(trace).referent(x) == old(trace).referent(x),
{
    let table = p.table();
    let before = *trace;
    let after = *final(trace);
    if in_table(*final(p), r) {
        assert(final(p).table().contains(r));
        assert(comes_from(before, table, Fate::ReferentLive, after, r));
        let a = choose|a: ObjectReference| #[trigger]
            table.contains(a) && fate(before, a) == Fate::ReferentLive && after.traced()[a] == r;
        assert(in_table(*p, a) && after.traced()[a] == r);
    }
    if final(p).enqueued_references@.contains(r) {
        assert(comes_from(before, table, Fate::ReferentDead, after, r));
        let a = choose|a: ObjectReference| #[trigger]
            table.contains(a) && fate(before, a) == Fate::ReferentDead && after.traced()[a] == r;
        assert(in_table(*p, a) && after.traced()[a] == r);
    }
    if after.traced().contains_key(x) && !before.traced().contains_key(x) {
        assert(newly_traced(before, after, x));
        assert(traced_by_scan(before, table, x));
        if !(table.contains(x) && fate(before, x) != Fate::ReferenceDead) {
            let a = choose|a: ObjectReference| #[trigger]
                table.contains(a) && fate(before, a) == Fate::ReferentLive && before.referent(a)
                    == x;
            assert(in_table(*p, a));
        }
    }
    if forall|a: ObjectReference| #[trigger]
        in_table(*p, a) && before.traced().contains_key(a) ==> before.traced()[a] != x {
        assert forall|a: ObjectReference| #[trigger]
            table.contains(a) && before.traced().contains_key(a) implies before.traced()[a]
            != x by {
            assert(in_table(*p, a));
        }
        assert(table.contains(x) == in_table(*p, x));
    }
}

/// What becomes of one reference that is processed alone.
#[verifier::spinoff_prover]
pub proof fn law_one_reference_is_decided_by_what_is_alive<E: ProcessEdgesWork>(
    trace: &mut E,
    a: ObjectReference,
    waiting: &mut Vec<ObjectReference>,
    kept: Option<ObjectReference>,
)
    requires
        trace.wf(),
        trace.copies(),
        is_reference(*trace, a),
        call_ensures(
            ReferenceProcessor::scan_single_reference::<E>,
            (trace, a, waiting),
            kept,
        ),
    ensures
        ({
            let referent = old(trace).referent(a);
            let new = final(trace).traced()[a];
            let live = old(trace).live(a);
            &&& !live ==> kept is None && final(waiting)@ == old(waiting)@ && final(trace).referent(a)@ == 0 && final(trace).traced() == old(trace).traced()
            &&& live && referent@ == 0 ==> kept is None && final(waiting)@ == old(waiting)@
            &&& live && referent@ != 0 && old(trace).live(referent) ==> kept == Some(new)
                && final(waiting)@ == old(waiting)@ && final(trace).referent(new) == final(trace).traced()[referent]
            &&& live && referent@ != 0 && !old(trace).live(referent) ==> kept is None && final(waiting)@ == old(waiting)@.push(new) && final(trace).referent(new)@ == 0 && !final(trace).live(referent)
        }),
{
}

/// Retaining: whatever a reference of the table that is alive refers to is alive afterwards, and has been
/// traced. Nothing comes to life that no reference of the table refers to, and no reference is changed.
#[verifier::spinoff_prover]
pub proof fn law_retaining_keeps_referents_alive<E: ProcessEdgesWork>(
    p: &ReferenceProcessor,
    trace: &mut E,
    nursery: bool,
    a: ObjectReference,
    x: ObjectReference,
)
    requires
        trace.wf(),
        scannable(*trace, p.table()),
        call_ensures(ReferenceProcessor::retain::<E>, (p, trace, nursery), ()),
    ensures
        in_table(*p, a) && old(trace).live(a) && old(trace).referent(a)@ != 0 ==> final(trace).live(
            old(trace).referent(a),
        ) && final(trace).traced().contains_key(old(trace).referent(a)),
        old(trace).is_object(x) && old(trace).live(x) ==> final(trace).live(x),
        old(trace).is_object(x) && !old(trace).live(x) && final(trace).live(x) ==> exists|
            b: ObjectReference,
        | #[trigger]
            in_table(*p, b) && final(trace).live(b) && old(trace).referent(b) == x,
        old(trace).is_object(x) ==> final(trace).referent(x) == old(trace).referent(x),
{
    if in_table(*p, a) {
        assert(p.table().contains(a));
    }
    if old(trace).is_object(x) && !old(trace).live(x) && final(trace).live(x) {
        assert(held_by(*trace, p.table(), *final(trace), x));
        let b = choose|b: ObjectReference| #[trigger]
            p.table().contains(b) && final(trace).live(b) && trace.referent(b) == x;
        assert(in_table(*p, b));
    }
}

/// As long as memory is not short, a soft reference that is alive stays in the table with its referent,
/// which is alive from then on, and does not wait.
#[verifier::spinoff_prover]
pub proof fn law_soft_references_hold_while_memory_lasts<E: ProcessEdgesWork>(
    p: &mut ReferenceProcessors,
    trace: &mut E,
    plan: &PlanStatus,
    a: ObjectReference,
)
    requires
        p.wf(),
        trace.wf(),
        scannable(*trace, p.soft.table()),
        p.soft.enqueued_references@.len() == 0,
        !plan.emergency_collection,
        call_ensures(ReferenceProcessors::scan_soft_refs::<E>, (p, trace, plan), ()),
        in_table(p.soft, a),
        trace.live(a),
        trace.referent(a)@ != 0,
    ensures
        ({
            let new = final(trace).traced()[a];
            &&& in_table(final(p).soft, new)
            &&& !final(p).soft.enqueued_references@.contains(new)
            &&& final(trace).referent(new) == final(trace).traced()[old(trace).referent(a)]
            &&& final(trace).live(old(trace).referent(a))
        }),
        final(p).weak == old(p).weak,
        final(p).phantom == old(p).phantom,
{
    let before = *trace;
    let after = *final(trace);
    let table = p.soft.table();
    let kept = final(p).soft.table();
    let enqueued = final(p).soft.enqueued_references@;
    assert(table.contains(a));
    let middle = choose|middle: E| #[trigger]
        retained(before, table, middle) && scanned(middle, table, after, kept, enqueued);
    assert(is_reference(before, a));
    lemma_grown_moved_apart(before, middle, table);
    assert forall|c: ObjectReference| #[trigger] table.contains(c) implies is_reference(
        middle,
        c,
    ) by {
        assert(is_reference(before, c));
    }
    lemma_scan_outcome(middle, table, after, kept, enqueued, a);
    assert(middle.is_object(before.referent(a)));
    let new = after.traced()[a];
    assert(kept.contains(new) == in_table(final(p).soft, new));
}

/// Where memory is short, soft references are as weak as weak ones: a referent that is not alive by
/// another way dies, and the reference waits.
#[verifier::spinoff_prover]
pub proof fn law_soft_references_give_way_in_an_emergency<E: ProcessEdgesWork>(
    p: &mut ReferenceProcessors,
    trace: &mut E,
    plan: &PlanStatus,
    a: ObjectReference,
)
    requires
        p.wf(),
        trace.wf(),
        scannable(*trace, p.soft.table()),
        p.soft.enqueued_references@.len() == 0,
        plan.emergency_collection,
        call_ensures(ReferenceProcessors::scan_soft_refs::<E>, (p, trace, plan), ()),
        in_table(p.soft, a),
        trace.live(a),
        trace.referent(a)@ != 0,
    ensures
        ({
            let new = final(trace).traced()[a];
            let live = old(trace).live(old(trace).referent(a));
            &&& in_table(final(p).soft, new) == live
            &&& final(p).soft.enqueued_references@.contains(new) == !live
            &&& final(trace).live(old(trace).referent(a)) == live
        }),
{
    assert(p.soft.table().contains(a));
    assert(is_reference(*trace, a));
    lemma_scan_outcome(
        *trace,
        p.soft.table(),
        *final(trace),
        final(p).soft.table(),
        final(p).soft.enqueued_references@,
        a,
    );
    let new = final(trace).traced()[a];
    assert(final(p).soft.table().contains(new) == in_table(final(p).soft, new));
}

/// Weak and phantom references never keep what they refer to alive: each stays exactly if its referent is
/// alive by another way, and waits otherwise. Scanning those of one strength leaves the others alone.
#[verifier::spinoff_prover]
pub proof fn law_weak_and_phantom_references_hold_nothing<E: ProcessEdgesWork>(
    p: &mut ReferenceProcessors,
    trace: &mut E,
    q: &mut ReferenceProcessors,
    world: &mut E,
    plan: &PlanStatus,
    a: ObjectReference,
    b: ObjectReference,
)
    requires
        p.wf(),
        trace.wf(),
        scannable(*trace, p.weak.table()),
        p.weak.enqueued_references@.len() == 0,
        call_ensures(ReferenceProcessors::scan_weak_refs::<E>, (p, trace, plan), ()),
        in_table(p.weak, a),
        trace.live(a),
        trace.referent(a)@ != 0,
        q.wf(),
        world.wf(),
        scannable(*world, q.phantom.table()),
        q.phantom.enqueued_references@.len() == 0,
        call_ensures(ReferenceProcessors::scan_phantom_refs::<E>, (q, world, plan), ()),
        in_table(q.phantom, b),
        world.live(b),
        world.referent(b)@ != 0,
    ensures
        ({
            let new = final(trace).traced()[a];
            let live = old(trace).live(old(trace).referent(a));
            &&& in_table(final(p).weak, new) == live
            &&& final(p).weak.enqueued_references@.contains(new) == !live
            &&& final(trace).live(old(trace).referent(a)) == live
        }),
        final(p).soft == old(p).soft,
        final(p).phantom == old(p).phantom,
        ({
            let new = final(world).traced()[b];
            let live = old(world).live(old(world).referent(b));
            &&& in_table(final(q).phantom, new) == live
            &&& final(q).phantom.enqueued_references@.contains(new) == !live
            &&& final(world).live(old(world).referent(b)) == live
        }),
        final(q).soft == old(q).soft,
        final(q).weak == old(q).weak,
{
    assert(p.weak.table().contains(a));
    assert(is_reference(*trace, a));
    lemma_scan_outcome(
        *trace,
        p.weak.table(),
        *final(trace),
        final(p).weak.table(),
        final(p).weak.enqueued_references@,
        a,
    );
    let new = final(trace).traced()[a];
    assert(final(p).weak.table().contains(new) == in_table(final(p).weak, new));
    assert(q.phantom.table().contains(b));
    assert(is_reference(*world, b));
    lemma_scan_outcome(
        *world,
        q.phantom.table(),
        *final(world),
        final(q).phantom.table(),
        final(q).phantom.enqueued_references@,
        b,
    );
    let place = final(world).traced()[b];
    assert(final(q).phantom.table().contains(place) == in_table(final(q).phantom, place));
}

/// Forwarding: each reference of the table, and each that waits, is where the trace says it is now, those
/// that wait in the same order. Each refers to where its referent is now, and one that was cleared stays
/// so. No other reference changes, none is lost or made up, and no candidate is taken until the end of the
/// collection.
#[verifier::spinoff_prover]
pub proof fn law_forwarding_follows_the_objects<E: ProcessEdgesWork>(
    p: &mut ReferenceProcessor,
    trace: &mut E,
    nursery: bool,
    a: ObjectReference,
    r: ObjectReference,
    i: int,
    later: &mut ReferenceProcessor,
    candidate: ObjectReference,
)
    requires
        trace.wf(),
        p.each_once(*trace),
        forwardable(*trace, p.domain()),
        call_ensures(ReferenceProcessor::forward::<E>, (p, trace, nursery), ()),
        *later == *final(p),
        call_ensures(ReferenceProcessor::add_candidate, (later, candidate), ()),
    ensures
        in_table(*old(p), a) || old(p).enqueued_references@.contains(a) ==> {
            let referent = old(trace).referent(a);
            &&& final(trace).traced().contains_key(a)
            &&& referent@ == 0 ==> final(trace).referent(a)@ == 0
            &&& referent@ != 0 ==> final(trace).traced().contains_key(referent) && final(trace).referent(a) == final(trace).traced()[referent]
        },
        in_table(*old(p), a) ==> in_table(*final(p), final(trace).traced()[a]),
        in_table(*final(p), r) ==> exists|b: ObjectReference|
            in_table(*old(p), b) && #[trigger] final(trace).traced()[b] == r,
        final(p).enqueued_references@.len() == old(p).enqueued_references@.len(),
        0 <= i < old(p).enqueued_references@.len() ==> final(p).enqueued_references@[i] == final(trace).traced()[old(p).enqueued_references@[i]],
        !final(p).allow_new_candidate,
        final(later).references@ == final(p).references@,
        old(trace).is_object(r) && !in_table(*old(p), r) && !old(p).enqueued_references@.contains(r)
            ==> final(trace).referent(r) == old(trace).referent(r),
{
    assert(p.domain().contains(r) == (in_table(*p, r) || p.enqueued_references@.contains(r)));
    if in_table(*p, a) {
        assert(p.table().contains(a));
        assert(p.domain().contains(a));
        assert(forwarded_reference(*trace, a, *final(trace)));
        assert(final(p).table().contains(final(trace).traced()[a]));
    }
    if p.enqueued_references@.contains(a) {
        assert(p.enqueued_references@.to_set().contains(a));
        assert(p.domain().contains(a));
        assert(forwarded_reference(*trace, a, *final(trace)));
    }
    if in_table(*final(p), r) {
        assert(final(p).table().contains(r));
        let b = choose|b: ObjectReference| #[trigger]
            p.table().contains(b) && final(trace).traced()[b] == r;
        assert(in_table(*p, b) && final(trace).traced()[b] == r);
    }
    assert(final(later).references@ =~= final(p).references@) by {
        assert forall|x: usize| final(later).references@.contains(x) == final(p).references@.contains(x) by {
            let o = ObjectReference(x);
            assert(final(later).table().contains(o) == final(p).table().contains(o));
        }
    }
}

/// What becomes of one reference that is forwarded alone: the result is where it is now, and it refers to
/// where its referent is now; one that was cleared stays so. No other reference changes, and nothing is
/// traced but the reference and its referent.
#[verifier::spinoff_prover]
pub proof fn law_one_reference_follows_its_referent<E: ProcessEdgesWork>(
    trace: &mut E,
    a: ObjectReference,
    new: ObjectReference,
    x: ObjectReference,
)
    requires
        trace.wf(),
        is_reference(*trace, a),
        call_ensures(ReferenceProcessor::forward_single_reference::<E>, (trace, a), new),
    ensures
        final(trace).traced().contains_key(a),
        new == final(trace).traced()[a],
        new@ != 0,
        old(trace).referent(a)@ == 0 ==> final(trace).referent(a)@ == 0,
        old(trace).referent(a)@ != 0 ==> final(trace).traced().contains_key(old(trace).referent(a))
            && final(trace).referent(a) == final(trace).traced()[old(trace).referent(a)],
        old(trace).is_object(x) && x != a ==> final(trace).referent(x) == old(trace).referent(x),
        old(trace).traced().contains_key(x) ==> final(trace).traced().contains_key(x)
            && final(trace).traced()[x] == old(trace).traced()[x],
        final(trace).traced().contains_key(x) && !old(trace).traced().contains_key(x) ==> x == a || x
            == old(trace).referent(a),
{
    assert(set![a].contains(a));
    assert(forwarded_reference(*trace, a, *final(trace)));
    if final(trace).traced().contains_key(x) && !old(trace).traced().contains_key(x) {
        assert(newly_traced(*trace, *final(trace), x));
    }
}

/// What one reference that is retained alone does: if it is alive, what it refers to is alive afterwards
/// and has been traced; nothing else comes to life, and no reference changes. One that is not alive, or
/// has been cleared, keeps nothing.
#[verifier::spinoff_prover]
pub proof fn law_one_reference_keeps_its_referent<E: ProcessEdgesWork>(
    trace: &mut E,
    a: ObjectReference,
    x: ObjectReference,
)
    requires
        trace.wf(),
        trace.copies(),
        is_reference(*trace, a),
        call_ensures(ReferenceProcessor::retain_single_reference::<E>, (trace, a), ()),
    ensures
        old(trace).live(a) && old(trace).referent(a)@ != 0 ==> final(trace).live(
            old(trace).referent(a),
        ) && final(trace).traced().contains_key(old(trace).referent(a)),
        !old(trace).live(a) || old(trace).referent(a)@ == 0 ==> *final(trace) == *old(trace),
        old(trace).is_object(x) && x != old(trace).referent(a) ==> final(trace).live(x) == old(trace).live(x),
        old(trace).is_object(x) ==> final(trace).referent(x) == old(trace).referent(x),
        final(trace).traced().contains_key(x) ==> old(trace).traced().contains_key(x) || x == old(trace).referent(a),
{
}

/// A candidate is in the table afterwards if candidates are taken, and is not added if they are not;
/// whatever else is in the table stays, and nothing else comes in. Nothing starts to wait.
#[verifier::spinoff_prover]
pub proof fn law_candidates_are_added_while_taken(
    p: &mut ReferenceProcessor,
    candidate: ObjectReference,
    q: &mut ReferenceProcessor,
    candidates: &[ObjectReference],
    a: ObjectReference,
)
    requires
        call_ensures(ReferenceProcessor::add_candidate, (p, candidate), ()),
        call_ensures(ReferenceProcessor::add_candidates, (q, candidates), ()),
    ensures
        in_table(*final(p), a) == (in_table(*old(p), a) || (old(p).allow_new_candidate && a
            == candidate)),
        final(p).enqueued_references == old(p).enqueued_references,
        final(p).allow_new_candidate == old(p).allow_new_candidate,
        in_table(*final(q), a) == (in_table(*old(q), a) || (old(q).allow_new_candidate
            && candidates@.contains(a))),
        final(q).enqueued_references == old(q).enqueued_references,
        final(q).allow_new_candidate == old(q).allow_new_candidate,
{
    assert(final(p).table().contains(a) == in_table(*final(p), a));
    assert(p.table().contains(a) == in_table(*p, a));
    assert(final(q).table().contains(a) == in_table(*final(q), a));
    assert(q.table().contains(a) == in_table(*q, a));
}

/// What is handed to a processor together: candidates go into the table and references to be handed over
/// wait after the earlier ones, if candidates are taken, and nothing happens if they are not. References
/// that are only to wait always do.
#[verifier::spinoff_prover]
pub proof fn law_references_wait_in_order(
    p: &mut ReferenceProcessor,
    candidates: &[ObjectReference],
    wait: &[ObjectReference],
    q: &mut ReferenceProcessor,
    more: &[ObjectReference],
    a: ObjectReference,
)
    requires
        call_ensures(
            ReferenceProcessor::add_candidates_and_enqueue,
            (p, candidates, wait),
            (),
        ),
        call_ensures(ReferenceProcessor::enqueue_candidates, (q, more), ()),
    ensures
        in_table(*final(p), a) == (in_table(*old(p), a) || (old(p).allow_new_candidate
            && candidates@.contains(a))),
        final(p).enqueued_references@ == (if old(p).allow_new_candidate {
            old(p).enqueued_references@ + wait@
        } else {
            old(p).enqueued_references@
        }),
        final(q).enqueued_references@ == old(q).enqueued_references@ + more@,
        final(q).references == old(q).references,
        final(q).allow_new_candidate == old(q).allow_new_candidate,
{
    assert(final(p).table().contains(a) == in_table(*final(p), a));
    assert(p.table().contains(a) == in_table(*p, a));
}

/// Candidates of each strength go to the processor of that strength and to no other.
#[verifier::spinoff_prover]
pub proof fn law_candidates_go_to_their_strength(
    soft: &mut ReferenceProcessors,
    weak: &mut ReferenceProcessors,
    phantom: &mut ReferenceProcessors,
    candidate: ObjectReference,
    a: ObjectReference,
)
    requires
        call_ensures(ReferenceProcessors::add_soft_candidate, (soft, candidate), ()),
        call_ensures(ReferenceProcessors::add_weak_candidate, (weak, candidate), ()),
        call_ensures(ReferenceProcessors::add_phantom_candidate, (phantom, candidate), ()),
    ensures
        in_table(final(soft).soft, a) == (in_table(old(soft).soft, a) || (old(soft).soft.allow_new_candidate && a == candidate)),
        final(soft).weak == old(soft).weak,
        final(soft).phantom == old(soft).phantom,
        in_table(final(weak).weak, a) == (in_table(old(weak).weak, a) || (old(weak).weak.allow_new_candidate && a == candidate)),
        final(weak).soft == old(weak).soft,
        final(weak).phantom == old(weak).phantom,
        in_table(final(phantom).phantom, a) == (in_table(old(phantom).phantom, a) || (old(phantom).phantom.allow_new_candidate && a == candidate)),
        final(phantom).soft == old(phantom).soft,
        final(phantom).weak == old(phantom).weak,
{
    assert(final(soft).soft.table().contains(a) == in_table(final(soft).soft, a));
    assert(soft.soft.table().contains(a) == in_table(soft.soft, a));
    assert(final(weak).weak.table().contains(a) == in_table(final(weak).weak, a));
    assert(weak.weak.table().contains(a) == in_table(weak.weak, a));
    assert(final(phantom).phantom.table().contains(a) == in_table(final(phantom).phantom, a));
    assert(phantom.phantom.table().contains(a) == in_table(phantom.phantom, a));
}

/// A processor keeps its strength whatever is done with it. Scanning, taking a candidate and cutting the table
/// up do not change whether candidates are taken, and by the last two no reference starts or ceases to wait.
#[verifier::spinoff_prover]
pub proof fn law_processor_keeps_its_strength<E: ProcessEdgesWork, VM: ReferenceGlue>(
    scanning: &mut ReferenceProcessor,
    world: &mut E,
    forwarding: &mut ReferenceProcessor,
    other_world: &mut E,
    nursery: bool,
    handing: &mut ReferenceProcessor,
    vm: &mut VM,
    tls: usize,
    adding: &mut ReferenceProcessor,
    a: ObjectReference,
    cutting: &mut ReferenceProcessor,
    n_threads: usize,
    drain: bool,
    parts: Vec<Vec<ObjectReference>>,
)
    requires
        call_ensures(ReferenceProcessor::scan::<E>, (scanning, world, nursery), ()),
        call_ensures(ReferenceProcessor::forward::<E>, (forwarding, other_world, nursery), ()),
        call_ensures(ReferenceProcessor::enqueue::<VM>, (handing, vm, tls), ()),
        call_ensures(ReferenceProcessor::add_candidate, (adding, a), ()),
        call_ensures(ReferenceProcessor::split_ref_table, (cutting, n_threads, drain), parts),
    ensures
        final(scanning).semantics == old(scanning).semantics,
        final(scanning).allow_new_candidate == old(scanning).allow_new_candidate,
        final(forwarding).semantics == old(forwarding).semantics,
        final(handing).semantics == old(handing).semantics,
        final(adding).semantics == old(adding).semantics,
        final(adding).allow_new_candidate == old(adding).allow_new_candidate,
        final(adding).enqueued_references@ == old(adding).enqueued_references@,
        final(cutting).semantics == old(cutting).semantics,
        final(cutting).allow_new_candidate == old(cutting).allow_new_candidate,
        final(cutting).enqueued_references@ == old(cutting).enqueued_references@,
{
}

} // verus!
