//! What holds of reference processing as a whole.
use crate::scheduler::gc_work::ProcessEdgesWork;
use crate::util::address::ObjectReference;
use crate::util::reference_model::{
    comes_from, fate, handed_over, is_reference, lemma_grown_moved_apart, retained, scannable,
    scanned, settled, Fate,
};
use crate::util::reference_processor::ReferenceProcessor;
use crate::util::reference_processors::{candidates_added, collection_ended};
use vstd::prelude::*;

verus! {

/// A soft reference that is alive keeps what it refers to as long as memory is not short: it stays
/// in the table, with its referent, and is not handed over.
pub proof fn law_soft_reference_keeps_its_referent<E: ProcessEdgesWork>(
    before: E,
    table: Set<ObjectReference>,
    middle: E,
    after: E,
    kept: Set<ObjectReference>,
    enqueued: Seq<ObjectReference>,
    a: ObjectReference,
)
    requires
        scannable(before, table),
        retained(before, table, middle),
        scanned(middle, table, after, kept, enqueued),
        table.contains(a),
        before.live(a),
        before.referent(a)@ != 0,
    ensures
        kept.contains(after.traced()[a]),
        after.referent(after.traced()[a]) == after.traced()[before.referent(a)],
        !enqueued.contains(after.traced()[a]),
{
    assert(is_reference(before, a));
    assert(middle.referent(a) == before.referent(a));
    assert(fate(middle, a) == Fate::ReferentLive);
    assert(settled(middle, a, after));
    assert(comes_from(middle, table, Fate::ReferentLive, after, after.traced()[a]));
    lemma_still_scannable(before, table, middle);
    law_no_reference_is_kept_and_enqueued(
        middle,
        table,
        after,
        kept,
        enqueued,
        after.traced()[a],
    );
}

/// Retaining what references refer to leaves the table fit to be scanned.
proof fn lemma_still_scannable<E: ProcessEdgesWork>(
    before: E,
    table: Set<ObjectReference>,
    middle: E,
)
    requires
        scannable(before, table),
        retained(before, table, middle),
    ensures
        scannable(middle, table),
{
    lemma_grown_moved_apart(before, middle, table);
    assert forall|a: ObjectReference| #[trigger] table.contains(a) implies is_reference(
        middle,
        a,
    ) by {
        assert(is_reference(before, a));
    }
}

/// No reference both stays in the table and is handed over.
pub proof fn law_no_reference_is_kept_and_enqueued<E: ProcessEdgesWork>(
    before: E,
    table: Set<ObjectReference>,
    after: E,
    kept: Set<ObjectReference>,
    enqueued: Seq<ObjectReference>,
    r: ObjectReference,
)
    requires
        scannable(before, table),
        scanned(before, table, after, kept, enqueued),
    ensures
        !(kept.contains(r) && enqueued.contains(r)),
{
    if kept.contains(r) && enqueued.contains(r) {
        let a = choose|a: ObjectReference| #[trigger]
            table.contains(a) && fate(before, a) == Fate::ReferentLive && after.traced()[a] == r;
        let b = choose|b: ObjectReference| #[trigger]
            table.contains(b) && fate(before, b) == Fate::ReferentDead && after.traced()[b] == r;
        assert forall|c: ObjectReference| #[trigger] table.contains(c) implies before.is_object(
            c,
        ) by {
            assert(is_reference(before, c));
        }
        lemma_grown_moved_apart(before, after, table);
        assert(settled(before, a, after) && settled(before, b, after));
    }
}

/// Every reference to be handed over has been cleared.
pub proof fn law_enqueued_references_are_cleared<E: ProcessEdgesWork>(
    before: E,
    table: Set<ObjectReference>,
    after: E,
    kept: Set<ObjectReference>,
    enqueued: Seq<ObjectReference>,
    i: int,
)
    requires
        scanned(before, table, after, kept, enqueued),
        0 <= i < enqueued.len(),
    ensures
        after.referent(enqueued[i])@ == 0,
{
    assert(enqueued.contains(enqueued[i]));
    let a = choose|a: ObjectReference| #[trigger]
        table.contains(a) && fate(before, a) == Fate::ReferentDead && after.traced()[a]
            == enqueued[i];
    assert(settled(before, a, after));
}

/// Every reference that stays in the table refers to where an object is now that was alive.
pub proof fn law_kept_references_refer_to_what_is_alive<E: ProcessEdgesWork>(
    before: E,
    table: Set<ObjectReference>,
    after: E,
    kept: Set<ObjectReference>,
    enqueued: Seq<ObjectReference>,
    r: ObjectReference,
)
    requires
        scanned(before, table, after, kept, enqueued),
        kept.contains(r),
    ensures
        exists|a: ObjectReference| #[trigger]
            table.contains(a) && before.live(a) && before.live(before.referent(a))
                && after.traced()[a] == r && after.referent(r)
                == after.traced()[before.referent(a)],
{
    let a = choose|a: ObjectReference| #[trigger]
        table.contains(a) && fate(before, a) == Fate::ReferentLive && after.traced()[a] == r;
    assert(settled(before, a, after));
}

/// A dead reference is neither kept nor handed over, and has been cleared.
pub proof fn law_dead_references_are_dropped<E: ProcessEdgesWork>(
    before: E,
    table: Set<ObjectReference>,
    after: E,
    kept: Set<ObjectReference>,
    enqueued: Seq<ObjectReference>,
    a: ObjectReference,
)
    requires
        scannable(before, table),
        scanned(before, table, after, kept, enqueued),
        table.contains(a),
        !before.live(a),
        !before.traced().contains_key(a),
    ensures
        after.referent(a)@ == 0,
        !kept.contains(a),
        !enqueued.contains(a),
{
    assert(settled(before, a, after));
    assert forall|c: ObjectReference| #[trigger] table.contains(c) implies before.is_object(c) by {
        assert(is_reference(before, c));
    }
    lemma_grown_moved_apart(before, after, table);
    if kept.contains(a) {
        let b = choose|b: ObjectReference| #[trigger]
            table.contains(b) && fate(before, b) == Fate::ReferentLive && after.traced()[b] == a;
        assert(settled(before, b, after));
        assert(after.traced()[b] == b || !table.contains(after.traced()[b]));
    }
    if enqueued.contains(a) {
        let b = choose|b: ObjectReference| #[trigger]
            table.contains(b) && fate(before, b) == Fate::ReferentDead && after.traced()[b] == a;
        assert(settled(before, b, after));
        assert(after.traced()[b] == b || !table.contains(after.traced()[b]));
    }
}

/// From the time its references were forwarded, a processor takes no candidate; from the end of
/// the collection on, it does again.
pub proof fn law_no_candidates_after_forwarding<E: ProcessEdgesWork>(
    world: E,
    p: ReferenceProcessor,
    forwarded: ReferenceProcessor,
    added: Set<ObjectReference>,
    later: ReferenceProcessor,
    next: ReferenceProcessor,
)
    requires
        p.forwarded_to(world, forwarded),
        candidates_added(forwarded, added, later),
        collection_ended(later, next),
    ensures
        later.table() == forwarded.table(),
        next.allow_new_candidate,
        next.table() == forwarded.table(),
{
}

/// Adding a candidate again changes nothing.
pub proof fn law_candidates_are_there_once(
    p: ReferenceProcessor,
    added: Set<ObjectReference>,
    once: ReferenceProcessor,
    twice: ReferenceProcessor,
)
    requires
        candidates_added(p, added, once),
        candidates_added(once, added, twice),
    ensures
        twice.table() == once.table(),
{
    assert(twice.table() =~= once.table());
}

/// What was handed over is not handed over again.
pub proof fn law_references_are_handed_over_once(
    delivered: Seq<(Seq<ObjectReference>, usize)>,
    p: ReferenceProcessor,
    ended: ReferenceProcessor,
    tls: usize,
)
    requires
        collection_ended(p, ended),
    ensures
        handed_over(
            handed_over(delivered, p.enqueued_references@, tls),
            ended.enqueued_references@,
            tls,
        ) == handed_over(delivered, p.enqueued_references@, tls),
{
}

} // verus!
