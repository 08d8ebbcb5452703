//! What processing references means: which references stay, which are cleared, and where they and
//! what they refer to are afterwards.
use crate::scheduler::gc_work::ProcessEdgesWork;
use crate::util::address::ObjectReference;
use crate::util::rounding::{single, single_quotient_up};
use vstd::prelude::*;

verus! {

/// What becomes of a reference when its table is scanned.
#[derive(Copy, Clone, PartialEq, Eq, Structural)]
pub enum Fate {
    /// The reference is dead: it is cleared and dropped.
    ReferenceDead,
    /// The reference was cleared before: it is dropped.
    NoReferent,
    /// The referent is alive: the reference stays in the table.
    ReferentLive,
    /// The referent is dead: the reference is cleared and waits to be handed over.
    ReferentDead,
}

/// What becomes of `reference`, by what is alive in `world`.
pub open spec fn fate<E: ProcessEdgesWork>(world: E, reference: ObjectReference) -> Fate {
    if !world.live(reference) {
        Fate::ReferenceDead
    } else if world.referent(reference)@ == 0 {
        Fate::NoReferent
    } else if world.live(world.referent(reference)) {
        Fate::ReferentLive
    } else {
        Fate::ReferentDead
    }
}

/// Whether `reference` is an object whose referent, unless it is null, is one too.
pub open spec fn is_reference<E: ProcessEdgesWork>(world: E, reference: ObjectReference) -> bool {
    &&& reference@ != 0
    &&& world.is_object(reference)
    &&& world.referent(reference)@ == 0 || world.is_object(world.referent(reference))
}

/// Whether no two references of `table` are one object: where some were moved already, they were
/// moved to different places, and not to where another reference of the table is.
pub open spec fn moved_apart<E: ProcessEdgesWork>(world: E, table: Set<ObjectReference>) -> bool {
    &&& forall|a: ObjectReference|
        #[trigger] table.contains(a) && world.traced().contains_key(a) ==> {
            &&& world.is_object(world.traced()[a])
            &&& world.traced()[a]@ != 0
            &&& world.traced()[a] == a || !table.contains(world.traced()[a])
        }
    &&& forall|a: ObjectReference, b: ObjectReference|
        #[trigger] table.contains(a) && #[trigger] table.contains(b) && a != b
            && world.traced().contains_key(a) && world.traced().contains_key(b)
            ==> world.traced()[a] != world.traced()[b]
}

/// Whether the references of `table` can be scanned in `world`.
pub open spec fn scannable<E: ProcessEdgesWork>(world: E, table: Set<ObjectReference>) -> bool {
    &&& world.copies()
    &&& forall|a: ObjectReference| #[trigger] table.contains(a) ==> is_reference(world, a)
    &&& moved_apart(world, table)
}

/// Whether `after` comes from `before` by tracing objects of it: each new place is that of the
/// object itself or was free, and no two are the same.
pub open spec fn grown<E: ProcessEdgesWork>(before: E, after: E) -> bool {
    &&& before.copies() && after.copies()
    &&& forall|x: ObjectReference| before.is_object(x) ==> #[trigger] after.is_object(x)
    &&& forall|x: ObjectReference| before.live(x) ==> #[trigger] after.live(x)
    &&& forall|x: ObjectReference| #[trigger]
        before.traced().contains_key(x) ==> after.traced().contains_key(x) && after.traced()[x]
            == before.traced()[x]
    &&& forall|x: ObjectReference| #[trigger]
        after.traced().contains_key(x) && !before.traced().contains_key(x) ==> {
            &&& before.is_object(x)
            &&& after.traced()[x] == x || !before.is_object(after.traced()[x])
            &&& after.is_object(after.traced()[x])
            &&& after.traced()[x]@ != 0
        }
    &&& forall|x: ObjectReference, y: ObjectReference|
        x != y && #[trigger] after.traced().contains_key(x) && !before.traced().contains_key(x)
            && #[trigger] after.traced().contains_key(y) && !before.traced().contains_key(y)
            ==> after.traced()[x] != after.traced()[y]
}

/// Whether the same objects are alive in `before` and `after`.
pub open spec fn same_liveness<E: ProcessEdgesWork>(before: E, after: E) -> bool {
    forall|x: ObjectReference|
        before.is_object(x) ==> #[trigger] after.live(x) == before.live(x)
}

/// Tracing some objects and then others is tracing them all.
pub proof fn lemma_grown_further<E: ProcessEdgesWork>(first: E, second: E, third: E)
    requires
        grown(first, second),
        grown(second, third),
        forall|x: ObjectReference| #[trigger]
            third.traced().contains_key(x) && !second.traced().contains_key(x) ==> first.is_object(
                x,
            ),
    ensures
        grown(first, third),
{
    assert forall|x: ObjectReference| #[trigger]
        third.traced().contains_key(x) && !first.traced().contains_key(x) implies {
        &&& first.is_object(x)
        &&& third.traced()[x] == x || !first.is_object(third.traced()[x])
        &&& third.is_object(third.traced()[x])
        &&& third.traced()[x]@ != 0
    } by {
        if second.traced().contains_key(x) {
            assert(third.traced()[x] == second.traced()[x]);
            assert(second.is_object(second.traced()[x]));
        } else {
            if first.is_object(third.traced()[x]) {
                assert(second.is_object(third.traced()[x]));
            }
        }
    }
    assert forall|x: ObjectReference, y: ObjectReference|
        x != y && #[trigger] third.traced().contains_key(x) && !first.traced().contains_key(x)
            && #[trigger] third.traced().contains_key(y) && !first.traced().contains_key(
            y,
        ) implies third.traced()[x] != third.traced()[y] by {
        if second.traced().contains_key(x) || !second.traced().contains_key(y) {
            lemma_new_places_differ(first, second, third, x, y);
        } else {
            lemma_new_places_differ(first, second, third, y, x);
        }
    }
}

/// The place of an object traced first is not that of one traced later.
pub proof fn lemma_new_places_differ<E: ProcessEdgesWork>(
    first: E,
    second: E,
    third: E,
    x: ObjectReference,
    y: ObjectReference,
)
    requires
        grown(first, second),
        grown(second, third),
        x != y,
        third.traced().contains_key(x),
        !first.traced().contains_key(x),
        third.traced().contains_key(y),
        !first.traced().contains_key(y),
        !second.traced().contains_key(y) ==> first.is_object(y),
        second.traced().contains_key(x) || !second.traced().contains_key(y),
    ensures
        third.traced()[x] != third.traced()[y],
{
    if second.traced().contains_key(x) {
        assert(third.traced()[x] == second.traced()[x]);
        assert(second.is_object(second.traced()[x]));
        if second.traced().contains_key(y) {
            assert(third.traced()[y] == second.traced()[y]);
        } else {
            assert(third.traced()[y] == y || !second.is_object(third.traced()[y]));
        }
    }
}

/// Tracing more objects keeps the references of a table apart.
pub proof fn lemma_grown_moved_apart<E: ProcessEdgesWork>(
    before: E,
    after: E,
    table: Set<ObjectReference>,
)
    requires
        grown(before, after),
        moved_apart(before, table),
        forall|a: ObjectReference| #[trigger] table.contains(a) ==> before.is_object(a),
    ensures
        moved_apart(after, table),
{
    assert forall|a: ObjectReference| #[trigger]
        table.contains(a) && after.traced().contains_key(a) implies {
        &&& after.is_object(after.traced()[a])
        &&& after.traced()[a]@ != 0
        &&& after.traced()[a] == a || !table.contains(after.traced()[a])
    } by {
        if before.traced().contains_key(a) {
            assert(after.traced()[a] == before.traced()[a]);
            assert(before.is_object(before.traced()[a]));
        }
    }
    assert forall|a: ObjectReference, b: ObjectReference| #[trigger]
        table.contains(a) && #[trigger] table.contains(b) && a != b && after.traced().contains_key(
            a,
        ) && after.traced().contains_key(b) implies after.traced()[a] != after.traced()[b] by {
        if before.traced().contains_key(a) || !before.traced().contains_key(b) {
            lemma_apart_one(before, after, table, a, b);
        } else {
            lemma_apart_one(before, after, table, b, a);
        }
    }
}

/// Two references of a table are apart, where the first was traced no later than the second.
pub proof fn lemma_apart_one<E: ProcessEdgesWork>(
    before: E,
    after: E,
    table: Set<ObjectReference>,
    a: ObjectReference,
    b: ObjectReference,
)
    requires
        grown(before, after),
        moved_apart(before, table),
        table.contains(a),
        table.contains(b),
        a != b,
        before.is_object(a),
        before.is_object(b),
        after.traced().contains_key(a),
        after.traced().contains_key(b),
        before.traced().contains_key(a) || !before.traced().contains_key(b),
    ensures
        after.traced()[a] != after.traced()[b],
{
    if before.traced().contains_key(a) {
        assert(after.traced()[a] == before.traced()[a]);
        assert(before.is_object(before.traced()[a]));
        if before.traced().contains_key(b) {
            assert(after.traced()[b] == before.traced()[b]);
        } else {
            assert(after.traced()[b] == b || !before.is_object(after.traced()[b]));
        }
    }
}

/// The objects found so far, oldest first: those handed on, and those not scanned yet.
pub open spec fn found<E: ProcessEdgesWork>(world: E) -> Seq<ObjectReference> {
    world.handed_on() + world.nodes()
}

/// Whether `x` was traced between `before` and `after`.
pub open spec fn newly_traced<E: ProcessEdgesWork>(
    before: E,
    after: E,
    x: ObjectReference,
) -> bool {
    after.traced().contains_key(x) && !before.traced().contains_key(x)
}

/// Whether what was found grew by the objects `order`, each where it is now, and these are the objects
/// that were traced, each once.
pub open spec fn found_in_order<E: ProcessEdgesWork>(
    before: E,
    after: E,
    order: Seq<ObjectReference>,
) -> bool {
    &&& order.no_duplicates()
    &&& forall|x: ObjectReference| #[trigger]
        order.contains(x) <==> newly_traced(before, after, x)
    &&& found(after) == found(before) + order.map_values(|x: ObjectReference| after.traced()[x])
}

/// Whether what was found grew by the objects that were traced, each once and where it is now, and by
/// nothing else.
pub open spec fn found_more<E: ProcessEdgesWork>(before: E, after: E) -> bool {
    exists|order: Seq<ObjectReference>| #[trigger] found_in_order(before, after, order)
}

/// Whether what was found grew by the objects that were traced, and nothing was handed on.
pub open spec fn nodes_found<E: ProcessEdgesWork>(before: E, after: E) -> bool {
    &&& after.handed_on() == before.handed_on()
    &&& found_more(before, after)
}

/// Whether the objects traced in `before` are where they were in `after`.
pub open spec fn still_traced<E: ProcessEdgesWork>(before: E, after: E) -> bool {
    forall|x: ObjectReference| #[trigger]
        before.traced().contains_key(x) ==> after.traced().contains_key(x) && after.traced()[x]
            == before.traced()[x]
}

/// Finding objects and then others is finding them all.
pub proof fn lemma_found_further<E: ProcessEdgesWork>(first: E, second: E, third: E)
    requires
        found_more(first, second),
        found_more(second, third),
        still_traced(first, second),
        still_traced(second, third),
    ensures
        found_more(first, third),
        still_traced(first, third),
{
    let one = choose|order: Seq<ObjectReference>| #[trigger]
        found_in_order(first, second, order);
    let two = choose|order: Seq<ObjectReference>| #[trigger]
        found_in_order(second, third, order);
    let order = one + two;
    let place = |x: ObjectReference| third.traced()[x];
    assert forall|x: ObjectReference| #[trigger] order.contains(x) <==> newly_traced(
        first,
        third,
        x,
    ) by {
        if order.contains(x) {
            let i = choose|i: int| 0 <= i < order.len() && order[i] == x;
            if i < one.len() {
                assert(one[i] == x && one.contains(x));
            } else {
                assert(two[i - one.len()] == x && two.contains(x));
            }
        }
        if newly_traced(first, third, x) {
            if second.traced().contains_key(x) {
                assert(one.contains(x));
                let i = choose|i: int| 0 <= i < one.len() && one[i] == x;
                assert(order[i] == x);
            } else {
                assert(two.contains(x));
                let i = choose|i: int| 0 <= i < two.len() && two[i] == x;
                assert(order[one.len() + i] == x);
            }
        }
    }
    assert forall|i: int, j: int| 0 <= i < order.len() && 0 <= j < order.len() && i
        != j implies order[i] != order[j] by {
        if i < one.len() && j >= one.len() {
            assert(one.contains(one[i]) && two.contains(two[j - one.len()]));
        } else if j < one.len() && i >= one.len() {
            assert(one.contains(one[j]) && two.contains(two[i - one.len()]));
        }
    }
    assert forall|i: int| 0 <= i < one.len() implies third.traced()[one[i]]
        == second.traced()[#[trigger] one[i]] by {
        assert(one.contains(one[i]));
    }
    assert(found(third) =~= found(first) + order.map_values(place));
    assert(found_in_order(first, third, order));
}

/// What changes nothing in what was traced and found.
pub proof fn lemma_found_same<E: ProcessEdgesWork>(before: E, after: E)
    requires
        after.traced() == before.traced(),
        found(after) == found(before),
    ensures
        found_more(before, after),
        still_traced(before, after),
{
    let none = Seq::<ObjectReference>::empty();
    assert(found(after) =~= found(before) + none.map_values(
        |x: ObjectReference| after.traced()[x],
    ));
    assert(found_in_order(before, after, none));
}

/// Tracing one object finds it.
pub proof fn lemma_traced_found<E: ProcessEdgesWork>(
    before: E,
    object: ObjectReference,
    after: E,
    r: ObjectReference,
)
    requires
        !before.traced().contains_key(object),
        after.traced() == before.traced().insert(object, r),
        after.handed_on() == before.handed_on(),
        after.nodes() == before.nodes().push(r),
    ensures
        nodes_found(before, after),
        still_traced(before, after),
{
    let order = seq![object];
    assert(order[0] == object);
    assert forall|x: ObjectReference| #[trigger] order.contains(x) <==> newly_traced(
        before,
        after,
        x,
    ) by {
        if newly_traced(before, after, x) {
            assert(order[0] == x);
        }
    }
    assert(found(after) =~= found(before) + order.map_values(
        |x: ObjectReference| after.traced()[x],
    ));
    assert(found_in_order(before, after, order));
}

/// What scanning `reference` alone makes of the world.
pub open spec fn scanned_one<E: ProcessEdgesWork>(
    before: E,
    reference: ObjectReference,
    after: E,
) -> bool {
    let referent = before.referent(reference);
    let new = after.traced()[reference];
    &&& grown(before, after)
    &&& same_liveness(before, after)
    &&& forall|x: ObjectReference| #[trigger]
        after.traced().contains_key(x) ==> before.traced().contains_key(x) || x == reference || (x
            == referent && fate(before, reference) == Fate::ReferentLive)
    &&& match fate(before, reference) {
        Fate::ReferenceDead => {
            &&& after.traced() == before.traced()
            &&& after.referent(reference)@ == 0
            &&& forall|x: ObjectReference|
                before.is_object(x) && x != reference ==> #[trigger] after.referent(x)
                    == before.referent(x)
        },
        Fate::NoReferent => {
            &&& after.traced().contains_key(reference)
            &&& forall|x: ObjectReference|
                before.is_object(x) ==> #[trigger] after.referent(x) == before.referent(x)
        },
        Fate::ReferentLive => {
            &&& after.traced().contains_key(reference)
            &&& after.traced().contains_key(referent)
            &&& after.referent(new) == after.traced()[referent]
            &&& forall|x: ObjectReference|
                before.is_object(x) && x != new ==> #[trigger] after.referent(x)
                    == before.referent(x)
        },
        Fate::ReferentDead => {
            &&& after.traced().contains_key(reference)
            &&& after.referent(new)@ == 0
            &&& forall|x: ObjectReference|
                before.is_object(x) && x != new ==> #[trigger] after.referent(x)
                    == before.referent(x)
        },
    }
}

/// Whether `reference`, a reference of a table scanned from `before` on, is as it should be in
/// `now`: cleared where it or its referent was dead, and with the referent where it is now where
/// that was alive.
pub open spec fn settled<E: ProcessEdgesWork>(
    before: E,
    reference: ObjectReference,
    now: E,
) -> bool {
    let referent = before.referent(reference);
    match fate(before, reference) {
        Fate::ReferenceDead => now.referent(reference)@ == 0,
        Fate::NoReferent => now.traced().contains_key(reference),
        Fate::ReferentLive => {
            &&& now.traced().contains_key(reference)
            &&& now.traced().contains_key(referent)
            &&& now.referent(now.traced()[reference]) == now.traced()[referent]
        },
        Fate::ReferentDead => {
            &&& now.traced().contains_key(reference)
            &&& now.referent(now.traced()[reference])@ == 0
        },
    }
}

/// Whether `r` is where a reference of `table` with the fate `which` is in `after`.
pub open spec fn comes_from<E: ProcessEdgesWork>(
    before: E,
    table: Set<ObjectReference>,
    which: Fate,
    after: E,
    r: ObjectReference,
) -> bool {
    exists|a: ObjectReference| #[trigger]
        table.contains(a) && fate(before, a) == which && after.traced()[a] == r
}

/// Whether the scan of `table` traces `x`: it is a reference of the table that is alive, or what such
/// a one refers to, if that is alive.
pub open spec fn traced_by_scan<E: ProcessEdgesWork>(
    before: E,
    table: Set<ObjectReference>,
    x: ObjectReference,
) -> bool {
    ||| table.contains(x) && fate(before, x) != Fate::ReferenceDead
    ||| exists|a: ObjectReference| #[trigger]
        table.contains(a) && fate(before, a) == Fate::ReferentLive && before.referent(a) == x
}

/// What scanning `table` makes of the world: every reference is settled, those whose referent was
/// alive are the ones in `kept`, and those whose referent was dead are the ones in `enqueued`,
/// each at its new place. No other reference changes, nothing else is traced, and nothing comes to
/// life.
pub open spec fn scanned<E: ProcessEdgesWork>(
    before: E,
    table: Set<ObjectReference>,
    after: E,
    kept: Set<ObjectReference>,
    enqueued: Seq<ObjectReference>,
) -> bool {
    &&& grown(before, after)
    &&& same_liveness(before, after)
    &&& forall|a: ObjectReference| #[trigger] table.contains(a) ==> settled(before, a, after)
    &&& forall|r: ObjectReference| #[trigger]
        kept.contains(r) <==> comes_from(before, table, Fate::ReferentLive, after, r)
    &&& forall|r: ObjectReference| #[trigger]
        enqueued.contains(r) <==> comes_from(before, table, Fate::ReferentDead, after, r)
    &&& enqueued.no_duplicates()
    &&& forall|x: ObjectReference| #[trigger]
        newly_traced(before, after, x) ==> traced_by_scan(before, table, x)
    &&& forall|x: ObjectReference|
        before.is_object(x) && !table.contains(x) && (forall|a: ObjectReference| #[trigger]
            table.contains(a) && before.traced().contains_key(a) ==> before.traced()[a] != x)
            ==> #[trigger] after.referent(x) == before.referent(x)
}

/// What tracing `object` makes of the world, and where the object is then.
pub open spec fn traced_one<E: ProcessEdgesWork>(
    before: E,
    object: ObjectReference,
    after: E,
    r: ObjectReference,
) -> bool {
    let again = before.traced().contains_key(object);
    &&& after.copies() == before.copies()
    &&& object@ == 0 ==> r@ == 0 && after.traced() == before.traced()
    &&& object@ != 0 ==> r@ != 0 && after.live(object) && after.live(r)
    &&& object@ != 0 && again ==> {
        &&& r == before.traced()[object]
        &&& after.traced() == before.traced()
        &&& forall|x: ObjectReference| #[trigger] after.live(x) == before.live(x)
        &&& forall|x: ObjectReference| #[trigger] after.is_object(x) == before.is_object(x)
    }
    &&& object@ != 0 && !again ==> after.traced() == before.traced().insert(object, r)
    &&& object@ != 0 && !again && before.copies() ==> {
        &&& r == object || !before.is_object(r)
        &&& after.is_object(r)
        &&& after.referent(r) == before.referent(object)
    }
    &&& forall|x: ObjectReference| before.is_object(x) ==> #[trigger] after.is_object(x)
    &&& forall|x: ObjectReference|
        before.is_object(x) && x != object && x != r ==> #[trigger] after.live(x) == before.live(x)
    &&& forall|x: ObjectReference| before.live(x) ==> #[trigger] after.live(x)
    &&& forall|x: ObjectReference|
        before.is_object(x) ==> #[trigger] after.referent(x) == before.referent(x)
    &&& nodes_found(before, after)
    &&& still_traced(before, after)
}

/// Tracing one object.
pub proof fn lemma_traced_grown<E: ProcessEdgesWork>(
    before: E,
    object: ObjectReference,
    after: E,
    r: ObjectReference,
)
    requires
        traced_one(before, object, after, r),
        before.copies(),
        object@ != 0,
        before.is_object(object),
    ensures
        grown(before, after),
        before.live(object) ==> same_liveness(before, after),
        after.traced().contains_key(object),
        after.traced()[object] == r,
{
}

/// How far the scan of the references `refs` has got once the first `n` are done.
pub open spec fn scan_progress<E: ProcessEdgesWork>(
    before: E,
    refs: Seq<ObjectReference>,
    n: int,
    now: E,
) -> bool {
    &&& grown(before, now)
    &&& same_liveness(before, now)
    &&& forall|j: int| 0 <= j < n ==> settled(before, #[trigger] refs[j], now)
    &&& forall|j: int|
        n <= j < refs.len() ==> now.referent(#[trigger] refs[j]) == before.referent(refs[j])
    &&& forall|x: ObjectReference| #[trigger]
        newly_traced(before, now, x) ==> traced_by_scan(before, refs.to_set(), x)
    &&& forall|x: ObjectReference|
        before.is_object(x) && !refs.to_set().contains(x) && (forall|a: ObjectReference| #[trigger]
            refs.to_set().contains(a) && before.traced().contains_key(a) ==> before.traced()[a]
                != x) ==> #[trigger] now.referent(x) == before.referent(x)
}

/// Whether `r` is where one of the first `n` references with the fate `which` is in `now`.
pub open spec fn placed<E: ProcessEdgesWork>(
    before: E,
    refs: Seq<ObjectReference>,
    n: int,
    which: Fate,
    now: E,
    r: ObjectReference,
) -> bool {
    exists|j: int|
        0 <= j < n && fate(before, #[trigger] refs[j]) == which && now.traced()[refs[j]] == r
}

/// Scanning one more reference.
pub proof fn lemma_scan_step<E: ProcessEdgesWork>(
    before: E,
    refs: Seq<ObjectReference>,
    i: int,
    middle: E,
    after: E,
)
    requires
        scannable(before, refs.to_set()),
        refs.no_duplicates(),
        0 <= i < refs.len(),
        scan_progress(before, refs, i, middle),
        scanned_one(middle, refs[i], after),
    ensures
        scan_progress(before, refs, i + 1, after),
        fate(middle, refs[i]) == fate(before, refs[i]),
        moved_apart(after, refs.to_set()),
{
    let table = refs.to_set();
    let a = refs[i];
    assert forall|j: int| 0 <= j < refs.len() implies table.contains(#[trigger] refs[j])
        && is_reference(before, refs[j]) by {}
    assert(middle.referent(a) == before.referent(a));
    assert(fate(middle, a) == fate(before, a));
    lemma_grown_further(before, middle, after);
    lemma_grown_moved_apart(before, middle, table);
    lemma_grown_moved_apart(before, after, table);
    assert(same_liveness(before, after)) by {
        assert forall|x: ObjectReference| before.is_object(x) implies #[trigger] after.live(x)
            == before.live(x) by {
            assert(middle.is_object(x));
        }
    }
    assert forall|j: int| 0 <= j < i + 1 implies settled(before, #[trigger] refs[j], after) by {
        if j < i {
            let b = refs[j];
            assert(settled(before, b, middle));
            assert(b != a);
            assert(middle.is_object(b));
            if fate(before, b) != Fate::ReferenceDead {
                assert(middle.traced().contains_key(b));
                assert(after.traced()[b] == middle.traced()[b]);
                assert(middle.is_object(middle.traced()[b]));
            }
        }
    }
    assert forall|x: ObjectReference| #[trigger] newly_traced(
        before,
        after,
        x,
    ) implies traced_by_scan(before, table, x) by {
        if middle.traced().contains_key(x) {
            assert(newly_traced(before, middle, x));
        } else {
            assert(table.contains(a));
        }
    }
    assert forall|j: int| i + 1 <= j < refs.len() implies after.referent(#[trigger] refs[j])
        == before.referent(refs[j]) by {
        assert(refs[j] != a);
        assert(middle.is_object(refs[j]));
    }
    assert forall|x: ObjectReference|
        before.is_object(x) && !table.contains(x) && (forall|c: ObjectReference| #[trigger]
            table.contains(c) && before.traced().contains_key(c) ==> before.traced()[c]
                != x) implies #[trigger] after.referent(x) == before.referent(x) by {
        assert(middle.is_object(x));
        assert(middle.referent(x) == before.referent(x));
        assert(x != a);
        if before.traced().contains_key(a) {
            assert(after.traced()[a] == before.traced()[a]);
        }
    }
}

/// Where the references done so far are does not change when the next one is scanned.
pub proof fn lemma_placed_step<E: ProcessEdgesWork>(
    before: E,
    refs: Seq<ObjectReference>,
    i: int,
    middle: E,
    after: E,
    which: Fate,
)
    requires
        0 <= i < refs.len(),
        which != Fate::ReferenceDead,
        scan_progress(before, refs, i, middle),
        grown(middle, after),
    ensures
        forall|r: ObjectReference| #[trigger]
            placed(before, refs, i + 1, which, after, r) == (placed(
                before,
                refs,
                i,
                which,
                middle,
                r,
            ) || (fate(before, refs[i]) == which && after.traced()[refs[i]] == r)),
{
    assert forall|r: ObjectReference| #[trigger]
        placed(before, refs, i + 1, which, after, r) == (placed(before, refs, i, which, middle, r)
            || (fate(before, refs[i]) == which && after.traced()[refs[i]] == r)) by {
        if placed(before, refs, i + 1, which, after, r) {
            let j = choose|j: int|
                0 <= j < i + 1 && fate(before, #[trigger] refs[j]) == which
                    && after.traced()[refs[j]] == r;
            if j < i {
                assert(settled(before, refs[j], middle));
                assert(middle.traced().contains_key(refs[j]));
            }
        }
        if placed(before, refs, i, which, middle, r) {
            let j = choose|j: int|
                0 <= j < i && fate(before, #[trigger] refs[j]) == which
                    && middle.traced()[refs[j]] == r;
            assert(settled(before, refs[j], middle));
            assert(middle.traced().contains_key(refs[j]));
        }
        if fate(before, refs[i]) == which && after.traced()[refs[i]] == r {
            assert(fate(before, refs[i]) == which);
        }
    }
}

/// Where the references are, by index or by membership.
pub proof fn lemma_placed_is_comes_from<E: ProcessEdgesWork>(
    before: E,
    refs: Seq<ObjectReference>,
    which: Fate,
    after: E,
)
    ensures
        forall|r: ObjectReference| #[trigger]
            placed(before, refs, refs.len() as int, which, after, r) == comes_from(
                before,
                refs.to_set(),
                which,
                after,
                r,
            ),
{
    let n = refs.len() as int;
    assert forall|r: ObjectReference| #[trigger]
        placed(before, refs, n, which, after, r) == comes_from(
            before,
            refs.to_set(),
            which,
            after,
            r,
        ) by {
        if placed(before, refs, n, which, after, r) {
            let j = choose|j: int|
                0 <= j < n && fate(before, #[trigger] refs[j]) == which && after.traced()[refs[j]]
                    == r;
            assert(refs.to_set().contains(refs[j]));
        }
        if comes_from(before, refs.to_set(), which, after, r) {
            let a = choose|a: ObjectReference| #[trigger]
                refs.to_set().contains(a) && fate(before, a) == which && after.traced()[a] == r;
            let j = choose|j: int| 0 <= j < n && refs[j] == a;
            assert(fate(before, refs[j]) == which);
        }
    }
}

/// What retaining the referent of `reference` makes of the world: nothing where the reference is
/// not known to be alive or has no referent; else the referent is kept alive.
pub open spec fn retained_one<E: ProcessEdgesWork>(
    before: E,
    reference: ObjectReference,
    after: E,
) -> bool {
    let referent = before.referent(reference);
    if before.live(reference) && referent@ != 0 {
        &&& grown(before, after)
        &&& after.traced().contains_key(referent)
        &&& after.live(referent)
        &&& forall|x: ObjectReference| #[trigger]
            after.traced().contains_key(x) ==> before.traced().contains_key(x) || x == referent
        &&& forall|x: ObjectReference|
            before.is_object(x) && x != referent ==> #[trigger] after.live(x) == before.live(x)
        &&& forall|x: ObjectReference|
            before.is_object(x) ==> #[trigger] after.referent(x) == before.referent(x)
    } else {
        after == before
    }
}

/// Whether `x` is what a reference of `table` that is alive in `after` refers to.
pub open spec fn held_by<E: ProcessEdgesWork>(
    before: E,
    table: Set<ObjectReference>,
    after: E,
    x: ObjectReference,
) -> bool {
    exists|a: ObjectReference| #[trigger]
        table.contains(a) && after.live(a) && before.referent(a) == x
}

/// What retaining the referents of `table` makes of the world: those of references that were alive
/// have been traced and are alive, whatever was traced or came to life is the referent of a reference
/// that is alive now, and no reference was changed.
pub open spec fn retained<E: ProcessEdgesWork>(
    before: E,
    table: Set<ObjectReference>,
    after: E,
) -> bool {
    &&& grown(before, after)
    &&& forall|a: ObjectReference| #[trigger]
        table.contains(a) && before.live(a) && before.referent(a)@ != 0
            ==> after.traced().contains_key(before.referent(a)) && after.live(before.referent(a))
    &&& forall|x: ObjectReference| #[trigger]
        newly_traced(before, after, x) ==> held_by(before, table, after, x)
    &&& forall|x: ObjectReference|
        before.is_object(x) && !before.live(x) && #[trigger] after.live(x) ==> held_by(
            before,
            table,
            after,
            x,
        )
    &&& forall|x: ObjectReference|
        before.is_object(x) ==> #[trigger] after.referent(x) == before.referent(x)
}

/// Whether `x` is one of the references of `domain`, or what one of them refers to.
pub open spec fn concerned<E: ProcessEdgesWork>(
    before: E,
    domain: Set<ObjectReference>,
    x: ObjectReference,
) -> bool {
    ||| domain.contains(x)
    ||| exists|a: ObjectReference| #[trigger] domain.contains(a) && before.referent(a) == x
}

/// What forwarding the references of `domain` makes of the world: each of them, and what it refers
/// to, has been traced, and it refers to where its referent is now. No other reference changes, and
/// nothing else is traced.
pub open spec fn forwarded<E: ProcessEdgesWork>(
    before: E,
    domain: Set<ObjectReference>,
    after: E,
) -> bool {
    &&& forall|x: ObjectReference| before.is_object(x) ==> #[trigger] after.is_object(x)
    &&& forall|x: ObjectReference| #[trigger]
        before.traced().contains_key(x) ==> after.traced().contains_key(x) && after.traced()[x]
            == before.traced()[x]
    &&& forall|a: ObjectReference| #[trigger]
        domain.contains(a) ==> forwarded_reference(before, a, after)
    &&& forall|x: ObjectReference| #[trigger]
        newly_traced(before, after, x) ==> concerned(before, domain, x)
    &&& forall|x: ObjectReference|
        before.is_object(x) && !domain.contains(x) ==> #[trigger] after.referent(x)
            == before.referent(x)
}

/// Whether `a` was forwarded: it has been traced, and refers to where its referent is now.
pub open spec fn forwarded_reference<E: ProcessEdgesWork>(
    before: E,
    a: ObjectReference,
    after: E,
) -> bool {
    let referent = before.referent(a);
    &&& after.traced().contains_key(a)
    &&& referent@ == 0 ==> after.referent(a)@ == 0
    &&& referent@ != 0 ==> after.traced().contains_key(referent) && after.referent(a)
        == after.traced()[referent]
}

/// Whether each of the references `refs` that has not been cleared is there once.
pub open spec fn once_unless_cleared<E: ProcessEdgesWork>(
    world: E,
    refs: Seq<ObjectReference>,
) -> bool {
    forall|i: int, j: int|
        #![trigger refs[i], refs[j]]
        0 <= i < j < refs.len() && refs[i] == refs[j] ==> world.referent(refs[i])@ == 0
}

/// Whether every member of `domain` is a reference.
pub open spec fn forwardable<E: ProcessEdgesWork>(world: E, domain: Set<ObjectReference>) -> bool {
    forall|a: ObjectReference| #[trigger] domain.contains(a) ==> is_reference(world, a)
}

/// Forwarding some references and then others is forwarding them all.
pub proof fn lemma_forwarded_further<E: ProcessEdgesWork>(
    first: E,
    domain: Set<ObjectReference>,
    second: E,
    more: Set<ObjectReference>,
    third: E,
)
    requires
        forwardable(first, domain),
        forwardable(first, more),
        forall|a: ObjectReference| #[trigger]
            more.contains(a) && domain.contains(a) ==> first.referent(a)@ == 0,
        forwarded(first, domain, second),
        forwarded(second, more, third),
    ensures
        forwarded(first, domain.union(more), third),
{
    assert forall|a: ObjectReference| #[trigger]
        domain.union(more).contains(a) implies forwarded_reference(first, a, third) by {
        assert(is_reference(first, a));
        if domain.contains(a) {
            assert(forwarded_reference(first, a, second));
            assert(second.is_object(a));
            if more.contains(a) {
                assert(forwarded_reference(second, a, third));
            } else {
                assert(third.referent(a) == second.referent(a));
            }
        } else {
            assert(second.referent(a) == first.referent(a));
            assert(forwarded_reference(second, a, third));
        }
    }
    assert forall|x: ObjectReference| #[trigger] newly_traced(first, third, x) implies concerned(
        first,
        domain.union(more),
        x,
    ) by {
        if second.traced().contains_key(x) {
            assert(newly_traced(first, second, x));
            if !domain.contains(x) {
                let a = choose|a: ObjectReference| #[trigger]
                    domain.contains(a) && first.referent(a) == x;
                assert(domain.union(more).contains(a));
            } else {
                assert(domain.union(more).contains(x));
            }
        } else {
            assert(newly_traced(second, third, x));
            if !more.contains(x) {
                let a = choose|a: ObjectReference| #[trigger]
                    more.contains(a) && second.referent(a) == x;
                assert(domain.union(more).contains(a));
                assert(is_reference(first, a));
                if domain.contains(a) {
                    assert(forwarded_reference(first, a, second));
                }
            } else {
                assert(domain.union(more).contains(x));
            }
        }
    }
    assert forall|x: ObjectReference|
        first.is_object(x) && !domain.union(more).contains(x) implies #[trigger] third.referent(x)
        == first.referent(x) by {
        assert(second.is_object(x));
    }
}

/// Forwarding some references leaves the others fit to be forwarded.
pub proof fn lemma_still_forwardable<E: ProcessEdgesWork>(
    first: E,
    domain: Set<ObjectReference>,
    second: E,
    more: Set<ObjectReference>,
)
    requires
        forwardable(first, more),
        forall|a: ObjectReference| #[trigger]
            more.contains(a) && domain.contains(a) ==> first.referent(a)@ == 0,
        forwarded(first, domain, second),
    ensures
        forwardable(second, more),
{
    assert forall|a: ObjectReference| #[trigger] more.contains(a) implies is_reference(
        second,
        a,
    ) by {
        assert(is_reference(first, a));
        if domain.contains(a) {
            assert(forwarded_reference(first, a, second));
        } else {
            assert(second.referent(a) == first.referent(a));
        }
    }
}

/// The lists handed over once the thread `tls` has handed over `list`, where an empty list is not
/// handed over.
pub open spec fn handed_over(
    delivered: Seq<(Seq<ObjectReference>, usize)>,
    list: Seq<ObjectReference>,
    tls: usize,
) -> Seq<(Seq<ObjectReference>, usize)> {
    if list.len() == 0 {
        delivered
    } else {
        delivered.push((list, tls))
    }
}

/// How many references a part has where `len` references are cut up for `n_threads` workers: 4096 if
/// there are more than so many for each, and otherwise their share, reckoned in single precision and
/// rounded up.
pub open spec fn part_size(len: int, n_threads: int) -> int {
    if 4096 * n_threads < len {
        4096
    } else {
        single_quotient_up(single(len), single(n_threads))
    }
}

/// Where part `k` of `len` references, cut into parts of `size`, ends.
pub open spec fn part_end(len: int, size: int, k: int) -> int {
    if (k + 1) * size <= len {
        (k + 1) * size
    } else {
        len
    }
}

/// Whether `parts` are the references `refs` cut into parts of `size` references, the last of
/// which may have fewer.
pub open spec fn cut_into(
    refs: Seq<ObjectReference>,
    size: int,
    parts: Seq<Vec<ObjectReference>>,
) -> bool {
    &&& refs.len() == 0 <==> parts.len() == 0
    &&& refs.len() > 0 ==> size > 0 && (parts.len() - 1) * size < refs.len() <= parts.len() * size
    &&& forall|k: int|
        0 <= k < parts.len() ==> (#[trigger] parts[k])@ == refs.subrange(
            k * size,
            part_end(refs.len() as int, size, k),
        )
}

} // verus!
