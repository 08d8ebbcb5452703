//! What holds of counts, marks and objects that are moved.
use crate::plan::pause::Pause;
use crate::plan::tracing::ObjectQueue;
use crate::policy::immix::line::Line;
use crate::policy::lxr::immixspace::{moved, ImmixHooks, LXRSpace};
use crate::policy::lxr::search_laws::law_recorded_object_is_not_given_out;
use crate::policy::lxr::terms::{count_at, covered_at, inside, marked_at, moved_to, to_evacuate};
use crate::scheduler::worker::GCWorker;
use crate::util::address::ObjectReference;
use crate::util::rc::RefCountHelper;
use crate::vm::object_model::{CopySemantics, ObjectModel};
use vstd::prelude::*;

verus! {

/// The count of an object is what it was last set to, and setting it changes the count of no object
/// that starts 16 bytes or more away.
pub proof fn law_count_is_what_was_set(
    rc: &mut RefCountHelper,
    object: ObjectReference,
    count: u8,
    now: &RefCountHelper,
    read: u8,
    other: ObjectReference,
    read_before: u8,
    read_after: u8,
)
    requires
        rc.wf(),
        rc.covers(object@),
        rc.covers(other@),
        other@ >= object@ + 16 || object@ >= other@ + 16,
        call_ensures(RefCountHelper::count, (&*rc, other), read_before),
        call_ensures(RefCountHelper::set, (rc, object, count), ()),
        *now == *final(rc),
        call_ensures(RefCountHelper::count, (now, object), read),
        call_ensures(RefCountHelper::count, (now, other), read_after),
    ensures
        read == count,
        read_after == read_before,
{
    let s = rc.start as int;
    if other@ >= object@ + 16 {
        assert((other@ - s) / 16 >= (object@ - s) / 16 + 1);
    } else {
        assert((object@ - s) / 16 >= (other@ - s) / 16 + 1);
    }
}

/// A line is dead exactly if every object that starts on it has the count zero.
#[verifier::spinoff_prover]
pub proof fn law_dead_line_has_no_counted_object(
    rc: &RefCountHelper,
    line: usize,
    dead: bool,
    object: ObjectReference,
    count: u8,
)
    requires
        rc.wf(),
        line < rc.straddle@.len(),
        rc.start + line * 256 <= object@ < rc.start + line * 256 + 256,
        call_ensures(RefCountHelper::is_line_dead, (rc, line), dead),
        call_ensures(RefCountHelper::count, (rc, object), count),
    ensures
        dead ==> count == 0,
        !dead ==> exists|g: int|
            line * 16 <= g < line * 16 + 16 && #[trigger] rc.counts@[g] > 0,
{
    let g = (object@ - rc.start) / 16;
    assert(line * 16 <= g < line * 16 + 16);
    assert(dead ==> rc.counts@[g] == 0);
}

/// Recording an object of more than one line gives a count of one to each line that lies within it from start
/// to end, without the line it starts on. So none of them is dead, and each is known to be covered.
#[verifier::spinoff_prover]
pub proof fn law_lines_within_an_object_are_not_dead(
    rc: &mut RefCountHelper,
    object: ObjectReference,
    size: usize,
    now: &RefCountHelper,
    line: usize,
    dead: bool,
)
    requires
        rc.wf(),
        size > 256,
        rc.covers(object@),
        object@ + size <= rc.start + rc.counts@.len() * 16,
        call_ensures(RefCountHelper::mark_straddle_object_with_size, (rc, object, size), ()),
        object@ < rc.start + line * 256,
        rc.start + line * 256 + 256 <= object@ + size,
        *now == *final(rc),
        call_ensures(RefCountHelper::is_line_dead, (now, line), dead),
    ensures
        !dead,
        final(rc).counts@[line * 16] == 1,
        final(rc).straddle@[line as int] == 1,
        final(rc).inc_buffer_size == old(rc).inc_buffer_size,
{
    let s = rc.start as int;
    let first = (object@ - s) / 256;
    let last = (object@ + size - s) / 256;
    assert(first < line < last);
    assert((line * 16) % 16 == 0 && (line * 16) / 16 == line as int);
    assert(now.counts@[line * 16] == 1);
}

/// Recording an object changes no count but those of the first objects on lines that lie within it, and
/// no line but these becomes a covered one. The line on which the object starts and the one on which it
/// ends, if it ends within, are as before.
#[verifier::spinoff_prover]
pub proof fn law_recording_an_object_leaves_the_rest(
    rc: &mut RefCountHelper,
    object: ObjectReference,
    size: usize,
    g: int,
    line: int,
)
    requires
        rc.wf(),
        size > 256,
        rc.covers(object@),
        object@ + size <= rc.start + rc.counts@.len() * 16,
        call_ensures(RefCountHelper::mark_straddle_object_with_size, (rc, object, size), ()),
        0 <= g < rc.counts@.len(),
        0 <= line < rc.straddle@.len(),
    ensures
        final(rc).start == old(rc).start,
        g % 16 != 0 || old(rc).start + g * 16 <= object@ || object@ + size < old(rc).start + g * 16
            + 256 ==> final(rc).counts@[g] == old(rc).counts@[g],
        old(rc).start + line * 256 <= object@ || object@ + size < old(rc).start + line * 256 + 256
            ==> final(rc).straddle@[line] == old(rc).straddle@[line],
{
    let s = rc.start as int;
    let first = (object@ - s) / 256;
    let last = (object@ + size - s) / 256;
    if g % 16 == 0 && first < g / 16 < last {
        assert(g * 16 == g / 16 * 256);
        assert(object@ - s < g * 16 && g * 16 + 256 <= object@ + size - s);
    }
    if first < line < last {
        assert(object@ - s < line * 256 && line * 256 + 256 <= object@ + size - s);
    }
}

/// Whether `line` begins a line that the memory from `new` on, `size` bytes of it, covers from start to
/// end without starting on it.
pub open spec fn line_within(new: int, size: int, line: int) -> bool {
    line % 256 == 0 && new < line && line + 256 <= new + size
}

/// What moving an object makes of counts, marks and forwarding, address by address.
#[verifier::spinoff_prover]
pub proof fn lemma_moved<H>(
    before: LXRSpace<H>,
    object: ObjectReference,
    new: ObjectReference,
    size: nat,
    after: LXRSpace<H>,
    a: int,
)
    requires
        before.wf(),
        inside(before, object@),
        inside(before, new@),
        new@ + size <= before.immix.common.start + before.immix.block_states@.len() * 32768,
        object@ + 16 <= new@ || new@ + size <= object@,
        object@ % 16 == 0 && new@ % 16 == 0 && object@ != new@,
        moved(before, object, new, size, after),
        inside(before, a),
        a % 16 == 0,
    ensures
        count_at(after, new@) == count_at(before, object@),
        line_within(new@, size as int, a) ==> count_at(after, a) > 0 && covered_at(after, a),
        a != new@ && !line_within(new@, size as int, a) ==> count_at(after, a) == count_at(before, a),
        !line_within(new@, size as int, a - a % 256) ==> covered_at(after, a) == covered_at(before, a),
        marked_at(after, new@),
        !marked_at(after, object@),
        a != new@ && a != object@ ==> marked_at(after, a) == marked_at(before, a),
        moved_to(after, object@) == Some(new@),
        a != object@ ==> moved_to(after, a) == moved_to(before, a),
        after.immix.block_states == before.immix.block_states,
        after.immix.pr == before.immix.pr,
        after.immix.defrag_sources == before.immix.defrag_sources,
{
    let s = before.rc.start as int;
    let g = (a - s) / 16;
    let from = (object@ - s) / 16;
    let to = (new@ - s) / 16;
    assert(s % 256 == 0);
    assert((a - s) % 16 == 0 && (object@ - s) % 16 == 0 && (new@ - s) % 16 == 0);
    assert(a - s == g * 16 && object@ - s == from * 16 && new@ - s == to * 16);
    assert(from != to);
    let first = (new@ - s) / 256;
    let last = (new@ + size - s) / 256;
    assert((g % 16 == 0 && first < g / 16 < last) <==> line_within(new@, size as int, a)) by {
        assert(g % 16 == 0 <==> (a - s) % 256 == 0);
        assert((a - s) % 256 == 0 <==> a % 256 == 0);
        if g % 16 == 0 {
            assert(a - s == g / 16 * 256);
        }
    }
    assert(!(from % 16 == 0 && first < from / 16 < last)) by {
        if from % 16 == 0 && first < from / 16 < last {
            assert(object@ - s == from / 16 * 256);
        }
    }
    assert(line_within(new@, size as int, a) ==> size > 256);
    let line = (a - s) / 256;
    assert(a - a % 256 - s == line * 256);
    assert((first < line < last) <==> line_within(new@, size as int, a - a % 256));
    assert(line_within(new@, size as int, a - a % 256) ==> size > 256);
}

/// Moving an object: the copy is where the object model puts it, it has the count that the object had,
/// it is marked and the object is not, and from then on the object is known to be there. Nothing else is
/// moved or marked, and no other count changes but those of lines that the copy covers from start to
/// end, which get one each.
#[verifier::spinoff_prover]
pub proof fn law_copy_takes_the_place_of_the_object<H: ImmixHooks, Q: ObjectQueue, VM: ObjectModel>(
    space: &mut LXRSpace<H>,
    queue: &mut Q,
    object: ObjectReference,
    semantics: CopySemantics,
    pause: Pause,
    mark: bool,
    worker: &mut GCWorker<VM>,
    new: ObjectReference,
    a: int,
)
    requires
        space.wf(),
        inside(*space, object@),
        to_evacuate(*space, object@),
        moved_to(*space, object@) is None,
        space.can_forward(object, worker.object_model),
        object@ + 16 <= new@ || new@ + worker.object_model.size_of(object) <= object@,
        object@ % 16 == 0 && new@ % 16 == 0 && object@ != new@,
        call_ensures(
            LXRSpace::<H>::rc_trace_object::<Q, VM>,
            (space, queue, object, semantics, pause, mark, worker),
            new,
        ),
        inside(*space, a),
        a % 16 == 0,
    ensures
        old(worker).object_model.copy_target(object, CopySemantics::DefaultCopy) == Some(new),
        count_at(*final(space), new@) == count_at(*old(space), object@),
        count_at(*final(space), new@) > 0,
        marked_at(*final(space), new@),
        !marked_at(*final(space), object@),
        moved_to(*final(space), object@) == Some(new@),
        final(queue).queued() == old(queue).queued().push(new),
        a != object@ && a != new@ ==> marked_at(*final(space), a) == marked_at(*old(space), a),
        a != object@ ==> moved_to(*final(space), a) == moved_to(*old(space), a),
        a != new@ && !line_within(
            new@,
            old(worker).object_model.size_of(object) as int,
            a,
        ) ==> count_at(*final(space), a) == count_at(*old(space), a),
        line_within(new@, old(worker).object_model.size_of(object) as int, a) ==> count_at(
            *final(space),
            a,
        ) > 0 && covered_at(*final(space), a),
        !line_within(
            new@,
            old(worker).object_model.size_of(object) as int,
            a - a % 256,
        ) ==> covered_at(*final(space), a) == covered_at(*old(space), a),
        final(space).immix.block_states == old(space).immix.block_states,
        final(space).immix.pr == old(space).immix.pr,
        VM::copied(
            old(worker).object_model,
            object,
            CopySemantics::DefaultCopy,
            final(worker).object_model,
        ),
        final(worker).added_work == old(worker).added_work,
{
    lemma_same_block_index(object@, space.immix.common.start as int);
    lemma_moved(*space, object, new, worker.object_model.size_of(object), *final(space), a);
}

/// The index of a block by an address in it.
#[verifier::spinoff_prover]
pub proof fn lemma_same_block_index(a: int, start: int)
    requires
        0 <= start <= a,
        start % 32768 == 0,
    ensures
        (a - a % 32768 - start) / 32768 == (a - start) / 32768,
{
    let d = a - start;
    assert(a % 32768 == d % 32768);
}

/// An object that was moved is given back as its copy, wherever it is traced again, and nothing else
/// happens.
#[verifier::spinoff_prover]
pub proof fn law_moved_object_is_moved_once<H: ImmixHooks, Q: ObjectQueue, VM: ObjectModel>(
    space: &mut LXRSpace<H>,
    queue: &mut Q,
    object: ObjectReference,
    semantics: CopySemantics,
    pause: Pause,
    mark: bool,
    worker: &mut GCWorker<VM>,
    result: ObjectReference,
)
    requires
        space.wf(),
        inside(*space, object@),
        to_evacuate(*space, object@),
        moved_to(*space, object@) is Some,
        call_ensures(
            LXRSpace::<H>::rc_trace_object::<Q, VM>,
            (space, queue, object, semantics, pause, mark, worker),
            result,
        ),
    ensures
        moved_to(*old(space), object@) == Some(result@),
        *final(space) == *old(space),
        *final(worker) == *old(worker),
        final(queue).queued() == old(queue).queued(),
{
    lemma_same_block_index(object@, space.immix.common.start as int);
}

/// An object whose block is not to be evacuated stays where it is, with its count. Without `mark`
/// nothing happens; with it, the object is marked, it alone, and is queued the first time only.
#[verifier::spinoff_prover]
pub proof fn law_object_elsewhere_stays<H: ImmixHooks, Q: ObjectQueue, VM: ObjectModel>(
    space: &mut LXRSpace<H>,
    queue: &mut Q,
    object: ObjectReference,
    semantics: CopySemantics,
    pause: Pause,
    mark: bool,
    worker: &mut GCWorker<VM>,
    result: ObjectReference,
    a: int,
)
    requires
        space.wf(),
        inside(*space, object@),
        !to_evacuate(*space, object@),
        inside(*space, a),
        call_ensures(
            LXRSpace::<H>::rc_trace_object::<Q, VM>,
            (space, queue, object, semantics, pause, mark, worker),
            result,
        ),
    ensures
        result == object,
        *final(worker) == *old(worker),
        final(space).rc == old(space).rc,
        final(space).immix.forwarding == old(space).immix.forwarding,
        final(space).immix.pr == old(space).immix.pr,
        final(space).immix.block_states == old(space).immix.block_states,
        marked_at(*final(space), object@) == (mark || marked_at(*old(space), object@)),
        a >= object@ + 16 || object@ >= a + 16 ==> marked_at(*final(space), a) == marked_at(
            *old(space),
            a,
        ),
        mark && !marked_at(*old(space), object@) ==> final(queue).queued() == old(
            queue,
        ).queued().push(object),
        !mark || marked_at(*old(space), object@) ==> final(queue).queued() == old(queue).queued(),
{
    let s = space.immix.common.start as int;
    lemma_same_block_index(object@, s);
    if a >= object@ + 16 {
        assert((a - s) / 16 >= (object@ - s) / 16 + 1);
    } else if object@ >= a + 16 {
        assert((object@ - s) / 16 >= (a - s) / 16 + 1);
    }
}

/// In a trace that moves nothing, an object is marked and stays where it is. It is queued the first time
/// only, and not at all if it is the start of a line that an earlier object covers.
#[verifier::spinoff_prover]
pub proof fn law_whole_heap_trace_marks_in_place<H: ImmixHooks, Q: ObjectQueue>(
    space: &mut LXRSpace<H>,
    queue: &mut Q,
    object: ObjectReference,
    result: ObjectReference,
)
    requires
        space.wf(),
        inside(*space, object@),
        call_ensures(LXRSpace::<H>::trace_object::<Q>, (space, queue, object), result),
    ensures
        result == object,
        marked_at(*final(space), object@),
        final(space).rc == old(space).rc,
        final(space).immix.forwarding == old(space).immix.forwarding,
        marked_at(*old(space), object@) ==> final(queue).queued() == old(queue).queued(),
        !marked_at(*old(space), object@) && object@ % 256 >= 16 ==> final(queue).queued() == old(
            queue,
        ).queued().push(object),
        !marked_at(*old(space), object@) && object@ % 256 < 16 ==> final(queue).queued() == (
        if covered_at(*old(space), object@) {
            old(queue).queued()
        } else {
            old(queue).queued().push(object)
        }),
{
}

/// An object is marked exactly from a mark on until the mark is taken away, and the answer of each says
/// whether it changed anything.
#[verifier::spinoff_prover]
pub proof fn law_marks_come_and_go<H: ImmixHooks>(
    space: &mut LXRSpace<H>,
    object: ObjectReference,
    fresh: bool,
    second: &mut LXRSpace<H>,
    fresh_again: bool,
    third: &mut LXRSpace<H>,
    had: bool,
    marked_before: bool,
    marked_then: bool,
    marked_after: bool,
    a: int,
)
    requires
        space.wf(),
        inside(*space, object@),
        inside(*space, a),
        call_ensures(LXRSpace::<H>::is_marked, (&*space, object), marked_before),
        call_ensures(LXRSpace::<H>::attempt_mark, (space, object), fresh),
        *second == *final(space),
        call_ensures(LXRSpace::<H>::attempt_mark, (second, object), fresh_again),
        *third == *final(second),
        call_ensures(LXRSpace::<H>::is_marked, (&*third, object), marked_then),
        call_ensures(LXRSpace::<H>::unmark, (third, object), had),
        call_ensures(LXRSpace::<H>::is_marked, (&*final(third), object), marked_after),
    ensures
        marked_before == marked_at(*old(space), object@),
        fresh == !marked_before,
        !fresh_again,
        final(second).immix.mark@ == old(second).immix.mark@,
        marked_then,
        had,
        !marked_after,
        a >= object@ + 16 || object@ >= a + 16 ==> marked_at(*final(space), a) == marked_at(
            *old(space),
            a,
        ) && marked_at(*final(third), a) == marked_at(*old(third), a),
{
    let s = space.immix.common.start as int;
    if a >= object@ + 16 {
        assert((a - s) / 16 >= (object@ - s) / 16 + 1);
    } else if object@ >= a + 16 {
        assert((object@ - s) / 16 >= (a - s) / 16 + 1);
    }
    let i = (object@ - s) / 16;
    assert(final(space).immix.mark@[i] == final(space).immix.mark_state);
    assert(final(second).immix.mark@ =~= second.immix.mark@);
}

/// The memory of a copy is not given out again: once an object was moved, no search for lines gives back
/// a line that holds any byte of the copy, as long as the counts in its block are those that moving it
/// left.
#[verifier::spinoff_prover]
pub proof fn law_copy_is_not_allocated_over<H: ImmixHooks, Q: ObjectQueue, VM: ObjectModel>(
    space: &mut LXRSpace<H>,
    queue: &mut Q,
    object: ObjectReference,
    semantics: CopySemantics,
    pause: Pause,
    mark: bool,
    worker: &mut GCWorker<VM>,
    new: ObjectReference,
    later: &mut LXRSpace<H>,
    copy: bool,
    from: Line,
    start: Line,
    end: Line,
    a: int,
)
    requires
        space.wf(),
        inside(*space, object@),
        to_evacuate(*space, object@),
        moved_to(*space, object@) is None,
        space.can_forward(object, worker.object_model),
        object@ + 16 <= new@ || new@ + worker.object_model.size_of(object) <= object@,
        object@ % 16 == 0 && new@ % 16 == 0 && object@ != new@,
        0 < worker.object_model.size_of(object),
        new@ % 32768 + worker.object_model.size_of(object) <= 32768,
        call_ensures(
            LXRSpace::<H>::rc_trace_object::<Q, VM>,
            (space, queue, object, semantics, pause, mark, worker),
            new,
        ),
        later.wf(),
        later.immix.common.start == space.immix.common.start,
        later.immix.block_states@.len() == space.immix.block_states@.len(),
        forall|x: int|
            new@ - new@ % 32768 <= x < new@ - new@ % 32768 + 32768 ==> #[trigger] count_at(
                *later,
                x,
            ) == count_at(*final(space), x),
        from.wf(),
        inside(*later, from@),
        call_ensures(
            LXRSpace::<H>::rc_get_next_available_lines,
            (later, copy, from),
            Some((start, end)),
        ),
        new@ <= a < new@ + worker.object_model.size_of(object),
    ensures
        !(start@ <= a < end@),
{
    let size = worker.object_model.size_of(object) as int;
    lemma_same_block_index(object@, space.immix.common.start as int);
    lemma_moved(
        *space,
        object,
        new,
        worker.object_model.size_of(object),
        *final(space),
        object@,
    );
    assert(count_at(*later, new@) == count_at(*final(space), new@));
    assert forall|line: int|
        line % 256 == 0 && new@ < line && line + 256 <= new@ + size implies #[trigger] count_at(
        *later,
        line,
    ) > 0 by {
        assert(line % 16 == 0);
        lemma_moved(
            *space,
            object,
            new,
            worker.object_model.size_of(object),
            *final(space),
            line,
        );
        assert(count_at(*later, line) == count_at(*final(space), line));
    }
    law_recorded_object_is_not_given_out(later, new@, size, copy, from, start, end, a);
}

} // verus!
