//! What holds of the measurements and of the heap size over several collections.
use crate::plan::global::Plan;
use crate::util::heap::gc_trigger::{
    figures, FixedHeapSizeTrigger, GCTrigger, GCTriggerPolicy, HeapEstimateInput, MemBalancerStats,
    MemBalancerTrigger, TriggerPolicy,
};
use crate::util::options::{GCTriggerSelector, Options};
use vstd::prelude::*;

verus! {

/// From the end of one collection of old objects of a generational plan to the release of the next, the
/// heap limit computed in between, the pages measured as allocated are those by which old objects have
/// grown from that end to that release: none where they take as many pages as then.
#[verifier::spinoff_prover]
pub proof fn law_old_objects_grow_by_what_is_allocated<P: Plan>(
    ending: &mut MemBalancerTrigger,
    at_end: &P,
    end_time: u64,
    input: Option<HeapEstimateInput>,
    limiting: &mut MemBalancerTrigger,
    live: usize,
    extra: usize,
    estimate: usize,
    starting: &mut MemBalancerTrigger,
    at_start: &P,
    start_time: u64,
    releasing: &mut MemBalancerTrigger,
    at_release: &P,
)
    requires
        at_end.is_generational() && !at_end.nursery_gc(),
        at_start.is_generational(),
        at_release.is_generational() && !at_release.nursery_gc(),
        at_end.mature_reserved() <= at_release.mature_reserved(),
        call_ensures(MemBalancerTrigger::on_gc_end::<P>, (ending, at_end, end_time), input),
        *limiting == *final(ending),
        call_ensures(
            MemBalancerTrigger::compute_new_heap_limit,
            (limiting, live, extra, estimate),
            (),
        ),
        *starting == *final(limiting),
        call_ensures(MemBalancerTrigger::on_gc_start::<P>, (starting, at_start, start_time), ()),
        *releasing == *final(starting),
        call_ensures(MemBalancerTrigger::on_gc_release::<P>, (releasing, at_release), ()),
    ensures
        final(releasing).statistics().current.allocation_pages == at_release.mature_reserved()
            - at_end.mature_reserved(),
        at_release.mature_reserved() == at_end.mature_reserved() ==> final(releasing).statistics().current.allocation_pages == 0,
{
}

/// From the end of one collection of a plan that is not generational to the start of the next, the heap
/// limit computed in between, the pages measured as allocated are those by which the heap has grown. The
/// release does not change that.
#[verifier::spinoff_prover]
pub proof fn law_heap_grows_by_what_is_allocated<P: Plan>(
    ending: &mut MemBalancerTrigger,
    at_end: &P,
    end_time: u64,
    input: Option<HeapEstimateInput>,
    limiting: &mut MemBalancerTrigger,
    live: usize,
    extra: usize,
    estimate: usize,
    starting: &mut MemBalancerTrigger,
    at_start: &P,
    start_time: u64,
    releasing: &mut MemBalancerTrigger,
    at_release: &P,
)
    requires
        !at_end.is_generational(),
        !at_start.is_generational(),
        !at_release.is_generational(),
        at_end.reserved() <= at_start.reserved(),
        call_ensures(MemBalancerTrigger::on_gc_end::<P>, (ending, at_end, end_time), input),
        *limiting == *final(ending),
        call_ensures(
            MemBalancerTrigger::compute_new_heap_limit,
            (limiting, live, extra, estimate),
            (),
        ),
        *starting == *final(limiting),
        call_ensures(MemBalancerTrigger::on_gc_start::<P>, (starting, at_start, start_time), ()),
        *releasing == *final(starting),
        call_ensures(MemBalancerTrigger::on_gc_release::<P>, (releasing, at_release), ()),
    ensures
        final(starting).statistics().current.allocation_pages == at_start.reserved()
            - at_end.reserved(),
        final(releasing).statistics().current.allocation_pages == at_start.reserved()
            - at_end.reserved(),
{
}

/// From the release to the end of a collection, the pages measured as collected are those by which what is
/// in use went down: the pages of old objects for a generational plan, unless only new objects are
/// collected, and all pages for another. The estimate at the end is made from what is in use then, and
/// from what has been measured.
#[verifier::spinoff_prover]
pub proof fn law_heap_shrinks_by_what_is_collected<P: Plan>(
    releasing: &mut MemBalancerTrigger,
    at_release: &P,
    ending: &mut MemBalancerTrigger,
    at_end: &P,
    now: u64,
    input: Option<HeapEstimateInput>,
)
    requires
        at_release.is_generational() == at_end.is_generational(),
        at_end.is_generational() ==> !at_release.nursery_gc() && !at_end.nursery_gc()
            && at_end.mature_reserved() <= at_release.mature_reserved(),
        !at_end.is_generational() ==> at_end.reserved() <= at_release.reserved(),
        call_ensures(MemBalancerTrigger::on_gc_release::<P>, (releasing, at_release), ()),
        *ending == *final(releasing),
        call_ensures(MemBalancerTrigger::on_gc_end::<P>, (ending, at_end, now), input),
    ensures
        at_end.is_generational() ==> final(ending).statistics().current.collection_pages
            == at_release.mature_reserved() - at_end.mature_reserved(),
        !at_end.is_generational() ==> final(ending).statistics().current.collection_pages
            == at_release.reserved() - at_end.reserved(),
        input is Some,
        at_end.is_generational() ==> input->0.live == at_end.mature_reserved(),
        !at_end.is_generational() ==> input->0.live == at_end.reserved(),
        input->0.extra_reserve == at_end.collection_reserved(),
        input->0.stats == final(ending).statistics(),
        final(ending).statistics().current.allocation_pages == final(releasing).statistics().current.allocation_pages,
{
}

/// A collection of new objects only, from its start to its end, leaves no trace in the pages measured by a
/// generational plan and asks for no estimate; it only takes time.
#[verifier::spinoff_prover]
pub proof fn law_nursery_collections_are_not_measured<P: Plan>(
    starting: &mut MemBalancerTrigger,
    at_start: &P,
    start_time: u64,
    releasing: &mut MemBalancerTrigger,
    at_release: &P,
    ending: &mut MemBalancerTrigger,
    at_end: &P,
    end_time: u64,
    input: Option<HeapEstimateInput>,
)
    requires
        at_start.is_generational(),
        at_release.is_generational() && at_release.nursery_gc(),
        at_end.is_generational() && at_end.nursery_gc(),
        starting.can_start(figures(*at_start), start_time),
        call_ensures(MemBalancerTrigger::on_gc_start::<P>, (starting, at_start, start_time), ()),
        *releasing == *final(starting),
        call_ensures(MemBalancerTrigger::on_gc_release::<P>, (releasing, at_release), ()),
        *ending == *final(releasing),
        call_ensures(MemBalancerTrigger::on_gc_end::<P>, (ending, at_end, end_time), input),
    ensures
        ({
            let before = old(starting).statistics();
            let after = final(ending).statistics();
            &&& after.current.allocation_pages == before.current.allocation_pages
            &&& after.current.collection_pages == before.current.collection_pages
            &&& after.gc_release_live_pages == before.gc_release_live_pages
            &&& after.gc_end_live_pages == before.gc_end_live_pages
            &&& after.prev == before.prev
        }),
        input is None,
        final(ending).heap_pages() == old(starting).heap_pages(),
{
}

/// From the start of a collection to its end, the time that collections took grows by the time between
/// the two, and the time between collections does not.
#[verifier::spinoff_prover]
pub proof fn law_collections_are_timed<P: Plan>(
    starting: &mut MemBalancerTrigger,
    at_start: &P,
    start_time: u64,
    releasing: &mut MemBalancerTrigger,
    at_release: &P,
    ending: &mut MemBalancerTrigger,
    at_end: &P,
    end_time: u64,
    input: Option<HeapEstimateInput>,
)
    requires
        call_ensures(MemBalancerTrigger::on_gc_start::<P>, (starting, at_start, start_time), ()),
        *releasing == *final(starting),
        call_ensures(MemBalancerTrigger::on_gc_release::<P>, (releasing, at_release), ()),
        *ending == *final(releasing),
        ending.statistics().current.collection_time + end_time <= u64::MAX,
        call_ensures(MemBalancerTrigger::on_gc_end::<P>, (ending, at_end, end_time), input),
    ensures
        start_time <= end_time ==> final(ending).statistics().current.collection_time == old(starting).statistics().current.collection_time + (end_time - start_time),
        end_time < start_time ==> final(ending).statistics().current.collection_time == old(starting).statistics().current.collection_time,
        final(ending).statistics().current.allocation_time == final(starting).statistics().current.allocation_time,
{
}

/// From the end of a collection to the start of the next, the time that allocation took grows by the time
/// between the two, and the time in collections does not.
#[verifier::spinoff_prover]
pub proof fn law_time_between_collections_is_allocation<P: Plan>(
    ending: &mut MemBalancerTrigger,
    at_end: &P,
    end_time: u64,
    input: Option<HeapEstimateInput>,
    starting: &mut MemBalancerTrigger,
    at_start: &P,
    start_time: u64,
)
    requires
        call_ensures(MemBalancerTrigger::on_gc_end::<P>, (ending, at_end, end_time), input),
        *starting == *final(ending),
        starting.statistics().current.allocation_time + start_time <= u64::MAX,
        call_ensures(MemBalancerTrigger::on_gc_start::<P>, (starting, at_start, start_time), ()),
    ensures
        end_time <= start_time ==> final(starting).statistics().current.allocation_time == old(ending).statistics().current.allocation_time + (start_time - end_time),
        start_time < end_time ==> final(starting).statistics().current.allocation_time == old(ending).statistics().current.allocation_time,
        final(starting).statistics().current.collection_time == final(ending).statistics().current.collection_time,
{
}

/// The first collection measures from when the trigger was made: the time until it starts, and all pages
/// in use. The heap starts with its minimum.
#[verifier::spinoff_prover]
pub proof fn law_first_collection_measures_from_nothing<P: Plan>(
    min: usize,
    max: usize,
    made: u64,
    trigger: MemBalancerTrigger,
    starting: &mut MemBalancerTrigger,
    at_start: &P,
    now: u64,
    releasing: &mut MemBalancerTrigger,
    at_release: &P,
    size: usize,
    least: usize,
    most: usize,
)
    requires
        call_ensures(MemBalancerTrigger::new, (min, max, made), trigger),
        call_ensures(MemBalancerTrigger::get_heap_size_in_pages, (&trigger,), size),
        call_ensures(MemBalancerTrigger::min_heap_size_in_pages, (&trigger,), least),
        call_ensures(MemBalancerTrigger::max_heap_size_in_pages, (&trigger,), most),
        *starting == trigger,
        made <= now,
        call_ensures(MemBalancerTrigger::on_gc_start::<P>, (starting, at_start, now), ()),
        *releasing == *final(starting),
        call_ensures(MemBalancerTrigger::on_gc_release::<P>, (releasing, at_release), ()),
    ensures
        size == min && least == min && most == max,
        final(starting).statistics().current.allocation_time == now - made,
        final(starting).statistics().current.collection_time == 0,
        !at_start.is_generational() ==> final(starting).statistics().current.allocation_pages
            == at_start.reserved(),
        at_release.is_generational() && !at_release.nursery_gc() ==> final(releasing).statistics().current.allocation_pages == at_release.mature_reserved(),
        final(releasing).statistics().prev is None,
{
}

/// The heap limit: what is live, what the estimate adds and what the next collection needs, all of it, if
/// that is within the limits, else the limit that is nearer. No larger estimate gives a smaller heap. What
/// was measured is remembered, and measuring starts anew; what is live and when the last collection took
/// place is not forgotten.
#[verifier::spinoff_prover]
pub proof fn law_heap_limit_is_within_bounds(
    t: &mut MemBalancerTrigger,
    live: usize,
    extra: usize,
    estimate: usize,
    more: &mut MemBalancerTrigger,
    larger: usize,
    size: usize,
    grow: bool,
)
    requires
        t.min_pages() <= t.max_pages(),
        *more == *t,
        estimate <= larger,
        live + estimate + extra <= usize::MAX,
        live + larger + extra <= usize::MAX,
        call_ensures(MemBalancerTrigger::compute_new_heap_limit, (t, live, extra, estimate), ()),
        call_ensures(MemBalancerTrigger::compute_new_heap_limit, (more, live, extra, larger), ()),
        call_ensures(MemBalancerTrigger::get_heap_size_in_pages, (&*final(t),), size),
        call_ensures(MemBalancerTrigger::can_heap_size_grow, (&*final(t),), grow),
    ensures
        old(t).min_pages() <= size <= old(t).max_pages(),
        old(t).min_pages() <= live + estimate + extra <= old(t).max_pages() ==> size == live
            + estimate + extra,
        live + estimate + extra < old(t).min_pages() ==> size == old(t).min_pages(),
        live + estimate + extra > old(t).max_pages() ==> size == old(t).max_pages(),
        size <= final(more).heap_pages(),
        grow == (size < old(t).max_pages()),
        final(t).min_pages() == old(t).min_pages(),
        final(t).max_pages() == old(t).max_pages(),
        ({
            let before = old(t).statistics();
            let after = final(t).statistics();
            &&& after.prev == Some(before.current)
            &&& after.current.allocation_pages == 0
            &&& after.current.allocation_time == 0
            &&& after.current.collection_pages == 0
            &&& after.current.collection_time == 0
            &&& after.gc_end_live_pages == before.gc_end_live_pages
            &&& after.gc_release_live_pages == before.gc_release_live_pages
            &&& after.gc_end_time == before.gc_end_time
            &&& after.gc_start_time == before.gc_start_time
        }),
{
}

/// Being informed of a collection changes no size; only the heap limit does.
#[verifier::spinoff_prover]
pub proof fn law_collections_do_not_change_the_heap_size<P: Plan>(
    starting: &mut MemBalancerTrigger,
    releasing: &mut MemBalancerTrigger,
    ending: &mut MemBalancerTrigger,
    plan: &P,
    now: u64,
    input: Option<HeapEstimateInput>,
)
    requires
        call_ensures(MemBalancerTrigger::on_gc_start::<P>, (starting, plan, now), ()),
        call_ensures(MemBalancerTrigger::on_gc_release::<P>, (releasing, plan), ()),
        call_ensures(MemBalancerTrigger::on_gc_end::<P>, (ending, plan, now), input),
    ensures
        final(starting).heap_pages() == old(starting).heap_pages(),
        final(starting).min_pages() == old(starting).min_pages(),
        final(starting).max_pages() == old(starting).max_pages(),
        final(releasing).heap_pages() == old(releasing).heap_pages(),
        final(releasing).min_pages() == old(releasing).min_pages(),
        final(releasing).max_pages() == old(releasing).max_pages(),
        final(ending).heap_pages() == old(ending).heap_pages(),
        final(ending).min_pages() == old(ending).min_pages(),
        final(ending).max_pages() == old(ending).max_pages(),
{
}

/// The policy that was chosen hears of each collection: one whose size changes notes when it started and
/// ended and what was in use, and one of fixed size stays as it is and asks for no estimate.
#[verifier::spinoff_prover]
pub proof fn law_policy_hears_of_each_collection<P: Plan>(
    starting: &mut TriggerPolicy,
    at_start: &P,
    start_time: u64,
    releasing: &mut TriggerPolicy,
    at_release: &P,
    ending: &mut TriggerPolicy,
    at_end: &P,
    end_time: u64,
    input: Option<HeapEstimateInput>,
)
    requires
        at_start.is_generational() == at_release.is_generational(),
        at_release.is_generational() == at_end.is_generational(),
        !at_release.nursery_gc() && !at_end.nursery_gc(),
        call_ensures(TriggerPolicy::on_gc_start::<P>, (starting, at_start, start_time), ()),
        *releasing == *final(starting),
        call_ensures(TriggerPolicy::on_gc_release::<P>, (releasing, at_release), ()),
        *ending == *final(releasing),
        call_ensures(TriggerPolicy::on_gc_end::<P>, (ending, at_end, end_time), input),
    ensures
        *old(starting) matches TriggerPolicy::Fixed(p) ==> *final(ending) == *old(starting)
            && input is None,
        *old(starting) matches TriggerPolicy::MemBalancer(p) ==> {
            &&& *final(ending) matches TriggerPolicy::MemBalancer(q)
            &&& q.heap_pages() == p.heap_pages()
            &&& q.statistics().gc_start_time == start_time
            &&& q.statistics().gc_end_time == end_time
            &&& at_end.is_generational() ==> q.statistics().gc_release_live_pages
                == at_release.mature_reserved() && q.statistics().gc_end_live_pages
                == at_end.mature_reserved()
            &&& !at_end.is_generational() ==> q.statistics().gc_release_live_pages
                == at_release.reserved() && q.statistics().gc_end_live_pages == at_end.reserved()
            &&& input is Some
        },
{
}

/// The policy that was chosen does what it does alone: told of the same collection, one whose size changes has
/// measured the same, keeps the same sizes and asks for the same estimate.
#[verifier::spinoff_prover]
pub proof fn law_chosen_policy_does_what_it_does_alone<P: Plan>(
    starting: &mut TriggerPolicy,
    start_alone: &mut MemBalancerTrigger,
    releasing: &mut TriggerPolicy,
    release_alone: &mut MemBalancerTrigger,
    ending: &mut TriggerPolicy,
    end_alone: &mut MemBalancerTrigger,
    plan: &P,
    now: u64,
    input: Option<HeapEstimateInput>,
    input_alone: Option<HeapEstimateInput>,
)
    requires
        *starting == TriggerPolicy::MemBalancer(*start_alone),
        call_ensures(TriggerPolicy::on_gc_start::<P>, (starting, plan, now), ()),
        call_ensures(MemBalancerTrigger::on_gc_start::<P>, (start_alone, plan, now), ()),
        *releasing == TriggerPolicy::MemBalancer(*release_alone),
        call_ensures(TriggerPolicy::on_gc_release::<P>, (releasing, plan), ()),
        call_ensures(MemBalancerTrigger::on_gc_release::<P>, (release_alone, plan), ()),
        *ending == TriggerPolicy::MemBalancer(*end_alone),
        call_ensures(TriggerPolicy::on_gc_end::<P>, (ending, plan, now), input),
        call_ensures(MemBalancerTrigger::on_gc_end::<P>, (end_alone, plan, now), input_alone),
    ensures
        *final(starting) matches TriggerPolicy::MemBalancer(p) && p.statistics() == final(start_alone).statistics() && p.heap_pages() == final(start_alone).heap_pages(),
        *final(releasing) matches TriggerPolicy::MemBalancer(p) && p.statistics() == final(release_alone).statistics() && p.heap_pages() == final(release_alone).heap_pages(),
        *final(ending) matches TriggerPolicy::MemBalancer(p) && p.statistics() == final(end_alone).statistics() && p.heap_pages() == final(end_alone).heap_pages(),
        input == input_alone,
{
}

/// The heap is full exactly if more pages are reserved than it has, and a collection is required exactly
/// if the plan wants one, whatever the policy. A heap of fixed size cannot grow.
#[verifier::spinoff_prover]
pub proof fn law_plan_decides_when_to_collect<P: Plan>(
    fixed: &FixedHeapSizeTrigger,
    varying: &MemBalancerTrigger,
    plan: &P,
    space_full: bool,
    space: Option<&'static str>,
    required: bool,
    also_required: bool,
    full: bool,
    also_full: bool,
    size: usize,
    varying_size: usize,
    grow: bool,
)
    requires
        call_ensures(
            FixedHeapSizeTrigger::is_gc_required::<P>,
            (fixed, space_full, space, plan),
            required,
        ),
        call_ensures(
            MemBalancerTrigger::is_gc_required::<P>,
            (varying, space_full, space, plan),
            also_required,
        ),
        call_ensures(FixedHeapSizeTrigger::is_heap_full::<P>, (fixed, plan), full),
        call_ensures(MemBalancerTrigger::is_heap_full::<P>, (varying, plan), also_full),
        call_ensures(FixedHeapSizeTrigger::get_heap_size_in_pages, (fixed,), size),
        call_ensures(MemBalancerTrigger::get_heap_size_in_pages, (varying,), varying_size),
        call_ensures(FixedHeapSizeTrigger::can_heap_size_grow, (fixed,), grow),
    ensures
        required == plan.wants_collection(space_full, space),
        also_required == plan.wants_collection(space_full, space),
        full == (plan.reserved() > size),
        also_full == (plan.reserved() > varying_size),
        size == fixed.total_pages,
        !grow,
{
}

/// A trigger, once made and given a plan: it has as many whole pages as the bytes asked for hold, the fewest
/// where there is a choice. Polling it requests a collection exactly if the plan wants one, and tells so;
/// otherwise nothing changes.
#[verifier::spinoff_prover]
pub proof fn law_polling_requests_what_the_plan_wants<P: Plan>(
    options: &Options,
    now: u64,
    made: GCTrigger<P>,
    setting: &mut GCTrigger<P>,
    plan: P,
    polled: &mut GCTrigger<P>,
    space_full: bool,
    space: Option<&'static str>,
    required: bool,
    full: bool,
)
    requires
        options.gc_trigger != GCTriggerSelector::Delegated,
        call_ensures(GCTrigger::<P>::new, (options, now), made),
        *setting == made,
        call_ensures(GCTrigger::<P>::set_plan, (setting, plan), ()),
        *polled == *final(setting),
        call_ensures(GCTrigger::<P>::is_heap_full, (&*final(setting),), full),
        call_ensures(GCTrigger::<P>::poll, (polled, space_full, space), required),
    ensures
        required == plan.wants_collection(space_full, space),
        required ==> final(polled).plan is Some && final(polled).plan->0.gc_requested()
            && final(polled).plan->0.reserved() == plan.reserved(),
        !required ==> final(polled).plan == Some(plan),
        final(polled).policy == made.policy,
        options.gc_trigger matches GCTriggerSelector::FixedHeapSize(bytes) ==> {
            &&& made.policy is Fixed
            &&& full == (plan.reserved() > bytes / 4096)
        },
        options.gc_trigger matches GCTriggerSelector::DynamicHeapSize(least, most) ==> {
            &&& made.policy matches TriggerPolicy::MemBalancer(p)
            &&& p.min_pages() == least / 4096
            &&& p.max_pages() == most / 4096
            &&& full == (plan.reserved() > least / 4096)
        },
{
}

/// At first nothing has been measured, and both times are the present one. The statistics told are those kept.
pub proof fn law_nothing_is_measured_at_first(
    now: u64,
    stats: MemBalancerStats,
    trigger: MemBalancerTrigger,
    told: MemBalancerStats,
)
    requires
        call_ensures(MemBalancerStats::new, (now,), stats),
        call_ensures(MemBalancerTrigger::stats, (&trigger,), told),
    ensures
        stats.prev is None,
        stats.current.allocation_pages == 0,
        stats.current.allocation_time == 0,
        stats.current.collection_pages == 0,
        stats.current.collection_time == 0,
        stats.gc_start_time == now,
        stats.gc_end_time == now,
        stats.gc_release_live_pages == 0,
        stats.gc_end_live_pages == 0,
        told == trigger.statistics(),
{
}

} // verus!
