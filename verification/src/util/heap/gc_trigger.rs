//! When to collect, and how large the heap may be.
use crate::plan::global::{gc_request_made, Plan};
use crate::util::constants::LOG_BYTES_IN_PAGE;
use crate::util::options::{GCTriggerSelector, Options};
use vstd::prelude::*;

verus! {

/// What a policy asks a plan when it is informed of a collection.
pub ghost struct PlanFigures {
    pub generational: bool,
    pub nursery_gc: bool,
    pub reserved: usize,
    pub mature_reserved: usize,
    pub collection_reserved: usize,
}

/// What `plan` answers.
pub open spec fn figures<P: Plan>(plan: P) -> PlanFigures {
    PlanFigures {
        generational: plan.is_generational(),
        nursery_gc: plan.nursery_gc(),
        reserved: plan.reserved(),
        mature_reserved: plan.mature_reserved(),
        collection_reserved: plan.collection_reserved(),
    }
}

/// Decides when to collect, and how large the heap may be. It is informed of each collection, by which
/// it can measure allocation and collection.
pub trait GCTriggerPolicy: Sized {
    /// The size of the heap in pages.
    spec fn heap_pages(&self) -> usize;

    /// Whether the heap can get larger.
    spec fn can_grow(&self) -> bool;

    /// Whether a collection can start at the time `now`.
    spec fn can_start(&self, plan: PlanFigures, now: u64) -> bool;

    /// Whether a collection can be about to release memory.
    spec fn can_release(&self, plan: PlanFigures) -> bool;

    /// Whether a collection can end at the time `now`.
    spec fn can_end(&self, plan: PlanFigures, now: u64) -> bool;

    /// What the start of a collection at the time `now` makes of the policy.
    spec fn start_noted(&self, plan: PlanFigures, now: u64, after: Self) -> bool;

    /// What it makes of the policy that a collection is about to release memory.
    spec fn release_noted(&self, plan: PlanFigures, after: Self) -> bool;

    /// What the end of a collection at the time `now` makes of the policy, and what the heap size is
    /// to be estimated from then.
    spec fn end_noted(
        &self,
        plan: PlanFigures,
        now: u64,
        after: Self,
        input: Option<HeapEstimateInput>,
    ) -> bool;

    /// Notes that a collection starts at the time `now`.
    fn on_gc_start<P: Plan>(&mut self, plan: &P, now: u64)
        requires
            old(self).can_start(figures(*plan), now),
        ensures
            old(self).start_noted(figures(*plan), now, *final(self)),
    ;

    /// Notes that a collection is about to release memory.
    fn on_gc_release<P: Plan>(&mut self, plan: &P)
        requires
            old(self).can_release(figures(*plan)),
        ensures
            old(self).release_noted(figures(*plan), *final(self)),
    ;

    /// Notes that a collection ends at the time `now`. Where the heap size is to be chosen anew,
    /// returns what the estimate is made from.
    fn on_gc_end<P: Plan>(&mut self, plan: &P, now: u64) -> (input: Option<HeapEstimateInput>)
        requires
            old(self).can_end(figures(*plan), now),
        ensures
            old(self).end_noted(figures(*plan), now, *final(self), input),
    ;

    /// Whether a collection is required now.
    fn is_gc_required<P: Plan>(
        &self,
        space_full: bool,
        space: Option<&'static str>,
        plan: &P,
    ) -> (b: bool)
        ensures
            b == plan.wants_collection(space_full, space),
    ;

    /// Whether more pages are reserved than the heap has.
    fn is_heap_full<P: Plan>(&self, plan: &P) -> (b: bool)
        ensures
            b == (plan.reserved() > self.heap_pages()),
    ;

    fn get_heap_size_in_pages(&self) -> (n: usize)
        ensures
            n == self.heap_pages(),
    ;

    fn can_heap_size_grow(&self) -> (b: bool)
        ensures
            b == self.can_grow(),
    ;
}

/// A heap of fixed size.
pub struct FixedHeapSizeTrigger {
    pub total_pages: usize,
}

impl GCTriggerPolicy for FixedHeapSizeTrigger {
    open spec fn heap_pages(&self) -> usize {
        self.total_pages
    }

    open spec fn can_grow(&self) -> bool {
        false
    }

    open spec fn can_start(&self, plan: PlanFigures, now: u64) -> bool {
        true
    }

    open spec fn can_release(&self, plan: PlanFigures) -> bool {
        true
    }

    open spec fn can_end(&self, plan: PlanFigures, now: u64) -> bool {
        true
    }

    open spec fn start_noted(&self, plan: PlanFigures, now: u64, after: Self) -> bool {
        after == *self
    }

    open spec fn release_noted(&self, plan: PlanFigures, after: Self) -> bool {
        after == *self
    }

    open spec fn end_noted(
        &self,
        plan: PlanFigures,
        now: u64,
        after: Self,
        input: Option<HeapEstimateInput>,
    ) -> bool {
        after == *self && input is None
    }

    fn on_gc_start<P: Plan>(&mut self, _plan: &P, _now: u64) {
    }

    fn on_gc_release<P: Plan>(&mut self, _plan: &P) {
    }

    fn on_gc_end<P: Plan>(&mut self, _plan: &P, _now: u64) -> (input: Option<HeapEstimateInput>) {
        None
    }

    fn is_gc_required<P: Plan>(
        &self,
        space_full: bool,
        space: Option<&'static str>,
        plan: &P,
    ) -> (b: bool) {
        // Let the plan decide.
        plan.collection_required(space_full, space)
    }

    fn is_heap_full<P: Plan>(&self, plan: &P) -> (b: bool) {
        plan.get_reserved_pages() > self.total_pages
    }

    fn get_heap_size_in_pages(&self) -> (n: usize) {
        self.total_pages
    }

    fn can_heap_size_grow(&self) -> (b: bool) {
        false
    }
}

/// What has been measured of allocation and collection. Times are in nanoseconds.
#[derive(Copy, Clone, Debug)]
pub struct MemBalancerStats {
    /// The measurements of the last estimate, by which this one is smoothed; none the first time.
    pub prev: Option<Measurements>,
    /// The measurements since.
    pub current: Measurements,
    /// When the current collection started.
    pub gc_start_time: u64,
    /// When the last collection ended.
    pub gc_end_time: u64,
    /// The live pages before the current collection released memory.
    pub gc_release_live_pages: usize,
    /// The live pages at the end of the last collection.
    pub gc_end_live_pages: usize,
}

/// Memory in pages and time, of allocation and of collection.
#[derive(Copy, Clone, Debug)]
pub struct Measurements {
    pub allocation_pages: usize,
    pub allocation_time: u64,
    pub collection_pages: usize,
    pub collection_time: u64,
}

/// Nothing measured.
pub open spec fn nothing_measured() -> Measurements {
    Measurements {
        allocation_pages: 0,
        allocation_time: 0,
        collection_pages: 0,
        collection_time: 0,
    }
}

/// The time from `earlier` to `later`; none if they are the other way round.
pub open spec fn elapsed(earlier: u64, later: u64) -> u64 {
    if later >= earlier {
        (later - earlier) as u64
    } else {
        0
    }
}

fn time_between(earlier: u64, later: u64) -> (t: u64)
    ensures
        t == elapsed(earlier, later),
{
    if later >= earlier {
        later - earlier
    } else {
        0
    }
}

impl MemBalancerStats {
    /// Nothing measured yet, at the time `now`.
    pub open spec fn unmeasured(now: u64) -> MemBalancerStats {
        MemBalancerStats {
            prev: None,
            current: nothing_measured(),
            gc_start_time: now,
            gc_end_time: now,
            gc_release_live_pages: 0,
            gc_end_live_pages: 0,
        }
    }

    /// Nothing measured yet, at the time `now`.
    pub fn new(now: u64) -> (s: Self)
        ensures
            s == MemBalancerStats::unmeasured(now),
    {
        MemBalancerStats {
            prev: None,
            current: Measurements {
                allocation_pages: 0,
                allocation_time: 0,
                collection_pages: 0,
                collection_time: 0,
            },
            gc_start_time: now,
            gc_end_time: now,
            gc_release_live_pages: 0,
            gc_end_live_pages: 0,
        }
    }

    // For generational plans, collections of new objects are ignored. What is allocated is what
    // old objects have grown by since the last collection of old objects ended.

    fn generational_mem_stats_on_gc_start(&mut self)
        ensures
            *final(self) == *old(self),
    {
    }

    fn generational_mem_stats_on_gc_release<P: Plan>(&mut self, plan: &P)
        requires
            !plan.nursery_gc() ==> old(self).gc_end_live_pages <= plan.mature_reserved(),
        ensures
            *final(self) == old(self).released(
                true,
                plan.nursery_gc(),
                plan.mature_reserved(),
                plan.reserved(),
            ),
    {
        if !plan.is_current_gc_nursery() {
            self.gc_release_live_pages = plan.get_mature_reserved_pages();
            let promoted: usize = self.gc_release_live_pages - self.gc_end_live_pages;
            self.current.allocation_pages = promoted;
        }
    }

    /// Says whether a new heap limit is to be computed: only at the end of a collection of old
    /// objects.
    fn generational_mem_stats_on_gc_end<P: Plan>(&mut self, plan: &P) -> (compute: bool)
        requires
            !plan.nursery_gc() ==> plan.mature_reserved() <= old(self).gc_release_live_pages,
        ensures
            compute == !plan.nursery_gc(),
            *final(self) == old(self).live_at_end(
                true,
                plan.nursery_gc(),
                plan.mature_reserved(),
                plan.reserved(),
            ),
    {
        if !plan.is_current_gc_nursery() {
            self.gc_end_live_pages = plan.get_mature_reserved_pages();
            self.current.collection_pages = self.gc_release_live_pages - self.gc_end_live_pages;
            true
        } else {
            false
        }
    }

    // For other plans, what is allocated is what the heap has grown by between two collections.

    fn non_generational_mem_stats_on_gc_start<P: Plan>(&mut self, plan: &P)
        requires
            old(self).gc_end_live_pages <= plan.reserved(),
        ensures
            *final(self) == (MemBalancerStats {
                current: Measurements {
                    allocation_pages: (plan.reserved() - old(self).gc_end_live_pages) as usize,
                    ..old(self).current
                },
                ..*old(self)
            }),
    {
        self.current.allocation_pages = plan.get_reserved_pages() - self.gc_end_live_pages;
    }

    fn non_generational_mem_stats_on_gc_release<P: Plan>(&mut self, plan: &P)
        ensures
            *final(self) == old(self).released(
                false,
                plan.nursery_gc(),
                plan.mature_reserved(),
                plan.reserved(),
            ),
    {
        self.gc_release_live_pages = plan.get_reserved_pages();
    }

    fn non_generational_mem_stats_on_gc_end<P: Plan>(&mut self, plan: &P)
        requires
            plan.reserved() <= old(self).gc_release_live_pages,
        ensures
            *final(self) == old(self).live_at_end(
                false,
                plan.nursery_gc(),
                plan.mature_reserved(),
                plan.reserved(),
            ),
    {
        self.gc_end_live_pages = plan.get_reserved_pages();
        self.current.collection_pages = self.gc_release_live_pages - self.gc_end_live_pages;
    }

    /// The statistics after the start of a collection at the time `now` was noted.
    pub open spec fn started(
        self,
        now: u64,
        generational: bool,
        reserved: usize,
    ) -> MemBalancerStats {
        MemBalancerStats {
            gc_start_time: now,
            current: Measurements {
                allocation_time: (self.current.allocation_time + elapsed(
                    self.gc_end_time,
                    now,
                )) as u64,
                allocation_pages: if generational {
                    self.current.allocation_pages
                } else {
                    (reserved - self.gc_end_live_pages) as usize
                },
                ..self.current
            },
            ..self
        }
    }

    /// The statistics after it was noted what is in use before a collection releases memory.
    pub open spec fn released(
        self,
        generational: bool,
        nursery: bool,
        mature_reserved: usize,
        reserved: usize,
    ) -> MemBalancerStats {
        if !generational {
            MemBalancerStats { gc_release_live_pages: reserved, ..self }
        } else if nursery {
            self
        } else {
            MemBalancerStats {
                gc_release_live_pages: mature_reserved,
                current: Measurements {
                    allocation_pages: (mature_reserved - self.gc_end_live_pages) as usize,
                    ..self.current
                },
                ..self
            }
        }
    }

    /// The statistics after it was noted what is in use at the end of a collection.
    pub open spec fn live_at_end(
        self,
        generational: bool,
        nursery: bool,
        mature_reserved: usize,
        reserved: usize,
    ) -> MemBalancerStats {
        if generational && nursery {
            self
        } else {
            let live = if generational {
                mature_reserved
            } else {
                reserved
            };
            MemBalancerStats {
                gc_end_live_pages: live,
                current: Measurements {
                    collection_pages: (self.gc_release_live_pages - live) as usize,
                    ..self.current
                },
                ..self
            }
        }
    }

    /// The statistics after the end of a collection at the time `now` was noted.
    pub open spec fn ended(
        self,
        now: u64,
        generational: bool,
        nursery: bool,
        mature_reserved: usize,
        reserved: usize,
    ) -> MemBalancerStats {
        MemBalancerStats {
            gc_end_time: now,
            current: Measurements {
                collection_time: (self.current.collection_time + elapsed(
                    self.gc_start_time,
                    now,
                )) as u64,
                ..self.current
            },
            ..self
        }.live_at_end(generational, nursery, mature_reserved, reserved)
    }

    /// The statistics after an estimate: what was measured is what the next one is smoothed by.
    pub open spec fn estimated(self) -> MemBalancerStats {
        MemBalancerStats { prev: Some(self.current), current: nothing_measured(), ..self }
    }
}

/// `Atomic` of `atomic`, a cell that several threads share.
#[verifier::external_type_specification]
#[verifier::external_body]
#[verifier::reject_recursive_types(T)]
pub struct ExAtomic<T>(atomic::Atomic<T>);

/// What a cell holds, as a sequence of one.
pub uninterp spec fn held(cell: atomic::Atomic<MemBalancerStats>) -> Seq<MemBalancerStats>;

/// `Atomic::new` of `atomic`: a cell that holds `stats`.
#[verifier::external_body]
fn new_cell(stats: MemBalancerStats) -> (cell: atomic::Atomic<MemBalancerStats>)
    ensures
        held(cell) == seq![stats],
{
    atomic::Atomic::new(stats)
}

/// `Atomic::load` of `atomic`: what the cell holds.
#[verifier::external_body]
fn load_cell(cell: &atomic::Atomic<MemBalancerStats>) -> (stats: MemBalancerStats)
    ensures
        held(*cell) == seq![stats],
{
    cell.load(atomic::Ordering::Relaxed)
}

/// `Atomic::store` of `atomic`: the cell holds `stats` from then on. It is stored only through a
/// reference that nobody shares.
#[verifier::external_body]
fn store_cell(cell: &mut atomic::Atomic<MemBalancerStats>, stats: MemBalancerStats)
    ensures
        held(*final(cell)) == seq![stats],
{
    cell.store(stats, atomic::Ordering::Relaxed)
}

/// A heap whose size is between a minimum and a maximum, and is chosen after each collection.
pub struct MemBalancerTrigger {
    min_heap_pages: usize,
    max_heap_pages: usize,
    current_heap_pages: usize,
    stats: atomic::Atomic<MemBalancerStats>,
}

/// What an estimate of the best heap size is made from.
#[derive(Copy, Clone)]
pub struct HeapEstimateInput {
    /// The live pages.
    pub live: usize,
    /// The pages that the next collection needs for copies.
    pub extra_reserve: usize,
    pub stats: MemBalancerStats,
}

/// The value closest to `n` between `min` and `max`.
pub open spec fn clamped(n: int, min: int, max: int) -> int {
    if n < min {
        min
    } else if n > max {
        max
    } else {
        n
    }
}

impl MemBalancerTrigger {
    pub closed spec fn min_pages(&self) -> usize {
        self.min_heap_pages
    }

    pub closed spec fn max_pages(&self) -> usize {
        self.max_heap_pages
    }

    pub closed spec fn current_pages(&self) -> usize {
        self.current_heap_pages
    }

    pub closed spec fn statistics(&self) -> MemBalancerStats {
        held(self.stats)[0]
    }

    /// The heap is no smaller than its minimum and no larger than its maximum, unless these two
    /// contradict each other.
    pub open spec fn wf(&self) -> bool {
        self.min_pages() <= self.max_pages() ==> self.min_pages() <= self.current_pages()
            <= self.max_pages()
    }

    /// A heap that starts with its minimum size, at the time `now`.
    pub fn new(min_heap_pages: usize, max_heap_pages: usize, now: u64) -> (t: Self)
        ensures
            t.wf(),
            t.min_pages() == min_heap_pages,
            t.max_pages() == max_heap_pages,
            t.current_pages() == min_heap_pages,
            t.statistics() == MemBalancerStats::unmeasured(now),
    {
        MemBalancerTrigger {
            min_heap_pages,
            max_heap_pages,
            current_heap_pages: min_heap_pages,
            stats: new_cell(MemBalancerStats::new(now)),
        }
    }

    /// The least pages that the heap may have.
    pub fn min_heap_size_in_pages(&self) -> (n: usize)
        ensures
            n == self.min_pages(),
    {
        self.min_heap_pages
    }

    /// The most pages that the heap may have.
    pub fn max_heap_size_in_pages(&self) -> (n: usize)
        ensures
            n == self.max_pages(),
    {
        self.max_heap_pages
    }

    /// What has been measured.
    pub fn stats(&self) -> (stats: MemBalancerStats)
        ensures
            stats == self.statistics(),
    {
        load_cell(&self.stats)
    }

    /// Chooses the heap size: the live pages, the pages `e` that the estimate adds to them, and
    /// what the next collection needs, but no less than the minimum and no more than the maximum.
    /// The measurements start anew.
    pub fn compute_new_heap_limit(&mut self, live: usize, extra_reserve: usize, e: usize)
        requires
            old(self).min_pages() <= old(self).max_pages(),
            live + e + extra_reserve <= usize::MAX,
        ensures
            final(self).wf(),
            final(self).min_pages() == old(self).min_pages(),
            final(self).max_pages() == old(self).max_pages(),
            final(self).statistics() == old(self).statistics().estimated(),
            final(self).current_pages() == clamped(
                live + e + extra_reserve,
                old(self).min_pages() as int,
                old(self).max_pages() as int,
            ),
    {
        let mut stats = load_cell(&self.stats);
        stats.prev = Some(stats.current);
        stats.current = Measurements {
            allocation_pages: 0,
            allocation_time: 0,
            collection_pages: 0,
            collection_time: 0,
        };
        store_cell(&mut self.stats, stats);
        let optimal_heap: usize = live + e + extra_reserve;
        // The new heap size must be within the limits.
        self.current_heap_pages = if optimal_heap < self.min_heap_pages {
            self.min_heap_pages
        } else if optimal_heap > self.max_heap_pages {
            self.max_heap_pages
        } else {
            optimal_heap
        };
    }

    /// Whether the sizes are those of `other`.
    pub open spec fn same_sizes(&self, other: MemBalancerTrigger) -> bool {
        &&& self.min_pages() == other.min_pages()
        &&& self.max_pages() == other.max_pages()
        &&& self.current_pages() == other.current_pages()
    }
}

impl GCTriggerPolicy for MemBalancerTrigger {
    open spec fn heap_pages(&self) -> usize {
        self.current_pages()
    }

    open spec fn can_grow(&self) -> bool {
        self.current_pages() < self.max_pages()
    }

    /// Whether a collection can start at the time `now`: the heap has not shrunk since the last one
    /// ended, and the times measured do not overflow.
    open spec fn can_start(&self, plan: PlanFigures, now: u64) -> bool {
        &&& self.statistics().current.allocation_time + elapsed(
            self.statistics().gc_end_time,
            now,
        ) <= u64::MAX
        &&& !plan.generational ==> self.statistics().gc_end_live_pages <= plan.reserved
    }

    /// Whether a collection can be about to release memory: what old objects take has not shrunk
    /// since the last one of old objects ended.
    open spec fn can_release(&self, plan: PlanFigures) -> bool {
        plan.generational && !plan.nursery_gc ==> self.statistics().gc_end_live_pages
            <= plan.mature_reserved
    }

    /// Whether a collection can end at the time `now`: the heap has not grown since memory was
    /// released, and the times measured do not overflow.
    open spec fn can_end(&self, plan: PlanFigures, now: u64) -> bool {
        &&& self.statistics().current.collection_time + elapsed(
            self.statistics().gc_start_time,
            now,
        ) <= u64::MAX
        &&& plan.generational && !plan.nursery_gc ==> plan.mature_reserved
            <= self.statistics().gc_release_live_pages
        &&& !plan.generational ==> plan.reserved <= self.statistics().gc_release_live_pages
    }

    open spec fn start_noted(&self, plan: PlanFigures, now: u64, after: Self) -> bool {
        &&& after.same_sizes(*self)
        &&& after.statistics() == self.statistics().started(
            now,
            plan.generational,
            plan.reserved,
        )
    }

    open spec fn release_noted(&self, plan: PlanFigures, after: Self) -> bool {
        &&& after.same_sizes(*self)
        &&& after.statistics() == self.statistics().released(
            plan.generational,
            plan.nursery_gc,
            plan.mature_reserved,
            plan.reserved,
        )
    }

    open spec fn end_noted(
        &self,
        plan: PlanFigures,
        now: u64,
        after: Self,
        input: Option<HeapEstimateInput>,
    ) -> bool {
        &&& after.same_sizes(*self)
        &&& after.statistics() == self.statistics().ended(
            now,
            plan.generational,
            plan.nursery_gc,
            plan.mature_reserved,
            plan.reserved,
        )
        &&& estimate_wanted(plan, after.statistics(), input)
    }

    fn on_gc_start<P: Plan>(&mut self, plan: &P, now: u64) {
        let mut stats = load_cell(&self.stats);
        stats.gc_start_time = now;
        stats.current.allocation_time = stats.current.allocation_time + time_between(
            stats.gc_end_time,
            now,
        );
        if plan.generational() {
            stats.generational_mem_stats_on_gc_start();
        } else {
            stats.non_generational_mem_stats_on_gc_start(plan);
        }
        store_cell(&mut self.stats, stats);
    }

    fn on_gc_release<P: Plan>(&mut self, plan: &P) {
        let mut stats = load_cell(&self.stats);
        if plan.generational() {
            stats.generational_mem_stats_on_gc_release(plan);
        } else {
            stats.non_generational_mem_stats_on_gc_release(plan);
        }
        store_cell(&mut self.stats, stats);
    }

    fn on_gc_end<P: Plan>(&mut self, plan: &P, now: u64) -> (input: Option<HeapEstimateInput>) {
        let mut stats = load_cell(&self.stats);
        stats.gc_end_time = now;
        stats.current.collection_time = stats.current.collection_time + time_between(
            stats.gc_start_time,
            now,
        );
        let input = if plan.generational() {
            if stats.generational_mem_stats_on_gc_end(plan) {
                Some(
                    HeapEstimateInput {
                        live: plan.get_mature_reserved_pages(),
                        extra_reserve: plan.get_collection_reserved_pages(),
                        stats,
                    },
                )
            } else {
                None
            }
        } else {
            stats.non_generational_mem_stats_on_gc_end(plan);
            Some(
                HeapEstimateInput {
                    live: plan.get_reserved_pages(),
                    extra_reserve: plan.get_collection_reserved_pages(),
                    stats,
                },
            )
        };
        store_cell(&mut self.stats, stats);
        input
    }

    fn is_gc_required<P: Plan>(
        &self,
        space_full: bool,
        space: Option<&'static str>,
        plan: &P,
    ) -> (b: bool) {
        // Let the plan decide.
        plan.collection_required(space_full, space)
    }

    fn is_heap_full<P: Plan>(&self, plan: &P) -> (b: bool) {
        plan.get_reserved_pages() > self.current_heap_pages
    }

    fn get_heap_size_in_pages(&self) -> (n: usize) {
        self.current_heap_pages
    }

    fn can_heap_size_grow(&self) -> (b: bool) {
        self.current_heap_pages < self.max_heap_pages
    }
}

/// The policies to choose from.
pub enum TriggerPolicy {
    Fixed(FixedHeapSizeTrigger),
    MemBalancer(MemBalancerTrigger),
}

impl TriggerPolicy {
    pub open spec fn pages(&self) -> usize {
        match self {
            TriggerPolicy::Fixed(p) => p.heap_pages(),
            TriggerPolicy::MemBalancer(p) => p.heap_pages(),
        }
    }

    /// Informs the policy that a collection starts at the time `now`. A heap of fixed size does not
    /// care.
    pub fn on_gc_start<P: Plan>(&mut self, plan: &P, now: u64)
        requires
            *old(self) matches TriggerPolicy::MemBalancer(p) ==> p.can_start(figures(*plan), now),
        ensures
            match (*old(self), *final(self)) {
                (TriggerPolicy::Fixed(p), TriggerPolicy::Fixed(q)) => p.start_noted(figures(*plan), now, q),
                (TriggerPolicy::MemBalancer(p), TriggerPolicy::MemBalancer(q)) => p.start_noted(
                    figures(*plan),
                    now,
                    q,
                ),
                _ => false,
            },
    {
        match self {
            TriggerPolicy::Fixed(p) => p.on_gc_start(plan, now),
            TriggerPolicy::MemBalancer(p) => p.on_gc_start(plan, now),
        }
    }

    /// Informs the policy that a collection is about to release memory. A heap of fixed size does
    /// not care.
    pub fn on_gc_release<P: Plan>(&mut self, plan: &P)
        requires
            *old(self) matches TriggerPolicy::MemBalancer(p) ==> p.can_release(figures(*plan)),
        ensures
            match (*old(self), *final(self)) {
                (TriggerPolicy::Fixed(p), TriggerPolicy::Fixed(q)) => p.release_noted(figures(*plan), q),
                (TriggerPolicy::MemBalancer(p), TriggerPolicy::MemBalancer(q)) => p.release_noted(
                    figures(*plan),
                    q,
                ),
                _ => false,
            },
    {
        match self {
            TriggerPolicy::Fixed(p) => p.on_gc_release(plan),
            TriggerPolicy::MemBalancer(p) => p.on_gc_release(plan),
        }
    }

    /// Informs the policy that a collection ends at the time `now`. Where the heap size is to be
    /// chosen anew, returns what the estimate is made from. A heap of fixed size does not care.
    pub fn on_gc_end<P: Plan>(&mut self, plan: &P, now: u64) -> (input: Option<HeapEstimateInput>)
        requires
            *old(self) matches TriggerPolicy::MemBalancer(p) ==> p.can_end(figures(*plan), now),
        ensures
            match (*old(self), *final(self)) {
                (TriggerPolicy::Fixed(p), TriggerPolicy::Fixed(q)) => p.end_noted(
                    figures(*plan),
                    now,
                    q,
                    input,
                ),
                (TriggerPolicy::MemBalancer(p), TriggerPolicy::MemBalancer(q)) => p.end_noted(
                    figures(*plan),
                    now,
                    q,
                    input,
                ),
                _ => false,
            },
    {
        match self {
            TriggerPolicy::Fixed(p) => p.on_gc_end(plan, now),
            TriggerPolicy::MemBalancer(p) => p.on_gc_end(plan, now),
        }
    }
}

/// Whether `input` is what an estimate is made from at the end of a collection: nothing after one
/// of new objects only.
pub open spec fn estimate_wanted(
    plan: PlanFigures,
    stats: MemBalancerStats,
    input: Option<HeapEstimateInput>,
) -> bool {
    &&& input is None <==> plan.generational && plan.nursery_gc
    &&& input matches Some(i) ==> {
        &&& i.live == (if plan.generational {
            plan.mature_reserved
        } else {
            plan.reserved
        })
        &&& i.extra_reserve == plan.collection_reserved
        &&& i.stats == stats
    }
}

/// Triggers collections by a policy.
pub struct GCTrigger<P: Plan> {
    /// The plan; none until it has been created.
    pub plan: Option<P>,
    pub policy: TriggerPolicy,
}

impl<P: Plan> GCTrigger<P> {
    /// A trigger by the policy chosen, at the time `now`. The virtual machine cannot be the one
    /// that decides.
    pub fn new(options: &Options, now: u64) -> (t: Self)
        requires
            options.gc_trigger != GCTriggerSelector::Delegated,
        ensures
            t.plan is None,
            match options.gc_trigger {
                GCTriggerSelector::FixedHeapSize(size) => t.policy matches TriggerPolicy::Fixed(
                    p,
                ) && p.total_pages == size / 4096,
                GCTriggerSelector::DynamicHeapSize(min, max) => {
                    &&& t.policy matches TriggerPolicy::MemBalancer(p)
                    &&& p.min_pages() == min / 4096
                    &&& p.max_pages() == max / 4096
                    &&& p.current_pages() == min / 4096
                    &&& p.statistics() == MemBalancerStats::unmeasured(now)
                    &&& p.wf()
                },
                GCTriggerSelector::Delegated => false,
            },
    {
        let policy = match options.gc_trigger {
            GCTriggerSelector::FixedHeapSize(size) => {
                assert(size >> 12usize == size / 4096) by (bit_vector);
                TriggerPolicy::Fixed(FixedHeapSizeTrigger { total_pages: size >> LOG_BYTES_IN_PAGE })
            },
            GCTriggerSelector::DynamicHeapSize(min, max) => {
                assert(min >> 12usize == min / 4096) by (bit_vector);
                assert(max >> 12usize == max / 4096) by (bit_vector);
                TriggerPolicy::MemBalancer(
                    MemBalancerTrigger::new(
                        min >> LOG_BYTES_IN_PAGE,
                        max >> LOG_BYTES_IN_PAGE,
                        now,
                    ),
                )
            },
            GCTriggerSelector::Delegated => TriggerPolicy::Fixed(
                FixedHeapSizeTrigger { total_pages: 0 },
            ),
        };
        GCTrigger { plan: None, policy }
    }

    /// Sets the plan, once it has been created.
    pub fn set_plan(&mut self, plan: P)
        ensures
            *final(self) == (GCTrigger { plan: Some(plan), ..*old(self) }),
    {
        self.plan = Some(plan);
    }

    /// Requests a collection if one is required, and says whether it was. Called when pages are
    /// taken. `space_full` says that a request for memory failed in the space of the given name.
    pub fn poll(&mut self, space_full: bool, space: Option<&'static str>) -> (required: bool)
        requires
            old(self).plan is Some,
        ensures
            final(self).policy == old(self).policy,
            required == old(self).plan->0.wants_collection(space_full, space),
            !required ==> *final(self) == *old(self),
            required ==> final(self).plan is Some && gc_request_made(
                old(self).plan->0,
                final(self).plan->0,
            ),
    {
        match &mut self.plan {
            Some(plan) => {
                let required = match &self.policy {
                    TriggerPolicy::Fixed(p) => p.is_gc_required(space_full, space, plan),
                    TriggerPolicy::MemBalancer(p) => p.is_gc_required(space_full, space, plan),
                };
                if required {
                    plan.request_gc();
                }
                required
            },
            None => false,
        }
    }

    /// Whether more pages are reserved than the heap has.
    pub fn is_heap_full(&self) -> (full: bool)
        requires
            self.plan is Some,
        ensures
            full == (self.plan->0.reserved() > self.policy.pages()),
    {
        match &self.plan {
            Some(plan) => match &self.policy {
                TriggerPolicy::Fixed(p) => p.is_heap_full(plan),
                TriggerPolicy::MemBalancer(p) => p.is_heap_full(plan),
            },
            None => false,
        }
    }
}

/// A heap that cannot get larger has its maximum size, and one that can has less, unless the minimum
/// contradicts the maximum.
pub proof fn law_heap_grows_up_to_its_maximum(t: MemBalancerTrigger)
    requires
        t.wf(),
        t.min_pages() <= t.max_pages(),
    ensures
        t.min_pages() <= t.heap_pages() <= t.max_pages(),
        !t.can_grow() <==> t.heap_pages() == t.max_pages(),
{
}

/// A larger estimate never gives a smaller heap.
pub proof fn law_larger_estimate_gives_no_smaller_heap(
    smaller: int,
    larger: int,
    min: int,
    max: int,
)
    requires
        min <= max,
        smaller <= larger,
    ensures
        clamped(smaller, min, max) <= clamped(larger, min, max),
        min <= clamped(smaller, min, max) <= max,
{
}

/// What a collection is measured by: between the release and the end of one that is not of new
/// objects only, the pages collected are those by which the live pages went down.
pub proof fn law_collected_pages_are_measured(
    before: MemBalancerStats,
    generational: bool,
    mature_at_release: usize,
    reserved_at_release: usize,
    now: u64,
    mature_at_end: usize,
    reserved_at_end: usize,
)
    requires
        mature_at_end <= mature_at_release,
        reserved_at_end <= reserved_at_release,
    ensures
        ({
            let at_release = if generational {
                mature_at_release
            } else {
                reserved_at_release
            };
            let at_end = if generational {
                mature_at_end
            } else {
                reserved_at_end
            };
            let after = before.released(
                generational,
                false,
                mature_at_release,
                reserved_at_release,
            ).ended(now, generational, false, mature_at_end, reserved_at_end);
            &&& after.current.collection_pages == at_release - at_end
            &&& after.gc_end_live_pages == at_end
        }),
{
}

} // verus!
