//! The large object space of LXR.
use crate::plan::tracing::ObjectQueue;
use crate::policy::immix::immixspace::{incremented, CommonSpace};
use crate::policy::largeobjectspace::{
    run_free, LargeObjectSpace, LargeObjectSpaceArgs, LOS_BIT_MASK, MARK_BIT,
};
use crate::util::address::{Address, ObjectReference};
use crate::util::constants::BYTES_IN_PAGE;
use crate::util::metadata::side_metadata::{filled, SideMetadataSpec};
use crate::util::rc::RefCountHelper;
use vstd::prelude::*;

verus! {

/// The large object space of LXR: a plain large object space with reference counts on top.
pub struct LXRLargeObjectSpace {
    pub los: LargeObjectSpace,
    pub rc: RefCountHelper,
    /// A trace is complete, so that what it has not marked is dead.
    pub is_end_of_satb_or_full_gc: bool,
    /// Whether the reuse counts of the pages of a new object go up, so that what was recorded
    /// about an earlier object there is known to be stale.
    pub bump_page_reuse_count: bool,
}

/// The entry of the mark table after the mark bit was set to `state`.
pub open spec fn entry_marked(entry: u8, state: u8) -> u8 {
    if entry & MARK_BIT == state {
        entry
    } else {
        entry & !LOS_BIT_MASK | state
    }
}

/// Of the first `n` of `objects`, those for which `pick` says `value`, in order.
pub open spec fn selected(
    objects: Seq<ObjectReference>,
    pick: Seq<bool>,
    value: bool,
    n: nat,
) -> Seq<ObjectReference>
    decreases n,
{
    if n == 0 {
        Seq::empty()
    } else {
        let rest = selected(objects, pick, value, (n - 1) as nat);
        if pick[n - 1] == value {
            rest.push(objects[n - 1])
        } else {
            rest
        }
    }
}

/// Whether page `i` belongs to one of the objects `dead`.
pub open spec fn page_of_any(los: LargeObjectSpace, dead: Seq<ObjectReference>, i: int) -> bool {
    exists|k: int|
        0 <= k < dead.len() && los.page((#[trigger] dead[k])@) <= i < los.page(dead[k]@)
            + los.lengths@[los.page(dead[k]@)]
}

/// Whether one of the objects `dead` starts on page `i`.
pub open spec fn starts_any(los: LargeObjectSpace, dead: Seq<ObjectReference>, i: int) -> bool {
    exists|k: int| 0 <= k < dead.len() && los.page((#[trigger] dead[k])@) == i
}

/// Whether the allocations of `after` are those of `before` without the ones of the objects
/// `dead`, whose field log entries are cleared.
pub open spec fn objects_released(
    before: LargeObjectSpace,
    dead: Seq<ObjectReference>,
    after: LargeObjectSpace,
) -> bool {
    &&& after == (LargeObjectSpace {
        used: after.used,
        lengths: after.lengths,
        field_unlog: after.field_unlog,
        treadmill: after.treadmill,
        num_pages_released_lazy: after.num_pages_released_lazy,
        ..before
    })
    &&& after.used@ == Seq::new(
        before.used@.len(),
        |i: int| before.used@[i] && !page_of_any(before, dead, i),
    )
    &&& after.lengths@ == Seq::new(
        before.lengths@.len(),
        |i: int|
            if starts_any(before, dead, i) {
                0
            } else {
                before.lengths@[i]
            },
    )
    &&& after.field_unlog@ == Seq::new(
        before.field_unlog@.len(),
        |w: int|
            if page_of_any(before, dead, w / 512) {
                0
            } else {
                before.field_unlog@[w]
            },
    )
}

/// The count of pages given back lazily, which starts at `count`, once the objects `dead` have
/// been given back.
pub open spec fn lazily_released(
    count: usize,
    before: LargeObjectSpace,
    dead: Seq<ObjectReference>,
) -> usize
    decreases dead.len(),
{
    if dead.len() == 0 {
        count
    } else {
        lazily_released(count, before, dead.drop_last()).wrapping_add(
            before.lengths@[before.page(dead.last()@)],
        )
    }
}

/// The counts after those of the objects `dead` were set to zero.
pub open spec fn counts_zeroed(rc: RefCountHelper, dead: Seq<ObjectReference>) -> Seq<u8> {
    Seq::new(
        rc.counts@.len(),
        |g: int|
            if exists|k: int| 0 <= k < dead.len() && rc.granule((#[trigger] dead[k])@) == g {
                0
            } else {
                rc.counts@[g]
            },
    )
}

/// Giving back nothing.
proof fn lemma_release_none(before: LargeObjectSpace, after: LargeObjectSpace)
    requires
        after == (LargeObjectSpace { treadmill: after.treadmill, ..before }),
    ensures
        objects_released(before, Seq::empty(), after),
{
    let none = Seq::<ObjectReference>::empty();
    assert(after.used@ =~= Seq::new(
        before.used@.len(),
        |i: int| before.used@[i] && !page_of_any(before, none, i),
    ));
    assert(after.lengths@ =~= Seq::new(
        before.lengths@.len(),
        |i: int|
            if starts_any(before, none, i) {
                0
            } else {
                before.lengths@[i]
            },
    ));
    assert(after.field_unlog@ =~= Seq::new(
        before.field_unlog@.len(),
        |w: int|
            if page_of_any(before, none, w / 512) {
                0
            } else {
                before.field_unlog@[w]
            },
    ));
}

/// Giving back one more object.
proof fn lemma_release_one(
    before: LargeObjectSpace,
    dead: Seq<ObjectReference>,
    middle: LargeObjectSpace,
    object: ObjectReference,
    after: LargeObjectSpace,
)
    requires
        objects_released(before, dead, middle),
        before.tables_wf(),
        before.covers(object@),
        !starts_any(before, dead, before.page(object@)),
        after == (LargeObjectSpace {
            used: after.used,
            lengths: after.lengths,
            field_unlog: after.field_unlog,
            ..middle
        }),
        ({
            let p = before.page(object@);
            let pages = middle.lengths@[p] as int;
            &&& after.used@ == filled(middle.used@, p, p + pages, false)
            &&& after.lengths@ == middle.lengths@.update(p, 0)
            &&& after.field_unlog@ == filled(middle.field_unlog@, p * 512, (p + pages) * 512, 0)
        }),
    ensures
        objects_released(before, dead.push(object), after),
{
    let now = dead.push(object);
    let p = before.page(object@);
    let pages = before.lengths@[p] as int;
    assert(middle.lengths@[p] == pages);
    assert forall|i: int|
        page_of_any(before, now, i) == (page_of_any(before, dead, i) || p <= i < p + pages) by {
        if page_of_any(before, now, i) {
            let k = choose|k: int|
                0 <= k < now.len() && before.page((#[trigger] now[k])@) <= i < before.page(now[k]@)
                    + before.lengths@[before.page(now[k]@)];
            if k < dead.len() {
                assert(now[k] == dead[k]);
            }
        }
        if page_of_any(before, dead, i) {
            let k = choose|k: int|
                0 <= k < dead.len() && before.page((#[trigger] dead[k])@) <= i < before.page(
                    dead[k]@,
                ) + before.lengths@[before.page(dead[k]@)];
            assert(now[k] == dead[k]);
        }
        if p <= i < p + pages {
            assert(now[dead.len() as int] == object);
        }
    }
    assert forall|i: int| starts_any(before, now, i) == (starts_any(before, dead, i) || i == p) by {
        if starts_any(before, now, i) {
            let k = choose|k: int| 0 <= k < now.len() && before.page((#[trigger] now[k])@) == i;
            if k < dead.len() {
                assert(now[k] == dead[k]);
            }
        }
        if starts_any(before, dead, i) {
            let k = choose|k: int| 0 <= k < dead.len() && before.page((#[trigger] dead[k])@) == i;
            assert(now[k] == dead[k]);
        }
        if i == p {
            assert(now[dead.len() as int] == object);
        }
    }
    assert(after.used@ =~= Seq::new(
        before.used@.len(),
        |i: int| before.used@[i] && !page_of_any(before, now, i),
    ));
    assert(after.lengths@ =~= Seq::new(
        before.lengths@.len(),
        |i: int|
            if starts_any(before, now, i) {
                0
            } else {
                before.lengths@[i]
            },
    ));
    assert(after.field_unlog@ =~= Seq::new(
        before.field_unlog@.len(),
        |w: int|
            if page_of_any(before, now, w / 512) {
                0
            } else {
                before.field_unlog@[w]
            },
    ));
}

/// Whether `object` is one of the first `n` of `objects`.
spec fn among(objects: Seq<ObjectReference>, n: int, object: ObjectReference) -> bool {
    exists|i: int| 0 <= i < n && #[trigger] objects[i] == object
}

/// Each object selected is one of the objects.
proof fn lemma_selected(objects: Seq<ObjectReference>, pick: Seq<bool>, value: bool, n: nat)
    requires
        n <= objects.len(),
    ensures
        forall|k: int|
            0 <= k < selected(objects, pick, value, n).len() ==> among(
                objects,
                n as int,
                #[trigger] selected(objects, pick, value, n)[k],
            ),
    decreases n,
{
    if n > 0 {
        lemma_selected(objects, pick, value, (n - 1) as nat);
        let rest = selected(objects, pick, value, (n - 1) as nat);
        let now = selected(objects, pick, value, n);
        assert forall|k: int| 0 <= k < now.len() implies among(
            objects,
            n as int,
            #[trigger] now[k],
        ) by {
            if k < rest.len() {
                assert(among(objects, n - 1, rest[k]));
            } else {
                assert(objects[n - 1] == now[k]);
            }
        }
    }
}

impl LXRLargeObjectSpace {
    pub open spec fn wf(&self) -> bool {
        &&& self.los.wf()
        &&& self.rc.wf()
        &&& self.rc.start == self.los.common.start
        &&& self.rc.counts@.len() == self.los.pages() * 256
    }

    /// Whether a complete trace has reached `object` and it has a count.
    pub open spec fn reachable(&self, object: ObjectReference) -> bool {
        self.los.marked(object) && self.rc.count_of(object) > 0
    }

    /// Whether `object` is alive: it has a count, and once a trace is complete it was marked.
    pub open spec fn live(&self, object: ObjectReference) -> bool {
        self.rc.count_of(object) > 0 && (self.is_end_of_satb_or_full_gc ==> self.los.marked(object))
    }

    /// A space without objects.
    pub fn new(
        args: LargeObjectSpaceArgs,
        protect_memory_on_release: bool,
        clear_log_bit_on_sweep: bool,
    ) -> (s: Self)
        requires
            args.start@ % 4096 == 0,
            args.start@ > 0,
            args.start@ + args.pages * 4096 <= usize::MAX,
        ensures
            s.wf(),
            s.los.common.name == args.name,
            s.los.common.start == args.start@,
            s.los.common.needs_log_bit == args.needs_log_bit,
            s.los.common.extra_metadata@ == seq![SideMetadataSpec::LosPageReuseCount],
            s.los.protect_memory_on_release == protect_memory_on_release,
            s.los.clear_log_bit_on_sweep == clear_log_bit_on_sweep,
            s.los.used@ == Seq::new(args.pages as nat, |i: int| false),
            s.los.lengths@ == Seq::new(args.pages as nat, |i: int| 0usize),
            s.los.mark_nursery@ == Seq::new(args.pages as nat, |i: int| 0u8),
            s.los.page_reuse_counts@ == Seq::new(args.pages as nat, |i: int| 0u8),
            s.los.field_unlog@ == Seq::new((args.pages * 512) as nat, |i: int| 0u8),
            s.los.treadmill.all() == Seq::<ObjectReference>::empty(),
            s.los.mark_state == 0,
            s.los.num_pages_released_lazy == 0,
            s.rc.counts@ == Seq::new((args.pages * 256) as nat, |i: int| 0u8),
            !s.is_end_of_satb_or_full_gc,
            !s.bump_page_reuse_count,
    {
        let rc = RefCountHelper::new(args.start.0, args.pages * 16);
        let los = LargeObjectSpace::new_with_extra_side_metadata_specs(
            args,
            protect_memory_on_release,
            clear_log_bit_on_sweep,
            vec![SideMetadataSpec::LosPageReuseCount],
        );
        LXRLargeObjectSpace {
            los,
            rc,
            is_end_of_satb_or_full_gc: false,
            bump_page_reuse_count: false,
        }
    }

    pub fn name(&self) -> (name: &'static str)
        ensures
            name == self.los.common.name,
    {
        self.los.common.name
    }

    pub fn common(&self) -> (common: &CommonSpace)
        ensures
            *common == self.los.common,
    {
        &self.los.common
    }

    /// Objects of the space are never moved.
    pub fn is_movable(&self) -> (b: bool)
        ensures
            !b,
    {
        false
    }

    /// Objects of the space need no pinning: the call changes nothing.
    pub fn pin_object(&self, _object: ObjectReference) -> (changed: bool)
        ensures
            !changed,
    {
        false
    }

    /// Objects of the space cannot be unpinned: the call changes nothing.
    pub fn unpin_object(&self, _object: ObjectReference) -> (changed: bool)
        ensures
            !changed,
    {
        false
    }

    /// Every object of the space stays where it is.
    pub fn is_object_pinned(&self, _object: ObjectReference) -> (b: bool)
        ensures
            b,
    {
        true
    }

    /// Whether `trace_object` may move objects: it never does.
    pub fn may_move_objects() -> (b: bool)
        ensures
            !b,
    {
        false
    }

    pub fn is_live(&self, object: ObjectReference) -> (b: bool)
        requires
            self.wf(),
            self.los.covers(object@),
        ensures
            b == self.live(object),
    {
        if self.is_end_of_satb_or_full_gc {
            return self.is_marked(object) && self.rc.count(object) > 0;
        }
        self.rc.count(object) > 0
    }

    pub fn is_reachable(&self, object: ObjectReference) -> (b: bool)
        requires
            self.wf(),
            self.los.covers(object@),
        ensures
            b == self.reachable(object),
    {
        self.is_marked(object) && self.rc.count(object) > 0
    }

    /// Marks `object`. Says whether it was not marked before.
    pub fn attempt_mark(&mut self, object: ObjectReference) -> (fresh: bool)
        requires
            old(self).wf(),
            old(self).los.covers(object@),
        ensures
            final(self).wf(),
            fresh == !old(self).los.marked(object),
            los_mark_set(*old(self), object, *final(self)),
            final(self).los.marked(object),
    {
        self.test_and_mark(object)
    }

    pub fn num_pages_released_lazy(&self) -> (pages: usize)
        ensures
            pages == self.los.num_pages_released_lazy,
    {
        self.los.num_pages_released_lazy
    }

    pub fn is_marked(&self, object: ObjectReference) -> (b: bool)
        requires
            self.wf(),
            self.los.covers(object@),
        ensures
            b == self.los.marked(object),
    {
        self.test_mark_bit(object)
    }

    /// Sets the mark bit of `object` to the mark state. Says whether it was another before; then
    /// the other bit that says something is cleared too, and the rest of the entry is kept.
    pub fn test_and_mark(&mut self, object: ObjectReference) -> (fresh: bool)
        requires
            old(self).wf(),
            old(self).los.covers(object@),
        ensures
            final(self).wf(),
            fresh == !old(self).los.marked(object),
            los_mark_set(*old(self), object, *final(self)),
            final(self).los.marked(object),
    {
        let value: u8 = self.los.mark_state();
        let i: usize = (object.0 - self.los.common.start) / BYTES_IN_PAGE;
        let old_value: u8 = self.los.mark_nursery.load(i);
        let mark_bit: u8 = old_value & MARK_BIT;
        if mark_bit == value {
            assert(self.los.mark_nursery@ == self.los.mark_nursery@.update(i as int, old_value));
            return false;
        }
        let new_value: u8 = old_value & !LOS_BIT_MASK | value;
        assert((old_value & !3u8 | value) & 1 == value) by (bit_vector)
            requires
                value <= 1,
        ;
        let _ = self.los.mark_nursery.compare_exchange(i, old_value, new_value);
        true
    }

    fn test_mark_bit(&self, object: ObjectReference) -> (b: bool)
        requires
            self.wf(),
            self.los.covers(object@),
        ensures
            b == self.los.marked(object),
    {
        self.los.mark_nursery.load((object.0 - self.los.common.start) / BYTES_IN_PAGE) & MARK_BIT
            == self.los.mark_state()
    }

    /// Sets up the tables for `object`, for which `bytes` bytes were just allocated: it is a new
    /// object, it is marked, and the reuse counts of its pages go up where they are to.
    pub fn initialize_object_metadata(&mut self, object: ObjectReference, bytes: usize)
        requires
            old(self).wf(),
            old(self).los.allocated(object),
            old(self).los.unclaimed(old(self).los.page(object@)),
            object@ + bytes <= old(self).los.common.start + old(self).los.pages() * 4096,
        ensures
            final(self).wf(),
            *final(self) == (LXRLargeObjectSpace {
                los: LargeObjectSpace {
                    treadmill: final(self).los.treadmill,
                    mark_nursery: final(self).los.mark_nursery,
                    page_reuse_counts: final(self).los.page_reuse_counts,
                    ..old(self).los
                },
                ..*old(self)
            }),
            final(self).los.treadmill.alloc_nursery@
                == old(self).los.treadmill.alloc_nursery@.push(object),
            final(self).los.treadmill.mature@ == old(self).los.treadmill.mature@,
            final(self).los.mark_nursery@ == old(self).los.mark_nursery@.update(
                old(self).los.page(object@),
                entry_marked(
                    old(self).los.mark_nursery@[old(self).los.page(object@)],
                    old(self).los.mark_state,
                ),
            ),
            final(self).los.page_reuse_counts@ == (if old(self).bump_page_reuse_count {
                incremented(
                    old(self).los.page_reuse_counts@,
                    old(self).los.page(object@),
                    old(self).los.page(object@) + (bytes + 4095) / 4096,
                )
            } else {
                old(self).los.page_reuse_counts@
            }),
    {
        self.los.treadmill_add(object, true);
        let _ = self.test_and_mark(object);
        if self.bump_page_reuse_count {
            let first: usize = (object.0 - self.los.common.start) / BYTES_IN_PAGE;
            let count_of_pages: usize = bytes / BYTES_IN_PAGE + if bytes % BYTES_IN_PAGE == 0 {
                0
            } else {
                1
            };
            let ghost marked = *self;
            let mut i: usize = 0;
            while i < count_of_pages
                invariant
                    self.wf(),
                    marked.wf(),
                    i <= count_of_pages,
                    first + count_of_pages <= self.los.pages(),
                    *self == (LXRLargeObjectSpace {
                        los: LargeObjectSpace {
                            page_reuse_counts: self.los.page_reuse_counts,
                            ..marked.los
                        },
                        ..marked
                    }),
                    self.los.page_reuse_counts@ == incremented(
                        marked.los.page_reuse_counts@,
                        first as int,
                        first + i,
                    ),
                decreases count_of_pages - i,
            {
                let count: u8 = self.los.page_reuse_counts.load(first + i);
                let new_count: u8 = if count == u8::MAX {
                    0
                } else {
                    count + 1
                };
                self.los.page_reuse_counts.store(first + i, new_count);
                i += 1;
            }
        }
    }

    /// Gives back the pages of `object`, which has no count and is on the treadmill no more.
    /// Returns how many there were.
    pub fn release_object(&mut self, object: ObjectReference) -> (pages: usize)
        requires
            old(self).wf(),
            old(self).los.allocated(object),
            old(self).los.unclaimed(old(self).los.page(object@)),
            old(self).rc.count_of(object) == 0,
        ensures
            final(self).wf(),
            pages == old(self).los.lengths@[old(self).los.page(object@)],
            *final(self) == (LXRLargeObjectSpace {
                los: LargeObjectSpace {
                    used: final(self).los.used,
                    lengths: final(self).los.lengths,
                    field_unlog: final(self).los.field_unlog,
                    ..old(self).los
                },
                ..*old(self)
            }),
            ({
                let p = old(self).los.page(object@);
                &&& final(self).los.used@ == filled(old(self).los.used@, p, p + pages, false)
                &&& final(self).los.lengths@ == old(self).los.lengths@.update(p, 0)
                &&& final(self).los.field_unlog@ == filled(
                    old(self).los.field_unlog@,
                    p * 512,
                    (p + pages) * 512,
                    0,
                )
            }),
    {
        let start = object.to_raw_address().align_down(BYTES_IN_PAGE);
        assert(self.los.page(start@) == self.los.page(object@));
        assert(self.los.covers(start@));
        let pages: usize = self.los.pages_for_start(start);
        self.los.clear_field_unlog(start, pages);
        self.los.release_pages_at(start)
    }

    /// Goes through the objects allocated since the last collection: those with a count become old
    /// objects, and the pages of the others are given back.
    pub fn release_rc_nursery_objects(&mut self)
        requires
            old(self).wf(),
        ensures
            final(self).wf(),
            nursery_released(*old(self), *final(self)),
    {
        let ghost before = *self;
        let ghost pick = survivors(before);
        let nursery = self.los.treadmill_collect_alloc_nursery();
        let n: usize = nursery.len();
        proof {
            assert(before.los.treadmill.all().subrange(0, n as int) == nursery@);
            assert forall|j: int| 0 <= j < n implies self.los.allocated(#[trigger] nursery@[j])
                && self.los.unclaimed(self.los.page(nursery@[j]@)) by {
                assert(before.los.treadmill.all()[j] == nursery@[j]);
                assert forall|i: int| 0 <= i < self.los.treadmill.all().len() implies self.los.page(
                    (#[trigger] self.los.treadmill.all()[i])@,
                ) != self.los.page(nursery@[j]@) by {
                    assert(self.los.treadmill.all()[i] == before.los.treadmill.all()[n + i]);
                }
            }
            assert forall|i: int, j: int|
                #![trigger nursery@[i], nursery@[j]]
                0 <= i < j < n implies self.los.page(nursery@[i]@) != self.los.page(
                nursery@[j]@,
            ) by {
                assert(before.los.treadmill.all()[i] == nursery@[i]);
                assert(before.los.treadmill.all()[j] == nursery@[j]);
            }
            lemma_release_none(before.los, self.los);
        }
        let mut i: usize = 0;
        while i < n
            invariant
                i <= n,
                n == nursery@.len(),
                before.wf(),
                self.wf(),
                nursery@ == before.los.treadmill.alloc_nursery@,
                pick == survivors(before),
                *self == (LXRLargeObjectSpace { los: self.los, ..before }),
                self.los.num_pages_released_lazy == before.los.num_pages_released_lazy,
                forall|j: int| 0 <= j < n ==> before.los.covers((#[trigger] nursery@[j])@),
                forall|j: int|
                    i <= j < n ==> self.los.allocated(#[trigger] nursery@[j])
                        && self.los.unclaimed(self.los.page(nursery@[j]@)),
                forall|j: int, k: int|
                    #![trigger nursery@[j], nursery@[k]]
                    0 <= j < k < n ==> before.los.page(nursery@[j]@) != before.los.page(
                        nursery@[k]@,
                    ),
                self.los.treadmill.alloc_nursery@ == Seq::<ObjectReference>::empty(),
                self.los.treadmill.mature@ == before.los.treadmill.mature@ + selected(
                    nursery@,
                    pick,
                    true,
                    i as nat,
                ),
                objects_released(
                    before.los,
                    selected(nursery@, pick, false, i as nat),
                    self.los,
                ),
            decreases n - i,
        {
            let o = nursery[i];
            let ghost middle = *self;
            let ghost dead = selected(nursery@, pick, false, i as nat);
            assert(self.los.allocated(nursery@[i as int]));
            if self.rc.count(o) == 0 {
                let _ = self.release_object(o);
                proof {
                    lemma_selected(nursery@, pick, false, i as nat);
                    assert(!starts_any(before.los, dead, before.los.page(o@))) by {
                        if starts_any(before.los, dead, before.los.page(o@)) {
                            let k = choose|k: int|
                                0 <= k < dead.len() && before.los.page((#[trigger] dead[k])@)
                                    == before.los.page(o@);
                            assert(among(nursery@, i as int, dead[k]));
                            let j = choose|j: int| 0 <= j < i && #[trigger] nursery@[j] == dead[k];
                            assert(nursery@[j] == dead[k]);
                        }
                    }
                    lemma_release_one(before.los, dead, middle.los, o, self.los);
                    assert(selected(nursery@, pick, false, (i + 1) as nat) == dead.push(o));
                    assert(self.los.treadmill.all() == middle.los.treadmill.all());
                    assert forall|j: int| i + 1 <= j < n implies self.los.allocated(
                        #[trigger] nursery@[j],
                    ) && self.los.unclaimed(self.los.page(nursery@[j]@)) by {
                        assert(middle.los.allocated(nursery@[j]));
                        assert(before.los.page(nursery@[i as int]@) != before.los.page(
                            nursery@[j]@,
                        ));
                    }
                }
            } else {
                self.los.treadmill_add(o, false);
                proof {
                    assert(self.los.treadmill.mature@ =~= before.los.treadmill.mature@ + selected(
                        nursery@,
                        pick,
                        true,
                        (i + 1) as nat,
                    ));
                    assert(self.los.treadmill.all() == middle.los.treadmill.all().push(o));
                    assert forall|j: int| i + 1 <= j < n implies self.los.allocated(
                        #[trigger] nursery@[j],
                    ) && self.los.unclaimed(self.los.page(nursery@[j]@)) by {
                        assert(middle.los.allocated(nursery@[j]));
                        assert(before.los.page(nursery@[i as int]@) != before.los.page(
                            nursery@[j]@,
                        ));
                        assert forall|k: int|
                            0 <= k < self.los.treadmill.all().len() implies self.los.page(
                            (#[trigger] self.los.treadmill.all()[k])@,
                        ) != self.los.page(nursery@[j]@) by {
                            if k < middle.los.treadmill.all().len() {
                                assert(self.los.treadmill.all()[k]
                                    == middle.los.treadmill.all()[k]);
                            }
                        }
                    }
                }
            }
            i += 1;
        }
    }
}

impl LXRLargeObjectSpace {
    /// Prepares for a collection: in one of the full heap, every object becomes one that was not
    /// reached.
    pub fn prepare(&mut self, full_heap: bool)
        requires
            old(self).wf(),
        ensures
            final(self).wf(),
            *final(self) == (LXRLargeObjectSpace {
                los: LargeObjectSpace {
                    mark_state: if full_heap {
                        (1 - old(self).los.mark_state) as u8
                    } else {
                        old(self).los.mark_state
                    },
                    num_pages_released_lazy: 0,
                    ..old(self).los
                },
                ..*old(self)
            }),
    {
        if full_heap {
            self.los.flip_mark_state();
        }
        self.los.num_pages_released_lazy = 0;
    }

    /// Ends a collection by going through the new objects.
    pub fn release(&mut self, _full_heap: bool)
        requires
            old(self).wf(),
        ensures
            final(self).wf(),
            nursery_released(*old(self), *final(self)),
    {
        self.release_rc_nursery_objects();
    }

    /// Marks `object`, and queues it where it was not marked before.
    pub fn trace_object<Q: ObjectQueue>(&mut self, queue: &mut Q, object: ObjectReference) -> (o:
        ObjectReference)
        requires
            old(self).wf(),
            old(self).los.covers(object@),
        ensures
            final(self).wf(),
            o == object,
            los_mark_set(*old(self), object, *final(self)),
            final(self).los.marked(object),
            final(queue).queued() == (if old(self).los.marked(object) {
                old(queue).queued()
            } else {
                old(queue).queued().push(object)
            }),
    {
        if self.test_and_mark(object) {
            queue.enqueue(object);
        }
        object
    }

    /// Marks `object`, and queues it where it was not marked before, for a caller that does not know the
    /// space.
    pub fn sft_trace_object<Q: ObjectQueue>(&mut self, queue: &mut Q, object: ObjectReference) -> (o:
        ObjectReference)
        requires
            old(self).wf(),
            old(self).los.covers(object@),
        ensures
            final(self).wf(),
            o == object,
            los_mark_set(*old(self), object, *final(self)),
            final(self).los.marked(object),
            final(queue).queued() == (if old(self).los.marked(object) {
                old(queue).queued()
            } else {
                old(queue).queued().push(object)
            }),
    {
        self.trace_object(queue, object)
    }

    /// Allocates `pages` pages at the first place where so many are free in a row. Returns the
    /// zero address if there is no such place.
    pub fn allocate_pages(&mut self, pages: usize) -> (start: Address)
        requires
            old(self).wf(),
            pages > 0,
        ensures
            final(self).wf(),
            *final(self) == (LXRLargeObjectSpace { los: final(self).los, ..*old(self) }),
            pages_allocated(old(self).los, pages as int, final(self).los, start),
    {
        self.los.allocate_pages(pages)
    }

    /// Gives back the allocation that starts at `start`, where no object of the treadmill is.
    pub fn release_multiple_pages(&mut self, start: Address)
        requires
            old(self).wf(),
            old(self).los.covers(start@),
            old(self).los.lengths@[old(self).los.page(start@)] > 0,
            old(self).los.unclaimed(old(self).los.page(start@)),
        ensures
            final(self).wf(),
            *final(self) == (LXRLargeObjectSpace {
                los: LargeObjectSpace {
                    used: final(self).los.used,
                    lengths: final(self).los.lengths,
                    ..old(self).los
                },
                ..*old(self)
            }),
            ({
                let p = old(self).los.page(start@);
                &&& final(self).los.used@ == filled(
                    old(self).los.used@,
                    p,
                    p + old(self).los.lengths@[p],
                    false,
                )
                &&& final(self).los.lengths@ == old(self).los.lengths@.update(p, 0)
            }),
    {
        let _ = self.los.release_pages_at(start);
    }

    /// Makes every field of the space one whose stores are not to be logged.
    pub fn clear_side_log_bits(&mut self)
        requires
            old(self).wf(),
        ensures
            final(self).wf(),
            *final(self) == (LXRLargeObjectSpace {
                los: LargeObjectSpace { field_unlog: final(self).los.field_unlog, ..old(self).los },
                ..*old(self)
            }),
            final(self).los.field_unlog@ == Seq::new(
                old(self).los.field_unlog@.len(),
                |i: int| 0u8,
            ),
    {
        self.los.fill_side_log_bits(0);
    }

    /// Makes every field of the space one whose next store is to be logged.
    pub fn set_side_log_bits(&mut self)
        requires
            old(self).wf(),
        ensures
            final(self).wf(),
            *final(self) == (LXRLargeObjectSpace {
                los: LargeObjectSpace { field_unlog: final(self).los.field_unlog, ..old(self).los },
                ..*old(self)
            }),
            final(self).los.field_unlog@ == Seq::new(
                old(self).los.field_unlog@.len(),
                |i: int| 1u8,
            ),
    {
        self.los.fill_side_log_bits(1);
    }

    /// Gives back the old object `o`, whose count has gone to zero. Does nothing where it is not
    /// one of the old objects any more.
    pub fn rc_free(&mut self, o: ObjectReference)
        requires
            old(self).wf(),
            old(self).los.treadmill.mature@.contains(o) ==> old(self).rc.count_of(o) == 0,
        ensures
            final(self).wf(),
            !old(self).los.treadmill.mature@.contains(o) ==> *final(self) == *old(self),
            old(self).los.treadmill.mature@.contains(o) ==> {
                &&& *final(self) == (LXRLargeObjectSpace { los: final(self).los, ..*old(self) })
                &&& final(self).los.treadmill.alloc_nursery
                    == old(self).los.treadmill.alloc_nursery
                &&& exists|k: int|
                    0 <= k < old(self).los.treadmill.mature@.len()
                        && #[trigger] old(self).los.treadmill.mature@[k] == o
                        && final(self).los.treadmill.mature@
                        == old(self).los.treadmill.mature@.remove(k)
                &&& objects_released(old(self).los, seq![o], final(self).los)
                &&& final(self).los.num_pages_released_lazy
                    == old(self).los.num_pages_released_lazy.wrapping_add(
                    old(self).los.lengths@[old(self).los.page(o@)],
                )
            },
    {
        if self.los.treadmill_remove_mature(o) {
            let ghost middle = *self;
            let pages: usize = self.release_object(o);
            proof {
                lemma_release_none(old(self).los, middle.los);
                lemma_release_one(old(self).los, Seq::empty(), middle.los, o, self.los);
                assert(Seq::<ObjectReference>::empty().push(o) == seq![o]);
            }
            self.los.num_pages_released_lazy = self.los.num_pages_released_lazy.wrapping_add(pages);
        }
    }

    /// Goes through the old objects once a trace is complete: those that `is_live` finds dead lose
    /// their count, and their pages are given back.
    pub fn sweep_rc_mature_objects_after_satb<F: Fn(ObjectReference) -> bool>(&mut self, is_live: &F)
        requires
            old(self).wf(),
            forall|o: ObjectReference|
                old(self).los.treadmill.mature@.contains(o) ==> call_requires(*is_live, (o,)),
        ensures
            final(self).wf(),
            exists|verdicts: Seq<bool>|
                {
                    &&& verdicts.len() == old(self).los.treadmill.mature@.len()
                    &&& forall|i: int|
                        0 <= i < verdicts.len() ==> call_ensures(
                            *is_live,
                            (old(self).los.treadmill.mature@[i],),
                            verdicts[i],
                        )
                    &&& #[trigger] mature_released(*old(self), verdicts, *final(self))
                },
    {
        let ghost before = *self;
        let ghost mut verdicts: Seq<bool> = Seq::empty();
        let mature = self.los.treadmill_collect_mature();
        let n: usize = mature.len();
        let ghost base = before.los.treadmill.alloc_nursery@.len() as int;
        proof {
            assert forall|j: int| 0 <= j < n implies self.los.allocated(#[trigger] mature@[j])
                && self.los.unclaimed(self.los.page(mature@[j]@)) by {
                assert(before.los.treadmill.all()[base + j] == mature@[j]);
                assert forall|i: int| 0 <= i < self.los.treadmill.all().len() implies self.los.page(
                    (#[trigger] self.los.treadmill.all()[i])@,
                ) != self.los.page(mature@[j]@) by {
                    assert(self.los.treadmill.all()[i] == before.los.treadmill.all()[i]);
                }
            }
            assert forall|i: int, j: int|
                #![trigger mature@[i], mature@[j]]
                0 <= i < j < n implies self.los.page(mature@[i]@) != self.los.page(mature@[j]@) by {
                assert(before.los.treadmill.all()[base + i] == mature@[i]);
                assert(before.los.treadmill.all()[base + j] == mature@[j]);
            }
            lemma_release_none(before.los, self.los);
            assert(self.rc.counts@ =~= counts_zeroed(before.rc, Seq::empty()));
            assert forall|j: int| 0 <= j < n implies call_requires(
                *is_live,
                (#[trigger] mature@[j],),
            ) by {
                assert(before.los.treadmill.mature@.contains(mature@[j]));
            }
        }
        let mut i: usize = 0;
        while i < n
            invariant
                i <= n,
                n == mature@.len(),
                before.wf(),
                self.wf(),
                mature@ == before.los.treadmill.mature@,
                verdicts.len() == i,
                forall|j: int| 0 <= j < n ==> call_requires(*is_live, (#[trigger] mature@[j],)),
                forall|j: int|
                    0 <= j < i ==> call_ensures(*is_live, (mature@[j],), #[trigger] verdicts[j]),
                *self == (LXRLargeObjectSpace {
                    los: self.los,
                    rc: RefCountHelper { counts: self.rc.counts, ..before.rc },
                    ..before
                }),
                forall|j: int| 0 <= j < n ==> before.los.covers((#[trigger] mature@[j])@),
                forall|j: int|
                    i <= j < n ==> self.los.allocated(#[trigger] mature@[j]) && self.los.unclaimed(
                        self.los.page(mature@[j]@),
                    ),
                forall|j: int, k: int|
                    #![trigger mature@[j], mature@[k]]
                    0 <= j < k < n ==> before.los.page(mature@[j]@) != before.los.page(mature@[k]@),
                self.los.treadmill.alloc_nursery@ == before.los.treadmill.alloc_nursery@,
                self.los.treadmill.mature@ == selected(mature@, verdicts, true, i as nat),
                objects_released(
                    before.los,
                    selected(mature@, verdicts, false, i as nat),
                    self.los,
                ),
                self.los.num_pages_released_lazy == lazily_released(
                    before.los.num_pages_released_lazy,
                    before.los,
                    selected(mature@, verdicts, false, i as nat),
                ),
                self.rc.counts@ == counts_zeroed(
                    before.rc,
                    selected(mature@, verdicts, false, i as nat),
                ),
            decreases n - i,
        {
            let o = mature[i];
            let ghost middle = *self;
            let ghost dead = selected(mature@, verdicts, false, i as nat);
            assert(self.los.allocated(mature@[i as int]));
            let live = is_live(o);
            let ghost earlier = verdicts;
            proof {
                verdicts = verdicts.push(live);
                lemma_selected_prefix(mature@, earlier, verdicts, true, i as nat);
                lemma_selected_prefix(mature@, earlier, verdicts, false, i as nat);
            }
            if !live {
                self.rc.set(o, 0);
                let ghost zeroed = *self;
                let pages: usize = self.release_object(o);
                proof {
                    lemma_selected(mature@, earlier, false, i as nat);
                    assert(!starts_any(before.los, dead, before.los.page(o@))) by {
                        if starts_any(before.los, dead, before.los.page(o@)) {
                            let k = choose|k: int|
                                0 <= k < dead.len() && before.los.page((#[trigger] dead[k])@)
                                    == before.los.page(o@);
                            assert(among(mature@, i as int, dead[k]));
                            let j = choose|j: int| 0 <= j < i && #[trigger] mature@[j] == dead[k];
                            assert(mature@[j] == dead[k]);
                        }
                    }
                    lemma_release_one(before.los, dead, middle.los, o, self.los);
                    assert(selected(mature@, verdicts, false, (i + 1) as nat) == dead.push(o));
                    assert(dead.push(o).drop_last() == dead);
                    assert(middle.los.lengths@[before.los.page(o@)]
                        == before.los.lengths@[before.los.page(o@)]);
                    lemma_zero_one(before.rc, dead, o);
                    assert(self.los.treadmill.all() == middle.los.treadmill.all());
                    assert forall|j: int| i + 1 <= j < n implies self.los.allocated(
                        #[trigger] mature@[j],
                    ) && self.los.unclaimed(self.los.page(mature@[j]@)) by {
                        assert(middle.los.allocated(mature@[j]));
                        assert(before.los.page(mature@[i as int]@) != before.los.page(mature@[j]@));
                    }
                }
                self.los.num_pages_released_lazy = self.los.num_pages_released_lazy.wrapping_add(
                    pages,
                );
            } else {
                self.los.treadmill_add(o, false);
                proof {
                    assert(self.los.treadmill.all() == middle.los.treadmill.all().push(o));
                    assert forall|j: int| i + 1 <= j < n implies self.los.allocated(
                        #[trigger] mature@[j],
                    ) && self.los.unclaimed(self.los.page(mature@[j]@)) by {
                        assert(middle.los.allocated(mature@[j]));
                        assert(before.los.page(mature@[i as int]@) != before.los.page(mature@[j]@));
                        assert forall|k: int|
                            0 <= k < self.los.treadmill.all().len() implies self.los.page(
                            (#[trigger] self.los.treadmill.all()[k])@,
                        ) != self.los.page(mature@[j]@) by {
                            if k < middle.los.treadmill.all().len() {
                                assert(self.los.treadmill.all()[k]
                                    == middle.los.treadmill.all()[k]);
                            }
                        }
                    }
                }
            }
            i += 1;
        }
        assert(mature_released(before, verdicts, *self));
    }
}

/// What is selected of the first `n` objects depends on the first `n` picks only.
proof fn lemma_selected_prefix(
    objects: Seq<ObjectReference>,
    pick: Seq<bool>,
    longer: Seq<bool>,
    value: bool,
    n: nat,
)
    requires
        n <= pick.len() <= longer.len(),
        forall|i: int| 0 <= i < n ==> pick[i] == longer[i],
    ensures
        selected(objects, pick, value, n) == selected(objects, longer, value, n),
    decreases n,
{
    if n > 0 {
        lemma_selected_prefix(objects, pick, longer, value, (n - 1) as nat);
    }
}

/// Setting one more count to zero.
proof fn lemma_zero_one(rc: RefCountHelper, dead: Seq<ObjectReference>, object: ObjectReference)
    requires
        rc.covers(object@),
    ensures
        counts_zeroed(rc, dead).update(rc.granule(object@), 0) == counts_zeroed(
            rc,
            dead.push(object),
        ),
{
    let now = dead.push(object);
    assert forall|g: int|
        0 <= g < rc.counts@.len() implies #[trigger] counts_zeroed(rc, dead).update(
        rc.granule(object@),
        0,
    )[g] == counts_zeroed(rc, now)[g] by {
        if exists|k: int| 0 <= k < dead.len() && rc.granule((#[trigger] dead[k])@) == g {
            let k = choose|k: int| 0 <= k < dead.len() && rc.granule((#[trigger] dead[k])@) == g;
            assert(now[k] == dead[k]);
        }
        if exists|k: int| 0 <= k < now.len() && rc.granule((#[trigger] now[k])@) == g {
            let k = choose|k: int| 0 <= k < now.len() && rc.granule((#[trigger] now[k])@) == g;
            if k < dead.len() {
                assert(now[k] == dead[k]);
            }
        }
        assert(now[dead.len() as int] == object);
    }
    assert(counts_zeroed(rc, dead).update(rc.granule(object@), 0) =~= counts_zeroed(rc, now));
}

/// What allocating `pages` pages makes of the space, and where they are.
pub open spec fn pages_allocated(
    before: LargeObjectSpace,
    pages: int,
    after: LargeObjectSpace,
    start: Address,
) -> bool {
    let p = before.page(start@);
    &&& start@ == 0 <==> forall|p: int| !run_free(before.used@, p, pages)
    &&& if start@ == 0 {
        after == before
    } else {
        &&& start@ == before.common.start + p * 4096
        &&& run_free(before.used@, p, pages)
        &&& forall|q: int| q < p ==> !run_free(before.used@, q, pages)
        &&& after == (LargeObjectSpace { used: after.used, lengths: after.lengths, ..before })
        &&& after.used@ == filled(before.used@, p, p + pages, true)
        &&& after.lengths@ == before.lengths@.update(p, pages as usize)
    }
}

/// What going through the old objects makes of the space, where `verdicts` says which are alive.
pub open spec fn mature_released(
    before: LXRLargeObjectSpace,
    verdicts: Seq<bool>,
    after: LXRLargeObjectSpace,
) -> bool {
    let mature = before.los.treadmill.mature@;
    let dead = selected(mature, verdicts, false, mature.len());
    &&& after == (LXRLargeObjectSpace {
        los: after.los,
        rc: RefCountHelper { counts: after.rc.counts, ..before.rc },
        ..before
    })
    &&& after.los.treadmill.alloc_nursery@ == before.los.treadmill.alloc_nursery@
    &&& after.los.treadmill.mature@ == selected(mature, verdicts, true, mature.len())
    &&& objects_released(before.los, dead, after.los)
    &&& after.los.num_pages_released_lazy == lazily_released(
        before.los.num_pages_released_lazy,
        before.los,
        dead,
    )
    &&& after.rc.counts@ == counts_zeroed(before.rc, dead)
}

/// For each new object of the space, whether it has a count.
pub open spec fn survivors(space: LXRLargeObjectSpace) -> Seq<bool> {
    Seq::new(
        space.los.treadmill.alloc_nursery@.len(),
        |i: int| space.rc.count_of(space.los.treadmill.alloc_nursery@[i]) > 0,
    )
}

/// What going through the new objects makes of the space.
pub open spec fn nursery_released(before: LXRLargeObjectSpace, after: LXRLargeObjectSpace) -> bool {
    let nursery = before.los.treadmill.alloc_nursery@;
    let pick = survivors(before);
    &&& after == (LXRLargeObjectSpace { los: after.los, ..before })
    &&& after.los.num_pages_released_lazy == before.los.num_pages_released_lazy
    &&& after.los.treadmill.alloc_nursery@ == Seq::<ObjectReference>::empty()
    &&& after.los.treadmill.mature@ == before.los.treadmill.mature@ + selected(
        nursery,
        pick,
        true,
        nursery.len(),
    )
    &&& objects_released(
        before.los,
        selected(nursery, pick, false, nursery.len()),
        after.los,
    )
}

/// Whether `after` is `before` with the mark of `object` set.
pub open spec fn los_mark_set(
    before: LXRLargeObjectSpace,
    object: ObjectReference,
    after: LXRLargeObjectSpace,
) -> bool {
    let i = before.los.page(object@);
    &&& after == (LXRLargeObjectSpace {
        los: LargeObjectSpace { mark_nursery: after.los.mark_nursery, ..before.los },
        ..before
    })
    &&& after.los.mark_nursery@ == before.los.mark_nursery@.update(
        i,
        entry_marked(before.los.mark_nursery@[i], before.los.mark_state),
    )
}

} // verus!
