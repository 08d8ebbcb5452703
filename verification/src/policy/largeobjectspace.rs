//! The large object space: every object has pages of its own.
use crate::policy::immix::immixspace::CommonSpace;
use crate::util::address::{Address, ObjectReference};
use crate::util::constants::BYTES_IN_PAGE;
use crate::util::metadata::side_metadata::{filled, SideMetadataSpec, SideTable};
use vstd::prelude::*;

verus! {

/// The bits of an entry of the mark table that say something.
pub const LOS_BIT_MASK: u8 = 0b11;

/// The bit of an entry of the mark table that is compared with the mark state.
pub const MARK_BIT: u8 = 0b01;

/// What a large object space is created with.
pub struct LargeObjectSpaceArgs {
    pub name: &'static str,
    pub start: Address,
    /// How many pages of memory the space has.
    pub pages: usize,
    pub needs_log_bit: bool,
}

/// The objects of the space.
pub struct TreadMill {
    /// The objects allocated since the last collection, oldest first.
    pub alloc_nursery: Vec<ObjectReference>,
    /// The objects that survived a collection.
    pub mature: Vec<ObjectReference>,
}

impl TreadMill {
    pub open spec fn all(&self) -> Seq<ObjectReference> {
        self.alloc_nursery@ + self.mature@
    }
}

/// Whether the `n` pages from page `p` on are free.
pub open spec fn run_free(used: Seq<bool>, p: int, n: int) -> bool {
    &&& 0 <= p
    &&& p + n <= used.len()
    &&& forall|i: int| p <= i < p + n ==> !#[trigger] used[i]
}

/// A space that gives every object whole pages.
pub struct LargeObjectSpace {
    pub common: CommonSpace,
    /// Pages are protected while they are free.
    pub protect_memory_on_release: bool,
    /// The log bit of an object is cleared when it is swept.
    pub clear_log_bit_on_sweep: bool,
    /// One entry per page: whether it belongs to an allocation.
    pub used: Vec<bool>,
    /// One entry per page: the pages of the allocation that starts there, or zero.
    pub lengths: Vec<usize>,
    /// One entry per page: the mark of the object that starts there.
    pub mark_nursery: SideTable,
    /// One count per page.
    pub page_reuse_counts: SideTable,
    /// One entry per word: zero where stores to the word are not to be logged.
    pub field_unlog: SideTable,
    pub treadmill: TreadMill,
    /// The value of the mark bit of an object that was reached.
    pub mark_state: u8,
    /// The pages given back outside a pause since the last collection.
    pub num_pages_released_lazy: usize,
}

impl LargeObjectSpace {
    pub open spec fn pages(&self) -> int {
        self.used@.len() as int
    }

    /// Whether the memory at `address` belongs to the space.
    pub open spec fn covers(&self, address: int) -> bool {
        self.common.start <= address < self.common.start + self.pages() * 4096
    }

    /// The page that `address` lies on.
    pub open spec fn page(&self, address: int) -> int {
        (address - self.common.start) / 4096
    }

    /// The tables have one entry for each unit of the space's memory.
    pub open spec fn tables_wf(&self) -> bool {
        let n = self.pages();
        &&& self.common.start % 4096 == 0
        &&& self.common.start > 0
        &&& self.common.start + n * 4096 <= usize::MAX
        &&& self.lengths@.len() == n
        &&& self.mark_nursery@.len() == n
        &&& self.page_reuse_counts@.len() == n
        &&& self.field_unlog@.len() == n * 512
        &&& self.mark_state <= 1
    }

    /// Allocations lie within the space and do not overlap, and their pages are not free.
    pub open spec fn allocations_wf(&self) -> bool {
        &&& forall|p: int|
            0 <= p < self.pages() ==> p + #[trigger] self.lengths@[p] <= self.pages()
        &&& forall|p: int, i: int|
            #![trigger self.lengths@[p], self.used@[i]]
            0 <= p < self.pages() && p <= i < p + self.lengths@[p] ==> self.used@[i]
        &&& forall|p: int, q: int|
            #![trigger self.lengths@[p], self.lengths@[q]]
            0 <= p < q < self.pages() && self.lengths@[p] > 0 && self.lengths@[q] > 0 ==> p
                + self.lengths@[p] <= q
    }

    /// Whether an allocation starts on the page of `object`.
    pub open spec fn allocated(&self, object: ObjectReference) -> bool {
        self.covers(object@) && self.lengths@[self.page(object@)] > 0
    }

    /// Each object of the treadmill has an allocation of its own.
    pub open spec fn treadmill_wf(&self) -> bool {
        let all = self.treadmill.all();
        &&& forall|i: int| 0 <= i < all.len() ==> self.allocated(#[trigger] all[i])
        &&& forall|i: int, j: int|
            #![trigger all[i], all[j]]
            0 <= i < j < all.len() ==> self.page(all[i]@) != self.page(all[j]@)
    }

    pub open spec fn wf(&self) -> bool {
        &&& self.tables_wf()
        &&& self.allocations_wf()
        &&& self.treadmill_wf()
    }

    /// Whether the mark of `object` says that it was reached.
    pub open spec fn marked(&self, object: ObjectReference) -> bool {
        self.mark_nursery@[self.page(object@)] & MARK_BIT == self.mark_state
    }

    /// A new space without objects.
    pub fn new_with_extra_side_metadata_specs(
        args: LargeObjectSpaceArgs,
        protect_memory_on_release: bool,
        clear_log_bit_on_sweep: bool,
        extra: Vec<SideMetadataSpec>,
    ) -> (s: Self)
        requires
            args.start@ % 4096 == 0,
            args.start@ > 0,
            args.start@ + args.pages * 4096 <= usize::MAX,
        ensures
            s.wf(),
            s.common.name == args.name,
            s.common.start == args.start@,
            s.common.needs_log_bit == args.needs_log_bit,
            s.common.extra_metadata == extra,
            s.protect_memory_on_release == protect_memory_on_release,
            s.clear_log_bit_on_sweep == clear_log_bit_on_sweep,
            s.used@ == Seq::new(args.pages as nat, |i: int| false),
            s.lengths@ == Seq::new(args.pages as nat, |i: int| 0usize),
            s.mark_nursery@ == Seq::new(args.pages as nat, |i: int| 0u8),
            s.page_reuse_counts@ == Seq::new(args.pages as nat, |i: int| 0u8),
            s.field_unlog@ == Seq::new((args.pages * 512) as nat, |i: int| 0u8),
            s.treadmill.alloc_nursery@ == Seq::<ObjectReference>::empty(),
            s.treadmill.mature@ == Seq::<ObjectReference>::empty(),
            s.mark_state == 0,
            s.num_pages_released_lazy == 0,
    {
        let n: usize = args.pages;
        let mut used: Vec<bool> = Vec::new();
        let mut lengths: Vec<usize> = Vec::new();
        let mut i: usize = 0;
        while i < n
            invariant
                i <= n,
                used@ == Seq::new(i as nat, |j: int| false),
                lengths@ == Seq::new(i as nat, |j: int| 0usize),
            decreases n - i,
        {
            used.push(false);
            lengths.push(0);
            i += 1;
        }
        LargeObjectSpace {
            common: CommonSpace {
                name: args.name,
                start: args.start.0,
                needs_log_bit: args.needs_log_bit,
                extra_metadata: extra,
            },
            protect_memory_on_release,
            clear_log_bit_on_sweep,
            used,
            lengths,
            mark_nursery: SideTable::new(n),
            page_reuse_counts: SideTable::new(n),
            field_unlog: SideTable::new(n * 512),
            treadmill: TreadMill { alloc_nursery: Vec::new(), mature: Vec::new() },
            mark_state: 0,
            num_pages_released_lazy: 0,
        }
    }

    /// The mark state: the value of the mark bit of an object that was reached.
    pub fn mark_state(&self) -> (state: u8)
        ensures
            state == self.mark_state,
    {
        self.mark_state
    }

    /// Makes every object one that was not reached.
    pub fn flip_mark_state(&mut self)
        requires
            old(self).wf(),
        ensures
            final(self).wf(),
            *final(self) == (LargeObjectSpace {
                mark_state: (1 - old(self).mark_state) as u8,
                ..*old(self)
            }),
    {
        self.mark_state = MARK_BIT - self.mark_state;
    }

    /// How many free pages there are from page `p` on, counting no further than `n`.
    fn free_run(&self, p: usize, n: usize) -> (len: usize)
        requires
            self.wf(),
            p < self.pages(),
        ensures
            len <= n,
            p + len <= self.pages(),
            forall|i: int| p <= i < p + len ==> !#[trigger] self.used@[i],
            len < n ==> p + len == self.pages() || self.used@[p + len],
    {
        let mut len: usize = 0;
        while len < n && p + len < self.used.len() && !self.used[p + len]
            invariant
                self.wf(),
                p < self.pages(),
                len <= n,
                p + len <= self.pages(),
                forall|i: int| p <= i < p + len ==> !#[trigger] self.used@[i],
            decreases n - len,
        {
            len += 1;
        }
        len
    }

    /// Allocates `pages` pages at the first place where so many are free in a row. Returns the
    /// zero address if there is no such place.
    pub fn allocate_pages(&mut self, pages: usize) -> (start: Address)
        requires
            old(self).wf(),
            pages > 0,
        ensures
            final(self).wf(),
            start@ == 0 <==> forall|p: int| !run_free(old(self).used@, p, pages as int),
            start@ == 0 ==> *final(self) == *old(self),
            start@ != 0 ==> {
                let p = old(self).page(start@);
                &&& start@ == old(self).common.start + p * 4096
                &&& run_free(old(self).used@, p, pages as int)
                &&& forall|q: int| q < p ==> !run_free(old(self).used@, q, pages as int)
                &&& *final(self) == (LargeObjectSpace {
                    used: final(self).used,
                    lengths: final(self).lengths,
                    ..*old(self)
                })
                &&& final(self).used@ == filled(old(self).used@, p, p + pages, true)
                &&& final(self).lengths@ == old(self).lengths@.update(p, pages)
            },
    {
        let n: usize = self.used.len();
        let mut p: usize = 0;
        while p < n
            invariant
                n == self.pages(),
                self.wf(),
                *self == *old(self),
                p <= n,
                pages > 0,
                forall|q: int| q < p ==> !run_free(self.used@, q, pages as int),
            decreases n - p,
        {
            let len: usize = self.free_run(p, pages);
            if len == pages {
                assert(run_free(old(self).used@, p as int, pages as int));
                self.claim(p, pages);
                assert(self.page(self.common.start + p * 4096) == p);
                return Address(self.common.start + p * 4096);
            }
            proof {
                assert forall|q: int| q < p + 1 implies !run_free(self.used@, q, pages as int) by {
                    if q == p && run_free(self.used@, q, pages as int) {
                        assert(!self.used@[p + len]);
                    }
                }
            }
            p += 1;
        }
        assert forall|q: int| !run_free(self.used@, q, pages as int) by {}
        Address(0)
    }

    /// Records an allocation of the `pages` free pages from page `p` on.
    fn claim(&mut self, p: usize, pages: usize)
        requires
            old(self).wf(),
            pages > 0,
            run_free(old(self).used@, p as int, pages as int),
        ensures
            final(self).wf(),
            *final(self) == (LargeObjectSpace {
                used: final(self).used,
                lengths: final(self).lengths,
                ..*old(self)
            }),
            final(self).used@ == filled(old(self).used@, p as int, p + pages, true),
            final(self).lengths@ == old(self).lengths@.update(p as int, pages),
    {
        let mut i: usize = 0;
        while i < pages
            invariant
                i <= pages,
                p + pages <= self.used@.len() <= usize::MAX,
                *self == (LargeObjectSpace { used: self.used, ..*old(self) }),
                self.used@ == filled(old(self).used@, p as int, p + i, true),
            decreases pages - i,
        {
            self.used.set(p + i, true);
            i += 1;
        }
        self.lengths.set(p, pages);
        proof {
            let before = *old(self);
            assert(!before.used@[p as int]);
            assert(before.lengths@[p as int] == 0) by {
                if before.lengths@[p as int] > 0 {
                    assert(before.used@[p as int]);
                }
            }
            assert forall|q: int, r: int|
                #![trigger self.lengths@[q], self.lengths@[r]]
                0 <= q < r < self.pages() && self.lengths@[q] > 0 && self.lengths@[r] > 0 implies q
                + self.lengths@[q] <= r by {
                if r == p {
                    // The pages of the allocation at `q` are not free, and page `p` was.
                    assert(!before.used@[r]);
                    if q + before.lengths@[q] > r {
                        assert(before.used@[r]);
                    }
                } else if q == p {
                    // Page `r` is not free, and the pages from `p` on were.
                    assert(before.lengths@[r] > 0);
                    assert(before.used@[r]);
                    if r < p + pages {
                        assert(!before.used@[r]);
                    }
                } else {
                    assert(before.lengths@[q] > 0 && before.lengths@[r] > 0);
                }
            }
            assert forall|q: int, i: int|
                #![trigger self.lengths@[q], self.used@[i]]
                0 <= q < self.pages() && q <= i < q + self.lengths@[q] implies self.used@[i] by {
                if q != p {
                    assert(before.lengths@[q] == self.lengths@[q]);
                    assert(before.used@[i]);
                }
            }
            let all = self.treadmill.all();
            assert forall|k: int| 0 <= k < all.len() implies self.allocated(#[trigger] all[k]) by {
                assert(before.allocated(before.treadmill.all()[k]));
            }
        }
    }

    /// The pages of the allocation that starts at `start`.
    pub fn pages_for_start(&self, start: Address) -> (pages: usize)
        requires
            self.wf(),
            self.covers(start@),
        ensures
            pages == self.lengths@[self.page(start@)],
    {
        self.lengths[(start.0 - self.common.start) / BYTES_IN_PAGE]
    }

    /// Whether no object of the treadmill starts on page `p`.
    pub open spec fn unclaimed(&self, p: int) -> bool {
        forall|i: int|
            0 <= i < self.treadmill.all().len() ==> self.page(
                (#[trigger] self.treadmill.all()[i])@,
            ) != p
    }

    /// Gives back the allocation that starts at `start`. No object of the treadmill may be there.
    /// Returns how many pages it had.
    pub fn release_pages_at(&mut self, start: Address) -> (pages: usize)
        requires
            old(self).wf(),
            old(self).covers(start@),
            old(self).lengths@[old(self).page(start@)] > 0,
            old(self).unclaimed(old(self).page(start@)),
        ensures
            final(self).wf(),
            *final(self) == (LargeObjectSpace {
                used: final(self).used,
                lengths: final(self).lengths,
                ..*old(self)
            }),
            pages == old(self).lengths@[old(self).page(start@)],
            final(self).used@ == filled(
                old(self).used@,
                old(self).page(start@),
                old(self).page(start@) + pages,
                false,
            ),
            final(self).lengths@ == old(self).lengths@.update(old(self).page(start@), 0),
    {
        let p: usize = (start.0 - self.common.start) / BYTES_IN_PAGE;
        let pages: usize = self.lengths[p];
        let mut i: usize = 0;
        while i < pages
            invariant
                i <= pages,
                p + pages <= self.used@.len() <= usize::MAX,
                *self == (LargeObjectSpace { used: self.used, ..*old(self) }),
                self.used@ == filled(old(self).used@, p as int, p + i, false),
            decreases pages - i,
        {
            self.used.set(p + i, false);
            i += 1;
        }
        self.lengths.set(p, 0);
        proof {
            let before = *old(self);
            assert forall|q: int, r: int|
                #![trigger self.lengths@[q], self.lengths@[r]]
                0 <= q < r < self.pages() && self.lengths@[q] > 0 && self.lengths@[r] > 0 implies q
                + self.lengths@[q] <= r by {
                assert(before.lengths@[q] > 0 && before.lengths@[r] > 0);
            }
            assert forall|q: int, i: int|
                #![trigger self.lengths@[q], self.used@[i]]
                0 <= q < self.pages() && q <= i < q + self.lengths@[q] implies self.used@[i] by {
                assert(q != p);
                assert(before.lengths@[q] == self.lengths@[q]);
                assert(before.used@[i]);
                // Allocations do not overlap, so that `i` is not among the pages given back.
                assert(before.lengths@[p as int] > 0);
                if q < p {
                    assert(q + before.lengths@[q] <= p);
                } else {
                    assert(p + before.lengths@[p as int] <= q);
                }
            }
            let all = self.treadmill.all();
            assert forall|k: int| 0 <= k < all.len() implies self.allocated(#[trigger] all[k]) by {
                assert(before.allocated(before.treadmill.all()[k]));
            }
        }
        pages
    }

    /// Clears the field log entries of the `pages` pages from `start` on.
    pub fn clear_field_unlog(&mut self, start: Address, pages: usize)
        requires
            old(self).wf(),
            old(self).covers(start@),
            old(self).page(start@) + pages <= old(self).pages(),
        ensures
            final(self).wf(),
            *final(self) == (LargeObjectSpace {
                field_unlog: final(self).field_unlog,
                ..*old(self)
            }),
            final(self).field_unlog@ == filled(
                old(self).field_unlog@,
                old(self).page(start@) * 512,
                (old(self).page(start@) + pages) * 512,
                0,
            ),
    {
        let p: usize = (start.0 - self.common.start) / BYTES_IN_PAGE;
        self.field_unlog.fill(p * 512, (p + pages) * 512, 0);
    }

    /// Sets the whole field log table to `value`.
    pub fn fill_side_log_bits(&mut self, value: u8)
        requires
            old(self).wf(),
        ensures
            final(self).wf(),
            *final(self) == (LargeObjectSpace {
                field_unlog: final(self).field_unlog,
                ..*old(self)
            }),
            final(self).field_unlog@ == Seq::new(old(self).field_unlog@.len(), |i: int| value),
    {
        let n: usize = self.field_unlog.entries.len();
        self.field_unlog.fill(0, n, value);
        assert(self.field_unlog@ == Seq::new(old(self).field_unlog@.len(), |i: int| value));
    }

    /// Adds `object` to the treadmill, as a new object if `nursery` is set.
    pub fn treadmill_add(&mut self, object: ObjectReference, nursery: bool)
        requires
            old(self).wf(),
            old(self).allocated(object),
            old(self).unclaimed(old(self).page(object@)),
        ensures
            final(self).wf(),
            *final(self) == (LargeObjectSpace { treadmill: final(self).treadmill, ..*old(self) }),
            final(self).treadmill.alloc_nursery@ == (if nursery {
                old(self).treadmill.alloc_nursery@.push(object)
            } else {
                old(self).treadmill.alloc_nursery@
            }),
            final(self).treadmill.mature@ == (if nursery {
                old(self).treadmill.mature@
            } else {
                old(self).treadmill.mature@.push(object)
            }),
    {
        if nursery {
            self.treadmill.alloc_nursery.push(object);
        } else {
            self.treadmill.mature.push(object);
        }
        proof {
            let was = old(self).treadmill.all();
            let now = self.treadmill.all();
            let at: int = if nursery {
                old(self).treadmill.alloc_nursery@.len() as int
            } else {
                was.len() as int
            };
            assert(now == was.insert(at, object));
            assert forall|i: int| 0 <= i < now.len() implies self.allocated(#[trigger] now[i]) by {
                if i < at {
                    assert(now[i] == was[i]);
                } else if i > at {
                    assert(now[i] == was[i - 1]);
                }
            }
            assert forall|i: int, j: int|
                #![trigger now[i], now[j]]
                0 <= i < j < now.len() implies self.page(now[i]@) != self.page(now[j]@) by {
                let a = if i < at {
                    i
                } else {
                    i - 1
                };
                let b = if j < at {
                    j
                } else {
                    j - 1
                };
                if i != at {
                    assert(now[i] == was[a]);
                }
                if j != at {
                    assert(now[j] == was[b]);
                }
            }
        }
    }

    /// Takes every new object off the treadmill.
    pub fn treadmill_collect_alloc_nursery(&mut self) -> (objects: Vec<ObjectReference>)
        requires
            old(self).wf(),
        ensures
            final(self).wf(),
            *final(self) == (LargeObjectSpace { treadmill: final(self).treadmill, ..*old(self) }),
            objects@ == old(self).treadmill.alloc_nursery@,
            final(self).treadmill.alloc_nursery@ == Seq::<ObjectReference>::empty(),
            final(self).treadmill.mature == old(self).treadmill.mature,
    {
        let mut objects: Vec<ObjectReference> = Vec::new();
        std::mem::swap(&mut objects, &mut self.treadmill.alloc_nursery);
        proof {
            let n = objects@.len();
            let was = old(self).treadmill.all();
            let now = self.treadmill.all();
            assert forall|i: int| 0 <= i < now.len() implies now[i] == was[n + i] by {}
            assert forall|i: int| 0 <= i < now.len() implies self.allocated(#[trigger] now[i]) by {
                assert(old(self).allocated(was[n + i]));
            }
            assert forall|i: int, j: int|
                #![trigger now[i], now[j]]
                0 <= i < j < now.len() implies self.page(now[i]@) != self.page(now[j]@) by {
                assert(now[i] == was[n + i] && now[j] == was[n + j]);
            }
        }
        objects
    }

    /// Takes every old object off the treadmill.
    pub fn treadmill_collect_mature(&mut self) -> (objects: Vec<ObjectReference>)
        requires
            old(self).wf(),
        ensures
            final(self).wf(),
            *final(self) == (LargeObjectSpace { treadmill: final(self).treadmill, ..*old(self) }),
            objects@ == old(self).treadmill.mature@,
            final(self).treadmill.alloc_nursery == old(self).treadmill.alloc_nursery,
            final(self).treadmill.mature@ == Seq::<ObjectReference>::empty(),
    {
        let mut objects: Vec<ObjectReference> = Vec::new();
        std::mem::swap(&mut objects, &mut self.treadmill.mature);
        proof {
            let was = old(self).treadmill.all();
            let now = self.treadmill.all();
            assert forall|i: int| 0 <= i < now.len() implies now[i] == was[i] by {}
            assert forall|i: int| 0 <= i < now.len() implies self.allocated(#[trigger] now[i]) by {
                assert(old(self).allocated(was[i]));
            }
        }
        objects
    }

    /// Takes `object` off the treadmill where it is there as an old object. Says whether it was.
    pub fn treadmill_remove_mature(&mut self, object: ObjectReference) -> (found: bool)
        requires
            old(self).wf(),
        ensures
            final(self).wf(),
            found == old(self).treadmill.mature@.contains(object),
            !found ==> *final(self) == *old(self),
            found ==> {
                &&& *final(self) == (LargeObjectSpace {
                    treadmill: final(self).treadmill,
                    ..*old(self)
                })
                &&& final(self).treadmill.alloc_nursery == old(self).treadmill.alloc_nursery
                &&& exists|k: int|
                    0 <= k < old(self).treadmill.mature@.len()
                        && #[trigger] old(self).treadmill.mature@[k] == object
                        && final(self).treadmill.mature@ == old(self).treadmill.mature@.remove(k)
                &&& old(self).allocated(object)
                &&& final(self).unclaimed(old(self).page(object@))
            },
    {
        let mut k: usize = 0;
        while k < self.treadmill.mature.len()
            invariant
                self.wf(),
                *self == *old(self),
                k <= self.treadmill.mature@.len(),
                forall|j: int| 0 <= j < k ==> self.treadmill.mature@[j] != object,
            decreases self.treadmill.mature@.len() - k,
        {
            if self.treadmill.mature[k] == object {
                let _ = self.treadmill.mature.remove(k);
                proof {
                    let was = old(self).treadmill.all();
                    let now = self.treadmill.all();
                    let at = self.treadmill.alloc_nursery@.len() + k;
                    assert(was[at] == object);
                    assert(old(self).treadmill.mature@[k as int] == object);
                    assert forall|i: int| 0 <= i < now.len() implies #[trigger] now[i] == was[if i
                        < at {
                        i
                    } else {
                        i + 1
                    }] by {}
                    assert forall|i: int| 0 <= i < now.len() implies self.allocated(
                        #[trigger] now[i],
                    ) && self.page(now[i]@) != self.page(object@) by {
                        let m = if i < at {
                            i
                        } else {
                            i + 1
                        };
                        assert(now[i] == was[m]);
                        assert(old(self).allocated(was[m]));
                        assert(old(self).page(was[m]@) != old(self).page(was[at]@));
                    }
                    assert forall|i: int, j: int|
                        #![trigger now[i], now[j]]
                        0 <= i < j < now.len() implies self.page(now[i]@) != self.page(now[j]@) by {
                        let a = if i < at {
                            i
                        } else {
                            i + 1
                        };
                        let b = if j < at {
                            j
                        } else {
                            j + 1
                        };
                        assert(now[i] == was[a] && now[j] == was[b]);
                    }
                    assert(old(self).allocated(was[at]));
                }
                return true;
            }
            k += 1;
        }
        false
    }
}

} // verus!
