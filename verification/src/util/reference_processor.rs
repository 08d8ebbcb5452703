//! Processing of soft, weak and phantom references.
use crate::scheduler::gc_work::ProcessEdgesWork;
use crate::util::address::ObjectReference;
use crate::util::reference_model::{
    Fate, concerned, cut_into, fate, forwardable, forwarded, forwarded_reference, grown,
    handed_over, held_by, is_reference, lemma_forwarded_further, lemma_found_further,
    lemma_found_same, lemma_grown_further, lemma_grown_moved_apart, lemma_placed_is_comes_from,
    lemma_placed_step, lemma_scan_step, lemma_still_forwardable, lemma_traced_found,
    lemma_traced_grown, newly_traced, nodes_found, once_unless_cleared, part_end, part_size,
    placed, retained, retained_one, scan_progress, scannable, scanned, scanned_one, settled,
    traced_one,
};
use crate::util::rounding::quotient_up;
use crate::vm::reference_glue::ReferenceGlue;
use std::collections::HashSet;
use vstd::prelude::*;

verus! {

/// How strongly a reference holds on to its referent.
#[derive(Copy, Clone, PartialEq, Eq, Structural, Debug)]
pub enum Semantics {
    SOFT,
    WEAK,
    PHANTOM,
}

/// Room that a new table of references has.
const INITIAL_SIZE: usize = 256;

/// The references of one strength.
///
/// Candidates are added while mutators run or while the heap is traced. Once it is known what is
/// alive, the table is scanned: a reference whose referent is alive stays, one whose referent is
/// dead is cleared and waits to be handed to the virtual machine, and a dead reference is dropped.
pub struct ReferenceProcessor {
    /// The addresses of the references in the table.
    pub references: HashSet<usize>,
    /// References whose referents were cleared in this collection.
    pub enqueued_references: Vec<ObjectReference>,
    /// Where the references of the nursery begin. Not used with a table that has no order.
    pub nursery_index: usize,
    pub semantics: Semantics,
    /// Whether candidates are taken. They are not from the time the table was forwarded until the
    /// end of the collection: a candidate added then would not be processed any more.
    pub allow_new_candidate: bool,
}

/// The references at the addresses in `set`, in some order.
fn references_in(set: &HashSet<usize>) -> (refs: Vec<ObjectReference>)
    ensures
        refs@.no_duplicates(),
        forall|o: ObjectReference| #[trigger] refs@.contains(o) <==> set@.contains(o.0),
        refs@.len() == set@.len(),
{
    let mut refs: Vec<ObjectReference> = Vec::new();
    let ghost keys = vstd::std_specs::iter::IteratorSpec::remaining(
        &vstd::std_specs::hash::spec_hash_keys_iter(set),
    );
    for a in it: set.iter()
        invariant
            it.seq() == keys,
            refs@.len() == it.index(),
            forall|i: int| 0 <= i < refs@.len() ==> (#[trigger] refs@[i]).0 == *keys[i],
    {
        refs.push(ObjectReference(*a));
    }
    proof {
        assert(refs@.len() == keys.len());
        assert forall|i: int, j: int|
            0 <= i < refs@.len() && 0 <= j < refs@.len() && i != j implies refs@[i] != refs@[j] by {
            assert(keys[i] != keys[j]);
        }
        assert forall|o: ObjectReference| #[trigger] refs@.contains(o) <==> set@.contains(o.0) by {
            if refs@.contains(o) {
                let i = choose|i: int| 0 <= i < refs@.len() && refs@[i] == o;
                assert(keys.unref()[i] == o.0);
                assert(keys.unref().to_set().contains(o.0));
            }
            if set@.contains(o.0) {
                assert(keys.unref().to_set().contains(o.0));
                let i = choose|i: int| 0 <= i < keys.unref().len() && keys.unref()[i] == o.0;
                assert(refs@[i] == o);
            }
        }
    }
    refs
}

impl ReferenceProcessor {
    pub const MAX_REFERENCES_PER_WORK_PACKET: usize = 4096;

    /// The references in the table.
    pub open spec fn table(&self) -> Set<ObjectReference> {
        Set::new(|o: ObjectReference| self.references@.contains(o.0))
    }

    /// Traces `object`.
    fn trace_one<E: ProcessEdgesWork>(e: &mut E, object: ObjectReference) -> (r: ObjectReference)
        requires
            old(e).wf(),
            object@ == 0 || old(e).is_object(object),
        ensures
            final(e).wf(),
            traced_one(*old(e), object, *final(e), r),
    {
        let ghost before = *e;
        let r = e.trace_object(object);
        proof {
            if object@ == 0 || before.traced().contains_key(object) {
                lemma_found_same(before, *e);
            } else {
                lemma_traced_found(before, object, *e, r);
            }
        }
        r
    }

    // These functions only trace an object, which keeps it alive and says where it is now. Their
    // names say what for.

    fn get_forwarded_referent<E: ProcessEdgesWork>(e: &mut E, referent: ObjectReference) -> (r:
        ObjectReference)
        requires
            old(e).wf(),
            referent@ == 0 || old(e).is_object(referent),
        ensures
            final(e).wf(),
            traced_one(*old(e), referent, *final(e), r),
    {
        Self::trace_one(e, referent)
    }

    fn get_forwarded_reference<E: ProcessEdgesWork>(e: &mut E, object: ObjectReference) -> (r:
        ObjectReference)
        requires
            old(e).wf(),
            object@ == 0 || old(e).is_object(object),
        ensures
            final(e).wf(),
            traced_one(*old(e), object, *final(e), r),
    {
        Self::trace_one(e, object)
    }

    fn keep_referent_alive<E: ProcessEdgesWork>(e: &mut E, referent: ObjectReference) -> (r:
        ObjectReference)
        requires
            old(e).wf(),
            referent@ == 0 || old(e).is_object(referent),
        ensures
            final(e).wf(),
            traced_one(*old(e), referent, *final(e), r),
    {
        Self::trace_one(e, referent)
    }

    /// Processes one reference of a table. Where the referent is alive, the reference, at its new
    /// place and with the referent where that is now, is handed back and belongs into the table.
    /// Where the referent is dead, the reference is cleared and appended to `enqueued_references`.
    /// A dead reference is cleared and dropped, and one without a referent is dropped.
    pub fn scan_single_reference<E: ProcessEdgesWork>(
        trace: &mut E,
        reference: ObjectReference,
        enqueued_references: &mut Vec<ObjectReference>,
    ) -> (kept: Option<ObjectReference>)
        requires
            old(trace).wf(),
            old(trace).copies(),
            is_reference(*old(trace), reference),
            old(trace).traced().contains_key(reference) ==> old(trace).is_object(
                old(trace).traced()[reference],
            ),
        ensures
            final(trace).wf(),
            nodes_found(*old(trace), *final(trace)),
            scanned_one(*old(trace), reference, *final(trace)),
            kept == (if fate(*old(trace), reference) == Fate::ReferentLive {
                Some(final(trace).traced()[reference])
            } else {
                None
            }),
            final(enqueued_references)@ == (if fate(*old(trace), reference) == Fate::ReferentDead {
                old(enqueued_references)@.push(final(trace).traced()[reference])
            } else {
                old(enqueued_references)@
            }),
    {
        let ghost before = *trace;
        if !trace.is_live(reference) {
            trace.clear_referent(reference);
            proof {
                lemma_found_same(before, *trace);
            }
            return None;
        }
        let new_reference = Self::get_forwarded_reference(trace, reference);
        let ghost first = *trace;
        proof {
            lemma_traced_grown(before, reference, first, new_reference);
        }
        let old_referent = trace.get_referent(reference);
        if old_referent.is_null() {
            return None;
        }
        if trace.is_live(old_referent) {
            let new_referent = Self::get_forwarded_referent(trace, old_referent);
            let ghost second = *trace;
            proof {
                lemma_traced_grown(first, old_referent, second, new_referent);
                lemma_grown_further(before, first, second);
            }
            trace.set_referent(new_reference, new_referent);
            proof {
                lemma_found_further(before, first, second);
                lemma_found_same(second, *trace);
                lemma_found_further(before, second, *trace);
            }
            Some(new_reference)
        } else {
            trace.clear_referent(new_reference);
            proof {
                lemma_found_same(first, *trace);
                lemma_found_further(before, first, *trace);
            }
            enqueued_references.push(new_reference);
            None
        }
    }
}

impl ReferenceProcessor {
    /// Scans the table and processes each reference in it. Nothing may be waiting to be handed
    /// over.
    pub fn scan<E: ProcessEdgesWork>(&mut self, trace: &mut E, _nursery: bool)
        requires
            old(trace).wf(),
            scannable(*old(trace), old(self).table()),
            old(self).enqueued_references@.len() == 0,
        ensures
            final(trace).wf(),
            nodes_found(*old(trace), *final(trace)),
            *final(self) == (ReferenceProcessor {
                references: final(self).references,
                enqueued_references: final(self).enqueued_references,
                ..*old(self)
            }),
            scanned(
                *old(trace),
                old(self).table(),
                *final(trace),
                final(self).table(),
                final(self).enqueued_references@,
            ),
    {
        let ghost before = *trace;
        let ghost table = self.table();
        let refs = references_in(&self.references);
        assert(refs@.to_set() == table);
        let mut enqueued_references: Vec<ObjectReference> = Vec::new();
        let mut new_set: HashSet<usize> = HashSet::new();
        let mut i: usize = 0;
        proof {
            lemma_found_same(before, *trace);
        }
        while i < refs.len()
            invariant
                i <= refs@.len(),
                refs@.no_duplicates(),
                trace.wf(),
                nodes_found(before, *trace),
                scannable(before, refs@.to_set()),
                scan_progress(before, refs@, i as int, *trace),
                forall|r: ObjectReference|
                    new_set@.contains(#[trigger] r.0) <==> placed(
                        before,
                        refs@,
                        i as int,
                        Fate::ReferentLive,
                        *trace,
                        r,
                    ),
                forall|r: ObjectReference| #[trigger]
                    enqueued_references@.contains(r) <==> placed(
                        before,
                        refs@,
                        i as int,
                        Fate::ReferentDead,
                        *trace,
                        r,
                    ),
                enqueued_references@.no_duplicates(),
            decreases refs@.len() - i,
        {
            let ghost middle = *trace;
            let ghost enqueued = enqueued_references@;
            let reference = refs[i];
            proof {
                assert(refs@.to_set().contains(reference));
                lemma_grown_moved_apart(before, middle, refs@.to_set());
                assert(is_reference(before, reference));
            }
            let kept = Self::scan_single_reference(trace, reference, &mut enqueued_references);
            proof {
                lemma_found_further(before, middle, *trace);
                lemma_scan_step(before, refs@, i as int, middle, *trace);
                lemma_placed_step(before, refs@, i as int, middle, *trace, Fate::ReferentLive);
                lemma_placed_step(before, refs@, i as int, middle, *trace, Fate::ReferentDead);
                let new = trace.traced()[reference];
                if fate(before, reference) == Fate::ReferentDead {
                    assert(enqueued_references@ == enqueued.push(new));
                    if enqueued.contains(new) {
                        let j = choose|j: int|
                            0 <= j < i && fate(before, #[trigger] refs@[j]) == Fate::ReferentDead
                                && middle.traced()[refs@[j]] == new;
                        assert(settled(before, refs@[j], middle));
                        assert(refs@.to_set().contains(refs@[j]));
                        assert(refs@[j] != reference);
                        assert(trace.traced()[refs@[j]] == new);
                    }
                    assert(enqueued_references@.no_duplicates());
                    assert forall|r: ObjectReference| #[trigger]
                        enqueued_references@.contains(r) <==> (enqueued.contains(r) || r
                            == new) by {
                        if enqueued.contains(r) {
                            let k = choose|k: int| 0 <= k < enqueued.len() && enqueued[k] == r;
                            assert(enqueued_references@[k] == r);
                        }
                        if r == new {
                            assert(enqueued_references@[enqueued.len() as int] == r);
                        }
                    }
                }
            }
            match kept {
                Some(r) => {
                    let _ = new_set.insert(r.0);
                },
                None => {},
            }
            i += 1;
        }
        self.references = new_set;
        self.enqueued_references = enqueued_references;
        proof {
            lemma_placed_is_comes_from(before, refs@, Fate::ReferentLive, *trace);
            lemma_placed_is_comes_from(before, refs@, Fate::ReferentDead, *trace);
            assert forall|a: ObjectReference| #[trigger] table.contains(a) implies settled(
                before,
                a,
                *trace,
            ) by {
                assert(refs@.to_set().contains(a));
                let j = choose|j: int| 0 <= j < refs@.len() && refs@[j] == a;
                assert(settled(before, refs@[j], *trace));
            }
        }
    }
}

/// Forwards each of the references `refs`, and returns where they are, in the same order.
fn forward_all<E: ProcessEdgesWork>(trace: &mut E, refs: &Vec<ObjectReference>) -> (new: Vec<
    ObjectReference,
>)
    requires
        old(trace).wf(),
        once_unless_cleared(*old(trace), refs@),
        forwardable(*old(trace), refs@.to_set()),
    ensures
        final(trace).wf(),
        nodes_found(*old(trace), *final(trace)),
        forwarded(*old(trace), refs@.to_set(), *final(trace)),
        new@ == refs@.map_values(|a: ObjectReference| final(trace).traced()[a]),
{
    let ghost before = *trace;
    let mut new: Vec<ObjectReference> = Vec::new();
    let mut i: usize = 0;
    proof {
        assert(refs@.take(0).to_set() =~= Set::<ObjectReference>::empty());
        lemma_found_same(before, *trace);
    }
    while i < refs.len()
        invariant
            i <= refs@.len(),
            once_unless_cleared(before, refs@),
            trace.wf(),
            nodes_found(before, *trace),
            forwardable(before, refs@.to_set()),
            forwarded(before, refs@.take(i as int).to_set(), *trace),
            new@.len() == i,
            forall|j: int| 0 <= j < i ==> #[trigger] new@[j] == trace.traced()[refs@[j]],
        decreases refs@.len() - i,
    {
        let ghost middle = *trace;
        let a = refs[i];
        let ghost done = refs@.take(i as int).to_set();
        let ghost one = set![a];
        proof {
            assert(refs@.to_set().contains(a));
            if done.contains(a) {
                let j = choose|j: int| 0 <= j < i && #[trigger] refs@.take(i as int)[j] == a;
                assert(refs@[j] == refs@[i as int]);
                assert(before.referent(a)@ == 0);
            }
            assert forall|x: ObjectReference| #[trigger] one.contains(x) implies (done.contains(
                x,
            ) ==> before.referent(x)@ == 0) && refs@.to_set().contains(x) by {}
            lemma_still_forwardable(before, done, middle, one);
            assert(one.contains(a));
        }
        let r = ReferenceProcessor::forward_single_reference(trace, a);
        proof {
            assert forall|x: ObjectReference| #[trigger] done.contains(x) implies refs@.to_set().contains(
                x,
            ) by {
                let j = choose|j: int| 0 <= j < i && #[trigger] refs@.take(i as int)[j] == x;
                assert(refs@[j] == x);
            }
            assert forall|x: ObjectReference| #[trigger] one.contains(x) implies refs@.to_set().contains(
                x,
            ) by {}
            lemma_forwarded_further(before, done, middle, one, *trace);
            lemma_found_further(before, middle, *trace);
            assert(refs@.take(i + 1).to_set() =~= done.union(one)) by {
                assert forall|x: ObjectReference| #[trigger]
                    refs@.take(i + 1).to_set().contains(x) <==> done.union(one).contains(x) by {
                    if refs@.take(i + 1).to_set().contains(x) {
                        let j = choose|j: int|
                            0 <= j < i + 1 && #[trigger] refs@.take(i + 1)[j] == x;
                        if j < i {
                            assert(refs@.take(i as int)[j] == x);
                        }
                    }
                    if done.contains(x) {
                        let j = choose|j: int| 0 <= j < i && #[trigger] refs@.take(i as int)[j] == x;
                        assert(refs@.take(i + 1)[j] == x);
                    }
                    if x == a {
                        assert(refs@.take(i + 1)[i as int] == x);
                    }
                }
            }
            assert forall|j: int| 0 <= j < i implies #[trigger] new@[j]
                == trace.traced()[refs@[j]] by {
                assert(refs@.take(i as int)[j] == refs@[j]);
                assert(done.contains(refs@[j]));
                assert(forwarded_reference(before, refs@[j], middle));
            }
        }
        new.push(r);
        i += 1;
    }
    assert(refs@.take(i as int) == refs@);
    new
}

impl ReferenceProcessor {
    /// An empty table, which takes candidates.
    pub fn new(semantics: Semantics) -> (p: Self)
        ensures
            p.table() == Set::<ObjectReference>::empty(),
            p.enqueued_references@ == Seq::<ObjectReference>::empty(),
            p.nursery_index == 0,
            p.semantics == semantics,
            p.allow_new_candidate,
    {
        let p = ReferenceProcessor {
            references: HashSet::with_capacity(INITIAL_SIZE),
            enqueued_references: Vec::new(),
            nursery_index: 0,
            semantics,
            allow_new_candidate: true,
        };
        assert(p.table() =~= Set::<ObjectReference>::empty());
        p
    }

    /// Adds a candidate, unless candidates are not taken.
    pub fn add_candidate(&mut self, reff: ObjectReference)
        ensures
            *final(self) == (ReferenceProcessor {
                references: final(self).references,
                ..*old(self)
            }),
            final(self).table() == (if old(self).allow_new_candidate {
                old(self).table().insert(reff)
            } else {
                old(self).table()
            }),
    {
        if !self.allow_new_candidate {
            return ;
        }
        let _ = self.references.insert(reff.0);
        assert(self.table() =~= old(self).table().insert(reff));
    }

    /// Adds candidates, unless candidates are not taken.
    pub fn add_candidates(&mut self, add: &[ObjectReference])
        ensures
            *final(self) == (ReferenceProcessor {
                references: final(self).references,
                ..*old(self)
            }),
            final(self).table() == (if old(self).allow_new_candidate {
                old(self).table().union(add@.to_set())
            } else {
                old(self).table()
            }),
    {
        if !self.allow_new_candidate {
            return ;
        }
        self.extend_table(add);
    }

    fn extend_table(&mut self, add: &[ObjectReference])
        ensures
            *final(self) == (ReferenceProcessor {
                references: final(self).references,
                ..*old(self)
            }),
            final(self).table() == old(self).table().union(add@.to_set()),
    {
        let mut i: usize = 0;
        while i < add.len()
            invariant
                i <= add@.len(),
                *self == (ReferenceProcessor { references: self.references, ..*old(self) }),
                forall|o: ObjectReference|
                    self.references@.contains(#[trigger] o.0) <==> old(self).references@.contains(
                        o.0,
                    ) || exists|j: int| 0 <= j < i && #[trigger] add@[j] == o,
            decreases add@.len() - i,
        {
            let _ = self.references.insert(add[i].0);
            i += 1;
        }
        assert forall|o: ObjectReference| #[trigger] self.table().contains(o) <==> old(
            self,
        ).table().union(add@.to_set()).contains(o) by {
            assert(self.references@.contains(o.0) == self.table().contains(o));
        }
        assert(self.table() =~= old(self).table().union(add@.to_set()));
    }

    /// Adds candidates, and references to be handed over, unless candidates are not taken. No
    /// reference may be handed over twice.
    pub fn add_candidates_and_enqueue(
        &mut self,
        add: &[ObjectReference],
        enqueue: &[ObjectReference],
    )
        requires
            old(self).allow_new_candidate ==> (old(self).enqueued_references@
                + enqueue@).no_duplicates(),
        ensures
            *final(self) == (ReferenceProcessor {
                references: final(self).references,
                enqueued_references: final(self).enqueued_references,
                ..*old(self)
            }),
            old(self).allow_new_candidate ==> final(self).table() == old(self).table().union(
                add@.to_set(),
            ) && final(self).enqueued_references@ == old(self).enqueued_references@ + enqueue@,
            !old(self).allow_new_candidate ==> *final(self) == *old(self),
    {
        if !self.allow_new_candidate {
            return ;
        }
        self.extend_table(add);
        self.extend_enqueued(enqueue);
    }

    fn extend_enqueued(&mut self, refs: &[ObjectReference])
        ensures
            *final(self) == (ReferenceProcessor {
                enqueued_references: final(self).enqueued_references,
                ..*old(self)
            }),
            final(self).enqueued_references@ == old(self).enqueued_references@ + refs@,
    {
        let mut i: usize = 0;
        while i < refs.len()
            invariant
                i <= refs@.len(),
                *self == (ReferenceProcessor {
                    enqueued_references: self.enqueued_references,
                    ..*old(self)
                }),
                self.enqueued_references@ == old(self).enqueued_references@ + refs@.take(i as int),
            decreases refs@.len() - i,
        {
            self.enqueued_references.push(refs[i]);
            assert(refs@.take(i + 1) == refs@.take(i as int).push(refs@[i as int]));
            i += 1;
        }
        assert(refs@.take(i as int) == refs@);
    }

    /// Adds references to be handed over. None may be handed over twice.
    pub fn enqueue_candidates(&mut self, refs: &[ObjectReference])
        requires
            (old(self).enqueued_references@ + refs@).no_duplicates(),
        ensures
            *final(self) == (ReferenceProcessor {
                enqueued_references: final(self).enqueued_references,
                ..*old(self)
            }),
            final(self).enqueued_references@ == old(self).enqueued_references@ + refs@,
    {
        self.extend_enqueued(refs);
    }

    fn disallow_new_candidate(&mut self)
        ensures
            *final(self) == (ReferenceProcessor { allow_new_candidate: false, ..*old(self) }),
    {
        self.allow_new_candidate = false;
    }

    fn allow_new_candidate(&mut self)
        ensures
            *final(self) == (ReferenceProcessor { allow_new_candidate: true, ..*old(self) }),
    {
        self.allow_new_candidate = true;
    }

    /// Hands the references whose referents were cleared in this collection to the virtual
    /// machine, on the thread `tls` of a worker, and takes candidates again. The references in the table, and what they refer to,
    /// must be in the heap; those handed over must have been cleared.
    pub fn enqueue<VM: ReferenceGlue>(&mut self, vm: &mut VM, tls: usize)
        requires
            old(self).can_enqueue(*old(vm)),
        ensures
            *final(self) == (ReferenceProcessor {
                enqueued_references: final(self).enqueued_references,
                allow_new_candidate: true,
                ..*old(self)
            }),
            final(self).enqueued_references@ == Seq::<ObjectReference>::empty(),
            final(vm).delivered() == handed_over(
                old(vm).delivered(),
                old(self).enqueued_references@,
                tls,
            ),
            forall|x: ObjectReference| #[trigger]
                final(vm).referent_of(x) == old(vm).referent_of(x),
            forall|x: ObjectReference| #[trigger]
                final(vm).in_any_space(x) == old(vm).in_any_space(x),
    {
        if self.enqueued_references.len() != 0 {
            vm.enqueue_references(&self.enqueued_references, tls);
            self.enqueued_references.clear();
        }
        self.allow_new_candidate();
    }

    /// Whether the tables are as they are to be at the end of a collection.
    pub open spec fn can_enqueue<VM: ReferenceGlue>(&self, vm: VM) -> bool {
        &&& forall|a: ObjectReference| #[trigger]
            self.table().contains(a) ==> a@ != 0 && vm.in_any_space(a) && (vm.referent_of(a)@ == 0
                || vm.in_any_space(vm.referent_of(a)))
        &&& forall|i: int|
            0 <= i < self.enqueued_references@.len() ==> {
                let a = #[trigger] self.enqueued_references@[i];
                a@ != 0 && vm.in_any_space(a) && vm.referent_of(a)@ == 0
            }
    }

    /// The references in the table, and those to be handed over.
    pub open spec fn domain(&self) -> Set<ObjectReference> {
        self.table().union(self.enqueued_references@.to_set())
    }

    /// Whether each reference that has not been cleared is there once.
    pub open spec fn each_once<E: ProcessEdgesWork>(&self, world: E) -> bool {
        &&& once_unless_cleared(world, self.enqueued_references@)
        &&& forall|a: ObjectReference| #[trigger]
            self.enqueued_references@.contains(a) && self.table().contains(a) ==> world.referent(
                a,
            )@ == 0
    }

    /// Whether the references of `after` are those of this processor, each where it is in `world`.
    pub open spec fn forwarded_to<E: ProcessEdgesWork>(
        &self,
        world: E,
        after: ReferenceProcessor,
    ) -> bool {
        &&& after == (ReferenceProcessor {
            references: after.references,
            enqueued_references: after.enqueued_references,
            allow_new_candidate: false,
            ..*self
        })
        &&& forall|r: ObjectReference| #[trigger]
            after.table().contains(r) <==> exists|a: ObjectReference| #[trigger]
                self.table().contains(a) && world.traced()[a] == r
        &&& after.enqueued_references@ == self.enqueued_references@.map_values(
            |a: ObjectReference| world.traced()[a],
        )
    }

    /// Forwards the references in the table, and those to be handed over, and what they refer to.
    /// For a collector that knows where objects go only once it knows which are alive. After this,
    /// no candidate is taken until the end of the collection.
    pub fn forward<E: ProcessEdgesWork>(&mut self, trace: &mut E, _nursery: bool)
        requires
            old(trace).wf(),
            old(self).each_once(*old(trace)),
            forwardable(*old(trace), old(self).domain()),
        ensures
            final(trace).wf(),
            nodes_found(*old(trace), *final(trace)),
            forwarded(*old(trace), old(self).domain(), *final(trace)),
            old(self).forwarded_to(*final(trace), *final(self)),
    {
        let ghost before = *trace;
        let ghost table = self.table();
        let ghost waiting = self.enqueued_references@.to_set();
        let refs = references_in(&self.references);
        assert(refs@.to_set() =~= table);
        proof {
            assert forall|a: ObjectReference| #[trigger] table.contains(a) implies is_reference(
                before,
                a,
            ) by {
                assert(self.domain().contains(a));
            }
            assert forall|a: ObjectReference| #[trigger] waiting.contains(a) implies is_reference(
                before,
                a,
            ) && (table.contains(a) ==> before.referent(a)@ == 0) by {
                assert(self.domain().contains(a));
                assert(self.enqueued_references@.contains(a));
            }
        }
        let new_refs = forward_all(trace, &refs);
        let ghost middle = *trace;
        proof {
            lemma_still_forwardable(before, table, middle, waiting);
            assert forall|i: int, j: int|
                #![trigger self.enqueued_references@[i], self.enqueued_references@[j]]
                0 <= i < j < self.enqueued_references@.len() && self.enqueued_references@[i]
                    == self.enqueued_references@[j] implies middle.referent(
                self.enqueued_references@[i],
            )@ == 0 by {
                let a = self.enqueued_references@[i];
                assert(waiting.contains(a));
                assert(is_reference(before, a));
                if table.contains(a) {
                    assert(forwarded_reference(before, a, middle));
                }
            }
        }
        let new_enqueued = forward_all(trace, &self.enqueued_references);
        proof {
            lemma_forwarded_further(before, table, middle, waiting, *trace);
            lemma_found_further(before, middle, *trace);
            assert(table.union(waiting) == old(self).domain());
        }
        let mut new_set: HashSet<usize> = HashSet::new();
        let mut i: usize = 0;
        while i < new_refs.len()
            invariant
                i <= new_refs@.len(),
                forall|r: ObjectReference|
                    new_set@.contains(#[trigger] r.0) <==> exists|j: int|
                        0 <= j < i && #[trigger] new_refs@[j] == r,
            decreases new_refs@.len() - i,
        {
            let _ = new_set.insert(new_refs[i].0);
            i += 1;
        }
        self.references = new_set;
        self.enqueued_references = new_enqueued;
        self.disallow_new_candidate();
        proof {
            assert forall|r: ObjectReference| #[trigger]
                self.table().contains(r) <==> exists|a: ObjectReference| #[trigger]
                    table.contains(a) && trace.traced()[a] == r by {
                assert(self.references@.contains(r.0) == self.table().contains(r));
                if self.table().contains(r) {
                    let j = choose|j: int| 0 <= j < new_refs@.len() && #[trigger] new_refs@[j] == r;
                    assert(refs@.to_set().contains(refs@[j]));
                    assert(forwarded_reference(before, refs@[j], middle));
                    assert(table.contains(refs@[j]) && trace.traced()[refs@[j]] == r);
                }
                if exists|a: ObjectReference| #[trigger]
                    table.contains(a) && trace.traced()[a] == r {
                    let a = choose|a: ObjectReference| #[trigger]
                        table.contains(a) && trace.traced()[a] == r;
                    assert(refs@.to_set().contains(a));
                    let j = choose|j: int| 0 <= j < refs@.len() && refs@[j] == a;
                    assert(forwarded_reference(before, a, middle));
                    assert(new_refs@[j] == r);
                }
            }
        }
    }

    /// Forwards one reference and what it refers to. Returns where the reference is now.
    pub fn forward_single_reference<E: ProcessEdgesWork>(
        trace: &mut E,
        reference: ObjectReference,
    ) -> (new_reference: ObjectReference)
        requires
            old(trace).wf(),
            is_reference(*old(trace), reference),
        ensures
            final(trace).wf(),
            new_reference@ != 0,
            new_reference == final(trace).traced()[reference],
            forwarded(*old(trace), set![reference], *final(trace)),
            nodes_found(*old(trace), *final(trace)),
    {
        let ghost before = *trace;
        let old_referent = trace.get_referent(reference);
        let new_referent = Self::get_forwarded_referent(trace, old_referent);
        let ghost first = *trace;
        trace.set_referent(reference, new_referent);
        let ghost second = *trace;
        let new_reference = Self::get_forwarded_reference(trace, reference);
        proof {
            lemma_found_same(first, second);
            lemma_found_further(before, first, second);
            lemma_found_further(before, second, *trace);
        }
        assert(forwarded_reference(before, reference, *trace));
        assert forall|x: ObjectReference| #[trigger] newly_traced(
            before,
            *trace,
            x,
        ) implies concerned(before, set![reference], x) by {
            assert(set![reference].contains(reference));
        }
        new_reference
    }

    /// Keeps alive what the references in the table refer to, as far as these are known to be
    /// alive. Only for soft references. The references are not updated: `scan` does that.
    pub fn retain<E: ProcessEdgesWork>(&self, trace: &mut E, _nursery: bool)
        requires
            self.semantics == Semantics::SOFT,
            old(trace).wf(),
            scannable(*old(trace), self.table()),
        ensures
            final(trace).wf(),
            nodes_found(*old(trace), *final(trace)),
            retained(*old(trace), self.table(), *final(trace)),
            scannable(*final(trace), self.table()),
    {
        let ghost before = *trace;
        let ghost table = self.table();
        let refs = references_in(&self.references);
        assert(refs@.to_set() =~= table);
        let mut i: usize = 0;
        proof {
            lemma_found_same(before, *trace);
        }
        while i < refs.len()
            invariant
                i <= refs@.len(),
                refs@.to_set() == table,
                trace.wf(),
                nodes_found(before, *trace),
                scannable(before, table),
                grown(before, *trace),
                forall|j: int|
                    0 <= j < i && before.live(#[trigger] refs@[j]) && before.referent(refs@[j])@
                        != 0 ==> trace.traced().contains_key(before.referent(refs@[j]))
                        && trace.live(before.referent(refs@[j])),
                forall|x: ObjectReference| #[trigger]
                    newly_traced(before, *trace, x) ==> held_by(before, table, *trace, x),
                forall|x: ObjectReference|
                    before.is_object(x) && !before.live(x) && #[trigger] trace.live(x) ==> held_by(
                        before,
                        table,
                        *trace,
                        x,
                    ),
                forall|x: ObjectReference|
                    before.is_object(x) ==> #[trigger] trace.referent(x) == before.referent(x),
            decreases refs@.len() - i,
        {
            let ghost middle = *trace;
            let a = refs[i];
            proof {
                assert(table.contains(a));
                assert(is_reference(before, a));
                assert(middle.is_object(a));
            }
            Self::retain_single_reference(trace, a);
            proof {
                lemma_found_further(before, middle, *trace);
                let referent = before.referent(a);
                if middle.live(a) && referent@ != 0 {
                    lemma_grown_further(before, middle, *trace);
                    assert(held_by(before, table, *trace, referent)) by {
                        assert(trace.live(a));
                    }
                    assert forall|x: ObjectReference|
                        before.is_object(x) && !before.live(x) && #[trigger] trace.live(
                            x,
                        ) implies held_by(before, table, *trace, x) by {
                        if x != referent {
                            assert(middle.is_object(x));
                            assert(held_by(before, table, middle, x));
                            let b = choose|b: ObjectReference| #[trigger]
                                table.contains(b) && middle.live(b) && before.referent(b) == x;
                            assert(trace.live(b));
                        }
                    }
                    assert forall|x: ObjectReference| #[trigger] newly_traced(
                        before,
                        *trace,
                        x,
                    ) implies held_by(before, table, *trace, x) by {
                        if x != referent {
                            assert(newly_traced(before, middle, x));
                            assert(held_by(before, table, middle, x));
                            let b = choose|b: ObjectReference| #[trigger]
                                table.contains(b) && middle.live(b) && before.referent(b) == x;
                            assert(trace.live(b));
                        }
                    }
                    assert forall|x: ObjectReference| before.is_object(x) implies #[trigger]
                        trace.referent(x) == before.referent(x) by {
                        assert(middle.is_object(x));
                    }
                    assert forall|j: int|
                        0 <= j < i + 1 && before.live(#[trigger] refs@[j]) && before.referent(
                            refs@[j],
                        )@ != 0 implies trace.traced().contains_key(before.referent(refs@[j]))
                        && trace.live(before.referent(refs@[j])) by {
                        if j < i {
                            assert(middle.live(before.referent(refs@[j])));
                        }
                    }
                } else {
                    assert(!before.live(a) || referent@ == 0);
                }
            }
            i += 1;
        }
        proof {
            lemma_grown_moved_apart(before, *trace, table);
            assert forall|a: ObjectReference| #[trigger] table.contains(a) implies is_reference(
                *trace,
                a,
            ) && (before.live(a) && before.referent(a)@ != 0 ==> trace.traced().contains_key(
                before.referent(a),
            ) && trace.live(before.referent(a))) by {
                assert(is_reference(before, a));
                assert(refs@.to_set().contains(a));
                let j = choose|j: int| 0 <= j < refs@.len() && refs@[j] == a;
                assert(refs@[j] == a);
            }
        }
    }

    /// Keeps alive what `reference` refers to, if the reference is known to be alive. Where it is
    /// not, it may still become alive, and nothing is decided yet.
    pub fn retain_single_reference<E: ProcessEdgesWork>(trace: &mut E, reference: ObjectReference)
        requires
            old(trace).wf(),
            old(trace).copies(),
            is_reference(*old(trace), reference),
        ensures
            final(trace).wf(),
            nodes_found(*old(trace), *final(trace)),
            retained_one(*old(trace), reference, *final(trace)),
    {
        let ghost before = *trace;
        proof {
            lemma_found_same(before, before);
        }
        if !trace.is_live(reference) {
            return ;
        }
        let referent = trace.get_referent(reference);
        if !referent.is_null() {
            let _r = Self::keep_referent_alive(trace, referent);
            proof {
                lemma_traced_grown(before, referent, *trace, _r);
            }
        }
    }

    /// How many references a part has where `len` references are cut up for `n_threads` workers.
    pub fn refs_per_work_packet(len: usize, n_threads: usize) -> (size: usize)
        requires
            len > 0,
            4096 * n_threads <= usize::MAX,
        ensures
            size == part_size(len as int, n_threads as int),
            size > 0,
    {
        if Self::MAX_REFERENCES_PER_WORK_PACKET * n_threads < len {
            Self::MAX_REFERENCES_PER_WORK_PACKET
        } else {
            quotient_up(len as u64, n_threads as u64) as usize
        }
    }

    /// Cuts the table into parts for the workers: parts of the greatest size allowed if there are
    /// too many references for one part of that size per worker, and otherwise about one part per
    /// worker, as even as can be. With `drain`, the table is left empty.
    pub fn split_ref_table(&mut self, n_threads: usize, drain: bool) -> (parts: Vec<
        Vec<ObjectReference>,
    >)
        requires
            4096 * n_threads <= usize::MAX,
        ensures
            *final(self) == (ReferenceProcessor {
                references: final(self).references,
                ..*old(self)
            }),
            final(self).table() == (if drain {
                Set::<ObjectReference>::empty()
            } else {
                old(self).table()
            }),
            exists|refs: Seq<ObjectReference>|
                {
                    &&& refs.no_duplicates()
                    &&& refs.to_set() == old(self).table()
                    &&& #[trigger] cut_into(
                        refs,
                        part_size(refs.len() as int, n_threads as int),
                        parts@,
                    )
                },
    {
        let refs = references_in(&self.references);
        assert(refs@.to_set() =~= self.table());
        if drain {
            self.references = HashSet::new();
            assert(self.table() =~= Set::<ObjectReference>::empty());
        }
        if refs.len() == 0 {
            let parts: Vec<Vec<ObjectReference>> = Vec::new();
            assert(cut_into(refs@, part_size(0, n_threads as int), parts@));
            return parts;
        }
        let size: usize = Self::refs_per_work_packet(refs.len(), n_threads);
        let parts = chunks(&refs, size);
        assert(cut_into(refs@, part_size(refs@.len() as int, n_threads as int), parts@));
        parts
    }
}

/// Cuts `refs` into parts of `size` references.
fn chunks(refs: &Vec<ObjectReference>, size: usize) -> (parts: Vec<Vec<ObjectReference>>)
    requires
        size > 0,
        refs@.len() > 0,
    ensures
        cut_into(refs@, size as int, parts@),
{
    let mut parts: Vec<Vec<ObjectReference>> = Vec::new();
    let n: usize = refs.len();
    let mut start: usize = 0;
    assert(0 * size == 0) by (nonlinear_arith);
    while start < n
        invariant
            size > 0,
            n == refs@.len(),
            n > 0,
            start == part_end(n as int, size as int, parts@.len() - 1),
            parts@.len() > 0 ==> (parts@.len() - 1) * size < n,
            forall|k: int|
                0 <= k < parts@.len() ==> (#[trigger] parts@[k])@ == refs@.subrange(
                    k * size,
                    part_end(n as int, size as int, k),
                ),
        decreases n - start,
    {
        let ghost k = parts@.len() as int;
        let end: usize = if n - start <= size {
            n
        } else {
            start + size
        };
        proof {
            assert((k + 1) * size == k * size + size) by (nonlinear_arith);
            assert(start == k * size);
        }
        let mut part: Vec<ObjectReference> = Vec::new();
        let mut i: usize = start;
        while i < end
            invariant
                start <= i <= end <= refs@.len(),
                part@ == refs@.subrange(start as int, i as int),
            decreases end - i,
        {
            part.push(refs[i]);
            i += 1;
        }
        parts.push(part);
        start = end;
    }
    parts
}

} // verus!
