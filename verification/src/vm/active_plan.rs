//! The mutators of a virtual machine.
use std::marker::PhantomData;
use vstd::prelude::*;

verus! {

/// What a virtual machine says of its threads. A mutator is known by its thread.
pub trait ActivePlan: Sized {
    /// The threads of the mutators, in the order in which they are gone through.
    spec fn threads(&self) -> Seq<usize>;

    /// How many mutators have been handed out since the iterator was reset.
    spec fn position(&self) -> nat;

    /// Whether the thread `tls` has a mutator.
    fn is_mutator(&self, tls: usize) -> (b: bool)
        ensures
            b == self.threads().contains(tls),
    ;

    /// Makes the first mutator the next.
    fn reset_mutator_iterator(&mut self)
        ensures
            final(self).threads() == old(self).threads(),
            final(self).position() == 0,
    ;

    /// The next mutator, if there is one.
    fn get_next_mutator(&mut self) -> (m: Option<usize>)
        ensures
            final(self).threads() == old(self).threads(),
            m == (if old(self).position() < old(self).threads().len() {
                Some(old(self).threads()[old(self).position() as int])
            } else {
                None
            }),
            final(self).position() == (if old(self).position() < old(self).threads().len() {
                old(self).position() + 1
            } else {
                old(self).position()
            }),
    ;

    fn number_of_mutators(&self) -> (n: usize)
        ensures
            n == self.threads().len(),
    ;

    /// An iterator over the mutators, from the first one on.
    fn mutators(&self) -> (it: SynchronizedMutatorIterator<Self>)
        ensures
            it.start,
    {
        SynchronizedMutatorIterator { start: true, phantom: PhantomData }
    }
}

/// Goes through the mutators.
pub struct SynchronizedMutatorIterator<A> {
    /// Nothing has been asked for yet.
    pub start: bool,
    pub phantom: PhantomData<A>,
}

impl<A: ActivePlan> SynchronizedMutatorIterator<A> {
    /// The place that the iterator has come to in `plan`.
    pub open spec fn place(&self, plan: A) -> nat {
        if self.start {
            0
        } else {
            plan.position()
        }
    }

    /// The next mutator, if there is one: the first time, the first.
    pub fn next(&mut self, plan: &mut A) -> (m: Option<usize>)
        ensures
            !final(self).start,
            final(plan).threads() == old(plan).threads(),
            m == (if old(self).place(*old(plan)) < old(plan).threads().len() {
                Some(old(plan).threads()[old(self).place(*old(plan)) as int])
            } else {
                None
            }),
            final(self).place(*final(plan)) == (if old(self).place(*old(plan))
                < old(plan).threads().len() {
                old(self).place(*old(plan)) + 1
            } else {
                old(self).place(*old(plan))
            }),
    {
        if self.start {
            self.start = false;
            plan.reset_mutator_iterator();
        }
        plan.get_next_mutator()
    }

    /// All mutators, each once and in order. The iterator must be a new one.
    pub fn collect(&mut self, plan: &mut A) -> (all: Vec<usize>)
        requires
            old(self).start,
        ensures
            final(plan).threads() == old(plan).threads(),
            all@ == old(plan).threads(),
    {
        let ghost threads = plan.threads();
        let mut all: Vec<usize> = Vec::new();
        loop
            invariant_except_break
                plan.threads() == threads,
                self.place(*plan) <= threads.len(),
                all@ == threads.take(self.place(*plan) as int),
            ensures
                plan.threads() == threads,
                all@ == threads,
            decreases threads.len() + 1 - self.place(*plan),
        {
            let ghost at = self.place(*plan) as int;
            match self.next(plan) {
                Some(m) => {
                    all.push(m);
                    assert(threads.take(at + 1) =~= threads.take(at).push(m));
                },
                None => {
                    assert(threads.take(at) =~= threads);
                    break ;
                },
            }
        }
        all
    }
}

} // verus!
