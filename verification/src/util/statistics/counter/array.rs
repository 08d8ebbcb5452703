//! Readings by phase.
use vstd::prelude::*;

verus! {

/// An array of `MAX_PHASES` values. Its view is the sequence of them.
pub struct BoundedArray<T: Copy, const MAX_PHASES: usize> {
    data: Vec<T>,
}

impl<T: Copy, const MAX_PHASES: usize> View for BoundedArray<T, MAX_PHASES> {
    type V = Seq<T>;

    closed spec fn view(&self) -> Seq<T> {
        self.data@
    }
}

impl<T: Copy, const MAX_PHASES: usize> BoundedArray<T, MAX_PHASES> {
    /// There are as many values as the type says.
    pub open spec fn wf(&self) -> bool {
        self@.len() == MAX_PHASES
    }

    /// An array in which every value is `default`.
    pub fn new(default: T) -> (a: Self)
        ensures
            a.wf(),
            a@ == Seq::new(MAX_PHASES as nat, |i: int| default),
    {
        let mut data: Vec<T> = Vec::new();
        let mut i: usize = 0;
        while i < MAX_PHASES
            invariant
                i <= MAX_PHASES,
                data@ == Seq::new(i as nat, |j: int| default),
            decreases MAX_PHASES - i,
        {
            data.push(default);
            i += 1;
        }
        BoundedArray { data }
    }

    /// The value at `index`, if there is one.
    pub fn get(&self, index: usize) -> (v: Option<T>)
        requires
            self.wf(),
        ensures
            v == (if index < MAX_PHASES {
                Some(self@[index as int])
            } else {
                None
            }),
    {
        if index < MAX_PHASES {
            Some(self.data[index])
        } else {
            None
        }
    }

    /// Sets the value at `index`. Says whether there is one.
    pub fn set(&mut self, index: usize, value: T) -> (done: bool)
        requires
            old(self).wf(),
        ensures
            final(self).wf(),
            done == (index < MAX_PHASES),
            final(self)@ == (if index < MAX_PHASES {
                old(self)@.update(index as int, value)
            } else {
                old(self)@
            }),
    {
        if index < MAX_PHASES {
            self.data.set(index, value);
            true
        } else {
            false
        }
    }
}

} // verus!
