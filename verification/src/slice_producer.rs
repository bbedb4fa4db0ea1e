//! A producer over a borrowed slice.

use vstd::prelude::*;
use crate::producer::{advance, hint_is_exact, retreat, BackProducer, Producer};

verus! {

/// Hands out references to the items of a slice, from either end.
#[derive(Debug)]
pub struct SliceProducer<'a, T> {
    items: &'a [T],
    lo: usize,
    hi: usize,
}

impl<'a, T> SliceProducer<'a, T> {
    /// The window `lo..hi` lies inside the slice.
    #[verifier::type_invariant]
    pub closed spec fn wf(&self) -> bool {
        self.lo <= self.hi <= self.items@.len()
    }

    /// A producer over all of `items`.
    pub fn new(items: &'a [T]) -> (p: Self)
        ensures
            p.remaining().len() == items@.len(),
            forall|i: int| 0 <= i < items@.len() ==> *(#[trigger] p.remaining()[i]) == items@[i],
            hint_is_exact(p.hint(), items@.len()),
    {
        SliceProducer { items, lo: 0, hi: items.len() }
    }

    /// The estimate that a slice producer reports is always exact.
    pub proof fn reports_exact_count(&self)
        ensures
            hint_is_exact(self.hint(), self.remaining().len()),
    {
    }
}

impl<'a, T> Clone for SliceProducer<'a, T> {
    /// A second producer over the same pending items.
    fn clone(&self) -> (p: Self)
        ensures
            p.remaining() == self.remaining(),
    {
        proof {
            use_type_invariant(self);
        }
        SliceProducer { items: self.items, lo: self.lo, hi: self.hi }
    }
}

impl<'a, T> Producer for SliceProducer<'a, T> {
    type Item = &'a T;

    /// The items of the window, front to back.
    closed spec fn remaining(&self) -> Seq<&'a T> {
        Seq::new(
            if self.lo <= self.hi { (self.hi - self.lo) as nat } else { 0 },
            |i: int| &self.items@[self.lo + i],
        )
    }

    open spec fn hint(&self) -> (usize, Option<usize>) {
        (self.remaining().len() as usize, Some(self.remaining().len() as usize))
    }

    proof fn hint_lower_is_sound(&self) {
    }

    fn next(&mut self) -> (r: Option<&'a T>) {
        proof {
            use_type_invariant(&*self);
        }
        if self.lo < self.hi {
            let i: usize = self.lo;
            self.lo = i + 1;
            assert(self.remaining() =~= advance(old(self).remaining()));
            Some(&self.items[i])
        } else {
            None
        }
    }

    fn size_hint(&self) -> (r: (usize, Option<usize>)) {
        proof {
            use_type_invariant(self);
        }
        let n: usize = self.hi - self.lo;
        (n, Some(n))
    }
}

impl<'a, T> BackProducer for SliceProducer<'a, T> {
    fn next_back(&mut self) -> (r: Option<&'a T>) {
        proof {
            use_type_invariant(&*self);
        }
        if self.lo < self.hi {
            let j: usize = self.hi - 1;
            self.hi = j;
            assert(self.remaining() =~= retreat(old(self).remaining()));
            Some(&self.items[j])
        } else {
            None
        }
    }

    fn len(&self) -> (n: usize) {
        proof {
            use_type_invariant(self);
        }
        self.hi - self.lo
    }
}

} // verus!
