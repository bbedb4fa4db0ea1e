//! The capabilities a sequence producer offers, with their contracts.

use vstd::prelude::*;

verus! {

/// What is left of `s` after one pull from the front: the tail, or `s`
/// itself where it is already empty.
pub open spec fn advance<T>(s: Seq<T>) -> Seq<T> {
    if s.len() > 0 {
        s.drop_first()
    } else {
        s
    }
}

/// What is left of `s` after one pull from the back.
pub open spec fn retreat<T>(s: Seq<T>) -> Seq<T> {
    if s.len() > 0 {
        s.drop_last()
    } else {
        s
    }
}

/// What a pull from the front of `s` hands out.
pub open spec fn front<T>(s: Seq<T>) -> Option<T> {
    if s.len() > 0 {
        Some(s[0])
    } else {
        None
    }
}

/// What a pull from the back of `s` hands out.
pub open spec fn back<T>(s: Seq<T>) -> Option<T> {
    if s.len() > 0 {
        Some(s[s.len() - 1])
    } else {
        None
    }
}

/// Whether the estimate `h` is exact for the count `len`: both bounds are
/// present and equal to `len`.
pub open spec fn hint_is_exact(h: (usize, Option<usize>), len: nat) -> bool {
    &&& h.0 == len
    &&& h.1 == Some(h.0)
}

/// A lazy, finite source of items that is pulled from the front.
pub trait Producer {
    type Item;

    /// The items still to come, in the order in which `next` hands them out.
    spec fn remaining(&self) -> Seq<Self::Item>;

    /// The estimate of the remaining count that `size_hint` reports.
    spec fn hint(&self) -> (usize, Option<usize>);

    /// The reported lower bound never exceeds the true remaining count.
    /// Nothing is asked of the upper bound: it is advisory.
    proof fn hint_lower_is_sound(&self)
        ensures
            self.hint().0 <= self.remaining().len(),
    ;

    /// Pulls the first remaining item; `None` once drained, and from then
    /// on always `None`.
    fn next(&mut self) -> (r: Option<Self::Item>)
        ensures
            r == front(old(self).remaining()),
            final(self).remaining() == advance(old(self).remaining()),
    ;

    /// Lower and upper estimate of the remaining count; an absent upper
    /// bound means that none is known.
    fn size_hint(&self) -> (r: (usize, Option<usize>))
        ensures
            r == self.hint(),
    ;
}

/// A producer that can also be pulled from the back and knows exactly how
/// many items it still holds.
pub trait BackProducer: Producer {
    /// Pulls the last remaining item; `None` once drained.
    fn next_back(&mut self) -> (r: Option<Self::Item>)
        ensures
            r == back(old(self).remaining()),
            final(self).remaining() == retreat(old(self).remaining()),
    ;

    /// The exact remaining count.
    fn len(&self) -> (n: usize)
        ensures
            n == self.remaining().len(),
    ;
}

} // verus!
