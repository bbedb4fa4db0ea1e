//! The outer-zip adaptor itself.

use vstd::prelude::*;
use crate::lemmas::{forward_pulls_skip, skip_is_repeated_pull};
use crate::pairing::{
    back_head, back_step, combine_hints, head, merged_hint, outer_zip, pair_up, shorter,
    skip_upto, slot, step, steps, take_upto,
};
use crate::producer::{advance, hint_is_exact, BackProducer, Producer};

verus! {

/// Pairs the items of two producers until both are drained.
///
/// Each record holds one slot per side; the slot of a side that has run out
/// is `None`. A record with both slots absent is never produced.
#[derive(Clone, Debug)]
#[must_use]
pub struct ZipOption<A, B> {
    a: A,
    b: B,
}

/// Offers outer zipping as a method of a producer.
pub trait GetZipOption<A: Producer> {
    /// The producer that becomes the first side.
    spec fn first_side(self) -> A;

    /// Zips this producer, as the first side, with `other` as the second.
    fn zip_option<B: Producer>(self, other: B) -> (z: ZipOption<A, B>)
        ensures
            z@ == (self.first_side().remaining(), other.remaining()),
            z.first_hint() == self.first_side().hint(),
            z.second_hint() == other.hint(),
    ;
}

impl<P: Producer> GetZipOption<P> for P {
    open spec fn first_side(self) -> P {
        self
    }

    fn zip_option<B: Producer>(self, other: B) -> (z: ZipOption<P, B>) {
        ZipOption::new(self, other)
    }
}

/// Pulls `count` items from the back of `p` and drops them.
fn trim_back<P: BackProducer>(p: &mut P, count: usize)
    ensures
        final(p).remaining() == take_upto(old(p).remaining(), old(p).remaining().len() - count),
{
    let mut done: usize = 0;
    while done < count
        invariant
            done <= count,
            p.remaining() == take_upto(old(p).remaining(), old(p).remaining().len() - done),
        decreases count - done,
    {
        p.next_back();
        done = done + 1;
        assert(p.remaining() =~= take_upto(
            old(p).remaining(),
            old(p).remaining().len() - done,
        ));
    }
    assert(p.remaining() =~= take_upto(old(p).remaining(), old(p).remaining().len() - count));
}

impl<A: Producer, B: Producer> ZipOption<A, B> {
    /// The items still to come from the first and from the second side.
    pub closed spec fn view(&self) -> (Seq<A::Item>, Seq<B::Item>) {
        (self.a.remaining(), self.b.remaining())
    }

    /// The estimate that the first side reports of its remaining count.
    pub closed spec fn first_hint(&self) -> (usize, Option<usize>) {
        self.a.hint()
    }

    /// The estimate that the second side reports of its remaining count.
    pub closed spec fn second_hint(&self) -> (usize, Option<usize>) {
        self.b.hint()
    }

    /// Takes both producers; pulls nothing yet.
    pub fn new(a: A, b: B) -> (z: ZipOption<A, B>)
        ensures
            z@ == (a.remaining(), b.remaining()),
            z.first_hint() == a.hint(),
            z.second_hint() == b.hint(),
    {
        ZipOption { a, b }
    }

    /// Pulls forward `n + 1` times, stopping early once nothing comes, and
    /// hands out the last result: the record `n` positions ahead, or `None`
    /// where the zipped sequence ends before it.
    pub fn super_nth(&mut self, n: usize) -> (r: Option<(Option<A::Item>, Option<B::Item>)>)
        ensures
            r == head(steps(old(self)@, n as nat)),
            final(self)@ == steps(old(self)@, n as nat + 1),
            r == slot(old(self).remaining(), n as int),
            final(self)@ == (skip_upto(old(self)@.0, n + 1), skip_upto(old(self)@.1, n + 1)),
            final(self).remaining() == skip_upto(old(self).remaining(), n + 1),
    {
        let mut left: usize = n;
        proof {
            skip_is_repeated_pull(old(self)@.0, old(self)@.1, n as nat);
            assert(outer_zip(skip_upto(old(self)@.0, n + 1), skip_upto(old(self)@.1, n + 1))
                =~= skip_upto(old(self).remaining(), n + 1));
        }
        loop
            invariant
                left <= n,
                self@ == steps(old(self)@, (n - left) as nat),
                head(steps(old(self)@, n as nat)) == slot(old(self).remaining(), n as int),
                steps(old(self)@, n as nat + 1) == (
                    skip_upto(old(self)@.0, n + 1),
                    skip_upto(old(self)@.1, n + 1),
                ),
                outer_zip(skip_upto(old(self)@.0, n + 1), skip_upto(old(self)@.1, n + 1))
                    == skip_upto(old(self).remaining(), n + 1),
            decreases left,
        {
            let ghost pulled = (n - left) as nat;
            match self.next() {
                Some(x) => {
                    if left == 0 {
                        return Some(x);
                    }
                    left = left - 1;
                },
                None => {
                    proof {
                        forward_pulls_skip(old(self)@.0, old(self)@.1, pulled);
                        forward_pulls_skip(old(self)@.0, old(self)@.1, n as nat);
                        assert(self@.0 =~= skip_upto(old(self)@.0, n + 1));
                        assert(self@.1 =~= skip_upto(old(self)@.1, n + 1));
                    }
                    return None;
                },
            }
        }
    }

    /// Skips `n` records, one forward pull each, and hands out the next
    /// one; `None` where the zipped sequence ends during the skip or right
    /// after it.
    pub fn nth(&mut self, n: usize) -> (r: Option<(Option<A::Item>, Option<B::Item>)>)
        ensures
            r == head(steps(old(self)@, n as nat)),
            final(self)@ == steps(old(self)@, n as nat + 1),
            r == slot(old(self).remaining(), n as int),
            final(self)@ == (skip_upto(old(self)@.0, n + 1), skip_upto(old(self)@.1, n + 1)),
            final(self).remaining() == skip_upto(old(self).remaining(), n + 1),
    {
        self.super_nth(n)
    }

    /// Each side's reported lower bound does not exceed that side's
    /// remaining count.
    pub proof fn sides_lower_bounds_are_sound(&self)
        ensures
            self.first_hint().0 <= self@.0.len(),
            self.second_hint().0 <= self@.1.len(),
    {
        self.a.hint_lower_is_sound();
        self.b.hint_lower_is_sound();
    }

    /// Where both sides report their exact counts, the reported bounds are
    /// both the count of the shorter side.
    pub proof fn hint_of_exact_sides(&self)
        requires
            hint_is_exact(self.first_hint(), self@.0.len()),
            hint_is_exact(self.second_hint(), self@.1.len()),
        ensures
            hint_is_exact(
                self.hint(),
                shorter(self@.0.len() as int, self@.1.len() as int) as nat,
            ),
    {
    }

    /// Where both sides report their exact counts and these are equal, the
    /// reported upper bound is exactly the number of records still to come.
    pub proof fn hint_upper_is_exact(&self)
        requires
            hint_is_exact(self.first_hint(), self@.0.len()),
            hint_is_exact(self.second_hint(), self@.1.len()),
            self@.0.len() == self@.1.len(),
        ensures
            self.hint().1 matches Some(upper) && upper == self.remaining().len(),
    {
    }
}

impl<A: Producer, B: Producer> Producer for ZipOption<A, B> {
    type Item = (Option<A::Item>, Option<B::Item>);

    /// The records still to come from forward pulls: the outer zip of what
    /// both sides still hold.
    open spec fn remaining(&self) -> Seq<(Option<A::Item>, Option<B::Item>)> {
        outer_zip(self@.0, self@.1)
    }

    /// The two sides' estimates, merged.
    open spec fn hint(&self) -> (usize, Option<usize>) {
        merged_hint(self.first_hint(), self.second_hint())
    }

    /// The reported lower bound never exceeds the number of records still
    /// to come.
    proof fn hint_lower_is_sound(&self) {
        self.sides_lower_bounds_are_sound();
    }

    /// Pulls once from each side and pairs what came; `None` once both
    /// sides are drained.
    fn next(&mut self) -> (r: Option<(Option<A::Item>, Option<B::Item>)>)
        ensures
            r == head(old(self)@),
            final(self)@ == step(old(self)@),
            r matches Some(record) ==> record.0 is Some || record.1 is Some,
    {
        let x = self.a.next();
        let y = self.b.next();
        assert(self.remaining() =~= advance(old(self).remaining()));
        pair_up(x, y)
    }

    /// Lower and upper estimate of the number of records still to come.
    fn size_hint(&self) -> (r: (usize, Option<usize>))
        ensures
            r == merged_hint(self.first_hint(), self.second_hint()),
            r.0 <= self.remaining().len(),
    {
        proof {
            self.sides_lower_bounds_are_sound();
        }
        combine_hints(self.a.size_hint(), self.b.size_hint())
    }
}

impl<A: BackProducer, B: BackProducer> ZipOption<A, B> {
    /// Cuts the longer side, from its back, to the length of the shorter,
    /// then pulls once from the back of each side and pairs what came.
    pub fn next_back(&mut self) -> (r: Option<(Option<A::Item>, Option<B::Item>)>)
        ensures
            r == back_head(old(self)@),
            final(self)@ == back_step(old(self)@),
            r == slot(
                old(self).remaining(),
                shorter(old(self)@.0.len() as int, old(self)@.1.len() as int) - 1,
            ),
            final(self).remaining() == take_upto(
                old(self).remaining(),
                shorter(old(self)@.0.len() as int, old(self)@.1.len() as int) - 1,
            ),
            r matches Some(record) ==> record.0 is Some && record.1 is Some,
    {
        let a_sz: usize = self.a.len();
        let b_sz: usize = self.b.len();
        if a_sz != b_sz {
            if a_sz > b_sz {
                trim_back(&mut self.a, a_sz - b_sz);
            } else {
                trim_back(&mut self.b, b_sz - a_sz);
            }
        }
        let ghost common = shorter(a_sz as int, b_sz as int);
        assert(self.a.remaining() =~= old(self).a.remaining().take(common));
        assert(self.b.remaining() =~= old(self).b.remaining().take(common));
        let x = self.a.next_back();
        let y = self.b.next_back();
        assert(self.remaining() =~= take_upto(old(self).remaining(), common - 1));
        pair_up(x, y)
    }
}

} // verus!
