//! The mathematical model of outer zipping: what the records are, and how
//! pulls from either end move through them.

use vstd::prelude::*;
use crate::producer::{advance, back, front, retreat};

verus! {

/// The larger of two counts.
pub open spec fn longer(m: int, n: int) -> int {
    if m >= n {
        m
    } else {
        n
    }
}

/// The smaller of two counts.
pub open spec fn shorter(m: int, n: int) -> int {
    if m <= n {
        m
    } else {
        n
    }
}

/// The item of `s` at position `i`, absent where `s` has no such position.
pub open spec fn slot<T>(s: Seq<T>, i: int) -> Option<T> {
    if 0 <= i < s.len() {
        Some(s[i])
    } else {
        None
    }
}

/// The record made of two pulls: none where both sides are absent, else the
/// pair of both slots.
pub open spec fn paired<X, Y>(x: Option<X>, y: Option<Y>) -> Option<(Option<X>, Option<Y>)> {
    if x is None && y is None {
        None
    } else {
        Some((x, y))
    }
}

/// The outer zip of `a` and `b`: one record per position of the longer
/// sequence, each side present as far as that side reaches.
pub open spec fn outer_zip<X, Y>(a: Seq<X>, b: Seq<Y>) -> Seq<(Option<X>, Option<Y>)> {
    Seq::new(longer(a.len() as int, b.len() as int) as nat, |i: int| (slot(a, i), slot(b, i)))
}

/// `s` without its first `k` items, or empty where it has fewer.
pub open spec fn skip_upto<T>(s: Seq<T>, k: int) -> Seq<T> {
    s.skip(shorter(k, s.len() as int))
}

/// The first `k` items of `s`, or all of `s` where it has fewer, or none
/// where `k` is negative.
pub open spec fn take_upto<T>(s: Seq<T>, k: int) -> Seq<T> {
    s.take(longer(0, shorter(k, s.len() as int)))
}

/// What one forward pull yields from the two pending sequences `p`.
pub open spec fn head<X, Y>(p: (Seq<X>, Seq<Y>)) -> Option<(Option<X>, Option<Y>)> {
    paired(front(p.0), front(p.1))
}

/// The pending sequences after one forward pull: each side moves on by one
/// position, whether or not the other still has items.
pub open spec fn step<X, Y>(p: (Seq<X>, Seq<Y>)) -> (Seq<X>, Seq<Y>) {
    (advance(p.0), advance(p.1))
}

/// The pending sequences after `k` forward pulls.
pub open spec fn steps<X, Y>(p: (Seq<X>, Seq<Y>), k: nat) -> (Seq<X>, Seq<Y>)
    decreases k,
{
    if k == 0 {
        p
    } else {
        step(steps(p, (k - 1) as nat))
    }
}

/// Both pending sequences cut, from the back, to the length of the shorter.
pub open spec fn aligned<X, Y>(p: (Seq<X>, Seq<Y>)) -> (Seq<X>, Seq<Y>) {
    let k = shorter(p.0.len() as int, p.1.len() as int);
    (p.0.take(k), p.1.take(k))
}

/// What one reverse pull yields from the two pending sequences `p`: the
/// pair of the last items once both sides are aligned.
pub open spec fn back_head<X, Y>(p: (Seq<X>, Seq<Y>)) -> Option<(Option<X>, Option<Y>)> {
    paired(back(aligned(p).0), back(aligned(p).1))
}

/// The pending sequences after one reverse pull: aligned, then each side
/// shortened by its last item.
pub open spec fn back_step<X, Y>(p: (Seq<X>, Seq<Y>)) -> (Seq<X>, Seq<Y>) {
    (retreat(aligned(p).0), retreat(aligned(p).1))
}

/// The pending sequences after `k` reverse pulls.
pub open spec fn back_steps<X, Y>(p: (Seq<X>, Seq<Y>), k: nat) -> (Seq<X>, Seq<Y>)
    decreases k,
{
    if k == 0 {
        p
    } else {
        back_step(back_steps(p, (k - 1) as nat))
    }
}

/// The estimate for the zipped sequence, made of the two sides' estimates:
/// the smaller lower bound; the smaller upper bound where both sides have
/// one, the only one where one side has, none where neither has.
pub open spec fn merged_hint(a: (usize, Option<usize>), b: (usize, Option<usize>)) -> (
    usize,
    Option<usize>,
) {
    (
        if a.0 <= b.0 { a.0 } else { b.0 },
        match (a.1, b.1) {
            (Some(x), Some(y)) => Some(if x <= y { x } else { y }),
            (Some(x), None) => Some(x),
            (None, Some(y)) => Some(y),
            (None, None) => None,
        },
    )
}

/// Makes the record of two pulls: `None` where both came back empty.
pub fn pair_up<X, Y>(x: Option<X>, y: Option<Y>) -> (r: Option<(Option<X>, Option<Y>)>)
    ensures
        r == paired(x, y),
{
    match (x, y) {
        (None, None) => None,
        (x, y) => Some((x, y)),
    }
}

/// Combines the two sides' estimates of their remaining counts.
pub fn combine_hints(a: (usize, Option<usize>), b: (usize, Option<usize>)) -> (r: (
    usize,
    Option<usize>,
))
    ensures
        r == merged_hint(a, b),
{
    let (a_lower, a_upper) = a;
    let (b_lower, b_upper) = b;
    let lower: usize = if a_lower <= b_lower { a_lower } else { b_lower };
    let upper: Option<usize> = match (a_upper, b_upper) {
        (Some(x), Some(y)) => Some(if x <= y { x } else { y }),
        (Some(x), None) => Some(x),
        (None, Some(y)) => Some(y),
        (None, None) => None,
    };
    (lower, upper)
}

} // verus!
