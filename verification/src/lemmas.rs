//! What holds of outer zipping for all sequences: how many records there
//! are, what each holds, and how pulls from either end walk through them.

use vstd::prelude::*;
use crate::pairing::{
    aligned, back_head, back_steps, head, longer, outer_zip, shorter, skip_upto, slot, steps,
    take_upto,
};

verus! {

/// After `k` forward pulls each side has lost its first `k` items, or all of
/// them where it had fewer.
pub proof fn forward_pulls_skip<X, Y>(a: Seq<X>, b: Seq<Y>, k: nat)
    ensures
        steps((a, b), k) == (skip_upto(a, k as int), skip_upto(b, k as int)),
    decreases k,
{
    if k == 0 {
        assert(skip_upto(a, 0) =~= a);
        assert(skip_upto(b, 0) =~= b);
    } else {
        forward_pulls_skip(a, b, (k - 1) as nat);
        let q = steps((a, b), (k - 1) as nat);
        assert(crate::producer::advance(q.0) =~= skip_upto(a, k as int));
        assert(crate::producer::advance(q.1) =~= skip_upto(b, k as int));
    }
}

/// Skipping `n` records and taking the next is the same as pulling `n + 1`
/// times and keeping the last result: the record at position `n`, or none
/// where the zipped sequence ends before it; and both leave the same items
/// pending.
pub proof fn skip_is_repeated_pull<X, Y>(a: Seq<X>, b: Seq<Y>, n: nat)
    ensures
        head(steps((a, b), n)) == slot(outer_zip(a, b), n as int),
        steps((a, b), n + 1) == (skip_upto(a, n as int + 1), skip_upto(b, n as int + 1)),
{
    forward_pulls_skip(a, b, n);
    forward_pulls_skip(a, b, n + 1);
}

/// Pulling forward until nothing comes yields exactly as many records as
/// the longer side has items: the pull at position `k` yields a record if
/// and only if `k` is below that count.
pub proof fn coverage<X, Y>(a: Seq<X>, b: Seq<Y>, k: nat)
    ensures
        outer_zip(a, b).len() == longer(a.len() as int, b.len() as int),
        head(steps((a, b), k)) is Some <==> k < longer(a.len() as int, b.len() as int),
{
    skip_is_repeated_pull(a, b, k);
}

/// The record at position `i` holds the item of each side at `i` where that
/// side reaches so far, and nothing in that slot where it does not; it is
/// the record that the forward pull at position `i` yields.
pub proof fn pairing_correct<X, Y>(a: Seq<X>, b: Seq<Y>, i: nat)
    requires
        i < longer(a.len() as int, b.len() as int),
    ensures
        outer_zip(a, b)[i as int].0 == (if i < a.len() {
            Some(a[i as int])
        } else {
            None
        }),
        outer_zip(a, b)[i as int].1 == (if i < b.len() {
            Some(b[i as int])
        } else {
            None
        }),
        head(steps((a, b), i)) == Some(outer_zip(a, b)[i as int]),
{
    skip_is_repeated_pull(a, b, i);
}

/// No record has both slots absent.
pub proof fn no_double_absence<X, Y>(a: Seq<X>, b: Seq<Y>, i: nat)
    requires
        i < outer_zip(a, b).len(),
    ensures
        outer_zip(a, b)[i as int].0 is Some || outer_zip(a, b)[i as int].1 is Some,
{
}

/// After `k` reverse pulls, what is left once both sides are aligned is the
/// common prefix of both, shortened by `k` items.
pub proof fn reverse_pulls_take<X, Y>(a: Seq<X>, b: Seq<Y>, k: nat)
    ensures
        aligned(back_steps((a, b), k)) == (
            take_upto(a, shorter(a.len() as int, b.len() as int) - k),
            take_upto(b, shorter(a.len() as int, b.len() as int) - k),
        ),
    decreases k,
{
    let common = shorter(a.len() as int, b.len() as int);
    if k == 0 {
        assert(aligned((a, b)).0 =~= take_upto(a, common));
        assert(aligned((a, b)).1 =~= take_upto(b, common));
    } else {
        reverse_pulls_take(a, b, (k - 1) as nat);
        let q = back_steps((a, b), (k - 1) as nat);
        let r = back_steps((a, b), k);
        assert(r.0 =~= take_upto(a, common - k));
        assert(r.1 =~= take_upto(b, common - k));
        assert(aligned(r).0 =~= r.0);
        assert(aligned(r).1 =~= r.1);
    }
}

/// Repeated reverse pulls yield, in reverse, the records of the positions
/// that both sides reach: the forward records of the common prefix. Items
/// of the longer side beyond it are dropped and appear in no record.
pub proof fn reverse_mirrors_common_prefix<X, Y>(a: Seq<X>, b: Seq<Y>, k: nat)
    ensures
        back_head(back_steps((a, b), k)) == slot(
            outer_zip(a, b).take(shorter(a.len() as int, b.len() as int)).reverse(),
            k as int,
        ),
{
    reverse_pulls_take(a, b, k);
}

/// For two sides of equal length, repeated reverse pulls yield the forward
/// sequence reversed: the reverse pull at position `k` yields the record at
/// position `k` of the reversed outer zip, and none beyond its end.
pub proof fn reverse_mirrors_forward<X, Y>(a: Seq<X>, b: Seq<Y>, k: nat)
    requires
        a.len() == b.len(),
    ensures
        back_head(back_steps((a, b), k)) == slot(outer_zip(a, b).reverse(), k as int),
{
    reverse_mirrors_common_prefix(a, b, k);
    assert(outer_zip(a, b).take(a.len() as int) =~= outer_zip(a, b));
}

} // verus!
