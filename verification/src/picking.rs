//! Picking from sequences: the items for which something can be read, in order.

use vstd::prelude::*;

verus! {

/// What `pick` reads from the items of `s`, in order, without the items it reads nothing from.
pub open spec fn picked<A, B>(s: Seq<A>, pick: spec_fn(A) -> Option<B>) -> Seq<B>
    decreases s.len(),
{
    if s.len() == 0 {
        Seq::empty()
    } else {
        match pick(s.last()) {
            Some(b) => picked(s.drop_last(), pick).push(b),
            None => picked(s.drop_last(), pick),
        }
    }
}

/// Reading one more item.
pub proof fn picked_step<A, B>(s: Seq<A>, pick: spec_fn(A) -> Option<B>, i: int)
    requires
        0 <= i < s.len(),
    ensures
        picked(s.take(i + 1), pick) == match pick(s[i]) {
            Some(b) => picked(s.take(i), pick).push(b),
            None => picked(s.take(i), pick),
        },
{
    assert(s.take(i + 1).drop_last() =~= s.take(i));
    assert(s.take(i + 1).last() == s[i]);
}

/// Reading no item and reading all of them.
pub proof fn picked_ends<A, B>(s: Seq<A>, pick: spec_fn(A) -> Option<B>)
    ensures
        picked(s.take(0), pick) == Seq::<B>::empty(),
        picked(s.take(s.len() as int), pick) == picked(s, pick),
{
    assert(s.take(s.len() as int) =~= s);
}

/// Every picked value was read from some item.
pub proof fn picked_from<A, B>(s: Seq<A>, pick: spec_fn(A) -> Option<B>, k: int) -> (i: int)
    requires
        0 <= k < picked(s, pick).len(),
    ensures
        0 <= i < s.len(),
        pick(s[i]) == Some(picked(s, pick)[k]),
    decreases s.len(),
{
    let rest = s.drop_last();
    match pick(s.last()) {
        Some(b) => {
            if k == picked(rest, pick).len() {
                s.len() - 1
            } else {
                picked_from(rest, pick, k)
            }
        },
        None => picked_from(rest, pick, k),
    }
}

/// No more values are picked than there are items.
pub proof fn picked_len<A, B>(s: Seq<A>, pick: spec_fn(A) -> Option<B>)
    ensures
        picked(s, pick).len() <= s.len(),
    decreases s.len(),
{
    if s.len() > 0 {
        picked_len(s.drop_last(), pick);
    }
}

/// The lists that `pick` reads from the items of `s`, one after the other.
pub open spec fn gathered_lists<A, B>(s: Seq<A>, pick: spec_fn(A) -> Seq<B>) -> Seq<B>
    decreases s.len(),
{
    if s.len() == 0 {
        Seq::empty()
    } else {
        gathered_lists(s.drop_last(), pick) + pick(s.last())
    }
}

/// Reading one more list.
pub proof fn gathered_lists_step<A, B>(s: Seq<A>, pick: spec_fn(A) -> Seq<B>, i: int)
    requires
        0 <= i < s.len(),
    ensures
        gathered_lists(s.take(i + 1), pick) == gathered_lists(s.take(i), pick) + pick(s[i]),
{
    assert(s.take(i + 1).drop_last() =~= s.take(i));
    assert(s.take(i + 1).last() == s[i]);
}

/// Reading no list and reading all of them.
pub proof fn gathered_lists_ends<A, B>(s: Seq<A>, pick: spec_fn(A) -> Seq<B>)
    ensures
        gathered_lists(s.take(0), pick) == Seq::<B>::empty(),
        gathered_lists(s.take(s.len() as int), pick) == gathered_lists(s, pick),
{
    assert(s.take(s.len() as int) =~= s);
}

/// The first value that `pick` reads from the items of `s`.
pub open spec fn first_picked<A, B>(s: Seq<A>, pick: spec_fn(A) -> Option<B>) -> Option<B>
    decreases s.len(),
{
    if s.len() == 0 {
        None
    } else {
        match pick(s[0]) {
            Some(b) => Some(b),
            None => first_picked(s.skip(1), pick),
        }
    }
}

/// Looking at one more item.
pub proof fn first_picked_step<A, B>(s: Seq<A>, pick: spec_fn(A) -> Option<B>, i: int)
    requires
        0 <= i < s.len(),
    ensures
        first_picked(s.skip(i), pick) == match pick(s[i]) {
            Some(b) => Some(b),
            None => first_picked(s.skip(i + 1), pick),
        },
{
    assert(s.skip(i).skip(1) =~= s.skip(i + 1));
    assert(s.skip(i)[0] == s[i]);
}

/// Looking at all items and at none.
pub proof fn first_picked_ends<A, B>(s: Seq<A>, pick: spec_fn(A) -> Option<B>)
    ensures
        first_picked(s.skip(0), pick) == first_picked(s, pick),
        first_picked(s.skip(s.len() as int), pick) is None,
{
    assert(s.skip(0) =~= s);
}

/// What is picked from two lists, one behind the other, is what is picked from each.
pub proof fn picked_adds_up<A, B>(a: Seq<A>, b: Seq<A>, pick: spec_fn(A) -> Option<B>)
    ensures
        picked(a + b, pick) == picked(a, pick) + picked(b, pick),
    decreases b.len(),
{
    if b.len() == 0 {
        assert(a + b =~= a);
        assert(picked(a, pick) + picked(b, pick) =~= picked(a, pick));
    } else {
        assert((a + b).drop_last() =~= a + b.drop_last());
        picked_adds_up(a, b.drop_last(), pick);
        if let Some(last) = pick(b.last()) {
            assert((picked(a, pick) + picked(b.drop_last(), pick)).push(last) =~= picked(a, pick) + picked(
                b.drop_last(),
                pick,
            ).push(last));
        }
    }
}

/// What is picked from one more item.
pub proof fn picked_push<A, B>(s: Seq<A>, item: A, pick: spec_fn(A) -> Option<B>)
    ensures
        picked(s.push(item), pick) == match pick(item) {
            Some(b) => picked(s, pick).push(b),
            None => picked(s, pick),
        },
{
    assert(s.push(item).drop_last() =~= s);
}

} // verus!
