//! Putting lists in order.

use crate::search::keys_differ;
use vstd::prelude::*;

verus! {

/// A type with an order in which its lists are shown.
pub trait Ordered: Sized {
    /// Whether `a` stands strictly before `b`.
    spec fn precedes(a: Self, b: Self) -> bool;

    fn goes_before(&self, other: &Self) -> (r: bool)
        ensures
            r == Self::precedes(*self, *other),
    ;
}

/// The first place from `from` on whose element `x` stands before, or the end.
pub open spec fn slot<T: Ordered>(s: Seq<T>, x: T, from: int) -> int
    decreases s.len() - from,
{
    if from < 0 || from >= s.len() {
        s.len() as int
    } else if T::precedes(x, s[from]) {
        from
    } else {
        slot(s, x, from + 1)
    }
}

/// The elements in order; those of which neither stands before the other keep
/// the order they came in.
pub open spec fn arranged<T: Ordered>(s: Seq<T>) -> Seq<T>
    decreases s.len(),
{
    if s.len() == 0 {
        s
    } else {
        let rest = arranged(s.drop_last());
        rest.insert(slot(rest, s.last(), 0), s.last())
    }
}

pub proof fn lemma_slot<T: Ordered>(s: Seq<T>, x: T, from: int)
    requires
        0 <= from <= s.len(),
    ensures
        from <= slot(s, x, from) <= s.len(),
        forall|i: int| from <= i < slot(s, x, from) ==> !T::precedes(x, #[trigger] s[i]),
        slot(s, x, from) < s.len() ==> T::precedes(x, s[slot(s, x, from)]),
    decreases s.len() - from,
{
    if from < s.len() && !T::precedes(x, s[from]) {
        lemma_slot(s, x, from + 1);
    }
}

/// Turn a list round.
pub fn backwards<T>(items: Vec<T>) -> (r: Vec<T>)
    ensures
        r@ == items@.reverse(),
{
    let ghost all = items@;
    let mut rest = items;
    let mut out: Vec<T> = Vec::new();
    while rest.len() > 0
        invariant
            rest@.len() + out@.len() == all.len(),
            rest@ == all.take(rest@.len() as int),
            forall|i: int| 0 <= i < out@.len() ==> #[trigger] out@[i] == all[all.len() - 1 - i],
        decreases rest.len(),
    {
        if let Some(x) = rest.pop() {
            out.push(x);
        }
    }
    assert(out@ =~= all.reverse());
    out
}

/// Put a list in order.
pub fn arrange<T: Ordered>(items: Vec<T>) -> (r: Vec<T>)
    ensures
        r@ == arranged(items@),
{
    let ghost all = items@;
    let mut rest = backwards(items);
    let mut out: Vec<T> = Vec::new();
    let ghost mut done: int = 0;
    assert(all.take(0) =~= Seq::<T>::empty());
    while rest.len() > 0
        invariant
            0 <= done,
            done + rest@.len() == all.len(),
            forall|i: int| 0 <= i < rest@.len() ==> #[trigger] rest@[i] == all[all.len() - 1 - i],
            out@ == arranged(all.take(done)),
        decreases rest.len(),
    {
        if let Some(x) = rest.pop() {
            proof {
                assert(x == all[done]);
                assert(all.take(done + 1).drop_last() =~= all.take(done));
                assert(all.take(done + 1).last() == x);
                lemma_slot(out@, x, 0);
            }
            let mut k: usize = 0;
            while k < out.len() && !x.goes_before(&out[k])
                invariant
                    k <= out.len(),
                    slot(out@, x, 0) == slot(out@, x, k as int),
                decreases out.len() - k,
            {
                k = k + 1;
            }
            out.insert(k, x);
            proof {
                done = done + 1;
            }
        }
    }
    assert(all.take(done) =~= all);
    out
}

/// Putting a list in order neither drops nor adds an element.
pub proof fn arranging_keeps_the_elements<T: Ordered>(s: Seq<T>)
    ensures
        arranged(s).len() == s.len(),
        arranged(s).to_multiset() == s.to_multiset(),
    decreases s.len(),
{
    broadcast use vstd::seq_lib::group_to_multiset_ensures;

    if s.len() > 0 {
        arranging_keeps_the_elements(s.drop_last());
        let rest = arranged(s.drop_last());
        let x = s.last();
        lemma_slot(rest, x, 0);
        assert(s.drop_last().push(x) =~= s);
    }
}

/// A list in order holds what the list held.
pub proof fn lemma_arranged_members<T: Ordered>(s: Seq<T>)
    ensures
        forall|x: T| #[trigger] arranged(s).contains(x) <==> s.contains(x),
{
    broadcast use vstd::seq_lib::group_to_multiset_ensures;

    arranging_keeps_the_elements(s);
    assert forall|x: T| #[trigger] arranged(s).contains(x) <==> s.contains(x) by {
        assert(arranged(s).contains(x) <==> arranged(s).to_multiset().count(x) > 0);
        assert(s.contains(x) <==> s.to_multiset().count(x) > 0);
    }
}

/// Keys that differ still do when the list is put in order.
pub proof fn lemma_arranged_keys<T: Ordered, K>(s: Seq<T>, key: spec_fn(T) -> K)
    requires
        keys_differ(s, key),
    ensures
        keys_differ(arranged(s), key),
    decreases s.len(),
{
    if s.len() > 0 {
        let head = s.drop_last();
        assert forall|i: int, j: int| 0 <= i < j < head.len() implies key(#[trigger] head[i]) != key(
            #[trigger] head[j],
        ) by {
            assert(key(s[i]) != key(s[j]));
        }
        lemma_arranged_keys(head, key);
        lemma_arranged_members(head);
        let rest = arranged(head);
        let x = s.last();
        lemma_slot(rest, x, 0);
        let k = slot(rest, x, 0);
        let all = rest.insert(k, x);
        assert forall|i: int| 0 <= i < rest.len() implies key(#[trigger] rest[i]) != key(x) by {
            assert(rest.contains(rest[i]));
            assert(head.contains(rest[i]));
            let j = choose|j: int| 0 <= j < head.len() && head[j] == rest[i];
            assert(key(s[j]) != key(s[s.len() - 1]));
        }
        assert forall|i: int, j: int| 0 <= i < j < all.len() implies key(#[trigger] all[i]) != key(
            #[trigger] all[j],
        ) by {
            if i != k && j != k {
                let a = if i < k { i } else { i - 1 };
                let b = if j < k { j } else { j - 1 };
                assert(key(rest[a]) != key(rest[b]));
            } else if i == k {
                assert(all[j] == rest[j - 1]);
            } else {
                assert(all[i] == rest[i]);
            }
        }
    }
}

/// Whether `precedes` is an order in which elements can be ranked: nothing
/// stands before itself, and what is not overtaken is not overtaken by what it
/// is not behind.
pub open spec fn ranks<T: Ordered>() -> bool {
    &&& forall|a: T, b: T| #[trigger] T::precedes(a, b) ==> !T::precedes(b, a)
    &&& forall|a: T, b: T, c: T|
        #![trigger T::precedes(b, a), T::precedes(c, b)]
        !T::precedes(b, a) && !T::precedes(c, b) ==> !T::precedes(c, a)
}

/// In an arranged list no element stands before one that comes earlier.
pub proof fn arranging_sorts<T: Ordered>(s: Seq<T>)
    requires
        ranks::<T>(),
    ensures
        forall|i: int, j: int|
            0 <= i < j < arranged(s).len() ==> !T::precedes(
                #[trigger] arranged(s)[j],
                #[trigger] arranged(s)[i],
            ),
    decreases s.len(),
{
    if s.len() > 0 {
        arranging_sorts(s.drop_last());
        let rest = arranged(s.drop_last());
        let x = s.last();
        lemma_slot(rest, x, 0);
        let k = slot(rest, x, 0);
        let all = rest.insert(k, x);
        assert forall|i: int, j: int| 0 <= i < j < all.len() implies !T::precedes(
            #[trigger] all[j],
            #[trigger] all[i],
        ) by {
            if j == k {
                assert(all[i] == rest[i]);
            } else if i == k {
                assert(all[j] == rest[j - 1]);
                assert(T::precedes(x, rest[k]));
                assert(!T::precedes(rest[k], x));
                if j - 1 > k {
                    assert(!T::precedes(rest[j - 1], rest[k]));
                }
            } else {
                let a = if i < k { i } else { i - 1 };
                let b = if j < k { j } else { j - 1 };
                assert(all[i] == rest[a]);
                assert(all[j] == rest[b]);
            }
        }
    }
}

} // verus!
