//! Looking things up in lists.

use vstd::prelude::*;

verus! {

/// The first place at or after `from` whose element satisfies `p`.
pub open spec fn first_from<T>(s: Seq<T>, p: spec_fn(T) -> bool, from: int) -> Option<int>
    decreases s.len() - from,
{
    if from < 0 || from >= s.len() {
        None
    } else if p(s[from]) {
        Some(from)
    } else {
        first_from(s, p, from + 1)
    }
}

/// The first element that satisfies `p`.
pub open spec fn first_where<T>(s: Seq<T>, p: spec_fn(T) -> bool) -> Option<T> {
    match first_from(s, p, 0) {
        Some(i) => Some(s[i]),
        None => None,
    }
}

/// Those of the first `n` elements that satisfy `p`.
pub open spec fn kept_to<T>(s: Seq<T>, p: spec_fn(T) -> bool, n: nat) -> Seq<T>
    decreases n,
{
    if n == 0 {
        Seq::empty()
    } else {
        let rest = kept_to(s, p, (n - 1) as nat);
        if p(s[n - 1]) {
            rest.push(s[n - 1])
        } else {
            rest
        }
    }
}

/// The elements that satisfy `p`.
pub open spec fn kept<T>(s: Seq<T>, p: spec_fn(T) -> bool) -> Seq<T> {
    kept_to(s, p, s.len())
}

/// Each element that is kept stands somewhere in the list, behind as many kept
/// ones as stand before it among those.
pub proof fn lemma_kept_places<T>(s: Seq<T>, p: spec_fn(T) -> bool, n: nat)
    requires
        n <= s.len(),
    ensures
        kept_to(s, p, n).len() <= n,
        forall|j: int|
            0 <= j < kept_to(s, p, n).len() ==> exists|i: int|
                0 <= i < n && #[trigger] s[i] == (#[trigger] kept_to(s, p, n)[j]) && kept_to(
                    s,
                    p,
                    i as nat,
                ).len() == j && p(s[i]),
    decreases n,
{
    if n > 0 {
        lemma_kept_places(s, p, (n - 1) as nat);
        let rest = kept_to(s, p, (n - 1) as nat);
        let all = kept_to(s, p, n);
        assert forall|j: int| 0 <= j < all.len() implies exists|i: int|
            0 <= i < n && #[trigger] s[i] == (#[trigger] all[j]) && kept_to(s, p, i as nat).len()
                == j && p(s[i]) by {
            if j < rest.len() {
                assert(all[j] == rest[j]);
                let i = choose|i: int| 0 <= i < n - 1 && #[trigger] s[i] == rest[j] && kept_to(
                    s,
                    p,
                    i as nat,
                ).len() == j && p(s[i]);
                assert(s[i] == all[j]);
            } else {
                assert(s[n - 1] == all[j]);
            }
        }
    }
}

/// An element that satisfies `p` is kept, behind those before it that do.
pub proof fn lemma_kept_at<T>(s: Seq<T>, p: spec_fn(T) -> bool, k: int, n: nat)
    requires
        0 <= k < n <= s.len(),
        p(s[k]),
    ensures
        kept_to(s, p, k as nat).len() < kept_to(s, p, n).len(),
        kept_to(s, p, n)[kept_to(s, p, k as nat).len() as int] == s[k],
    decreases n,
{
    if k < n - 1 {
        lemma_kept_at(s, p, k, (n - 1) as nat);
    }
}

/// What is kept is what the list holds that satisfies `p`.
pub proof fn lemma_kept_members<T>(s: Seq<T>, p: spec_fn(T) -> bool)
    ensures
        forall|x: T| #[trigger] kept(s, p).contains(x) <==> s.contains(x) && p(x),
{
    lemma_kept_places(s, p, s.len());
    assert forall|x: T| #[trigger] kept(s, p).contains(x) <==> s.contains(x) && p(x) by {
        if kept(s, p).contains(x) {
            let j = choose|j: int| 0 <= j < kept(s, p).len() && kept(s, p)[j] == x;
            let i = choose|i: int| 0 <= i < s.len() && #[trigger] s[i] == kept(s, p)[j] && kept_to(
                s,
                p,
                i as nat,
            ).len() == j && p(s[i]);
            assert(s[i] == x);
        }
        if s.contains(x) && p(x) {
            let k = choose|k: int| 0 <= k < s.len() && s[k] == x;
            lemma_kept_at(s, p, k, s.len());
            assert(kept(s, p)[kept_to(s, p, k as nat).len() as int] == x);
        }
    }
}

/// Keys that differ still do among what is kept.
pub proof fn lemma_kept_keys<T, K>(s: Seq<T>, p: spec_fn(T) -> bool, key: spec_fn(T) -> K)
    requires
        keys_differ(s, key),
    ensures
        keys_differ(kept(s, p), key),
{
    lemma_kept_places(s, p, s.len());
    let all = kept(s, p);
    assert forall|a: int, b: int| 0 <= a < b < all.len() implies key(#[trigger] all[a]) != key(
        #[trigger] all[b],
    ) by {
        let i = choose|i: int| 0 <= i < s.len() && #[trigger] s[i] == all[a] && kept_to(
            s,
            p,
            i as nat,
        ).len() == a && p(s[i]);
        let j = choose|j: int| 0 <= j < s.len() && #[trigger] s[j] == all[b] && kept_to(
            s,
            p,
            j as nat,
        ).len() == b && p(s[j]);
        assert(i != j);
        if i < j {
            assert(key(s[i]) != key(s[j]));
        } else {
            assert(key(s[j]) != key(s[i]));
        }
    }
}

/// The first elements, `n` at most.
pub open spec fn at_most<T>(s: Seq<T>, n: int) -> Seq<T> {
    if s.len() <= n {
        s
    } else {
        s.take(n)
    }
}

/// Whether any element satisfies `p`.
pub open spec fn any<T>(s: Seq<T>, p: spec_fn(T) -> bool) -> bool {
    exists|i: int| 0 <= i < s.len() && p(#[trigger] s[i])
}

/// What is found satisfies the condition, and nothing before it does.
pub proof fn lemma_first_from<T>(s: Seq<T>, p: spec_fn(T) -> bool, from: int)
    requires
        0 <= from <= s.len(),
    ensures
        match first_from(s, p, from) {
            Some(i) => from <= i < s.len() && p(s[i]) && forall|j: int|
                from <= j < i ==> !p(#[trigger] s[j]),
            None => forall|j: int| from <= j < s.len() ==> !p(#[trigger] s[j]),
        },
    decreases s.len() - from,
{
    if from < s.len() && !p(s[from]) {
        lemma_first_from(s, p, from + 1);
    }
}

/// The place of the first element that satisfies `p`, which `test` decides.
pub(crate) fn find<T, F: Fn(&T) -> bool>(
    s: &Vec<T>,
    Ghost(p): Ghost<spec_fn(T) -> bool>,
    test: F,
) -> (r: Option<usize>)
    requires
        forall|x: &T| #[trigger] test.requires((x,)),
        forall|x: &T, b: bool| #[trigger] test.ensures((x,), b) ==> b == p(*x),
    ensures
        match r {
            Some(i) => i < s@.len() && first_from(s@, p, 0) == Some(i as int) && p(s@[i as int]),
            None => first_from(s@, p, 0) is None && !any(s@, p),
        },
{
    let mut i: usize = 0;
    while i < s.len()
        invariant
            i <= s.len(),
            first_from(s@, p, 0) == first_from(s@, p, i as int),
            forall|j: int| 0 <= j < i ==> !p(#[trigger] s@[j]),
            forall|x: &T| #[trigger] test.requires((x,)),
            forall|x: &T, b: bool| #[trigger] test.ensures((x,), b) ==> b == p(*x),
        decreases s.len() - i,
    {
        if test(&s[i]) {
            return Some(i);
        }
        i = i + 1;
    }
    None
}

/// The place of the first element whose view satisfies `p`, which `test` decides.
pub(crate) fn find_viewed<T: View, F: Fn(&T) -> bool>(
    s: &Vec<T>,
    Ghost(p): Ghost<spec_fn(T::V) -> bool>,
    test: F,
) -> (r: Option<usize>)
    requires
        forall|x: &T| #[trigger] test.requires((x,)),
        forall|x: &T, b: bool| #[trigger] test.ensures((x,), b) ==> b == p(x@),
    ensures
        match r {
            Some(i) => i < s@.len() && first_from(s@.map_values(|x: T| x@), p, 0) == Some(i as int)
                && p(s@[i as int]@),
            None => first_from(s@.map_values(|x: T| x@), p, 0) is None,
        },
{
    let ghost q = |x: T| p(x@);
    proof {
        lemma_first_viewed(s@, p, q, 0);
    }
    find(s, Ghost(q), test)
}

proof fn lemma_first_viewed<T: View>(
    s: Seq<T>,
    p: spec_fn(T::V) -> bool,
    q: spec_fn(T) -> bool,
    from: int,
)
    requires
        0 <= from <= s.len(),
        q == (|x: T| p(x@)),
    ensures
        first_from(s.map_values(|x: T| x@), p, from) == first_from(s, q, from),
    decreases s.len() - from,
{
    if from < s.len() {
        lemma_first_viewed(s, p, q, from + 1);
    }
}

/// Whether no two elements have the same key.
pub open spec fn keys_differ<T, K>(s: Seq<T>, key: spec_fn(T) -> K) -> bool {
    forall|i: int, j: int| 0 <= i < j < s.len() ==> key(#[trigger] s[i]) != key(#[trigger] s[j])
}

/// An element with a key of its own keeps the keys apart.
pub proof fn lemma_new_key<T, K>(s: Seq<T>, key: spec_fn(T) -> K, x: T)
    requires
        keys_differ(s, key),
        forall|i: int| 0 <= i < s.len() ==> key(#[trigger] s[i]) != key(x),
    ensures
        keys_differ(s.push(x), key),
{
}

/// An element that takes a key which no other one has keeps the keys apart.
pub proof fn lemma_changed_key<T, K>(s: Seq<T>, key: spec_fn(T) -> K, at: int, x: T)
    requires
        keys_differ(s, key),
        0 <= at < s.len(),
        forall|i: int| 0 <= i < s.len() && i != at ==> key(#[trigger] s[i]) != key(x),
    ensures
        keys_differ(s.update(at, x), key),
{
    let after = s.update(at, x);
    assert forall|i: int, j: int| 0 <= i < j < after.len() implies key(#[trigger] after[i]) != key(
        #[trigger] after[j],
    ) by {
        if i != at && j != at {
            assert(key(s[i]) != key(s[j]));
        } else if i == at {
            assert(key(s[j]) != key(x));
        } else {
            assert(key(s[i]) != key(x));
        }
    }
}

} // verus!
