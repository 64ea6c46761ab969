//! Sums of decimals, and when decimal arithmetic is exact.

use crate::decimal::{
    abs, aligns, combined, comes_to, divides, ends_soon, half_even, limit, max_places, minus,
    more_places, multiplies, negated, normalized, opt, over, plus, pow10, representable, rescaled,
    rounded, times, with_nine_more, worth, zero, Decimal, Num,
};
use crate::sort::{arranged, lemma_slot, slot, Ordered};
use vstd::prelude::*;

verus! {

// ---------------------------------------------------------------------------
// Arithmetic that may already be out of range
// ---------------------------------------------------------------------------

pub open spec fn sum_of(a: Option<Num>, b: Option<Num>) -> Option<Num> {
    match (a, b) {
        (Some(x), Some(y)) => plus(x, y),
        _ => None,
    }
}

pub open spec fn difference_of(a: Option<Num>, b: Option<Num>) -> Option<Num> {
    match (a, b) {
        (Some(x), Some(y)) => minus(x, y),
        _ => None,
    }
}

pub open spec fn product_of(a: Option<Num>, b: Option<Num>) -> Option<Num> {
    match (a, b) {
        (Some(x), Some(y)) => times(x, y),
        _ => None,
    }
}

pub open spec fn quotient_of(a: Option<Num>, b: Option<Num>) -> Option<Num> {
    match (a, b) {
        (Some(x), Some(y)) => over(x, y),
        _ => None,
    }
}

pub open spec fn rounded_of(a: Option<Num>, places: nat) -> Option<Num> {
    match a {
        Some(x) => Some(rounded(x, places)),
        None => None,
    }
}

/// The sum of the first `n` numbers, taken from the left; `None` once it has
/// left the range.
pub open spec fn total_to(s: Seq<Num>, n: nat) -> Option<Num>
    decreases n,
{
    if n == 0 {
        Some(zero())
    } else {
        sum_of(total_to(s, (n - 1) as nat), Some(s[n - 1]))
    }
}

/// The sum of a sequence of numbers, taken from the left.
pub open spec fn total(s: Seq<Num>) -> Option<Num> {
    total_to(s, s.len())
}

/// A sum that has left the range stays out of it.
pub proof fn lemma_total_none(s: Seq<Num>, i: nat, n: nat)
    requires
        i <= n,
        total_to(s, i) is None,
    ensures
        total_to(s, n) is None,
    decreases n,
{
    if i < n {
        lemma_total_none(s, i, (n - 1) as nat);
    }
}

/// Sums over sequences that agree are the same.
pub proof fn lemma_total_agrees(s: Seq<Num>, t: Seq<Num>, n: nat)
    requires
        forall|i: int| 0 <= i < n ==> s[i] == t[i],
    ensures
        total_to(s, n) == total_to(t, n),
    decreases n,
{
    if n > 0 {
        lemma_total_agrees(s, t, (n - 1) as nat);
    }
}

/// The sum of a sequence with one more number.
pub proof fn lemma_total_push(s: Seq<Num>, x: Num)
    ensures
        total(s.push(x)) == sum_of(total(s), Some(x)),
{
    lemma_total_agrees(s.push(x), s, s.len());
}

/// What `f` says of those of the first `n` elements that `p` picks.
pub open spec fn picked_to<T>(s: Seq<T>, p: spec_fn(T) -> bool, f: spec_fn(T) -> Num, n: nat) -> Seq<Num>
    decreases n,
{
    if n == 0 {
        Seq::empty()
    } else {
        let rest = picked_to(s, p, f, (n - 1) as nat);
        if p(s[n - 1]) {
            rest.push(f(s[n - 1]))
        } else {
            rest
        }
    }
}

/// What `f` says of the elements that `p` picks.
pub open spec fn picked<T>(s: Seq<T>, p: spec_fn(T) -> bool, f: spec_fn(T) -> Num) -> Seq<Num> {
    picked_to(s, p, f, s.len())
}

pub proof fn lemma_worth_agrees(s: Seq<Num>, t: Seq<Num>, n: nat)
    requires
        forall|i: int| 0 <= i < n ==> s[i] == t[i],
    ensures
        worth_to(s, n) == worth_to(t, n),
    decreases n,
{
    if n > 0 {
        lemma_worth_agrees(s, t, (n - 1) as nat);
    }
}

proof fn lemma_picked_agrees<T>(
    s: Seq<T>,
    t: Seq<T>,
    p: spec_fn(T) -> bool,
    f: spec_fn(T) -> Num,
    n: nat,
)
    requires
        forall|i: int| 0 <= i < n ==> s[i] == t[i],
    ensures
        picked_to(s, p, f, n) == picked_to(t, p, f, n),
    decreases n,
{
    if n > 0 {
        lemma_picked_agrees(s, t, p, f, (n - 1) as nat);
    }
}

/// What is picked of a sequence with one more element.
pub proof fn lemma_picked_push<T>(s: Seq<T>, x: T, p: spec_fn(T) -> bool, f: spec_fn(T) -> Num)
    ensures
        picked(s.push(x), p, f) == if p(x) {
            picked(s, p, f).push(f(x))
        } else {
            picked(s, p, f)
        },
{
    lemma_picked_agrees(s.push(x), s, p, f, s.len());
}

/// Two sequences of which the same is picked, in the same places.
pub proof fn lemma_same_picks<S, T>(
    s: Seq<S>,
    t: Seq<T>,
    p: spec_fn(S) -> bool,
    q: spec_fn(T) -> bool,
    f: spec_fn(S) -> Num,
    g: spec_fn(T) -> Num,
    n: nat,
)
    requires
        forall|i: int|
            #![trigger s[i]]
            #![trigger t[i]]
            0 <= i < n ==> p(s[i]) == q(t[i]) && (p(s[i]) ==> f(s[i]) == g(t[i])),
    ensures
        picked_to(s, p, f, n) == picked_to(t, q, g, n),
    decreases n,
{
    if n > 0 {
        lemma_same_picks(s, t, p, q, f, g, (n - 1) as nat);
        assert(p(s[n - 1]) == q(t[n - 1]));
    }
}

/// Where nothing is picked there is nothing.
pub proof fn lemma_none_picked<T>(s: Seq<T>, p: spec_fn(T) -> bool, f: spec_fn(T) -> Num, n: nat)
    requires
        forall|i: int| 0 <= i < n ==> !p(#[trigger] s[i]),
    ensures
        picked_to(s, p, f, n) == Seq::<Num>::empty(),
    decreases n,
{
    if n > 0 {
        lemma_none_picked(s, p, f, (n - 1) as nat);
    }
}

/// What is picked of two sequences, one after the other, is worth what is picked of
/// each.
pub proof fn lemma_picked_appends<T>(
    s: Seq<T>,
    t: Seq<T>,
    p: spec_fn(T) -> bool,
    f: spec_fn(T) -> Num,
    n: nat,
)
    requires
        n <= t.len(),
    ensures
        worth_of(picked_to(s + t, p, f, s.len() + n)) == worth_of(picked(s, p, f)) + worth_of(
            picked_to(t, p, f, n),
        ),
    decreases n,
{
    if n == 0 {
        lemma_picked_agrees(s + t, s, p, f, s.len());
    } else {
        lemma_picked_appends(s, t, p, f, (n - 1) as nat);
        assert((s + t)[s.len() + n - 1] == t[n - 1]);
        if p(t[n - 1]) {
            let x = picked_to(s + t, p, f, (s.len() + n - 1) as nat);
            let y = picked_to(t, p, f, (n - 1) as nat);
            lemma_worth_agrees(x.push(f(t[n - 1])), x, x.len());
            lemma_worth_agrees(y.push(f(t[n - 1])), y, y.len());
        }
    }
}

/// What is picked for one of two reasons, never for both, is worth what is picked for
/// each.
pub proof fn lemma_picked_splits<T>(
    s: Seq<T>,
    p: spec_fn(T) -> bool,
    q: spec_fn(T) -> bool,
    r: spec_fn(T) -> bool,
    f: spec_fn(T) -> Num,
    n: nat,
)
    requires
        forall|i: int|
            0 <= i < n ==> p(#[trigger] s[i]) == (q(s[i]) || r(s[i])) && !(q(s[i]) && r(s[i])),
    ensures
        worth_of(picked_to(s, p, f, n)) == worth_of(picked_to(s, q, f, n)) + worth_of(
            picked_to(s, r, f, n),
        ),
    decreases n,
{
    if n > 0 {
        lemma_picked_splits(s, p, q, r, f, (n - 1) as nat);
        let v = f(s[n - 1]);
        let x = picked_to(s, p, f, (n - 1) as nat);
        let y = picked_to(s, q, f, (n - 1) as nat);
        let z = picked_to(s, r, f, (n - 1) as nat);
        assert(p(s[n - 1]) == (q(s[n - 1]) || r(s[n - 1])));
        lemma_worth_agrees(x.push(v), x, x.len());
        lemma_worth_agrees(y.push(v), y, y.len());
        lemma_worth_agrees(z.push(v), z, z.len());
    }
}

/// One more element is counted where it is picked.
pub proof fn lemma_counted_push<T>(s: Seq<T>, x: T, p: spec_fn(T) -> bool, n: nat)
    requires
        n <= s.len(),
    ensures
        counted_to(s.push(x), p, n) == counted_to(s, p, n),
        n == s.len() ==> counted(s.push(x), p) == counted(s, p) + if p(x) {
            1nat
        } else {
            0nat
        },
    decreases n,
{
    if n > 0 {
        lemma_counted_push(s, x, p, (n - 1) as nat);
    }
}

/// A changed element is counted as it is now.
pub proof fn lemma_counted_update<T>(s: Seq<T>, i: int, x: T, p: spec_fn(T) -> bool, n: nat)
    requires
        0 <= i < s.len(),
        n <= s.len(),
    ensures
        counted_to(s.update(i, x), p, n) + (if i < n && p(s[i]) {
            1int
        } else {
            0
        }) == counted_to(s, p, n) + (if i < n && p(x) {
            1int
        } else {
            0
        }),
    decreases n,
{
    if n > 0 {
        lemma_counted_update(s, i, x, p, (n - 1) as nat);
    }
}

/// How many of the first `n` elements `p` picks.
pub open spec fn counted_to<T>(s: Seq<T>, p: spec_fn(T) -> bool, n: nat) -> nat
    decreases n,
{
    if n == 0 {
        0
    } else {
        counted_to(s, p, (n - 1) as nat) + if p(s[n - 1]) {
            1nat
        } else {
            0nat
        }
    }
}

/// How many elements `p` picks.
pub open spec fn counted<T>(s: Seq<T>, p: spec_fn(T) -> bool) -> nat {
    counted_to(s, p, s.len())
}

/// The keys of those of the first `n` elements that `p` picks, each once, in
/// the order in which they first come up.
pub open spec fn keys_to<T, K>(s: Seq<T>, p: spec_fn(T) -> bool, key: spec_fn(T) -> K, n: nat) -> Seq<K>
    decreases n,
{
    if n == 0 {
        Seq::empty()
    } else {
        let rest = keys_to(s, p, key, (n - 1) as nat);
        if p(s[n - 1]) && !rest.contains(key(s[n - 1])) {
            rest.push(key(s[n - 1]))
        } else {
            rest
        }
    }
}

/// The keys of the elements that `p` picks, each once.
pub open spec fn keys_of<T, K>(s: Seq<T>, p: spec_fn(T) -> bool, key: spec_fn(T) -> K) -> Seq<K> {
    keys_to(s, p, key, s.len())
}

// ---------------------------------------------------------------------------
// Powers of ten and worth
// ---------------------------------------------------------------------------

pub proof fn lemma_pow10_positive(n: nat)
    ensures
        pow10(n) >= 1,
    decreases n,
{
    if n > 0 {
        lemma_pow10_positive((n - 1) as nat);
    }
}

pub proof fn lemma_pow10_adds(a: nat, b: nat)
    ensures
        pow10(a + b) == pow10(a) * pow10(b),
    decreases a,
{
    if a > 0 {
        lemma_pow10_adds((a - 1) as nat, b);
        let x = pow10((a - 1) as nat);
        let y = pow10(b);
        assert(pow10(a + b) == 10 * pow10((a - 1 + b) as nat));
        assert(10 * (x * y) == (10 * x) * y) by (nonlinear_arith);
    }
}

/// A number is worth its rescaled whole number, counted in the smaller unit.
pub proof fn lemma_worth_rescaled(n: Num, p: nat)
    requires
        n.1 <= p <= max_places(),
    ensures
        worth(n) == rescaled(n, p) * pow10((max_places() - p) as nat),
{
    let a = pow10((p - n.1) as nat);
    let b = pow10((max_places() - p) as nat);
    lemma_pow10_adds((p - n.1) as nat, (max_places() - p) as nat);
    assert(n.0 * (a * b) == (n.0 * a) * b) by (nonlinear_arith);
}

/// Worth has the sign of the whole number, and is zero only where that is.
pub proof fn lemma_worth_sign(n: Num)
    ensures
        n.0 == 0 <==> worth(n) == 0,
        n.0 < 0 <==> worth(n) < 0,
        n.0 > 0 <==> worth(n) > 0,
{
    let f = pow10((max_places() - n.1) as nat);
    lemma_pow10_positive((max_places() - n.1) as nat);
    assert(n.0 == 0 ==> n.0 * f == 0) by (nonlinear_arith);
    assert(n.0 < 0 && f >= 1 ==> n.0 * f < 0) by (nonlinear_arith);
    assert(n.0 > 0 && f >= 1 ==> n.0 * f > 0) by (nonlinear_arith);
}

/// Zero is worth nothing, however it is written.
pub proof fn lemma_zero(p: nat)
    ensures
        rescaled(zero(), p) == 0,
        worth(zero()) == 0,
{
    let f = pow10((p - 0) as nat);
    assert(0 * f == 0) by (nonlinear_arith);
    lemma_worth_sign(zero());
}

pub proof fn lemma_worth_negated(n: Num)
    ensures
        worth(negated(n)) == -worth(n),
{
    let f = pow10((max_places() - n.1) as nat);
    assert((-n.0) * f == -(n.0 * f)) by (nonlinear_arith);
}

// ---------------------------------------------------------------------------
// Exactness
// ---------------------------------------------------------------------------

/// Written with `places` decimal places, the number is a whole number of at
/// most `bound` in magnitude.
pub open spec fn within(n: Num, places: nat, bound: int) -> bool {
    n.1 <= places && abs(rescaled(n, places)) <= bound
}

pub proof fn lemma_rescaled_grows(n: Num, p: nat, q: nat)
    requires
        n.1 <= p <= q,
    ensures
        abs(rescaled(n, p)) <= abs(rescaled(n, q)),
        rescaled(n, q) == rescaled(n, p) * pow10((q - p) as nat),
{
    let a = pow10((p - n.1) as nat);
    let b = pow10((q - p) as nat);
    lemma_pow10_adds((p - n.1) as nat, (q - p) as nat);
    lemma_pow10_positive((q - p) as nat);
    let x = n.0 * a;
    assert(n.0 * (a * b) == (n.0 * a) * b) by (nonlinear_arith);
    assert(b >= 1 && x >= 0 ==> x * b >= x) by (nonlinear_arith);
    assert(b >= 1 && x < 0 ==> x * b <= x) by (nonlinear_arith);
}

/// Numbers that are small enough with `p` places add up exactly.
pub proof fn lemma_combined_exact(a: Num, b: Num, sign: int, p: nat, x: int, y: int)
    requires
        within(a, p, x),
        within(b, p, y),
        x + y < limit(),
        p <= max_places(),
        sign == 1 || sign == -1,
    ensures
        aligns(a, b, sign),
        within(combined(a, b, sign), p, x + y),
        rescaled(combined(a, b, sign), p) == rescaled(a, p) + sign * rescaled(b, p),
        worth(combined(a, b, sign)) == worth(a) + sign * worth(b),
{
    let m = more_places(a, b);
    lemma_rescaled_grows(a, m, p);
    lemma_rescaled_grows(b, m, p);
    let ra = rescaled(a, m);
    let rb = rescaled(b, m);
    let c = combined(a, b, sign);
    let f = pow10((p - m) as nat);
    lemma_pow10_positive((p - m) as nat);
    if a.0 == 0 {
        assert(0 * pow10((p - a.1) as nat) == 0);
        assert(rescaled(a, p) == 0);
        let g = pow10((p - b.1) as nat);
        assert((sign * b.0) * g == sign * (b.0 * g)) by (nonlinear_arith);
    } else if b.0 == 0 {
        assert(rescaled(b, p) == 0);
    } else {
        assert(c.0 == ra + sign * rb);
        assert(rescaled(c, p) == c.0 * f);
        assert((ra + sign * rb) * f == ra * f + sign * (rb * f)) by (nonlinear_arith);
        let s = ra + sign * rb;
        assert(f >= 1 && s >= 0 ==> s * f >= s) by (nonlinear_arith);
        assert(f >= 1 && s < 0 ==> s * f <= s) by (nonlinear_arith);
        assert(abs(s) <= abs(s * f));
    }
    assert(rescaled(c, p) == rescaled(a, p) + sign * rescaled(b, p));
    lemma_worth_rescaled(a, p);
    lemma_worth_rescaled(b, p);
    lemma_worth_rescaled(c, p);
    let h = pow10((max_places() - p) as nat);
    let u = rescaled(a, p);
    let v = rescaled(b, p);
    assert((u + sign * v) * h == u * h + sign * (v * h)) by (nonlinear_arith);
}

/// A number and the negative of one that is worth the same add up to exactly
/// zero.
pub proof fn lemma_cancels(a: Num, b: Num)
    requires
        representable(a),
        representable(b),
        worth(a) == worth(b),
    ensures
        plus(a, negated(b)) is Some,
        worth(plus(a, negated(b))->0) == 0,
{
    let m = more_places(a, b);
    let f = pow10((max_places() - m) as nat);
    lemma_pow10_positive((max_places() - m) as nat);
    lemma_worth_rescaled(a, m);
    lemma_worth_rescaled(b, m);
    let x = rescaled(a, m);
    let y = rescaled(b, m);
    assert(x == y) by (nonlinear_arith)
        requires
            x * f == y * f,
            f >= 1,
    ;
    let g = pow10((m - b.1) as nat);
    assert((-b.0) * g == -(b.0 * g)) by (nonlinear_arith);
    assert(pow10(0) == 1);
    assert(a.1 == m ==> x == a.0) by (nonlinear_arith)
        requires
            a.1 == m ==> x == a.0 * 1,
    ;
    assert(b.1 == m ==> y == b.0) by (nonlinear_arith)
        requires
            b.1 == m ==> y == b.0 * 1,
    ;
    lemma_worth_sign(a);
    lemma_worth_sign(b);
    lemma_worth_sign(plus(a, negated(b))->0);
}

/// The magnitudes of the first `n` numbers, written with `p` places, added up.
pub open spec fn mass_to(s: Seq<Num>, p: nat, n: nat) -> int
    decreases n,
{
    if n == 0 {
        0
    } else {
        mass_to(s, p, (n - 1) as nat) + abs(rescaled(s[n - 1], p))
    }
}

/// The worth of the first `n` numbers, added up.
pub open spec fn worth_to(s: Seq<Num>, n: nat) -> int
    decreases n,
{
    if n == 0 {
        0
    } else {
        worth_to(s, (n - 1) as nat) + worth(s[n - 1])
    }
}

/// What a sequence of numbers is worth together.
pub open spec fn worth_of(s: Seq<Num>) -> int {
    worth_to(s, s.len())
}

/// The sum or difference of numbers that are written with the same places is
/// exact.
pub proof fn lemma_combined_worth(a: Num, b: Num, sign: int)
    requires
        a.1 <= max_places(),
        b.1 <= max_places(),
    ensures
        worth(combined(a, b, sign)) == worth(a) + sign * worth(b),
        combined(a, b, sign).1 <= max_places(),
{
    let m = more_places(a, b);
    let h = pow10((max_places() - m) as nat);
    if a.0 == 0 {
        let g = pow10((max_places() - b.1) as nat);
        assert(0 * pow10((max_places() - a.1) as nat) == 0);
        assert((sign * b.0) * g == sign * (b.0 * g)) by (nonlinear_arith);
    } else if b.0 == 0 {
        assert(0 * pow10((max_places() - b.1) as nat) == 0);
        assert(sign * 0 == 0);
    } else {
        lemma_worth_rescaled(a, m);
        lemma_worth_rescaled(b, m);
        let u = rescaled(a, m);
        let v = rescaled(b, m);
        assert((u + sign * v) * h == u * h + sign * (v * h)) by (nonlinear_arith);
    }
}

/// Whether the sum of two numbers comes out exactly.
pub open spec fn exact_sum(a: Num, b: Num) -> bool {
    plus(a, b) matches Some(r) && r.1 <= max_places() && worth(r) == worth(a) + worth(b)
}

/// Whether the difference of two numbers comes out exactly.
pub open spec fn exact_difference(a: Num, b: Num) -> bool {
    minus(a, b) matches Some(r) && r.1 <= max_places() && worth(r) == worth(a) - worth(b)
}

/// Sums and differences come out exactly wherever both numbers and the result can
/// be written with the same places.
pub proof fn what_fits_is_exact(a: Num, b: Num)
    requires
        a.1 <= max_places(),
        b.1 <= max_places(),
    ensures
        aligns(a, b, 1) ==> exact_sum(a, b),
        aligns(a, b, -1) ==> exact_difference(a, b),
{
    lemma_combined_worth(a, b, 1);
    lemma_combined_worth(a, b, -1);
}

/// Whether two amounts are taken from each other exactly, either way.
pub open spec fn nets_exactly(debit: Num, credit: Num) -> bool {
    exact_difference(debit, credit) && exact_difference(credit, debit)
}

/// Whether numbers are added up without rounding: at each step the sum comes out
/// exactly.
pub open spec fn adds_exactly(s: Seq<Num>) -> bool {
    forall|i: int|
        0 <= i < s.len() ==> (total_to(s, i as nat) matches Some(t) ==> exact_sum(
            t,
            #[trigger] s[i],
        ))
}

/// The sum of numbers that are added up without rounding is exact.
pub proof fn lemma_sum_exact(s: Seq<Num>, n: nat)
    requires
        adds_exactly(s),
        n <= s.len(),
    ensures
        total_to(s, n) is Some,
        (total_to(s, n)->0).1 <= max_places(),
        worth(total_to(s, n)->0) == worth_to(s, n),
    decreases n,
{
    if n == 0 {
        lemma_worth_sign(zero());
    } else {
        lemma_sum_exact(s, (n - 1) as nat);
        assert(exact_sum(total_to(s, (n - 1) as nat)->0, s[n - 1]));
    }
}

/// What `f` says of the first `n` elements, added up.
pub open spec fn tally_to<T>(s: Seq<T>, f: spec_fn(T) -> int, n: nat) -> int
    decreases n,
{
    if n == 0 {
        0
    } else {
        tally_to(s, f, (n - 1) as nat) + f(s[n - 1])
    }
}

/// What `f` says of the elements, added up.
pub open spec fn tally<T>(s: Seq<T>, f: spec_fn(T) -> int) -> int {
    tally_to(s, f, s.len())
}

pub proof fn lemma_tally_agrees<T>(s: Seq<T>, t: Seq<T>, f: spec_fn(T) -> int, n: nat)
    requires
        forall|i: int| 0 <= i < n ==> s[i] == t[i],
    ensures
        tally_to(s, f, n) == tally_to(t, f, n),
    decreases n,
{
    if n > 0 {
        lemma_tally_agrees(s, t, f, (n - 1) as nat);
    }
}

proof fn lemma_tally_insert<T>(s: Seq<T>, f: spec_fn(T) -> int, k: int, x: T, n: nat)
    requires
        0 <= k < n <= s.len() + 1,
    ensures
        tally_to(s.insert(k, x), f, n) == tally_to(s, f, (n - 1) as nat) + f(x),
    decreases n,
{
    let all = s.insert(k, x);
    if k == n - 1 {
        lemma_tally_agrees(all, s, f, (n - 1) as nat);
    } else {
        lemma_tally_insert(s, f, k, x, (n - 1) as nat);
        assert(all[n - 1] == s[n - 2]);
    }
}

/// Putting a list in order leaves what is added up over it.
pub proof fn lemma_tally_arranged<T: Ordered>(s: Seq<T>, f: spec_fn(T) -> int)
    ensures
        arranged(s).len() == s.len(),
        tally(arranged(s), f) == tally(s, f),
    decreases s.len(),
{
    if s.len() > 0 {
        let head = s.drop_last();
        lemma_tally_arranged(head, f);
        lemma_slot(arranged(head), s.last(), 0);
        let k = slot(arranged(head), s.last(), 0);
        lemma_tally_insert(arranged(head), f, k, s.last(), s.len());
        lemma_tally_agrees(head, s, f, head.len());
    }
}

/// A hundredth: the number with two more places.
pub open spec fn hundredth(n: Num) -> Num {
    (n.0, n.1 + 2)
}

/// The quotient by one hundred is exact for numbers of ordinary size.
pub proof fn lemma_over_hundred(n: Num)
    requires
        abs(n.0) < 0x4_0000_0000_0000_0000,
        n.1 <= 19,
    ensures
        comes_to(over(n, (100, 0)), hundredth(n)),
{
    let b: Num = (100, 0);
    let x = n.0;
    let f = pow10((max_places() - n.1 - 2) as nat);
    if x == 0 {
        lemma_worth_sign(zero());
        lemma_worth_sign(hundredth(n));
    } else if divides(n, b) {
        let y = x / 100;
        lemma_pow10_adds(2, (max_places() - n.1 - 2) as nat);
        reveal_with_fuel(pow10, 3);
        assert(y * (100 * f) == (100 * y) * f) by (nonlinear_arith);
    } else {
        let q = with_nine_more(n, b);
        let y = x * 1_000_000_000;
        assert(y == 100 * (x * 10_000_000));
        assert(q.0 == x * 10_000_000);
        assert(ends_soon(n, b));
        let g = pow10((max_places() - n.1 - 9) as nat);
        lemma_pow10_adds(7, (max_places() - n.1 - 9) as nat);
        reveal_with_fuel(pow10, 8);
        assert(f == 10_000_000 * g);
        assert((x * 10_000_000) * g == x * (10_000_000 * g)) by (nonlinear_arith);
        assert(worth(q) == worth(hundredth(n)));
    }
}

proof fn lemma_half_even_scales(m: int, unit: int, k: int)
    requires
        m >= 0,
        unit >= 1,
        k >= 1,
    ensures
        half_even(m * k, unit * k) == half_even(m, unit),
{
    let q = m / unit;
    let r = m % unit;
    vstd::arithmetic::div_mod::lemma_fundamental_div_mod(m, unit);
    assert(m * k == (unit * k) * q + r * k) by (nonlinear_arith)
        requires
            m == unit * q + r,
    ;
    assert(0 <= r < unit) by (nonlinear_arith)
        requires
            unit >= 1,
            r == m % unit,
    ;
    assert(0 <= r * k < unit * k) by (nonlinear_arith)
        requires
            0 <= r < unit,
            k >= 1,
    ;
    assert(q * (unit * k) + r * k == m * k) by (nonlinear_arith)
        requires
            m * k == (unit * k) * q + r * k,
    ;
    vstd::arithmetic::div_mod::lemma_fundamental_div_mod_converse(m * k, unit * k, q, r * k);
    assert(2 * (r * k) > unit * k <==> 2 * r > unit) by (nonlinear_arith)
        requires
            k >= 1,
    ;
    assert(2 * (r * k) == unit * k <==> 2 * r == unit) by (nonlinear_arith)
        requires
            k >= 1,
    ;
}

/// What a rounded number is worth follows from what the number is worth.
proof fn lemma_rounded_magnitude(n: Num, places: nat)
    requires
        n.1 <= max_places(),
        places <= max_places(),
        n.0 >= 0,
    ensures
        ({
            let unit = pow10((max_places() - places) as nat);
            worth(rounded(n, places)) == half_even(worth(n), unit) * unit
        }),
{
    let unit = pow10((max_places() - places) as nat);
    lemma_pow10_positive((max_places() - places) as nat);
    if n.1 <= places {
        lemma_worth_rescaled(n, places);
        let x = rescaled(n, places);
        lemma_worth_sign(n);
        assert(x >= 0) by (nonlinear_arith)
            requires
                x * unit >= 0,
                unit >= 1,
        ;
        assert(x * unit == x * unit + 0);
        vstd::arithmetic::div_mod::lemma_fundamental_div_mod_converse(x * unit, unit, x, 0);
    } else {
        let small = pow10((n.1 - places) as nat);
        let k = pow10((max_places() - n.1) as nat);
        lemma_pow10_positive((n.1 - places) as nat);
        lemma_pow10_positive((max_places() - n.1) as nat);
        lemma_pow10_adds((n.1 - places) as nat, (max_places() - n.1) as nat);
        lemma_half_even_scales(n.0, small, k);
    }
}

/// A number that needs no more places is worth the same when it is rounded.
pub proof fn lemma_rounded_multiple(n: Num, places: nat)
    requires
        n.1 <= max_places(),
        places <= max_places(),
        worth(n) % pow10((max_places() - places) as nat) == 0,
    ensures
        worth(rounded(n, places)) == worth(n),
{
    let unit = pow10((max_places() - places) as nat);
    let w = worth(n);
    lemma_pow10_positive((max_places() - places) as nat);
    lemma_worth_sign(n);
    lemma_worth_negated(n);
    vstd::arithmetic::div_mod::lemma_fundamental_div_mod(w, unit);
    let k = w / unit;
    assert(w == k * unit) by (nonlinear_arith)
        requires
            w == unit * k + 0,
    ;
    if n.0 >= 0 {
        lemma_rounded_magnitude(n, places);
        assert(half_even(w, unit) == k);
    } else {
        lemma_rounded_magnitude(negated(n), places);
        assert(-w == (-k) * unit + 0) by (nonlinear_arith)
            requires
                w == k * unit,
        ;
        vstd::arithmetic::div_mod::lemma_fundamental_div_mod_converse(-w, unit, -k, 0);
        assert(half_even(-w, unit) == -k);
        lemma_worth_negated(rounded(n, places));
    }
}

/// Numbers that are worth the same are worth the same when they are rounded.
pub proof fn lemma_rounded_worth(a: Num, b: Num, places: nat)
    requires
        a.1 <= max_places(),
        b.1 <= max_places(),
        places <= max_places(),
        worth(a) == worth(b),
    ensures
        worth(rounded(a, places)) == worth(rounded(b, places)),
{
    lemma_worth_sign(a);
    lemma_worth_sign(b);
    if a.0 >= 0 {
        lemma_rounded_magnitude(a, places);
        lemma_rounded_magnitude(b, places);
    } else {
        lemma_rounded_magnitude(negated(a), places);
        lemma_rounded_magnitude(negated(b), places);
        lemma_worth_negated(a);
        lemma_worth_negated(b);
        lemma_worth_negated(rounded(a, places));
        lemma_worth_negated(rounded(b, places));
    }
}

/// An exact product is worth the product of what its factors are worth.
pub proof fn lemma_product_worth(a: Num, b: Num)
    requires
        multiplies(a, b),
        a.1 <= max_places(),
        b.1 <= max_places(),
    ensures
        times(a, b) matches Some(p) && p.1 <= max_places() && worth(p) * pow10(max_places())
            == worth(a) * worth(b),
{
    lemma_worth_sign(a);
    lemma_worth_sign(b);
    lemma_worth_sign(zero());
    if a.0 == 0 || b.0 == 0 {
        assert(worth(a) * worth(b) == 0) by (nonlinear_arith)
            requires
                worth(a) == 0 || worth(b) == 0,
        ;
    } else {
        let m = max_places();
        let x = a.0;
        let y = b.0;
        let f = pow10((m - a.1) as nat);
        let g = pow10((m - b.1) as nat);
        let h = pow10((m - a.1 - b.1) as nat);
        lemma_pow10_adds((m - a.1) as nat, (m - b.1) as nat);
        lemma_pow10_adds((m - a.1 - b.1) as nat, m);
        assert((m - a.1) + (m - b.1) == (m - a.1 - b.1) + m);
        let k = pow10(m);
        assert(((x * y) * h) * k == (x * f) * (y * g)) by (nonlinear_arith)
            requires
                f * g == h * k,
        ;
    }
}

/// A number counted in units of its `p`th place.
pub proof fn lemma_counted_in(n: Num, p: nat)
    requires
        n.1 <= p <= max_places(),
    ensures
        worth(n) == rescaled(n, p) * pow10((max_places() - p) as nat),
        worth(n) / pow10((max_places() - p) as nat) == rescaled(n, p),
        worth((rescaled(n, p), p)) == worth(n),
        abs(n.0) <= abs(rescaled(n, p)),
{
    let u = pow10((max_places() - p) as nat);
    let x = rescaled(n, p);
    lemma_worth_rescaled(n, p);
    lemma_pow10_positive((max_places() - p) as nat);
    vstd::arithmetic::div_mod::lemma_fundamental_div_mod_converse(x * u, u, x, 0);
    lemma_rescaled_grows(n, n.1, p);
    assert(pow10(0) == 1);
}

/// What is not above a number of few places is not above it when it is rounded to
/// as many.
pub proof fn lemma_rounded_below(n: Num, bound: Num, places: nat)
    requires
        n.1 <= max_places(),
        bound.1 <= places <= max_places(),
        0 <= worth(n) <= worth(bound),
    ensures
        0 <= worth(rounded(n, places)) <= worth(bound),
{
    let unit = pow10((max_places() - places) as nat);
    let w = worth(n);
    lemma_pow10_positive((max_places() - places) as nat);
    lemma_worth_sign(n);
    lemma_rounded_magnitude(n, places);
    lemma_worth_rescaled(bound, places);
    let k = rescaled(bound, places);
    vstd::arithmetic::div_mod::lemma_fundamental_div_mod(w, unit);
    vstd::arithmetic::div_mod::lemma_div_pos_is_pos(w, unit);
    let q = w / unit;
    let r = w % unit;
    assert(q < k || (q == k && r == 0)) by (nonlinear_arith)
        requires
            unit * q + r <= k * unit,
            0 <= r < unit,
    ;
    let h = half_even(w, unit);
    assert(0 <= h <= k);
    assert(0 <= h * unit <= k * unit) by (nonlinear_arith)
        requires
            0 <= h <= k,
            unit >= 1,
    ;
}

/// A share of so many per cent, rounded, is the exact share rounded.
pub proof fn lemma_percentage(base: Num, rate: Num, places: nat)
    requires
        abs(base.0 * rate.0) < 0x4_0000_0000_0000_0000,
        base.1 + rate.1 <= 19,
        places <= max_places(),
    ensures
        ({
            let share = rounded_of(quotient_of(times(base, rate), Some((100int, 0nat))), places);
            share is Some && worth(share->0) == worth(
                rounded(hundredth((base.0 * rate.0, base.1 + rate.1)), places),
            )
        }),
{
    let exact: Num = (base.0 * rate.0, base.1 + rate.1);
    let product = times(base, rate)->0;
    if base.0 == 0 || rate.0 == 0 {
        assert(base.0 * rate.0 == 0) by (nonlinear_arith)
            requires
                base.0 == 0 || rate.0 == 0,
        ;
        lemma_over_hundred(zero());
        lemma_worth_sign(hundredth(zero()));
        lemma_worth_sign(hundredth(exact));
        lemma_rounded_worth(over(zero(), (100, 0))->0, hundredth(exact), places);
    } else {
        assert(multiplies(base, rate));
        lemma_over_hundred(exact);
        lemma_rounded_worth(over(exact, (100, 0))->0, hundredth(exact), places);
    }
}

/// The decimal places that amounts, quantities and unit costs are kept with.
pub open spec fn kept_places() -> nat {
    6
}

/// Numbers of at most six decimal places whose magnitudes add up to less than
/// a decimal can hold: up to twenty-two digits before the point.
pub open spec fn summable(s: Seq<Num>) -> bool {
    &&& forall|i: int| 0 <= i < s.len() ==> (#[trigger] s[i]).1 <= kept_places()
    &&& mass_to(s, kept_places(), s.len()) < limit()
}

pub proof fn lemma_mass_grows(s: Seq<Num>, p: nat, i: nat, n: nat)
    requires
        i <= n,
    ensures
        0 <= mass_to(s, p, i) <= mass_to(s, p, n),
    decreases n,
{
    if i < n {
        lemma_mass_grows(s, p, i, (n - 1) as nat);
    } else if n > 0 {
        lemma_mass_grows(s, p, (n - 1) as nat, (n - 1) as nat);
    }
}

/// The sum of amounts that are not astronomically large is exact.
pub proof fn lemma_total_exact_to(s: Seq<Num>, n: nat)
    requires
        summable(s),
        n <= s.len(),
    ensures
        total_to(s, n) is Some,
        within(total_to(s, n)->0, kept_places(), mass_to(s, kept_places(), n)),
        worth(total_to(s, n)->0) == worth_to(s, n),
    decreases n,
{
    let p = kept_places();
    if n == 0 {
        lemma_worth_sign(zero());
        assert(rescaled(zero(), p) == 0);
    } else {
        lemma_total_exact_to(s, (n - 1) as nat);
        lemma_mass_grows(s, p, n, s.len());
        let t = total_to(s, (n - 1) as nat)->0;
        lemma_combined_exact(
            t,
            s[n - 1],
            1,
            p,
            mass_to(s, p, (n - 1) as nat),
            abs(rescaled(s[n - 1], p)),
        );
    }
}

/// The sum of amounts that are not astronomically large is exact.
pub proof fn lemma_total_exact(s: Seq<Num>)
    requires
        summable(s),
    ensures
        total(s) is Some,
        within(total(s)->0, kept_places(), mass_to(s, kept_places(), s.len())),
        worth(total(s)->0) == worth_of(s),
{
    lemma_total_exact_to(s, s.len());
}

/// Rounding to the nearest keeps the sign, and zero.
pub proof fn lemma_rounded_sign(n: Num, places: nat)
    ensures
        n.0 >= 0 ==> rounded(n, places).0 >= 0,
        n.0 <= 0 ==> rounded(n, places).0 <= 0,
        rounded(negated(n), places) == negated(rounded(n, places)),
{
    if n.1 > places {
        let unit = pow10((n.1 - places) as nat);
        lemma_pow10_positive((n.1 - places) as nat);
        let m = abs(n.0);
        assert(m >= 0 && unit >= 1 ==> m / unit >= 0) by (nonlinear_arith);
        if n.0 == 0 {
            assert(0int / unit == 0 && 0int % unit == 0) by (nonlinear_arith)
                requires
                    unit >= 1,
            ;
        }
    }
}

/// Stripping zeros does not change what a number is worth.
pub proof fn lemma_normalized_worth(n: Num)
    requires
        n.1 <= max_places(),
    ensures
        worth(normalized(n)) == worth(n),
        normalized(n).1 <= n.1,
    decreases n.1,
{
    if n.0 == 0 {
        lemma_worth_sign(n);
        lemma_worth_sign(zero());
    } else if n.1 == 0 || n.0 % 10 != 0 {
    } else {
        let m = (n.0 / 10, (n.1 - 1) as nat);
        lemma_normalized_worth(m);
        let f = pow10((max_places() - n.1) as nat);
        assert(pow10((max_places() - m.1) as nat) == 10 * f);
        assert(n.0 == 10 * m.0);
        assert((10 * m.0) * f == m.0 * (10 * f)) by (nonlinear_arith);
    }
}

/// What a list of decimals holds.
pub open spec fn nums(values: Seq<Decimal>) -> Seq<Num> {
    values.map_values(|d: Decimal| d@)
}

/// The sum of a list of numbers, taken from the left.
pub fn sum(values: &Vec<Decimal>) -> (r: Option<Decimal>)
    ensures
        opt(r) == total(nums(values@)),
{
    let ghost s = nums(values@);
    let mut acc = Decimal::zero();
    let mut i: usize = 0;
    while i < values.len()
        invariant
            i <= values.len(),
            s == nums(values@),
            total_to(s, i as nat) == Some(acc@),
        decreases values.len() - i,
    {
        match acc.checked_add(values[i]) {
            Some(next) => {
                acc = next;
            },
            None => {
                proof {
                    lemma_total_none(s, (i + 1) as nat, s.len());
                }
                return None;
            },
        }
        i = i + 1;
    }
    Some(acc)
}

} // verus!
