//! What the texts of numbers say: an amount or a quantity can be told from its
//! text, and reads back.

use crate::decimal::{
    abs, fixed_text, fraction_part, is_reading, max_places, normalized, plain_text, pow10, reads,
    reads_worth, representable, rescaled, whole_part, worth, Decimal, Num,
};
use crate::sums::{
    lemma_normalized_worth, lemma_pow10_adds, lemma_pow10_positive, lemma_worth_rescaled,
    lemma_worth_sign,
};
use crate::text::{digit, digits, padded};
use vstd::prelude::*;

verus! {

/// Whether a character is a decimal digit.
pub open spec fn is_digit(c: char) -> bool {
    '0' <= c && c <= '9'
}

/// Whether all characters are decimal digits.
pub open spec fn all_digits(s: Seq<char>) -> bool {
    forall|i: int| 0 <= i < s.len() ==> is_digit(#[trigger] s[i])
}

proof fn lemma_digit(d: int)
    requires
        0 <= d < 10,
    ensures
        is_digit(digit(d)),
        digit(d) as int == 48 + d,
{
}

proof fn lemma_digits(n: nat)
    ensures
        digits(n).len() >= 1,
        all_digits(digits(n)),
    decreases n,
{
    if n < 10 {
        lemma_digit(n as int);
    } else {
        lemma_digits(n / 10);
        lemma_digit((n % 10) as int);
    }
}

proof fn lemma_padded(n: nat, width: nat)
    ensures
        padded(n, width).len() == width,
        all_digits(padded(n, width)),
    decreases width,
{
    if width > 0 {
        lemma_padded(n / 10, (width - 1) as nat);
        lemma_digit((n % 10) as int);
    }
}

proof fn lemma_digits_tell(a: nat, b: nat)
    requires
        digits(a) == digits(b),
    ensures
        a == b,
    decreases a,
{
    lemma_digit((a % 10) as int);
    lemma_digit((b % 10) as int);
    lemma_digits(a / 10);
    lemma_digits(b / 10);
    assert(digits(a).last() == digit((a % 10) as int));
    assert(digits(b).last() == digit((b % 10) as int));
    if a >= 10 {
        assert(b >= 10);
        assert(digits(a).drop_last() =~= digits(a / 10));
        assert(digits(b).drop_last() =~= digits(b / 10));
        lemma_digits_tell(a / 10, b / 10);
    } else {
        assert(b < 10);
    }
}

proof fn lemma_padded_tells(a: nat, b: nat, width: nat)
    requires
        padded(a, width) == padded(b, width),
        a < pow10(width),
        b < pow10(width),
    ensures
        a == b,
    decreases width,
{
    if width > 0 {
        lemma_digit((a % 10) as int);
        lemma_digit((b % 10) as int);
        assert(padded(a, width).last() == digit((a % 10) as int));
        assert(padded(b, width).last() == digit((b % 10) as int));
        assert(padded(a, width).drop_last() =~= padded(a / 10, (width - 1) as nat));
        assert(padded(b, width).drop_last() =~= padded(b / 10, (width - 1) as nat));
        lemma_padded_tells(a / 10, b / 10, (width - 1) as nat);
    }
}

/// The minus sign of a number that is below zero.
pub open spec fn sign_text(n: Num) -> Seq<char> {
    if n.0 < 0 {
        "-"@
    } else {
        ""@
    }
}

/// The shape of a number's text: an optional minus sign, digits, and where it
/// has decimal places a point and as many digits.
proof fn lemma_shape(n: Num, places: nat)
    ensures
        ({
            let t = fixed_text(n, places);
            let front = sign_text(n).len() as int;
            let end = t.len() - (if places > 0 {
                places + 1
            } else {
                0
            });
            &&& front == if n.0 < 0 {
                1int
            } else {
                0
            }
            &&& n.0 < 0 ==> t[0] == '-'
            &&& front < end <= t.len()
            &&& t.subrange(front, end) == digits(whole_part(n))
            &&& all_digits(t.subrange(front, end))
            &&& places > 0 ==> t[end] == '.' && t.subrange(end + 1, t.len() as int) == padded(
                fraction_part(n, places),
                places,
            )
            &&& all_digits(t.subrange(t.len() - places, t.len() as int))
        }),
{
    reveal_strlit("-");
    reveal_strlit("");
    reveal_strlit(".");
    let t = fixed_text(n, places);
    let w = digits(whole_part(n));
    lemma_digits(whole_part(n));
    lemma_padded(fraction_part(n, places), places);
    let front = sign_text(n).len() as int;
    let end = front + w.len();
    assert(t.subrange(front, end) =~= w);
    if places > 0 {
        assert(t.subrange(end + 1, t.len() as int) =~= padded(fraction_part(n, places), places));
    }
}

proof fn lemma_fraction_bound(n: Num, places: nat)
    requires
        n.1 <= places,
    ensures
        fraction_part(n, places) < pow10(places),
        fraction_part(n, places) == (abs(n.0) % pow10(n.1)) * pow10((places - n.1) as nat),
        rescaled(n, places) >= 0 <==> n.0 >= 0,
        abs(rescaled(n, places)) == whole_part(n) * pow10(places) + fraction_part(n, places),
{
    let unit = pow10(n.1);
    let grow = pow10((places - n.1) as nat);
    lemma_pow10_positive(n.1);
    lemma_pow10_positive((places - n.1) as nat);
    lemma_pow10_adds(n.1, (places - n.1) as nat);
    let m = abs(n.0);
    let q = m / unit;
    let r = m % unit;
    assert(m == q * unit + r) by (nonlinear_arith)
        requires
            unit >= 1,
            q == m / unit,
            r == m % unit,
    ;
    assert(0 <= r < unit && 0 <= q) by (nonlinear_arith)
        requires
            unit >= 1,
            m >= 0,
            q == m / unit,
            r == m % unit,
    ;
    assert(0 <= r * grow < unit * grow) by (nonlinear_arith)
        requires
            0 <= r < unit,
            grow >= 1,
    ;
    assert(m * grow == q * (unit * grow) + r * grow) by (nonlinear_arith)
        requires
            m == q * unit + r,
    ;
    let x = n.0;
    assert(x >= 0 ==> x * grow >= 0) by (nonlinear_arith)
        requires
            grow >= 1,
    ;
    assert(x < 0 ==> x * grow < 0 && (-x) * grow == -(x * grow)) by (nonlinear_arith)
        requires
            grow >= 1,
    ;
    if places == n.1 {
        assert(pow10(0) == 1);
        assert((r / 1) as nat == r);
    }
}

/// Two numbers with the same text, each with all its decimal places or more, are
/// equal when they are written with those places.
proof fn lemma_text_tells(a: Num, b: Num, p: nat, q: nat)
    requires
        a.1 <= p,
        b.1 <= q,
        fixed_text(a, p) == fixed_text(b, q),
    ensures
        p == q,
        rescaled(a, p) == rescaled(b, q),
{
    let t = fixed_text(a, p);
    lemma_shape(a, p);
    lemma_shape(b, q);
    lemma_fraction_bound(a, p);
    lemma_fraction_bound(b, q);
    let fa = sign_text(a).len() as int;
    let fb = sign_text(b).len() as int;
    let ea = t.len() - (if p > 0 {
        p + 1
    } else {
        0
    });
    let eb = t.len() - (if q > 0 {
        q + 1
    } else {
        0
    });
    let wa = t.subrange(fa, ea);
    let wb = t.subrange(fb, eb);
    if fa == 1 && fb == 0 {
        assert(is_digit(wb[0]));
        assert(t[0] == wb[0]);
    }
    if fa == 0 && fb == 1 {
        assert(is_digit(wa[0]));
        assert(t[0] == wa[0]);
    }
    assert(fa == fb);
    if p > 0 && p != q {
        // The point of the one stands among the digits of the other.
        if p < q {
            let tail = t.subrange(t.len() - q, t.len() as int);
            assert(is_digit(tail[ea - (t.len() - q)]));
            assert(t[ea] == tail[ea - (t.len() - q)]);
        } else {
            lemma_point_apart(t, fb, eb, ea, wb);
        }
    }
    if p == 0 && q > 0 {
        lemma_point_apart(t, fa, ea, eb, wa);
    }
    assert(p == q);
    lemma_digits_tell(whole_part(a), whole_part(b));
    if p > 0 {
        lemma_padded_tells(fraction_part(a, p), fraction_part(b, p), p);
    } else {
        assert(pow10(0) == 1);
    }
}

proof fn lemma_point_apart(t: Seq<char>, front: int, end: int, at: int, whole: Seq<char>)
    requires
        0 <= front <= 1,
        front < end <= t.len(),
        whole == t.subrange(front, end),
        all_digits(whole),
        0 < at < end,
    ensures
        t[at] != '.',
{
    assert(is_digit(whole[at - front]));
}

// ---------------------------------------------------------------------------
// Amounts
// ---------------------------------------------------------------------------

/// The text of an amount is an optional minus sign, at least one digit, a point
/// and exactly two digits.
pub proof fn amounts_have_two_places(n: Num)
    ensures
        ({
            let t = fixed_text(n, 2);
            let front = if n.0 < 0 {
                1int
            } else {
                0
            };
            &&& t.len() >= front + 4
            &&& n.0 < 0 ==> t[0] == '-'
            &&& all_digits(t.subrange(front, t.len() - 3))
            &&& t[t.len() - 3] == '.'
            &&& all_digits(t.subrange(t.len() - 2, t.len() as int))
        }),
{
    lemma_shape(n, 2);
    lemma_digits(whole_part(n));
}

/// Amounts of at most two places that are written alike are worth the same.
pub proof fn amounts_are_told_apart(a: Num, b: Num)
    requires
        a.1 <= 2,
        b.1 <= 2,
        fixed_text(a, 2) == fixed_text(b, 2),
    ensures
        worth(a) == worth(b),
{
    lemma_text_tells(a, b, 2, 2);
    lemma_worth_rescaled(a, 2);
    lemma_worth_rescaled(b, 2);
}

/// An amount of at most two places reads back from its text.
pub proof fn amounts_read_back(a: Num, r: Result<Decimal, String>)
    requires
        a.1 <= 2,
        representable(a),
        is_reading(r, fixed_text(a, 2)),
    ensures
        r matches Ok(d) && worth(d@) == worth(a),
{
    assert(reads_worth(r, a));
}

// ---------------------------------------------------------------------------
// Quantities
// ---------------------------------------------------------------------------

/// Whether a number has no zeros at the end of its decimal places.
pub open spec fn is_normal(n: Num) -> bool {
    if n.0 == 0 {
        n.1 == 0
    } else {
        n.1 == 0 || n.0 % 10 != 0
    }
}

proof fn lemma_normal(n: Num)
    ensures
        is_normal(normalized(n)),
        normalized(n).1 <= n.1,
        abs(normalized(n).0) <= abs(n.0),
    decreases n.1,
{
    if n.0 != 0 && n.1 != 0 && n.0 % 10 == 0 {
        lemma_normal((n.0 / 10, (n.1 - 1) as nat));
    }
}

proof fn lemma_normal_forms(a: Num, b: Num)
    requires
        is_normal(a),
        is_normal(b),
        a.1 <= b.1 <= max_places(),
        worth(a) == worth(b),
    ensures
        a == b,
{
    lemma_worth_sign(a);
    lemma_worth_sign(b);
    let f = pow10((max_places() - b.1) as nat);
    let g = pow10((b.1 - a.1) as nat);
    lemma_pow10_positive((max_places() - b.1) as nat);
    lemma_pow10_adds((b.1 - a.1) as nat, (max_places() - b.1) as nat);
    let x = a.0;
    let y = b.0;
    assert(x * (g * f) == (x * g) * f) by (nonlinear_arith);
    assert(x * g == y) by (nonlinear_arith)
        requires
            (x * g) * f == y * f,
            f >= 1,
    ;
    if a.1 < b.1 {
        let h = pow10((b.1 - a.1 - 1) as nat);
        assert(g == 10 * h);
        assert(y == 10 * (x * h)) by (nonlinear_arith)
            requires
                x * g == y,
                g == 10 * h,
        ;
        assert(y % 10 == 0);
    } else {
        assert(g == 1);
    }
}

/// Quantities are written alike exactly where they are worth the same.
pub proof fn quantities_are_told_apart(a: Num, b: Num)
    requires
        a.1 <= max_places(),
        b.1 <= max_places(),
    ensures
        plain_text(normalized(a)) == plain_text(normalized(b)) <==> worth(a) == worth(b),
{
    let x = normalized(a);
    let y = normalized(b);
    lemma_normal(a);
    lemma_normal(b);
    lemma_normalized_worth(a);
    lemma_normalized_worth(b);
    if plain_text(x) == plain_text(y) {
        lemma_text_tells(x, y, x.1, y.1);
        assert(pow10(0) == 1);
        assert(x.0 * 1 == x.0 && y.0 * 1 == y.0);
    }
    if worth(a) == worth(b) {
        if x.1 <= y.1 {
            lemma_normal_forms(x, y);
        } else {
            lemma_normal_forms(y, x);
        }
    }
}

/// A quantity reads back from its text.
pub proof fn quantities_read_back(a: Num, r: Result<Decimal, String>)
    requires
        representable(a),
        is_reading(r, plain_text(normalized(a))),
    ensures
        r matches Ok(d) && worth(d@) == worth(a),
{
    lemma_normal(a);
    lemma_normalized_worth(a);
    assert(reads(r, normalized(a)));
}

/// The text of a quantity holds a point only where it is no whole number, and
/// then does not end in a zero.
pub proof fn quantities_end_plainly(a: Num)
    requires
        a.1 <= max_places(),
    ensures
        ({
            let t = plain_text(normalized(a));
            &&& t.contains('.') <==> worth(a) % pow10(max_places()) != 0
            &&& t.contains('.') ==> t.last() != '0'
        }),
{
    let n = normalized(a);
    let t = plain_text(n);
    lemma_normal(a);
    lemma_normalized_worth(a);
    lemma_shape(n, n.1);
    let unit = pow10(n.1);
    let rest = pow10((max_places() - n.1) as nat);
    lemma_pow10_positive(n.1);
    lemma_pow10_positive((max_places() - n.1) as nat);
    lemma_pow10_adds(n.1, (max_places() - n.1) as nat);
    let x = n.0;
    if n.1 == 0 {
        assert(unit == 1);
        assert((x * rest) % rest == 0) by (nonlinear_arith)
            requires
                rest >= 1,
        ;
        assert forall|i: int| 0 <= i < t.len() implies t[i] != '.' by {
            let front = sign_text(n).len() as int;
            if i >= front {
                assert(is_digit(t.subrange(front, t.len() as int)[i - front]));
            }
        }
    } else {
        let end = t.len() - (n.1 + 1);
        assert(t[end] == '.');
        let smaller = pow10((n.1 - 1) as nat);
        if worth(n) % pow10(max_places()) == 0 {
            lemma_divides_down(x, unit, rest);
            lemma_tenth(x, unit, smaller);
        }
        let f = fraction_part(n, n.1);
        lemma_fraction_bound(n, n.1);
        assert(pow10(0) == 1);
        assert(f == abs(x) % unit);
        lemma_last_digit(abs(x), unit, smaller);
        lemma_digit((f % 10) as int);
        let tail = t.subrange(end + 1, t.len() as int);
        assert(tail.last() == digit((f % 10) as int));
        assert(t.last() == tail.last());
        assert(digit(0) == '0') by {
            lemma_digit(0);
        }
        lemma_digit(0);
    }
}

proof fn lemma_divides_down(x: int, unit: int, rest: int)
    requires
        unit >= 1,
        rest >= 1,
        (x * rest) % (unit * rest) == 0,
    ensures
        x % unit == 0,
{
    let k = (x * rest) / (unit * rest);
    assert(unit * rest >= 1) by (nonlinear_arith)
        requires
            unit >= 1,
            rest >= 1,
    ;
    vstd::arithmetic::div_mod::lemma_fundamental_div_mod(x * rest, unit * rest);
    assert(x == k * unit) by (nonlinear_arith)
        requires
            x * rest == (unit * rest) * k,
            rest >= 1,
    ;
    vstd::arithmetic::div_mod::lemma_mod_multiples_basic(k, unit);
}

proof fn lemma_tenth(x: int, unit: int, smaller: int)
    requires
        unit == 10 * smaller,
        smaller >= 1,
        x % unit == 0,
    ensures
        x % 10 == 0,
{
    let k = x / unit;
    vstd::arithmetic::div_mod::lemma_fundamental_div_mod(x, unit);
    assert(x == 10 * (smaller * k)) by (nonlinear_arith)
        requires
            x == unit * k,
            unit == 10 * smaller,
    ;
}

proof fn lemma_last_digit(m: int, unit: int, smaller: int)
    requires
        m >= 0,
        unit == 10 * smaller,
        smaller >= 1,
    ensures
        (m % unit) % 10 == m % 10,
{
    let k = m / unit;
    vstd::arithmetic::div_mod::lemma_fundamental_div_mod(m, unit);
    assert(m == 10 * (smaller * k) + m % unit) by (nonlinear_arith)
        requires
            m == unit * k + m % unit,
            unit == 10 * smaller,
    ;
}

} // verus!
