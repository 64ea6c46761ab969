//! Decimal numbers: money, quantities and costs.
//!
//! A [`Decimal`] is a whole number of at most 96 bits and the number of its
//! decimal places. The arithmetic is that of `rust_decimal`; what is stated of
//! it is exact wherever the exact result can be held, and named otherwise.

use crate::sums::{lemma_pow10_adds, lemma_pow10_positive};
use crate::text::{digits, padded};
use vstd::prelude::*;

verus! {

/// A decimal number as mathematics sees it: a whole number, and how many of
/// its digits stand behind the point.
pub type Num = (int, nat);

/// Ten to the power `n`.
pub open spec fn pow10(n: nat) -> int
    decreases n,
{
    if n == 0 {
        1
    } else {
        10 * pow10((n - 1) as nat)
    }
}

/// Whole numbers stay below two to the power 96 in magnitude.
pub open spec fn limit() -> int {
    0x1_0000_0000_0000_0000_0000_0000
}

/// The largest number of decimal places.
pub open spec fn max_places() -> nat {
    28
}

/// The magnitude of an integer.
pub open spec fn abs(n: int) -> int {
    if n < 0 {
        -n
    } else {
        n
    }
}

/// What a number is worth, counted in units of its 28th decimal place.
pub open spec fn worth(n: Num) -> int {
    n.0 * pow10((max_places() - n.1) as nat)
}

/// The numbers a [`Decimal`] can hold.
pub open spec fn representable(n: Num) -> bool {
    abs(n.0) < limit() && n.1 <= max_places()
}

/// Zero.
pub open spec fn zero() -> Num {
    (0int, 0nat)
}

/// A number written with more decimal places, worth the same.
pub open spec fn rescaled(n: Num, places: nat) -> int {
    n.0 * pow10((places - n.1) as nat)
}

pub open spec fn more_places(a: Num, b: Num) -> nat {
    if a.1 >= b.1 {
        a.1
    } else {
        b.1
    }
}

/// Whether `a` and `b`, written with the same number of places, and what they
/// come to with `b` taken `sign` times, are all small enough to be held.
pub open spec fn aligns(a: Num, b: Num, sign: int) -> bool {
    let places = more_places(a, b);
    ||| a.0 == 0
    ||| b.0 == 0
    ||| abs(rescaled(a, places)) < limit() && abs(rescaled(b, places)) < limit() && abs(
        rescaled(a, places) + sign * rescaled(b, places),
    ) < limit()
}

/// The exact sum (`sign` 1) or difference (`sign` -1), with as many places as
/// the operand that has more of them. Zero leaves the other operand as it is.
pub open spec fn combined(a: Num, b: Num, sign: int) -> Num {
    let places = more_places(a, b);
    if a.0 == 0 {
        (sign * b.0, b.1)
    } else if b.0 == 0 {
        a
    } else {
        (rescaled(a, places) + sign * rescaled(b, places), places)
    }
}

/// What `Decimal::checked_add` returns where the exact sum cannot be held.
pub uninterp spec fn rounded_sum(a: (int, nat), b: (int, nat)) -> Option<(int, nat)>;

/// What `Decimal::checked_sub` returns where the exact difference cannot be
/// held.
pub uninterp spec fn rounded_difference(a: (int, nat), b: (int, nat)) -> Option<(int, nat)>;

/// What `Decimal::checked_mul` returns where the exact product cannot be held.
pub uninterp spec fn rounded_product(a: (int, nat), b: (int, nat)) -> Option<(int, nat)>;

/// What `Decimal::checked_div` returns where the whole numbers do not divide.
pub uninterp spec fn rounded_quotient(a: (int, nat), b: (int, nat)) -> Option<(int, nat)>;

/// What `Decimal::from_str` reads from a text, or what its error says.
pub uninterp spec fn parsed(s: Seq<char>) -> Result<(int, nat), Seq<char>>;

/// The sum of two numbers; `None` where it is out of range.
pub open spec fn plus(a: Num, b: Num) -> Option<Num> {
    if aligns(a, b, 1) {
        Some(combined(a, b, 1))
    } else {
        rounded_sum(a, b)
    }
}

/// The difference of two numbers; `None` where it is out of range.
pub open spec fn minus(a: Num, b: Num) -> Option<Num> {
    if aligns(a, b, -1) {
        Some(combined(a, b, -1))
    } else {
        rounded_difference(a, b)
    }
}

/// Whether the exact product can be held.
pub open spec fn multiplies(a: Num, b: Num) -> bool {
    a.0 == 0 || b.0 == 0 || (abs(a.0 * b.0) < limit() && a.1 + b.1 <= max_places())
}

/// The product of two numbers; `None` where it is out of range. A product
/// with zero is zero without decimal places.
pub open spec fn times(a: Num, b: Num) -> Option<Num> {
    if a.0 == 0 || b.0 == 0 {
        Some(zero())
    } else if multiplies(a, b) {
        Some((a.0 * b.0, a.1 + b.1))
    } else {
        rounded_product(a, b)
    }
}

/// Whether the whole numbers divide without a remainder and the quotient has
/// no more places than the dividend.
pub open spec fn divides(a: Num, b: Num) -> bool {
    b.0 != 0 && a.0 % b.0 == 0 && a.1 >= b.1
}

/// Whether the quotient ends within nine more places than the dividend has over
/// the divisor, and both are small enough for those to be computed at once.
pub open spec fn ends_soon(a: Num, b: Num) -> bool {
    &&& b.0 != 0
    &&& abs(b.0) < 0x1_0000_0000
    &&& abs(a.0) < 0x4_0000_0000_0000_0000
    &&& b.1 <= a.1 <= b.1 + 19
    &&& (a.0 * 1_000_000_000) % b.0 == 0
}

/// The exact quotient with nine more places than the dividend has over the
/// divisor.
pub open spec fn with_nine_more(a: Num, b: Num) -> Num {
    ((a.0 * 1_000_000_000) / b.0, (a.1 - b.1 + 9) as nat)
}

/// Whether an outcome is a number that is worth what `n` is.
pub open spec fn comes_to(q: Option<Num>, n: Num) -> bool {
    q matches Some(x) && x.1 <= max_places() && worth(x) == worth(n)
}

/// The quotient of two numbers; `None` where the divisor is zero or the
/// quotient is out of range. One that ends soon is exact; with how many zeros at
/// its end is left open.
pub open spec fn over(a: Num, b: Num) -> Option<Num> {
    if b.0 == 0 {
        None
    } else if a.0 == 0 {
        Some(zero())
    } else if divides(a, b) {
        Some((a.0 / b.0, (a.1 - b.1) as nat))
    } else if ends_soon(a, b) && !comes_to(rounded_quotient(a, b), with_nine_more(a, b)) {
        Some(with_nine_more(a, b))
    } else {
        rounded_quotient(a, b)
    }
}

/// The number with its sign changed.
pub open spec fn negated(n: Num) -> Num {
    (-n.0, n.1)
}

pub open spec fn smaller(a: Num, b: Num) -> Num {
    if worth(b) < worth(a) {
        b
    } else {
        a
    }
}

pub open spec fn larger(a: Num, b: Num) -> Num {
    if worth(a) < worth(b) {
        b
    } else {
        a
    }
}

/// A number in decimal with all its places.
pub open spec fn plain_text(n: Num) -> Seq<char> {
    fixed_text(n, n.1)
}

/// `q` or its successor: a quotient rounded to the nearest whole number, to
/// the even one where both are equally near.
pub open spec fn half_even(magnitude: int, unit: int) -> int {
    let q = magnitude / unit;
    let r = magnitude % unit;
    if 2 * r > unit || (2 * r == unit && q % 2 == 1) {
        q + 1
    } else {
        q
    }
}

/// The number with at most `places` decimal places: the nearest such number,
/// and of two that are equally near the one whose last digit is even.
pub open spec fn rounded(n: Num, places: nat) -> Num {
    if n.1 <= places {
        n
    } else {
        let unit = pow10((n.1 - places) as nat);
        if n.0 < 0 {
            (-half_even(-n.0, unit), places)
        } else {
            (half_even(n.0, unit), places)
        }
    }
}

/// The number without the zeros at the end of its decimal places.
pub open spec fn normalized(n: Num) -> Num
    decreases n.1,
{
    if n.0 == 0 {
        zero()
    } else if n.1 == 0 || n.0 % 10 != 0 {
        n
    } else {
        normalized((n.0 / 10, (n.1 - 1) as nat))
    }
}

/// What stands before the point, without the sign.
pub open spec fn whole_part(n: Num) -> nat {
    (abs(n.0) / pow10(n.1)) as nat
}

/// The first `places` digits behind the point as one number: further digits are
/// cut off, missing ones are zeros.
pub open spec fn fraction_part(n: Num, places: nat) -> nat {
    let rest = abs(n.0) % pow10(n.1);
    if places <= n.1 {
        (rest / pow10((n.1 - places) as nat)) as nat
    } else {
        (rest * pow10((places - n.1) as nat)) as nat
    }
}

/// A number in decimal with exactly `places` digits behind the point: further
/// digits are cut off, missing ones are zeros.
pub open spec fn fixed_text(n: Num, places: nat) -> Seq<char> {
    let sign = if n.0 < 0 {
        "-"@
    } else {
        ""@
    };
    let whole = sign + digits(whole_part(n));
    if places == 0 {
        whole
    } else {
        whole + "."@ + padded(fraction_part(n, places), places)
    }
}

/// A decimal number.
#[derive(Clone, Copy, Debug)]
pub struct Decimal {
    mantissa: i128,
    scale: u32,
}

impl View for Decimal {
    type V = (int, nat);

    closed spec fn view(&self) -> (int, nat) {
        (self.mantissa as int, self.scale as nat)
    }
}

/// What an optional decimal holds.
pub open spec fn opt(d: Option<Decimal>) -> Option<Num> {
    match d {
        Some(d) => Some(d@),
        None => None,
    }
}

// ---------------------------------------------------------------------------
// Outside functions
// ---------------------------------------------------------------------------

/// Calls `rust_decimal::Decimal::checked_add`: the exact sum wherever both
/// operands and the sum can be held with the places of the operand that has
/// more of them, and otherwise a result of the operands alone.
#[verifier::external_body]
fn outside_add(a: Decimal, b: Decimal) -> (r: Option<Decimal>)
    ensures
        aligns(a@, b@, 1) ==> opt(r) == Some(combined(a@, b@, 1)),
        !aligns(a@, b@, 1) ==> opt(r) == rounded_sum(a@, b@),
{
    let x = rust_decimal::Decimal::from_i128_with_scale(a.mantissa, a.scale);
    let y = rust_decimal::Decimal::from_i128_with_scale(b.mantissa, b.scale);
    let z = x.checked_add(y)?;
    Some(Decimal { mantissa: z.mantissa(), scale: z.scale() })
}

/// Calls `rust_decimal::Decimal::checked_sub`: the exact difference wherever
/// both operands and the difference can be held with the places of the operand
/// that has more of them, and otherwise a result of the operands alone.
#[verifier::external_body]
fn outside_sub(a: Decimal, b: Decimal) -> (r: Option<Decimal>)
    ensures
        aligns(a@, b@, -1) ==> opt(r) == Some(combined(a@, b@, -1)),
        !aligns(a@, b@, -1) ==> opt(r) == rounded_difference(a@, b@),
{
    let x = rust_decimal::Decimal::from_i128_with_scale(a.mantissa, a.scale);
    let y = rust_decimal::Decimal::from_i128_with_scale(b.mantissa, b.scale);
    let z = x.checked_sub(y)?;
    Some(Decimal { mantissa: z.mantissa(), scale: z.scale() })
}

/// Calls `rust_decimal::Decimal::checked_mul`: plain zero where an operand is
/// zero, the exact product wherever it can be held, and otherwise a result of
/// the operands alone.
#[verifier::external_body]
fn outside_mul(a: Decimal, b: Decimal) -> (r: Option<Decimal>)
    ensures
        a@.0 == 0 || b@.0 == 0 ==> opt(r) == Some(zero()),
        a@.0 != 0 && b@.0 != 0 && multiplies(a@, b@) ==> opt(r) == Some(
            (a@.0 * b@.0, a@.1 + b@.1),
        ),
        !multiplies(a@, b@) ==> opt(r) == rounded_product(a@, b@),
{
    let x = rust_decimal::Decimal::from_i128_with_scale(a.mantissa, a.scale);
    let y = rust_decimal::Decimal::from_i128_with_scale(b.mantissa, b.scale);
    let z = x.checked_mul(y)?;
    Some(Decimal { mantissa: z.mantissa(), scale: z.scale() })
}

/// Calls `rust_decimal::Decimal::checked_div`: nothing for a divisor of zero,
/// plain zero for a dividend of zero, the exact quotient where the whole
/// numbers divide and the dividend has the places for it, and otherwise a
/// result of the operands alone, which is exact where the quotient ends soon.
#[verifier::external_body]
fn outside_div(a: Decimal, b: Decimal) -> (r: Option<Decimal>)
    ensures
        b@.0 == 0 ==> r is None,
        b@.0 != 0 && a@.0 == 0 ==> opt(r) == Some(zero()),
        a@.0 != 0 && divides(a@, b@) ==> opt(r) == Some((a@.0 / b@.0, (a@.1 - b@.1) as nat)),
        a@.0 != 0 && b@.0 != 0 && !divides(a@, b@) ==> opt(r) == rounded_quotient(a@, b@),
        a@.0 != 0 && ends_soon(a@, b@) ==> r is Some && worth(r->0@) == worth(
            with_nine_more(a@, b@),
        ),
{
    let x = rust_decimal::Decimal::from_i128_with_scale(a.mantissa, a.scale);
    let y = rust_decimal::Decimal::from_i128_with_scale(b.mantissa, b.scale);
    let z = x.checked_div(y)?;
    Some(Decimal { mantissa: z.mantissa(), scale: z.scale() })
}

/// Calls `rust_decimal::Decimal::round_dp`, which rounds to the nearest
/// number with that many places and settles ties by the even last digit.
#[verifier::external_body]
fn outside_round(a: Decimal, places: u32) -> (r: Decimal)
    ensures
        r@ == rounded(a@, places as nat),
{
    let z = rust_decimal::Decimal::from_i128_with_scale(a.mantissa, a.scale).round_dp(places);
    Decimal { mantissa: z.mantissa(), scale: z.scale() }
}

/// Calls `rust_decimal::Decimal::normalize`, which strips the zeros at the end
/// of the decimal places and turns any zero into plain zero.
#[verifier::external_body]
fn outside_normalize(a: Decimal) -> (r: Decimal)
    ensures
        r@ == normalized(a@),
{
    let z = rust_decimal::Decimal::from_i128_with_scale(a.mantissa, a.scale).normalize();
    Decimal { mantissa: z.mantissa(), scale: z.scale() }
}

/// Calls `rust_decimal::Decimal`'s `<`, which orders numbers by their worth.
#[verifier::external_body]
fn outside_less(a: Decimal, b: Decimal) -> (r: bool)
    ensures
        r == (worth(a@) < worth(b@)),
{
    rust_decimal::Decimal::from_i128_with_scale(a.mantissa, a.scale)
        < rust_decimal::Decimal::from_i128_with_scale(b.mantissa, b.scale)
}

/// Writes `rust_decimal::Decimal`'s `Display` form with a precision, which
/// cuts further digits off and fills missing ones with zeros. It writes into a
/// buffer of 32 characters, which 29 digits with a point and two more places
/// just fill.
#[verifier::external_body]
fn outside_fixed(a: Decimal, places: u32) -> (r: String)
    requires
        places <= 2 || places <= a@.1,
    ensures
        r@ == fixed_text(a@, places as nat),
{
    let z = rust_decimal::Decimal::from_i128_with_scale(a.mantissa, a.scale);
    format!("{:.*}", places as usize, z)
}

/// What a reading says.
pub open spec fn reading(r: Result<Decimal, String>) -> Result<Num, Seq<char>> {
    match r {
        Ok(d) => Ok(d@),
        Err(e) => Err(e@),
    }
}

/// Whether a reading is that number.
pub open spec fn reads(r: Result<Decimal, String>, n: Num) -> bool {
    r matches Ok(d) && d@ == n
}

/// Whether a reading is a number that is worth what `n` is.
pub open spec fn reads_worth(r: Result<Decimal, String>, n: Num) -> bool {
    r matches Ok(d) && worth(d@) == worth(n)
}

/// Whether a reading is that of a text: what it reads, or what its error says,
/// depends on the text alone; a number written out with all its places reads
/// back as it was, and zeros behind them change nothing of what it is worth.
pub open spec fn is_reading(r: Result<Decimal, String>, s: Seq<char>) -> bool {
    &&& reading(r) == parsed(s)
    &&& forall|n: Num| representable(n) && s == #[trigger] plain_text(n) ==> reads(r, n)
    &&& forall|n: Num, places: nat|
        representable(n) && n.1 <= places <= max_places() && s == #[trigger] fixed_text(n, places)
            ==> reads_worth(r, n)
}

/// Calls `rust_decimal::Decimal::from_str`; what it reads, or what its error
/// says, depends on the text alone. It takes the digits of a text one by one
/// and rounds only what does not fit, so that a number written out with all its
/// places reads back as it was. Zeros behind them are taken as far as they fit
/// and dropped beyond, which leaves what the number is worth.
#[verifier::external_body]
fn outside_parse(s: &str) -> (r: Result<Decimal, String>)
    ensures
        reading(r) == parsed(s@),
        forall|n: Num| representable(n) && s@ == #[trigger] plain_text(n) ==> reads(r, n),
        forall|n: Num, places: nat|
            representable(n) && n.1 <= places <= max_places() && s@ == #[trigger] fixed_text(
                n,
                places,
            ) ==> reads_worth(r, n),
{
    let read: Result<rust_decimal::Decimal, rust_decimal::Error> = s.parse();
    match read {
        Ok(z) => Ok(Decimal { mantissa: z.mantissa(), scale: z.scale() }),
        Err(e) => Err(e.to_string()),
    }
}

// ---------------------------------------------------------------------------
// Powers of ten
// ---------------------------------------------------------------------------

proof fn lemma_pow10_bound(n: nat)
    requires
        n <= 28,
    ensures
        1 <= pow10(n) <= 10_000_000_000_000_000_000_000_000_000,
{
    lemma_pow10_positive(n);
    lemma_pow10_positive((28 - n) as nat);
    lemma_pow10_adds(n, (28 - n) as nat);
    assert(pow10(7) == 10_000_000) by {
        reveal_with_fuel(pow10, 8);
    }
    lemma_pow10_adds(7, 7);
    lemma_pow10_adds(14, 14);
    assert(10_000_000 * 10_000_000 == 100_000_000_000_000int);
    assert(100_000_000_000_000int * 100_000_000_000_000
        == 10_000_000_000_000_000_000_000_000_000);
    assert(pow10(14) == 100_000_000_000_000);
    assert(pow10(28) == 10_000_000_000_000_000_000_000_000_000);
    let a = pow10(n);
    let b = pow10((28 - n) as nat);
    assert(a <= a * b) by (nonlinear_arith)
        requires
            a >= 1,
            b >= 1,
    ;
}

proof fn lemma_quotient(a: int, b: int)
    requires
        0 <= a,
        1 <= b,
    ensures
        0 <= a / b <= a,
{
    assert(0 <= a / b <= a) by (nonlinear_arith)
        requires
            0 <= a,
            1 <= b,
    ;
}

proof fn lemma_below(rest: int, cut: int, places: int)
    requires
        0 <= rest < cut * places,
        1 <= cut,
    ensures
        0 <= rest / cut < places,
{
    assert(0 <= rest / cut < places) by (nonlinear_arith)
        requires
            0 <= rest < cut * places,
            1 <= cut,
    ;
}

proof fn lemma_scaled_below(rest: int, unit: int, grow: int)
    requires
        0 <= rest < unit,
        1 <= grow,
        unit * grow == 100,
    ensures
        0 <= rest * grow < 100,
{
    assert(0 <= rest * grow < 100) by (nonlinear_arith)
        requires
            0 <= rest < unit,
            1 <= grow,
            unit * grow == 100,
    ;
}

/// Ten to the power `n`.
fn power(n: u32) -> (r: u128)
    requires
        n <= 28,
    ensures
        r == pow10(n as nat),
        r >= 1,
{
    let mut r: u128 = 1;
    let mut i: u32 = 0;
    while i < n
        invariant
            i <= n <= 28,
            r == pow10(i as nat),
            r >= 1,
        decreases n - i,
    {
        proof {
            lemma_pow10_bound(i as nat);
        }
        r = r * 10;
        i = i + 1;
    }
    r
}

// ---------------------------------------------------------------------------
// The type
// ---------------------------------------------------------------------------

impl Decimal {
    #[verifier::type_invariant]
    closed spec fn well_formed(self) -> bool {
        representable((self.mantissa as int, self.scale as nat))
    }

    /// `num` with its last `scale` digits behind the point.
    pub fn new(num: i64, scale: u32) -> (r: Decimal)
        requires
            scale <= 28,
        ensures
            r@ == (num as int, scale as nat),
    {
        Decimal { mantissa: num as i128, scale }
    }

    pub fn zero() -> (r: Decimal)
        ensures
            r@ == zero(),
    {
        Decimal { mantissa: 0, scale: 0 }
    }

    pub fn one_hundred() -> (r: Decimal)
        ensures
            r@ == (100int, 0nat),
    {
        Decimal { mantissa: 100, scale: 0 }
    }

    /// A whole number.
    pub fn from_int(n: i64) -> (r: Decimal)
        ensures
            r@ == (n as int, 0nat),
    {
        Decimal { mantissa: n as i128, scale: 0 }
    }

    /// A count.
    pub fn from_count(n: usize) -> (r: Decimal)
        ensures
            r@ == (n as int, 0nat),
    {
        Decimal { mantissa: n as i128, scale: 0 }
    }

    /// The number with this whole number and these places, where there is one.
    pub fn from_parts(mantissa: i128, scale: u32) -> (r: Option<Decimal>)
        ensures
            opt(r) == if representable((mantissa as int, scale as nat)) {
                Some((mantissa as int, scale as nat))
            } else {
                None
            },
    {
        if scale <= 28 && -0x1_0000_0000_0000_0000_0000_0000 < mantissa && mantissa
            < 0x1_0000_0000_0000_0000_0000_0000 {
            Some(Decimal { mantissa, scale })
        } else {
            None
        }
    }

    /// The number a text stands for, or why it stands for none. A number
    /// written out with all its places reads back as it was.
    pub fn parse(s: &str) -> (r: Result<Decimal, String>)
        ensures
            is_reading(r, s@),
    {
        outside_parse(s)
    }

    /// The whole number.
    pub fn mantissa(&self) -> (r: i128)
        ensures
            r == self@.0,
    {
        self.mantissa
    }

    /// How many of its digits stand behind the point.
    pub fn scale(&self) -> (r: u32)
        ensures
            r == self@.1,
            r <= 28,
    {
        proof {
            use_type_invariant(self);
        }
        self.scale
    }

    pub fn checked_add(self, other: Decimal) -> (r: Option<Decimal>)
        ensures
            opt(r) == plus(self@, other@),
    {
        outside_add(self, other)
    }

    pub fn checked_sub(self, other: Decimal) -> (r: Option<Decimal>)
        ensures
            opt(r) == minus(self@, other@),
    {
        outside_sub(self, other)
    }

    pub fn checked_mul(self, other: Decimal) -> (r: Option<Decimal>)
        ensures
            opt(r) == times(self@, other@),
    {
        outside_mul(self, other)
    }

    pub fn checked_div(self, other: Decimal) -> (r: Option<Decimal>)
        ensures
            opt(r) == over(self@, other@),
    {
        let r = outside_div(self, other);
        proof {
            if let Some(q) = r {
                use_type_invariant(&q);
            }
        }
        r
    }

    /// The nearest number with at most `places` decimal places.
    pub fn round_dp(self, places: u32) -> (r: Decimal)
        ensures
            r@ == rounded(self@, places as nat),
    {
        outside_round(self, places)
    }

    pub fn normalize(self) -> (r: Decimal)
        ensures
            r@ == normalized(self@),
    {
        outside_normalize(self)
    }

    pub fn negate(self) -> (r: Decimal)
        ensures
            r@ == negated(self@),
    {
        proof {
            use_type_invariant(&self);
        }
        Decimal { mantissa: -self.mantissa, scale: self.scale }
    }

    pub fn is_zero(&self) -> (r: bool)
        ensures
            r == (self@.0 == 0),
    {
        self.mantissa == 0
    }

    pub fn is_negative(&self) -> (r: bool)
        ensures
            r == (self@.0 < 0),
    {
        self.mantissa < 0
    }

    pub fn is_positive(&self) -> (r: bool)
        ensures
            r == (self@.0 > 0),
    {
        self.mantissa > 0
    }

    /// Whether the number is worth less than `other`.
    pub fn less(&self, other: &Decimal) -> (r: bool)
        ensures
            r == (worth(self@) < worth(other@)),
    {
        outside_less(*self, *other)
    }

    /// Whether the two numbers are worth the same.
    pub fn equals(&self, other: &Decimal) -> (r: bool)
        ensures
            r == (worth(self@) == worth(other@)),
    {
        !outside_less(*self, *other) && !outside_less(*other, *self)
    }

    /// The smaller of the two numbers; this one where they are worth the same.
    pub fn min(self, other: Decimal) -> (r: Decimal)
        ensures
            r@ == smaller(self@, other@),
    {
        if other.less(&self) {
            other
        } else {
            self
        }
    }

    /// The larger of the two numbers; this one where they are worth the same.
    pub fn max(self, other: Decimal) -> (r: Decimal)
        ensures
            r@ == larger(self@, other@),
    {
        if self.less(&other) {
            other
        } else {
            self
        }
    }

    /// What stands before the point, without the sign.
    pub fn whole(&self) -> (r: u128)
        ensures
            r == whole_part(self@),
    {
        proof {
            use_type_invariant(self);
            lemma_pow10_bound(self@.1);
        }
        let unit: u128 = power(self.scale);
        let r: u128 = self.magnitude() / unit;
        proof {
            lemma_quotient(abs(self@.0), unit as int);
        }
        r
    }

    /// The first two digits behind the point as one number.
    pub fn cents(&self) -> (r: u128)
        ensures
            r == fraction_part(self@, 2),
            r < 100,
    {
        proof {
            use_type_invariant(self);
            lemma_pow10_bound(self@.1);
            reveal_with_fuel(pow10, 3);
        }
        let unit: u128 = power(self.scale);
        let rest: u128 = self.magnitude() % unit;
        if self.scale >= 2 {
            let cut: u128 = power(self.scale - 2);
            proof {
                lemma_pow10_adds((self@.1 - 2) as nat, 2);
                lemma_pow10_bound((self@.1 - 2) as nat);
                lemma_below(rest as int, cut as int, 100);
            }
            rest / cut
        } else {
            let grow: u128 = power(2 - self.scale);
            proof {
                lemma_pow10_adds((2 - self@.1) as nat, self@.1);
                lemma_scaled_below(rest as int, unit as int, grow as int);
            }
            rest * grow
        }
    }

    fn magnitude(&self) -> (r: u128)
        ensures
            r == abs(self@.0),
    {
        proof {
            use_type_invariant(self);
        }
        if self.mantissa < 0 {
            (-self.mantissa) as u128
        } else {
            self.mantissa as u128
        }
    }

    /// The number in decimal with exactly `places` digits behind the point: two
    /// at most, or no more than it has.
    pub fn to_fixed(&self, places: u32) -> (r: String)
        requires
            places <= 2 || places <= self@.1,
        ensures
            r@ == fixed_text(self@, places as nat),
    {
        outside_fixed(*self, places)
    }

    /// The number in decimal, with all its places.
    pub fn text(&self) -> (r: String)
        ensures
            r@ == plain_text(self@),
    {
        outside_fixed(*self, self.scale())
    }
}

impl PartialEq for Decimal {
    fn eq(&self, other: &Decimal) -> (r: bool) {
        self.equals(other)
    }
}

impl vstd::std_specs::cmp::PartialEqSpecImpl for Decimal {
    open spec fn obeys_eq_spec() -> bool {
        true
    }

    open spec fn eq_spec(&self, other: &Decimal) -> bool {
        worth(self@) == worth(other@)
    }
}

} // verus!
