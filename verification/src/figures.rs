//! How figures are written in reports.

use crate::date::{iso_text, opt_day, Date, Day};
use crate::decimal::{
    fixed_text, fraction_part, normalized, opt, plain_text, whole_part, Decimal, Num,
};
use crate::text::{cat2, cat3, cat4, digits, int_text, padded, show_int, show_nat, show_padded};
use vstd::prelude::*;

verus! {

/// An amount: blank for zero, otherwise to two decimals.
pub open spec fn money_text(n: Num) -> Seq<char> {
    if n.0 == 0 {
        ""@
    } else {
        fixed_text(n, 2)
    }
}

/// Write an amount: blank for zero, otherwise to two decimals, which keeps
/// columns easy to scan.
pub fn money(amount: Decimal) -> (r: String)
    ensures
        r@ == money_text(amount@),
{
    if amount.is_zero() {
        "".to_owned()
    } else {
        amount.to_fixed(2)
    }
}

/// An amount to two decimals; blank where there is none.
pub open spec fn opt_money_text(n: Option<Num>) -> Seq<char> {
    match n {
        Some(n) => money_text(n),
        None => ""@,
    }
}

pub fn opt_money(amount: Option<Decimal>) -> (r: String)
    ensures
        r@ == opt_money_text(opt(amount)),
{
    match amount {
        Some(a) => money(a),
        None => "".to_owned(),
    }
}

/// A natural number in decimal, its digits in groups of three.
pub open spec fn grouped_digits(n: nat) -> Seq<char>
    decreases n,
{
    if n < 1000 {
        digits(n)
    } else {
        grouped_digits(n / 1000) + ","@ + padded(n % 1000, 3)
    }
}

/// A number with exactly `places` digits behind the point, as [`fixed_text`]
/// writes it, and those before it in groups of three.
pub open spec fn grouped_text(n: Num, places: nat) -> Seq<char> {
    let sign = if n.0 < 0 {
        "-"@
    } else {
        ""@
    };
    let whole = sign + grouped_digits(whole_part(n));
    if places == 0 {
        whole
    } else {
        whole + "."@ + padded(fraction_part(n, places), places)
    }
}

fn show_grouped(n: u128) -> (r: String)
    ensures
        r@ == grouped_digits(n as nat),
    decreases n,
{
    if n < 1000 {
        show_nat(n as u64)
    } else {
        let last = show_padded((n % 1000) as u64, 3);
        let front = show_grouped(n / 1000);
        cat3(front.as_str(), ",", last.as_str())
    }
}

/// Write an amount to two decimals, thousands separated: `1,240.00`.
pub fn grouped(amount: Decimal) -> (r: String)
    ensures
        r@ == grouped_text(amount@, 2),
{
    let front = show_grouped(amount.whole());
    let sign = if amount.is_negative() {
        "-"
    } else {
        ""
    };
    let cents = show_padded(amount.cents() as u64, 2);
    cat4(sign, front.as_str(), ".", cents.as_str())
}

/// A quantity: blank for zero, otherwise without zeros at its end.
pub open spec fn qty_text(n: Num) -> Seq<char> {
    if n.0 == 0 {
        ""@
    } else {
        plain_text(normalized(n))
    }
}

/// Write a quantity: blank for zero, otherwise without zeros at its end.
pub fn qty(v: Decimal) -> (r: String)
    ensures
        r@ == qty_text(v@),
{
    if v.is_zero() {
        "".to_owned()
    } else {
        v.normalize().text()
    }
}

pub open spec fn opt_qty_text(n: Option<Num>) -> Seq<char> {
    match n {
        Some(n) => qty_text(n),
        None => ""@,
    }
}

pub fn opt_qty(v: Option<Decimal>) -> (r: String)
    ensures
        r@ == opt_qty_text(opt(v)),
{
    match v {
        Some(v) => qty(v),
        None => "".to_owned(),
    }
}

/// A number as it is; blank where there is none.
pub open spec fn opt_plain_text(n: Option<Num>) -> Seq<char> {
    match n {
        Some(n) => plain_text(n),
        None => ""@,
    }
}

pub fn opt_plain(v: Option<Decimal>) -> (r: String)
    ensures
        r@ == opt_plain_text(opt(v)),
{
    match v {
        Some(v) => v.text(),
        None => "".to_owned(),
    }
}

/// How many there are; blank for none.
pub open spec fn count_text(n: nat) -> Seq<char> {
    if n == 0 {
        ""@
    } else {
        digits(n)
    }
}

pub fn count(n: usize) -> (r: String)
    ensures
        r@ == count_text(n as nat),
{
    if n == 0 {
        "".to_owned()
    } else {
        show_nat(n as u64)
    }
}

/// The window that a report covers, as a clause of its subtitle: empty when it
/// is unbounded.
pub open spec fn window_text(from: Option<Day>, to: Option<Day>) -> Seq<char> {
    match (from, to) {
        (Some(f), Some(t)) => ", "@ + iso_text(f) + " to "@ + iso_text(t),
        (Some(f), None) => ", from "@ + iso_text(f),
        (None, Some(t)) => ", to "@ + iso_text(t),
        (None, None) => ""@,
    }
}

pub fn window(from: Option<Date>, to: Option<Date>) -> (r: String)
    ensures
        r@ == window_text(opt_day(from), opt_day(to)),
{
    match (from, to) {
        (Some(f), Some(t)) => {
            let a = f.iso();
            let b = t.iso();
            cat4(", ", a.as_str(), " to ", b.as_str())
        },
        (Some(f), None) => {
            let a = f.iso();
            cat2(", from ", a.as_str())
        },
        (None, Some(t)) => {
            let b = t.iso();
            cat2(", to ", b.as_str())
        },
        (None, None) => "".to_owned(),
    }
}

/// A whole number with its sign.
pub open spec fn signed_text(n: int) -> Seq<char> {
    if n < 0 {
        int_text(n)
    } else {
        "+"@ + int_text(n)
    }
}

pub fn signed(n: i32) -> (r: String)
    ensures
        r@ == signed_text(n as int),
{
    let shown = show_int(n as i64);
    if n < 0 {
        shown
    } else {
        cat2("+", shown.as_str())
    }
}

} // verus!
