//! What dashboard tiles are made of.

use crate::date::{month_name, Date, Day};
use crate::decimal::{Decimal, Num};
use crate::text::{cat3, opt_text, padded, show_padded};
use vstd::prelude::*;

verus! {

/// Which way a figure points.
#[derive(Clone, Copy, Debug, PartialEq, Eq, Structural)]
pub enum TrendDirection {
    Up,
    Down,
    Flat,
}

/// Which way an amount points: up for a gain, down for a loss.
pub open spec fn trend(n: Num) -> TrendDirection {
    if n.0 == 0 {
        TrendDirection::Flat
    } else if n.0 > 0 {
        TrendDirection::Up
    } else {
        TrendDirection::Down
    }
}

pub fn trend_of(amount: Decimal) -> (r: TrendDirection)
    ensures
        r == trend(amount@),
{
    if amount.is_zero() {
        TrendDirection::Flat
    } else if amount.is_positive() {
        TrendDirection::Up
    } else {
        TrendDirection::Down
    }
}

/// A labelled amount of a chart.
#[derive(Debug)]
pub struct Slice {
    pub label: String,
    pub amount: Decimal,
}

/// What a labelled amount says.
pub type Share = (Seq<char>, Num);

impl View for Slice {
    type V = (Seq<char>, (int, nat));

    open spec fn view(&self) -> (Seq<char>, (int, nat)) {
        (self.label@, self.amount@)
    }
}

pub open spec fn shares(list: Seq<Slice>) -> Seq<Share> {
    list.map_values(|s: Slice| s@)
}

/// A line of a list: a title, what stands under it, and an amount.
#[derive(Debug)]
pub struct ListItem {
    pub title: String,
    pub subtitle: String,
    pub value: Decimal,
}

/// What a line of a list says.
pub type Entry = (Seq<char>, Seq<char>, Num);

impl View for ListItem {
    type V = (Seq<char>, Seq<char>, (int, nat));

    open spec fn view(&self) -> (Seq<char>, Seq<char>, (int, nat)) {
        (self.title@, self.subtitle@, self.value@)
    }
}

pub open spec fn entries(list: Seq<ListItem>) -> Seq<Entry> {
    list.map_values(|i: ListItem| i@)
}

/// `15 Jul`.
pub open spec fn day_text(d: Day) -> Seq<char> {
    padded(d.2 as nat, 2) + " "@ + month_name(d.1)
}

/// `15 Jul`.
pub fn show_day(date: &Date) -> (r: String)
    ensures
        r@ == day_text(date@),
{
    let day = show_padded(date.day() as u64, 2);
    let m: u32 = date.month();
    let month = if m == 1 {
        "Jan"
    } else if m == 2 {
        "Feb"
    } else if m == 3 {
        "Mar"
    } else if m == 4 {
        "Apr"
    } else if m == 5 {
        "May"
    } else if m == 6 {
        "Jun"
    } else if m == 7 {
        "Jul"
    } else if m == 8 {
        "Aug"
    } else if m == 9 {
        "Sep"
    } else if m == 10 {
        "Oct"
    } else if m == 11 {
        "Nov"
    } else {
        "Dec"
    };
    cat3(day.as_str(), " ", month)
}

/// A number of a document; a dash where it has none yet.
pub open spec fn number_or_dash(number: Option<Seq<char>>) -> Seq<char> {
    match number {
        Some(n) => n,
        None => "—"@,
    }
}

pub fn show_number(number: &Option<String>) -> (r: String)
    ensures
        r@ == number_or_dash(opt_text(*number)),
{
    match number {
        Some(n) => n.clone(),
        None => "—".to_owned(),
    }
}

} // verus!
