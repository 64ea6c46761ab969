//! The figures of the inventory dashboard.

use super::levels::LevelView;
use super::moves::{move_type_text, MoveDoc};
use crate::decimal::{opt, worth, Decimal, Num};
use crate::error::{in_range, refusal, Error, Refusal};
use crate::search::{first_from, first_where, lemma_first_from};
use crate::sort::{arrange, arranged, Ordered};
use crate::sums::{
    counted, counted_to, keys_of, keys_to, lemma_total_push, picked, picked_to, total,
};
use crate::text::{contains_text, opt_text, same, texts};
use crate::tile::{
    day_text, entries, number_or_dash, shares, show_day, show_number, Entry as Listed, ListItem,
    Share, Slice,
};
use crate::windows::{lemma_newest, newest, newest_places};
use vstd::prelude::*;

verus! {

pub open spec fn its_value() -> spec_fn(LevelView) -> Num {
    |l: LevelView| l.value@
}

pub open spec fn any_level() -> spec_fn(LevelView) -> bool {
    |l: LevelView| true
}

pub open spec fn is_stocked() -> spec_fn(LevelView) -> bool {
    |l: LevelView| l.on_hand@.0 != 0
}

/// What stock is worth, and how many positions hold any.
pub fn stock_value(levels: &Vec<LevelView>) -> (r: Result<(Decimal, usize), Error>)
    ensures
        match total(picked(levels@, any_level(), its_value())) {
            Some(n) => r is Ok && (r->Ok_0).0@ == n && (r->Ok_0).1 == counted(
                levels@,
                is_stocked(),
            ),
            None => refusal(r) == Some(Refusal::Overflow),
        },
{
    let ghost p = any_level();
    let mut sum: Option<Decimal> = Some(Decimal::zero());
    let mut stocked: usize = 0;
    let mut i: usize = 0;
    while i < levels.len()
        invariant
            i <= levels.len(),
            stocked <= i,
            p == any_level(),
            opt(sum) == total(picked_to(levels@, p, its_value(), i as nat)),
            stocked == counted_to(levels@, is_stocked(), i as nat),
        decreases levels.len() - i,
    {
        let l = &levels[i];
        proof {
            assert(p(levels@[i as int]));
            lemma_total_push(picked_to(levels@, p, its_value(), i as nat), l.value@);
        }
        sum = match sum {
            Some(s) => s.checked_add(l.value),
            None => None,
        };
        if !l.on_hand.is_zero() {
            stocked = stocked + 1;
        }
        i = i + 1;
    }
    let sum = in_range(sum)?;
    Ok((sum, stocked))
}

impl Ordered for Slice {
    /// The largest amount stands first.
    open spec fn precedes(a: Self, b: Self) -> bool {
        worth(b.amount@) < worth(a.amount@)
    }

    fn goes_before(&self, other: &Self) -> (r: bool) {
        other.amount.less(&self.amount)
    }
}

// ---------------------------------------------------------------------------
// By warehouse
// ---------------------------------------------------------------------------

pub open spec fn its_warehouse() -> spec_fn(LevelView) -> Seq<char> {
    |l: LevelView| l.warehouse_code@
}

pub open spec fn in_warehouse(code: Seq<char>) -> spec_fn(LevelView) -> bool {
    |l: LevelView| l.warehouse_code@ == code
}

/// What a warehouse holds.
pub open spec fn warehouse_value(levels: Seq<LevelView>, code: Seq<char>) -> Option<Num> {
    total(picked(levels, in_warehouse(code), its_value()))
}

/// What the first `n` warehouses hold, without those that hold nothing. `None`
/// where it leaves the range.
pub open spec fn warehouse_slices_to(levels: Seq<LevelView>, codes: Seq<Seq<char>>, n: nat) -> Option<
    Seq<Share>,
>
    decreases n,
{
    if n == 0 {
        Some(Seq::empty())
    } else {
        match (
            warehouse_slices_to(levels, codes, (n - 1) as nat),
            warehouse_value(levels, codes[n - 1]),
        ) {
            (Some(rest), Some(v)) => Some(
                if v.0 == 0 {
                    rest
                } else {
                    rest.push((codes[n - 1], v))
                },
            ),
            _ => None,
        }
    }
}

proof fn lemma_slices_stop(levels: Seq<LevelView>, codes: Seq<Seq<char>>, i: nat, n: nat)
    requires
        i <= n,
        warehouse_slices_to(levels, codes, i) is None,
    ensures
        warehouse_slices_to(levels, codes, n) is None,
    decreases n,
{
    if i < n {
        lemma_slices_stop(levels, codes, i, (n - 1) as nat);
    }
}

fn warehouse_codes(levels: &Vec<LevelView>) -> (r: Vec<String>)
    ensures
        texts(r@) == keys_of(levels@, any_level(), its_warehouse()),
{
    let mut out: Vec<String> = Vec::new();
    let mut i: usize = 0;
    assert(texts(out@) =~= keys_to(levels@, any_level(), its_warehouse(), 0));
    while i < levels.len()
        invariant
            i <= levels.len(),
            texts(out@) == keys_to(levels@, any_level(), its_warehouse(), i as nat),
        decreases levels.len() - i,
    {
        let code = &levels[i].warehouse_code;
        if !contains_text(&out, code.as_str()) {
            let ghost held = texts(out@);
            out.push(code.clone());
            assert(texts(out@) =~= held.push(code@));
        }
        i = i + 1;
    }
    out
}

fn sum_warehouse(levels: &Vec<LevelView>, code: &str) -> (r: Option<Decimal>)
    ensures
        opt(r) == warehouse_value(levels@, code@),
{
    let ghost p = in_warehouse(code@);
    let mut sum: Option<Decimal> = Some(Decimal::zero());
    let mut i: usize = 0;
    while i < levels.len()
        invariant
            i <= levels.len(),
            p == in_warehouse(code@),
            opt(sum) == total(picked_to(levels@, p, its_value(), i as nat)),
        decreases levels.len() - i,
    {
        let l = &levels[i];
        if same(l.warehouse_code.as_str(), code) {
            proof {
                assert(p(levels@[i as int]));
                lemma_total_push(picked_to(levels@, p, its_value(), i as nat), l.value@);
            }
            sum = match sum {
                Some(s) => s.checked_add(l.value),
                None => None,
            };
        }
        i = i + 1;
    }
    sum
}

/// What each warehouse holds, the most valuable first; those that hold nothing
/// are left out.
pub fn value_by_warehouse(levels: &Vec<LevelView>) -> (r: Result<Vec<Slice>, Error>)
    ensures
        ({
            let codes = keys_of(levels@, any_level(), its_warehouse());
            match warehouse_slices_to(levels@, codes, codes.len()) {
                None => refusal(r) == Some(Refusal::Overflow),
                Some(held) => r is Ok && exists|list: Seq<Slice>|
                    r->Ok_0@ == #[trigger] arranged(list) && shares(list) == held,
            }
        }),
{
    let codes = warehouse_codes(levels);
    let ghost all = texts(codes@);
    let mut out: Vec<Slice> = Vec::new();
    assert(shares(out@) =~= Seq::empty());
    let mut i: usize = 0;
    while i < codes.len()
        invariant
            i <= codes.len(),
            all == texts(codes@),
            all == keys_of(levels@, any_level(), its_warehouse()),
            warehouse_slices_to(levels@, all, i as nat) == Some(shares(out@)),
        decreases codes.len() - i,
    {
        assert(all[i as int] == codes@[i as int]@);
        proof {
            if warehouse_slices_to(levels@, all, (i + 1) as nat) is None {
                lemma_slices_stop(levels@, all, (i + 1) as nat, all.len());
            }
        }
        let amount = in_range(sum_warehouse(levels, codes[i].as_str()))?;
        if !amount.is_zero() {
            let ghost held = shares(out@);
            let slice = Slice { label: codes[i].clone(), amount };
            out.push(slice);
            assert(shares(out@) =~= held.push(slice@));
        }
        i = i + 1;
    }
    let ghost list = out@;
    let sorted = arrange(out);
    assert(sorted@ == arranged(list));
    Ok(sorted)
}

// ---------------------------------------------------------------------------
// By item
// ---------------------------------------------------------------------------

impl Ordered for ListItem {
    /// The largest value stands first.
    open spec fn precedes(a: Self, b: Self) -> bool {
        worth(b.value@) < worth(a.value@)
    }

    fn goes_before(&self, other: &Self) -> (r: bool) {
        other.value.less(&self.value)
    }
}

pub open spec fn its_item() -> spec_fn(LevelView) -> u128 {
    |l: LevelView| l.item_id
}

pub open spec fn of_item(item: u128) -> spec_fn(LevelView) -> bool {
    |l: LevelView| l.item_id == item
}

/// What is held of an item, in all warehouses together.
pub open spec fn item_value(levels: Seq<LevelView>, item: u128) -> Option<Num> {
    total(picked(levels, of_item(item), its_value()))
}

/// What is held of each of the first `n` items, with the name it first comes
/// up with. `None` where it leaves the range.
pub open spec fn item_entries_to(levels: Seq<LevelView>, items: Seq<u128>, n: nat) -> Option<
    Seq<Listed>,
>
    decreases n,
{
    if n == 0 {
        Some(Seq::empty())
    } else {
        let first = first_where(levels, of_item(items[n - 1]))->0;
        match (
            item_entries_to(levels, items, (n - 1) as nat),
            item_value(levels, items[n - 1]),
        ) {
            (Some(rest), Some(v)) => Some(rest.push((first.item_name@, first.sku@, v))),
            _ => None,
        }
    }
}

proof fn lemma_entries_stop(levels: Seq<LevelView>, items: Seq<u128>, i: nat, n: nat)
    requires
        i <= n,
        item_entries_to(levels, items, i) is None,
    ensures
        item_entries_to(levels, items, n) is None,
    decreases n,
{
    if i < n {
        lemma_entries_stop(levels, items, i, (n - 1) as nat);
    }
}

/// The first five of the first `n` that are worth something.
pub open spec fn top_to(list: Seq<ListItem>, n: nat) -> Seq<Listed>
    decreases n,
{
    if n == 0 {
        Seq::empty()
    } else {
        let rest = top_to(list, (n - 1) as nat);
        if rest.len() < 5 && list[n - 1].value@.0 != 0 {
            rest.push(list[n - 1]@)
        } else {
            rest
        }
    }
}

fn stocked_items(levels: &Vec<LevelView>) -> (r: Vec<u128>)
    ensures
        r@ == keys_of(levels@, any_level(), its_item()),
{
    let mut out: Vec<u128> = Vec::new();
    let mut i: usize = 0;
    while i < levels.len()
        invariant
            i <= levels.len(),
            out@ == keys_to(levels@, any_level(), its_item(), i as nat),
        decreases levels.len() - i,
    {
        let id = levels[i].item_id;
        let mut known = false;
        let mut k: usize = 0;
        while k < out.len()
            invariant
                k <= out.len(),
                known == (exists|x: int| 0 <= x < k && #[trigger] out@[x] == id),
            decreases out.len() - k,
        {
            if out[k] == id {
                known = true;
            }
            k = k + 1;
        }
        assert(known == out@.contains(id));
        if !known {
            out.push(id);
        }
        i = i + 1;
    }
    out
}

/// What is held of an item, with the name it first comes up with.
fn sum_item(levels: &Vec<LevelView>, item: u128) -> (r: (Option<Decimal>, Option<usize>))
    ensures
        opt(r.0) == item_value(levels@, item),
        match r.1 {
            Some(i) => i < levels@.len() && first_from(levels@, of_item(item), 0) == Some(
                i as int,
            ),
            None => first_from(levels@, of_item(item), 0) is None,
        },
{
    let ghost p = of_item(item);
    let mut sum: Option<Decimal> = Some(Decimal::zero());
    let mut first: Option<usize> = None;
    let mut i: usize = 0;
    while i < levels.len()
        invariant
            i <= levels.len(),
            p == of_item(item),
            opt(sum) == total(picked_to(levels@, p, its_value(), i as nat)),
            match first {
                Some(k) => k < i && first_from(levels@, p, 0) == Some(k as int),
                None => first_from(levels@, p, 0) == first_from(levels@, p, i as int),
            },
        decreases levels.len() - i,
    {
        let l = &levels[i];
        if l.item_id == item {
            proof {
                assert(p(levels@[i as int]));
                lemma_total_push(picked_to(levels@, p, its_value(), i as nat), l.value@);
            }
            sum = match sum {
                Some(s) => s.checked_add(l.value),
                None => None,
            };
            if first.is_none() {
                first = Some(i);
            }
        }
        i = i + 1;
    }
    (sum, first)
}

/// What comes up in a list was in it.
proof fn lemma_keys_found(levels: Seq<LevelView>, n: nat)
    requires
        n <= levels.len(),
    ensures
        forall|k: int|
            0 <= k < keys_to(levels, any_level(), its_item(), n).len() ==> first_from(
                levels,
                of_item(#[trigger] keys_to(levels, any_level(), its_item(), n)[k]),
                0,
            ) is Some,
    decreases n,
{
    if n > 0 {
        lemma_keys_found(levels, (n - 1) as nat);
        let item = levels[n - 1].item_id;
        lemma_first_from(levels, of_item(item), 0);
        assert(of_item(item)(levels[n - 1]));
    }
}

/// The five items that hold the most value, the most valuable first.
pub fn top_stock_items(levels: &Vec<LevelView>) -> (r: Result<Vec<ListItem>, Error>)
    ensures
        ({
            let items = keys_of(levels@, any_level(), its_item());
            match item_entries_to(levels@, items, items.len()) {
                None => refusal(r) == Some(Refusal::Overflow),
                Some(held) => r is Ok && exists|list: Seq<ListItem>|
                    entries(list) == held && entries(r->Ok_0@) == top_to(
                        #[trigger] arranged(list),
                        arranged(list).len(),
                    ),
            }
        }),
{
    let items = stocked_items(levels);
    let mut all: Vec<ListItem> = Vec::new();
    assert(entries(all@) =~= Seq::empty());
    proof {
        lemma_keys_found(levels@, levels@.len());
    }
    let mut i: usize = 0;
    while i < items.len()
        invariant
            i <= items.len(),
            items@ == keys_of(levels@, any_level(), its_item()),
            forall|k: int|
                0 <= k < items@.len() ==> first_from(levels@, of_item(#[trigger] items@[k]), 0)
                    is Some,
            item_entries_to(levels@, items@, i as nat) == Some(entries(all@)),
        decreases items.len() - i,
    {
        proof {
            if item_entries_to(levels@, items@, (i + 1) as nat) is None {
                lemma_entries_stop(levels@, items@, (i + 1) as nat, items@.len());
            }
            assert(first_from(levels@, of_item(items@[i as int]), 0) is Some);
        }
        let (sum, first) = sum_item(levels, items[i]);
        let value = in_range(sum)?;
        if let Some(k) = first {
            let ghost held = entries(all@);
            let item = ListItem {
                title: levels[k].item_name.clone(),
                subtitle: levels[k].sku.clone(),
                value,
            };
            all.push(item);
            assert(entries(all@) =~= held.push(item@));
        }
        i = i + 1;
    }
    let ghost list = all@;
    let sorted = arrange(all);
    assert(sorted@ == arranged(list));
    let mut out: Vec<ListItem> = Vec::new();
    assert(entries(out@) =~= Seq::empty());
    let mut k: usize = 0;
    while k < sorted.len()
        invariant
            k <= sorted.len(),
            entries(out@) == top_to(sorted@, k as nat),
        decreases sorted.len() - k,
    {
        assert(out@.len() == entries(out@).len());
        if out.len() < 5 && !sorted[k].value.is_zero() {
            let ghost held = entries(out@);
            let l = &sorted[k];
            let item = ListItem {
                title: l.title.clone(),
                subtitle: l.subtitle.clone(),
                value: l.value,
            };
            out.push(item);
            assert(entries(out@) =~= held.push(item@));
        }
        k = k + 1;
    }
    Ok(out)
}

/// The row of a movement among the recent ones; `status` is how it stands.
pub open spec fn movement_cells(m: MoveDoc, status: Seq<char>) -> Seq<Seq<char>> {
    seq![
        number_or_dash(opt_text(m.number)),
        move_type_text(m.move_type),
        day_text(m.entry_date@),
        status,
    ]
}

/// The row of a movement among the recent ones.
pub fn recent_movement(m: &MoveDoc, status: &str) -> (r: Vec<String>)
    ensures
        texts(r@) == movement_cells(*m, status@),
{
    let cells = vec![
        show_number(&m.number),
        m.move_type.as_str().to_owned(),
        show_day(&m.entry_date),
        status.to_owned(),
    ];
    assert(texts(cells@) =~= movement_cells(*m, status@));
    cells
}

/// A movement in the list of the recent ones.
#[derive(Debug)]
pub struct Movement {
    pub doc: MoveDoc,
    /// How it stands.
    pub status: String,
    /// When it was written, in microseconds since the epoch.
    pub created_at: i64,
}

/// When movements were written.
pub open spec fn moved_at(moves: Seq<Movement>) -> Seq<i64> {
    moves.map_values(|m: Movement| m.created_at)
}

/// The rows of the movements that were written last, the latest first.
pub fn recent_movements(moves: &Vec<Movement>) -> (r: Vec<Vec<String>>)
    ensures
        ({
            let newest = newest_places(moved_at(moves@));
            r@.len() == newest.len() && forall|i: int|
                0 <= i < newest.len() ==> {
                    let m = moves@[newest[i].index as int];
                    texts((#[trigger] r@[i])@) == movement_cells(m.doc, m.status@)
                }
        }),
{
    let mut moments: Vec<i64> = Vec::new();
    let mut i: usize = 0;
    while i < moves.len()
        invariant
            i <= moves.len(),
            moments@ == moved_at(moves@).take(i as int),
        decreases moves.len() - i,
    {
        moments.push(moves[i].created_at);
        assert(moments@ =~= moved_at(moves@).take(i + 1));
        i = i + 1;
    }
    assert(moments@ =~= moved_at(moves@));
    let found = newest(&moments);
    proof {
        lemma_newest(moments@);
    }
    let mut out: Vec<Vec<String>> = Vec::new();
    let mut k: usize = 0;
    while k < found.len()
        invariant
            k <= found.len(),
            out@.len() == k,
            forall|j: int| 0 <= j < found@.len() ==> (#[trigger] found@[j]).index < moves@.len(),
            forall|j: int|
                0 <= j < k ==> {
                    let m = moves@[found@[j].index as int];
                    texts((#[trigger] out@[j])@) == movement_cells(m.doc, m.status@)
                },
        decreases found.len() - k,
    {
        let m = &moves[found[k].index];
        out.push(recent_movement(&m.doc, m.status.as_str()));
        k = k + 1;
    }
    out
}

} // verus!
