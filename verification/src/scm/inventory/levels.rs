//! Stock queries: current levels, the stock ledger and valuation totals, with
//! the labels a screen needs. What is available is computed here, never
//! stored.

use super::item::{find_item_by_id, item_id, Item};
use super::moves::{MoveDoc, MoveType};
use super::stock::{average, level_average, LedgerRow, Level};
use super::warehouse::{has_id as warehouse_id, position_by_id, Model as Warehouse};
use crate::date::{day_number, earlier, is_date, lemma_day_number_orders, Date};
use crate::decimal::{abs, limit, minus, plus, rescaled, worth, zero, Decimal, Num};
use crate::error::{in_range, refusal, Error, Refusal};
use crate::search::{
    at_most, find, first_from, first_where, kept, kept_to, keys_differ, lemma_first_from,
    lemma_kept_at, lemma_kept_keys, lemma_kept_members,
};
use crate::sort::{
    arrange, arranged, arranging_keeps_the_elements, arranging_sorts, lemma_arranged_keys,
    lemma_arranged_members, lemma_slot, ranks, Ordered,
};
use crate::sums::{
    counted_to, kept_places, lemma_combined_exact, lemma_total_push, lemma_zero, picked_to, total,
    within,
};
use crate::text::{before, lemma_before_ranks, opt_text, same, sorts_before};
use vstd::prelude::*;

verus! {

/// Ledger pages are capped, so that one request never drags a whole history.
pub const LEDGER_PAGE_MAX: u64 = 1000;

pub const LEDGER_PAGE_DEFAULT: u64 = 500;

/// One position: an item in a warehouse.
#[derive(Debug)]
pub struct LevelView {
    pub item_id: u128,
    pub sku: String,
    pub item_name: String,
    pub warehouse_id: u128,
    pub warehouse_code: String,
    pub on_hand: Decimal,
    pub reserved: Decimal,
    pub on_order: Decimal,
    /// On hand less reserved.
    pub available: Decimal,
    pub value: Decimal,
    /// The moving average cost (zero when empty).
    pub avg_cost: Decimal,
    /// The level's own policy, or else the item's.
    pub reorder_level: Option<Decimal>,
    pub reorder_qty: Option<Decimal>,
    /// Whether a reorder level is set and what is on hand is not above it.
    pub below_reorder: bool,
}

pub struct LevelsFilter {
    pub warehouse_id: Option<u128>,
    pub item_id: Option<u128>,
    pub below_reorder: bool,
}

/// A row of the stock ledger as it is stored.
#[derive(Clone, Copy, Debug)]
pub struct StoredRow {
    pub seq: i64,
    /// When it was posted, in microseconds since the epoch.
    pub posted_at: i64,
    pub row: LedgerRow,
}

/// A row of the stock ledger with its labels.
#[derive(Debug)]
pub struct LedgerRowView {
    pub seq: i64,
    pub posted_at: i64,
    pub entry_date: Date,
    pub move_id: u128,
    pub number: Option<String>,
    pub move_type: Option<MoveType>,
    pub item_id: u128,
    pub sku: String,
    pub warehouse_id: u128,
    pub warehouse_code: String,
    pub qty_delta: Decimal,
    pub qty_after: Decimal,
    pub unit_cost: Decimal,
    pub value_delta: Decimal,
    pub value_after: Decimal,
}

pub struct LedgerFilter {
    pub item_id: Option<u128>,
    pub warehouse_id: Option<u128>,
    pub from: Option<Date>,
    pub to: Option<Date>,
    /// Rows with a greater number than this one.
    pub after_seq: Option<i64>,
    pub limit: Option<u64>,
}

/// Valuation totals of one warehouse.
#[derive(Debug)]
pub struct WarehouseValuation {
    pub warehouse_id: u128,
    pub warehouse_code: String,
    pub warehouse_name: String,
    /// How many items are on hand.
    pub items: u64,
    pub total_qty: Decimal,
    pub total_value: Decimal,
}

/// Stock value across warehouses: what the ledger books as inventory.
#[derive(Debug)]
pub struct ValuationSummary {
    pub warehouses: Vec<WarehouseValuation>,
    pub total_value: Decimal,
}

/// Stock queries over what was loaded.
#[derive(Debug)]
pub struct StockQueries {
    pub levels: Vec<Level>,
    pub items: Vec<Item>,
    pub warehouses: Vec<Warehouse>,
}

// ---------------------------------------------------------------------------
// Labels
// ---------------------------------------------------------------------------

pub open spec fn sku_of(items: Seq<Item>, id: u128) -> Seq<char> {
    match first_where(items, item_id(id)) {
        Some(i) => i.sku@,
        None => Seq::empty(),
    }
}

pub open spec fn item_name_of(items: Seq<Item>, id: u128) -> Seq<char> {
    match first_where(items, item_id(id)) {
        Some(i) => i.name@,
        None => Seq::empty(),
    }
}

pub open spec fn code_of(warehouses: Seq<Warehouse>, id: u128) -> Seq<char> {
    match first_where(warehouses, warehouse_id(id)) {
        Some(w) => w.code@,
        None => Seq::empty(),
    }
}

pub open spec fn name_of(warehouses: Seq<Warehouse>, id: u128) -> Seq<char> {
    match first_where(warehouses, warehouse_id(id)) {
        Some(w) => w.name@,
        None => Seq::empty(),
    }
}

fn item_label(items: &Vec<Item>, id: u128) -> (r: (String, String))
    ensures
        r.0@ == sku_of(items@, id),
        r.1@ == item_name_of(items@, id),
{
    match find_item_by_id(items, id) {
        Some(i) => (items[i].sku.clone(), items[i].name.clone()),
        None => (String::new(), String::new()),
    }
}

fn warehouse_label(warehouses: &Vec<Warehouse>, id: u128) -> (r: (String, String))
    ensures
        r.0@ == code_of(warehouses@, id),
        r.1@ == name_of(warehouses@, id),
{
    match position_by_id(warehouses, id) {
        Some(i) => (warehouses[i].code.clone(), warehouses[i].name.clone()),
        None => (String::new(), String::new()),
    }
}

// ---------------------------------------------------------------------------
// Levels
// ---------------------------------------------------------------------------

/// The reorder level that holds for a position: its own, or else the item's.
pub open spec fn reorder_level_of(row: Level, items: Seq<Item>) -> Option<Decimal> {
    match row.reorder_level {
        Some(l) => Some(l),
        None => match first_where(items, item_id(row.item_id)) {
            Some(i) => i.reorder_level,
            None => None,
        },
    }
}

pub open spec fn reorder_qty_of(row: Level, items: Seq<Item>) -> Option<Decimal> {
    match row.reorder_qty {
        Some(q) => Some(q),
        None => match first_where(items, item_id(row.item_id)) {
            Some(i) => i.reorder_qty,
            None => None,
        },
    }
}

/// Whether a position is at or below its reorder level.
pub open spec fn needs_reorder(row: Level, items: Seq<Item>) -> bool {
    match reorder_level_of(row, items) {
        Some(l) => worth(row.on_hand@) <= worth(l@),
        None => false,
    }
}

pub open spec fn matches_id(wanted: Option<u128>, id: u128) -> bool {
    match wanted {
        Some(w) => w == id,
        None => true,
    }
}

/// Whether a position is asked for.
pub open spec fn level_asked(filter: LevelsFilter, items: Seq<Item>) -> spec_fn(Level) -> bool {
    |row: Level|
        {
            &&& matches_id(filter.warehouse_id, row.warehouse_id)
            &&& matches_id(filter.item_id, row.item_id)
            &&& filter.below_reorder ==> needs_reorder(row, items)
        }
}

pub open spec fn is_level_view(
    v: LevelView,
    row: Level,
    items: Seq<Item>,
    warehouses: Seq<Warehouse>,
) -> bool {
    &&& v.item_id == row.item_id
    &&& v.sku@ == sku_of(items, row.item_id)
    &&& v.item_name@ == item_name_of(items, row.item_id)
    &&& v.warehouse_id == row.warehouse_id
    &&& v.warehouse_code@ == code_of(warehouses, row.warehouse_id)
    &&& v.on_hand == row.on_hand
    &&& v.reserved == row.reserved
    &&& v.on_order == row.on_order
    &&& Some(v.available@) == minus(row.on_hand@, row.reserved@)
    &&& v.value == row.value
    &&& Some(v.avg_cost@) == average(row.value@, row.on_hand@)
    &&& v.reorder_level == reorder_level_of(row, items)
    &&& v.reorder_qty == reorder_qty_of(row, items)
    &&& v.below_reorder == needs_reorder(row, items)
}

pub open spec fn are_level_views(
    vs: Seq<LevelView>,
    rows: Seq<Level>,
    items: Seq<Item>,
    warehouses: Seq<Warehouse>,
) -> bool {
    vs.len() == rows.len() && forall|i: int|
        0 <= i < rows.len() ==> is_level_view(#[trigger] vs[i], rows[i], items, warehouses)
}

/// Whether the computed figures of a position stay in range.
pub open spec fn level_in_range(row: Level) -> bool {
    minus(row.on_hand@, row.reserved@) is Some && average(row.value@, row.on_hand@) is Some
}

/// Positions are shown by sku, and by warehouse code within it.
impl Ordered for LevelView {
    open spec fn precedes(a: LevelView, b: LevelView) -> bool {
        before(a.sku@, b.sku@) || (a.sku@ == b.sku@ && before(
            a.warehouse_code@,
            b.warehouse_code@,
        ))
    }

    fn goes_before(&self, other: &LevelView) -> (r: bool) {
        sorts_before(self.sku.as_str(), other.sku.as_str()) || (same(
            self.sku.as_str(),
            other.sku.as_str(),
        ) && sorts_before(self.warehouse_code.as_str(), other.warehouse_code.as_str()))
    }
}

/// Warehouses are shown by code.
impl Ordered for WarehouseValuation {
    open spec fn precedes(a: WarehouseValuation, b: WarehouseValuation) -> bool {
        before(a.warehouse_code@, b.warehouse_code@)
    }

    fn goes_before(&self, other: &WarehouseValuation) -> (r: bool) {
        sorts_before(self.warehouse_code.as_str(), other.warehouse_code.as_str())
    }
}

fn id_matches(wanted: Option<u128>, id: u128) -> (r: bool)
    ensures
        r == matches_id(wanted, id),
{
    match wanted {
        Some(w) => w == id,
        None => true,
    }
}

impl StockQueries {
    /// The positions that are asked for, by sku and warehouse code.
    pub fn levels(&self, filter: &LevelsFilter) -> (r: Result<Vec<LevelView>, Error>)
        ensures
            ({
                let asked = kept(self.levels@, level_asked(*filter, self.items@));
                match r {
                    Ok(views) => exists|vs: Seq<LevelView>|
                        views@ == #[trigger] arranged(vs) && are_level_views(
                            vs,
                            asked,
                            self.items@,
                            self.warehouses@,
                        ),
                    Err(e) => e@ == Refusal::Overflow && exists|i: int|
                        0 <= i < asked.len() && !level_in_range(#[trigger] asked[i]),
                }
            }),
    {
        let mut views: Vec<LevelView> = Vec::new();
        let mut i: usize = 0;
        while i < self.levels.len()
            invariant
                i <= self.levels.len(),
                are_level_views(
                    views@,
                    kept_to(self.levels@, level_asked(*filter, self.items@), i as nat),
                    self.items@,
                    self.warehouses@,
                ),
            decreases self.levels.len() - i,
        {
            let row = &self.levels[i];
            if id_matches(filter.warehouse_id, row.warehouse_id) && id_matches(
                filter.item_id,
                row.item_id,
            ) {
                let at = find_item_by_id(&self.items, row.item_id);
                let reorder_level = match row.reorder_level {
                    Some(l) => Some(l),
                    None => match at {
                        Some(k) => self.items[k].reorder_level,
                        None => None,
                    },
                };
                let reorder_qty = match row.reorder_qty {
                    Some(q) => Some(q),
                    None => match at {
                        Some(k) => self.items[k].reorder_qty,
                        None => None,
                    },
                };
                let below = match reorder_level {
                    Some(l) => !l.less(&row.on_hand),
                    None => false,
                };
                if !filter.below_reorder || below {
                    proof {
                        let p = level_asked(*filter, self.items@);
                        lemma_kept_at(self.levels@, p, i as int, self.levels@.len());
                        let at = kept_to(self.levels@, p, i as nat).len() as int;
                        assert(kept(self.levels@, p)[at] == *row);
                    }
                    let available = in_range(row.on_hand.checked_sub(row.reserved))?;
                    let avg_cost = level_average(row)?;
                    let (sku, item_name) = item_label(&self.items, row.item_id);
                    let (warehouse_code, _) = warehouse_label(&self.warehouses, row.warehouse_id);
                    views.push(
                        LevelView {
                            item_id: row.item_id,
                            sku,
                            item_name,
                            warehouse_id: row.warehouse_id,
                            warehouse_code,
                            on_hand: row.on_hand,
                            reserved: row.reserved,
                            on_order: row.on_order,
                            available,
                            value: row.value,
                            avg_cost,
                            reorder_level,
                            reorder_qty,
                            below_reorder: below,
                        },
                    );
                }
            }
            i = i + 1;
        }
        let ghost vs = views@;
        let r = arrange(views);
        assert(r@ == arranged(vs));
        Ok(r)
    }
}

// ---------------------------------------------------------------------------
// The stock ledger
// ---------------------------------------------------------------------------

/// How many rows a page holds.
pub open spec fn page_size(limit: Option<u64>) -> int {
    let asked = match limit {
        Some(n) => n,
        None => LEDGER_PAGE_DEFAULT,
    };
    if asked < LEDGER_PAGE_MAX {
        asked as int
    } else {
        LEDGER_PAGE_MAX as int
    }
}

/// Whether a row is asked for.
pub open spec fn row_asked(filter: LedgerFilter) -> spec_fn(StoredRow) -> bool {
    |s: StoredRow|
        {
            &&& matches_id(filter.item_id, s.row.item_id)
            &&& matches_id(filter.warehouse_id, s.row.warehouse_id)
            &&& filter.from matches Some(d) ==> !earlier(s.row.entry_date@, d@)
            &&& filter.to matches Some(d) ==> !earlier(d@, s.row.entry_date@)
            &&& filter.after_seq matches Some(n) ==> s.seq > n
        }
}

/// Rows are shown by their number.
impl Ordered for StoredRow {
    open spec fn precedes(a: StoredRow, b: StoredRow) -> bool {
        a.seq < b.seq
    }

    fn goes_before(&self, other: &StoredRow) -> (r: bool) {
        self.seq < other.seq
    }
}

/// The rows that are asked for, by their number.
pub open spec fn rows_asked(rows: Seq<StoredRow>, filter: LedgerFilter) -> Seq<StoredRow> {
    arranged(kept(rows, row_asked(filter)))
}

/// A page of the ledger: of the rows that are asked for the first ones.
pub open spec fn page(rows: Seq<StoredRow>, filter: LedgerFilter) -> Seq<StoredRow> {
    at_most(rows_asked(rows, filter), page_size(filter.limit))
}

/// The rows with the greatest numbers, `n` at most, by their number.
pub open spec fn newest(rows: Seq<StoredRow>, n: int) -> Seq<StoredRow> {
    let all = arranged(rows);
    if all.len() <= n {
        all
    } else {
        all.skip(all.len() - n)
    }
}

pub open spec fn move_id(id: u128) -> spec_fn(MoveDoc) -> bool {
    |m: MoveDoc| m.id == id
}

pub open spec fn is_row_view(
    v: LedgerRowView,
    s: StoredRow,
    items: Seq<Item>,
    warehouses: Seq<Warehouse>,
    moves: Seq<MoveDoc>,
) -> bool {
    let mv = first_where(moves, move_id(s.row.move_id));
    &&& v.seq == s.seq
    &&& v.posted_at == s.posted_at
    &&& v.entry_date == s.row.entry_date
    &&& v.move_id == s.row.move_id
    &&& opt_text(v.number) == (match mv {
        Some(m) => opt_text(m.number),
        None => None,
    })
    &&& v.move_type == (match mv {
        Some(m) => Some(m.move_type),
        None => None,
    })
    &&& v.item_id == s.row.item_id
    &&& v.sku@ == sku_of(items, s.row.item_id)
    &&& v.warehouse_id == s.row.warehouse_id
    &&& v.warehouse_code@ == code_of(warehouses, s.row.warehouse_id)
    &&& v.qty_delta == s.row.qty_delta
    &&& v.qty_after == s.row.qty_after
    &&& v.unit_cost == s.row.unit_cost
    &&& v.value_delta == s.row.value_delta
    &&& v.value_after == s.row.value_after
}

fn find_move(moves: &Vec<MoveDoc>, id: u128) -> (r: Option<usize>)
    ensures
        match r {
            Some(i) => i < moves@.len() && first_where(moves@, move_id(id)) == Some(
                moves@[i as int],
            ),
            None => first_where(moves@, move_id(id)) is None,
        },
{
    find(moves, Ghost(move_id(id)), |x: &MoveDoc| -> (b: bool)
        ensures
            b == move_id(id)(*x),
        { x.id == id })
}

fn asks_for(s: &StoredRow, filter: &LedgerFilter) -> (r: bool)
    ensures
        r == row_asked(*filter)(*s),
{
    let from_ok = match &filter.from {
        Some(d) => !s.row.entry_date.is_before(d),
        None => true,
    };
    let to_ok = match &filter.to {
        Some(d) => !d.is_before(&s.row.entry_date),
        None => true,
    };
    let after_ok = match filter.after_seq {
        Some(n) => s.seq > n,
        None => true,
    };
    id_matches(filter.item_id, s.row.item_id) && id_matches(
        filter.warehouse_id,
        s.row.warehouse_id,
    ) && from_ok && to_ok && after_ok
}

pub open spec fn are_row_views(
    vs: Seq<LedgerRowView>,
    rows: Seq<StoredRow>,
    items: Seq<Item>,
    warehouses: Seq<Warehouse>,
    moves: Seq<MoveDoc>,
) -> bool {
    vs.len() == rows.len() && forall|i: int|
        0 <= i < rows.len() ==> is_row_view(#[trigger] vs[i], rows[i], items, warehouses, moves)
}

impl StockQueries {
    /// The rows from one place to another with their labels.
    fn label_rows(&self, rows: &Vec<StoredRow>, from: usize, to: usize, moves: &Vec<MoveDoc>) -> (r:
        Vec<LedgerRowView>)
        requires
            from <= to <= rows@.len(),
        ensures
            are_row_views(
                r@,
                rows@.subrange(from as int, to as int),
                self.items@,
                self.warehouses@,
                moves@,
            ),
    {
        let mut out: Vec<LedgerRowView> = Vec::new();
        let mut i: usize = from;
        while i < to
            invariant
                from <= i <= to <= rows.len(),
                are_row_views(
                    out@,
                    rows@.subrange(from as int, i as int),
                    self.items@,
                    self.warehouses@,
                    moves@,
                ),
            decreases to - i,
        {
            let s = &rows[i];
            let (number, move_type) = match find_move(moves, s.row.move_id) {
                Some(k) => (moves[k].number.clone(), Some(moves[k].move_type)),
                None => (None, None),
            };
            let (sku, _) = item_label(&self.items, s.row.item_id);
            let (warehouse_code, _) = warehouse_label(&self.warehouses, s.row.warehouse_id);
            out.push(
                LedgerRowView {
                    seq: s.seq,
                    posted_at: s.posted_at,
                    entry_date: s.row.entry_date,
                    move_id: s.row.move_id,
                    number,
                    move_type,
                    item_id: s.row.item_id,
                    sku,
                    warehouse_id: s.row.warehouse_id,
                    warehouse_code,
                    qty_delta: s.row.qty_delta,
                    qty_after: s.row.qty_after,
                    unit_cost: s.row.unit_cost,
                    value_delta: s.row.value_delta,
                    value_after: s.row.value_after,
                },
            );
            i = i + 1;
        }
        out
    }

    /// A page of the stock ledger: of the rows that are asked for those with
    /// the smallest numbers, by their number, with their labels.
    pub fn ledger(&self, rows: &Vec<StoredRow>, moves: &Vec<MoveDoc>, filter: &LedgerFilter) -> (r:
        Vec<LedgerRowView>)
        ensures
            are_row_views(r@, page(rows@, *filter), self.items@, self.warehouses@, moves@),
    {
        let asked: u64 = match filter.limit {
            Some(n) => n,
            None => LEDGER_PAGE_DEFAULT,
        };
        let cap: u64 = if asked < LEDGER_PAGE_MAX {
            asked
        } else {
            LEDGER_PAGE_MAX
        };
        let mut found: Vec<StoredRow> = Vec::new();
        let mut i: usize = 0;
        while i < rows.len()
            invariant
                i <= rows.len(),
                found@ == kept_to(rows@, row_asked(*filter), i as nat),
            decreases rows.len() - i,
        {
            if asks_for(&rows[i], filter) {
                found.push(rows[i]);
            }
            i = i + 1;
        }
        let all = by_number(found);
        let n: usize = if all.len() as u64 <= cap {
            all.len()
        } else {
            cap as usize
        };
        assert(all@.subrange(0, n as int) =~= page(rows@, *filter));
        self.label_rows(&all, 0, n, moves)
    }

    /// The most recent rows of the stock ledger, `count` at most, by their
    /// number, with their labels.
    pub fn latest(&self, rows: &Vec<StoredRow>, moves: &Vec<MoveDoc>, count: u64) -> (r: Vec<
        LedgerRowView,
    >)
        ensures
            are_row_views(
                r@,
                newest(rows@, count as int),
                self.items@,
                self.warehouses@,
                moves@,
            ),
    {
        let all = by_number(copy_rows(rows));
        let from: usize = if all.len() as u64 <= count {
            0
        } else {
            all.len() - count as usize
        };
        assert(all@.subrange(from as int, all@.len() as int) =~= newest(rows@, count as int));
        self.label_rows(&all, from, all.len(), moves)
    }
}

proof fn lemma_in_order(rows: Seq<StoredRow>, n: nat)
    requires
        n <= rows.len(),
        forall|i: int| 0 <= i < rows.len() - 1 ==> (#[trigger] rows[i]).seq <= rows[i + 1].seq,
    ensures
        arranged(rows.take(n as int)) == rows.take(n as int),
        forall|i: int| 0 <= i < n ==> (#[trigger] rows[i]).seq <= rows[n - 1].seq,
    decreases n,
{
    if n > 0 {
        lemma_in_order(rows, (n - 1) as nat);
        let part = rows.take(n as int);
        let rest = rows.take(n - 1);
        assert(part.drop_last() =~= rest);
        lemma_slot(rest, part.last(), 0);
        if n > 1 {
            assert(rows[n - 2].seq <= rows[n - 1].seq);
        }
        assert(part =~= rest.insert(rest.len() as int, part.last()));
    }
}

/// Put rows in the order of their numbers; mostly they come in it.
fn by_number(rows: Vec<StoredRow>) -> (r: Vec<StoredRow>)
    ensures
        r@ == arranged(rows@),
{
    let mut i: usize = 1;
    while i < rows.len()
        invariant
            1 <= i,
            forall|k: int| 0 <= k < i - 1 && k < rows@.len() - 1 ==> (#[trigger] rows@[k]).seq
                <= rows@[k + 1].seq,
        decreases rows.len() - i,
    {
        if rows[i].seq < rows[i - 1].seq {
            return arrange(rows);
        }
        i = i + 1;
    }
    proof {
        lemma_in_order(rows@, rows@.len());
        assert(rows@.take(rows@.len() as int) =~= rows@);
    }
    rows
}

fn copy_rows(rows: &Vec<StoredRow>) -> (r: Vec<StoredRow>)
    ensures
        r@ == rows@,
{
    let mut out: Vec<StoredRow> = Vec::new();
    let mut i: usize = 0;
    while i < rows.len()
        invariant
            i <= rows.len(),
            out@ == rows@.take(i as int),
        decreases rows.len() - i,
    {
        out.push(rows[i]);
        assert(out@ =~= rows@.take(i + 1));
        i = i + 1;
    }
    assert(rows@.take(rows@.len() as int) =~= rows@);
    out
}

// ---------------------------------------------------------------------------
// Laws of the ledger's pages
// ---------------------------------------------------------------------------

pub open spec fn row_number() -> spec_fn(StoredRow) -> i64 {
    |s: StoredRow| s.seq
}

/// Whether each row has a greater number than the one before it.
pub open spec fn ascends(rows: Seq<StoredRow>) -> bool {
    forall|i: int, j: int|
        0 <= i < j < rows.len() ==> (#[trigger] rows[i]).seq < (#[trigger] rows[j]).seq
}

proof fn lemma_arranged_ascends(rows: Seq<StoredRow>)
    requires
        keys_differ(rows, row_number()),
    ensures
        ascends(arranged(rows)),
{
    arranging_sorts(rows);
    lemma_arranged_keys(rows, row_number());
    let all = arranged(rows);
    assert forall|i: int, j: int| 0 <= i < j < all.len() implies (#[trigger] all[i]).seq < (
    #[trigger] all[j]).seq by {
        assert(!StoredRow::precedes(all[j], all[i]));
        assert(row_number()(all[i]) != row_number()(all[j]));
    }
}

proof fn lemma_same_rows(a: Seq<StoredRow>, b: Seq<StoredRow>)
    requires
        ascends(a),
        ascends(b),
        forall|x: StoredRow| #[trigger] a.contains(x) <==> b.contains(x),
    ensures
        a == b,
    decreases a.len(),
{
    if a.len() == 0 {
        if b.len() > 0 {
            assert(b.contains(b[0]));
            assert(a.contains(b[0]));
        }
        assert(a =~= b);
    } else {
        assert(a.contains(a[0]));
        assert(b.contains(a[0]));
        let n = a.len() - 1;
        let m = b.len() - 1;
        assert(a.contains(a[n]));
        assert(b.contains(a[n]));
        let k = choose|k: int| 0 <= k < b.len() && b[k] == a[n];
        assert(b.contains(b[m]));
        assert(a.contains(b[m]));
        let l = choose|l: int| 0 <= l < a.len() && a[l] == b[m];
        assert(l == n && k == m) by {
            if k < m {
                assert(b[k].seq < b[m].seq);
            }
            if l < n {
                assert(a[l].seq < a[n].seq);
            }
        }
        let c = a.drop_last();
        let d = b.drop_last();
        assert forall|x: StoredRow| #[trigger] c.contains(x) <==> d.contains(x) by {
            if c.contains(x) {
                let i = choose|i: int| 0 <= i < c.len() && c[i] == x;
                assert(a[i] == x);
                assert(a.contains(x));
                let j = choose|j: int| 0 <= j < b.len() && b[j] == x;
                assert(a[i].seq < a[n].seq);
                assert(j != m);
                assert(d[j] == x);
            }
            if d.contains(x) {
                let i = choose|i: int| 0 <= i < d.len() && d[i] == x;
                assert(b[i] == x);
                assert(b.contains(x));
                assert(a.contains(x));
                let j = choose|j: int| 0 <= j < a.len() && a[j] == x;
                assert(b[i].seq < b[m].seq);
                assert(j != n);
                assert(c[j] == x);
            }
        }
        lemma_same_rows(c, d);
        assert(a =~= c.push(a[n]));
        assert(b =~= d.push(b[m]));
    }
}

/// A page ascends strictly, holds only rows that are asked for, and as many of
/// them as there are or as it may; a row that is asked for and not on it has a
/// greater number than all that are.
pub proof fn pages_ascend(rows: Seq<StoredRow>, filter: LedgerFilter)
    requires
        keys_differ(rows, row_number()),
    ensures
        ({
            let p = page(rows, filter);
            let asked = kept(rows, row_asked(filter)).len();
            &&& ascends(p)
            &&& p.len() == if asked <= page_size(filter.limit) {
                asked as int
            } else {
                page_size(filter.limit)
            }
            &&& forall|x: StoredRow| #[trigger]
                p.contains(x) ==> rows.contains(x) && row_asked(filter)(x)
            &&& forall|x: StoredRow, i: int|
                0 <= i < p.len() && #[trigger] rows.contains(x) && row_asked(filter)(x)
                    && !p.contains(x) ==> (#[trigger] p[i]).seq < x.seq
        }),
{
    let some = kept(rows, row_asked(filter));
    lemma_kept_keys(rows, row_asked(filter), row_number());
    lemma_kept_members(rows, row_asked(filter));
    lemma_arranged_ascends(some);
    lemma_arranged_members(some);
    arranging_keeps_the_elements(some);
    let all = rows_asked(rows, filter);
    let p = page(rows, filter);
    assert forall|x: StoredRow| #[trigger] p.contains(x) implies rows.contains(x) && row_asked(
        filter,
    )(x) by {
        let i = choose|i: int| 0 <= i < p.len() && p[i] == x;
        assert(all[i] == x);
        assert(all.contains(x));
        assert(some.contains(x));
    }
    assert forall|x: StoredRow, i: int|
        0 <= i < p.len() && #[trigger] rows.contains(x) && row_asked(filter)(x) && !p.contains(
            x,
        ) implies (#[trigger] p[i]).seq < x.seq by {
        assert(some.contains(x));
        assert(all.contains(x));
        let j = choose|j: int| 0 <= j < all.len() && all[j] == x;
        if j < p.len() {
            assert(p[j] == x);
        }
        assert(all[i].seq < all[j].seq);
    }
}

/// Asked again with the number of a page's last row, the ledger goes on where
/// that page ended: no row is repeated, and none is left out.
pub proof fn pages_continue(rows: Seq<StoredRow>, filter: LedgerFilter, next: LedgerFilter)
    requires
        keys_differ(rows, row_number()),
        page(rows, filter).len() > 0,
        next == (LedgerFilter { after_seq: Some(page(rows, filter).last().seq), ..filter }),
    ensures
        rows_asked(rows, filter) == page(rows, filter) + rows_asked(rows, next),
        at_most(rows_asked(rows, filter), 2 * page_size(filter.limit)) == page(rows, filter) + page(
            rows,
            next,
        ),
{
    let all = rows_asked(rows, filter);
    let p = page(rows, filter);
    let rest = rows_asked(rows, next);
    let tail = all.skip(p.len() as int);
    let last = p.last();
    lemma_kept_keys(rows, row_asked(filter), row_number());
    lemma_kept_keys(rows, row_asked(next), row_number());
    lemma_kept_members(rows, row_asked(filter));
    lemma_kept_members(rows, row_asked(next));
    lemma_arranged_ascends(kept(rows, row_asked(filter)));
    lemma_arranged_ascends(kept(rows, row_asked(next)));
    lemma_arranged_members(kept(rows, row_asked(filter)));
    lemma_arranged_members(kept(rows, row_asked(next)));
    let n = p.len() as int;
    assert(last == all[n - 1]);
    assert(all.contains(last));
    assert(row_asked(filter)(last));
    assert forall|x: StoredRow| #[trigger] tail.contains(x) <==> rest.contains(x) by {
        if tail.contains(x) {
            let i = choose|i: int| 0 <= i < tail.len() && tail[i] == x;
            assert(all[n + i] == x);
            assert(all[n - 1].seq < all[n + i].seq);
            assert(all.contains(x));
            assert(row_asked(next)(x));
        }
        if rest.contains(x) {
            assert(row_asked(next)(x));
            assert(row_asked(filter)(x));
            assert(all.contains(x));
            let i = choose|i: int| 0 <= i < all.len() && all[i] == x;
            if i < n - 1 {
                assert(all[i].seq < all[n - 1].seq);
            }
            assert(i >= n);
            assert(tail[i - n] == x);
        }
    }
    lemma_same_rows(tail, rest);
    assert(all =~= p + tail);
    assert(at_most(all, 2 * page_size(filter.limit)) =~= p + page(rows, next));
}

/// The newest rows ascend strictly, and a row that is not among them has a
/// smaller number than all that are.
pub proof fn the_newest_rows_come_last(rows: Seq<StoredRow>, n: int)
    requires
        keys_differ(rows, row_number()),
        n >= 0,
    ensures
        ({
            let p = newest(rows, n);
            &&& ascends(p)
            &&& p.len() == if rows.len() <= n {
                rows.len() as int
            } else {
                n
            }
            &&& forall|x: StoredRow| #[trigger] p.contains(x) ==> rows.contains(x)
            &&& forall|x: StoredRow, i: int|
                0 <= i < p.len() && #[trigger] rows.contains(x) && !p.contains(x) ==> x.seq < (
                #[trigger] p[i]).seq
        }),
{
    lemma_arranged_ascends(rows);
    lemma_arranged_members(rows);
    arranging_keeps_the_elements(rows);
    let all = arranged(rows);
    let p = newest(rows, n);
    let from = all.len() - p.len();
    assert forall|x: StoredRow| #[trigger] p.contains(x) implies rows.contains(x) by {
        let i = choose|i: int| 0 <= i < p.len() && p[i] == x;
        assert(all[from + i] == x);
        assert(all.contains(x));
    }
    assert forall|x: StoredRow, i: int|
        0 <= i < p.len() && #[trigger] rows.contains(x) && !p.contains(x) implies x.seq < (
    #[trigger] p[i]).seq by {
        assert(all.contains(x));
        let j = choose|j: int| 0 <= j < all.len() && all[j] == x;
        if j >= from {
            assert(p[j - from] == x);
        }
        assert(all[j].seq < all[from + i].seq);
    }
}

// ---------------------------------------------------------------------------
// Valuation
// ---------------------------------------------------------------------------

/// The totals of one warehouse.
pub struct Held {
    pub warehouse_id: u128,
    pub items: nat,
    pub qty: Num,
    pub value: Num,
}

pub open spec fn held_in(id: u128) -> spec_fn(Held) -> bool {
    |h: Held| h.warehouse_id == id
}

/// The totals with one position more: in its warehouse's, which are made where
/// there are none yet. `None` where a sum leaves the range.
pub open spec fn with_level(groups: Seq<Held>, row: Level) -> Option<Seq<Held>> {
    let at = first_from(groups, held_in(row.warehouse_id), 0);
    let held = match at {
        Some(i) => groups[i],
        None => Held { warehouse_id: row.warehouse_id, items: 0, qty: zero(), value: zero() },
    };
    match (plus(held.qty, row.on_hand@), plus(held.value, row.value@)) {
        (Some(qty), Some(value)) => {
            let next = Held {
                warehouse_id: row.warehouse_id,
                items: if row.on_hand@.0 == 0 {
                    held.items
                } else {
                    held.items + 1
                },
                qty,
                value,
            };
            Some(
                match at {
                    Some(i) => groups.update(i, next),
                    None => groups.push(next),
                },
            )
        },
        _ => None,
    }
}

/// The totals per warehouse over the first `n` positions, and the value of all
/// of them. `None` where a sum leaves the range.
pub open spec fn valued_to(rows: Seq<Level>, wanted: Option<u128>, n: nat) -> Option<
    (Seq<Held>, Num),
>
    decreases n,
{
    if n == 0 {
        Some((Seq::empty(), zero()))
    } else {
        match valued_to(rows, wanted, (n - 1) as nat) {
            None => None,
            Some((groups, total)) => if !matches_id(wanted, rows[n - 1].warehouse_id) {
                Some((groups, total))
            } else {
                match (with_level(groups, rows[n - 1]), plus(total, rows[n - 1].value@)) {
                    (Some(g), Some(t)) => Some((g, t)),
                    _ => None,
                }
            },
        }
    }
}

proof fn lemma_valued_stops(rows: Seq<Level>, wanted: Option<u128>, i: nat, n: nat)
    requires
        i <= n,
        valued_to(rows, wanted, i) is None,
    ensures
        valued_to(rows, wanted, n) is None,
    decreases n,
{
    if i < n {
        lemma_valued_stops(rows, wanted, i, (n - 1) as nat);
    }
}

pub open spec fn is_valuation(
    v: WarehouseValuation,
    h: Held,
    warehouses: Seq<Warehouse>,
) -> bool {
    &&& v.warehouse_id == h.warehouse_id
    &&& v.warehouse_code@ == code_of(warehouses, h.warehouse_id)
    &&& v.warehouse_name@ == name_of(warehouses, h.warehouse_id)
    &&& v.items == h.items
    &&& v.total_qty@ == h.qty
    &&& v.total_value@ == h.value
}

pub open spec fn are_valuations(
    vs: Seq<WarehouseValuation>,
    groups: Seq<Held>,
    warehouses: Seq<Warehouse>,
) -> bool {
    vs.len() == groups.len() && forall|i: int|
        0 <= i < groups.len() ==> is_valuation(#[trigger] vs[i], groups[i], warehouses)
}

fn find_valuation(groups: &Vec<WarehouseValuation>, id: u128) -> (r: Option<usize>)
    ensures
        forall|held: Seq<Held>, warehouses: Seq<Warehouse>|
            #![trigger are_valuations(groups@, held, warehouses)]
            are_valuations(groups@, held, warehouses) ==> first_from(held, held_in(id), 0) == (
            match r {
                Some(i) => Some(i as int),
                None => None,
            }),
        r matches Some(i) ==> i < groups@.len(),
{
    let mut i: usize = 0;
    while i < groups.len()
        invariant
            i <= groups.len(),
            forall|held: Seq<Held>, warehouses: Seq<Warehouse>|
                #![trigger are_valuations(groups@, held, warehouses)]
                are_valuations(groups@, held, warehouses) ==> first_from(held, held_in(id), 0)
                    == first_from(held, held_in(id), i as int),
        decreases groups.len() - i,
    {
        assert forall|held: Seq<Held>, warehouses: Seq<Warehouse>|
            #![trigger are_valuations(groups@, held, warehouses)]
            are_valuations(groups@, held, warehouses) implies (groups@[i as int].warehouse_id
            == held[i as int].warehouse_id) by {
            assert(is_valuation(groups@[i as int], held[i as int], warehouses));
        }
        if groups[i].warehouse_id == id {
            return Some(i);
        }
        i = i + 1;
    }
    None
}

impl StockQueries {
    /// Stock value by warehouse, by warehouse code.
    pub fn valuation(&self, warehouse: Option<u128>) -> (r: Result<ValuationSummary, Error>)
        ensures
            match valued_to(self.levels@, warehouse, self.levels@.len()) {
                None => refusal(r) == Some(Refusal::Overflow),
                Some((groups, total)) => {
                    &&& r is Ok
                    &&& r->Ok_0.total_value@ == total
                    &&& exists|vs: Seq<WarehouseValuation>|
                        r->Ok_0.warehouses@ == #[trigger] arranged(vs) && are_valuations(
                            vs,
                            groups,
                            self.warehouses@,
                        )
                },
            },
    {
        let ghost rows = self.levels@;
        let mut groups: Vec<WarehouseValuation> = Vec::new();
        let mut total_value = Decimal::zero();
        let mut i: usize = 0;
        while i < self.levels.len()
            invariant
                i <= self.levels.len(),
                rows == self.levels@,
                valued_to(rows, warehouse, i as nat) is Some,
                (valued_to(rows, warehouse, i as nat)->0).1 == total_value@,
                are_valuations(
                    groups@,
                    (valued_to(rows, warehouse, i as nat)->0).0,
                    self.warehouses@,
                ),
                forall|j: int| 0 <= j < groups@.len() ==> (#[trigger] groups@[j]).items <= i,
            decreases self.levels.len() - i,
        {
            let row = &self.levels[i];
            let ghost held = (valued_to(rows, warehouse, i as nat)->0).0;
            if id_matches(warehouse, row.warehouse_id) {
                proof {
                    if valued_to(rows, warehouse, (i + 1) as nat) is None {
                        lemma_valued_stops(rows, warehouse, (i + 1) as nat, rows.len());
                    }
                }
                let one: u64 = if row.on_hand.is_zero() {
                    0
                } else {
                    1
                };
                match find_valuation(&groups, row.warehouse_id) {
                    Some(k) => {
                        assert(is_valuation(groups@[k as int], held[k as int], self.warehouses@));
                        let qty = in_range(groups[k].total_qty.checked_add(row.on_hand))?;
                        let value = in_range(groups[k].total_value.checked_add(row.value))?;
                        groups[k].total_qty = qty;
                        groups[k].total_value = value;
                        groups[k].items = groups[k].items + one;
                        proof {
                            lemma_first_from(held, held_in(row.warehouse_id), 0);
                            let next = with_level(held, *row)->0;
                            assert forall|j: int| 0 <= j < next.len() implies is_valuation(
                                #[trigger] groups@[j],
                                next[j],
                                self.warehouses@,
                            ) by {
                                if j != k {
                                    assert(is_valuation(groups@[j], held[j], self.warehouses@));
                                }
                            }
                        }
                    },
                    None => {
                        let qty = in_range(Decimal::zero().checked_add(row.on_hand))?;
                        let value = in_range(Decimal::zero().checked_add(row.value))?;
                        let (warehouse_code, warehouse_name) = warehouse_label(
                            &self.warehouses,
                            row.warehouse_id,
                        );
                        groups.push(
                            WarehouseValuation {
                                warehouse_id: row.warehouse_id,
                                warehouse_code,
                                warehouse_name,
                                items: one,
                                total_qty: qty,
                                total_value: value,
                            },
                        );
                    },
                }
                total_value = in_range(total_value.checked_add(row.value))?;
            }
            i = i + 1;
        }
        let ghost vs = groups@;
        let warehouses = arrange(groups);
        assert(warehouses@ == arranged(vs));
        Ok(ValuationSummary { warehouses, total_value })
    }
}

// ---------------------------------------------------------------------------
// Laws
// ---------------------------------------------------------------------------

/// Positions and warehouses have an order that ranks them, so that what is
/// shown is sorted.
pub proof fn shown_orders_rank()
    ensures
        ranks::<LevelView>(),
        ranks::<WarehouseValuation>(),
{
    assert forall|a: LevelView, b: LevelView| #[trigger]
        LevelView::precedes(a, b) implies !LevelView::precedes(b, a) by {
        lemma_before_ranks(a.sku@, b.sku@, a.sku@);
        lemma_before_ranks(a.warehouse_code@, b.warehouse_code@, a.warehouse_code@);
    }
    assert forall|a: LevelView, b: LevelView, c: LevelView|
        #![trigger LevelView::precedes(b, a), LevelView::precedes(c, b)]
        !LevelView::precedes(b, a) && !LevelView::precedes(c, b) implies !LevelView::precedes(
        c,
        a,
    ) by {
        lemma_before_ranks(a.sku@, b.sku@, c.sku@);
        lemma_before_ranks(b.sku@, c.sku@, a.sku@);
        lemma_before_ranks(c.sku@, a.sku@, b.sku@);
        lemma_before_ranks(a.warehouse_code@, b.warehouse_code@, c.warehouse_code@);
        lemma_before_ranks(b.warehouse_code@, c.warehouse_code@, a.warehouse_code@);
        lemma_before_ranks(c.warehouse_code@, a.warehouse_code@, b.warehouse_code@);
    }
    assert forall|a: WarehouseValuation, b: WarehouseValuation| #[trigger]
        WarehouseValuation::precedes(a, b) implies !WarehouseValuation::precedes(b, a) by {
        lemma_before_ranks(a.warehouse_code@, b.warehouse_code@, a.warehouse_code@);
    }
    assert forall|a: WarehouseValuation, b: WarehouseValuation, c: WarehouseValuation|
        #![trigger WarehouseValuation::precedes(b, a), WarehouseValuation::precedes(c, b)]
        !WarehouseValuation::precedes(b, a) && !WarehouseValuation::precedes(c, b)
            implies !WarehouseValuation::precedes(c, a) by {
        lemma_before_ranks(a.warehouse_code@, b.warehouse_code@, c.warehouse_code@);
        lemma_before_ranks(b.warehouse_code@, c.warehouse_code@, a.warehouse_code@);
        lemma_before_ranks(c.warehouse_code@, a.warehouse_code@, b.warehouse_code@);
    }
}

/// What the first `n` warehouses hold is worth this much together.
pub open spec fn held_worth_to(groups: Seq<Held>, n: nat) -> int
    decreases n,
{
    if n == 0 {
        0
    } else {
        held_worth_to(groups, (n - 1) as nat) + worth(groups[n - 1].value)
    }
}

/// The values of the first `n` positions in magnitude.
pub open spec fn value_mass_to(rows: Seq<Level>, n: nat) -> int
    decreases n,
{
    if n == 0 {
        0
    } else {
        value_mass_to(rows, (n - 1) as nat) + abs(rescaled(rows[n - 1].value@, kept_places()))
    }
}

/// Positions whose values have at most six decimal places and are not
/// astronomically large.
pub open spec fn summable_values(rows: Seq<Level>) -> bool {
    &&& forall|i: int| 0 <= i < rows.len() ==> (#[trigger] rows[i]).value@.1 <= kept_places()
    &&& value_mass_to(rows, rows.len()) < limit()
}

proof fn lemma_value_mass_grows(rows: Seq<Level>, i: nat, n: nat)
    requires
        i <= n,
    ensures
        0 <= value_mass_to(rows, i) <= value_mass_to(rows, n),
    decreases n,
{
    if i < n {
        lemma_value_mass_grows(rows, i, (n - 1) as nat);
    } else if n > 0 {
        lemma_value_mass_grows(rows, (n - 1) as nat, (n - 1) as nat);
    }
}

spec fn all_within(groups: Seq<Held>, bound: int) -> bool {
    forall|i: int|
        0 <= i < groups.len() ==> within((#[trigger] groups[i]).value, kept_places(), bound)
}

proof fn lemma_held_update(groups: Seq<Held>, at: int, new: Held, n: nat)
    requires
        0 <= at < groups.len(),
        n <= groups.len(),
    ensures
        held_worth_to(groups.update(at, new), n) == held_worth_to(groups, n) + if at < n {
            worth(new.value) - worth(groups[at].value)
        } else {
            0
        },
    decreases n,
{
    if n > 0 {
        lemma_held_update(groups, at, new, (n - 1) as nat);
    }
}

proof fn lemma_held_prefix(a: Seq<Held>, b: Seq<Held>, n: nat)
    requires
        n <= a.len(),
        n <= b.len(),
        forall|i: int| 0 <= i < n ==> a[i] == b[i],
    ensures
        held_worth_to(a, n) == held_worth_to(b, n),
    decreases n,
{
    if n > 0 {
        lemma_held_prefix(a, b, (n - 1) as nat);
    }
}

proof fn lemma_valued_adds_up(rows: Seq<Level>, wanted: Option<u128>, n: nat)
    requires
        summable_values(rows),
        n <= rows.len(),
        valued_to(rows, wanted, n) is Some,
    ensures
        ({
            let (groups, total) = valued_to(rows, wanted, n)->0;
            &&& all_within(groups, value_mass_to(rows, n))
            &&& within(total, kept_places(), value_mass_to(rows, n))
            &&& held_worth_to(groups, groups.len()) == worth(total)
        }),
    decreases n,
{
    let p = kept_places();
    lemma_zero(p);
    if n > 0 {
        lemma_valued_adds_up(rows, wanted, (n - 1) as nat);
        lemma_value_mass_grows(rows, n, rows.len());
        lemma_value_mass_grows(rows, (n - 1) as nat, n);
        let row = rows[n - 1];
        let mass = value_mass_to(rows, (n - 1) as nat);
        let own = abs(rescaled(row.value@, p));
        let (groups, total) = valued_to(rows, wanted, (n - 1) as nat)->0;
        if matches_id(wanted, row.warehouse_id) {
            lemma_combined_exact(total, row.value@, 1, p, mass, own);
            let next = with_level(groups, row)->0;
            lemma_first_from(groups, held_in(row.warehouse_id), 0);
            match first_from(groups, held_in(row.warehouse_id), 0) {
                Some(i) => {
                    assert(within(groups[i].value, p, mass));
                    lemma_combined_exact(groups[i].value, row.value@, 1, p, mass, own);
                    lemma_held_update(groups, i, next[i], groups.len());
                    assert(next =~= groups.update(i, next[i]));
                },
                None => {
                    lemma_combined_exact(zero(), row.value@, 1, p, 0, own);
                    lemma_held_prefix(next, groups, groups.len());
                },
            }
        }
    }
}

/// The value across warehouses is worth exactly what the warehouses are worth
/// together.
pub proof fn valuation_adds_up(rows: Seq<Level>, wanted: Option<u128>)
    requires
        summable_values(rows),
        valued_to(rows, wanted, rows.len()) is Some,
    ensures
        ({
            let (groups, total) = valued_to(rows, wanted, rows.len())->0;
            held_worth_to(groups, groups.len()) == worth(total)
        }),
{
    lemma_valued_adds_up(rows, wanted, rows.len());
}

/// A position is low where no more is on hand than its reorder level: its own, or that of
/// its item where it has none; without either it never is. Items are known by their
/// ids.
pub proof fn low_positions_are_at_or_below_their_level(row: Level, items: Seq<Item>, k: int)
    requires
        0 <= k < items.len(),
        items[k].id == row.item_id,
        forall|j: int| 0 <= j < items.len() && j != k ==> (#[trigger] items[j]).id != row.item_id,
    ensures
        row.reorder_level matches Some(l) ==> (needs_reorder(row, items) <==> worth(row.on_hand@)
            <= worth(l@)),
        row.reorder_level is None ==> (items[k].reorder_level matches Some(l) ==> (needs_reorder(
            row,
            items,
        ) <==> worth(row.on_hand@) <= worth(l@))),
        row.reorder_level is None && items[k].reorder_level is None ==> !needs_reorder(row, items),
{
    lemma_first_from(items, item_id(row.item_id), 0);
    assert(item_id(row.item_id)(items[k]));
}

/// The ledger is asked for by item, by warehouse and by day, both ends included, and from a
/// row on: a row is shown exactly where all that is asked for holds of it.
pub proof fn ledger_rows_are_asked_for_by_day(filter: LedgerFilter, s: StoredRow)
    requires
        is_date(s.row.entry_date@),
        filter.from matches Some(d) ==> is_date(d@),
        filter.to matches Some(d) ==> is_date(d@),
    ensures
        row_asked(filter)(s) <==> {
            &&& filter.item_id is None || filter.item_id == Some(s.row.item_id)
            &&& filter.warehouse_id is None || filter.warehouse_id == Some(s.row.warehouse_id)
            &&& filter.from matches Some(d) ==> day_number(d@) <= day_number(s.row.entry_date@)
            &&& filter.to matches Some(d) ==> day_number(s.row.entry_date@) <= day_number(d@)
            &&& filter.after_seq matches Some(n) ==> n < s.seq
        },
{
    let day = s.row.entry_date@;
    if let Some(d) = filter.from {
        lemma_day_number_orders(day, d@);
        lemma_day_number_orders(d@, day);
    }
    if let Some(d) = filter.to {
        lemma_day_number_orders(day, d@);
        lemma_day_number_orders(d@, day);
    }
}

/// The values that are held in a warehouse.
pub open spec fn values_in(rows: Seq<Level>, id: u128, n: nat) -> Seq<Num> {
    picked_to(rows, |l: Level| l.warehouse_id == id, |l: Level| l.value@, n)
}

/// The quantities that are held in a warehouse.
pub open spec fn quantities_in(rows: Seq<Level>, id: u128, n: nat) -> Seq<Num> {
    picked_to(rows, |l: Level| l.warehouse_id == id, |l: Level| l.on_hand@, n)
}

/// How many items there is anything of in a warehouse.
pub open spec fn items_in(rows: Seq<Level>, id: u128, n: nat) -> nat {
    counted_to(rows, |l: Level| l.warehouse_id == id && l.on_hand@.0 != 0, n)
}

spec fn is_valued(groups: Seq<Held>, rows: Seq<Level>, wanted: Option<u128>, n: nat) -> bool {
    &&& forall|g: int|
        0 <= g < groups.len() ==> {
            let h = #[trigger] groups[g];
            &&& matches_id(wanted, h.warehouse_id)
            &&& total(values_in(rows, h.warehouse_id, n)) == Some(h.value)
            &&& total(quantities_in(rows, h.warehouse_id, n)) == Some(h.qty)
            &&& h.items == items_in(rows, h.warehouse_id, n)
        }
    &&& forall|g: int, k: int|
        0 <= g < k < groups.len() ==> (#[trigger] groups[g]).warehouse_id != (
        #[trigger] groups[k]).warehouse_id
    &&& forall|i: int|
        0 <= i < n && matches_id(wanted, (#[trigger] rows[i]).warehouse_id) ==> exists|g: int|
            0 <= g < groups.len() && (#[trigger] groups[g]).warehouse_id == rows[i].warehouse_id
}

proof fn lemma_nothing_in(rows: Seq<Level>, id: u128, n: nat)
    requires
        n <= rows.len(),
        forall|i: int| 0 <= i < n ==> (#[trigger] rows[i]).warehouse_id != id,
    ensures
        values_in(rows, id, n) == Seq::<Num>::empty(),
        quantities_in(rows, id, n) == Seq::<Num>::empty(),
        items_in(rows, id, n) == 0,
    decreases n,
{
    if n > 0 {
        lemma_nothing_in(rows, id, (n - 1) as nat);
    }
}

proof fn lemma_valued(rows: Seq<Level>, wanted: Option<u128>, n: nat)
    requires
        n <= rows.len(),
        valued_to(rows, wanted, n) is Some,
    ensures
        is_valued((valued_to(rows, wanted, n)->0).0, rows, wanted, n),
    decreases n,
{
    if n > 0 {
        lemma_valued(rows, wanted, (n - 1) as nat);
        let m = (n - 1) as nat;
        let row = rows[n - 1];
        let id = row.warehouse_id;
        let before = (valued_to(rows, wanted, m)->0).0;
        let after = (valued_to(rows, wanted, n)->0).0;
        lemma_first_from(before, held_in(id), 0);
        if matches_id(wanted, id) {
            lemma_total_push(values_in(rows, id, m), row.value@);
            lemma_total_push(quantities_in(rows, id, m), row.on_hand@);
            match first_from(before, held_in(id), 0) {
                Some(at) => {
                    assert(held_in(id)(before[at]));
                    assert(after[at].warehouse_id == id);
                    assert forall|g: int| 0 <= g < after.len() && g != at implies (
                    #[trigger] after[g]).warehouse_id != id by {
                        assert(before[g].warehouse_id != before[at].warehouse_id);
                    }
                    assert forall|i: int|
                        0 <= i < n && matches_id(
                            wanted,
                            (#[trigger] rows[i]).warehouse_id,
                        ) implies exists|g: int|
                        0 <= g < after.len() && (#[trigger] after[g]).warehouse_id
                            == rows[i].warehouse_id by {
                        if i < m {
                            let g = choose|g: int|
                                0 <= g < before.len() && (#[trigger] before[g]).warehouse_id
                                    == rows[i].warehouse_id;
                            assert(after[g].warehouse_id == rows[i].warehouse_id);
                        }
                    }
                },
                None => {
                    assert forall|i: int| 0 <= i < m implies (#[trigger] rows[i]).warehouse_id
                        != id by {
                        if rows[i].warehouse_id == id {
                            let g = choose|g: int|
                                0 <= g < before.len() && (#[trigger] before[g]).warehouse_id
                                    == rows[i].warehouse_id;
                            assert(!held_in(id)(before[g]));
                        }
                    }
                    lemma_nothing_in(rows, id, m);
                    assert(after == before.push(after.last()));
                    assert(after[before.len() as int].warehouse_id == id);
                    assert forall|g: int| 0 <= g < before.len() implies (
                    #[trigger] before[g]).warehouse_id != id by {
                        assert(!held_in(id)(before[g]));
                    }
                    assert forall|i: int|
                        0 <= i < n && matches_id(
                            wanted,
                            (#[trigger] rows[i]).warehouse_id,
                        ) implies exists|g: int|
                        0 <= g < after.len() && (#[trigger] after[g]).warehouse_id
                            == rows[i].warehouse_id by {
                        if i < m {
                            let g = choose|g: int|
                                0 <= g < before.len() && (#[trigger] before[g]).warehouse_id
                                    == rows[i].warehouse_id;
                            assert(after[g].warehouse_id == rows[i].warehouse_id);
                        }
                    }
                },
            }
        } else {
            assert forall|g: int| 0 <= g < after.len() implies (#[trigger] after[g]).warehouse_id
                != id by {}
        }
    }
}

/// A warehouse is worth what is held in it: each warehouse that is asked for and holds a
/// position is shown once, with the sum of the values of its positions, the sum of
/// their quantities, and the number of items that there is anything of.
pub proof fn warehouses_are_worth_what_they_hold(rows: Seq<Level>, wanted: Option<u128>)
    requires
        valued_to(rows, wanted, rows.len()) is Some,
    ensures
        ({
            let groups = (valued_to(rows, wanted, rows.len())->0).0;
            let n = rows.len();
            &&& forall|g: int|
                0 <= g < groups.len() ==> {
                    let h = #[trigger] groups[g];
                    &&& wanted is None || wanted == Some(h.warehouse_id)
                    &&& total(values_in(rows, h.warehouse_id, n)) == Some(h.value)
                    &&& total(quantities_in(rows, h.warehouse_id, n)) == Some(h.qty)
                    &&& h.items == items_in(rows, h.warehouse_id, n)
                }
            &&& forall|g: int, k: int|
                0 <= g < k < groups.len() ==> (#[trigger] groups[g]).warehouse_id != (
                #[trigger] groups[k]).warehouse_id
            &&& forall|i: int|
                0 <= i < n && (wanted is None || wanted == Some(
                    (#[trigger] rows[i]).warehouse_id,
                )) ==> exists|g: int|
                    0 <= g < groups.len() && (#[trigger] groups[g]).warehouse_id
                        == rows[i].warehouse_id
        }),
{
    lemma_valued(rows, wanted, rows.len());
}

} // verus!
