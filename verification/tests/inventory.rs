use nebula_apps::accounting::account::{self, keys, AccountType, NormalBalance};
use nebula_apps::accounting::gl_port::Books;
use nebula_apps::accounting::ledger::Totals;
use nebula_apps::accounting::roles::role_balance;
use nebula_apps::date::Date;
use nebula_apps::decimal::Decimal;
use nebula_apps::error::Error;
use nebula_apps::port::GlPostingRequested;
use nebula_apps::scm::app::ScmApp;
use nebula_apps::scm::gl::{
    goods_receipt_request, item_roles, purchase_invoice_request, stock_move_request, EntryBuilder, InvoiceLine, OrderRef,
    PurchaseInvoice,
};
use nebula_apps::scm::inventory::batch::{
    batch_on_hand, check_serial_names, find_batch, find_or_create_batch, item_batches, serials_in, serials_move,
    serials_out, Batch, Lot, SerialStatus,
};
use nebula_apps::scm::inventory::item::{
    Category, CategoryBody, CostingMethod, Item, ItemType, Removal, Store, Uom, UomBody,
};
use nebula_apps::scm::inventory::reports::stock_ledger::StockLedgerDataSource;
use nebula_apps::scm::inventory::levels::{LedgerFilter, LevelsFilter, StockQueries, StoredRow};
use nebula_apps::scm::inventory::moves::{MoveDoc, MoveType};
use nebula_apps::scm::inventory::permissions;
use nebula_apps::scm::inventory::stock::{level_average, LedgerRow, Level, Movement, StockService};
use nebula_apps::scm::inventory::warehouse::{self, WarehouseBody};
use nebula_apps::scm::inventory::widgets::{stock_value, top_stock_items, value_by_warehouse};
use nebula_apps::scm::pos::catalog::lots_on_hand;
use nebula_apps::scm::outbox::{resolve_books, Outbox};
use nebula_apps::scm::reconcile::{inventory_roles, reconciliation, LedgerSide};

fn d(n: i64, scale: u32) -> Decimal {
    Decimal::new(n, scale)
}

fn day(y: i32, m: u32, dd: u32) -> Date {
    Date::from_ymd(y, m, dd).unwrap()
}

fn item(id: u128, sku: &str) -> Item {
    Item {
        id,
        sku: sku.to_string(),
        name: format!("Item {}", sku),
        description: None,
        category_id: None,
        brand: None,
        manufacturer: None,
        manufacturer_part_no: None,
        model: None,
        barcode: None,
        image_file_id: None,
        country_of_origin: None,
        hs_code: None,
        notes: None,
        item_type: ItemType::Stockable,
        is_purchasable: true,
        is_sellable: true,
        is_active: true,
        uom_id: 1,
        purchase_uom_id: None,
        sales_uom_id: None,
        purchase_uom_factor: None,
        costing_method: CostingMethod::MovingAverage,
        standard_cost: None,
        purchase_price: None,
        last_purchase_price: None,
        selling_price: Some(d(116, 0)),
        min_selling_price: None,
        purchase_tax_code_id: None,
        sales_tax_code_id: Some(16),
        preferred_supplier_id: None,
        lead_time_days: None,
        min_order_qty: None,
        order_multiple: None,
        reorder_level: None,
        reorder_qty: None,
        max_level: None,
        safety_stock: None,
        default_warehouse_id: None,
        track_batches: false,
        track_serials: false,
        shelf_life_days: None,
        warranty_days: None,
        allow_negative: false,
        weight: None,
        weight_uom_id: None,
        volume: None,
        length_mm: None,
        width_mm: None,
        height_mm: None,
        inventory_account_role: None,
        cogs_account_role: None,
        adjustment_account_role: None,
        expense_account_role: None,
    }
}

fn uom(id: u128, code: &str, fractional: bool) -> Uom {
    Uom {
        id,
        code: code.to_string(),
        name: code.to_string(),
        symbol: None,
        fractional,
        is_active: true,
    }
}

fn level(item_id: u128, on_hand: Decimal, value: Decimal) -> Level {
    Level {
        item_id,
        warehouse_id: 7,
        on_hand,
        reserved: d(0, 0),
        on_order: d(0, 0),
        value,
        reorder_level: None,
        reorder_qty: None,
    }
}

fn receive(l: &mut Level, qty: Decimal, cost: Decimal) {
    let mv = Movement::Receipt { qty, unit_cost: cost };
    StockService::apply(1, 1, day(2026, 7, 6), &item(1, "A"), &uom(1, "kg", true), l, None, mv).unwrap();
}

fn issue(l: &mut Level, qty: Decimal) -> Result<Decimal, Error> {
    let mv = Movement::Issue { qty, covered_by_reservation: d(0, 0) };
    StockService::apply(1, 1, day(2026, 7, 6), &item(1, "A"), &uom(1, "kg", true), l, None, mv)
        .map(|row| row.unit_cost)
}

// ---------------------------------------------------------------------------
// The stock engine
// ---------------------------------------------------------------------------

#[test]
fn receipts_move_the_average() {
    let mut l = level(1, d(0, 0), d(0, 0));
    receive(&mut l, d(10, 0), d(5, 0));
    receive(&mut l, d(10, 0), d(7, 0));
    assert_eq!(l.on_hand.text(), "20");
    assert!(l.value.equals(&d(120, 0)));
    assert!(level_average(&l).unwrap().equals(&d(6, 0)));
}

#[test]
fn emptying_a_level_leaves_no_value() {
    let mut l = level(1, d(3, 0), d(100, 0));
    assert!(issue(&mut l, d(1, 0)).unwrap().equals(&d(33333333, 6)));
    assert_eq!(l.value.text(), "66.67");
    issue(&mut l, d(2, 0)).unwrap();
    assert!(l.on_hand.is_zero());
    assert!(l.value.is_zero());
}

#[test]
fn the_rows_explain_the_level() {
    let mut l = level(1, d(0, 0), d(0, 0));
    let flows = vec![
        Movement::Receipt { qty: d(3, 0), unit_cost: d(33333333, 6) },
        Movement::Issue { qty: d(1, 0), covered_by_reservation: d(0, 0) },
        Movement::Receipt { qty: d(25, 1), unit_cost: d(7, 0) },
        Movement::Issue { qty: d(2, 0), covered_by_reservation: d(0, 0) },
    ];
    let mut qty = Decimal::zero();
    let mut value = Decimal::zero();
    for mv in flows {
        let row =
            StockService::apply(1, 1, day(2026, 7, 6), &item(1, "A"), &uom(1, "kg", true), &mut l, None, mv)
                .unwrap();
        qty = qty.checked_add(row.qty_delta).unwrap();
        value = value.checked_add(row.value_delta).unwrap();
        assert!(row.qty_after.equals(&qty));
    }
    assert!(l.on_hand.equals(&qty));
    assert!(l.value.equals(&value));
}

#[test]
fn stock_does_not_go_below_zero() {
    let mut l = level(1, d(3, 0), d(9, 0));
    assert!(matches!(issue(&mut l, d(4, 0)), Err(Error::Validation(_))));
    assert_eq!(l.on_hand.text(), "3");
    assert!(issue(&mut l, d(0, 0)).is_err());
}

#[test]
fn whole_units_do_not_split() {
    let mut l = level(1, d(3, 0), d(9, 0));
    let mv = Movement::Issue { qty: d(15, 1), covered_by_reservation: d(0, 0) };
    let r = StockService::apply(1, 1, day(2026, 7, 6), &item(1, "A"), &uom(1, "pcs", false), &mut l, None, mv);
    assert!(matches!(r, Err(Error::Validation(_))));
}

#[test]
fn reservations_take_what_is_free() {
    let mut l = level(1, d(10, 0), d(100, 0));
    assert_eq!(StockService::reserve_up_to(&mut l, d(7, 0)).unwrap().text(), "7");
    assert_eq!(StockService::reserve_up_to(&mut l, d(7, 0)).unwrap().text(), "3");
    assert!(StockService::reserve_up_to(&mut l, d(7, 0)).unwrap().is_zero());
    StockService::release_reserved(&mut l, d(3, 0)).unwrap();
    assert_eq!(l.reserved.text(), "7");
    StockService::adjust_on_order(&mut l, d(5, 0)).unwrap();
    assert_eq!(l.on_order.text(), "5");
    // What others hold cannot be issued.
    assert!(issue(&mut l, d(4, 0)).is_err());
    assert!(issue(&mut l, d(3, 0)).is_ok());
    // No more is released than is held, and nothing for less than nothing.
    assert!(StockService::release_reserved(&mut l, d(-2, 0)).unwrap().is_zero());
    assert_eq!(StockService::release_reserved(&mut l, d(100, 0)).unwrap().text(), "7");
    assert!(l.reserved.is_zero());
    let all = l.on_hand;
    issue(&mut l, all).unwrap();
    assert!(l.on_hand.is_zero() && l.value.is_zero());
}

// ---------------------------------------------------------------------------
// Items and warehouses
// ---------------------------------------------------------------------------

fn category(id: u128, name: &str, parent_id: Option<u128>) -> Category {
    Category {
        id,
        code: None,
        name: name.to_string(),
        description: None,
        parent_id,
        default_costing_method: None,
        default_uom_id: None,
        inventory_account_role: None,
        cogs_account_role: None,
        adjustment_account_role: None,
        is_active: true,
    }
}

fn category_body(name: &str, parent_id: Option<u128>) -> CategoryBody {
    CategoryBody {
        code: None,
        name: name.to_string(),
        description: None,
        parent_id,
        default_costing_method: None,
        default_uom_id: None,
        inventory_account_role: None,
        cogs_account_role: None,
        adjustment_account_role: None,
        is_active: true,
    }
}

fn store() -> Store {
    Store {
        items: vec![item(1, "A")],
        categories: vec![category(1, "Food", None), category(2, "Fruit", Some(1))],
        uoms: vec![uom(1, "pcs", false)],
        warehouses: vec![7],
        suppliers: vec![],
    }
}

#[test]
fn categories_make_no_loops() {
    let s = store();
    assert!(s.update_category(1, category_body("Food", Some(2))).is_err());
    assert!(s.update_category(1, category_body("Food", Some(1))).is_err());
    assert!(s.update_category(2, category_body("Fruits", Some(1))).is_ok());
    assert!(s.create_category(category_body(" ", None), 3).is_err());
    assert!(s.delete_category(1).is_err());
    assert!(s.delete_category(2).is_ok());
}

#[test]
fn moved_items_are_deactivated() {
    let s = store();
    assert!(matches!(s.delete_item(1, 3), Ok(Removal::Deactivate)));
    assert!(matches!(s.delete_item(1, 0), Ok(Removal::Delete)));
    assert!(s.delete_item(9, 0).is_err());
    assert_eq!(ItemType::parse("service").unwrap(), ItemType::Service);
    assert!(ItemType::parse("thing").is_err());
    assert_eq!(CostingMethod::parse(CostingMethod::Fifo.as_str()).unwrap(), CostingMethod::Fifo);
    let body = UomBody {
        code: "pcs".to_string(),
        name: "Pieces".to_string(),
        symbol: None,
        fractional: false,
    };
    assert!(s.create_uom(body, 4).is_err());
}

fn warehouse_body(code: &str, is_default: bool) -> WarehouseBody {
    WarehouseBody {
        code: code.to_string(),
        name: "Main".to_string(),
        warehouse_type: "standard".to_string(),
        parent_id: None,
        address_line1: None,
        address_line2: None,
        city: Some(" ".to_string()),
        region: None,
        postal_code: None,
        country: None,
        phone: None,
        email: None,
        contact_name: None,
        is_default,
        allow_negative: false,
        is_active: true,
        notes: None,
    }
}

#[test]
fn there_is_one_default_warehouse() {
    let mut s = warehouse::Store { warehouses: vec![] };
    s.create(warehouse_body(" W1 ", true), 1).unwrap();
    s.create(warehouse_body("W2", true), 2).unwrap();
    assert_eq!(s.warehouses[0].code, "W1");
    assert_eq!(s.warehouses[0].city, None);
    assert!(!s.warehouses[0].is_default);
    assert!(s.warehouses[1].is_default);
    s.update(1, warehouse_body("W1", true)).unwrap();
    assert!(s.warehouses[0].is_default && !s.warehouses[1].is_default);
    assert_eq!(
        s.create(warehouse_body("W1", false), 3).unwrap_err(),
        Error::Conflict("warehouse code \"W1\" already exists".to_string())
    );
    assert!(s.find_by_id(9).is_err());
}

// ---------------------------------------------------------------------------
// Lots and serial numbers
// ---------------------------------------------------------------------------

#[test]
fn lots_get_an_expiry_from_their_shelf_life() {
    let mut it = item(1, "A");
    it.track_batches = true;
    it.shelf_life_days = Some(10);
    match find_or_create_batch(&vec![], &it, " B1 ", day(2026, 7, 6), None, 5).unwrap() {
        Lot::New(b) => {
            assert_eq!(b.batch_no, "B1");
            assert_eq!(b.expires_on.unwrap().iso(), "2026-07-16");
            assert!(matches!(
                find_or_create_batch(&vec![b], &it, "B1", day(2026, 7, 7), None, 6),
                Ok(Lot::Existing(5))
            ));
        }
        _ => panic!("a new lot expected"),
    }
}

#[test]
fn serial_numbers_come_in_and_leave_once() {
    let mut it = item(1, "A");
    it.track_serials = true;
    let names = check_serial_names(&it, d(2, 0), &vec![" S1".to_string(), "S2 ".to_string()]).unwrap();
    assert_eq!(names, vec!["S1", "S2"]);
    assert!(check_serial_names(&it, d(2, 0), &vec!["S1".to_string()]).is_err());
    let mut held = vec![];
    serials_in(&mut held, &it, 7, None, &names, day(2026, 7, 6), &vec![1, 2]).unwrap();
    assert_eq!(held.len(), 2);
    assert!(serials_in(&mut held, &it, 7, None, &names, day(2026, 7, 6), &vec![3, 4]).is_err());
    serials_move(&mut held, &it, 7, 8, &names).unwrap();
    assert_eq!(held[0].warehouse_id, Some(8));
    assert!(serials_out(&mut held, &it, 7, &names, SerialStatus::Issued).is_err());
    serials_out(&mut held, &it, 8, &names, SerialStatus::Issued).unwrap();
    assert_eq!(held[0].status, SerialStatus::Issued);
    assert!(serials_out(&mut held, &it, 8, &names, SerialStatus::Issued).is_err());
}

#[test]
fn lots_are_what_their_rows_add_up_to() {
    let lot = |id: u128, item_id: u128, no: &str| Batch {
        id,
        item_id,
        batch_no: no.to_string(),
        manufactured_on: None,
        expires_on: None,
        supplier_batch_no: None,
        is_active: true,
    };
    let row = |batch: u128, warehouse: u128, qty: i64| LedgerRow {
        move_id: 1,
        move_line_id: 1,
        item_id: 1,
        warehouse_id: warehouse,
        batch_id: Some(batch),
        entry_date: day(2026, 7, 6),
        qty_delta: d(qty, 0),
        qty_after: d(0, 0),
        unit_cost: d(0, 0),
        value_delta: d(0, 0),
        value_after: d(0, 0),
    };
    let lots = vec![lot(4, 1, "B1"), lot(5, 1, "B2"), lot(6, 2, "B3")];
    let rows = vec![row(4, 7, 10), row(4, 8, 3), row(4, 7, -4), row(5, 7, 2), row(5, 7, -2)];
    let mut by_lot = item(1, "A");
    by_lot.track_batches = true;
    assert_eq!(find_batch(&lots, &by_lot, " B2 ").unwrap().id, 5);
    assert!(find_batch(&lots, &by_lot, "B3").is_err());
    assert_eq!(batch_on_hand(&rows, 1, Some(7), 4).unwrap().text(), "6");
    assert_eq!(batch_on_hand(&rows, 1, None, 4).unwrap().text(), "9");
    let shown = item_batches(&lots, &rows, 1, Some(7), false).unwrap();
    assert_eq!(shown.len(), 1);
    assert_eq!(shown[0].batch_no, "B1");
    assert_eq!(item_batches(&lots, &rows, 1, None, true).unwrap().len(), 2);
    let mut dated = vec![lot(4, 1, "B1"), lot(5, 1, "B0"), lot(6, 1, "B3"), lot(7, 1, "B2")];
    dated[2].expires_on = Some(day(2027, 1, 1));
    dated[3].expires_on = Some(day(2026, 9, 1));
    let order = item_batches(&dated, &rows, 1, None, true).unwrap();
    let names: Vec<&str> = order.iter().map(|b| b.batch_no.as_str()).collect();
    assert_eq!(names, vec!["B2", "B3", "B0", "B1"]);
    let stocked = lots_on_hand(&lots, &rows, 8).unwrap();
    assert_eq!(stocked.len(), 1);
    assert!(stocked[0].on_hand.equals(&d(3, 0)));
}

// ---------------------------------------------------------------------------
// Queries
// ---------------------------------------------------------------------------

fn queries() -> StockQueries {
    let mut s = warehouse::Store { warehouses: vec![] };
    s.create(warehouse_body("W7", false), 7).unwrap();
    let mut low = level(1, d(2, 0), d(10, 0));
    low.reorder_level = Some(d(5, 0));
    StockQueries {
        levels: vec![level(2, d(4, 0), d(90, 0)), low],
        items: vec![item(1, "A"), item(2, "B")],
        warehouses: s.warehouses,
    }
}

#[test]
fn positions_are_shown_with_their_labels() {
    let q = queries();
    let all = q
        .levels(&LevelsFilter { warehouse_id: None, item_id: None, below_reorder: false })
        .unwrap();
    assert_eq!(all.len(), 2);
    assert_eq!(all[0].sku, "A");
    assert_eq!(all[1].warehouse_code, "W7");
    assert!(all[0].below_reorder && !all[1].below_reorder);
    assert!(all[1].avg_cost.equals(&d(225, 1)));
    let low = q
        .levels(&LevelsFilter { warehouse_id: None, item_id: None, below_reorder: true })
        .unwrap();
    assert_eq!(low.len(), 1);
    let v = q.valuation(None).unwrap();
    assert_eq!(v.total_value.text(), "100");
    assert_eq!(v.warehouses[0].items, 2);
    let (value, stocked) = stock_value(&all).unwrap();
    assert_eq!((value.text(), stocked), ("100".to_string(), 2));
    assert_eq!(value_by_warehouse(&all).unwrap()[0].label, "W7");
    let top = top_stock_items(&all).unwrap();
    assert_eq!(top[0].subtitle, "B");
    assert_eq!(top.len(), 2);
}

#[test]
fn ledger_pages_are_filtered() {
    let q = queries();
    let mut l = level(1, d(5, 0), d(50, 0));
    let mv = Movement::Issue { qty: d(1, 0), covered_by_reservation: d(0, 0) };
    let row = StockService::apply(11, 1, day(2026, 7, 6), &item(1, "A"), &uom(1, "kg", true), &mut l, None, mv)
        .unwrap();
    let rows = vec![
        StoredRow { seq: 2, posted_at: 20, row },
        StoredRow { seq: 1, posted_at: 10, row },
        StoredRow { seq: 3, posted_at: 30, row },
    ];
    let moves = vec![MoveDoc {
        id: 11,
        number: Some("ISS-1".to_string()),
        move_type: MoveType::Issue,
        entry_date: day(2026, 7, 6),
        source: None,
    }];
    let filter = LedgerFilter {
        item_id: Some(1),
        warehouse_id: None,
        from: None,
        to: None,
        after_seq: Some(1),
        limit: Some(1),
    };
    let page = q.ledger(&rows, &moves, &filter);
    assert_eq!(page.len(), 1);
    assert_eq!(page[0].seq, 2);
    assert_eq!(page[0].posted_at, 20);
    assert_eq!(page[0].number.as_deref(), Some("ISS-1"));
    assert_eq!(page[0].qty_delta.text(), "-1");
    let next = q.ledger(&rows, &moves, &LedgerFilter { after_seq: Some(2), ..filter });
    assert_eq!(next.len(), 1);
    assert_eq!(next[0].seq, 3);
    let latest = q.latest(&rows, &moves, 2);
    assert_eq!(latest.iter().map(|r| r.seq).collect::<Vec<i64>>(), vec![2, 3]);
    let many: Vec<StoredRow> =
        (1..=501).rev().map(|seq| StoredRow { seq, posted_at: seq, row }).collect();
    let shown = StockLedgerDataSource.load(&q, &many, &moves);
    assert_eq!(shown.len(), 500);
    assert_eq!((shown[0].seq, shown[499].seq), (2, 501));
}

// ---------------------------------------------------------------------------
// The ledger side
// ---------------------------------------------------------------------------

#[test]
fn entries_net_per_role() {
    let mut b = EntryBuilder::new();
    assert!(b.debit("cash", d(10, 0), None));
    assert!(b.credit("cash", d(4, 0), None));
    assert!(b.credit("sales", d(6, 0), None));
    let lines = b.lines();
    assert_eq!(lines.len(), 2);
    assert_eq!(lines[0].debit.text(), "6");
    assert_eq!(lines[1].credit.text(), "6");
    let mut b = EntryBuilder::new();
    assert!(b.credit("sales", d(0, 0), Some("nothing")));
    assert!(b.debit("cash", d(500, 2), Some("float")));
    assert!(b.credit("sales", d(7, 0), Some("till")));
    assert!(b.debit("card", d(3, 0), None));
    assert!(b.debit("card", d(-3, 0), None));
    assert!(b.debit("cash", d(2, 0), Some("late")));
    let lines = b.lines();
    assert_eq!(lines.len(), 2);
    assert_eq!(lines[0].account_role, "cash");
    assert_eq!(lines[0].memo.as_deref(), Some("float"));
    assert_eq!(lines[0].debit.text(), "7.00");
    assert_eq!(lines[1].memo.as_deref(), Some("till"));
    assert_eq!(lines[1].credit.text(), "7");
}

#[test]
fn issues_become_cost_of_sales() {
    let mut l = level(1, d(5, 0), d(50, 0));
    let mv = Movement::Issue { qty: d(2, 0), covered_by_reservation: d(0, 0) };
    let row = StockService::apply(11, 1, day(2026, 7, 6), &item(1, "A"), &uom(1, "kg", true), &mut l, None, mv)
        .unwrap();
    let doc = MoveDoc {
        id: 11,
        number: Some("ISS-1".to_string()),
        move_type: MoveType::Issue,
        entry_date: day(2026, 7, 6),
        source: None,
    };
    let req = stock_move_request(&doc, &vec![row], &vec![item(1, "A")], &vec![], Some(3))
        .unwrap()
        .unwrap();
    assert_eq!(req.tenant_id, Some(3));
    assert_eq!(req.lines.len(), 2);
    let mut debit = Decimal::zero();
    let mut credit = Decimal::zero();
    for line in &req.lines {
        debit = debit.checked_add(line.debit).unwrap();
        credit = credit.checked_add(line.credit).unwrap();
    }
    assert!(debit.equals(&d(20, 0)));
    assert!(debit.equals(&credit));
}

#[test]
fn each_role_gets_what_its_rows_mean() {
    let mut special = item(2, "B");
    special.inventory_account_role = Some("inventory_b".to_string());
    let row = |item_id: u128, value: i64| LedgerRow {
        move_id: 11,
        move_line_id: 1,
        item_id,
        warehouse_id: 7,
        batch_id: None,
        entry_date: day(2026, 7, 6),
        qty_delta: d(-1, 0),
        qty_after: d(0, 0),
        unit_cost: d(0, 0),
        value_delta: d(value, 2),
        value_after: d(0, 0),
    };
    let doc = MoveDoc {
        id: 11,
        number: None,
        move_type: MoveType::Issue,
        entry_date: day(2026, 7, 6),
        source: None,
    };
    let rows = vec![row(1, -1050), row(2, -300), row(1, -50)];
    let items = vec![item(1, "A"), special];
    let req = stock_move_request(&doc, &rows, &items, &vec![], None).unwrap().unwrap();
    assert_eq!(req.memo, "Stock issue");
    let of = |role: &str| req.lines.iter().find(|l| l.account_role == role).unwrap();
    assert_eq!(of("inventory").credit.to_fixed(2), "11.00");
    assert_eq!(of("inventory_b").credit.to_fixed(2), "3.00");
    assert_eq!(of("cogs").debit.to_fixed(2), "14.00");
    let transfer = MoveDoc { move_type: MoveType::Transfer, ..doc };
    assert!(stock_move_request(&transfer, &rows, &items, &vec![], None).unwrap().is_none());
}

#[test]
fn goods_wait_for_their_bill() {
    let mut l = level(1, d(0, 0), d(0, 0));
    let mv = Movement::Receipt { qty: d(2, 0), unit_cost: d(50, 0) };
    let row = StockService::apply(11, 1, day(2026, 7, 6), &item(1, "A"), &uom(1, "kg", true), &mut l, None, mv)
        .unwrap();
    let rows = vec![row];
    let items = vec![item(1, "A")];
    let req = goods_receipt_request(9, &rows, &items, &vec![], Some("PO-1"), day(2026, 7, 6), None)
        .unwrap()
        .unwrap();
    assert_eq!(req.source, "scm.receipt:00000000-0000-0000-0000-000000000009:post");
    assert_eq!(req.memo, "Goods receipt against PO-1");
    assert_eq!(req.lines[0].account_role, keys::INVENTORY);
    assert_eq!(req.lines[0].debit.to_fixed(2), "100.00");
    assert_eq!(req.lines[1].account_role, keys::GRNI);
    assert_eq!(req.lines[1].credit.to_fixed(2), "100.00");
    let gone = goods_receipt_request(9, &rows, &vec![], &vec![], None, day(2026, 7, 6), None);
    assert_eq!(gone.unwrap_err(), Error::Internal("ledger row without an item".to_string()));
}

#[test]
fn bills_clear_what_was_received() {
    let inv = PurchaseInvoice {
        id: 4,
        number: Some("PINV-1".to_string()),
        supplier_invoice_no: "77".to_string(),
        invoice_date: day(2026, 7, 6),
        order_id: Some(2),
        exchange_rate: d(1, 0),
        discount_pct: None,
        discount_amount: None,
        other_charges: None,
    };
    let lines = vec![InvoiceLine {
        qty: d(2, 0),
        order_price: Some(d(50, 0)),
    }];
    let order = Some(OrderRef { number: Some("PO-1".to_string()) });
    let req = purchase_invoice_request(&inv, order, &lines, false, day(2026, 7, 6), None)
        .unwrap()
        .unwrap();
    let mut debit = Decimal::zero();
    let mut credit = Decimal::zero();
    for line in &req.lines {
        debit = debit.checked_add(line.debit).unwrap();
        credit = credit.checked_add(line.credit).unwrap();
    }
    assert!(debit.equals(&credit));
    assert!(debit.equals(&d(100, 0)));
    assert!(purchase_invoice_request(&inv, None, &lines, false, day(2026, 7, 6), None).is_err());
}

fn role_account(id: u128, key: &str, kind: AccountType) -> account::Model {
    account::Model {
        id,
        code: format!("{}", id),
        name: key.to_string(),
        account_type: kind,
        currency: "KES".to_string(),
        parent_id: None,
        description: None,
        system_key: Some(key.to_string()),
        is_system: true,
        is_active: true,
    }
}

#[test]
fn the_two_sides_are_reconciled() {
    let levels = vec![level(1, d(4, 0), d(60, 0)), level(2, d(4, 0), d(40, 0))];
    let items = vec![item(1, "A")];
    let mut outbox = Outbox { rows: vec![] };
    outbox.stage(request("scm.move:1"), 0);
    let accounts = vec![
        role_account(1, keys::INVENTORY, AccountType::Asset),
        role_account(2, keys::GRNI, AccountType::Liability),
    ];
    let totals = vec![
        Totals { account_id: 1, debit: d(120, 0), credit: d(30, 0) },
        Totals { account_id: 2, debit: d(5, 0), credit: d(25, 0) },
    ];
    let books = || Some(LedgerSide { accounts: &accounts, totals: &totals });
    let view = reconciliation(&levels, d(20, 0), &items, &vec![], books(), &outbox).unwrap();
    assert_eq!(view.stock_value.text(), "100");
    assert_eq!(view.inventory_account_balance.unwrap().text(), "90");
    assert_eq!(view.inventory_gap.unwrap().text(), "10");
    assert!(view.grni_gap.unwrap().is_zero());
    assert_eq!(view.pending_outbox, 1);
    let bare = reconciliation(&levels, d(20, 0), &items, &vec![], None, &outbox).unwrap();
    assert!(bare.inventory_gap.is_none());
    assert_eq!(item_roles(&items, &vec![], 1).unwrap().inventory, keys::INVENTORY);
    assert_eq!(inventory_roles(&items, &vec![]), vec![keys::INVENTORY.to_string()]);
    let roles = vec![keys::GRNI.to_string()];
    let owed = role_balance(&accounts, &totals, &roles, NormalBalance::Credit).unwrap();
    assert_eq!(owed.text(), "20");
}

// ---------------------------------------------------------------------------
// The outbox
// ---------------------------------------------------------------------------

fn request(source: &str) -> GlPostingRequested {
    GlPostingRequested {
        tenant_id: None,
        source: source.to_string(),
        entry_date: day(2026, 7, 6),
        memo: "Stock issue".to_string(),
        currency: None,
        lines: vec![],
    }
}

#[test]
fn requests_wait_until_they_are_acknowledged() {
    let mut outbox = Outbox { rows: vec![] };
    assert!(outbox.stage(request("scm.move:1"), 10));
    assert!(outbox.stage(request("scm.move:2"), 5));
    assert!(!outbox.stage(request("scm.move:1"), 20));
    assert_eq!(outbox.rows.len(), 2);
    outbox.acknowledge("payroll:1");
    outbox.acknowledge("scm.move:3");
    assert_eq!(outbox.rows.len(), 2);
    outbox.acknowledge("scm.move:1");
    assert_eq!(outbox.rows.len(), 1);
    assert_eq!(outbox.rows[0].source, "scm.move:2");
    assert_eq!(resolve_books(Some(4), true), Books::Tenant(4));
    assert_eq!(resolve_books(Some(4), false), Books::Main);
    assert_eq!(resolve_books(None, true), Books::Main);
    assert!(outbox.stage(request("pos.session:7"), 30));
    outbox.acknowledge("pos.session:7");
    assert_eq!(outbox.rows.len(), 1);
    assert_eq!(outbox.rows[0].source, "scm.move:2");
}

#[test]
fn lingering_requests_are_published_again() {
    let mut outbox = Outbox { rows: vec![] };
    outbox.stage(request("scm.move:1"), 10);
    outbox.stage(request("scm.move:2"), 5);
    outbox.stage(request("scm.move:3"), 7);
    outbox.rows[2].payload = None;
    assert!(outbox.sweep(120_000_005).is_empty());
    let again = outbox.sweep(120_000_011);
    let sources: Vec<&str> = again.iter().map(|a| a.source.as_str()).collect();
    assert_eq!(sources, vec!["scm.move:2", "scm.move:1"]);
    assert_eq!(outbox.rows[0].attempts, 1);
    assert_eq!(outbox.rows[2].attempts, 0);
    assert!(outbox.sweep(240_000_011).is_empty());
    assert_eq!(outbox.sweep(240_000_012).len(), 2);
}

#[test]
fn the_supply_chain_has_its_series() {
    let app = ScmApp;
    assert_eq!(app.name(), "scm");
    assert_eq!(app.series().len(), 16);
    assert_eq!(app.series()[0].key, "inventory.receipt");
    assert_eq!(app.currency(&None), "USD");
    assert_eq!(permissions::tree()[1].name, "Pages.Inventory.Items");
}
