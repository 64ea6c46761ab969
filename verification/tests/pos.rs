use nebula_apps::date::Date;
use nebula_apps::decimal::Decimal;
use nebula_apps::error::Error;
use nebula_apps::scm::inventory::item::{CostingMethod, Item, ItemType, Uom};
use nebula_apps::scm::inventory::stock::Level;
use nebula_apps::scm::inventory::warehouse::{self, WarehouseBody};
use nebula_apps::scm::pos::blind::shown_to;
use nebula_apps::scm::pos::booking::session_requests;
use nebula_apps::scm::pos::catalog::{catalog, CatalogRow, LotStock};
use nebula_apps::scm::pos::checkout::Queued;
use nebula_apps::scm::pos::close::CountInput;
use nebula_apps::scm::pos::consolidate::{Move, Stockroom};
use nebula_apps::scm::pos::gate::{
    needs_override, override_event, refund_event, require_override, resolve_override,
    verify_override_pin, void_event, Authorizer, GatedAct,
};
use nebula_apps::scm::pos::pricing::{
    register_list_price, resolve_customer, Customer, PriceList, PriceListItem, PriceSource, Quote,
};
use nebula_apps::scm::pos::register::{self, RegisterBody, Surroundings};
use nebula_apps::scm::pos::sale::{
    known_tender, validate_tenders, Naming, NewRefund, NewSale, OrderKind, OrderStatus,
    Rate, RefundLineInput, SaleLineInput, SaleService, Shop, TenderInput,
};
use nebula_apps::scm::pos::session::{DrawerKind, SessionService, SessionStatus};
use nebula_apps::scm::pos::settings::{
    parse_denominations, settings_event, store_denominations, update_settings, Settings,
    StoredDenomination, UpdateSettingsRequest,
};
use nebula_apps::scm::pos::shown::{view, OrderFilter, SessionFilter};

fn d(n: i64, scale: u32) -> Decimal {
    Decimal::new(n, scale)
}

fn day(y: i32, m: u32, dd: u32) -> Date {
    Date::from_ymd(y, m, dd).unwrap()
}

fn item(id: u128, sku: &str) -> Item {
    Item {
        id,
        sku: sku.to_string(),
        name: format!("Item {}", sku),
        description: None,
        category_id: None,
        brand: None,
        manufacturer: None,
        manufacturer_part_no: None,
        model: None,
        barcode: None,
        image_file_id: None,
        country_of_origin: None,
        hs_code: None,
        notes: None,
        item_type: ItemType::Stockable,
        is_purchasable: true,
        is_sellable: true,
        is_active: true,
        uom_id: 1,
        purchase_uom_id: None,
        sales_uom_id: None,
        purchase_uom_factor: None,
        costing_method: CostingMethod::MovingAverage,
        standard_cost: None,
        purchase_price: None,
        last_purchase_price: None,
        selling_price: Some(d(116, 0)),
        min_selling_price: None,
        purchase_tax_code_id: None,
        sales_tax_code_id: Some(16),
        preferred_supplier_id: None,
        lead_time_days: None,
        min_order_qty: None,
        order_multiple: None,
        reorder_level: None,
        reorder_qty: None,
        max_level: None,
        safety_stock: None,
        default_warehouse_id: None,
        track_batches: false,
        track_serials: false,
        shelf_life_days: None,
        warranty_days: None,
        allow_negative: false,
        weight: None,
        weight_uom_id: None,
        volume: None,
        length_mm: None,
        width_mm: None,
        height_mm: None,
        inventory_account_role: None,
        cogs_account_role: None,
        adjustment_account_role: None,
        expense_account_role: None,
    }
}

fn uom(id: u128, code: &str, fractional: bool) -> Uom {
    Uom {
        id,
        code: code.to_string(),
        name: code.to_string(),
        symbol: None,
        fractional,
        is_active: true,
    }
}

fn customer(id: u128, code: &str, tax_exempt: bool) -> Customer {
    Customer {
        id,
        code: code.to_string(),
        name: code.to_string(),
        currency: "KES".to_string(),
        tax_exempt,
        is_active: true,
    }
}

fn shop() -> Shop {
    Shop {
        items: vec![item(1, "A"), item(2, "B")],
        uoms: vec![uom(1, "pcs", false)],
        batches: vec![],
        rates: vec![Rate { tax_code_id: 16, rate: d(16, 0) }],
        lists: vec![],
        entries: vec![],
        customers: vec![customer(50, "WALKIN", false), customer(51, "NGO", true)],
        walk_in_code: "WALKIN".to_string(),
        require_mpesa_reference: true,
    }
}

fn register_body(code: &str) -> RegisterBody {
    RegisterBody {
        code: code.to_string(),
        name: "Front till".to_string(),
        warehouse_id: 7,
        price_list_id: None,
        default_customer_id: None,
        receipt_header: Some("  ".to_string()),
        receipt_footer: Some("Thank you".to_string()),
        allow_negative_stock_sales: false,
        is_active: true,
    }
}

fn around() -> Surroundings {
    let mut s = warehouse::Store { warehouses: vec![] };
    s.create(
        WarehouseBody {
            code: "W7".to_string(),
            name: "Main".to_string(),
            warehouse_type: "standard".to_string(),
            parent_id: None,
            address_line1: None,
            address_line2: None,
            city: None,
            region: None,
            postal_code: None,
            country: None,
            phone: None,
            email: None,
            contact_name: None,
            is_default: true,
            allow_negative: false,
            is_active: true,
            notes: None,
        },
        7,
    )
    .unwrap();
    Surroundings { warehouses: s.warehouses, lists: vec![], customers: shop().customers }
}

fn registers() -> register::Store {
    let mut s = register::Store { registers: vec![] };
    s.create(&around(), register_body("R1"), 10, None).unwrap();
    s
}

fn opened() -> SessionService {
    let mut s = SessionService { sessions: vec![], drawer: vec![], counts: vec![] };
    s.open(&registers().registers, 10, d(1000, 0), 99, 20, "POS-1".to_string(), 0).unwrap();
    s
}

fn empty_book() -> SaleService {
    SaleService { orders: vec![], lines: vec![], payments: vec![] }
}

fn line(item_id: u128, qty: Decimal, unit_price: Decimal) -> SaleLineInput {
    SaleLineInput { item_id, qty, unit_price, manual_price: false, discount_pct: None, batch_id: None }
}

fn cash(amount: Decimal) -> TenderInput {
    TenderInput { tender: "cash".to_string(), amount, tendered: None, reference: None }
}

fn sale(uuid: u128, lines: Vec<SaleLineInput>, tenders: Vec<TenderInput>) -> NewSale {
    NewSale {
        client_uuid: uuid,
        session_id: 20,
        customer_id: None,
        sold_at: 36_000_000_000,
        captured_offline: false,
        lines,
        tenders,
        allow_override: false,
        capture_seconds: Some(12),
        input_count: Some(4),
        created_by: Some(99),
    }
}

fn quote_116() -> Quote {
    Quote::Priced { price: d(116, 0), source: "standard".to_string() }
}

fn naming(id: u128, lines: u128) -> Naming {
    Naming {
        id,
        number: format!("S-{}", id),
        line_ids: (0..lines).map(|k| id * 100 + k).collect(),
    }
}

fn sell(book: &mut SaleService, uuid: u128, id: u128, qty: i64) -> Result<u128, Error> {
    let total = d(116 * qty, 0);
    book.capture(
        &shop(),
        &opened().sessions,
        &registers().registers,
        sale(uuid, vec![line(1, d(qty, 0), d(116, 0))], vec![cash(total)]),
        &vec![quote_116()],
        naming(id, 1),
    )
}

fn give_back(book: &mut SaleService, uuid: u128, id: u128, original: u128, qty: i64) -> Result<u128, Error> {
    book.refund(
        &shop().items,
        &opened().sessions,
        NewRefund {
            client_uuid: uuid,
            session_id: 20,
            original_id: original,
            lines: vec![RefundLineInput { line_id: original * 100, qty: d(qty, 0) }],
            tender: "cash".to_string(),
            reference: None,
            created_by: None,
        },
        40_000_000_000,
        naming(id, 1),
    )
}

// ---------------------------------------------------------------------------
// Selling
// ---------------------------------------------------------------------------

#[test]
fn a_sale_carries_its_tax() {
    let mut book = empty_book();
    assert_eq!(sell(&mut book, 1, 30, 2), Ok(30));
    let o = &book.orders[0];
    assert_eq!(o.kind, OrderKind::Sale);
    assert_eq!(o.status, OrderStatus::Captured);
    assert_eq!(o.customer_id, 50);
    assert_eq!(o.currency, "KES");
    assert!(o.total.equals(&d(232, 0)));
    assert!(o.tax_total.equals(&d(32, 0)));
    assert!(o.subtotal.equals(&d(232, 0)));
    assert!(o.discount_total.is_zero());
    let l = &book.lines[0];
    assert!(l.net.equals(&d(232, 0)));
    assert!(l.tax_amount.equals(&d(32, 0)));
    assert_eq!(l.tax_code_id, Some(16));
    assert!(matches!(&l.price_source, Some(PriceSource::Resolved(s)) if s == "standard"));
    assert_eq!(book.payments.len(), 1);
}

#[test]
fn a_replayed_sale_sells_once() {
    let mut book = empty_book();
    assert_eq!(sell(&mut book, 1, 30, 2), Ok(30));
    assert_eq!(sell(&mut book, 1, 31, 5), Ok(30));
    assert_eq!(book.orders.len(), 1);
    assert_eq!(book.lines.len(), 1);
}

#[test]
fn orders_are_shown_and_listed() {
    let mut book = empty_book();
    let mut s = sale(1, vec![line(1, d(1, 0), d(116, 0)), line(2, d(1, 0), d(116, 0))], vec![]);
    let mut paid = cash(d(232, 0));
    paid.tendered = Some(d(250, 0));
    s.tenders = vec![paid];
    book.capture(
        &shop(),
        &opened().sessions,
        &registers().registers,
        s,
        &vec![quote_116(), quote_116()],
        naming(30, 2),
    )
    .unwrap();
    give_back(&mut book, 2, 31, 30, 1).unwrap();
    let v = view(&book, &shop().customers, 30).unwrap();
    assert_eq!(v.change.text(), "18");
    assert_eq!(v.customer_name, "WALKIN");
    assert_eq!(v.lines.len(), 2);
    assert_eq!(v.lines[1].line_no, 2);
    assert_eq!(v.payments[0].tender, "cash");
    assert!(v.void_reason.is_none());
    assert!(matches!(view(&book, &vec![], 9), Err(Error::NotFound(_))));
    let all = book.list(OrderFilter { session_id: Some(20), kind: None });
    // The refund came later.
    assert_eq!(all.iter().map(|h| h.id).collect::<Vec<u128>>(), vec![31, 30]);
    let refunds = book.list(OrderFilter { session_id: None, kind: Some(OrderKind::Refund) });
    assert_eq!(refunds.len(), 1);
    assert!(book.list(OrderFilter { session_id: Some(21), kind: None }).is_empty());
}

#[test]
fn sessions_are_listed() {
    let s = opened();
    let any = SessionFilter { register_id: None, status: None, from: None, to: None };
    let all = s.list(&registers().registers, any);
    assert_eq!(all.len(), 1);
    assert_eq!(all[0].register_name, "Front till");
    let late = SessionFilter { from: Some(1), ..any };
    assert!(s.list(&registers().registers, late).is_empty());
    let closed = SessionFilter { status: Some(SessionStatus::Closed), ..any };
    assert!(s.list(&registers().registers, closed).is_empty());
    assert_eq!(s.view(&vec![], 20).unwrap().register_code, "");
    assert!(matches!(s.view(&vec![], 21), Err(Error::NotFound(_))));
}

#[test]
fn tenders_cover_the_total() {
    assert!(validate_tenders(&vec![cash(d(60, 0)), cash(d(40, 0))], d(100, 0), true).is_ok());
    assert!(validate_tenders(&vec![cash(d(60, 0))], d(100, 0), true).is_err());
    assert!(validate_tenders(&vec![cash(d(0, 0))], d(0, 0), true).is_err());
    let mpesa = |reference: Option<String>| TenderInput {
        tender: "mpesa".to_string(),
        amount: d(100, 0),
        tendered: None,
        reference,
    };
    assert!(validate_tenders(&vec![mpesa(None)], d(100, 0), true).is_err());
    assert!(validate_tenders(&vec![mpesa(None)], d(100, 0), false).is_ok());
    assert!(validate_tenders(&vec![mpesa(Some("QX1".to_string()))], d(100, 0), true).is_ok());
    let barter = TenderInput {
        tender: "barter".to_string(),
        amount: d(100, 0),
        tendered: None,
        reference: None,
    };
    assert!(validate_tenders(&vec![barter], d(100, 0), true).is_err());
    assert!(known_tender("card") && !known_tender("cheque"));
}

#[test]
fn prices_that_moved_are_refused_online_and_kept_offline() {
    let mut book = empty_book();
    let stale = || sale(1, vec![line(1, d(1, 0), d(100, 0))], vec![cash(d(100, 0))]);
    let r = book.capture(
        &shop(),
        &opened().sessions,
        &registers().registers,
        stale(),
        &vec![quote_116()],
        naming(30, 1),
    );
    assert_eq!(
        r,
        Err(Error::Validation("line 1: the price of A is now 116; refresh the catalog".to_string()))
    );
    assert!(book.orders.is_empty());
    let mut offline = stale();
    offline.captured_offline = true;
    book.capture(
        &shop(),
        &opened().sessions,
        &registers().registers,
        offline,
        &vec![quote_116()],
        naming(30, 1),
    )
    .unwrap();
    assert!(book.orders[0].price_drift);
    assert!(book.orders[0].total.equals(&d(100, 0)));
}

#[test]
fn exempt_customers_pay_no_tax() {
    let mut book = empty_book();
    let mut s = sale(1, vec![line(1, d(1, 0), d(116, 0))], vec![cash(d(116, 0))]);
    s.customer_id = Some(51);
    book.capture(
        &shop(),
        &opened().sessions,
        &registers().registers,
        s,
        &vec![quote_116()],
        naming(30, 1),
    )
    .unwrap();
    assert!(book.orders[0].tax_total.is_zero());
    assert!(book.orders[0].total.equals(&d(116, 0)));
}

#[test]
fn discounts_need_the_override() {
    let mut cut = line(1, d(1, 0), d(116, 0));
    cut.discount_pct = Some(d(10, 0));
    assert!(needs_override(&vec![cut]));
    assert!(!needs_override(&vec![line(1, d(1, 0), d(116, 0))]));
    let mut book = empty_book();
    let request = |allow: bool| {
        let mut s = sale(1, vec![cut], vec![cash(d(1044, 1))]);
        s.allow_override = allow;
        s
    };
    let refused = book.capture(
        &shop(),
        &opened().sessions,
        &registers().registers,
        request(false),
        &vec![quote_116()],
        naming(30, 1),
    );
    assert!(matches!(refused, Err(Error::Validation(_))));
    book.capture(
        &shop(),
        &opened().sessions,
        &registers().registers,
        request(true),
        &vec![quote_116()],
        naming(30, 1),
    )
    .unwrap();
    let o = &book.orders[0];
    assert!(o.total.equals(&d(1044, 1)));
    assert!(o.tax_total.equals(&d(144, 1)));
    assert!(o.discount_total.equals(&d(116, 1)));
}

#[test]
fn only_sensible_sales_are_captured() {
    let attempt = |s: NewSale, quotes: Vec<Quote>| {
        let n = s.lines.len();
        empty_book().capture(
            &shop(),
            &opened().sessions,
            &registers().registers,
            s,
            &quotes,
            naming(30, n.try_into().unwrap()),
        )
    };
    assert_eq!(
        attempt(sale(1, vec![], vec![cash(d(1, 0))]), vec![]),
        Err(Error::Validation("a sale needs at least one line".to_string()))
    );
    assert_eq!(
        attempt(sale(1, vec![line(1, d(1, 0), d(116, 0))], vec![]), vec![quote_116()]),
        Err(Error::Validation("a sale needs at least one tender".to_string()))
    );
    assert!(matches!(
        attempt(sale(1, vec![line(9, d(1, 0), d(116, 0))], vec![cash(d(116, 0))]), vec![quote_116()]),
        Err(Error::NotFound(_))
    ));
    assert_eq!(
        attempt(sale(1, vec![line(1, d(15, 1), d(116, 0))], vec![cash(d(174, 0))]), vec![quote_116()]),
        Err(Error::Validation("line 1: A sells in whole pcs".to_string()))
    );
    assert_eq!(
        attempt(
            sale(1, vec![line(1, d(1, 0), d(116, 0))], vec![cash(d(116, 0))]),
            vec![Quote::Refused(Error::NotFound("no price".to_string()))],
        ),
        Err(Error::NotFound("no price".to_string()))
    );
    let huge = Decimal::from_parts(79228162514264337593543950335, 0).unwrap();
    let mut manual = line(1, d(9, 0), huge);
    manual.manual_price = true;
    let mut s = sale(1, vec![manual], vec![cash(d(1, 0))]);
    s.allow_override = true;
    assert_eq!(
        attempt(s, vec![Quote::Priced { price: huge, source: "manual".to_string() }]),
        Err(Error::Overflow)
    );
    let mut elsewhere = sale(1, vec![line(1, d(1, 0), d(116, 0))], vec![cash(d(116, 0))]);
    elsewhere.session_id = 21;
    assert!(matches!(attempt(elsewhere, vec![quote_116()]), Err(Error::NotFound(_))));
}

#[test]
fn queued_sales_are_synced_one_by_one() {
    let mut book = empty_book();
    let queued = |uuid: u128, id: u128, paid: Decimal| Queued {
        sale: sale(uuid, vec![line(1, d(1, 0), d(116, 0))], vec![cash(paid)]),
        quotes: vec![quote_116()],
        naming: naming(id, 1),
    };
    let queue = vec![
        queued(1, 30, d(116, 0)),
        queued(2, 31, d(5, 0)),
        queued(1, 32, d(116, 0)),
        queued(3, 33, d(116, 0)),
    ];
    let answers = book.sync(&shop(), &opened().sessions, &registers().registers, queue);
    assert_eq!(answers.len(), 4);
    assert_eq!(answers[0].order, Ok(30));
    assert!(answers[1].order.is_err());
    assert_eq!(answers[2].order, Ok(30));
    assert_eq!(answers[3].order, Ok(33));
    assert_eq!(book.orders.len(), 2);
    // Nobody heard the answer: the queue comes again.
    let again = vec![queued(1, 40, d(116, 0)), queued(2, 41, d(5, 0)), queued(3, 42, d(116, 0))];
    let answers = book.sync(&shop(), &opened().sessions, &registers().registers, again);
    assert_eq!(answers[2].order, Ok(33));
    assert_eq!(book.orders.len(), 2);
}

// ---------------------------------------------------------------------------
// Refunds and voids
// ---------------------------------------------------------------------------

#[test]
fn refunds_return_no_more_than_was_sold() {
    let mut book = empty_book();
    sell(&mut book, 1, 30, 2).unwrap();
    assert_eq!(give_back(&mut book, 2, 31, 30, 1), Ok(31));
    assert_eq!(book.refunded_quantity(30, 3000).unwrap().text(), "1");
    assert!(matches!(give_back(&mut book, 3, 32, 30, 2), Err(Error::Validation(_))));
    assert_eq!(give_back(&mut book, 4, 33, 30, 1), Ok(33));
    let back = book.orders[1].total.checked_add(book.orders[2].total).unwrap();
    assert!(back.equals(&book.orders[0].total));
    assert!(book.orders[1].tax_total.equals(&d(16, 0)));
    // A refund is not refunded, nor sold twice.
    assert!(give_back(&mut book, 5, 34, 31, 1).is_err());
    assert_eq!(give_back(&mut book, 4, 35, 30, 1), Ok(33));
}

#[test]
fn voids_are_for_good() {
    let mut book = empty_book();
    sell(&mut book, 1, 30, 2).unwrap();
    let sessions = opened().sessions;
    assert_eq!(
        book.void(&sessions, 30, "  ", None, 5),
        Err(Error::Validation("a void needs a reason".to_string()))
    );
    book.void(&sessions, 30, " wrong item ", Some(1), 5).unwrap();
    assert_eq!(book.orders[0].status, OrderStatus::Voided);
    assert_eq!(book.orders[0].voided.as_ref().unwrap().reason, "wrong item");
    assert_eq!(
        book.void(&sessions, 30, "again", None, 6),
        Err(Error::Validation("the order is already voided".to_string()))
    );
    assert_eq!(
        give_back(&mut book, 2, 31, 30, 1),
        Err(Error::Validation("a voided sale cannot be refunded".to_string()))
    );
    assert!(matches!(book.void(&sessions, 77, "x", None, 6), Err(Error::NotFound(_))));
}

// ---------------------------------------------------------------------------
// Sessions
// ---------------------------------------------------------------------------

#[test]
fn a_register_has_one_session_at_a_time() {
    let mut s = opened();
    assert_eq!(
        s.open(&registers().registers, 10, d(0, 0), 99, 21, "POS-2".to_string(), 1),
        Err(Error::Conflict("register R1 already has an open session".to_string()))
    );
    assert!(s.open(&registers().registers, 11, d(0, 0), 99, 21, "POS-2".to_string(), 1).is_err());
    assert!(s.open(&registers().registers, 10, d(-1, 0), 99, 21, "POS-2".to_string(), 1).is_err());
    assert_eq!(s.current(10).unwrap().id, 20);
    assert!(s.current(11).is_none());
    assert_eq!(SessionStatus::parse("closing").unwrap(), SessionStatus::Closing);
    assert_eq!(
        SessionStatus::parse("ajar").unwrap_err(),
        Error::Internal("unknown pos session status \"ajar\"".to_string())
    );
}

#[test]
fn the_drawer_needs_reasons() {
    let mut s = opened();
    s.cash_movement(20, "paid_in", d(5000, 2), "change", None, 1).unwrap();
    s.cash_movement(20, "paid_out", d(20, 0), " tea ", None, 2).unwrap();
    assert_eq!(s.drawer[1].kind, DrawerKind::PaidOut);
    assert_eq!(s.drawer[1].reason, "tea");
    assert!(s.cash_movement(20, "lost", d(20, 0), "x", None, 3).is_err());
    assert!(s.cash_movement(20, "paid_in", d(0, 0), "x", None, 3).is_err());
    assert!(s.cash_movement(20, "paid_in", d(1, 0), " ", None, 3).is_err());
    assert!(s.cash_movement(9, "paid_in", d(1, 0), "x", None, 3).is_err());
    // 1000 float + 50 in - 20 out
    let e = s.expected(&empty_book(), 0).unwrap();
    assert!(e.cash.equals(&d(1030, 0)));
    assert!(e.card.is_zero());
}

fn count(tender: &str, counted: Decimal) -> CountInput {
    CountInput { tender: tender.to_string(), counted }
}

#[test]
fn closing_compares_the_count() {
    let mut s = opened();
    let mut book = empty_book();
    sell(&mut book, 1, 30, 2).unwrap();
    give_back(&mut book, 2, 31, 30, 1).unwrap();
    let x = s.x_report(&book, Some(&registers().registers[0]), 20).unwrap();
    assert_eq!((x.orders, x.refunds, x.voids), (1, 1, 0));
    assert!(x.gross_sales.equals(&d(232, 0)));
    assert!(x.net_total.equals(&d(116, 0)));
    assert!(x.tax_total.equals(&d(16, 0)));
    assert!(x.expected_cash.unwrap().equals(&d(1116, 0)));
    assert_eq!(x.session.register_code, "R1");
    assert!(s.z_report(&book, None, 20).is_err());
    let blind = Settings { blind_count: true, ..Settings::default() };
    let hidden = shown_to(&blind, false, s.x_report(&book, None, 20).unwrap());
    assert!(hidden.expected_cash.is_none());
    assert!(hidden.tenders[0].expected.is_none());
    assert!(hidden.tenders[0].net.equals(&d(116, 0)));
    let read = shown_to(&blind, true, s.x_report(&book, None, 20).unwrap());
    assert!(read.tenders[0].expected.unwrap().equals(&d(1116, 0)));
    let open = shown_to(&Settings::default(), false, s.x_report(&book, None, 20).unwrap());
    assert!(open.expected_cash.is_some());

    assert!(s.close(&book, 20, &vec![count("cash", d(1100, 0))], None, 1).is_err());
    assert!(s.close(&book, 20, &vec![], None, 0).is_err());
    assert!(s.close(&book, 20, &vec![count("cash", d(-1, 0))], None, 0).is_err());
    assert!(s.close(&book, 9, &vec![count("cash", d(1, 0))], None, 0).is_err());
    assert_eq!(s.sessions[0].status, SessionStatus::Open);
    s.close(&book, 20, &vec![count("cash", d(1100, 0))], Some("short".to_string()), 0).unwrap();
    assert_eq!(s.sessions[0].status, SessionStatus::Closing);
    assert!(s.counts[0].expected.equals(&d(1116, 0)));
    assert!(s.counts[0].counted.equals(&d(1100, 0)));
    // Once it is counted nothing is hidden.
    let counted = shown_to(&blind, false, s.z_report(&book, None, 20).unwrap());
    assert!(counted.expected_cash.is_some());
    // Selling is over.
    let late = book.capture(
        &shop(),
        &s.sessions,
        &registers().registers,
        sale(9, vec![line(1, d(1, 0), d(116, 0))], vec![cash(d(116, 0))]),
        &vec![quote_116()],
        naming(40, 1),
    );
    assert!(matches!(late, Err(Error::Validation(_))));
}

fn level(on_hand: i64) -> Level {
    Level {
        item_id: 1,
        warehouse_id: 7,
        on_hand: d(on_hand, 0),
        reserved: d(0, 0),
        on_order: d(0, 0),
        value: d(on_hand * 50, 0),
        reorder_level: None,
        reorder_qty: None,
    }
}

#[test]
fn consolidation_moves_stock_and_takings() {
    let mut s = opened();
    let mut book = empty_book();
    sell(&mut book, 1, 30, 3).unwrap();
    give_back(&mut book, 2, 31, 30, 1).unwrap();
    let room = || Stockroom {
        items: shop().items,
        uoms: shop().uoms,
        batches: vec![],
    };
    let movement = || Move { id: 70, line_ids: vec![71, 72, 73], entry_date: day(1970, 1, 1) };
    assert_eq!(
        s.consolidate(&book, &registers().registers, &room(), &vec![level(9)], 20, movement(), None, 8)
            .unwrap_err(),
        Error::Internal("consolidation outside the closing state".to_string())
    );
    s.close(&book, 20, &vec![count("cash", d(1230, 0))], Some("two short".to_string()), 0).unwrap();
    let c = s
        .consolidate(&book, &registers().registers, &room(), &vec![level(9)], 20, movement(), Some(5), 8)
        .unwrap();
    let asked = session_requests(&c, &shop().items, &vec![], day(1970, 1, 1), Some(6)).unwrap();
    let cost = asked.cost.unwrap();
    assert_eq!(cost.source, "pos.session:00000000-0000-0000-0000-000000000014:cogs");
    assert_eq!(cost.lines[0].account_role, "inventory");
    assert!(cost.lines[0].credit.equals(&d(100, 0)));
    assert!(cost.lines[1].debit.equals(&d(100, 0)));
    let takings = asked.takings.unwrap();
    assert_eq!(takings.tenant_id, Some(6));
    assert_eq!(takings.memo, "POS session POS-1 takings");
    let booked: Vec<(&str, String, String)> = takings
        .lines
        .iter()
        .map(|l| (l.account_role.as_str(), l.debit.to_fixed(2), l.credit.to_fixed(2)))
        .collect();
    assert_eq!(booked[0], ("cash", "230.00".to_string(), "0.00".to_string()));
    assert_eq!(booked[1], ("cash_over_short", "2.00".to_string(), "0.00".to_string()));
    assert_eq!(booked[2], ("sales", "0.00".to_string(), "200.00".to_string()));
    assert_eq!(booked[3], ("vat_output", "0.00".to_string(), "32.00".to_string()));
    let out = c.movement.unwrap();
    assert!(out.levels[0].on_hand.equals(&d(7, 0)));
    assert!(out.levels[0].value.equals(&d(350, 0)));
    assert_eq!(out.lines.len(), 1);
    assert!(out.lines[0].qty.equals(&d(2, 0)));
    assert!(out.rows[0].qty_delta.equals(&d(-2, 0)));
    let t = c.takings;
    // 348 sold less 116 returned; 1232 expected, 1230 counted.
    assert!(t.over_short.equals(&d(-2, 0)));
    assert!(t.net_sales.equals(&d(200, 0)));
    assert!(t.tax_net.equals(&d(32, 0)));
    let received = t.cash.checked_add(t.mpesa).unwrap().checked_add(t.card).unwrap();
    let owed = t.net_sales.checked_add(t.tax_net).unwrap().checked_add(t.over_short).unwrap();
    assert!(received.equals(&owed));
    assert_eq!(s.sessions[0].status, SessionStatus::Closed);
    assert_eq!(s.sessions[0].move_id, Some(70));
    assert_eq!(s.sessions[0].closed_by, Some(5));
    assert!(s.z_report(&book, None, 20).is_ok());
    // The register is free again.
    assert!(s.open(&registers().registers, 10, d(0, 0), 99, 21, "POS-2".to_string(), 9).is_ok());
}

// ---------------------------------------------------------------------------
// Prices and customers
// ---------------------------------------------------------------------------

fn price_list(currency: &str) -> PriceList {
    PriceList {
        id: 60,
        status: "active".to_string(),
        currency: currency.to_string(),
        valid_from: Some(day(2026, 1, 1)),
        valid_to: None,
    }
}

fn entry(min_qty: i64, unit_price: Option<Decimal>, discount_pct: Option<Decimal>) -> PriceListItem {
    PriceListItem { price_list_id: 60, item_id: 1, uom_id: None, min_qty: d(min_qty, 0), unit_price, discount_pct }
}

#[test]
fn the_registers_list_wins() {
    let lists = vec![price_list("KES")];
    let entries = vec![entry(0, Some(d(100, 0)), None), entry(10, Some(d(90, 0)), None)];
    let price = |qty: i64, own: Option<u128>, currency: &str, on: Date| {
        register_list_price(&lists, &entries, own, &item(1, "A"), d(qty, 0), currency, on).unwrap()
    };
    let today = day(2026, 7, 6);
    assert!(price(1, Some(60), "KES", today).unwrap().0.equals(&d(100, 0)));
    assert!(price(10, Some(60), "KES", today).unwrap().0.equals(&d(90, 0)));
    assert!(price(1, None, "KES", today).is_none());
    assert!(price(1, Some(60), "USD", today).is_none());
    assert!(price(1, Some(60), "KES", day(2025, 12, 31)).is_none());
    let cut = vec![entry(0, None, Some(d(25, 0)))];
    let reduced =
        register_list_price(&lists, &cut, Some(60), &item(1, "A"), d(1, 0), "KES", today).unwrap().unwrap();
    assert!(reduced.0.equals(&d(87, 0)));
    assert_eq!(reduced.1, 60);
}

#[test]
fn buyers_are_resolved() {
    let customers = shop().customers;
    assert_eq!(resolve_customer(&customers, "WALKIN", None).unwrap().id, 50);
    assert_eq!(resolve_customer(&customers, "WALKIN", Some(51)).unwrap().id, 51);
    assert!(resolve_customer(&customers, "WALKIN", Some(9)).is_err());
    assert!(resolve_customer(&customers, "NOBODY", None).is_err());
}

#[test]
fn the_catalog_holds_what_the_till_can_sell() {
    let row = |it: Item, updated_at: i64, quote: Quote| CatalogRow { item: it, updated_at, quote };
    let hidden = || {
        let mut it = item(3, "C");
        it.is_sellable = false;
        it
    };
    let rows = || {
        vec![
            row(item(1, "A"), 5, quote_116()),
            row(item(2, "B"), 9, Quote::Refused(Error::NotFound("no price".to_string()))),
            row(hidden(), 9, quote_116()),
        ]
    };
    let regs = registers().registers;
    let shop = shop();
    let lots = vec![LotStock {
        item_id: 1,
        batch_id: 4,
        batch_no: "B1".to_string(),
        expires_on: None,
        on_hand: d(9, 0),
    }];
    let today = day(2026, 7, 6);
    let all = catalog(&regs, 10, &rows(), None, &shop, &vec![level(9)], &lots, 77, today).unwrap();
    assert_eq!(all.generated_at, 77);
    assert_eq!(all.currency, "KES");
    assert_eq!(all.items.len(), 2);
    assert!(all.items[0].price.equals(&d(116, 0)));
    assert!(all.items[0].tax_rate.equals(&d(16, 0)));
    assert!(all.items[0].on_hand.equals(&d(9, 0)));
    assert_eq!(all.items[0].uom_code, "pcs");
    // Nothing that is offered tracks lots.
    assert!(all.items[0].batches.is_empty());
    assert!(all.items[1].price.is_zero());
    assert!(matches!(all.items[1].price_source, Some(PriceSource::ItemDefault)));
    let mut turned = rows();
    turned.reverse();
    let again = catalog(&regs, 10, &turned, None, &shop, &vec![], &lots, 77, today).unwrap();
    assert_eq!(again.items[0].sku, all.items[0].sku);
    let newer = catalog(&regs, 10, &rows(), Some(5), &shop, &vec![], &lots, 78, today).unwrap();
    assert_eq!(newer.items.len(), 1);
    assert_eq!(newer.items[0].sku, "B");
    let mut lotted_rows = rows();
    lotted_rows[0].item.track_batches = true;
    let lotted = catalog(&regs, 10, &lotted_rows, None, &shop, &vec![], &lots, 79, today).unwrap();
    assert_eq!(lotted.items[0].batches[0].batch_no, "B1");
    assert!(matches!(
        catalog(&regs, 11, &rows(), None, &shop, &vec![], &lots, 79, today),
        Err(Error::NotFound(_))
    ));
}

// ---------------------------------------------------------------------------
// Registers, overrides, settings
// ---------------------------------------------------------------------------

#[test]
fn registers_are_kept_apart_by_code() {
    let mut s = registers();
    assert_eq!(s.find_by_id(10).unwrap().receipt_header, None);
    assert_eq!(s.find_by_id(10).unwrap().receipt_footer.as_deref(), Some("Thank you"));
    assert_eq!(
        s.create(&around(), register_body(" R1 "), 11, None),
        Err(Error::Conflict("register code \"R1\" already exists".to_string()))
    );
    let mut body = register_body("R2");
    body.warehouse_id = 8;
    assert!(matches!(s.create(&around(), body, 11, None), Err(Error::NotFound(_))));
    assert!(s.create(&around(), register_body(" "), 11, None).is_err());
    s.update(&around(), 10, register_body("R9"), Some(3)).unwrap();
    assert_eq!(s.find_by_id(10).unwrap().code, "R9");
    s.set_grid(10, "{}".to_string()).unwrap();
    assert_eq!(s.find_by_id(10).unwrap().grid_layout.as_deref(), Some("{}"));
    assert_eq!(
        s.deactivate(&opened().sessions, 10, None),
        Err(Error::Validation("close the register's open session before deactivating it".to_string()))
    );
    s.deactivate(&vec![], 10, None).unwrap();
    assert!(!s.find_by_id(10).unwrap().is_active);
    assert!(s.find_by_id(12).is_err());
}

#[test]
fn supervisors_stand_behind_overrides() {
    let boss = Authorizer {
        id: 3,
        tenant_id: 1,
        is_active: true,
        is_deleted: false,
        has_pin: true,
        pin_matches: true,
        may_override: true,
    };
    let mut wrong = boss;
    wrong.pin_matches = false;
    assert_eq!(verify_override_pin(Some(boss), 1), Ok(3));
    assert_eq!(verify_override_pin(Some(boss), 2), Err(Error::Forbidden));
    assert_eq!(verify_override_pin(Some(wrong), 1), Err(Error::Forbidden));
    assert_eq!(verify_override_pin(None, 1), Err(Error::Forbidden));
    assert_eq!(resolve_override(true, None, 1), Ok((true, None)));
    assert_eq!(resolve_override(false, None, 1), Ok((false, None)));
    assert_eq!(resolve_override(false, Some(Some(boss)), 1), Ok((true, Some(3))));
    assert!(require_override(GatedAct::Void, true).is_ok());
    assert_eq!(
        require_override(GatedAct::Refund, false),
        Err(Error::Validation("refunding needs the override permission or a supervisor PIN".to_string()))
    );
    assert_eq!(
        override_event("S-1", 3),
        "sale S-1 carried overrides approved by user 00000000-0000-0000-0000-000000000003"
    );
    assert_eq!(void_event("S-1", " typo ", None), "voided sale S-1 (typo)");
    assert_eq!(
        refund_event(d(150, 1), 16, None),
        "refunded 15.0 against sale 00000000-0000-0000-0000-000000000010"
    );
}

fn settings_request(denominations: Vec<&str>) -> UpdateSettingsRequest {
    UpdateSettingsRequest {
        blind_count: true,
        denominations: denominations.into_iter().map(|s| s.to_string()).collect(),
        require_mpesa_reference: false,
        receipt_paper_width_mm: 80,
        receipt_margin_mm: 4,
        receipt_font_size_px: 12,
    }
}

#[test]
fn denominations_are_sorted_and_kept() {
    assert_eq!(Settings::default().denominations.len(), 9);
    let s = update_settings(settings_request(vec!["5", " 100 ", "0.50", "5.00"])).unwrap();
    let texts: Vec<String> = s.denominations.iter().map(|v| v.text()).collect();
    assert_eq!(texts, vec!["100", "5", "0.50"]);
    let stored = store_denominations(&s.denominations);
    assert_eq!(stored, vec!["100", "5", "0.5"]);
    let kept = stored.into_iter().map(StoredDenomination::Text).collect();
    let read = parse_denominations(&Some(kept)).unwrap();
    assert_eq!(read[2].text(), "0.5");
    let written = parse_denominations(&Some(vec![StoredDenomination::Written("20".to_string())])).unwrap();
    assert!(written[0].equals(&d(20, 0)));
    assert_eq!(
        parse_denominations(&None).unwrap_err(),
        Error::Internal("pos_settings.denominations is not an array".to_string())
    );
    assert!(matches!(
        parse_denominations(&Some(vec![StoredDenomination::Text("x".to_string())])),
        Err(Error::Internal(_))
    ));
    assert_eq!(
        settings_event(&s),
        "updated POS settings: blind count on, 3 denominations, M-Pesa code optional, 80mm paper"
    );
}

#[test]
fn bad_settings_are_refused() {
    assert!(update_settings(settings_request(vec![])).unwrap().denominations.is_empty());
    assert!(update_settings(settings_request(vec!["abc"])).is_err());
    assert!(update_settings(settings_request(vec!["-5"])).is_err());
    let mut wide = settings_request(vec!["5"]);
    wide.receipt_paper_width_mm = 1000;
    assert!(update_settings(wide).is_err());
}
