use nebula_apps::accounting::account::{self, AccountType};
use nebula_apps::accounting::ledger::{LedgerQueries, Totals};
use nebula_apps::accounting::reports::balance_sheet::BalanceSheetReport;
use nebula_apps::accounting::reports::income_statement::IncomeStatementReport;
use nebula_apps::accounting::reports::trial_balance::{TrialBalanceDataSource, TrialBalanceReport};
use nebula_apps::clock::Span;
use nebula_apps::dashboard::WidgetKind;
use nebula_apps::date::Date;
use nebula_apps::decimal::Decimal;
use nebula_apps::report::{Report, ReportFormat, ReportOutput, RowTone, Table, Widget};
use nebula_apps::scm::gl_report::GlReconciliationReport;
use nebula_apps::scm::inventory::item::{CostingMethod, Item, ItemType};
use nebula_apps::scm::inventory::levels::{
    LedgerRowView, LevelView, ValuationSummary, WarehouseValuation,
};
use nebula_apps::scm::inventory::moves::{MoveDoc, MoveType};
use nebula_apps::scm::inventory::reports::reorder::{ReorderDataSource, ReorderReport};
use nebula_apps::scm::inventory::reports::stock_balance::{
    StockBalanceDataSource, StockBalanceReport,
};
use nebula_apps::scm::inventory::reports::stock_ledger::{StockLedgerDataSource, StockLedgerReport};
use nebula_apps::scm::inventory::reports::valuation_summary::ValuationSummaryReport;
use nebula_apps::scm::inventory::widgets::recent_movement;
use nebula_apps::scm::pos::pricing::PriceSource;
use nebula_apps::scm::pos::register;
use nebula_apps::scm::pos::reports::hourly_sales::HourlySalesReport;
use nebula_apps::scm::pos::reports::item_sales::ItemSalesReport;
use nebula_apps::scm::pos::reports::queries::sessions::Tempo;
use nebula_apps::scm::pos::reports::queries::PosQueries;
use nebula_apps::scm::pos::reports::session_summary::SessionSummaryReport;
use nebula_apps::scm::pos::reports::tender_mix::TenderMixReport;
use nebula_apps::scm::pos::reports::z_report::{DenominationCount, TenderSheet, ZReportDocument};
use nebula_apps::scm::pos::sale::{Order, OrderKind, OrderLine, OrderPayment, OrderStatus, SaleService};
use nebula_apps::scm::pos::session::{Session, SessionCount, SessionService, SessionStatus};
use nebula_apps::scm::reconcile::GlReconciliationView;
use nebula_apps::scm::pos::widgets::{basket_on, open_sessions, takings_on, top_items, week_trend};

fn d(n: i64, scale: u32) -> Decimal {
    Decimal::new(n, scale)
}

fn day(y: i32, m: u32, dd: u32) -> Date {
    Date::from_ymd(y, m, dd).unwrap()
}

fn item(id: u128, sku: &str) -> Item {
    Item {
        id,
        sku: sku.to_string(),
        name: format!("Item {}", sku),
        description: None,
        category_id: None,
        brand: None,
        manufacturer: None,
        manufacturer_part_no: None,
        model: None,
        barcode: None,
        image_file_id: None,
        country_of_origin: None,
        hs_code: None,
        notes: None,
        item_type: ItemType::Stockable,
        is_purchasable: true,
        is_sellable: true,
        is_active: true,
        uom_id: 1,
        purchase_uom_id: None,
        sales_uom_id: None,
        purchase_uom_factor: None,
        costing_method: CostingMethod::MovingAverage,
        standard_cost: None,
        purchase_price: None,
        last_purchase_price: None,
        selling_price: Some(d(116, 0)),
        min_selling_price: None,
        purchase_tax_code_id: None,
        sales_tax_code_id: Some(16),
        preferred_supplier_id: None,
        lead_time_days: None,
        min_order_qty: None,
        order_multiple: None,
        reorder_level: None,
        reorder_qty: None,
        max_level: None,
        safety_stock: None,
        default_warehouse_id: None,
        track_batches: false,
        track_serials: false,
        shelf_life_days: None,
        warranty_days: None,
        allow_negative: false,
        weight: None,
        weight_uom_id: None,
        volume: None,
        length_mm: None,
        width_mm: None,
        height_mm: None,
        inventory_account_role: None,
        cogs_account_role: None,
        adjustment_account_role: None,
        expense_account_role: None,
    }
}

fn table(report: &Report) -> &Table {
    match &report.widgets[0] {
        Widget::Table(t) => t,
        _ => panic!("a table expected"),
    }
}

fn cells(t: &Table, row: usize) -> Vec<&str> {
    t.rows[row].cells.iter().map(|c| c.as_str()).collect()
}

fn totals(t: &Table) -> Vec<&str> {
    t.totals.as_ref().unwrap().iter().map(|c| c.as_str()).collect()
}

// ---------------------------------------------------------------------------
// Accounting
// ---------------------------------------------------------------------------

fn queries() -> LedgerQueries {
    let account = |id: u128, code: &str, kind: AccountType| account::Model {
        id,
        code: code.to_string(),
        name: format!("Account {}", code),
        account_type: kind,
        currency: "KES".to_string(),
        parent_id: None,
        description: None,
        system_key: None,
        is_system: false,
        is_active: true,
    };
    LedgerQueries {
        accounts: vec![
            account(1, "1000", AccountType::Asset),
            account(3, "3000", AccountType::Equity),
            account(4, "4000", AccountType::Revenue),
            account(5, "5000", AccountType::Expense),
        ],
    }
}

fn movements() -> Vec<Totals> {
    vec![
        Totals { account_id: 1, debit: d(1500, 0), credit: d(300, 0) },
        Totals { account_id: 3, debit: d(0, 0), credit: d(1000, 0) },
        Totals { account_id: 4, debit: d(0, 0), credit: d(500, 0) },
        Totals { account_id: 5, debit: d(300, 0), credit: d(0, 0) },
    ]
}

#[test]
fn the_trial_balance_is_laid_out() {
    let tb = queries().trial_balance(Some(day(2026, 7, 6)), &movements()).unwrap();
    let report = TrialBalanceReport.build(&tb);
    assert_eq!(report.title, "Trial Balance");
    assert_eq!(report.subtitle.as_deref(), Some("As of 2026-07-06"));
    let t = table(&report);
    assert_eq!(cells(t, 0), vec!["1000", "Account 1000", "Asset", "1200.00", ""]);
    assert_eq!(cells(t, 3), vec!["5000", "Account 5000", "Expense", "300.00", ""]);
    assert_eq!(totals(t), vec!["", "", "Total", "1500.00", "1500.00"]);
    assert_eq!(t.rows[0].tone, Some(RowTone::Blue));
    assert_eq!(TrialBalanceDataSource.key(), "accounting_trial_balance");
    assert_eq!(TrialBalanceReport.outputs().len(), 3);
    assert!(TrialBalanceReport.outputs().contains(&ReportOutput::Pdf));
}

#[test]
fn statements_are_laid_out_in_sections() {
    let bs = queries().balance_sheet(None, &movements(), None).unwrap();
    let report = BalanceSheetReport.build(&bs);
    assert_eq!(report.subtitle.as_deref(), Some("As of today"));
    let t = table(&report);
    assert_eq!(cells(t, 0), vec!["Assets", ""]);
    assert!(t.rows[0].strong);
    assert_eq!(cells(t, 1), vec!["  1000 Account 1000", "1200.00"]);
    assert_eq!(cells(t, 2), vec!["Total assets", "1200.00"]);
    assert_eq!(cells(t, t.rows.len() - 1), vec!["Current earnings", "200.00"]);
    assert_eq!(totals(t), vec!["Total liabilities & equity", "1200.00"]);

    let is = queries().income_statement(None, Some(day(2026, 7, 31)), &movements()).unwrap();
    let report = IncomeStatementReport.build(&is);
    assert_eq!(report.subtitle.as_deref(), Some("Through 2026-07-31"));
    let t = table(&report);
    assert_eq!(cells(t, 0), vec!["Revenue", ""]);
    assert_eq!(cells(t, 2), vec!["Total revenue", "500.00"]);
    assert_eq!(totals(t), vec!["Net income", "200.00"]);
}

// ---------------------------------------------------------------------------
// Inventory
// ---------------------------------------------------------------------------

fn level_view() -> LevelView {
    LevelView {
        item_id: 1,
        sku: "A".to_string(),
        item_name: "Item A".to_string(),
        warehouse_id: 7,
        warehouse_code: "W7".to_string(),
        on_hand: d(40, 1),
        reserved: d(0, 0),
        on_order: d(0, 0),
        available: d(4, 0),
        value: d(90, 0),
        avg_cost: d(225, 1),
        reorder_level: Some(d(5, 0)),
        reorder_qty: None,
        below_reorder: true,
    }
}

#[test]
fn stock_is_laid_out() {
    let mut empty = level_view();
    empty.on_hand = d(0, 3);
    empty.value = d(0, 0);
    let mut owed = level_view();
    owed.on_hand = d(0, 0);
    let shown = StockBalanceDataSource.load(vec![level_view(), empty, owed]);
    assert_eq!(shown.len(), 2);
    assert!(shown[1].on_hand.is_zero());
    let levels = vec![level_view(), level_view()];
    let report = StockBalanceReport.build(&levels).unwrap();
    let t = table(&report);
    assert_eq!(cells(t, 0), vec!["A", "Item A", "W7", "4", "", "22.50", "90.00"]);
    assert_eq!(totals(t), vec!["", "", "", "", "", "Total", "180.00"]);

    let report = ReorderReport.build(&levels);
    assert_eq!(cells(table(&report), 1), vec!["A", "Item A", "W7", "4", "", "5", ""]);
    assert!(table(&report).totals.is_none());
    assert!(ReorderDataSource.filter().below_reorder);

    let summary = ValuationSummary {
        warehouses: vec![WarehouseValuation {
            warehouse_id: 7,
            warehouse_code: "W7".to_string(),
            warehouse_name: "Main".to_string(),
            items: 2,
            total_qty: d(8, 0),
            total_value: d(180, 0),
        }],
        total_value: d(180, 0),
    };
    let report = ValuationSummaryReport.build(&summary);
    assert_eq!(cells(table(&report), 0), vec!["W7", "Main", "2", "180.00"]);
    assert_eq!(totals(table(&report)), vec!["", "", "Total", "180.00"]);
}

#[test]
fn movements_are_laid_out() {
    let row = LedgerRowView {
        seq: 1,
        posted_at: 0,
        entry_date: day(2026, 7, 6),
        move_id: 11,
        number: None,
        move_type: Some(MoveType::Issue),
        item_id: 1,
        sku: "A".to_string(),
        warehouse_id: 7,
        warehouse_code: "W7".to_string(),
        qty_delta: d(-20, 1),
        qty_after: d(0, 0),
        unit_cost: d(5, 0),
        value_delta: d(-10, 0),
        value_after: d(0, 0),
    };
    let report = StockLedgerReport.build(&vec![row]);
    assert_eq!(
        cells(table(&report), 0),
        vec!["2026-07-06", "", "A", "W7", "-2", "", "5.00", "-10.00"]
    );
    assert_eq!(
        report.subtitle.as_deref(),
        Some("Most recent 500 entries at most, in posting order")
    );
    assert_eq!(StockLedgerDataSource.key(), "scm_stock_ledger");
    let doc = MoveDoc {
        id: 11,
        number: Some("ISS-1".to_string()),
        move_type: MoveType::Issue,
        entry_date: day(2026, 7, 6),
        source: None,
    };
    assert_eq!(recent_movement(&doc, "posted"), vec!["ISS-1", "issue", "06 Jul", "posted"]);
}

#[test]
fn the_reconciliation_is_laid_out() {
    let view = GlReconciliationView {
        stock_value: d(100, 0),
        inventory_account_balance: Some(d(90, 0)),
        inventory_gap: Some(d(10, 0)),
        grni_open: d(20, 0),
        grni_account_balance: Some(d(20, 0)),
        grni_gap: Some(d(0, 0)),
        pending_outbox: 3,
    };
    assert_eq!(GlReconciliationReport.default_format(), ReportFormat::Compact);
    let report = GlReconciliationReport.build(&view);
    let t = table(&report);
    assert_eq!(cells(t, 0), vec!["Inventory value", "100.00", "90.00", "10.00"]);
    assert_eq!(cells(t, 1), vec!["Goods received not invoiced", "20.00", "20.00", "0.00"]);
    assert_eq!(cells(t, 2), vec!["Pending GL requests", "3", "", ""]);
    let bare = GlReconciliationView {
        inventory_account_balance: None,
        inventory_gap: None,
        grni_account_balance: None,
        grni_gap: None,
        ..view
    };
    let report = GlReconciliationReport.build(&bare);
    assert_eq!(cells(table(&report), 0), vec!["Inventory value", "100.00", "\u{2014}", "\u{2014}"]);
}

// ---------------------------------------------------------------------------
// The till
// ---------------------------------------------------------------------------

const HOUR: i64 = 3_600_000_000;

fn order(id: u128, kind: OrderKind, status: OrderStatus, sold_at: i64, total: i64) -> Order {
    Order {
        id,
        number: Some(format!("S-{}", id)),
        client_uuid: id,
        session_id: 20,
        kind,
        status,
        customer_id: 50,
        sold_at,
        currency: "KES".to_string(),
        subtotal: d(total, 0),
        discount_total: d(0, 0),
        tax_total: d(16, 0),
        total: d(total, 0),
        refund_of_id: None,
        captured_offline: false,
        price_drift: false,
        voided: None,
        capture_seconds: None,
        input_count: None,
        created_by: None,
    }
}

fn order_line(order_id: u128, item_id: u128, qty: i64, price: i64) -> OrderLine {
    OrderLine {
        id: order_id * 100,
        order_id,
        line_no: 1,
        item_id,
        description: format!("Item {}", item_id),
        qty: d(qty, 0),
        unit_price: d(price, 0),
        price_source: Some(PriceSource::List(60)),
        discount_pct: None,
        tax_code_id: None,
        tax_amount: d(16, 0),
        net: d(qty * price, 0),
        batch_id: None,
        refund_of_line_id: None,
    }
}

fn payment(order_id: u128, tender: &str, amount: i64) -> OrderPayment {
    OrderPayment {
        order_id,
        tender: tender.to_string(),
        amount: d(amount, 0),
        tendered: None,
        reference: None,
    }
}

/// Two sales and a refund on the first day, a void, and a sale on the second.
fn book() -> SaleService {
    SaleService {
        orders: vec![
            order(1, OrderKind::Sale, OrderStatus::Captured, 9 * HOUR, 300),
            order(2, OrderKind::Sale, OrderStatus::Captured, 9 * HOUR + 60_000_000, 116),
            order(3, OrderKind::Refund, OrderStatus::Captured, 15 * HOUR, 116),
            order(4, OrderKind::Sale, OrderStatus::Voided, 15 * HOUR, 900),
            order(5, OrderKind::Sale, OrderStatus::Captured, 24 * HOUR, 100),
        ],
        lines: vec![
            order_line(1, 1, 3, 100),
            order_line(2, 2, 1, 116),
            order_line(3, 2, 1, 116),
            order_line(4, 1, 9, 100),
            order_line(5, 1, 1, 100),
        ],
        payments: vec![
            payment(1, "mpesa", 300),
            payment(2, "cash", 116),
            payment(3, "cash", 116),
            payment(4, "cash", 900),
            payment(5, "cash", 100),
        ],
    }
}

fn first_day() -> Span {
    Span { from: Some(day(1970, 1, 1)), to: Some(day(1970, 1, 1)) }
}

#[test]
fn tenders_share_the_takings() {
    let always = Span { from: None, to: None };
    let view = PosQueries::tender_mix(&book(), always).unwrap();
    assert_eq!(view.rows.len(), 2);
    assert_eq!(view.rows[0].tender, "mpesa");
    assert!(view.rows[0].net.equals(&d(300, 0)));
    assert_eq!(view.rows[0].share_pct.unwrap().text(), "75");
    assert_eq!(view.rows[1].payments, 2);
    assert!(view.rows[1].refunds.equals(&d(116, 0)));
    assert!(view.net_total.equals(&d(400, 0)));
    let report = TenderMixReport.build(&view);
    assert_eq!(cells(table(&report), 0), vec!["mpesa", "1", "300.00", "", "300.00", "75"]);
    assert_eq!(totals(table(&report)), vec!["Total", "", "", "", "400.00", ""]);
}

#[test]
fn items_are_ranked_by_takings() {
    let items = vec![item(1, "A"), item(2, "B")];
    let view = PosQueries::item_sales(&book(), &items, first_day()).unwrap();
    assert_eq!(view.rows.len(), 2);
    assert_eq!(view.rows[0].sku, "A");
    assert!(view.rows[0].gross.equals(&d(300, 0)));
    assert!(view.rows[1].gross.is_zero());
    assert!(view.rows[1].qty_refunded.equals(&d(1, 0)));
    let report = ItemSalesReport.build(&view).unwrap();
    assert_eq!(cells(table(&report), 0), vec!["A", "Item A", "3", "", "300.00", "16.00", "284.00"]);
    assert_eq!(totals(table(&report)), vec!["", "Total", "", "", "300.00", "16.00", "284.00"]);
    let best = top_items(&view.rows);
    assert_eq!(best[0].title, "Item A");
    assert!(best[0].value.equals(&d(300, 0)));
}

#[test]
fn hours_follow_the_clock_of_the_shop() {
    let view = PosQueries::hourly(&book(), first_day(), 0).unwrap();
    assert_eq!(view.rows.iter().map(|r| r.hour).collect::<Vec<u64>>(), vec![9, 15]);
    assert_eq!(view.rows[0].sales, 2);
    assert!(view.rows[1].net_total.equals(&d(-116, 0)));
    let east = PosQueries::hourly(&book(), first_day(), 180).unwrap();
    assert_eq!(east.rows[0].hour, 12);
    let report = HourlySalesReport.build(&east).unwrap();
    assert_eq!(
        cells(table(&report), 0),
        vec!["12:00\u{2013}12:59", "2", "", "416.00", "", "416.00"]
    );
    assert_eq!(
        report.subtitle.as_deref(),
        Some("Takings by hour of day, 1970-01-01 to 1970-01-01 (UTC+180 min)")
    );
}

fn service() -> SessionService {
    SessionService {
        sessions: vec![Session {
            id: 20,
            number: Some("POS-1".to_string()),
            register_id: 10,
            cashier_id: 99,
            status: SessionStatus::Closed,
            opened_at: 8 * HOUR,
            opening_float: d(1000, 0),
            closed_at: Some(26 * HOUR),
            closed_by: Some(99),
            closing_note: None,
            move_id: None,
            gl_source: None,
        }],
        drawer: vec![],
        counts: vec![SessionCount {
            session_id: 20,
            tender: "cash".to_string(),
            expected: d(1100, 0),
            counted: d(1095, 0),
        }],
    }
}

fn till() -> register::Model {
    register::Model {
        id: 10,
        code: "R1".to_string(),
        name: "Front".to_string(),
        warehouse_id: 7,
        price_list_id: None,
        default_customer_id: None,
        receipt_header: None,
        receipt_footer: None,
        allow_negative_stock_sales: false,
        grid_layout: None,
        is_active: true,
        created_by: None,
        updated_by: None,
    }
}

#[test]
fn sessions_are_summarized() {
    let tempos = vec![Tempo { session_id: 20, seconds: Some(d(125, 1)), inputs: None }];
    let view =
        PosQueries::sessions(&service(), &book(), &vec![till()], &tempos, first_day(), None).unwrap();
    assert_eq!(view.rows.len(), 1);
    let row = &view.rows[0];
    assert_eq!((row.orders, row.refunds, row.voids), (3, 1, 1));
    assert!(row.gross_sales.equals(&d(516, 0)));
    assert!(row.net_total.equals(&d(400, 0)));
    assert!(row.cash_variance.unwrap().equals(&d(-5, 0)));
    let report = SessionSummaryReport.build(&view).unwrap();
    assert_eq!(
        cells(table(&report), 0),
        vec![
            "POS-1", "R1", "1970-01-01 08:00", "closed", "3", "1", "1", "516.00", "116.00", "400.00",
            "32.00", "-5.00", "12.5",
        ]
    );
    let none = PosQueries::sessions(&service(), &book(), &vec![till()], &tempos, first_day(), Some(11))
        .unwrap();
    assert!(none.rows.is_empty());
}

#[test]
fn the_z_report_states_zero() {
    let sheets = vec![TenderSheet {
        tender: "cash".to_string(),
        lines: vec![
            DenominationCount { denom: d(1000, 0), count: 1 },
            DenominationCount { denom: d(50, 2), count: 190 },
        ],
    }];
    let tempo = Tempo { session_id: 20, seconds: None, inputs: None };
    let z = PosQueries::z(&service(), &book(), Some(&till()), 20, sheets, tempo).unwrap();
    assert_eq!(z.items[0].description, "Item 1");
    assert!(z.items[0].qty.equals(&d(4, 0)));
    assert!(PosQueries::z(&service(), &book(), None, 21, vec![], tempo).is_err());
    let report = ZReportDocument.build(&z).unwrap();
    assert!(ZReportDocument.requires_record());
    assert_eq!(report.title, "Z Report");
    assert_eq!(report.number.as_deref(), Some("POS-1"));
    match &report.widgets[0] {
        Widget::KeyValues { items, .. } => {
            assert_eq!(items[0].value, "R1 \u{2014} Front");
            assert_eq!(items[1].value, "1970-01-01 08:00");
        }
        _ => panic!("the heading expected"),
    }
    match &report.widgets[2] {
        Widget::Table(t) => {
            assert_eq!(
                cells(t, 0),
                vec!["cash", "216.00", "116.00", "100.00", "1100.00", "1095.00", "-5.00"]
            );
            assert_eq!(cells(t, 1), vec!["mpesa", "300.00", "", "300.00", "300.00", "", ""]);
        }
        _ => panic!("the tenders expected"),
    }
    match &report.widgets[3] {
        Widget::KeyValues { items, .. } => assert_eq!(items[0].value, "0.00"),
        _ => panic!("the drawer expected"),
    }
    match &report.widgets[4] {
        Widget::Table(t) => {
            assert_eq!(t.title.as_deref(), Some("Count sheet \u{2014} cash"));
            assert_eq!(cells(t, 1), vec!["0.5", "190", "95.00"]);
            assert_eq!(totals(t), vec!["Total", "", "1095.00"]);
        }
        _ => panic!("the count sheet expected"),
    }
}

#[test]
fn the_z_report_stays_true() {
    let before = service().z_report(&book(), Some(&till()), 20).unwrap();
    let mut later = book();
    let mut elsewhere = order(6, OrderKind::Sale, OrderStatus::Captured, 30 * HOUR, 777);
    elsewhere.session_id = 21;
    later.orders.push(elsewhere);
    later.payments.push(payment(6, "cash", 777));
    let after = service().z_report(&later, Some(&till()), 20).unwrap();
    assert_eq!(before.orders, after.orders);
    assert!(before.net_total.equals(&after.net_total));
    assert!(before.tenders[0].net.equals(&after.tenders[0].net));
}

#[test]
fn dashboards_know_their_tiles() {
    let accounting = nebula_apps::accounting::tiles::tiles();
    assert_eq!(accounting.len(), 11);
    assert_eq!(accounting[4].name, "accounting-revenue-vs-expenses");
    assert_eq!(accounting[4].kind, WidgetKind::Chart);
    assert_eq!(accounting[7].default_position, None);
    assert_eq!(nebula_apps::scm::inventory::tiles::tiles()[5].dashboard, "workspace");
    assert_eq!(nebula_apps::scm::pos::tiles::tiles()[0].permission, "Pages.Pos.Reports.View");
}

#[test]
fn tiles_show_the_day() {
    let t = takings_on(&book(), day(1970, 1, 1)).unwrap();
    assert!(t.net.equals(&d(300, 0)));
    assert_eq!((t.sales, t.refunds), (2, 1));
    let (basket, sales) = basket_on(&book(), day(1970, 1, 1)).unwrap();
    assert_eq!(sales, 2);
    assert!(basket.equals(&d(208, 0)));
    let week = week_trend(&book(), &vec![day(1970, 1, 1), day(1970, 1, 2), day(1970, 1, 3)]).unwrap();
    assert_eq!(week.iter().map(|v| v.text()).collect::<Vec<String>>(), vec!["300", "100", "0"]);
    let mut s = service();
    s.sessions[0].status = SessionStatus::Open;
    let rows = open_sessions(&s.sessions, &vec![till()]).unwrap();
    assert_eq!(rows.len(), 1);
    assert!(rows[0].contains(&"POS-1".to_string()));
    s.sessions[0].number = None;
    assert_eq!(open_sessions(&s.sessions, &vec![till()]).unwrap()[0][0], "\u{2014}");
    assert!(open_sessions(&service().sessions, &vec![till()]).unwrap().is_empty());
}
