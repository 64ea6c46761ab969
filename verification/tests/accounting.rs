use nebula_apps::accounting::account::{self, keys, AccountType, NewAccount, NormalBalance};
use nebula_apps::accounting::app::AccountingApp;
use nebula_apps::accounting::expense::{ExpenseService, NewExpense};
use nebula_apps::accounting::fiscal::{
    build_year_view, ensure_open_for_post, period_status_for_date, FiscalService, Period,
    PeriodStatus, Year,
};
use nebula_apps::accounting::gl_port::{connection, Booking, Books, GlPort};
use nebula_apps::accounting::journal::{
    check_balanced, delete_draft, Entry, EntryStatus, Ledger, Naming, NewEntry, Posting,
    PostingInput, Written,
};
use nebula_apps::accounting::ledger::{LedgerQueries, PostedLine, Totals, TrialBalanceRow};
use nebula_apps::accounting::permissions;
use nebula_apps::accounting::seed::{
    default_accounts, redenominate, seed_defaults, system_account_id,
};
use nebula_apps::accounting::tax::{self, NewTaxCode, TaxDirection};
use nebula_apps::accounting::totals::totals_range;
use nebula_apps::accounting::widgets::{
    cash_position, expense_breakdown, monthly_pnl, net_income_month, recent_journals,
    revenue_vs_expenses, top_expenses, MonthFigures,
};
use nebula_apps::date::Date;
use nebula_apps::decimal::Decimal;
use nebula_apps::error::Error;
use nebula_apps::port::{GlLine, GlPostingRequested};
use nebula_apps::tile::TrendDirection;
use nebula_apps::windows::{last_months, last_week, month_to_date, previous_month, Month};

fn d(n: i64, scale: u32) -> Decimal {
    Decimal::new(n, scale)
}

fn day(y: i32, m: u32, dd: u32) -> Date {
    Date::from_ymd(y, m, dd).unwrap()
}

fn account(id: u128, code: &str, kind: AccountType, key: Option<&str>) -> account::Model {
    account::Model {
        id,
        code: code.to_string(),
        name: format!("Account {}", code),
        account_type: kind,
        currency: "KES".to_string(),
        parent_id: None,
        description: None,
        system_key: key.map(|k| k.to_string()),
        is_system: key.is_some(),
        is_active: true,
    }
}

fn chart() -> Vec<account::Model> {
    vec![
        account(1, "1000", AccountType::Asset, Some("cash")),
        account(2, "2000", AccountType::Liability, None),
        account(3, "3000", AccountType::Equity, None),
        account(4, "4000", AccountType::Revenue, None),
        account(5, "5000", AccountType::Expense, None),
    ]
}

fn line(account_id: u128, debit: Decimal, credit: Decimal) -> PostingInput {
    PostingInput { account_id, debit, credit, memo: None }
}

fn naming(id: u128) -> Naming {
    Naming { id, line_ids: vec![id * 10, id * 10 + 1, id * 10 + 2], at: 1_000 + id as i64 }
}

fn number(id: u128) -> String {
    format!("JV-{}", id)
}

fn sale(amount: Decimal) -> NewEntry {
    NewEntry {
        entry_date: day(2026, 7, 6),
        memo: " Sale ".to_string(),
        reference: None,
        currency: "KES".to_string(),
        lines: vec![line(1, amount, d(0, 0)), line(4, d(0, 0), amount)],
        created_by: Some(9),
    }
}

fn ledger() -> Ledger {
    Ledger { accounts: chart(), calendar: vec![] }
}

// ---------------------------------------------------------------------------
// Chart of accounts
// ---------------------------------------------------------------------------

#[test]
fn account_types_read_back() {
    for t in [
        AccountType::Asset,
        AccountType::Liability,
        AccountType::Equity,
        AccountType::Revenue,
        AccountType::Expense,
    ] {
        assert_eq!(AccountType::parse(t.as_str()).unwrap(), t);
    }
    assert_eq!(AccountType::Asset.normal_balance(), NormalBalance::Debit);
    assert_eq!(AccountType::Revenue.normal_balance(), NormalBalance::Credit);
    assert_eq!(
        AccountType::parse("cash").unwrap_err(),
        Error::Validation(
            "unknown account type \"cash\" (expected asset, liability, equity, revenue or expense)".to_string()
        )
    );
}

#[test]
fn accounts_are_created_trimmed() {
    let store = account::Store { accounts: chart() };
    let new = NewAccount {
        code: " 1010 ".to_string(),
        name: " Petty cash ".to_string(),
        account_type: AccountType::Asset,
        currency: "KES".to_string(),
        parent_id: Some(1),
        description: Some("  ".to_string()),
    };
    let made = store.create(new, 77, None).unwrap();
    assert_eq!(made.id, 77);
    assert_eq!(made.code, "1010");
    assert_eq!(made.name, "Petty cash");
    assert_eq!(made.description, None);
    assert!(made.is_active && !made.is_system);
}

#[test]
fn accounts_are_refused_for_a_reason() {
    let store = account::Store { accounts: chart() };
    let new = |code: &str, name: &str, currency: &str, parent: Option<u128>| NewAccount {
        code: code.to_string(),
        name: name.to_string(),
        account_type: AccountType::Asset,
        currency: currency.to_string(),
        parent_id: parent,
        description: None,
    };
    assert_eq!(
        store.create(new(" ", "x", "KES", None), 7, None).unwrap_err(),
        Error::Validation("account code must not be empty".to_string())
    );
    assert_eq!(
        store.create(new("9", " ", "KES", None), 7, None).unwrap_err(),
        Error::Validation("account name must not be empty".to_string())
    );
    assert_eq!(
        store.create(new("1000", "x", "KES", None), 7, None).unwrap_err(),
        Error::Conflict("account code \"1000\" already exists".to_string())
    );
    assert_eq!(
        store.create(new("9", "x", "USD", Some(1)), 7, None).unwrap_err(),
        Error::Validation("a sub-account must share its parent's currency".to_string())
    );
    assert_eq!(
        store.create(new("9", "x", "KES", Some(0xabc)), 7, None).unwrap_err(),
        Error::NotFound("account 00000000-0000-0000-0000-000000000abc".to_string())
    );
    let unknown = Error::Validation("unknown currency".to_string());
    assert_eq!(
        store.create(new("9", "x", "XXX", None), 7, Some(unknown.copy())).unwrap_err(),
        unknown
    );
}

#[test]
fn system_accounts_stay() {
    let store = account::Store { accounts: chart() };
    assert!(store.delete(1, 0).is_err());
    assert!(store.delete(2, 3).is_err());
    assert!(store.delete(2, 0).is_ok());
    assert_eq!(store.find_by_system_key(keys::CASH).unwrap().id, 1);
    assert!(store.find_by_system_key("none").is_none());
}

// ---------------------------------------------------------------------------
// Journal
// ---------------------------------------------------------------------------

#[test]
fn unbalanced_entries_are_refused() {
    assert_eq!(
        check_balanced(&vec![line(1, d(100, 0), d(0, 0)), line(4, d(0, 0), d(90, 0))]).is_err(),
        true
    );
    assert!(check_balanced(&vec![line(1, d(1000, 1), d(0, 0)), line(4, d(0, 0), d(100, 0))]).is_ok());
}

#[test]
fn drafts_are_posted_and_reversed() {
    let ledger = ledger();
    let draft = ledger.create_draft(sale(d(12550, 2)), &naming(50), None).unwrap();
    assert_eq!(draft.entry.status, EntryStatus::Draft);
    assert_eq!(draft.postings.len(), 2);
    assert_eq!(draft.postings[1].line_no, 2);
    assert_eq!(draft.postings[1].id, 501);
    assert_eq!((draft.entry.number.as_deref(), draft.entry.posted_at), (None, None));
    assert_eq!(draft.entry.created_at, 1_050);
    let done = ledger.post(draft, "JV-7".to_string(), 2_000).unwrap();
    assert_eq!(done.entry.status, EntryStatus::Posted);
    assert_eq!(done.entry.number.as_deref(), Some("JV-7"));
    assert_eq!(done.entry.posted_at, Some(2_000));
    assert_eq!(done.postings[0].debit.text(), "125.50");
    assert_eq!(
        ledger.post(done, "JV-8".to_string(), 2_001).unwrap_err(),
        Error::Validation("only a draft entry can be posted".to_string())
    );
    assert!(delete_draft(EntryStatus::Draft).is_ok());
    assert!(delete_draft(EntryStatus::Posted).is_err());

    let posted = ledger.create_posted_in(sale(d(12550, 2)), &naming(51), number(51), None).unwrap();
    assert_eq!(posted.entry.status, EntryStatus::Posted);
    assert_eq!(posted.entry.number.as_deref(), Some("JV-51"));
    let on = day(2026, 7, 8);
    let (mirror, after) = ledger
        .reverse(
            posted.entry,
            &posted.postings,
            "wrong",
            None,
            on,
            &naming(52),
            number(52),
            None,
        )
        .unwrap();
    assert_eq!(after.status, EntryStatus::Reversed);
    assert_eq!(after.reversed_by_id, Some(52));
    assert_eq!(mirror.entry.reverses_id, Some(51));
    assert_eq!(mirror.entry.memo, "Reversal of JV-51: wrong");
    assert_eq!(mirror.entry.number.as_deref(), Some("JV-52"));
    assert_eq!(mirror.postings[0].credit.text(), "125.50");
    assert!(mirror.postings[0].debit.is_zero());
    // What is reversed once is not reversed again.
    let again =
        ledger.reverse(after, &posted.postings, "", None, on, &naming(53), number(53), None);
    assert_eq!(again.unwrap_err(), Error::Validation("entry is already reversed".to_string()));
}

#[test]
fn lines_must_be_one_sided_and_in_cents() {
    let ledger = ledger();
    let mut both = sale(d(1, 0));
    both.lines[0].credit = d(1, 0);
    assert_eq!(
        ledger.create_posted_in(both, &naming(1), number(1), None).unwrap_err(),
        Error::Validation("each posting must be exactly one of a debit or a credit".to_string())
    );
    let mut minus = sale(d(1, 0));
    minus.lines[0].debit = d(-1, 0);
    assert_eq!(
        ledger.create_posted_in(minus, &naming(1), number(1), None).unwrap_err(),
        Error::Validation("posting amounts must not be negative".to_string())
    );
    assert_eq!(
        ledger.create_posted_in(sale(d(1001, 3)), &naming(1), number(1), None).unwrap_err(),
        Error::Validation("posting amounts must not have more than two decimal places".to_string())
    );
}

#[test]
fn closed_periods_refuse_entries() {
    let period = Period {
        id: 1,
        fiscal_year_id: 1,
        period_number: 7,
        name: "Jul 2026".to_string(),
        start_date: day(2026, 7, 1),
        end_date: day(2026, 7, 31),
        status: PeriodStatus::Closed,
    };
    let ledger = Ledger { accounts: chart(), calendar: vec![period] };
    assert!(ledger.create_posted_in(sale(d(1, 0)), &naming(1), number(1), None).is_err());
    assert!(ledger.create_draft(sale(d(1, 0)), &naming(1), None).is_ok());
}

#[test]
fn entries_are_shown_with_labels_and_sums() {
    let ledger = ledger();
    let posted = ledger.create_posted_in(sale(d(10, 0)), &naming(51), number(51), None).unwrap();
    let v = ledger.view(&posted).unwrap();
    assert_eq!(v.lines[0].account_code, "1000");
    assert_eq!(v.lines[0].id, 510);
    assert_eq!((v.posted_at, v.created_at), (Some(1_051), 1_051));
    assert_eq!(v.lines[1].account_name, "Account 4000");
    assert!(v.total_debit.equals(&v.total_credit));
    let mut later = sale(d(20, 0));
    later.entry_date = day(2026, 7, 9);
    let mut later = ledger.create_posted_in(later, &naming(52), number(52), None).unwrap();
    later.entry.number = Some("PV-1".to_string());
    let same_day = ledger.create_draft(sale(d(30, 0)), &naming(53), None).unwrap();
    let entries = vec![posted, later, same_day];
    let list = Ledger::list(&entries, None).unwrap();
    assert_eq!(list.iter().map(|h| h.id).collect::<Vec<u128>>(), vec![52, 53, 51]);
    assert_eq!(list[2].amount.text(), "10");
    assert_eq!(Ledger::list(&entries, Some(EntryStatus::Draft)).unwrap()[0].id, 53);
    let vouchers = ExpenseService::list(&entries).unwrap();
    assert_eq!(vouchers.len(), 1);
    assert_eq!(vouchers[0].number.as_deref(), Some("PV-1"));
}

// ---------------------------------------------------------------------------
// Fiscal calendar
// ---------------------------------------------------------------------------

#[test]
fn a_year_has_twelve_months() {
    let mut service = FiscalService { years: vec![], periods: vec![] };
    let ids: Vec<u128> = (101..113).collect();
    let year = service.create_year(day(2024, 1, 1), None, 100, &ids).unwrap();
    assert_eq!(year.name, "FY2024");
    assert_eq!(year.status, PeriodStatus::Open);
    assert_eq!(service.periods[11].id, 112);
    assert_eq!(year.periods.len(), 12);
    assert_eq!(year.end_date.iso(), "2024-12-31");
    assert_eq!(year.periods[1].end_date.iso(), "2024-02-29");
    assert_eq!(year.periods[1].name, "Feb 2024");
    for i in 1..12 {
        let before = year.periods[i].start_date.pred().unwrap();
        assert!(before.is_same(&year.periods[i - 1].end_date));
    }
    assert!(ensure_open_for_post(&service.periods, day(2024, 2, 29)).is_ok());
    assert_eq!(
        service.create_year(day(2024, 12, 1), None, 200, &ids).unwrap_err(),
        Error::Conflict("this range overlaps an existing fiscal period".to_string())
    );
    assert_eq!(
        service.create_year(day(2025, 1, 2), None, 200, &ids).unwrap_err(),
        Error::Validation("a fiscal year must start on the first day of a month".to_string())
    );
    let crossing = service.create_year(day(2025, 7, 1), Some(" ".to_string()), 200, &ids).unwrap();
    assert_eq!(crossing.name, "FY2025/2026");
    let all = service.list();
    assert_eq!((all[0].id, all[1].id), (200, 100));
    assert_eq!(service.ensure_current_year(day(2030, 5, 5), 300, &ids), Ok(false));
}

fn period(id: u128, status: PeriodStatus) -> Period {
    Period {
        id,
        fiscal_year_id: 1,
        period_number: 1,
        name: "Jan 2026".to_string(),
        start_date: day(2026, 1, 1),
        end_date: day(2026, 1, 31),
        status,
    }
}

#[test]
fn periods_close_reopen_and_lock() {
    let year = Year {
        id: 1,
        name: "2026".to_string(),
        start_date: day(2026, 1, 1),
        end_date: day(2026, 12, 31),
    };
    let mut service = FiscalService { years: vec![year], periods: vec![period(1, PeriodStatus::Open)] };
    assert_eq!(service.close_period(1).unwrap().status, PeriodStatus::Closed);
    assert_eq!(
        service.close_period(1).unwrap_err(),
        Error::Validation("cannot close a period that is closed".to_string())
    );
    assert_eq!(service.reopen_period(1).unwrap().periods[0].status, PeriodStatus::Open);
    assert!(service.lock_period(1).is_err());
    service.close_period(1).unwrap();
    assert_eq!(service.lock_period(1).unwrap().status, PeriodStatus::Locked);
    assert!(service.reopen_period(1).is_err());
    assert_eq!(service.periods[0].status, PeriodStatus::Locked);
    assert!(matches!(service.close_period(2), Err(Error::NotFound(_))));
    let mut fresh = FiscalService { years: vec![], periods: vec![] };
    let ids: Vec<u128> = (1..13).collect();
    assert_eq!(fresh.ensure_current_year(day(2026, 5, 5), 9, &ids), Ok(true));
    assert_eq!(fresh.years[0].start_date.iso(), "2026-01-01");
}

#[test]
fn a_calendar_constrains_only_where_it_is_kept() {
    assert!(ensure_open_for_post(&vec![], day(2026, 1, 5)).is_ok());
    let periods = vec![period(1, PeriodStatus::Locked)];
    assert_eq!(period_status_for_date(&periods, day(2026, 1, 5)), Some(PeriodStatus::Locked));
    assert_eq!(period_status_for_date(&periods, day(2026, 2, 5)), None);
    assert!(ensure_open_for_post(&periods, day(2026, 1, 5)).is_err());
    let year = Year {
        id: 1,
        name: "2026".to_string(),
        start_date: day(2026, 1, 1),
        end_date: day(2026, 12, 31),
    };
    let v = build_year_view(&year, &periods);
    assert_eq!(v.periods.len(), 1);
    assert_eq!(v.status, PeriodStatus::Locked);
}

// ---------------------------------------------------------------------------
// Tax and expenses
// ---------------------------------------------------------------------------

fn vat() -> tax::Model {
    tax::Model {
        id: 8,
        code: "VAT16".to_string(),
        name: "VAT 16%".to_string(),
        rate: d(16, 0),
        account_id: Some(6),
        direction: TaxDirection::Input,
        is_system: false,
        is_active: true,
    }
}

#[test]
fn tax_is_a_percentage_to_the_cent() {
    assert_eq!(vat().tax_on(d(9999, 2)).unwrap().text(), "16.00");
    let zero = tax::Model { rate: d(0, 0), ..vat() };
    assert!(zero.tax_on(d(9999, 2)).unwrap().is_zero());
    let store = tax::Store { codes: vec![vat()] };
    let new = NewTaxCode {
        code: "VAT16".to_string(),
        name: "x".to_string(),
        rate: d(1, 0),
        account_id: None,
        direction: TaxDirection::Output,
    };
    assert!(store.create(new, 1).is_err());
    assert!(store.delete(8).is_ok());
    assert!(store.delete(9).is_err());
}

#[test]
fn expenses_book_their_tax() {
    let mut accounts = chart();
    accounts.push(account(6, "1200", AccountType::Asset, Some("vat_input")));
    let service = ExpenseService {
        ledger: Ledger { accounts, calendar: vec![] },
        codes: tax::Store { codes: vec![vat()] },
    };
    let new = NewExpense {
        entry_date: day(2026, 7, 6),
        memo: "Fuel".to_string(),
        reference: None,
        expense_account_id: 5,
        payment_account_id: 1,
        amount: d(100, 0),
        tax_code_id: Some(8),
        created_by: None,
    };
    let entry = service.record(&new, &naming(60), number(60), None).unwrap();
    let mut debit = Decimal::zero();
    let mut credit = Decimal::zero();
    for p in &entry.postings {
        debit = debit.checked_add(p.debit).unwrap();
        credit = credit.checked_add(p.credit).unwrap();
    }
    assert_eq!(entry.postings.len(), 3);
    assert!(debit.equals(&credit));
    assert!(debit.equals(&d(116, 0)));
}

// ---------------------------------------------------------------------------
// Statements
// ---------------------------------------------------------------------------

fn totals() -> Vec<Totals> {
    vec![
        Totals { account_id: 1, debit: d(1500, 0), credit: d(300, 0) },
        Totals { account_id: 3, debit: d(0, 0), credit: d(1000, 0) },
        Totals { account_id: 4, debit: d(0, 0), credit: d(500, 0) },
        Totals { account_id: 5, debit: d(300, 0), credit: d(0, 0) },
    ]
}

#[test]
fn the_trial_balance_foots() {
    let q = LedgerQueries { accounts: chart() };
    let tb = q.trial_balance(None, &totals()).unwrap();
    assert!(tb.total_debit.equals(&tb.total_credit));
    assert_eq!(tb.total_debit.text(), "1500");
    let unused: Vec<&TrialBalanceRow> = tb.rows.iter().filter(|r| r.account_id == 2).collect();
    assert_eq!(unused.len(), 1);
    assert!(unused[0].debit.is_zero() && unused[0].credit.is_zero());
    let mut closed = LedgerQueries { accounts: chart() };
    closed.accounts[1].is_active = false;
    let tb = closed.trial_balance(None, &totals()).unwrap();
    assert!(tb.rows.iter().all(|r| r.account_id != 2));
}

#[test]
fn the_balance_sheet_balances() {
    let q = LedgerQueries { accounts: chart() };
    let bs = q.balance_sheet(None, &totals(), None).unwrap();
    assert!(bs.balanced);
    assert_eq!(bs.total_assets.text(), "1200");
    assert_eq!(bs.current_earnings.text(), "200");
    let income = q.income_statement(None, None, &totals()).unwrap();
    assert_eq!(income.net_income.text(), "200");
    assert_eq!(net_income_month(&income).1, TrendDirection::Up);
}

#[test]
fn ledgers_carry_a_running_balance() {
    let q = LedgerQueries { accounts: chart() };
    let posted = |debit: Decimal, credit: Decimal| PostedLine {
        entry_id: 1,
        number: None,
        entry_date: day(2026, 7, 6),
        posted_at: None,
        line_no: 1,
        memo: "m".to_string(),
        reference: None,
        debit,
        credit,
    };
    let lines = vec![posted(d(50, 0), d(0, 0)), posted(d(0, 0), d(20, 0))];
    let before = Totals { account_id: 1, debit: d(100, 0), credit: d(0, 0) };
    let book = q.run_ledger(1, Some(before), &lines).unwrap();
    assert_eq!(book.opening_balance.text(), "100");
    assert_eq!(book.lines[0].balance.text(), "150");
    assert_eq!(book.closing_balance.text(), "130");
    assert!(matches!(q.run_ledger(9, None, &lines), Err(Error::NotFound(_))));
}

#[test]
fn an_accounts_ledger_comes_from_the_journal() {
    let on = |id: u128, date: Date, amount: i64| {
        let mut new = sale(d(amount, 0));
        new.entry_date = date;
        ledger().create_posted_in(new, &naming(id), number(id), None).unwrap()
    };
    let draft = ledger().create_draft(sale(d(7, 0)), &naming(4), None).unwrap();
    let entries = vec![
        on(1, day(2026, 7, 9), 30),
        on(2, day(2026, 6, 30), 100),
        on(3, day(2026, 7, 2), 20),
        draft,
    ];
    let q = LedgerQueries { accounts: chart() };
    let book = q.account_ledger(&entries, 1, Some(day(2026, 7, 1)), Some(day(2026, 7, 31))).unwrap();
    assert_eq!(book.opening_balance.text(), "100");
    assert_eq!(book.lines.iter().map(|l| l.entry_id).collect::<Vec<u128>>(), vec![3, 1]);
    assert_eq!(book.lines[0].memo, "Sale");
    assert_eq!(book.lines[0].balance.text(), "120");
    assert_eq!(book.closing_balance.text(), "150");
    // Revenue grows on the credit side.
    let revenue = q.account_ledger(&entries, 4, None, None).unwrap();
    assert!(revenue.opening_balance.is_zero());
    assert_eq!(revenue.closing_balance.text(), "150");
    assert!(matches!(q.account_ledger(&entries, 9, None, None), Err(Error::NotFound(_))));
}

#[test]
fn a_day_is_listed_by_the_time_of_posting() {
    let at = |id: u128, posted: i64| {
        let mut w =
            ledger().create_posted_in(sale(d(10, 0)), &naming(id), number(id), None).unwrap();
        w.entry.posted_at = Some(posted);
        w
    };
    let entries = vec![at(1, 300), at(2, 100), at(3, 200)];
    let q = LedgerQueries { accounts: chart() };
    let book = q.account_ledger(&entries, 1, None, None).unwrap();
    assert_eq!(book.lines.iter().map(|l| l.entry_id).collect::<Vec<u128>>(), vec![2, 3, 1]);
}

#[test]
fn a_day_closes_with_what_the_next_one_opens_with() {
    let on = |id: u128, date: Date, amount: i64| {
        let mut new = sale(d(amount, 2));
        new.entry_date = date;
        ledger().create_posted_in(new, &naming(id), number(id), None).unwrap()
    };
    let entries =
        vec![on(1, day(2026, 7, 1), 1050), on(2, day(2026, 7, 2), 2025), on(3, day(2026, 7, 3), 7)];
    let q = LedgerQueries { accounts: chart() };
    let first = q.account_ledger(&entries, 4, None, Some(day(2026, 7, 2))).unwrap();
    let next = q.account_ledger(&entries, 4, Some(day(2026, 7, 3)), None).unwrap();
    assert_eq!(first.closing_balance.text(), "30.75");
    assert!(first.closing_balance.equals(&next.opening_balance));
}

#[test]
fn sections_add_up_to_their_totals() {
    let q = LedgerQueries { accounts: chart() };
    let assets = q.balance_sheet(None, &totals(), None).unwrap().assets;
    let mut sum = Decimal::zero();
    for line in &assets.lines {
        sum = sum.checked_add(line.amount).unwrap();
    }
    assert!(sum.equals(&assets.total));
}

#[test]
fn stores_change_what_may_change() {
    let mut store = account::Store { accounts: chart() };
    store.update(2, Some(" Loans ".to_string()), Some(" ".to_string()), Some(false)).unwrap();
    assert_eq!(store.accounts[1].name, "Loans");
    assert!(store.accounts[1].description.is_none());
    assert!(!store.accounts[1].is_active);
    assert_eq!(
        store.update(2, Some(" ".to_string()), None, None).unwrap_err(),
        Error::Validation("account name must not be empty".to_string())
    );
    assert_eq!(
        store.update(0xabc, None, None, None).unwrap_err(),
        Error::NotFound("account 00000000-0000-0000-0000-000000000abc".to_string())
    );
    let mut codes = tax::Store { codes: vec![] };
    assert_eq!(
        codes.update(u128::MAX, None, None, None, None).unwrap_err(),
        Error::NotFound("tax code ffffffff-ffff-ffff-ffff-ffffffffffff".to_string())
    );
}

#[test]
fn dashboards_look_through_windows() {
    let month = month_to_date(day(2026, 3, 15));
    assert_eq!(month.from.unwrap().iso(), "2026-03-01");
    let before = previous_month(day(2026, 3, 15)).unwrap();
    assert_eq!(before.from.unwrap().iso(), "2026-02-01");
    assert_eq!(before.to.unwrap().iso(), "2026-02-28");
    let months = last_months(day(2026, 3, 15), 6);
    assert_eq!(months.len(), 6);
    assert_eq!(months[0].key, "2025-10");
    assert_eq!(months[0].to.iso(), "2025-10-31");
    assert_eq!(months[5].key, "2026-03");
    let week = last_week(day(2026, 3, 3)).unwrap();
    assert_eq!(week[0].iso(), "2026-02-25");
    assert_eq!(week[6].iso(), "2026-03-03");
    assert!(previous_month(day(-262143, 1, 9)).is_none());
    assert_eq!(last_months(day(-262143, 2, 1), 6).len(), 2);
}

#[test]
fn the_newest_entries_come_first() {
    let entries: Vec<Written> = [3u128, 9, 1, 7, 5, 2, 8]
        .iter()
        .map(|id| {
            ledger().create_posted_in(sale(d(10, 0)), &naming(*id), number(*id), None).unwrap()
        })
        .collect();
    let rows = recent_journals(&entries);
    assert_eq!(rows.len(), 6);
    assert_eq!(rows[0], vec!["JV-9", "06 Jul", "Sale", "posted"]);
    assert_eq!(rows[5][0], "JV-2");
}

#[test]
fn totals_come_from_the_journal() {
    let ledger = ledger();
    let a = ledger.create_posted_in(sale(d(100, 0)), &naming(1), number(1), None).unwrap();
    let b = ledger.create_posted_in(sale(d(5050, 2)), &naming(2), number(2), None).unwrap();
    let draft = ledger.create_draft(sale(d(7, 0)), &naming(3), None).unwrap();
    let sums = totals_range(&vec![a, b, draft], None, Some(day(2026, 7, 6))).unwrap();
    assert_eq!(sums.len(), 2);
    assert_eq!(sums[0].debit.text(), "150.50");
    assert!(sums[0].credit.is_zero());
    assert_eq!(sums[1].credit.text(), "150.50");
    let none = totals_range(&vec![], None, None).unwrap();
    assert!(none.is_empty());
}

#[test]
fn an_impossible_amount_is_refused() {
    let big = Decimal::from_parts((1i128 << 96) - 1, 0).unwrap();
    let posting = |n: i32| Posting { id: 1, account_id: 1, line_no: n, debit: big, credit: d(0, 0), memo: None };
    let w = Written {
        entry: Entry {
            id: 1,
            number: None,
            entry_date: day(2026, 7, 6),
            memo: "m".to_string(),
            reference: None,
            currency: "KES".to_string(),
            status: EntryStatus::Posted,
            reverses_id: None,
            reversed_by_id: None,
            posted_at: Some(0),
            created_at: 0,
            created_by: None,
        },
        postings: vec![posting(1), posting(2)],
    };
    assert_eq!(ledger().view(&w).unwrap_err(), Error::Overflow);
    assert_eq!(totals_range(&vec![w], None, None).unwrap_err(), Error::Overflow);
}

// ---------------------------------------------------------------------------
// Seeding and the port
// ---------------------------------------------------------------------------

#[test]
fn seeding_twice_changes_nothing() {
    let mut accounts = vec![];
    let mut codes = vec![];
    let ids: Vec<u128> = (1..40).collect();
    assert!(seed_defaults(&mut accounts, &mut codes, "KES", &ids, &ids));
    assert_eq!(accounts.len(), default_accounts().len());
    assert!(!seed_defaults(&mut accounts, &mut codes, "KES", &ids, &ids));
    assert_eq!(accounts.len(), default_accounts().len());
    assert!(system_account_id(&accounts, keys::CASH).is_some());
    let draft = ledger().create_draft(sale(d(7, 0)), &naming(4), None).unwrap();
    let mut entries = vec![draft.entry];
    assert!(redenominate(&mut accounts, &mut entries, "USD"));
    assert_eq!(accounts[0].currency, "USD");
    assert_eq!(entries[0].currency, "USD");
    assert!(!redenominate(&mut accounts, &mut entries, "USD"));
    entries[0].status = EntryStatus::Reversed;
    assert!(!redenominate(&mut accounts, &mut entries, "KES"));
    assert_eq!(accounts[0].currency, "USD");
}

#[test]
fn requests_are_booked_once() {
    let mut accounts = chart();
    accounts[3].system_key = Some("sales".to_string());
    let mut port = GlPort { ledger: Ledger { accounts, calendar: vec![] }, references: vec![] };
    let req = GlPostingRequested {
        tenant_id: None,
        source: "pos.session:1".to_string(),
        entry_date: day(2026, 7, 6),
        memo: "Takings".to_string(),
        currency: None,
        lines: vec![
            GlLine::debit("cash".to_string(), d(10, 0), None),
            GlLine::credit("sales".to_string(), d(10, 0), None),
        ],
    };
    assert!(matches!(port.book(&req, &naming(5), number(5), None), Ok(Booking::Fresh(_))));
    assert!(matches!(port.book(&req, &naming(6), number(6), None), Ok(Booking::Existing(5))));
    assert_eq!(port.references.len(), 1);
    let nothing = GlPostingRequested { source: "pos.session:2".to_string(), lines: vec![], ..req };
    assert!(matches!(port.book(&nothing, &naming(7), number(7), None), Ok(Booking::Nothing)));
    let unknown = GlPostingRequested {
        source: "pos.session:3".to_string(),
        lines: vec![GlLine::debit("moon".to_string(), d(1, 0), None)],
        ..nothing
    };
    assert_eq!(
        port.book(&unknown, &naming(8), number(8), None).unwrap_err(),
        Error::Internal(
            "no account carries the role \"moon\"; cannot book pos.session:3".to_string()
        )
    );
    assert!(connection(None, false, true).is_ok());
    assert!(matches!(connection(Some(4), true, true), Ok(Books::Tenant(4))));
}

#[test]
fn the_app_has_its_series_and_permissions() {
    let app = AccountingApp;
    assert_eq!(app.name(), "accounting");
    assert_eq!(app.series().len(), 3);
    assert_eq!(app.series()[0].template, "JV-{YYYY}-{SEQ:5}");
    assert_eq!(app.currency(&None), "KES");
    assert_eq!(app.currency(&Some("UGX".to_string())), "UGX");
    let tree = permissions::tree();
    assert_eq!(tree[0].name, "Pages.Accounting");
    assert_eq!(tree[0].parent, None);
    assert_eq!(tree.len(), 24);
    assert_eq!(tree[2].parent, Some("Pages.Accounting.Accounts"));
}

#[test]
fn tiles_show_the_largest_expenses() {
    let q = LedgerQueries { accounts: chart() };
    assert_eq!(cash_position(&chart(), &totals()).unwrap().text(), "1200");
    let mut accounts = Vec::new();
    let mut sums = Vec::new();
    for i in 0..8u128 {
        accounts.push(account(i, &format!("50{}", i), AccountType::Expense, None));
        sums.push(Totals { account_id: i, debit: d(i as i64 + 1, 0), credit: d(0, 0) });
    }
    let q2 = LedgerQueries { accounts };
    let lines = q2.income_statement(None, None, &sums).unwrap().expenses.lines;
    let slices = expense_breakdown(lines).unwrap();
    assert_eq!(slices.len(), 7);
    assert_eq!(slices[0].amount.text(), "8");
    assert_eq!(slices[6].label, "Other");
    assert_eq!(slices[6].amount.text(), "3");
    let lines = q2.income_statement(None, None, &sums).unwrap().expenses.lines;
    let top = top_expenses(lines);
    assert_eq!(top.len(), 5);
    assert_eq!(top[4].subtitle, "503");
    let lines = q.income_statement(None, None, &totals()).unwrap().expenses.lines;
    assert_eq!(expense_breakdown(lines).unwrap().len(), 1);
}

#[test]
fn months_are_read_from_the_journal() {
    let posted = ledger().create_posted_in(sale(d(10, 0)), &naming(51), number(51), None).unwrap();
    let month = |m: u32, last: u32, key: &str| Month {
        from: day(2026, m, 1),
        to: day(2026, m, last),
        key: key.to_string(),
    };
    let months = vec![month(6, 30, "2026-06"), month(7, 31, "2026-07")];
    let figures = monthly_pnl(&months, &chart(), &vec![posted]).unwrap();
    assert!(figures[0].revenue.is_zero());
    assert_eq!(figures[1].month, "2026-07");
    assert_eq!(figures[1].revenue.text(), "10");
    assert!(figures[1].expense.is_zero());
}

#[test]
fn months_without_figures_are_empty() {
    let figures = vec![MonthFigures {
        month: "2026-06".to_string(),
        revenue: d(10, 0),
        expense: d(4, 0),
    }];
    let months = vec!["2026-05".to_string(), "2026-06".to_string()];
    let (revenue, expenses) = revenue_vs_expenses(&figures, &months);
    assert!(revenue[0].is_zero());
    assert_eq!(revenue[1].text(), "10");
    assert_eq!(expenses[1].text(), "4");
}
