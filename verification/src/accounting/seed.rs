//! The default chart of accounts and tax codes.
//!
//! Seeded once per set of books, so that a business can sell and read reports
//! without any accounting configuration. Seeding is idempotent row by row:
//! each row is inserted only while its role (or its code, for a header) is
//! missing, so that defaults added later reach books that were seeded before.

use super::account::{keys, AccountType, Facts, Model as Account};
use super::journal::{Entry, EntryStatus};
use super::tax::{Facts as TaxFacts, Model as TaxCode, TaxDirection};
use crate::decimal::{zero, Decimal, Num};
use crate::search::{any, find_viewed, first_from, lemma_first_from};
use crate::text::same;
use vstd::prelude::*;

verus! {

/// A row of the default chart: a header, or a postable account under one.
#[derive(Clone, Copy, Debug)]
pub struct SeedAccount {
    pub code: &'static str,
    pub name: &'static str,
    pub account_type: AccountType,
    /// The role; nothing for a header.
    pub system_key: Option<&'static str>,
    /// The header's code; nothing for a header.
    pub parent: Option<&'static str>,
}

/// What a row of the default chart says.
pub struct Row {
    pub code: Seq<char>,
    pub name: Seq<char>,
    pub account_type: AccountType,
    pub key: Option<Seq<char>>,
    pub parent: Option<Seq<char>>,
}

impl View for SeedAccount {
    type V = Row;

    open spec fn view(&self) -> Row {
        Row {
            code: self.code@,
            name: self.name@,
            account_type: self.account_type,
            key: match self.system_key {
                Some(k) => Some(k@),
                None => None,
            },
            parent: match self.parent {
                Some(p) => Some(p@),
                None => None,
            },
        }
    }
}

pub open spec fn header(code: Seq<char>, name: Seq<char>, account_type: AccountType) -> Row {
    Row { code, name, account_type, key: None, parent: None }
}

pub open spec fn child(
    parent: Seq<char>,
    account_type: AccountType,
    code: Seq<char>,
    name: Seq<char>,
    key: Seq<char>,
) -> Row {
    Row { code, name, account_type, key: Some(key), parent: Some(parent) }
}

/// The default chart, each header before the accounts under it.
pub open spec fn default_chart() -> Seq<Row> {
    seq![
        header("1000"@, "Assets"@, AccountType::Asset),
        child("1000"@, AccountType::Asset, "1010"@, "Cash on Hand"@, keys::CASH@),
        child("1000"@, AccountType::Asset, "1020"@, "Bank Account"@, keys::BANK@),
        child("1000"@, AccountType::Asset, "1100"@, "Accounts Receivable"@, keys::AR@),
        child("1000"@, AccountType::Asset, "1200"@, "Inventory"@, keys::INVENTORY@),
        child("1000"@, AccountType::Asset, "1300"@, "VAT Receivable (Input)"@, keys::VAT_INPUT@),
        header("2000"@, "Liabilities"@, AccountType::Liability),
        child("2000"@, AccountType::Liability, "2100"@, "Accounts Payable"@, keys::AP@),
        child("2000"@, AccountType::Liability, "2150"@, "Goods Received Not Invoiced"@, keys::GRNI@),
        child("2000"@, AccountType::Liability, "2200"@, "VAT Payable (Output)"@, keys::VAT_OUTPUT@),
        child("2000"@, AccountType::Liability, "2300"@, "Tax Payable"@, keys::TAX_PAYABLE@),
        header("3000"@, "Equity"@, AccountType::Equity),
        child("3000"@, AccountType::Equity, "3100"@, "Owner's Equity"@, keys::OWNER_EQUITY@),
        child("3000"@, AccountType::Equity, "3200"@, "Retained Earnings"@, keys::RETAINED_EARNINGS@),
        header("4000"@, "Revenue"@, AccountType::Revenue),
        child("4000"@, AccountType::Revenue, "4100"@, "Sales Revenue"@, keys::SALES@),
        child("4000"@, AccountType::Revenue, "4900"@, "Other Income"@, keys::OTHER_INCOME@),
        header("5000"@, "Cost of Sales"@, AccountType::Expense),
        child("5000"@, AccountType::Expense, "5100"@, "Cost of Goods Sold"@, keys::COGS@),
        child("5000"@, AccountType::Expense, "5200"@, "Stock Adjustments"@, keys::STOCK_ADJUSTMENT@),
        child(
            "5000"@,
            AccountType::Expense,
            "5300"@,
            "Purchase Price Variance"@,
            keys::PURCHASE_PRICE_VARIANCE@,
        ),
        header("6000"@, "Expenses"@, AccountType::Expense),
        child("6000"@, AccountType::Expense, "6100"@, "Operating Expenses"@, keys::OPEX@),
        child("6000"@, AccountType::Expense, "6900"@, "Rounding"@, keys::ROUNDING@),
    ]
}

fn seed_header(code: &'static str, name: &'static str, account_type: AccountType) -> (r: SeedAccount)
    ensures
        r@ == header(code@, name@, account_type),
{
    SeedAccount { code, name, account_type, system_key: None, parent: None }
}

fn seed_child(
    parent: &'static str,
    account_type: AccountType,
    code: &'static str,
    name: &'static str,
    key: &'static str,
) -> (r: SeedAccount)
    ensures
        r@ == child(parent@, account_type, code@, name@, key@),
{
    SeedAccount { code, name, account_type, system_key: Some(key), parent: Some(parent) }
}

/// A standard small-business chart of accounts, two levels deep: a header per
/// class, with the postable accounts under it.
pub fn default_accounts() -> (r: Vec<SeedAccount>)
    ensures
        r@.map_values(|s: SeedAccount| s@) == default_chart(),
{
    let asset = AccountType::Asset;
    let liability = AccountType::Liability;
    let equity = AccountType::Equity;
    let revenue = AccountType::Revenue;
    let expense = AccountType::Expense;
    let r = vec![
        seed_header("1000", "Assets", asset),
        seed_child("1000", asset, "1010", "Cash on Hand", keys::CASH),
        seed_child("1000", asset, "1020", "Bank Account", keys::BANK),
        seed_child("1000", asset, "1100", "Accounts Receivable", keys::AR),
        seed_child("1000", asset, "1200", "Inventory", keys::INVENTORY),
        seed_child("1000", asset, "1300", "VAT Receivable (Input)", keys::VAT_INPUT),
        seed_header("2000", "Liabilities", liability),
        seed_child("2000", liability, "2100", "Accounts Payable", keys::AP),
        seed_child("2000", liability, "2150", "Goods Received Not Invoiced", keys::GRNI),
        seed_child("2000", liability, "2200", "VAT Payable (Output)", keys::VAT_OUTPUT),
        seed_child("2000", liability, "2300", "Tax Payable", keys::TAX_PAYABLE),
        seed_header("3000", "Equity", equity),
        seed_child("3000", equity, "3100", "Owner's Equity", keys::OWNER_EQUITY),
        seed_child("3000", equity, "3200", "Retained Earnings", keys::RETAINED_EARNINGS),
        seed_header("4000", "Revenue", revenue),
        seed_child("4000", revenue, "4100", "Sales Revenue", keys::SALES),
        seed_child("4000", revenue, "4900", "Other Income", keys::OTHER_INCOME),
        seed_header("5000", "Cost of Sales", expense),
        seed_child("5000", expense, "5100", "Cost of Goods Sold", keys::COGS),
        seed_child("5000", expense, "5200", "Stock Adjustments", keys::STOCK_ADJUSTMENT),
        seed_child("5000", expense, "5300", "Purchase Price Variance", keys::PURCHASE_PRICE_VARIANCE),
        seed_header("6000", "Expenses", expense),
        seed_child("6000", expense, "6100", "Operating Expenses", keys::OPEX),
        seed_child("6000", expense, "6900", "Rounding", keys::ROUNDING),
    ];
    assert(r@.map_values(|s: SeedAccount| s@) =~= default_chart());
    r
}

// ---------------------------------------------------------------------------
// Seeding accounts
// ---------------------------------------------------------------------------

/// What the accounts of a chart say.
pub open spec fn facts(accounts: Seq<Account>) -> Seq<Facts> {
    accounts.map_values(|a: Account| a@)
}

pub open spec fn with_code(code: Seq<char>) -> spec_fn(Facts) -> bool {
    |f: Facts| f.code == code
}

pub open spec fn with_key(key: Seq<char>) -> spec_fn(Facts) -> bool {
    |f: Facts| f.system_key == Some(key)
}

/// The id of the first account that satisfies a condition.
pub open spec fn id_where(chart: Seq<Facts>, p: spec_fn(Facts) -> bool) -> Option<u128> {
    match first_from(chart, p, 0) {
        Some(i) => Some(chart[i].id),
        None => None,
    }
}

/// Whether a row is not inserted: its role is carried already, or its code is
/// taken.
pub open spec fn settled(chart: Seq<Facts>, row: Row) -> bool {
    ||| row.key matches Some(k) && id_where(chart, with_key(k)) is Some
    ||| id_where(chart, with_code(row.code)) is Some
}

/// The account that a row of the default chart becomes.
pub open spec fn seeded_account(chart: Seq<Facts>, row: Row, currency: Seq<char>, id: u128) -> Facts {
    Facts {
        id,
        code: row.code,
        name: row.name,
        account_type: row.account_type,
        currency,
        parent_id: match row.parent {
            Some(p) => id_where(chart, with_code(p)),
            None => None,
        },
        description: None,
        system_key: row.key,
        is_system: true,
        is_active: true,
    }
}

/// The chart after the first `n` rows of the default chart were seeded. New
/// accounts take the ids in their order.
pub open spec fn seeded_to(chart: Seq<Facts>, currency: Seq<char>, ids: Seq<u128>, n: nat) -> Seq<
    Facts,
>
    decreases n,
{
    if n == 0 {
        chart
    } else {
        let before = seeded_to(chart, currency, ids, (n - 1) as nat);
        let row = default_chart()[n - 1];
        if settled(before, row) {
            before
        } else {
            before.push(
                seeded_account(before, row, currency, ids[before.len() - chart.len()]),
            )
        }
    }
}

/// The chart after seeding.
pub open spec fn seeded(chart: Seq<Facts>, currency: Seq<char>, ids: Seq<u128>) -> Seq<Facts> {
    seeded_to(chart, currency, ids, default_chart().len())
}

fn id_by_code(accounts: &Vec<Account>, code: &str) -> (r: Option<u128>)
    ensures
        r == id_where(facts(accounts@), with_code(code@)),
{
    let found = find_viewed(accounts, Ghost(with_code(code@)), |x: &Account| -> (b: bool)
        ensures
            b == with_code(code@)(x@),
        { same(x.code.as_str(), code) });
    match found {
        Some(i) => Some(accounts[i].id),
        None => None,
    }
}

/// The id of the account that carries a role, where one does.
pub fn system_account_id(accounts: &Vec<Account>, key: &str) -> (r: Option<u128>)
    ensures
        r == id_where(facts(accounts@), with_key(key@)),
{
    let found = find_viewed(accounts, Ghost(with_key(key@)), |x: &Account| -> (b: bool)
        ensures
            b == with_key(key@)(x@),
        { 
            match &x.system_key {
                Some(k) => same(k.as_str(), key),
                None => false,
            }
         });
    match found {
        Some(i) => Some(accounts[i].id),
        None => None,
    }
}

fn seed_accounts(accounts: &mut Vec<Account>, currency: &str, ids: &Vec<u128>)
    requires
        ids@.len() >= 24,
    ensures
        facts(final(accounts)@) == seeded(facts(old(accounts)@), currency@, ids@),
        final(accounts)@.len() >= old(accounts)@.len(),
{
    let rows = default_accounts();
    let ghost start = facts(accounts@);
    let mut used: usize = 0;
    let mut i: usize = 0;
    while i < rows.len()
        invariant
            i <= rows.len(),
            rows@.map_values(|s: SeedAccount| s@) == default_chart(),
            default_chart().len() == 24,
            ids@.len() >= 24,
            used <= i,
            accounts@.len() == start.len() + used,
            facts(accounts@) == seeded_to(start, currency@, ids@, i as nat),
        decreases rows.len() - i,
    {
        let row = rows[i];
        assert(rows@.map_values(|s: SeedAccount| s@)[i as int] == row@);
        let fulfilled = match row.system_key {
            Some(k) => system_account_id(accounts, k).is_some(),
            None => false,
        };
        if !fulfilled && id_by_code(accounts, row.code).is_none() {
            let parent_id = match row.parent {
                Some(p) => id_by_code(accounts, p),
                None => None,
            };
            let system_key = match row.system_key {
                Some(k) => Some(k.to_owned()),
                None => None,
            };
            let ghost before = accounts@;
            let new = Account {
                id: ids[used],
                code: row.code.to_owned(),
                name: row.name.to_owned(),
                account_type: row.account_type,
                currency: currency.to_owned(),
                parent_id,
                description: None,
                system_key,
                is_system: true,
                is_active: true,
            };
            accounts.push(new);
            used = used + 1;
            assert(facts(accounts@) =~= facts(before).push(new@));
        }
        i = i + 1;
    }
}

// ---------------------------------------------------------------------------
// Seeding tax codes
// ---------------------------------------------------------------------------

pub open spec fn tax_facts(codes: Seq<TaxCode>) -> Seq<TaxFacts> {
    codes.map_values(|c: TaxCode| c@)
}

/// A default tax code, without its id.
#[derive(Clone, Copy, Debug)]
pub struct SeedTax {
    pub code: &'static str,
    pub name: &'static str,
    pub rate: Decimal,
    pub account_id: Option<u128>,
    pub direction: TaxDirection,
}

pub open spec fn seeded_tax(
    id: u128,
    code: Seq<char>,
    name: Seq<char>,
    rate: Num,
    account_id: Option<u128>,
    direction: TaxDirection,
) -> TaxFacts {
    TaxFacts { id, code, name, rate, account_id, direction, is_system: true, is_active: true }
}

/// The default tax codes: a standard sales rate, a zero rate, an exempt code,
/// and the matching purchase rate. Their ids are still open.
pub open spec fn default_taxes(output: Option<u128>, input: Option<u128>) -> Seq<TaxFacts> {
    seq![
        seeded_tax(0, "VAT16"@, "VAT (Standard 16%)"@, (16int, 0nat), output, TaxDirection::Output),
        seeded_tax(0, "VAT0"@, "VAT (Zero Rated)"@, zero(), output, TaxDirection::Output),
        seeded_tax(0, "EXEMPT"@, "VAT (Exempt)"@, zero(), None, TaxDirection::Output),
        seeded_tax(0, "VAT16-IN"@, "Input VAT (Standard 16%)"@, (16int, 0nat), input, TaxDirection::Input),
    ]
}

pub open spec fn taxed_with(code: Seq<char>) -> spec_fn(TaxFacts) -> bool {
    |f: TaxFacts| f.code == code
}

/// Whether a tax code with that code exists.
pub open spec fn tax_exists(codes: Seq<TaxFacts>, code: Seq<char>) -> bool {
    first_from(codes, taxed_with(code), 0) is Some
}

/// The tax codes after the first `n` defaults were seeded.
pub open spec fn taxes_seeded_to(
    codes: Seq<TaxFacts>,
    defaults: Seq<TaxFacts>,
    ids: Seq<u128>,
    n: nat,
) -> Seq<TaxFacts>
    decreases n,
{
    if n == 0 {
        codes
    } else {
        let before = taxes_seeded_to(codes, defaults, ids, (n - 1) as nat);
        let row = defaults[n - 1];
        if tax_exists(before, row.code) {
            before
        } else {
            before.push(TaxFacts { id: ids[before.len() - codes.len()], ..row })
        }
    }
}

/// The tax codes after seeding, booked to the VAT accounts of the chart.
pub open spec fn taxes_seeded(codes: Seq<TaxFacts>, chart: Seq<Facts>, ids: Seq<u128>) -> Seq<
    TaxFacts,
> {
    taxes_seeded_to(
        codes,
        default_taxes(
            id_where(chart, with_key(keys::VAT_OUTPUT@)),
            id_where(chart, with_key(keys::VAT_INPUT@)),
        ),
        ids,
        4,
    )
}

fn code_exists(codes: &Vec<TaxCode>, code: &str) -> (r: bool)
    ensures
        r == tax_exists(tax_facts(codes@), code@),
{
    let found = find_viewed(codes, Ghost(taxed_with(code@)), |x: &TaxCode| -> (b: bool)
        ensures
            b == taxed_with(code@)(x@),
        { same(x.code.as_str(), code) });
    match found {
        Some(i) => true,
        None => false,
    }
}

fn seed_taxes(
    codes: &mut Vec<TaxCode>,
    output: Option<u128>,
    input: Option<u128>,
    ids: &Vec<u128>,
)
    requires
        ids@.len() >= 4,
    ensures
        tax_facts(final(codes)@) == taxes_seeded_to(
            tax_facts(old(codes)@),
            default_taxes(output, input),
            ids@,
            4,
        ),
        final(codes)@.len() >= old(codes)@.len(),
{
    let standard = Decimal::from_int(16);
    let none = Decimal::zero();
    let rows = vec![
        SeedTax {
            code: "VAT16",
            name: "VAT (Standard 16%)",
            rate: standard,
            account_id: output,
            direction: TaxDirection::Output,
        },
        SeedTax {
            code: "VAT0",
            name: "VAT (Zero Rated)",
            rate: none,
            account_id: output,
            direction: TaxDirection::Output,
        },
        SeedTax {
            code: "EXEMPT",
            name: "VAT (Exempt)",
            rate: none,
            account_id: None,
            direction: TaxDirection::Output,
        },
        SeedTax {
            code: "VAT16-IN",
            name: "Input VAT (Standard 16%)",
            rate: standard,
            account_id: input,
            direction: TaxDirection::Input,
        },
    ];
    let ghost defaults = default_taxes(output, input);
    let ghost start = tax_facts(codes@);
    let mut used: usize = 0;
    let mut i: usize = 0;
    while i < rows.len()
        invariant
            i <= rows.len(),
            rows@.len() == 4,
            defaults == default_taxes(output, input),
            forall|j: int|
                0 <= j < 4 ==> {
                    let row = #[trigger] rows@[j];
                    defaults[j] == seeded_tax(
                        0,
                        row.code@,
                        row.name@,
                        row.rate@,
                        row.account_id,
                        row.direction,
                    )
                },
            ids@.len() >= 4,
            used <= i,
            codes@.len() == start.len() + used,
            tax_facts(codes@) == taxes_seeded_to(start, defaults, ids@, i as nat),
        decreases rows.len() - i,
    {
        let row = rows[i];
        if !code_exists(codes, row.code) {
            let ghost before = codes@;
            let new = TaxCode {
                id: ids[used],
                code: row.code.to_owned(),
                name: row.name.to_owned(),
                rate: row.rate,
                account_id: row.account_id,
                direction: row.direction,
                is_system: true,
                is_active: true,
            };
            codes.push(new);
            used = used + 1;
            assert(tax_facts(codes@) =~= tax_facts(before).push(new@));
        }
        i = i + 1;
    }
}

/// Seed the default chart and tax codes into a set of books. True where
/// anything was inserted; what was inserted stands behind what was there.
pub fn seed_defaults(
    accounts: &mut Vec<Account>,
    codes: &mut Vec<TaxCode>,
    currency: &str,
    account_ids: &Vec<u128>,
    tax_ids: &Vec<u128>,
) -> (r: bool)
    requires
        account_ids@.len() >= 24,
        tax_ids@.len() >= 4,
    ensures
        facts(final(accounts)@) == seeded(facts(old(accounts)@), currency@, account_ids@),
        tax_facts(final(codes)@) == taxes_seeded(
            tax_facts(old(codes)@),
            facts(final(accounts)@),
            tax_ids@,
        ),
        r == (final(accounts)@.len() > old(accounts)@.len() || final(codes)@.len()
            > old(codes)@.len()),
{
    let held: usize = accounts.len();
    let taxed: usize = codes.len();
    seed_accounts(accounts, currency, account_ids);
    let output = system_account_id(accounts, keys::VAT_OUTPUT);
    let input = system_account_id(accounts, keys::VAT_INPUT);
    seed_taxes(codes, output, input, tax_ids);
    accounts.len() > held || codes.len() > taxed
}

// ---------------------------------------------------------------------------
// Changing the currency
// ---------------------------------------------------------------------------

/// The account in another currency.
pub open spec fn in_currency(f: Facts, currency: Seq<char>) -> Facts {
    Facts { currency, ..f }
}

/// Whether an entry is part of the books: it was posted, and may have been
/// reversed since.
pub open spec fn is_booked() -> spec_fn(Entry) -> bool {
    |e: Entry| e.status != EntryStatus::Draft
}

/// Put the whole ledger into another currency, while nothing is posted: once
/// anything is, the amounts mean the currency they were booked in, and nothing
/// changes. Drafts change with the chart. True where an account changed.
pub fn redenominate(
    accounts: &mut Vec<Account>,
    entries: &mut Vec<Entry>,
    currency: &str,
) -> (r: bool)
    ensures
        any(old(entries)@, is_booked()) ==> !r && *final(accounts) == *old(accounts) && *final(entries) == *old(
            entries,
        ),
        !any(old(entries)@, is_booked()) ==> {
            &&& facts(final(accounts)@) == facts(old(accounts)@).map_values(
                |f: Facts| in_currency(f, currency@),
            )
            &&& r == exists|i: int|
                0 <= i < old(accounts)@.len() && (#[trigger] old(accounts)@[i]).currency@
                    != currency@
            &&& final(entries)@.len() == old(entries)@.len()
            &&& forall|i: int|
                0 <= i < old(entries)@.len() ==> redenominated(
                    #[trigger] final(entries)@[i],
                    old(entries)@[i],
                    currency@,
                )
        },
{
    let mut n: usize = 0;
    while n < entries.len()
        invariant
            n <= entries.len(),
            *accounts == *old(accounts),
            *entries == *old(entries),
            forall|j: int| 0 <= j < n ==> !is_booked()(#[trigger] entries@[j]),
        decreases entries.len() - n,
    {
        if entries[n].status != EntryStatus::Draft {
            assert(is_booked()(old(entries)@[n as int]));
            return false;
        }
        n = n + 1;
    }
    let mut changed = false;
    let mut i: usize = 0;
    while i < accounts.len()
        invariant
            i <= accounts.len(),
            accounts@.len() == old(accounts)@.len(),
            forall|j: int|
                0 <= j < i ==> (#[trigger] accounts@[j])@ == in_currency(
                    old(accounts)@[j]@,
                    currency@,
                ),
            forall|j: int| i <= j < accounts@.len() ==> #[trigger] accounts@[j] == old(accounts)@[j],
            changed <==> exists|j: int|
                0 <= j < i && (#[trigger] old(accounts)@[j]).currency@ != currency@,
        decreases accounts.len() - i,
    {
        if !same(accounts[i].currency.as_str(), currency) {
            changed = true;
            assert(old(accounts)@[i as int].currency@ != currency@);
        }
        accounts[i].currency = currency.to_owned();
        i = i + 1;
    }
    assert(facts(accounts@) =~= facts(old(accounts)@).map_values(
        |f: Facts| in_currency(f, currency@),
    ));
    let mut k: usize = 0;
    while k < entries.len()
        invariant
            k <= entries.len(),
            entries@.len() == old(entries)@.len(),
            forall|j: int|
                0 <= j < k ==> redenominated(#[trigger] entries@[j], old(entries)@[j], currency@),
            forall|j: int| k <= j < entries@.len() ==> #[trigger] entries@[j] == old(entries)@[j],
        decreases entries.len() - k,
    {
        entries[k].currency = currency.to_owned();
        k = k + 1;
    }
    changed
}

/// The entry with its currency changed and all else kept.
pub open spec fn redenominated(after: Entry, before: Entry, currency: Seq<char>) -> bool {
    &&& after.currency@ == currency
    &&& after == Entry { currency: after.currency, ..before }
}

// ---------------------------------------------------------------------------
// Laws
// ---------------------------------------------------------------------------

spec fn extends(longer: Seq<Facts>, chart: Seq<Facts>) -> bool {
    longer.len() >= chart.len() && forall|i: int|
        0 <= i < chart.len() ==> #[trigger] longer[i] == chart[i]
}

proof fn lemma_found_in(chart: Seq<Facts>, p: spec_fn(Facts) -> bool, at: int)
    requires
        0 <= at < chart.len(),
        p(chart[at]),
    ensures
        id_where(chart, p) is Some,
{
    lemma_first_from(chart, p, 0);
}

proof fn lemma_settled_stays(longer: Seq<Facts>, chart: Seq<Facts>, row: Row)
    requires
        extends(longer, chart),
        settled(chart, row),
    ensures
        settled(longer, row),
{
    if id_where(chart, with_code(row.code)) is Some {
        lemma_first_from(chart, with_code(row.code), 0);
        let at = first_from(chart, with_code(row.code), 0)->0;
        assert(longer[at] == chart[at]);
        lemma_found_in(longer, with_code(row.code), at);
    } else {
        let k = row.key->0;
        lemma_first_from(chart, with_key(k), 0);
        let at = first_from(chart, with_key(k), 0)->0;
        assert(longer[at] == chart[at]);
        lemma_found_in(longer, with_key(k), at);
    }
}

proof fn lemma_seeded_settles(
    chart: Seq<Facts>,
    currency: Seq<char>,
    ids: Seq<u128>,
    k: int,
    n: nat,
)
    requires
        0 <= k < n <= default_chart().len(),
    ensures
        settled(seeded_to(chart, currency, ids, n), default_chart()[k]),
    decreases n,
{
    let before = seeded_to(chart, currency, ids, (n - 1) as nat);
    let after = seeded_to(chart, currency, ids, n);
    assert(extends(after, before));
    if k == n - 1 {
        let row = default_chart()[k];
        if !settled(before, row) {
            lemma_found_in(after, with_code(row.code), before.len() as int);
        }
    } else {
        lemma_seeded_settles(chart, currency, ids, k, (n - 1) as nat);
        lemma_settled_stays(after, before, default_chart()[k]);
    }
}

proof fn lemma_settled_seeds_nothing(
    chart: Seq<Facts>,
    currency: Seq<char>,
    ids: Seq<u128>,
    n: nat,
)
    requires
        n <= default_chart().len(),
        forall|k: int|
            0 <= k < default_chart().len() ==> settled(chart, #[trigger] default_chart()[k]),
    ensures
        seeded_to(chart, currency, ids, n) == chart,
    decreases n,
{
    if n > 0 {
        lemma_settled_seeds_nothing(chart, currency, ids, (n - 1) as nat);
        assert(settled(chart, default_chart()[n - 1]));
    }
}

/// Seeding is idempotent: a chart that was seeded is left as it is, whatever
/// the currency and the ids of the second run.
pub proof fn seeding_is_idempotent(
    chart: Seq<Facts>,
    currency: Seq<char>,
    ids: Seq<u128>,
    currency_again: Seq<char>,
    ids_again: Seq<u128>,
)
    ensures
        seeded(seeded(chart, currency, ids), currency_again, ids_again) == seeded(
            chart,
            currency,
            ids,
        ),
{
    let after = seeded(chart, currency, ids);
    let n = default_chart().len();
    assert forall|k: int| 0 <= k < n implies settled(after, #[trigger] default_chart()[k]) by {
        lemma_seeded_settles(chart, currency, ids, k, n);
    }
    lemma_settled_seeds_nothing(after, currency_again, ids_again, n);
}

proof fn lemma_seeded_extends(chart: Seq<Facts>, currency: Seq<char>, ids: Seq<u128>, n: nat)
    ensures
        extends(seeded_to(chart, currency, ids, n), chart),
    decreases n,
{
    if n > 0 {
        lemma_seeded_extends(chart, currency, ids, (n - 1) as nat);
    }
}

/// Seeding is additive: every account that was there stays in its place, as it
/// was.
pub proof fn seeding_is_additive(chart: Seq<Facts>, currency: Seq<char>, ids: Seq<u128>)
    ensures
        seeded(chart, currency, ids).len() >= chart.len(),
        seeded(chart, currency, ids).take(chart.len() as int) == chart,
{
    lemma_seeded_extends(chart, currency, ids, default_chart().len());
    assert(seeded(chart, currency, ids).take(chart.len() as int) =~= chart);
}

/// After seeding every role of the default chart is carried by an account,
/// unless the code of its row was taken by another.
pub proof fn seeding_fulfils_roles(
    chart: Seq<Facts>,
    currency: Seq<char>,
    ids: Seq<u128>,
    k: int,
)
    requires
        0 <= k < default_chart().len(),
    ensures
        settled(seeded(chart, currency, ids), default_chart()[k]),
{
    lemma_seeded_settles(chart, currency, ids, k, default_chart().len());
}

proof fn lemma_tax_settles(
    codes: Seq<TaxFacts>,
    defaults: Seq<TaxFacts>,
    ids: Seq<u128>,
    k: int,
    n: nat,
)
    requires
        0 <= k < n,
    ensures
        tax_exists(taxes_seeded_to(codes, defaults, ids, n), defaults[k].code),
    decreases n,
{
    let before = taxes_seeded_to(codes, defaults, ids, (n - 1) as nat);
    let after = taxes_seeded_to(codes, defaults, ids, n);
    let p = taxed_with(defaults[k].code);
    lemma_first_from(after, p, 0);
    if k == n - 1 {
        if !tax_exists(before, defaults[k].code) {
            assert(p(after[before.len() as int]));
        }
    } else {
        lemma_tax_settles(codes, defaults, ids, k, (n - 1) as nat);
        lemma_first_from(before, p, 0);
        let at = first_from(before, p, 0)->0;
        assert(after[at] == before[at]);
    }
}

proof fn lemma_tax_seeds_nothing(
    codes: Seq<TaxFacts>,
    defaults: Seq<TaxFacts>,
    ids: Seq<u128>,
    n: nat,
)
    requires
        forall|k: int| 0 <= k < n ==> tax_exists(codes, (#[trigger] defaults[k]).code),
    ensures
        taxes_seeded_to(codes, defaults, ids, n) == codes,
    decreases n,
{
    if n > 0 {
        lemma_tax_seeds_nothing(codes, defaults, ids, (n - 1) as nat);
        assert(tax_exists(codes, defaults[n - 1].code));
    }
}

/// Seeding tax codes is idempotent too, also where the VAT accounts changed in
/// between.
pub proof fn tax_seeding_is_idempotent(
    codes: Seq<TaxFacts>,
    chart: Seq<Facts>,
    ids: Seq<u128>,
    chart_again: Seq<Facts>,
    ids_again: Seq<u128>,
)
    ensures
        taxes_seeded(taxes_seeded(codes, chart, ids), chart_again, ids_again) == taxes_seeded(
            codes,
            chart,
            ids,
        ),
{
    let first = default_taxes(
        id_where(chart, with_key(keys::VAT_OUTPUT@)),
        id_where(chart, with_key(keys::VAT_INPUT@)),
    );
    let second = default_taxes(
        id_where(chart_again, with_key(keys::VAT_OUTPUT@)),
        id_where(chart_again, with_key(keys::VAT_INPUT@)),
    );
    let after = taxes_seeded(codes, chart, ids);
    assert forall|k: int| 0 <= k < 4 implies tax_exists(after, (#[trigger] second[k]).code) by {
        lemma_tax_settles(codes, first, ids, k, 4);
        assert(first[k].code == second[k].code);
    }
    lemma_tax_seeds_nothing(after, second, ids_again, 4);
}

} // verus!
