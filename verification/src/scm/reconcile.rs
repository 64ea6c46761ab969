//! Stock against the ledger.

use super::outbox::Outbox;
use crate::accounting::account::{keys, Model as Account, NormalBalance};
use crate::accounting::ledger::Totals;
use crate::accounting::roles::{held, role_balance};
use crate::decimal::{minus, opt, worth, Decimal, Num};
use crate::error::{in_range, refusal, Error, Refusal};
use crate::scm::inventory::item::{Category, Item};
use crate::scm::inventory::stock::Level;
use crate::sums::{exact_difference, lemma_total_none, total, total_to};
use crate::text::{contains_text, opt_text, texts};
use vstd::prelude::*;

verus! {

/// The stock side and the ledger side, next to each other. The ledger's
/// figures are absent where there is no ledger.
#[derive(Clone, Copy, Debug)]
pub struct GlReconciliationView {
    /// The value of all stock levels.
    pub stock_value: Decimal,
    /// The balance of the accounts that carry an inventory role.
    pub inventory_account_balance: Option<Decimal>,
    /// What the two differ by; zero when reconciled.
    pub inventory_gap: Option<Decimal>,
    /// What is received and not billed.
    pub grni_open: Decimal,
    /// The credit balance of the account for it.
    pub grni_account_balance: Option<Decimal>,
    /// What the two differ by; zero when reconciled.
    pub grni_gap: Option<Decimal>,
    /// Requests that are not answered yet; they explain a gap that will close.
    pub pending_outbox: usize,
}

/// The roles with another one, where it is given and not among them yet.
pub open spec fn with_override(roles: Seq<Seq<char>>, role: Option<Seq<char>>) -> Seq<Seq<char>> {
    match role {
        Some(r) if !roles.contains(r) => roles.push(r),
        _ => roles,
    }
}

pub open spec fn item_overrides(roles: Seq<Seq<char>>, items: Seq<Item>, n: nat) -> Seq<Seq<char>>
    decreases n,
{
    if n == 0 {
        roles
    } else {
        with_override(
            item_overrides(roles, items, (n - 1) as nat),
            opt_text(items[n - 1].inventory_account_role),
        )
    }
}

pub open spec fn category_overrides(
    roles: Seq<Seq<char>>,
    categories: Seq<Category>,
    n: nat,
) -> Seq<Seq<char>>
    decreases n,
{
    if n == 0 {
        roles
    } else {
        with_override(
            category_overrides(roles, categories, (n - 1) as nat),
            opt_text(categories[n - 1].inventory_account_role),
        )
    }
}

/// The roles whose accounts carry the stock.
pub open spec fn stock_roles(items: Seq<Item>, categories: Seq<Category>) -> Seq<Seq<char>> {
    category_overrides(
        item_overrides(seq![keys::INVENTORY@], items, items.len()),
        categories,
        categories.len(),
    )
}

fn add_override(roles: &mut Vec<String>, role: &Option<String>)
    ensures
        texts(final(roles)@) == with_override(texts(old(roles)@), opt_text(*role)),
{
    if let Some(r) = role {
        if !contains_text(roles, r.as_str()) {
            let ghost before = roles@;
            roles.push(r.clone());
            assert(texts(roles@) =~= texts(before).push(r@));
        }
    }
}

/// Every inventory role in use: the default, and what items and categories put
/// in its place, each once.
pub fn inventory_roles(items: &Vec<Item>, categories: &Vec<Category>) -> (r: Vec<String>)
    ensures
        texts(r@) == stock_roles(items@, categories@),
{
    let mut roles: Vec<String> = Vec::new();
    roles.push(keys::INVENTORY.to_owned());
    let ghost start = seq![keys::INVENTORY@];
    assert(texts(roles@) =~= start);
    let mut i: usize = 0;
    while i < items.len()
        invariant
            i <= items.len(),
            start == seq![keys::INVENTORY@],
            texts(roles@) == item_overrides(start, items@, i as nat),
        decreases items.len() - i,
    {
        add_override(&mut roles, &items[i].inventory_account_role);
        i = i + 1;
    }
    let ghost middle = texts(roles@);
    let mut k: usize = 0;
    while k < categories.len()
        invariant
            k <= categories.len(),
            middle == item_overrides(seq![keys::INVENTORY@], items@, items@.len()),
            texts(roles@) == category_overrides(middle, categories@, k as nat),
        decreases categories.len() - k,
    {
        add_override(&mut roles, &categories[k].inventory_account_role);
        k = k + 1;
    }
    roles
}

pub open spec fn values_of(levels: Seq<Level>) -> Seq<Num> {
    levels.map_values(|l: Level| l.value@)
}

fn value_of_stock(levels: &Vec<Level>) -> (r: Result<Decimal, Error>)
    ensures
        match total(values_of(levels@)) {
            Some(n) => r is Ok && r->Ok_0@ == n,
            None => refusal(r) == Some(Refusal::Overflow),
        },
{
    let ghost values = values_of(levels@);
    let mut sum = Decimal::zero();
    let mut i: usize = 0;
    while i < levels.len()
        invariant
            i <= levels.len(),
            values == values_of(levels@),
            total_to(values, i as nat) == Some(sum@),
        decreases levels.len() - i,
    {
        proof {
            assert(values[i as int] == levels@[i as int].value@);
            if total_to(values, (i + 1) as nat) is None {
                lemma_total_none(values, (i + 1) as nat, values.len());
            }
        }
        sum = in_range(sum.checked_add(levels[i].value))?;
        i = i + 1;
    }
    Ok(sum)
}

/// The books that stock is held against: the chart, and what was posted to it.
pub struct LedgerSide<'a> {
    pub accounts: &'a Vec<Account>,
    pub totals: &'a Vec<Totals>,
}

/// The balances of the stock accounts and of the account for what is received
/// and not billed, where there are books. The outer level is absent where one
/// leaves the range.
pub open spec fn balances_of(books: Option<LedgerSide>, roles: Seq<Seq<char>>) -> Option<
    Option<(Num, Num)>,
> {
    match books {
        None => Some(None),
        Some(b) => match (
            held(b.accounts@, b.totals@, roles, NormalBalance::Debit),
            held(b.accounts@, b.totals@, seq![keys::GRNI@], NormalBalance::Credit),
        ) {
            (Some(stock), Some(grni)) => Some(Some((stock, grni))),
            _ => None,
        },
    }
}

/// What a figure and a balance differ by, where there is one. The outer level
/// is absent where it leaves the range.
pub open spec fn gap_to(figure: Num, balance: Option<Num>) -> Option<Option<Num>> {
    match balance {
        None => Some(None),
        Some(b) => match minus(figure, b) {
            Some(g) => Some(Some(g)),
            None => None,
        },
    }
}

/// Whether a view reconciles a stock value with what is received and not
/// billed, and with the two balances.
pub open spec fn reconciles(
    v: GlReconciliationView,
    stock: Num,
    grni_open: Num,
    balances: Option<(Num, Num)>,
    pending: int,
) -> bool {
    let inventory = match balances {
        Some(b) => Some(b.0),
        None => None,
    };
    let grni = match balances {
        Some(b) => Some(b.1),
        None => None,
    };
    &&& v.stock_value@ == stock
    &&& opt(v.inventory_account_balance) == inventory
    &&& gap_to(stock, inventory) == Some(opt(v.inventory_gap))
    &&& v.grni_open@ == grni_open
    &&& opt(v.grni_account_balance) == grni
    &&& gap_to(grni_open, grni) == Some(opt(v.grni_gap))
    &&& v.pending_outbox == pending
}

/// Whether some figure of a reconciliation leaves the range.
pub open spec fn reconciliation_overflows(
    levels: Seq<Level>,
    grni_open: Num,
    roles: Seq<Seq<char>>,
    books: Option<LedgerSide>,
) -> bool {
    match (total(values_of(levels)), balances_of(books, roles)) {
        (Some(stock), Some(balances)) => match balances {
            None => false,
            Some((inventory, grni)) => minus(stock, inventory) is None || minus(grni_open, grni)
                is None,
        },
        _ => true,
    }
}

/// Hold the stock's value against the ledger: the value of all levels against
/// the accounts that carry an inventory role, and what is received and not
/// billed against the account for it. Without books only the stock side is
/// shown.
pub fn reconciliation(
    levels: &Vec<Level>,
    grni_open: Decimal,
    items: &Vec<Item>,
    categories: &Vec<Category>,
    books: Option<LedgerSide>,
    outbox: &Outbox,
) -> (r: Result<GlReconciliationView, Error>)
    ensures
        ({
            let roles = stock_roles(items@, categories@);
            match r {
                Ok(v) => {
                    &&& !reconciliation_overflows(levels@, grni_open@, roles, books)
                    &&& reconciles(
                        v,
                        total(values_of(levels@))->0,
                        grni_open@,
                        balances_of(books, roles)->0,
                        outbox.rows@.len() as int,
                    )
                },
                Err(e) => e@ == Refusal::Overflow && reconciliation_overflows(
                    levels@,
                    grni_open@,
                    roles,
                    books,
                ),
            }
        }),
{
    let ghost roles = stock_roles(items@, categories@);
    let stock_value = value_of_stock(levels)?;
    let pending_outbox: usize = outbox.rows.len();
    match books {
        None => Ok(
            GlReconciliationView {
                stock_value,
                inventory_account_balance: None,
                inventory_gap: None,
                grni_open,
                grni_account_balance: None,
                grni_gap: None,
                pending_outbox,
            },
        ),
        Some(b) => {
            let names = inventory_roles(items, categories);
            let inventory = role_balance(b.accounts, b.totals, &names, NormalBalance::Debit)?;
            let grni_names = vec![keys::GRNI.to_owned()];
            assert(texts(grni_names@) =~= seq![keys::GRNI@]);
            let grni = role_balance(b.accounts, b.totals, &grni_names, NormalBalance::Credit)?;
            let inventory_gap = in_range(stock_value.checked_sub(inventory))?;
            let grni_gap = in_range(grni_open.checked_sub(grni))?;
            Ok(
                GlReconciliationView {
                    stock_value,
                    inventory_account_balance: Some(inventory),
                    inventory_gap: Some(inventory_gap),
                    grni_open,
                    grni_account_balance: Some(grni),
                    grni_gap: Some(grni_gap),
                    pending_outbox,
                },
            )
        },
    }
}

// ---------------------------------------------------------------------------
// Laws
// ---------------------------------------------------------------------------

/// Whether each of the roles is there once.
pub open spec fn all_differ(roles: Seq<Seq<char>>) -> bool {
    forall|i: int, j: int|
        0 <= i < j < roles.len() ==> #[trigger] roles[i] != #[trigger] roles[j]
}

proof fn lemma_with_override(roles: Seq<Seq<char>>, role: Option<Seq<char>>)
    ensures
        all_differ(roles) ==> all_differ(with_override(roles, role)),
        forall|r: Seq<char>| #[trigger]
            with_override(roles, role).contains(r) <==> roles.contains(r) || role == Some(r),
{
    let after = with_override(roles, role);
    if let Some(x) = role {
        if !roles.contains(x) {
            assert(after[roles.len() as int] == x);
            assert forall|r: Seq<char>| #[trigger] after.contains(r) <==> roles.contains(r) || role
                == Some(r) by {
                if roles.contains(r) {
                    let i = choose|i: int| 0 <= i < roles.len() && roles[i] == r;
                    assert(after[i] == r);
                }
                if after.contains(r) && r != x {
                    let i = choose|i: int| 0 <= i < after.len() && after[i] == r;
                    assert(roles[i] == r);
                }
            }
        }
    }
}

proof fn lemma_item_overrides(roles: Seq<Seq<char>>, items: Seq<Item>, n: nat)
    requires
        n <= items.len(),
    ensures
        all_differ(roles) ==> all_differ(item_overrides(roles, items, n)),
        forall|r: Seq<char>| #[trigger]
            item_overrides(roles, items, n).contains(r) <==> roles.contains(r) || exists|i: int|
                0 <= i < n && opt_text((#[trigger] items[i]).inventory_account_role) == Some(r),
    decreases n,
{
    if n > 0 {
        let rest = item_overrides(roles, items, (n - 1) as nat);
        lemma_item_overrides(roles, items, (n - 1) as nat);
        lemma_with_override(rest, opt_text(items[n - 1].inventory_account_role));
        assert forall|r: Seq<char>| #[trigger]
            item_overrides(roles, items, n).contains(r) <==> roles.contains(r) || exists|i: int|
                0 <= i < n && opt_text((#[trigger] items[i]).inventory_account_role) == Some(
                    r,
                ) by {
            assert(rest.contains(r) <==> roles.contains(r) || exists|i: int|
                0 <= i < n - 1 && opt_text((#[trigger] items[i]).inventory_account_role) == Some(r));
            if opt_text(items[n - 1].inventory_account_role) == Some(r) {
                assert(0 <= n - 1 < n);
            }
        }
    }
}

proof fn lemma_category_overrides(roles: Seq<Seq<char>>, categories: Seq<Category>, n: nat)
    requires
        n <= categories.len(),
    ensures
        all_differ(roles) ==> all_differ(category_overrides(roles, categories, n)),
        forall|r: Seq<char>| #[trigger]
            category_overrides(roles, categories, n).contains(r) <==> roles.contains(r)
                || exists|i: int|
                0 <= i < n && opt_text((#[trigger] categories[i]).inventory_account_role) == Some(r),
    decreases n,
{
    if n > 0 {
        let rest = category_overrides(roles, categories, (n - 1) as nat);
        lemma_category_overrides(roles, categories, (n - 1) as nat);
        lemma_with_override(rest, opt_text(categories[n - 1].inventory_account_role));
        assert forall|r: Seq<char>| #[trigger]
            category_overrides(roles, categories, n).contains(r) <==> roles.contains(r)
                || exists|i: int|
                0 <= i < n && opt_text((#[trigger] categories[i]).inventory_account_role) == Some(
                    r,
                ) by {
            assert(rest.contains(r) <==> roles.contains(r) || exists|i: int|
                0 <= i < n - 1 && opt_text((#[trigger] categories[i]).inventory_account_role)
                    == Some(r));
            if opt_text(categories[n - 1].inventory_account_role) == Some(r) {
                assert(0 <= n - 1 < n);
            }
        }
    }
}

/// Stock is held against every account that carries it, and each once: the roles are the
/// default one, every role that an item names and every role that a category names,
/// and no other.
pub proof fn every_stock_role_is_reconciled(items: Seq<Item>, categories: Seq<Category>)
    ensures
        all_differ(stock_roles(items, categories)),
        forall|r: Seq<char>| #[trigger]
            stock_roles(items, categories).contains(r) <==> {
                ||| r == keys::INVENTORY@
                ||| exists|i: int|
                    0 <= i < items.len() && opt_text((#[trigger] items[i]).inventory_account_role)
                        == Some(r)
                ||| exists|i: int|
                    0 <= i < categories.len() && opt_text(
                        (#[trigger] categories[i]).inventory_account_role,
                    ) == Some(r)
            },
{
    let start = seq![keys::INVENTORY@];
    assert(start[0] == keys::INVENTORY@);
    assert forall|r: Seq<char>| #[trigger] start.contains(r) <==> r == keys::INVENTORY@ by {}
    lemma_item_overrides(start, items, items.len());
    lemma_category_overrides(
        item_overrides(start, items, items.len()),
        categories,
        categories.len(),
    );
}

/// A gap is what the stock side is worth beyond the ledger's: nothing exactly where the
/// two are worth the same, and absent without books.
pub proof fn gaps_say_what_differs(
    v: GlReconciliationView,
    stock: Num,
    grni_open: Num,
    balances: Option<(Num, Num)>,
    pending: int,
)
    requires
        reconciles(v, stock, grni_open, balances, pending),
        balances matches Some(b) ==> exact_difference(stock, b.0) && exact_difference(
            grni_open,
            b.1,
        ),
    ensures
        balances is None ==> v.inventory_gap is None && v.grni_gap is None,
        balances matches Some(b) ==> {
            &&& v.inventory_gap matches Some(g) && worth(g@) == worth(stock) - worth(b.0)
            &&& v.grni_gap matches Some(g) && worth(g@) == worth(grni_open) - worth(b.1)
        },
        v.pending_outbox == pending,
{
}

} // verus!
