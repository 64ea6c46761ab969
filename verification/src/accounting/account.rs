//! The chart of accounts: the financial buckets a set of books is kept in.
//!
//! Each account carries a type that fixes its normal balance side and a
//! currency it is denominated in.

pub mod keys;

use crate::error::{refusal, Error, Refusal};
use crate::search::{
    any, find, first_from, first_where, keys_differ, lemma_first_from, lemma_new_key,
};
use crate::text::{
    cat2, cat3, id_text, is_blank, keep_text, opt_text, quote, quoted, same, show_id, trim, trimmed,
    unless_blank,
};
use vstd::prelude::*;

verus! {

/// The five account classes of double-entry bookkeeping. Each one fixes
/// whether the account grows on the debit or the credit side.
#[derive(Clone, Copy, Debug, PartialEq, Eq, Structural)]
pub enum AccountType {
    Asset,
    Liability,
    Equity,
    Revenue,
    Expense,
}

/// The side on which an account's balance naturally grows.
#[derive(Clone, Copy, Debug, PartialEq, Eq, Structural)]
pub enum NormalBalance {
    Debit,
    Credit,
}

pub open spec fn type_text(t: AccountType) -> Seq<char> {
    match t {
        AccountType::Asset => "asset"@,
        AccountType::Liability => "liability"@,
        AccountType::Equity => "equity"@,
        AccountType::Revenue => "revenue"@,
        AccountType::Expense => "expense"@,
    }
}

/// Assets and expenses grow on the debit side, the rest on the credit side.
pub open spec fn normal_side(t: AccountType) -> NormalBalance {
    if t == AccountType::Asset || t == AccountType::Expense {
        NormalBalance::Debit
    } else {
        NormalBalance::Credit
    }
}

impl AccountType {
    pub fn as_str(self) -> (r: &'static str)
        ensures
            r@ == type_text(self),
    {
        match self {
            AccountType::Asset => "asset",
            AccountType::Liability => "liability",
            AccountType::Equity => "equity",
            AccountType::Revenue => "revenue",
            AccountType::Expense => "expense",
        }
    }

    /// The type a text stands for.
    pub fn parse(value: &str) -> (r: Result<AccountType, Error>)
        ensures
            match r {
                Ok(t) => value@ == type_text(t),
                Err(e) => (forall|t: AccountType| value@ != #[trigger] type_text(t)) && e@
                    == Refusal::Validation(
                    "unknown account type "@ + quoted(value@)
                        + " (expected asset, liability, equity, revenue or expense)"@,
                ),
            },
    {
        if same(value, "asset") {
            Ok(AccountType::Asset)
        } else if same(value, "liability") {
            Ok(AccountType::Liability)
        } else if same(value, "equity") {
            Ok(AccountType::Equity)
        } else if same(value, "revenue") {
            Ok(AccountType::Revenue)
        } else if same(value, "expense") {
            Ok(AccountType::Expense)
        } else {
            let shown = quote(value);
            Err(
                Error::Validation(
                    cat3(
                        "unknown account type ",
                        shown.as_str(),
                        " (expected asset, liability, equity, revenue or expense)",
                    ),
                ),
            )
        }
    }

    pub fn normal_balance(self) -> (r: NormalBalance)
        ensures
            r == normal_side(self),
    {
        match self {
            AccountType::Asset => NormalBalance::Debit,
            AccountType::Expense => NormalBalance::Debit,
            AccountType::Liability => NormalBalance::Credit,
            AccountType::Equity => NormalBalance::Credit,
            AccountType::Revenue => NormalBalance::Credit,
        }
    }
}

/// No two account types are written alike, so reading back what was written
/// gives the type that was written.
pub proof fn type_text_is_unambiguous(a: AccountType, b: AccountType)
    ensures
        type_text(a) == type_text(b) ==> a == b,
{
    reveal_strlit("asset");
    reveal_strlit("liability");
    reveal_strlit("equity");
    reveal_strlit("revenue");
    reveal_strlit("expense");
    assert("asset"@[0] == 'a');
    assert("liability"@[0] == 'l');
    assert("equity"@[1] == 'q');
    assert("revenue"@[0] == 'r');
    assert("expense"@[1] == 'x');
}

/// An account of the chart.
#[derive(Debug)]
pub struct Model {
    pub id: u128,
    /// Human-facing identifier, unique in the chart (e.g. `1000`).
    pub code: String,
    pub name: String,
    pub account_type: AccountType,
    /// ISO 4217 code the account is denominated in.
    pub currency: String,
    pub parent_id: Option<u128>,
    pub description: Option<String>,
    /// Stable role (e.g. `ar`, `vat_output`, `sales`) that other modules
    /// resolve this account by; nothing for accounts that users created.
    pub system_key: Option<String>,
    /// Part of the default chart; cannot be deleted.
    pub is_system: bool,
    pub is_active: bool,
}

/// What an account says.
pub struct Facts {
    pub id: u128,
    pub code: Seq<char>,
    pub name: Seq<char>,
    pub account_type: AccountType,
    pub currency: Seq<char>,
    pub parent_id: Option<u128>,
    pub description: Option<Seq<char>>,
    pub system_key: Option<Seq<char>>,
    pub is_system: bool,
    pub is_active: bool,
}

impl View for Model {
    type V = Facts;

    open spec fn view(&self) -> Facts {
        Facts {
            id: self.id,
            code: self.code@,
            name: self.name@,
            account_type: self.account_type,
            currency: self.currency@,
            parent_id: self.parent_id,
            description: opt_text(self.description),
            system_key: opt_text(self.system_key),
            is_system: self.is_system,
            is_active: self.is_active,
        }
    }
}

/// An account as a caller asks for it.
#[derive(Debug)]
pub struct NewAccount {
    pub code: String,
    pub name: String,
    pub account_type: AccountType,
    pub currency: String,
    pub parent_id: Option<u128>,
    pub description: Option<String>,
}

pub open spec fn has_id(id: u128) -> spec_fn(Model) -> bool {
    |m: Model| m.id == id
}

pub open spec fn has_code(code: Seq<char>) -> spec_fn(Model) -> bool {
    |m: Model| m.code@ == code
}

pub open spec fn has_key(key: Seq<char>) -> spec_fn(Model) -> bool {
    |m: Model| opt_text(m.system_key) == Some(key)
}

pub open spec fn has_parent(id: u128) -> spec_fn(Model) -> bool {
    |m: Model| m.parent_id == Some(id)
}

/// The place of the account with that id.
pub fn position_by_id(accounts: &Vec<Model>, id: u128) -> (r: Option<usize>)
    ensures
        match r {
            Some(i) => i < accounts@.len() && first_from(accounts@, has_id(id), 0) == Some(i as int)
                && first_where(accounts@, has_id(id)) == Some(accounts@[i as int])
                && accounts@[i as int].id == id,
            None => first_where(accounts@, has_id(id)) is None,
        },
{
    find(accounts, Ghost(has_id(id)), |x: &Model| -> (b: bool)
        ensures
            b == has_id(id)(*x),
        { x.id == id })
}

/// The place of the account with that code.
pub fn position_by_code(accounts: &Vec<Model>, code: &str) -> (r: Option<usize>)
    ensures
        match r {
            Some(i) => i < accounts@.len() && first_where(accounts@, has_code(code@)) == Some(
                accounts@[i as int],
            ),
            None => first_where(accounts@, has_code(code@)) is None,
        },
{
    find(accounts, Ghost(has_code(code@)), |x: &Model| -> (b: bool)
        ensures
            b == has_code(code@)(*x),
        { same(x.code.as_str(), code) })
}

/// The place of the account that fulfils a role.
pub fn position_by_key(accounts: &Vec<Model>, key: &str) -> (r: Option<usize>)
    ensures
        match r {
            Some(i) => i < accounts@.len() && first_where(accounts@, has_key(key@)) == Some(
                accounts@[i as int],
            ),
            None => first_where(accounts@, has_key(key@)) is None,
        },
{
    find(accounts, Ghost(has_key(key@)), |x: &Model| -> (b: bool)
        ensures
            b == has_key(key@)(*x),
        { 
            match &x.system_key {
                Some(k) => same(k.as_str(), key),
                None => false,
            }
         })
}

/// Whether an account has sub-accounts.
pub fn has_children(accounts: &Vec<Model>, id: u128) -> (r: bool)
    ensures
        r == any(accounts@, has_parent(id)),
{
    let found = find(accounts, Ghost(has_parent(id)), |x: &Model| -> (b: bool)
        ensures
            b == has_parent(id)(*x),
        {
            match x.parent_id {
                Some(p) => p == id,
                None => false,
            }
        });
    found.is_some()
}

/// The accounts of a chart, as they were loaded.
#[derive(Debug)]
pub struct Store {
    pub accounts: Vec<Model>,
}

/// Why a new account is refused, where it is. `currency` is what the check of
/// the currency code answered.
pub open spec fn create_refusal(
    accounts: Seq<Model>,
    new: NewAccount,
    currency: Option<Refusal>,
) -> Option<Refusal> {
    let code = trimmed(new.code@);
    if code.len() == 0 {
        Some(Refusal::Validation("account code must not be empty"@))
    } else if is_blank(new.name@) {
        Some(Refusal::Validation("account name must not be empty"@))
    } else if currency is Some {
        currency
    } else if first_where(accounts, has_code(code)) is Some {
        Some(Refusal::Conflict("account code "@ + quoted(code) + " already exists"@))
    } else {
        match new.parent_id {
            None => None,
            Some(parent) => match first_where(accounts, has_id(parent)) {
                None => Some(Refusal::NotFound("account "@ + id_text(parent))),
                Some(p) => if p.currency@ != new.currency@ {
                    Some(Refusal::Validation("a sub-account must share its parent's currency"@))
                } else {
                    None
                },
            },
        }
    }
}

pub open spec fn refused(e: Option<Error>) -> Option<Refusal> {
    match e {
        Some(e) => Some(e@),
        None => None,
    }
}

impl Store {
    /// The account with that id.
    pub fn find_by_id(&self, id: u128) -> (r: Result<&Model, Error>)
        ensures
            match first_where(self.accounts@, has_id(id)) {
                Some(m) => r is Ok && *r->Ok_0 == m,
                None => refusal(r) == Some(Refusal::NotFound("account "@ + id_text(id))),
            },
    {
        match position_by_id(&self.accounts, id) {
            Some(i) => Ok(&self.accounts[i]),
            None => {
                let shown = show_id(id);
                Err(Error::NotFound(cat2("account ", shown.as_str())))
            },
        }
    }

    /// The account fulfilling a role (e.g. `ar`, `vat_output`), if there is
    /// one.
    pub fn find_by_system_key(&self, key: &str) -> (r: Option<&Model>)
        ensures
            match first_where(self.accounts@, has_key(key@)) {
                Some(m) => r is Some && *r->0 == m,
                None => r is None,
            },
    {
        match position_by_key(&self.accounts, key) {
            Some(i) => Some(&self.accounts[i]),
            None => None,
        }
    }

    /// Decide on a new account. `currency` is why the currency code was
    /// refused, where it was; `id` is the id the account gets.
    pub fn create(&self, new: NewAccount, id: u128, currency: Option<Error>) -> (r: Result<
        Model,
        Error,
    >)
        ensures
            refusal(r) == create_refusal(self.accounts@, new, refused(currency)),
            r matches Ok(m) ==> {
                &&& m.id == id
                &&& m.code@ == trimmed(new.code@)
                &&& m.name@ == trimmed(new.name@)
                &&& m.account_type == new.account_type
                &&& m.currency@ == new.currency@
                &&& m.parent_id == new.parent_id
                &&& opt_text(m.description) == unless_blank(opt_text(new.description))
                &&& m.system_key is None
                &&& !m.is_system
                &&& m.is_active
            },
    {
        let code = trim(new.code.as_str());
        if code.as_str().unicode_len() == 0 {
            return Err(Error::Validation("account code must not be empty".to_owned()));
        }
        let name = trim(new.name.as_str());
        if name.as_str().unicode_len() == 0 {
            return Err(Error::Validation("account name must not be empty".to_owned()));
        }
        if let Some(e) = currency {
            return Err(e);
        }
        if position_by_code(&self.accounts, code.as_str()).is_some() {
            let shown = quote(code.as_str());
            return Err(Error::Conflict(cat3("account code ", shown.as_str(), " already exists")));
        }
        if let Some(parent_id) = new.parent_id {
            let parent = self.find_by_id(parent_id)?;
            if !same(parent.currency.as_str(), new.currency.as_str()) {
                return Err(
                    Error::Validation("a sub-account must share its parent's currency".to_owned()),
                );
            }
        }
        Ok(
            Model {
                id,
                code,
                name,
                account_type: new.account_type,
                currency: new.currency,
                parent_id: new.parent_id,
                description: keep_text(new.description),
                system_key: None,
                is_system: false,
                is_active: true,
            },
        )
    }

    /// Decide on deleting an account: refused for a system account, once it
    /// carries postings, or while it has sub-accounts.
    pub fn delete(&self, id: u128, postings: u64) -> (r: Result<(), Error>)
        ensures
            refusal(r) == (match first_where(self.accounts@, has_id(id)) {
                None => Some(Refusal::NotFound("account "@ + id_text(id))),
                Some(m) => if m.is_system {
                    Some(
                        Refusal::Validation(
                            "this is a system account and cannot be deleted; deactivate it instead"@,
                        ),
                    )
                } else if postings > 0 {
                    Some(
                        Refusal::Validation(
                            "account has postings and cannot be deleted; deactivate it instead"@,
                        ),
                    )
                } else if any(self.accounts@, has_parent(id)) {
                    Some(Refusal::Validation("account has sub-accounts and cannot be deleted"@))
                } else {
                    None
                },
            }),
    {
        let account = self.find_by_id(id)?;
        if account.is_system {
            return Err(
                Error::Validation(
                    "this is a system account and cannot be deleted; deactivate it instead".to_owned(),
                ),
            );
        }
        if postings > 0 {
            return Err(
                Error::Validation(
                    "account has postings and cannot be deleted; deactivate it instead".to_owned(),
                ),
            );
        }
        if has_children(&self.accounts, id) {
            return Err(
                Error::Validation("account has sub-accounts and cannot be deleted".to_owned()),
            );
        }
        Ok(())
    }
}

/// An account with its name, description or activity changed: its code, type
/// and currency define it and stay as they are.
pub open spec fn is_updated(
    m: Model,
    account: Model,
    name: Option<String>,
    description: Option<String>,
    is_active: Option<bool>,
) -> bool {
    &&& m.name@ == (match name {
        Some(n) => trimmed(n@),
        None => account.name@,
    })
    &&& opt_text(m.description) == (match description {
        Some(d) => unless_blank(Some(d@)),
        None => opt_text(account.description),
    })
    &&& m.is_active == (match is_active {
        Some(b) => b,
        None => account.is_active,
    })
    &&& m == (Model {
        name: m.name,
        description: m.description,
        is_active: m.is_active,
        ..account
    })
}

/// Why a change to an account is refused, where it is.
pub open spec fn update_refusal(
    accounts: Seq<Model>,
    id: u128,
    name: Option<String>,
) -> Option<Refusal> {
    if first_where(accounts, has_id(id)) is None {
        Some(Refusal::NotFound("account "@ + id_text(id)))
    } else if name is Some && is_blank(name->0@) {
        Some(Refusal::Validation("account name must not be empty"@))
    } else {
        None
    }
}

impl Store {
    /// Change the name, description or activity of an account.
    pub fn update(
        &mut self,
        id: u128,
        name: Option<String>,
        description: Option<String>,
        is_active: Option<bool>,
    ) -> (r: Result<(), Error>)
        ensures
            refusal(r) == update_refusal(old(self).accounts@, id, name),
            r is Err ==> *final(self) == *old(self),
            r is Ok ==> {
                let i = first_from(old(self).accounts@, has_id(id), 0)->0;
                let m = final(self).accounts@[i];
                &&& is_updated(m, old(self).accounts@[i], name, description, is_active)
                &&& final(self).accounts@ == old(self).accounts@.update(i, m)
            },
    {
        let i = match position_by_id(&self.accounts, id) {
            Some(i) => i,
            None => {
                let shown = show_id(id);
                return Err(Error::NotFound(cat2("account ", shown.as_str())));
            },
        };
        if let Some(n) = name {
            let kept = trim(n.as_str());
            if kept.as_str().unicode_len() == 0 {
                return Err(Error::Validation("account name must not be empty".to_owned()));
            }
            self.accounts[i].name = kept;
        }
        if let Some(d) = description {
            self.accounts[i].description = keep_text(Some(d));
        }
        if let Some(b) = is_active {
            self.accounts[i].is_active = b;
        }
        assert(self.accounts@ =~= old(self).accounts@.update(i as int, self.accounts@[i as int]));
        Ok(())
    }
}

/// The codes of accounts.
pub open spec fn codes() -> spec_fn(Model) -> Seq<char> {
    |m: Model| m.code@
}

/// An account that is accepted has a code of its own.
pub proof fn new_accounts_keep_codes_apart(
    accounts: Seq<Model>,
    new: NewAccount,
    currency: Option<Refusal>,
    m: Model,
)
    requires
        keys_differ(accounts, codes()),
        create_refusal(accounts, new, currency) is None,
        m.code@ == trimmed(new.code@),
    ensures
        keys_differ(accounts.push(m), codes()),
{
    lemma_first_from(accounts, has_code(m.code@), 0);
    lemma_new_key(accounts, codes(), m);
}

/// An account that is accepted under another one shares its currency, and the other one is
/// there. Accounts are known by their ids.
pub proof fn sub_accounts_share_the_currency(
    accounts: Seq<Model>,
    new: NewAccount,
    currency: Option<Refusal>,
    k: int,
)
    requires
        create_refusal(accounts, new, currency) is None,
        new.parent_id is Some,
        0 <= k < accounts.len(),
        accounts[k].id == new.parent_id->0,
        forall|j: int|
            0 <= j < accounts.len() && j != k ==> (#[trigger] accounts[j]).id != accounts[k].id,
    ensures
        accounts[k].currency@ == new.currency@,
{
    lemma_first_from(accounts, has_id(new.parent_id->0), 0);
    assert(has_id(new.parent_id->0)(accounts[k]));
}

} // verus!
