//! Tax codes: a rate, and the account that the tax is booked to.
//!
//! A tax code is `output` (collected on sales, a liability) or `input` (paid
//! on purchases, recoverable as an asset). The rate is a percentage.

use crate::decimal::{abs, rounded, worth, zero, Decimal, Num};
use crate::error::{in_range, refusal, Error, Refusal};
use crate::search::{find, first_from, first_where, keys_differ, lemma_first_from, lemma_new_key};
use crate::sums::{hundredth, lemma_percentage, product_of, quotient_of, rounded_of};
use crate::text::{cat2, cat3, id_text, is_blank, quote, quoted, same, show_id, trim, trimmed};
use vstd::prelude::*;

verus! {

/// Which side of the ledger a tax code lands on.
#[derive(Clone, Copy, Debug, PartialEq, Eq, Structural)]
pub enum TaxDirection {
    /// Tax collected on sales: a liability owed to the authority.
    Output,
    /// Tax paid on purchases: recoverable, an asset.
    Input,
}

pub open spec fn direction_text(d: TaxDirection) -> Seq<char> {
    match d {
        TaxDirection::Output => "output"@,
        TaxDirection::Input => "input"@,
    }
}

impl TaxDirection {
    pub fn as_str(self) -> (r: &'static str)
        ensures
            r@ == direction_text(self),
    {
        match self {
            TaxDirection::Output => "output",
            TaxDirection::Input => "input",
        }
    }

    /// The direction a text stands for.
    pub fn parse(value: &str) -> (r: Result<TaxDirection, Error>)
        ensures
            match r {
                Ok(d) => value@ == direction_text(d),
                Err(e) => (forall|d: TaxDirection| value@ != #[trigger] direction_text(d)) && e@
                    == Refusal::Validation(
                    "unknown tax direction "@ + quoted(value@) + " (expected output or input)"@,
                ),
            },
    {
        if same(value, "output") {
            Ok(TaxDirection::Output)
        } else if same(value, "input") {
            Ok(TaxDirection::Input)
        } else {
            let shown = quote(value);
            Err(
                Error::Validation(
                    cat3("unknown tax direction ", shown.as_str(), " (expected output or input)"),
                ),
            )
        }
    }
}

/// No two directions are written alike, so reading back what was written
/// gives the direction that was written.
pub proof fn direction_text_is_unambiguous(a: TaxDirection, b: TaxDirection)
    ensures
        direction_text(a) == direction_text(b) ==> a == b,
{
    reveal_strlit("output");
    reveal_strlit("input");
    assert("output"@[0] == 'o');
    assert("input"@[0] == 'i');
}

/// A tax code.
#[derive(Debug)]
pub struct Model {
    pub id: u128,
    pub code: String,
    pub name: String,
    /// Percentage rate, e.g. `16` for 16%.
    pub rate: Decimal,
    pub account_id: Option<u128>,
    pub direction: TaxDirection,
    pub is_system: bool,
    pub is_active: bool,
}

/// What a tax code says.
pub struct Facts {
    pub id: u128,
    pub code: Seq<char>,
    pub name: Seq<char>,
    pub rate: Num,
    pub account_id: Option<u128>,
    pub direction: TaxDirection,
    pub is_system: bool,
    pub is_active: bool,
}

impl View for Model {
    type V = Facts;

    open spec fn view(&self) -> Facts {
        Facts {
            id: self.id,
            code: self.code@,
            name: self.name@,
            rate: self.rate@,
            account_id: self.account_id,
            direction: self.direction,
            is_system: self.is_system,
            is_active: self.is_active,
        }
    }
}

/// A tax code as a caller asks for it.
#[derive(Debug)]
pub struct NewTaxCode {
    pub code: String,
    pub name: String,
    pub rate: Decimal,
    pub account_id: Option<u128>,
    pub direction: TaxDirection,
}

/// The tax due on a base at a percentage: to the cent, ties to the even cent.
pub open spec fn tax_due(base: Num, rate: Num) -> Option<Num> {
    rounded_of(quotient_of(product_of(Some(base), Some(rate)), Some((100int, 0nat))), 2)
}

impl Model {
    /// The tax due on a taxable base, to the cent.
    pub fn tax_on(&self, base: Decimal) -> (r: Result<Decimal, Error>)
        ensures
            match r {
                Ok(t) => tax_due(base@, self.rate@) == Some(t@),
                Err(e) => tax_due(base@, self.rate@) is None && e@ == Refusal::Overflow,
            },
    {
        let gross = in_range(base.checked_mul(self.rate))?;
        let share = in_range(gross.checked_div(Decimal::one_hundred()))?;
        Ok(share.round_dp(2))
    }
}

pub open spec fn has_id(id: u128) -> spec_fn(Model) -> bool {
    |m: Model| m.id == id
}

pub open spec fn has_code(code: Seq<char>) -> spec_fn(Model) -> bool {
    |m: Model| m.code@ == code
}

/// The place of the tax code with that code.
pub fn position_by_id(codes: &Vec<Model>, id: u128) -> (r: Option<usize>)
    ensures
        match r {
            Some(i) => i < codes@.len() && first_from(codes@, has_id(id), 0) == Some(i as int),
            None => first_from(codes@, has_id(id), 0) is None,
        },
{
    find(codes, Ghost(has_id(id)), |m: &Model| -> (b: bool)
        ensures
            b == (m.id == id),
        { m.id == id })
}

pub fn position_by_code(codes: &Vec<Model>, code: &str) -> (r: Option<usize>)
    ensures
        match r {
            Some(i) => i < codes@.len() && first_where(codes@, has_code(code@)) == Some(
                codes@[i as int],
            ),
            None => first_where(codes@, has_code(code@)) is None,
        },
{
    find(codes, Ghost(has_code(code@)), |x: &Model| -> (b: bool)
        ensures
            b == has_code(code@)(*x),
        { same(x.code.as_str(), code) })
}

/// The tax codes of a set of books, as they were loaded.
#[derive(Debug)]
pub struct Store {
    pub codes: Vec<Model>,
}

/// Why a new tax code is refused, where it is.
pub open spec fn create_refusal(codes: Seq<Model>, new: NewTaxCode) -> Option<Refusal> {
    let code = trimmed(new.code@);
    if code.len() == 0 {
        Some(Refusal::Validation("tax code must not be empty"@))
    } else if is_blank(new.name@) {
        Some(Refusal::Validation("tax name must not be empty"@))
    } else if new.rate@.0 < 0 {
        Some(Refusal::Validation("tax rate must not be negative"@))
    } else if first_where(codes, has_code(code)) is Some {
        Some(Refusal::Conflict("tax code "@ + quoted(code) + " already exists"@))
    } else {
        None
    }
}

impl Store {
    /// The tax code with that id.
    pub fn find_by_id(&self, id: u128) -> (r: Result<&Model, Error>)
        ensures
            match first_where(self.codes@, has_id(id)) {
                Some(m) => r is Ok && *r->Ok_0 == m,
                None => refusal(r) == Some(Refusal::NotFound("tax code "@ + id_text(id))),
            },
    {
        match position_by_id(&self.codes, id) {
            Some(i) => Ok(&self.codes[i]),
            None => {
                let shown = show_id(id);
                Err(Error::NotFound(cat2("tax code ", shown.as_str())))
            },
        }
    }

    /// Decide on a new tax code; `id` is the id it gets.
    pub fn create(&self, new: NewTaxCode, id: u128) -> (r: Result<Model, Error>)
        ensures
            refusal(r) == create_refusal(self.codes@, new),
            r matches Ok(m) ==> {
                &&& m.id == id
                &&& m.code@ == trimmed(new.code@)
                &&& m.name@ == trimmed(new.name@)
                &&& m.rate == new.rate
                &&& m.account_id == new.account_id
                &&& m.direction == new.direction
                &&& !m.is_system
                &&& m.is_active
            },
    {
        let code = trim(new.code.as_str());
        if code.as_str().unicode_len() == 0 {
            return Err(Error::Validation("tax code must not be empty".to_owned()));
        }
        let name = trim(new.name.as_str());
        if name.as_str().unicode_len() == 0 {
            return Err(Error::Validation("tax name must not be empty".to_owned()));
        }
        if new.rate.is_negative() {
            return Err(Error::Validation("tax rate must not be negative".to_owned()));
        }
        if position_by_code(&self.codes, code.as_str()).is_some() {
            let shown = quote(code.as_str());
            return Err(Error::Conflict(cat3("tax code ", shown.as_str(), " already exists")));
        }
        Ok(
            Model {
                id,
                code,
                name,
                rate: new.rate,
                account_id: new.account_id,
                direction: new.direction,
                is_system: false,
                is_active: true,
            },
        )
    }

    /// Decide on deleting a tax code: refused for a system code.
    pub fn delete(&self, id: u128) -> (r: Result<(), Error>)
        ensures
            refusal(r) == (match first_where(self.codes@, has_id(id)) {
                None => Some(Refusal::NotFound("tax code "@ + id_text(id))),
                Some(m) => if m.is_system {
                    Some(
                        Refusal::Validation(
                            "this is a system tax code and cannot be deleted; deactivate it instead"@,
                        ),
                    )
                } else {
                    None
                },
            }),
    {
        let code = self.find_by_id(id)?;
        if code.is_system {
            return Err(
                Error::Validation(
                    "this is a system tax code and cannot be deleted; deactivate it instead".to_owned(),
                ),
            );
        }
        Ok(())
    }
}

/// Why a change to a tax code is refused, where it is.
pub open spec fn update_refusal(
    codes: Seq<Model>,
    id: u128,
    name: Option<String>,
    rate: Option<Decimal>,
) -> Option<Refusal> {
    if first_where(codes, has_id(id)) is None {
        Some(Refusal::NotFound("tax code "@ + id_text(id)))
    } else if name is Some && is_blank(name->0@) {
        Some(Refusal::Validation("tax name must not be empty"@))
    } else if rate is Some && rate->0@.0 < 0 {
        Some(Refusal::Validation("tax rate must not be negative"@))
    } else {
        None
    }
}

/// A tax code with its name, rate, account or activity changed.
pub open spec fn is_updated(
    m: Model,
    code: Model,
    name: Option<String>,
    rate: Option<Decimal>,
    account_id: Option<Option<u128>>,
    is_active: Option<bool>,
) -> bool {
    &&& m.name@ == (match name {
        Some(n) => trimmed(n@),
        None => code.name@,
    })
    &&& m.rate == (match rate {
        Some(x) => x,
        None => code.rate,
    })
    &&& m.account_id == (match account_id {
        Some(a) => a,
        None => code.account_id,
    })
    &&& m.is_active == (match is_active {
        Some(b) => b,
        None => code.is_active,
    })
    &&& m == (Model {
        name: m.name,
        rate: m.rate,
        account_id: m.account_id,
        is_active: m.is_active,
        ..code
    })
}

impl Store {
    /// Change the name, rate, account or activity of a tax code. `account_id`
    /// is present to change the account, and may clear it.
    pub fn update(
        &mut self,
        id: u128,
        name: Option<String>,
        rate: Option<Decimal>,
        account_id: Option<Option<u128>>,
        is_active: Option<bool>,
    ) -> (r: Result<(), Error>)
        ensures
            refusal(r) == update_refusal(old(self).codes@, id, name, rate),
            r is Err ==> *final(self) == *old(self),
            r is Ok ==> {
                let i = first_from(old(self).codes@, has_id(id), 0)->0;
                let m = final(self).codes@[i];
                &&& is_updated(m, old(self).codes@[i], name, rate, account_id, is_active)
                &&& final(self).codes@ == old(self).codes@.update(i, m)
            },
    {
        let i = match position_by_id(&self.codes, id) {
            Some(i) => i,
            None => {
                let shown = show_id(id);
                return Err(Error::NotFound(cat2("tax code ", shown.as_str())));
            },
        };
        let negative = match rate {
            Some(x) => x.is_negative(),
            None => false,
        };
        let kept = match name {
            Some(n) => Some(trim(n.as_str())),
            None => None,
        };
        if let Some(k) = &kept {
            if k.as_str().unicode_len() == 0 {
                return Err(Error::Validation("tax name must not be empty".to_owned()));
            }
        }
        if negative {
            return Err(Error::Validation("tax rate must not be negative".to_owned()));
        }
        if let Some(k) = kept {
            self.codes[i].name = k;
        }
        if let Some(x) = rate {
            self.codes[i].rate = x;
        }
        if let Some(a) = account_id {
            self.codes[i].account_id = a;
        }
        if let Some(b) = is_active {
            self.codes[i].is_active = b;
        }
        assert(self.codes@ =~= old(self).codes@.update(i as int, self.codes@[i as int]));
        Ok(())
    }
}

/// A rate of zero asks for no tax on any base.
pub proof fn zero_rate_no_tax(base: Num, rate: Num)
    requires
        rate.0 == 0,
    ensures
        tax_due(base, rate) == Some(zero()),
{
}

/// The codes of tax codes.
pub open spec fn tax_names() -> spec_fn(Model) -> Seq<char> {
    |m: Model| m.code@
}

/// A tax code that is accepted is called like no other one.
pub proof fn new_tax_codes_keep_apart(taxes: Seq<Model>, new: NewTaxCode, m: Model)
    requires
        keys_differ(taxes, tax_names()),
        create_refusal(taxes, new) is None,
        m.code@ == trimmed(new.code@),
    ensures
        keys_differ(taxes.push(m), tax_names()),
{
    lemma_first_from(taxes, has_code(m.code@), 0);
    lemma_new_key(taxes, tax_names(), m);
}

/// The tax on a base of ordinary size is the exact percentage, to the cent.
pub proof fn taxes_are_exact(base: Num, rate: Num)
    requires
        abs(base.0 * rate.0) < 0x4_0000_0000_0000_0000,
        base.1 + rate.1 <= 19,
    ensures
        tax_due(base, rate) matches Some(t) && worth(t) == worth(
            rounded(hundredth((base.0 * rate.0, base.1 + rate.1)), 2),
        ),
{
    lemma_percentage(base, rate, 2);
}

/// A tax code that is accepted has a code, a name and a rate that is not negative.
pub proof fn accepted_tax_codes_are_sound(
    taxes: Seq<Model>,
    new: NewTaxCode,
    id: u128,
    name: Option<String>,
    rate: Option<Decimal>,
)
    ensures
        create_refusal(taxes, new) is None ==> trimmed(new.code@).len() > 0 && !is_blank(new.name@)
            && new.rate@.0 >= 0,
        update_refusal(taxes, id, name, rate) is None ==> (name matches Some(n) ==> !is_blank(n@))
            && (rate matches Some(r) ==> r@.0 >= 0),
{
}

} // verus!
