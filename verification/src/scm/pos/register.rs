//! Registers: the tills where sales happen.
//!
//! A register sells from exactly one warehouse, which is what lets closing a
//! session consolidate without asking any questions. A register with history is
//! deactivated, never deleted: sessions and receipts refer to it forever.

use super::pricing::{customer_id, find_customer, find_list, list_id, Customer, PriceList};
use super::session::{find_holder, holder, Session};
use crate::error::{refusal, Error, Refusal};
use crate::scm::inventory::warehouse::{self, has_id, Model as Warehouse};
use crate::search::{
    find, first_from, first_where, keys_differ, lemma_changed_key, lemma_first_from, lemma_new_key,
};
use crate::text::{
    cat2, cat3, id_text, is_blank, keep_text, opt_text, quote, quoted, same, show_id, trim, trimmed,
    unless_blank,
};
use vstd::prelude::*;

verus! {

/// A register.
#[derive(Debug)]
pub struct Model {
    pub id: u128,
    pub code: String,
    pub name: String,
    pub warehouse_id: u128,
    /// Its own price list, which overrides the usual price.
    pub price_list_id: Option<u128>,
    /// Its usual buyer; none is the walk-in customer.
    pub default_customer_id: Option<u128>,
    pub receipt_header: Option<String>,
    pub receipt_footer: Option<String>,
    /// Whether a session may close where that takes stock below zero.
    pub allow_negative_stock_sales: bool,
    /// The tile layout, which is stored and never read.
    pub grid_layout: Option<String>,
    pub is_active: bool,
    pub created_by: Option<u128>,
    pub updated_by: Option<u128>,
}

/// A register as a caller asks for it.
#[derive(Debug)]
pub struct RegisterBody {
    pub code: String,
    pub name: String,
    pub warehouse_id: u128,
    pub price_list_id: Option<u128>,
    pub default_customer_id: Option<u128>,
    pub receipt_header: Option<String>,
    pub receipt_footer: Option<String>,
    pub allow_negative_stock_sales: bool,
    pub is_active: bool,
}

pub open spec fn register_id(id: u128) -> spec_fn(Model) -> bool {
    |m: Model| m.id == id
}

pub open spec fn register_code(code: Seq<char>) -> spec_fn(Model) -> bool {
    |m: Model| m.code@ == code
}

/// The place of the register with that id.
pub fn find_register(registers: &Vec<Model>, id: u128) -> (r: Option<usize>)
    ensures
        match r {
            Some(i) => i < registers@.len() && first_from(registers@, register_id(id), 0) == Some(
                i as int,
            ) && registers@[i as int].id == id,
            None => first_from(registers@, register_id(id), 0) is None,
        },
{
    find(registers, Ghost(register_id(id)), |x: &Model| -> (b: bool)
        ensures
            b == register_id(id)(*x),
        { x.id == id })
}

fn find_code(registers: &Vec<Model>, code: &str) -> (r: Option<usize>)
    ensures
        match r {
            Some(i) => i < registers@.len() && first_where(registers@, register_code(code@))
                == Some(registers@[i as int]),
            None => first_where(registers@, register_code(code@)) is None,
        },
{
    find(registers, Ghost(register_code(code@)), |x: &Model| -> (b: bool)
        ensures
            b == register_code(code@)(*x),
        { same(x.code.as_str(), code) })
}

/// What a register may refer to.
#[derive(Debug)]
pub struct Surroundings {
    pub warehouses: Vec<Warehouse>,
    pub lists: Vec<PriceList>,
    pub customers: Vec<Customer>,
}

/// Why a register is refused, where it is. `existing` is the id of the
/// register being changed, where one is.
pub open spec fn body_refusal(
    registers: Seq<Model>,
    around: Surroundings,
    body: RegisterBody,
    existing: Option<u128>,
) -> Option<Refusal> {
    let code = trimmed(body.code@);
    if code.len() == 0 {
        Some(Refusal::Validation("register code must not be empty"@))
    } else if is_blank(body.name@) {
        Some(Refusal::Validation("register name must not be empty"@))
    } else if first_where(registers, register_code(code)) matches Some(t) && existing != Some(
        t.id,
    ) {
        Some(Refusal::Conflict("register code "@ + quoted(code) + " already exists"@))
    } else {
        match first_where(around.warehouses@, has_id(body.warehouse_id)) {
            None => Some(Refusal::NotFound("warehouse "@ + id_text(body.warehouse_id))),
            Some(w) => if !w.is_active {
                Some(Refusal::Validation("warehouse "@ + w.code@ + " is not active"@))
            } else if body.price_list_id matches Some(id) && first_where(
                around.lists@,
                list_id(id),
            ) is None {
                Some(Refusal::NotFound("price list "@ + id_text(body.price_list_id->0)))
            } else if body.default_customer_id matches Some(id) && first_where(
                around.customers@,
                customer_id(id),
            ) is None {
                Some(Refusal::NotFound("customer "@ + id_text(body.default_customer_id->0)))
            } else {
                None
            },
        }
    }
}

/// Whether a register holds what a body asks for: code and name trimmed,
/// blank texts dropped.
pub open spec fn is_model(m: Model, body: RegisterBody) -> bool {
    &&& m.code@ == trimmed(body.code@)
    &&& m.name@ == trimmed(body.name@)
    &&& m.warehouse_id == body.warehouse_id
    &&& m.price_list_id == body.price_list_id
    &&& m.default_customer_id == body.default_customer_id
    &&& opt_text(m.receipt_header) == unless_blank(opt_text(body.receipt_header))
    &&& opt_text(m.receipt_footer) == unless_blank(opt_text(body.receipt_footer))
    &&& m.allow_negative_stock_sales == body.allow_negative_stock_sales
    &&& m.is_active == body.is_active
}

/// The registers, as they were loaded.
#[derive(Debug)]
pub struct Store {
    pub registers: Vec<Model>,
}

pub(crate) fn no_register(id: u128) -> (r: Error)
    ensures
        r@ == Refusal::NotFound("register "@ + id_text(id)),
{
    let shown = show_id(id);
    Error::NotFound(cat2("register ", shown.as_str()))
}

impl Store {
    /// The register with that id.
    pub fn find_by_id(&self, id: u128) -> (r: Result<&Model, Error>)
        ensures
            match first_where(self.registers@, register_id(id)) {
                Some(m) => r is Ok && *r->Ok_0 == m,
                None => refusal(r) == Some(Refusal::NotFound("register "@ + id_text(id))),
            },
    {
        match find_register(&self.registers, id) {
            Some(i) => Ok(&self.registers[i]),
            None => Err(no_register(id)),
        }
    }

    fn validate(&self, around: &Surroundings, body: &RegisterBody, existing: Option<u128>) -> (r:
        Result<(String, String), Error>)
        ensures
            refusal(r) == body_refusal(self.registers@, *around, *body, existing),
            r matches Ok(named) ==> named.0@ == trimmed(body.code@) && named.1@ == trimmed(
                body.name@,
            ),
    {
        let code = trim(body.code.as_str());
        if code.as_str().unicode_len() == 0 {
            return Err(Error::Validation("register code must not be empty".to_owned()));
        }
        let name = trim(body.name.as_str());
        if name.as_str().unicode_len() == 0 {
            return Err(Error::Validation("register name must not be empty".to_owned()));
        }
        if let Some(i) = find_code(&self.registers, code.as_str()) {
            if existing != Some(self.registers[i].id) {
                let shown = quote(code.as_str());
                return Err(
                    Error::Conflict(cat3("register code ", shown.as_str(), " already exists")),
                );
            }
        }
        match warehouse::position_by_id(&around.warehouses, body.warehouse_id) {
            None => {
                let shown = show_id(body.warehouse_id);
                return Err(Error::NotFound(cat2("warehouse ", shown.as_str())));
            },
            Some(i) => {
                let w = &around.warehouses[i];
                if !w.is_active {
                    return Err(
                        Error::Validation(
                            cat3("warehouse ", w.code.as_str(), " is not active"),
                        ),
                    );
                }
            },
        }
        if let Some(id) = body.price_list_id {
            if find_list(&around.lists, id).is_none() {
                let shown = show_id(id);
                return Err(Error::NotFound(cat2("price list ", shown.as_str())));
            }
        }
        if let Some(id) = body.default_customer_id {
            if find_customer(&around.customers, id).is_none() {
                let shown = show_id(id);
                return Err(Error::NotFound(cat2("customer ", shown.as_str())));
            }
        }
        Ok((code, name))
    }

    /// Create a register; `id` is the id it gets. A refused one changes
    /// nothing.
    pub fn create(
        &mut self,
        around: &Surroundings,
        body: RegisterBody,
        id: u128,
        created_by: Option<u128>,
    ) -> (r: Result<(), Error>)
        ensures
            refusal(r) == body_refusal(old(self).registers@, *around, body, None),
            r is Err ==> *final(self) == *old(self),
            r is Ok ==> {
                let new = final(self).registers@.last();
                &&& is_model(new, body)
                &&& new.id == id
                &&& new.grid_layout is None
                &&& new.created_by == created_by
                &&& new.updated_by is None
                &&& final(self).registers@ == old(self).registers@.push(new)
            },
    {
        let (code, name) = self.validate(around, &body, None)?;
        self.registers.push(
            Model {
                id,
                code,
                name,
                warehouse_id: body.warehouse_id,
                price_list_id: body.price_list_id,
                default_customer_id: body.default_customer_id,
                receipt_header: keep_text(body.receipt_header),
                receipt_footer: keep_text(body.receipt_footer),
                allow_negative_stock_sales: body.allow_negative_stock_sales,
                grid_layout: None,
                is_active: body.is_active,
                created_by,
                updated_by: None,
            },
        );
        Ok(())
    }

    /// Change a register; its layout and its maker stay. A refused change
    /// changes nothing.
    pub fn update(
        &mut self,
        around: &Surroundings,
        id: u128,
        body: RegisterBody,
        updated_by: Option<u128>,
    ) -> (r: Result<(), Error>)
        ensures
            match first_from(old(self).registers@, register_id(id), 0) {
                None => refusal(r) == Some(Refusal::NotFound("register "@ + id_text(id)))
                    && *final(self) == *old(self),
                Some(i) => {
                    &&& refusal(r) == body_refusal(old(self).registers@, *around, body, Some(id))
                    &&& r is Err ==> *final(self) == *old(self)
                    &&& r is Ok ==> {
                        let was = old(self).registers@[i];
                        let new = final(self).registers@[i];
                        &&& is_model(new, body)
                        &&& new.id == was.id
                        &&& new.grid_layout == was.grid_layout
                        &&& new.created_by == was.created_by
                        &&& new.updated_by == updated_by
                        &&& final(self).registers@ == old(self).registers@.update(i, new)
                    }
                },
            },
    {
        let i = match find_register(&self.registers, id) {
            Some(i) => i,
            None => {
                return Err(no_register(id));
            },
        };
        let (code, name) = self.validate(around, &body, Some(id))?;
        let row = &mut self.registers[i];
        row.code = code;
        row.name = name;
        row.warehouse_id = body.warehouse_id;
        row.price_list_id = body.price_list_id;
        row.default_customer_id = body.default_customer_id;
        row.receipt_header = keep_text(body.receipt_header);
        row.receipt_footer = keep_text(body.receipt_footer);
        row.allow_negative_stock_sales = body.allow_negative_stock_sales;
        row.is_active = body.is_active;
        row.updated_by = updated_by;
        Ok(())
    }

    /// Deactivate a register; nothing else of it changes. Refused while a
    /// session holds it.
    pub fn deactivate(&mut self, sessions: &Vec<Session>, id: u128, updated_by: Option<u128>) -> (r:
        Result<(), Error>)
        ensures
            match first_from(old(self).registers@, register_id(id), 0) {
                None => refusal(r) == Some(Refusal::NotFound("register "@ + id_text(id)))
                    && *final(self) == *old(self),
                Some(i) => if first_where(sessions@, holder(id)) is Some {
                    refusal(r) == Some(
                        Refusal::Validation(
                            "close the register's open session before deactivating it"@,
                        ),
                    ) && *final(self) == *old(self)
                } else {
                    r is Ok && final(self).registers@ == old(self).registers@.update(
                        i,
                        (Model { is_active: false, updated_by, ..old(self).registers@[i] }),
                    )
                },
            },
    {
        let i = match find_register(&self.registers, id) {
            Some(i) => i,
            None => {
                return Err(no_register(id));
            },
        };
        if find_holder(sessions, id).is_some() {
            return Err(
                Error::Validation(
                    "close the register's open session before deactivating it".to_owned(),
                ),
            );
        }
        let row = &mut self.registers[i];
        row.is_active = false;
        row.updated_by = updated_by;
        Ok(())
    }

    /// Store the tile layout as it is.
    pub fn set_grid(&mut self, id: u128, layout: String) -> (r: Result<(), Error>)
        ensures
            match first_from(old(self).registers@, register_id(id), 0) {
                None => refusal(r) == Some(Refusal::NotFound("register "@ + id_text(id)))
                    && *final(self) == *old(self),
                Some(i) => r is Ok && final(self).registers@ == old(self).registers@.update(
                    i,
                    (Model { grid_layout: Some(layout), ..old(self).registers@[i] }),
                ),
            },
    {
        match find_register(&self.registers, id) {
            Some(i) => {
                self.registers[i].grid_layout = Some(layout);
                Ok(())
            },
            None => Err(no_register(id)),
        }
    }
}

/// The codes of registers.
pub open spec fn codes() -> spec_fn(Model) -> Seq<char> {
    |m: Model| m.code@
}

/// The ids of registers.
pub open spec fn register_ids() -> spec_fn(Model) -> u128 {
    |m: Model| m.id
}

/// A register that is accepted has a code of its own.
pub proof fn new_registers_keep_codes_apart(
    registers: Seq<Model>,
    around: Surroundings,
    body: RegisterBody,
    new: Model,
)
    requires
        keys_differ(registers, codes()),
        body_refusal(registers, around, body, None) is None,
        is_model(new, body),
    ensures
        keys_differ(registers.push(new), codes()),
{
    lemma_first_from(registers, register_code(new.code@), 0);
    lemma_new_key(registers, codes(), new);
}

/// A register that is changed still has a code of its own.
pub proof fn changed_registers_keep_codes_apart(
    registers: Seq<Model>,
    around: Surroundings,
    body: RegisterBody,
    at: int,
    new: Model,
)
    requires
        keys_differ(registers, codes()),
        keys_differ(registers, register_ids()),
        0 <= at < registers.len(),
        body_refusal(registers, around, body, Some(registers[at].id)) is None,
        is_model(new, body),
    ensures
        keys_differ(registers.update(at, new), codes()),
{
    lemma_first_from(registers, register_code(new.code@), 0);
    assert forall|i: int| 0 <= i < registers.len() && i != at implies codes()(
        #[trigger] registers[i],
    ) != codes()(new) by {
        if registers[i].code@ == new.code@ {
            let k = first_from(registers, register_code(new.code@), 0)->0;
            assert(register_ids()(registers[k]) == register_ids()(registers[at]));
            assert(k == at);
            assert(codes()(registers[at]) == codes()(registers[i]));
        }
    }
    lemma_changed_key(registers, codes(), at, new);
}

/// A register that is accepted sells from a warehouse that is there and active; its price list
/// and its own customer, where it has them, are there. Warehouses are known by their ids.
pub proof fn accepted_registers_are_sound(
    registers: Seq<Model>,
    around: Surroundings,
    body: RegisterBody,
    existing: Option<u128>,
    k: int,
)
    requires
        body_refusal(registers, around, body, existing) is None,
        0 <= k < around.warehouses@.len(),
        around.warehouses@[k].id == body.warehouse_id,
        forall|j: int|
            0 <= j < around.warehouses@.len() && j != k ==> (#[trigger] around.warehouses@[j]).id
                != body.warehouse_id,
    ensures
        around.warehouses@[k].is_active,
        trimmed(body.code@).len() > 0,
        !is_blank(body.name@),
        body.price_list_id matches Some(id) ==> exists|i: int|
            0 <= i < around.lists@.len() && (#[trigger] around.lists@[i]).id == id,
        body.default_customer_id matches Some(id) ==> exists|i: int|
            0 <= i < around.customers@.len() && (#[trigger] around.customers@[i]).id == id,
{
    lemma_first_from(around.warehouses@, has_id(body.warehouse_id), 0);
    assert(has_id(body.warehouse_id)(around.warehouses@[k]));
    if let Some(id) = body.price_list_id {
        lemma_first_from(around.lists@, list_id(id), 0);
        let i = first_from(around.lists@, list_id(id), 0)->0;
        assert(around.lists@[i].id == id);
    }
    if let Some(id) = body.default_customer_id {
        lemma_first_from(around.customers@, customer_id(id), 0);
        let i = first_from(around.customers@, customer_id(id), 0)->0;
        assert(around.customers@[i].id == id);
    }
}

} // verus!
