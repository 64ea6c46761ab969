//! Warehouses: the places stock lives. At most one of them is the default that
//! documents prefill.

use crate::error::{refusal, Error, Refusal};
use crate::search::{
    find, first_from, first_where, keys_differ, lemma_changed_key, lemma_first_from, lemma_new_key,
};
use crate::text::{
    cat2, cat3, id_text, is_blank, keep_text, opt_text, quote, quoted, same, show_id, trim, trimmed,
    unless_blank,
};
use vstd::prelude::*;

verus! {

/// A warehouse.
#[derive(Debug)]
pub struct Model {
    pub id: u128,
    pub code: String,
    pub name: String,
    /// standard, transit or scrap.
    pub warehouse_type: String,
    pub parent_id: Option<u128>,
    pub address_line1: Option<String>,
    pub address_line2: Option<String>,
    pub city: Option<String>,
    pub region: Option<String>,
    pub postal_code: Option<String>,
    pub country: Option<String>,
    pub phone: Option<String>,
    pub email: Option<String>,
    pub contact_name: Option<String>,
    /// The warehouse documents prefill; at most one.
    pub is_default: bool,
    pub allow_negative: bool,
    pub is_active: bool,
    pub notes: Option<String>,
}

/// A warehouse as a caller asks for it.
#[derive(Debug)]
pub struct WarehouseBody {
    pub code: String,
    pub name: String,
    pub warehouse_type: String,
    pub parent_id: Option<u128>,
    pub address_line1: Option<String>,
    pub address_line2: Option<String>,
    pub city: Option<String>,
    pub region: Option<String>,
    pub postal_code: Option<String>,
    pub country: Option<String>,
    pub phone: Option<String>,
    pub email: Option<String>,
    pub contact_name: Option<String>,
    pub is_default: bool,
    pub allow_negative: bool,
    pub is_active: bool,
    pub notes: Option<String>,
}

pub open spec fn has_id(id: u128) -> spec_fn(Model) -> bool {
    |m: Model| m.id == id
}

pub open spec fn has_code(code: Seq<char>) -> spec_fn(Model) -> bool {
    |m: Model| m.code@ == code
}

/// The place of the warehouse with that id.
pub fn position_by_id(warehouses: &Vec<Model>, id: u128) -> (r: Option<usize>)
    ensures
        match r {
            Some(i) => i < warehouses@.len() && first_from(warehouses@, has_id(id), 0) == Some(
                i as int,
            ) && warehouses@[i as int].id == id,
            None => first_where(warehouses@, has_id(id)) is None,
        },
{
    find(warehouses, Ghost(has_id(id)), |x: &Model| -> (b: bool)
        ensures
            b == has_id(id)(*x),
        { x.id == id })
}

fn position_by_code(warehouses: &Vec<Model>, code: &str) -> (r: Option<usize>)
    ensures
        match r {
            Some(i) => i < warehouses@.len() && first_where(warehouses@, has_code(code@)) == Some(
                warehouses@[i as int],
            ),
            None => first_where(warehouses@, has_code(code@)) is None,
        },
{
    find(warehouses, Ghost(has_code(code@)), |x: &Model| -> (b: bool)
        ensures
            b == has_code(code@)(*x),
        { same(x.code.as_str(), code) })
}

pub open spec fn is_type(t: Seq<char>) -> bool {
    t == "standard"@ || t == "transit"@ || t == "scrap"@
}

/// Why a warehouse is refused, where it is. `existing` is the id of the
/// warehouse being changed, where one is.
pub open spec fn body_refusal(
    warehouses: Seq<Model>,
    body: WarehouseBody,
    existing: Option<u128>,
) -> Option<Refusal> {
    let code = trimmed(body.code@);
    if code.len() == 0 {
        Some(Refusal::Validation("warehouse code must not be empty"@))
    } else if is_blank(body.name@) {
        Some(Refusal::Validation("warehouse name must not be empty"@))
    } else if !is_type(body.warehouse_type@) {
        Some(
            Refusal::Validation(
                "unknown warehouse type "@ + quoted(body.warehouse_type@)
                    + " (expected standard, transit or scrap)"@,
            ),
        )
    } else if first_where(warehouses, has_code(code)) matches Some(w) && existing != Some(w.id) {
        Some(Refusal::Conflict("warehouse code "@ + quoted(code) + " already exists"@))
    } else {
        match body.parent_id {
            None => None,
            Some(parent) => if existing == Some(parent) {
                Some(Refusal::Validation("a warehouse cannot be its own parent"@))
            } else if first_where(warehouses, has_id(parent)) is None {
                Some(Refusal::NotFound("warehouse "@ + id_text(parent)))
            } else {
                None
            },
        }
    }
}

/// The warehouse that a body describes: code and name trimmed, blank texts
/// dropped.
pub open spec fn is_model(m: Model, body: WarehouseBody, id: u128) -> bool {
    &&& m.id == id
    &&& m.code@ == trimmed(body.code@)
    &&& m.name@ == trimmed(body.name@)
    &&& m.warehouse_type@ == body.warehouse_type@
    &&& m.parent_id == body.parent_id
    &&& opt_text(m.address_line1) == unless_blank(opt_text(body.address_line1))
    &&& opt_text(m.address_line2) == unless_blank(opt_text(body.address_line2))
    &&& opt_text(m.city) == unless_blank(opt_text(body.city))
    &&& opt_text(m.region) == unless_blank(opt_text(body.region))
    &&& opt_text(m.postal_code) == unless_blank(opt_text(body.postal_code))
    &&& opt_text(m.country) == unless_blank(opt_text(body.country))
    &&& opt_text(m.phone) == unless_blank(opt_text(body.phone))
    &&& opt_text(m.email) == unless_blank(opt_text(body.email))
    &&& opt_text(m.contact_name) == unless_blank(opt_text(body.contact_name))
    &&& m.is_default == body.is_default
    &&& m.allow_negative == body.allow_negative
    &&& m.is_active == body.is_active
    &&& opt_text(m.notes) == unless_blank(opt_text(body.notes))
}

fn from_body(body: WarehouseBody, id: u128) -> (r: Model)
    ensures
        is_model(r, body, id),
{
    Model {
        id,
        code: trim(body.code.as_str()),
        name: trim(body.name.as_str()),
        warehouse_type: body.warehouse_type,
        parent_id: body.parent_id,
        address_line1: keep_text(body.address_line1),
        address_line2: keep_text(body.address_line2),
        city: keep_text(body.city),
        region: keep_text(body.region),
        postal_code: keep_text(body.postal_code),
        country: keep_text(body.country),
        phone: keep_text(body.phone),
        email: keep_text(body.email),
        contact_name: keep_text(body.contact_name),
        is_default: body.is_default,
        allow_negative: body.allow_negative,
        is_active: body.is_active,
        notes: keep_text(body.notes),
    }
}

/// The warehouses, as they were loaded.
#[derive(Debug)]
pub struct Store {
    pub warehouses: Vec<Model>,
}

/// The warehouse without the default flag.
pub open spec fn demoted(m: Model) -> Model {
    Model { is_default: false, ..m }
}

/// All warehouses, without the default flag where `clear` is set.
pub open spec fn after_clearing(warehouses: Seq<Model>, clear: bool) -> Seq<Model> {
    if clear {
        warehouses.map_values(|m: Model| demoted(m))
    } else {
        warehouses
    }
}

/// Demote the current default, so that another one can take the flag.
fn clear_default(warehouses: &mut Vec<Model>)
    ensures
        final(warehouses)@ == after_clearing(old(warehouses)@, true),
{
    let mut i: usize = 0;
    while i < warehouses.len()
        invariant
            i <= warehouses.len(),
            warehouses@.len() == old(warehouses)@.len(),
            forall|j: int| 0 <= j < i ==> #[trigger] warehouses@[j] == demoted(old(warehouses)@[j]),
            forall|j: int|
                i <= j < warehouses@.len() ==> #[trigger] warehouses@[j] == old(warehouses)@[j],
        decreases warehouses.len() - i,
    {
        warehouses[i].is_default = false;
        i = i + 1;
    }
    assert(warehouses@ =~= after_clearing(old(warehouses)@, true));
}

impl Store {
    /// The warehouse with that id.
    pub fn find_by_id(&self, id: u128) -> (r: Result<&Model, Error>)
        ensures
            match first_where(self.warehouses@, has_id(id)) {
                Some(m) => r is Ok && *r->Ok_0 == m,
                None => refusal(r) == Some(Refusal::NotFound("warehouse "@ + id_text(id))),
            },
    {
        match position_by_id(&self.warehouses, id) {
            Some(i) => Ok(&self.warehouses[i]),
            None => {
                let shown = show_id(id);
                Err(Error::NotFound(cat2("warehouse ", shown.as_str())))
            },
        }
    }

    fn validate(&self, body: &WarehouseBody, existing: Option<u128>) -> (r: Result<(), Error>)
        ensures
            refusal(r) == body_refusal(self.warehouses@, *body, existing),
    {
        let code = trim(body.code.as_str());
        if code.as_str().unicode_len() == 0 {
            return Err(Error::Validation("warehouse code must not be empty".to_owned()));
        }
        let name = trim(body.name.as_str());
        if name.as_str().unicode_len() == 0 {
            return Err(Error::Validation("warehouse name must not be empty".to_owned()));
        }
        let kind = body.warehouse_type.as_str();
        if !same(kind, "standard") && !same(kind, "transit") && !same(kind, "scrap") {
            let shown = quote(kind);
            return Err(
                Error::Validation(
                    cat3(
                        "unknown warehouse type ",
                        shown.as_str(),
                        " (expected standard, transit or scrap)",
                    ),
                ),
            );
        }
        if let Some(i) = position_by_code(&self.warehouses, code.as_str()) {
            if existing != Some(self.warehouses[i].id) {
                let shown = quote(code.as_str());
                return Err(
                    Error::Conflict(cat3("warehouse code ", shown.as_str(), " already exists")),
                );
            }
        }
        if let Some(parent) = body.parent_id {
            if existing == Some(parent) {
                return Err(Error::Validation("a warehouse cannot be its own parent".to_owned()));
            }
            let _ = self.find_by_id(parent)?;
        }
        Ok(())
    }

    /// Create a warehouse; `id` is the id it gets. A new default takes the
    /// flag from the old one. A refused one changes nothing.
    pub fn create(&mut self, body: WarehouseBody, id: u128) -> (r: Result<(), Error>)
        ensures
            refusal(r) == body_refusal(old(self).warehouses@, body, None),
            r is Err ==> *final(self) == *old(self),
            r is Ok ==> {
                let new = final(self).warehouses@.last();
                &&& is_model(new, body, id)
                &&& final(self).warehouses@ == after_clearing(
                    old(self).warehouses@,
                    body.is_default,
                ).push(new)
            },
    {
        self.validate(&body, None)?;
        if body.is_default {
            clear_default(&mut self.warehouses);
        }
        self.warehouses.push(from_body(body, id));
        Ok(())
    }

    /// Change a warehouse. One that becomes the default takes the flag from
    /// the old one. A refused change changes nothing.
    pub fn update(&mut self, id: u128, body: WarehouseBody) -> (r: Result<(), Error>)
        ensures
            match first_from(old(self).warehouses@, has_id(id), 0) {
                None => refusal(r) == Some(Refusal::NotFound("warehouse "@ + id_text(id)))
                    && *final(self) == *old(self),
                Some(i) => {
                    let existing = old(self).warehouses@[i];
                    &&& refusal(r) == body_refusal(old(self).warehouses@, body, Some(existing.id))
                    &&& r is Err ==> *final(self) == *old(self)
                    &&& r is Ok ==> {
                        let new = final(self).warehouses@[i];
                        &&& is_model(new, body, existing.id)
                        &&& final(self).warehouses@ == after_clearing(
                            old(self).warehouses@,
                            body.is_default && !existing.is_default,
                        ).update(i, new)
                    }
                },
            },
    {
        let i = match position_by_id(&self.warehouses, id) {
            Some(i) => i,
            None => {
                let shown = show_id(id);
                return Err(Error::NotFound(cat2("warehouse ", shown.as_str())));
            },
        };
        let was_default = self.warehouses[i].is_default;
        let id: u128 = self.warehouses[i].id;
        self.validate(&body, Some(id))?;
        if body.is_default && !was_default {
            clear_default(&mut self.warehouses);
        }
        let model = from_body(body, id);
        self.warehouses.set(i, model);
        Ok(())
    }
}

// ---------------------------------------------------------------------------
// Laws
// ---------------------------------------------------------------------------

/// At most one warehouse is the default.
pub open spec fn one_default(warehouses: Seq<Model>) -> bool {
    forall|i: int, j: int|
        0 <= i < j < warehouses.len() ==> !((#[trigger] warehouses[i]).is_default
            && (#[trigger] warehouses[j]).is_default)
}

/// Creating a warehouse keeps the default unique, and one that asks for the
/// flag has it.
pub proof fn creating_keeps_one_default(warehouses: Seq<Model>, new: Model)
    requires
        one_default(warehouses),
    ensures
        one_default(after_clearing(warehouses, new.is_default).push(new)),
{
    let after = after_clearing(warehouses, new.is_default).push(new);
    assert forall|i: int, j: int| 0 <= i < j < after.len() implies !((
    #[trigger] after[i]).is_default && (#[trigger] after[j]).is_default) by {
        if j < warehouses.len() {
            assert(!(warehouses[i].is_default && warehouses[j].is_default));
        }
    }
}

/// Changing a warehouse keeps the default unique.
pub proof fn changing_keeps_one_default(warehouses: Seq<Model>, at: int, new: Model)
    requires
        one_default(warehouses),
        0 <= at < warehouses.len(),
    ensures
        one_default(
            after_clearing(
                warehouses,
                new.is_default && !warehouses[at].is_default,
            ).update(at, new),
        ),
{
    let clear = new.is_default && !warehouses[at].is_default;
    let after = after_clearing(warehouses, clear).update(at, new);
    assert forall|i: int, j: int| 0 <= i < j < after.len() implies !((
    #[trigger] after[i]).is_default && (#[trigger] after[j]).is_default) by {
        assert(!(warehouses[i].is_default && warehouses[j].is_default));
    }
}

/// The codes of warehouses.
pub open spec fn codes() -> spec_fn(Model) -> Seq<char> {
    |m: Model| m.code@
}

/// The ids of warehouses.
pub open spec fn warehouse_ids() -> spec_fn(Model) -> u128 {
    |m: Model| m.id
}

proof fn lemma_clearing_keeps_codes(warehouses: Seq<Model>, clear: bool)
    requires
        keys_differ(warehouses, codes()),
    ensures
        keys_differ(after_clearing(warehouses, clear), codes()),
{
    let after = after_clearing(warehouses, clear);
    assert forall|i: int, j: int| 0 <= i < j < after.len() implies codes()(#[trigger] after[i])
        != codes()(#[trigger] after[j]) by {
        assert(codes()(warehouses[i]) != codes()(warehouses[j]));
    }
}

/// A warehouse that is accepted has a code of its own.
pub proof fn new_warehouses_keep_codes_apart(
    warehouses: Seq<Model>,
    body: WarehouseBody,
    new: Model,
    id: u128,
)
    requires
        keys_differ(warehouses, codes()),
        body_refusal(warehouses, body, None) is None,
        is_model(new, body, id),
    ensures
        keys_differ(after_clearing(warehouses, body.is_default).push(new), codes()),
{
    let after = after_clearing(warehouses, body.is_default);
    lemma_first_from(warehouses, has_code(new.code@), 0);
    lemma_clearing_keeps_codes(warehouses, body.is_default);
    assert forall|i: int| 0 <= i < after.len() implies codes()(#[trigger] after[i]) != codes()(
        new,
    ) by {
        assert(!has_code(new.code@)(warehouses[i]));
    }
    lemma_new_key(after, codes(), new);
}

/// A warehouse that is changed still has a code of its own.
pub proof fn changed_warehouses_keep_codes_apart(
    warehouses: Seq<Model>,
    body: WarehouseBody,
    at: int,
    new: Model,
)
    requires
        keys_differ(warehouses, codes()),
        keys_differ(warehouses, warehouse_ids()),
        0 <= at < warehouses.len(),
        body_refusal(warehouses, body, Some(warehouses[at].id)) is None,
        is_model(new, body, warehouses[at].id),
    ensures
        keys_differ(
            after_clearing(
                warehouses,
                body.is_default && !warehouses[at].is_default,
            ).update(at, new),
            codes(),
        ),
{
    let clear = body.is_default && !warehouses[at].is_default;
    let after = after_clearing(warehouses, clear);
    lemma_first_from(warehouses, has_code(new.code@), 0);
    lemma_clearing_keeps_codes(warehouses, clear);
    assert forall|i: int| 0 <= i < after.len() && i != at implies codes()(#[trigger] after[i])
        != codes()(new) by {
        if warehouses[i].code@ == new.code@ {
            assert(has_code(new.code@)(warehouses[i]));
            let k = first_from(warehouses, has_code(new.code@), 0)->0;
            assert(warehouse_ids()(warehouses[k]) == warehouse_ids()(warehouses[at]));
            assert(k == at);
            assert(codes()(warehouses[at]) == codes()(warehouses[i]));
        }
    }
    lemma_changed_key(after, codes(), at, new);
}

} // verus!
