//! Acts at the till that need a supervisor: manual prices, discounts, voids and
//! refunds.
//!
//! The caller's own permission is enough; otherwise a supervisor approves with
//! a PIN. Every way in which that can fail is answered alike, so that nothing
//! is told about which part failed.

use super::sale::SaleLineInput;
use crate::decimal::{plain_text, Decimal};
use crate::error::{refusal, Error, Refusal};
use crate::search::any;
use crate::text::{cat2, cat4, cat5, cat6, id_text, show_id, trim, trimmed};
use vstd::prelude::*;

verus! {

/// The user who approves a gated act, as they were found, with what the
/// password check says of the PIN and whether they hold the permission.
#[derive(Clone, Copy, Debug)]
pub struct Authorizer {
    pub id: u128,
    pub tenant_id: u128,
    pub is_active: bool,
    pub is_deleted: bool,
    pub has_pin: bool,
    pub pin_matches: bool,
    pub may_override: bool,
}

/// Whether an approval holds: an active user of the same tenant with a PIN
/// that matches and the permission to override.
pub open spec fn approves(a: Authorizer, tenant: u128) -> bool {
    a.is_active && !a.is_deleted && a.tenant_id == tenant && a.has_pin && a.pin_matches
        && a.may_override
}

/// Check a PIN approval; every failure is the same. The result is who
/// approved.
pub fn verify_override_pin(found: Option<Authorizer>, tenant: u128) -> (r: Result<u128, Error>)
    ensures
        match found {
            Some(a) if approves(a, tenant) => r == Ok::<u128, Error>(a.id),
            _ => refusal(r) == Some(Refusal::Forbidden),
        },
{
    match found {
        Some(a) => {
            if !a.is_active || a.is_deleted || a.tenant_id != tenant {
                return Err(Error::Forbidden);
            }
            if !a.has_pin || !a.pin_matches {
                return Err(Error::Forbidden);
            }
            if !a.may_override {
                return Err(Error::Forbidden);
            }
            Ok(a.id)
        },
        None => Err(Error::Forbidden),
    }
}

/// Resolve whether a gated act may go on: by the caller's own permission, or
/// by an approval, where one was offered. With an approval, the result says
/// who gave it.
pub fn resolve_override(
    own_permission: bool,
    approval: Option<Option<Authorizer>>,
    tenant: u128,
) -> (r: Result<(bool, Option<u128>), Error>)
    ensures
        if own_permission {
            r == Ok::<(bool, Option<u128>), Error>((true, None))
        } else {
            match approval {
                None => r == Ok::<(bool, Option<u128>), Error>((false, None)),
                Some(Some(a)) if approves(a, tenant) => r == Ok::<(bool, Option<u128>), Error>(
                    (true, Some(a.id)),
                ),
                Some(_) => refusal(r) == Some(Refusal::Forbidden),
            }
        },
{
    if own_permission {
        return Ok((true, None));
    }
    match approval {
        Some(found) => {
            let id = verify_override_pin(found, tenant)?;
            Ok((true, Some(id)))
        },
        None => Ok((false, None)),
    }
}

/// Whether a line holds something that needs the override.
pub open spec fn is_gated(l: SaleLineInput) -> bool {
    l.manual_price || (l.discount_pct matches Some(p) && p@.0 != 0)
}

/// Whether a sale holds anything that needs the override at all.
pub fn needs_override(lines: &Vec<SaleLineInput>) -> (r: bool)
    ensures
        r == any(lines@, |l: SaleLineInput| is_gated(l)),
{
    let mut i: usize = 0;
    while i < lines.len()
        invariant
            i <= lines.len(),
            forall|j: int| 0 <= j < i ==> !is_gated(#[trigger] lines@[j]),
        decreases lines.len() - i,
    {
        let cut = match lines[i].discount_pct {
            Some(p) => !p.is_zero(),
            None => false,
        };
        if lines[i].manual_price || cut {
            assert(is_gated(lines@[i as int]));
            return true;
        }
        i = i + 1;
    }
    false
}

/// An act that a supervisor must stand behind.
#[derive(Clone, Copy, Debug, PartialEq, Eq, Structural)]
pub enum GatedAct {
    Void,
    Refund,
}

/// Refuse a gated act that was not allowed.
pub fn require_override(act: GatedAct, allowed: bool) -> (r: Result<(), Error>)
    ensures
        refusal(r) == (if allowed {
            None
        } else {
            Some(
                Refusal::Validation(
                    match act {
                        GatedAct::Void =>
                            "voiding needs the override permission or a supervisor PIN"@,
                        GatedAct::Refund =>
                            "refunding needs the override permission or a supervisor PIN"@,
                    },
                ),
            )
        }),
{
    if allowed {
        return Ok(());
    }
    match act {
        GatedAct::Void => Err(
            Error::Validation("voiding needs the override permission or a supervisor PIN".to_owned()),
        ),
        GatedAct::Refund => Err(
            Error::Validation(
                "refunding needs the override permission or a supervisor PIN".to_owned(),
            ),
        ),
    }
}

// ---------------------------------------------------------------------------
// The audit trail
// ---------------------------------------------------------------------------

/// How an audit sentence names whoever approved.
pub open spec fn approver_text(approver: Option<u128>) -> Seq<char> {
    match approver {
        Some(id) => ", approved by user "@ + id_text(id),
        None => ""@,
    }
}

fn show_approver(approver: Option<u128>) -> (r: String)
    ensures
        r@ == approver_text(approver),
{
    match approver {
        Some(id) => {
            let shown = show_id(id);
            cat2(", approved by user ", shown.as_str())
        },
        None => "".to_owned(),
    }
}

/// What the audit trail says of a sale whose overrides were approved.
pub fn override_event(number: &str, approver: u128) -> (r: String)
    ensures
        r@ == "sale "@ + number@ + " carried overrides approved by user "@ + id_text(approver),
{
    let shown = show_id(approver);
    cat4("sale ", number, " carried overrides approved by user ", shown.as_str())
}

/// What the audit trail says of a void.
pub fn void_event(number: &str, reason: &str, approver: Option<u128>) -> (r: String)
    ensures
        r@ == "voided sale "@ + number@ + " ("@ + trimmed(reason@) + ")"@ + approver_text(approver),
{
    let why = trim(reason);
    let who = show_approver(approver);
    cat6("voided sale ", number, " (", why.as_str(), ")", who.as_str())
}

/// What the audit trail says of a refund.
pub fn refund_event(total: Decimal, original: u128, approver: Option<u128>) -> (r: String)
    ensures
        r@ == "refunded "@ + plain_text(total@) + " against sale "@ + id_text(original)
            + approver_text(approver),
{
    let amount = total.text();
    let sale = show_id(original);
    let who = show_approver(approver);
    cat5("refunded ", amount.as_str(), " against sale ", sale.as_str(), who.as_str())
}

// ---------------------------------------------------------------------------
// Laws
// ---------------------------------------------------------------------------

/// An approval holds only where everything about it does: a user of the tenant who is active
/// and not deleted, has a PIN that matches, and may override. Taking any one of these
/// away takes the approval away.
pub proof fn approvals_need_all_of_it(a: Authorizer, tenant: u128, other: u128)
    requires
        approves(a, tenant),
        other != tenant,
    ensures
        !approves(a, other),
        !approves(Authorizer { is_active: false, ..a }, tenant),
        !approves(Authorizer { is_deleted: true, ..a }, tenant),
        !approves(Authorizer { has_pin: false, ..a }, tenant),
        !approves(Authorizer { pin_matches: false, ..a }, tenant),
        !approves(Authorizer { may_override: false, ..a }, tenant),
{
}

/// A line needs the override where its price was keyed by hand or it is discounted; a discount
/// of nothing is none.
pub proof fn keyed_prices_and_discounts_are_gated(l: SaleLineInput)
    ensures
        l.manual_price ==> is_gated(l),
        !l.manual_price && l.discount_pct is None ==> !is_gated(l),
        !l.manual_price ==> (l.discount_pct matches Some(p) ==> (is_gated(l) <==> p@.0 != 0)),
{
}

} // verus!
