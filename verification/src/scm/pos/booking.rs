//! What a closed session asks the ledger to book: the cost of what it sold, and
//! the money it took.

use super::consolidate::{are_takings, Consolidation, Takings};
use super::session::SessionCount;
use super::takings::{cash_net, counted_as, modest, SessionMoney};
use crate::accounting::account::keys;
use crate::date::Date;
use crate::decimal::{limit, minus, negated, worth, zero};
use crate::error::{refusal, Error, Refusal};
use crate::port::GlPostingRequested;
use crate::scm::gl::{
    added, all_booked, book_rows, finished, imbalance, in_cents, is_request, lemma_added,
    lemma_finished_imbalance, lemma_finished_role, lemma_negated_cents, lemma_role_added,
    movement_lines, net_mass_to, role_effect_to, size, then_added, Booked, Contra, EntryBuilder,
    Net,
};
use crate::scm::inventory::item::{Category, Item};
use crate::scm::inventory::stock::LedgerRow;
use crate::search::{first_from, lemma_first_from};
use crate::sums::{kept_places, lemma_combined_exact, lemma_worth_sign};
use vstd::prelude::*;

verus! {

/// Mobile money that is on its way to the bank.
pub const MPESA_CLEARING: &'static str = "mpesa_clearing";

/// Card payments that are on their way to the bank.
pub const CARD_CLEARING: &'static str = "card_clearing";

/// What drawers hold too much or too little.
pub const CASH_OVER_SHORT: &'static str = "cash_over_short";

/// Whether an outcome asks for lines to be booked: with them, or not at all
/// where there are none.
pub open spec fn asks_for(
    r: Option<GlPostingRequested>,
    lines: Seq<Booked>,
    tenant_id: Option<u128>,
    source: Seq<char>,
    entry_date: Date,
    memo: Seq<char>,
) -> bool {
    match r {
        None => lines.len() == 0,
        Some(req) => {
            &&& lines.len() > 0
            &&& all_booked(req.lines@) == lines
            &&& is_request(req, tenant_id, source, entry_date, memo)
        },
    }
}

/// The cost of what a movement took out, by the values of its ledger rows.
pub fn cogs_move_request(
    source: &str,
    memo: &str,
    entry_date: Date,
    rows: &Vec<LedgerRow>,
    items: &Vec<Item>,
    categories: &Vec<Category>,
    tenant_id: Option<u128>,
) -> (r: Result<Option<GlPostingRequested>, Error>)
    ensures
        match movement_lines(rows@, items@, categories@, Contra::Cogs) {
            Err(why) => refusal(r) == Some(why),
            Ok(lines) => r is Ok && asks_for(
                r->Ok_0,
                lines,
                tenant_id,
                source@,
                entry_date,
                memo@,
            ),
        },
{
    let lines = book_rows(rows, items, categories, Contra::Cogs)?;
    assert(all_booked(lines@).len() == lines@.len());
    if lines.len() == 0 {
        return Ok(None);
    }
    Ok(
        Some(
            GlPostingRequested {
                tenant_id,
                source: source.to_owned(),
                entry_date,
                memo: memo.to_owned(),
                currency: None,
                lines,
            },
        ),
    )
}

/// The nets of takings: each tender to where its money is, what was over or
/// short in the drawer, and on the other side the revenue and the tax.
pub open spec fn takings_nets(t: Takings) -> Option<Seq<Net>> {
    then_added(
        then_added(
            then_added(
                then_added(
                    then_added(
                        added(Seq::empty(), keys::CASH@, t.cash@, None),
                        MPESA_CLEARING@,
                        t.mpesa@,
                        None,
                    ),
                    CARD_CLEARING@,
                    t.card@,
                    None,
                ),
                CASH_OVER_SHORT@,
                negated(t.over_short@),
                None,
            ),
            keys::SALES@,
            negated(t.net_sales@),
            None,
        ),
        keys::VAT_OUTPUT@,
        negated(t.tax_net@),
        None,
    )
}

/// The money that a session took, as it was counted.
pub fn pos_session_request(
    source: &str,
    memo: &str,
    entry_date: Date,
    t: &Takings,
    tenant_id: Option<u128>,
) -> (r: Result<Option<GlPostingRequested>, Error>)
    ensures
        match takings_nets(*t) {
            None => refusal(r) == Some(Refusal::Overflow),
            Some(net) => r is Ok && asks_for(
                r->Ok_0,
                finished(net),
                tenant_id,
                source@,
                entry_date,
                memo@,
            ),
        },
{
    let mut entry = EntryBuilder::new();
    if !entry.debit(keys::CASH, t.cash, None) {
        return Err(Error::Overflow);
    }
    if !entry.debit(MPESA_CLEARING, t.mpesa, None) {
        return Err(Error::Overflow);
    }
    if !entry.debit(CARD_CLEARING, t.card, None) {
        return Err(Error::Overflow);
    }
    if !entry.credit(CASH_OVER_SHORT, t.over_short, None) {
        return Err(Error::Overflow);
    }
    if !entry.credit(keys::SALES, t.net_sales, None) {
        return Err(Error::Overflow);
    }
    if !entry.credit(keys::VAT_OUTPUT, t.tax_net, None) {
        return Err(Error::Overflow);
    }
    let lines = entry.lines();
    assert(all_booked(lines@).len() == lines@.len());
    if lines.len() == 0 {
        return Ok(None);
    }
    Ok(
        Some(
            GlPostingRequested {
                tenant_id,
                source: source.to_owned(),
                entry_date,
                memo: memo.to_owned(),
                currency: None,
                lines,
            },
        ),
    )
}

/// What a consolidated session asks the ledger to book.
#[derive(Debug)]
pub struct SessionRequests {
    pub cost: Option<GlPostingRequested>,
    pub takings: Option<GlPostingRequested>,
}

/// The lines that the cost of a consolidated session is booked with; none
/// where nothing moved.
pub open spec fn cost_lines(c: Consolidation, items: Seq<Item>, categories: Seq<Category>) -> Result<
    Seq<Booked>,
    Refusal,
> {
    match c.movement {
        None => Ok(Seq::empty()),
        Some(out) => movement_lines(out.rows@, items, categories, Contra::Cogs),
    }
}

/// The requests of a consolidated session: one for its cost, by the rows of its
/// movement, and one for its takings.
pub fn session_requests(
    c: &Consolidation,
    items: &Vec<Item>,
    categories: &Vec<Category>,
    entry_date: Date,
    tenant_id: Option<u128>,
) -> (r: Result<SessionRequests, Error>)
    ensures
        match cost_lines(*c, items@, categories@) {
            Err(why) => refusal(r) == Some(why),
            Ok(cost) => match takings_nets(c.takings) {
                None => refusal(r) == Some(Refusal::Overflow),
                Some(net) => {
                    &&& r is Ok
                    &&& asks_for(
                        r->Ok_0.cost,
                        cost,
                        tenant_id,
                        c.cogs_source@,
                        entry_date,
                        c.cogs_memo@,
                    )
                    &&& asks_for(
                        r->Ok_0.takings,
                        finished(net),
                        tenant_id,
                        c.takings_source@,
                        entry_date,
                        c.takings_memo@,
                    )
                },
            },
        },
{
    let cost = match &c.movement {
        None => None,
        Some(out) => match cogs_move_request(
            c.cogs_source.as_str(),
            c.cogs_memo.as_str(),
            entry_date,
            &out.rows,
            items,
            categories,
            tenant_id,
        ) {
            Ok(request) => request,
            Err(e) => {
                return Err(e);
            },
        },
    };
    let takings = match pos_session_request(
        c.takings_source.as_str(),
        c.takings_memo.as_str(),
        entry_date,
        &c.takings,
        tenant_id,
    ) {
        Ok(request) => request,
        Err(e) => {
            return Err(e);
        },
    };
    Ok(SessionRequests { cost, takings })
}

// ---------------------------------------------------------------------------
// Laws
// ---------------------------------------------------------------------------

/// Whether an amount is in cents.
pub open spec fn all_in_cents(t: Takings) -> bool {
    &&& in_cents(t.cash@) && in_cents(t.mpesa@) && in_cents(t.card@)
    &&& in_cents(t.over_short@) && in_cents(t.net_sales@) && in_cents(t.tax_net@)
}

/// How large takings are, all amounts together.
pub open spec fn mass_of(t: Takings) -> int {
    size(t.cash@) + size(t.mpesa@) + size(t.card@) + size(t.over_short@) + size(t.net_sales@) + size(
        t.tax_net@,
    )
}

/// The entry of a session's takings balances, where the takings do: what it
/// debits is worth exactly what it credits.
pub proof fn takings_entries_balance(t: Takings)
    requires
        all_in_cents(t),
        mass_of(t) < limit(),
        worth(t.cash@) + worth(t.mpesa@) + worth(t.card@) - worth(t.over_short@) == worth(
            t.net_sales@,
        ) + worth(t.tax_net@),
    ensures
        takings_nets(t) is Some,
        imbalance(finished(takings_nets(t)->0)) == 0,
{
    let none = Seq::<Net>::empty();
    assert(net_mass_to(none, 0) == 0);
    lemma_negated_cents(t.over_short@);
    lemma_negated_cents(t.net_sales@);
    lemma_negated_cents(t.tax_net@);
    lemma_added(none, keys::CASH@, t.cash@, None);
    let n1 = added(none, keys::CASH@, t.cash@, None)->0;
    lemma_added(n1, MPESA_CLEARING@, t.mpesa@, None);
    let n2 = added(n1, MPESA_CLEARING@, t.mpesa@, None)->0;
    lemma_added(n2, CARD_CLEARING@, t.card@, None);
    let n3 = added(n2, CARD_CLEARING@, t.card@, None)->0;
    lemma_added(n3, CASH_OVER_SHORT@, negated(t.over_short@), None);
    let n4 = added(n3, CASH_OVER_SHORT@, negated(t.over_short@), None)->0;
    lemma_added(n4, keys::SALES@, negated(t.net_sales@), None);
    let n5 = added(n4, keys::SALES@, negated(t.net_sales@), None)->0;
    lemma_added(n5, keys::VAT_OUTPUT@, negated(t.tax_net@), None);
    let n6 = added(n5, keys::VAT_OUTPUT@, negated(t.tax_net@), None)->0;
    assert(takings_nets(t) == Some(n6));
    lemma_finished_imbalance(n6, n6.len());
}

/// What takings are meant to bring a role.
spec fn meant_for(t: Takings, role: Seq<char>) -> int {
    (if role == keys::CASH@ {
        worth(t.cash@)
    } else {
        0
    }) + (if role == MPESA_CLEARING@ {
        worth(t.mpesa@)
    } else {
        0
    }) + (if role == CARD_CLEARING@ {
        worth(t.card@)
    } else {
        0
    }) - (if role == CASH_OVER_SHORT@ {
        worth(t.over_short@)
    } else {
        0
    }) - (if role == keys::SALES@ {
        worth(t.net_sales@)
    } else {
        0
    }) - (if role == keys::VAT_OUTPUT@ {
        worth(t.tax_net@)
    } else {
        0
    })
}

proof fn lemma_takings_role(t: Takings, role: Seq<char>)
    requires
        all_in_cents(t),
        mass_of(t) < limit(),
    ensures
        takings_nets(t) matches Some(net) && role_effect_to(
            finished(net),
            role,
            finished(net).len(),
        ) == meant_for(t, role),
{
    let none = Seq::<Net>::empty();
    assert(net_mass_to(none, 0) == 0);
    lemma_negated_cents(t.over_short@);
    lemma_negated_cents(t.net_sales@);
    lemma_negated_cents(t.tax_net@);
    lemma_added(none, keys::CASH@, t.cash@, None);
    lemma_role_added(none, keys::CASH@, t.cash@, None, role);
    let n1 = added(none, keys::CASH@, t.cash@, None)->0;
    lemma_added(n1, MPESA_CLEARING@, t.mpesa@, None);
    lemma_role_added(n1, MPESA_CLEARING@, t.mpesa@, None, role);
    let n2 = added(n1, MPESA_CLEARING@, t.mpesa@, None)->0;
    lemma_added(n2, CARD_CLEARING@, t.card@, None);
    lemma_role_added(n2, CARD_CLEARING@, t.card@, None, role);
    let n3 = added(n2, CARD_CLEARING@, t.card@, None)->0;
    lemma_added(n3, CASH_OVER_SHORT@, negated(t.over_short@), None);
    lemma_role_added(n3, CASH_OVER_SHORT@, negated(t.over_short@), None, role);
    let n4 = added(n3, CASH_OVER_SHORT@, negated(t.over_short@), None)->0;
    lemma_added(n4, keys::SALES@, negated(t.net_sales@), None);
    lemma_role_added(n4, keys::SALES@, negated(t.net_sales@), None, role);
    let n5 = added(n4, keys::SALES@, negated(t.net_sales@), None)->0;
    lemma_added(n5, keys::VAT_OUTPUT@, negated(t.tax_net@), None);
    lemma_role_added(n5, keys::VAT_OUTPUT@, negated(t.tax_net@), None, role);
    let n6 = added(n5, keys::VAT_OUTPUT@, negated(t.tax_net@), None)->0;
    assert(takings_nets(t) == Some(n6));
    lemma_finished_role(n6, role, n6.len());
}

proof fn lemma_roles_differ()
    ensures
        ({
            let r = seq![
                keys::CASH@,
                MPESA_CLEARING@,
                CARD_CLEARING@,
                CASH_OVER_SHORT@,
                keys::SALES@,
                keys::VAT_OUTPUT@,
            ];
            forall|i: int, j: int|
                0 <= i < j < 6 ==> #[trigger] r[i] != #[trigger] r[j]
        }),
{
    reveal_strlit("cash");
    reveal_strlit("mpesa_clearing");
    reveal_strlit("card_clearing");
    reveal_strlit("cash_over_short");
    reveal_strlit("sales");
    reveal_strlit("vat_output");
    assert(keys::CASH@.len() == 4);
    assert(MPESA_CLEARING@.len() == 14);
    assert(CARD_CLEARING@.len() == 13);
    assert(CASH_OVER_SHORT@.len() == 15);
    assert(keys::SALES@.len() == 5);
    assert(keys::VAT_OUTPUT@.len() == 10);
}

/// The entry of a session says where its money is: each tender's account gains what the
/// tender took on sales less what it gave on refunds, cash as it was counted; what
/// was counted over what was expected is a gain, and under it a loss; the revenue
/// is what was sold less what came back, both without their tax, and the tax is
/// that of the sales less that of the refunds.
pub proof fn takings_are_booked_where_the_money_is(
    t: Takings,
    m: SessionMoney,
    counts: Seq<SessionCount>,
    session: u128,
)
    requires
        are_takings(t, m, counts, session),
        all_in_cents(t),
        mass_of(t) < limit(),
        modest(t.over_short@),
        modest(m.sales.cash@) && modest(m.sales.mpesa@) && modest(m.sales.card@),
        modest(m.refunds.cash@) && modest(m.refunds.mpesa@) && modest(m.refunds.card@),
        modest(m.gross_sales@) && modest(m.sales_tax@),
        modest(m.refund_total@) && modest(m.refund_tax@),
        forall|i: int|
            0 <= i < counts.len() ==> modest((#[trigger] counts[i]).counted@) && modest(
                counts[i].expected@,
            ),
    ensures
        takings_nets(t) is Some,
        ({
            let entry = finished(takings_nets(t)->0);
            let n = entry.len();
            let over = -role_effect_to(entry, CASH_OVER_SHORT@, n);
            &&& role_effect_to(entry, keys::CASH@, n) == worth(m.sales.cash@) - worth(
                m.refunds.cash@,
            ) + over
            &&& role_effect_to(entry, MPESA_CLEARING@, n) == worth(m.sales.mpesa@) - worth(
                m.refunds.mpesa@,
            )
            &&& role_effect_to(entry, CARD_CLEARING@, n) == worth(m.sales.card@) - worth(
                m.refunds.card@,
            )
            &&& role_effect_to(entry, keys::SALES@, n) == -(worth(m.gross_sales@) - worth(
                m.sales_tax@,
            ) - (worth(m.refund_total@) - worth(m.refund_tax@)))
            &&& role_effect_to(entry, keys::VAT_OUTPUT@, n) == -(worth(m.sales_tax@) - worth(
                m.refund_tax@,
            ))
            &&& forall|k: int|
                0 <= k < counts.len() && (#[trigger] counts[k]).session_id == session
                    && counts[k].tender@ == "cash"@ && (forall|j: int|
                    0 <= j < counts.len() && j != k ==> (#[trigger] counts[j]).session_id != session
                        || counts[j].tender@ != "cash"@) ==> over == worth(counts[k].counted@)
                    - worth(counts[k].expected@)
            &&& (forall|k: int|
                0 <= k < counts.len() ==> (#[trigger] counts[k]).session_id != session
                    || counts[k].tender@ != "cash"@) ==> over == 0
        }),
{
    let p = kept_places();
    let unit = limit() / 1000;
    let r = seq![
        keys::CASH@,
        MPESA_CLEARING@,
        CARD_CLEARING@,
        CASH_OVER_SHORT@,
        keys::SALES@,
        keys::VAT_OUTPUT@,
    ];
    lemma_roles_differ();
    assert(r[0] != r[1] && r[0] != r[2] && r[0] != r[3] && r[0] != r[4] && r[0] != r[5]);
    assert(r[1] != r[2] && r[1] != r[3] && r[1] != r[4] && r[1] != r[5]);
    assert(r[2] != r[3] && r[2] != r[4] && r[2] != r[5]);
    assert(r[3] != r[4] && r[3] != r[5] && r[4] != r[5]);
    lemma_takings_role(t, keys::CASH@);
    lemma_takings_role(t, MPESA_CLEARING@);
    lemma_takings_role(t, CARD_CLEARING@);
    lemma_takings_role(t, CASH_OVER_SHORT@);
    lemma_takings_role(t, keys::SALES@);
    lemma_takings_role(t, keys::VAT_OUTPUT@);
    lemma_combined_exact(m.sales.cash@, m.refunds.cash@, -1, p, unit, unit);
    lemma_combined_exact(m.sales.mpesa@, m.refunds.mpesa@, -1, p, unit, unit);
    lemma_combined_exact(m.sales.card@, m.refunds.card@, -1, p, unit, unit);
    lemma_combined_exact(cash_net(m)->0, t.over_short@, 1, p, 2 * unit, unit);
    lemma_combined_exact(m.gross_sales@, m.sales_tax@, -1, p, unit, unit);
    lemma_combined_exact(m.refund_total@, m.refund_tax@, -1, p, unit, unit);
    lemma_combined_exact(m.sales_tax@, m.refund_tax@, -1, p, unit, unit);
    let sold = minus(m.gross_sales@, m.sales_tax@)->0;
    let back = minus(m.refund_total@, m.refund_tax@)->0;
    lemma_combined_exact(sold, back, -1, p, 2 * unit, 2 * unit);
    lemma_worth_sign(zero());
    let f = counted_as(session, "cash"@);
    lemma_first_from(counts, f, 0);
    if let Some(k) = first_from(counts, f, 0) {
        assert(f(counts[k]));
        lemma_combined_exact(counts[k].counted@, counts[k].expected@, -1, p, unit, unit);
    }
    assert forall|k: int|
        0 <= k < counts.len() && (#[trigger] counts[k]).session_id == session && counts[k].tender@
            == "cash"@ && (forall|j: int|
            0 <= j < counts.len() && j != k ==> (#[trigger] counts[j]).session_id != session
                || counts[j].tender@ != "cash"@) implies worth(t.over_short@) == worth(
        counts[k].counted@,
    ) - worth(counts[k].expected@) by {
        assert(f(counts[k]));
        assert(first_from(counts, f, 0) == Some(k));
    }
}

} // verus!
