//! What the entry of a purchase invoice says: what the supplier is owed, and that the
//! rounding line holds no more than what conversion drifts.

use super::gl::{
    added, billed_to, figures_of, finished, finished_to, gap_of, in_base, in_cents, invoice_lines,
    invoice_nets, lemma_added, lemma_finished_role, lemma_multiple_negated, lemma_multiples_add,
    lemma_negated_cents, lemma_role_added, lemma_two_places_are_cents, or_zero, role_effect_to,
    size, small, with_role, Figures, InvoiceLine, Net, OrderRef, PurchaseInvoice,
};
use crate::accounting::account::keys;
use crate::decimal::{
    abs, limit, max_places, minus, multiplies, negated, plus, pow10, rescaled, rounded, times,
    worth, zero, Num,
};
use crate::search::lemma_first_from;
use crate::sums::{
    hundredth, kept_places, lemma_combined_exact, lemma_counted_in, lemma_mass_grows,
    lemma_percentage, lemma_pow10_adds, lemma_pow10_positive, lemma_product_worth,
    lemma_rounded_multiple, lemma_rounded_worth, lemma_total_exact_to, lemma_worth_sign, mass_to,
    quotient_of, rounded_of, summable, total_to, worth_of, worth_to,
};
use vstd::prelude::*;

verus! {

/// What each billed line comes to in the currency of the invoice, to the cent.
pub open spec fn line_amounts(lines: Seq<InvoiceLine>) -> Seq<Num> {
    Seq::new(
        lines.len(),
        |i: int| rounded(times(lines[i].qty@, lines[i].order_price->0@)->0, 2),
    )
}

/// What each billed line was received at in base currency: its quantity at the unit
/// cost in base, to the cent.
pub open spec fn line_values(lines: Seq<InvoiceLine>, rate: Num) -> Seq<Num> {
    Seq::new(
        lines.len(),
        |i: int|
            rounded(
                times(
                    lines[i].qty@,
                    rounded(times(lines[i].order_price->0@, rate)->0, 6),
                )->0,
                2,
            ),
    )
}

/// The number of whole cents that is worth so much.
pub open spec fn cents(w: int) -> Num {
    (w / pow10(26), 2)
}

/// The number of six places that is worth so much.
pub open spec fn millionths(w: int) -> Num {
    (w / pow10(22), 6)
}

/// What the lines of an invoice are worth together.
pub open spec fn invoiced(lines: Seq<InvoiceLine>) -> int {
    worth_of(line_amounts(lines))
}

/// The percentage that an invoice takes off, to the cent.
pub open spec fn percent_off(inv: PurchaseInvoice, lines: Seq<InvoiceLine>) -> Num {
    match inv.discount_pct {
        Some(pct) => rounded(
            hundredth((cents(invoiced(lines)).0 * pct@.0, 2 + pct@.1)),
            2,
        ),
        None => zero(),
    }
}

/// What an invoice takes off in all.
pub open spec fn taken_off(inv: PurchaseInvoice, lines: Seq<InvoiceLine>) -> int {
    worth(percent_off(inv, lines)) + worth(or_zero(inv.discount_amount))
}

/// What an invoice comes to in its own currency, to the cent: its lines, less what
/// is taken off, and its charges.
pub open spec fn due(inv: PurchaseInvoice, lines: Seq<InvoiceLine>) -> int {
    worth(
        rounded(
            millionths(invoiced(lines) - taken_off(inv, lines) + worth(or_zero(inv.other_charges))),
            2,
        ),
    )
}

/// What an amount is worth at a rate, to the cent.
pub open spec fn converted(n: Num, rate: Num) -> int {
    worth(rounded((n.0 * rate.0, n.1 + rate.1), 2))
}

/// Whether no figure of an invoice is so large, or so finely divided, that a
/// decimal cannot hold it.
pub open spec fn ordinary(inv: PurchaseInvoice, lines: Seq<InvoiceLine>) -> bool {
    let rate = inv.exchange_rate@;
    let amount = or_zero(inv.discount_amount);
    let charges = or_zero(inv.other_charges);
    let off = millionths(taken_off(inv, lines));
    &&& rate.1 <= 20
    &&& amount.1 <= kept_places()
    &&& charges.1 <= kept_places()
    &&& summable(line_amounts(lines))
    &&& summable(line_values(lines, rate))
    &&& inv.discount_pct matches Some(pct) ==> pct@.1 <= 17 && abs(
        cents(invoiced(lines)).0 * pct@.0,
    ) < 0x4_0000_0000_0000_0000
    &&& 8 * (mass_to(line_amounts(lines), kept_places(), lines.len()) + size(
        percent_off(inv, lines),
    ) + size(amount) + size(charges)) < limit()
    &&& abs(charges.0 * rate.0) < limit()
    &&& abs(off.0 * rate.0) < limit()
    &&& abs(cents(due(inv, lines)).0 * rate.0) < limit()
    &&& 8 * (abs(worth_of(line_values(lines, rate))) + abs(converted(charges, rate)) + abs(
        converted(off, rate),
    ) + abs(converted(cents(due(inv, lines)), rate))) < limit() * pow10(22)
}

proof fn lemma_places_added(a: Num, b: Num, x: int, y: int)
    requires
        a.1 <= 2,
        b.1 <= 2,
        size(a) <= x,
        size(b) <= y,
        x + y < limit(),
    ensures
        plus(a, b) matches Some(c) && c.1 <= 2,
        minus(a, b) matches Some(c) && c.1 <= 2,
{
    lemma_combined_exact(a, b, 1, kept_places(), x, y);
    lemma_combined_exact(a, b, -1, kept_places(), x, y);
}

/// The sums of the lines.
proof fn lemma_billed(lines: Seq<InvoiceLine>, rate: Num, n: nat)
    requires
        n <= lines.len(),
        billed_to(lines, rate, n) is Ok,
        summable(line_amounts(lines)),
        summable(line_values(lines, rate)),
    ensures
        ({
            let sums = billed_to(lines, rate, n)->Ok_0;
            &&& total_to(line_amounts(lines), n) == Some(sums.0)
            &&& total_to(line_values(lines, rate), n) == Some(sums.1)
            &&& sums.0.1 <= 2
            &&& sums.1.1 <= 2
        }),
        forall|i: int|
            0 <= i < n ==> (#[trigger] lines[i]).order_price is Some && times(
                lines[i].qty@,
                lines[i].order_price->0@,
            ) is Some && times(lines[i].order_price->0@, rate) is Some && times(
                lines[i].qty@,
                rounded(times(lines[i].order_price->0@, rate)->0, 6),
            ) is Some,
    decreases n,
{
    if n > 0 {
        lemma_billed(lines, rate, (n - 1) as nat);
        let p = kept_places();
        let a = line_amounts(lines);
        let v = line_values(lines, rate);
        let sums = billed_to(lines, rate, (n - 1) as nat)->Ok_0;
        lemma_total_exact_to(a, (n - 1) as nat);
        lemma_total_exact_to(v, (n - 1) as nat);
        lemma_mass_grows(a, p, n, a.len());
        lemma_mass_grows(v, p, n, v.len());
        lemma_places_added(sums.0, a[n - 1], mass_to(a, p, (n - 1) as nat), size(a[n - 1]));
        lemma_places_added(sums.1, v[n - 1], mass_to(v, p, (n - 1) as nat), size(v[n - 1]));
    }
}

/// Converting an amount does not depend on with how many zeros it is written.
proof fn lemma_converted(n: Num, x: Num, rate: Num)
    requires
        n.1 <= x.1,
        x.1 + rate.1 <= max_places(),
        worth(n) == worth(x),
        abs(x.0 * rate.0) < limit(),
    ensures
        in_base(Some(n), rate) matches Some(b) && b.1 <= 2 && worth(b) == converted(x, rate),
{
    lemma_counted_in(n, x.1);
    lemma_counted_in(x, x.1);
    assert(pow10(0) == 1);
    let u = pow10((max_places() - x.1) as nat);
    lemma_pow10_positive((max_places() - x.1) as nat);
    let y = rescaled(n, x.1);
    let z = x.0;
    assert(y == z) by (nonlinear_arith)
        requires
            y * u == z * u,
            u >= 1,
    ;
    let a = n.0;
    let r = rate.0;
    assert(abs(a * r) <= abs(z * r)) by (nonlinear_arith)
        requires
            abs(a) <= abs(z),
    ;
    lemma_product_worth(n, rate);
    lemma_product_worth(x, rate);
    let p = times(n, rate)->0;
    let q: Num = (z * r, x.1 + rate.1);
    let k = pow10(max_places());
    lemma_pow10_positive(max_places());
    lemma_worth_sign(q);
    lemma_worth_sign(zero());
    if z == 0 || r == 0 {
        assert(z * r == 0) by (nonlinear_arith)
            requires
                z == 0 || r == 0,
        ;
    }
    let s = worth(p);
    let t = worth(times(x, rate)->0);
    assert(s == t) by (nonlinear_arith)
        requires
            s * k == t * k,
            k >= 1,
    ;
    assert(worth(q) == t);
    lemma_rounded_worth(p, q, 2);
}

proof fn lemma_size(n: Num)
    requires
        n.1 <= kept_places(),
    ensures
        size(n) * pow10(22) == abs(worth(n)),
        worth(millionths(worth(n))) == worth(n),
        n.1 <= 2 ==> worth(cents(worth(n))) == worth(n),
{
    lemma_counted_in(n, 6);
    lemma_pow10_positive(22);
    let x = rescaled(n, 6);
    let u = pow10(22);
    assert(abs(x) * u == abs(x * u)) by (nonlinear_arith)
        requires
            u >= 1,
    ;
    if n.1 <= 2 {
        lemma_counted_in(n, 2);
    }
}

/// The percentage, as it is computed.
proof fn lemma_percent(inv: PurchaseInvoice, lines: Seq<InvoiceLine>, subtotal: Num)
    requires
        ordinary(inv, lines),
        subtotal.1 <= 2,
        worth(subtotal) == invoiced(lines),
    ensures
        ({
            let percent = match inv.discount_pct {
                Some(pct) => rounded_of(
                    quotient_of(times(subtotal, pct@), Some((100int, 0nat))),
                    2,
                ),
                None => Some(zero()),
            };
            percent matches Some(p) && p.1 <= 2 && worth(p) == worth(percent_off(inv, lines))
                && size(p) == size(percent_off(inv, lines))
        }),
{
    if let Some(pct) = inv.discount_pct {
        let c = cents(invoiced(lines)).0;
        lemma_counted_in(subtotal, 2);
        let s = subtotal.0;
        let r = pct@.0;
        assert(abs(s * r) <= abs(c * r)) by (nonlinear_arith)
            requires
                abs(s) <= abs(c),
        ;
        lemma_percentage(subtotal, pct@, 2);
        let g = pow10((2 - subtotal.1) as nat);
        let x: Num = hundredth((s * r, subtotal.1 + pct@.1));
        let y: Num = hundredth((c * r, 2 + pct@.1));
        let h = pow10((max_places() - y.1) as nat);
        lemma_pow10_adds((2 - subtotal.1) as nat, (max_places() - y.1) as nat);
        assert((2 - subtotal.1) + (max_places() - y.1) == max_places() - x.1);
        assert((s * r) * (g * h) == ((s * g) * r) * h) by (nonlinear_arith);
        assert(worth(x) == worth(y));
        lemma_rounded_worth(x, y, 2);
        let share = rounded_of(
            quotient_of(times(subtotal, pct@), Some((100int, 0nat))),
            2,
        )->0;
        lemma_size(share);
        lemma_size(percent_off(inv, lines));
        lemma_same_size(share, percent_off(inv, lines));
    }
}

proof fn lemma_same_size(a: Num, b: Num)
    requires
        a.1 <= kept_places(),
        b.1 <= kept_places(),
        worth(a) == worth(b),
    ensures
        size(a) == size(b),
{
    lemma_counted_in(a, 6);
    lemma_counted_in(b, 6);
}

/// The figures of an ordinary invoice.
proof fn lemma_figures(
    inv: PurchaseInvoice,
    order: Option<OrderRef>,
    lines: Seq<InvoiceLine>,
)
    requires
        invoice_lines(inv, order, lines, false) is Ok,
        ordinary(inv, lines),
    ensures
        ({
            let rate = inv.exchange_rate@;
            let sums = billed_to(lines, rate, lines.len())->Ok_0;
            &&& billed_to(lines, rate, lines.len()) is Ok
            &&& figures_of(inv, sums.0, sums.1) matches Some(f) && {
                &&& f.goods.1 <= 2
                &&& f.charges.1 <= 2
                &&& f.discounts.1 <= 2
                &&& f.payable.1 <= 2
                &&& worth(f.goods) == worth_of(line_values(lines, rate))
                &&& worth(f.charges) == converted(or_zero(inv.other_charges), rate)
                &&& worth(f.discounts) == converted(millionths(taken_off(inv, lines)), rate)
                &&& worth(f.payable) == converted(cents(due(inv, lines)), rate)
                &&& small(f)
                &&& gap_of(f.goods, f.charges, f.discounts, f.payable) == Some(f.gap)
            }
        }),
{
    let p = kept_places();
    let rate = inv.exchange_rate@;
    let amount = or_zero(inv.discount_amount);
    let charges = or_zero(inv.other_charges);
    let sums = billed_to(lines, rate, lines.len())->Ok_0;
    let mass = mass_to(line_amounts(lines), p, lines.len());
    lemma_billed(lines, rate, lines.len());
    lemma_total_exact_to(line_amounts(lines), lines.len());
    lemma_total_exact_to(line_values(lines, rate), lines.len());
    let subtotal = sums.0;
    lemma_percent(inv, lines, subtotal);
    let percent = match inv.discount_pct {
        Some(pct) => rounded_of(
            quotient_of(times(subtotal, pct@), Some((100int, 0nat))),
            2,
        )->0,
        None => zero(),
    };
    lemma_combined_exact(percent, amount, 1, p, size(percent), size(amount));
    let off = plus(percent, amount)->0;
    lemma_combined_exact(subtotal, off, -1, p, mass, size(percent) + size(amount));
    let less = minus(subtotal, off)->0;
    lemma_combined_exact(
        less,
        charges,
        1,
        p,
        mass + size(percent) + size(amount),
        size(charges),
    );
    let t = plus(less, charges)->0;
    let w = invoiced(lines) - taken_off(inv, lines) + worth(charges);
    assert(worth(t) == w);
    lemma_size(t);
    lemma_rounded_worth(t, millionths(w), 2);
    let total = rounded(t, 2);
    assert(total.1 <= 2);
    lemma_size(total);
    lemma_converted(total, cents(due(inv, lines)), rate);
    lemma_size(off);
    lemma_converted(off, millionths(taken_off(inv, lines)), rate);
    lemma_converted(charges, charges, rate);
    let f = figures_of(inv, sums.0, sums.1)->0;
    lemma_size(f.goods);
    lemma_size(f.charges);
    lemma_size(f.discounts);
    lemma_size(f.payable);
    let a = size(f.goods);
    let b = size(f.charges);
    let c = size(f.discounts);
    let d = size(f.payable);
    let u = pow10(22);
    lemma_pow10_positive(22);
    let l = limit();
    assert(8 * (a + b + c + d) < l) by (nonlinear_arith)
        requires
            8 * (a * u + b * u + c * u + d * u) < l * u,
            u >= 1,
    ;
}

/// What figures are meant to bring a role.
spec fn share_of_role(f: Figures, role: Seq<char>) -> int {
    (if role == keys::GRNI@ {
        worth(f.goods)
    } else {
        0
    }) + (if role == keys::OPEX@ {
        worth(f.charges)
    } else {
        0
    }) - (if role == keys::PURCHASE_PRICE_VARIANCE@ {
        worth(f.discounts)
    } else {
        0
    }) - (if role == keys::AP@ {
        worth(f.payable)
    } else {
        0
    }) - (if role == keys::ROUNDING@ {
        worth(f.gap)
    } else {
        0
    })
}

/// What figures bring each role.
proof fn lemma_roles(f: Figures, supplier_no: Seq<char>, role: Seq<char>)
    requires
        f.goods.1 <= 2,
        f.charges.1 <= 2,
        f.discounts.1 <= 2,
        f.payable.1 <= 2,
        small(f),
        gap_of(f.goods, f.charges, f.discounts, f.payable) == Some(f.gap),
    ensures
        worth(f.gap) == worth(f.goods) + worth(f.charges) - worth(f.discounts) - worth(f.payable),
        f.gap.1 <= 2,
        invoice_nets(f, supplier_no) matches Some(net) && role_effect_to(
            finished(net),
            role,
            finished(net).len(),
        ) == share_of_role(f, role),
{
    let p = kept_places();
    lemma_two_places_are_cents(f.goods);
    lemma_two_places_are_cents(f.charges);
    lemma_two_places_are_cents(f.discounts);
    lemma_two_places_are_cents(f.payable);
    lemma_combined_exact(f.goods, f.charges, 1, p, size(f.goods), size(f.charges));
    let parts = plus(f.goods, f.charges)->0;
    lemma_combined_exact(
        parts,
        f.discounts,
        -1,
        p,
        size(f.goods) + size(f.charges),
        size(f.discounts),
    );
    let rest = minus(parts, f.discounts)->0;
    lemma_combined_exact(
        rest,
        f.payable,
        -1,
        p,
        size(f.goods) + size(f.charges) + size(f.discounts),
        size(f.payable),
    );
    lemma_two_places_are_cents(f.gap);
    lemma_negated_cents(f.discounts);
    lemma_negated_cents(f.payable);
    lemma_negated_cents(f.gap);
    let none = Seq::<Net>::empty();
    let on = Some("Other charges on "@ + supplier_no);
    lemma_added(none, keys::GRNI@, f.goods, None);
    lemma_role_added(none, keys::GRNI@, f.goods, None, role);
    let n1 = added(none, keys::GRNI@, f.goods, None)->0;
    lemma_added(n1, keys::OPEX@, f.charges, on);
    lemma_role_added(n1, keys::OPEX@, f.charges, on, role);
    let n2 = added(n1, keys::OPEX@, f.charges, on)->0;
    let hd = Some("Header discount"@);
    lemma_added(n2, keys::PURCHASE_PRICE_VARIANCE@, negated(f.discounts), hd);
    lemma_role_added(n2, keys::PURCHASE_PRICE_VARIANCE@, negated(f.discounts), hd, role);
    let n3 = added(n2, keys::PURCHASE_PRICE_VARIANCE@, negated(f.discounts), hd)->0;
    lemma_added(n3, keys::AP@, negated(f.payable), None);
    lemma_role_added(n3, keys::AP@, negated(f.payable), None, role);
    let n4 = added(n3, keys::AP@, negated(f.payable), None)->0;
    lemma_added(n4, keys::ROUNDING@, negated(f.gap), None);
    lemma_role_added(n4, keys::ROUNDING@, negated(f.gap), None, role);
    let n5 = added(n4, keys::ROUNDING@, negated(f.gap), None)->0;
    assert(invoice_nets(f, supplier_no) == Some(n5));
    lemma_finished_role(n5, role, n5.len());
}

proof fn lemma_roles_differ()
    ensures
        keys::GRNI@ != keys::OPEX@,
        keys::GRNI@ != keys::PURCHASE_PRICE_VARIANCE@,
        keys::GRNI@ != keys::AP@,
        keys::GRNI@ != keys::ROUNDING@,
        keys::OPEX@ != keys::PURCHASE_PRICE_VARIANCE@,
        keys::OPEX@ != keys::AP@,
        keys::OPEX@ != keys::ROUNDING@,
        keys::PURCHASE_PRICE_VARIANCE@ != keys::AP@,
        keys::PURCHASE_PRICE_VARIANCE@ != keys::ROUNDING@,
        keys::AP@ != keys::ROUNDING@,
{
    reveal_strlit("grni");
    reveal_strlit("opex");
    reveal_strlit("purchase_price_variance");
    reveal_strlit("ap");
    reveal_strlit("rounding");
    assert(keys::GRNI@[0] == 'g');
    assert(keys::OPEX@[0] == 'o');
    assert(keys::PURCHASE_PRICE_VARIANCE@[0] == 'p');
    assert(keys::AP@[0] == 'a');
    assert(keys::ROUNDING@[0] == 'r');
}

/// The entry of an invoice says what the invoice says. The supplier is owed its
/// total at the rate, to the cent: the lines at their order prices, less the
/// percentage of them and the amount that are taken off, and the charges. What
/// was received is cleared at what it was received at, the charges are an
/// expense, what is taken off is a variance, and rounding holds what is left.
pub proof fn suppliers_are_owed_what_they_invoiced(
    inv: PurchaseInvoice,
    order: Option<OrderRef>,
    lines: Seq<InvoiceLine>,
)
    requires
        invoice_lines(inv, order, lines, false) is Ok,
        ordinary(inv, lines),
    ensures
        ({
            let entry = invoice_lines(inv, order, lines, false)->Ok_0;
            let rate = inv.exchange_rate@;
            let owed = converted(cents(due(inv, lines)), rate);
            let received = worth_of(line_values(lines, rate));
            let charges = converted(or_zero(inv.other_charges), rate);
            let off = converted(millionths(taken_off(inv, lines)), rate);
            &&& role_effect_to(entry, keys::AP@, entry.len()) == -owed
            &&& role_effect_to(entry, keys::GRNI@, entry.len()) == received
            &&& role_effect_to(entry, keys::OPEX@, entry.len()) == charges
            &&& role_effect_to(entry, keys::PURCHASE_PRICE_VARIANCE@, entry.len()) == -off
            &&& role_effect_to(entry, keys::ROUNDING@, entry.len()) == owed - received - charges
                + off
        }),
{
    lemma_figures(inv, order, lines);
    let sums = billed_to(lines, inv.exchange_rate@, lines.len())->Ok_0;
    let f = figures_of(inv, sums.0, sums.1)->0;
    let no = inv.supplier_invoice_no@;
    lemma_roles_differ();
    lemma_roles(f, no, keys::AP@);
    lemma_roles(f, no, keys::GRNI@);
    lemma_roles(f, no, keys::OPEX@);
    lemma_roles(f, no, keys::PURCHASE_PRICE_VARIANCE@);
    lemma_roles(f, no, keys::ROUNDING@);
}

/// At a rate of one an amount in cents is converted to itself.
proof fn lemma_at_par(n: Num, rate: Num)
    requires
        worth(rate) == pow10(max_places()),
        n.1 <= kept_places(),
        n.1 + rate.1 <= max_places(),
        abs(n.0 * rate.0) < limit(),
        worth(n) % pow10(26) == 0,
    ensures
        converted(n, rate) == worth(n),
{
    let k = pow10(max_places());
    lemma_pow10_positive(max_places());
    lemma_product_worth(n, rate);
    lemma_worth_sign(n);
    lemma_worth_sign(rate);
    lemma_worth_sign(zero());
    let x = n.0;
    let r = rate.0;
    let q: Num = (x * r, n.1 + rate.1);
    if x == 0 {
        assert(x * r == 0) by (nonlinear_arith)
            requires
                x == 0,
        ;
        lemma_worth_sign(q);
    }
    let w = worth(q);
    let v = worth(n);
    assert(w == worth(times(n, rate)->0));
    assert(w == v) by (nonlinear_arith)
        requires
            w * k == v * k,
            k >= 1,
    ;
    lemma_rounded_multiple(q, 2);
}

/// Whether the price of a billed line is one that its product with the quantity can
/// be held exactly, at a rate as without one.
pub open spec fn plainly_priced(l: InvoiceLine, rate: Num) -> bool {
    let price = l.order_price->0@;
    &&& price.1 <= kept_places()
    &&& l.qty@.1 <= max_places()
    &&& multiplies(price, rate)
    &&& multiplies(l.qty@, price)
    &&& multiplies(l.qty@, rounded(times(price, rate)->0, 6))
}

/// At a rate of one a line is received at what it comes to.
proof fn lemma_line_at_par(lines: Seq<InvoiceLine>, rate: Num, n: nat)
    requires
        worth(rate) == pow10(max_places()),
        rate.1 <= max_places(),
        n <= lines.len(),
        forall|i: int| 0 <= i < lines.len() ==> plainly_priced(#[trigger] lines[i], rate),
    ensures
        worth_to(line_values(lines, rate), n) == worth_to(line_amounts(lines), n),
    decreases n,
{
    if n > 0 {
        lemma_line_at_par(lines, rate, (n - 1) as nat);
        let l = lines[n - 1];
        let price = l.order_price->0@;
        let k = pow10(max_places());
        lemma_pow10_positive(max_places());
        lemma_product_worth(price, rate);
        let p = times(price, rate)->0;
        let a = worth(p);
        let b = worth(price);
        assert(a == b) by (nonlinear_arith)
            requires
                a * k == b * k,
                k >= 1,
        ;
        lemma_rounded_worth(p, price, 6);
        let unit = rounded(p, 6);
        assert(worth(unit) == worth(price));
        lemma_product_worth(l.qty@, unit);
        lemma_product_worth(l.qty@, price);
        let x = times(l.qty@, unit)->0;
        let y = times(l.qty@, price)->0;
        let c = worth(x);
        let d = worth(y);
        assert(c == d) by (nonlinear_arith)
            requires
                c * k == d * k,
                k >= 1,
        ;
        lemma_rounded_worth(x, y, 2);
    }
}

proof fn lemma_role_absent(
    net: Seq<Net>,
    role: Seq<char>,
    amount: Num,
    memo: Option<Seq<char>>,
    other: Seq<char>,
)
    requires
        forall|i: int| 0 <= i < net.len() ==> (#[trigger] net[i]).role != other,
        role != other || amount.0 == 0,
    ensures
        added(net, role, amount, memo) matches Some(after) ==> forall|i: int|
            0 <= i < after.len() ==> (#[trigger] after[i]).role != other,
{
    lemma_first_from(net, with_role(role), 0);
}

proof fn lemma_line_absent(net: Seq<Net>, other: Seq<char>, n: nat)
    requires
        n <= net.len(),
        forall|i: int| 0 <= i < net.len() ==> (#[trigger] net[i]).role != other,
    ensures
        forall|i: int|
            0 <= i < finished_to(net, n).len() ==> (#[trigger] finished_to(net, n)[i]).role
                != other,
    decreases n,
{
    if n > 0 {
        lemma_line_absent(net, other, (n - 1) as nat);
    }
}

/// Without a gap there is no rounding line.
proof fn lemma_no_rounding(f: Figures, supplier_no: Seq<char>)
    requires
        f.gap.0 == 0,
        invoice_nets(f, supplier_no) is Some,
    ensures
        ({
            let entry = finished(invoice_nets(f, supplier_no)->0);
            forall|i: int| 0 <= i < entry.len() ==> (#[trigger] entry[i]).role != keys::ROUNDING@
        }),
{
    let other = keys::ROUNDING@;
    lemma_roles_differ();
    let none = Seq::<Net>::empty();
    let on = Some("Other charges on "@ + supplier_no);
    let hd = Some("Header discount"@);
    lemma_role_absent(none, keys::GRNI@, f.goods, None, other);
    let n1 = added(none, keys::GRNI@, f.goods, None)->0;
    lemma_role_absent(n1, keys::OPEX@, f.charges, on, other);
    let n2 = added(n1, keys::OPEX@, f.charges, on)->0;
    lemma_role_absent(n2, keys::PURCHASE_PRICE_VARIANCE@, negated(f.discounts), hd, other);
    let n3 = added(n2, keys::PURCHASE_PRICE_VARIANCE@, negated(f.discounts), hd)->0;
    lemma_role_absent(n3, keys::AP@, negated(f.payable), None, other);
    let n4 = added(n3, keys::AP@, negated(f.payable), None)->0;
    lemma_role_absent(n4, keys::ROUNDING@, negated(f.gap), None, other);
    let n5 = added(n4, keys::ROUNDING@, negated(f.gap), None)->0;
    lemma_line_absent(n5, other, n5.len());
}

/// The sum of amounts in cents is in cents.
proof fn lemma_sum_in_cents(s: Seq<Num>, n: nat)
    requires
        n <= s.len(),
        forall|i: int| 0 <= i < s.len() ==> (#[trigger] s[i]).1 <= 2,
    ensures
        worth_to(s, n) % pow10(26) == 0,
    decreases n,
{
    lemma_pow10_positive(26);
    if n == 0 {
        vstd::arithmetic::div_mod::lemma_small_mod(0, pow10(26) as nat);
    } else {
        lemma_sum_in_cents(s, (n - 1) as nat);
        lemma_two_places_are_cents(s[n - 1]);
        lemma_multiples_add(worth_to(s, (n - 1) as nat), worth(s[n - 1]), pow10(26));
    }
}

/// In base currency nothing is rounded away: an invoice at a rate of one whose order
/// prices carry at most six places, and whose discount and charges are in cents,
/// owes the supplier exactly its lines less what is taken off plus the charges, and
/// its entry has no rounding line.
pub proof fn invoices_at_par_need_no_rounding(
    inv: PurchaseInvoice,
    order: Option<OrderRef>,
    lines: Seq<InvoiceLine>,
)
    requires
        invoice_lines(inv, order, lines, false) is Ok,
        ordinary(inv, lines),
        worth(inv.exchange_rate@) == pow10(max_places()),
        forall|i: int|
            0 <= i < lines.len() ==> plainly_priced(#[trigger] lines[i], inv.exchange_rate@),
        in_cents(or_zero(inv.discount_amount)),
        in_cents(or_zero(inv.other_charges)),
    ensures
        ({
            let entry = invoice_lines(inv, order, lines, false)->Ok_0;
            &&& role_effect_to(entry, keys::AP@, entry.len()) == -(invoiced(lines) - taken_off(
                inv,
                lines,
            ) + worth(or_zero(inv.other_charges)))
            &&& role_effect_to(entry, keys::GRNI@, entry.len()) == invoiced(lines)
            &&& role_effect_to(entry, keys::OPEX@, entry.len()) == worth(or_zero(inv.other_charges))
            &&& role_effect_to(entry, keys::PURCHASE_PRICE_VARIANCE@, entry.len()) == -taken_off(
                inv,
                lines,
            )
            &&& forall|i: int|
                0 <= i < entry.len() ==> (#[trigger] entry[i]).role != keys::ROUNDING@
        }),
{
    let rate = inv.exchange_rate@;
    let amount = or_zero(inv.discount_amount);
    let charges = or_zero(inv.other_charges);
    suppliers_are_owed_what_they_invoiced(inv, order, lines);
    lemma_figures(inv, order, lines);
    let sums = billed_to(lines, rate, lines.len())->Ok_0;
    let f = figures_of(inv, sums.0, sums.1)->0;
    lemma_roles(f, inv.supplier_invoice_no@, keys::ROUNDING@);
    lemma_line_at_par(lines, rate, lines.len());
    let u = pow10(26);
    lemma_pow10_positive(26);
    let s = invoiced(lines);
    let off = taken_off(inv, lines);
    let w = s - off + worth(charges);
    lemma_sum_in_cents(line_amounts(lines), lines.len());
    lemma_two_places_are_cents(percent_off(inv, lines));
    lemma_multiples_add(worth(percent_off(inv, lines)), worth(amount), u);
    lemma_multiple_negated(off, u);
    lemma_multiples_add(s, -off, u);
    lemma_multiples_add(s - off, worth(charges), u);
    lemma_sixths(w);
    lemma_sixths(off);
    lemma_rounded_multiple(millionths(w), 2);
    assert(due(inv, lines) == w);
    lemma_at_par(charges, rate);
    lemma_at_par(millionths(off), rate);
    lemma_at_par(cents(w), rate);
    lemma_worth_sign(f.gap);
    lemma_no_rounding(f, inv.supplier_invoice_no@);
}

/// A number of whole cents has six places, and two.
proof fn lemma_sixths(w: int)
    requires
        w % pow10(26) == 0,
    ensures
        worth(millionths(w)) == w,
        worth(cents(w)) == w,
{
    let u = pow10(26);
    lemma_pow10_positive(26);
    vstd::arithmetic::div_mod::lemma_fundamental_div_mod(w, u);
    let k = w / u;
    lemma_pow10_adds(4, 22);
    let g = pow10(4);
    let h = pow10(22);
    lemma_pow10_positive(22);
    assert(w == k * u) by (nonlinear_arith)
        requires
            w == u * k,
    ;
    assert(w == (k * g) * h + 0) by (nonlinear_arith)
        requires
            w == k * u,
            u == g * h,
    ;
    vstd::arithmetic::div_mod::lemma_fundamental_div_mod_converse(w, h, k * g, 0);
}

} // verus!
