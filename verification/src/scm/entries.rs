//! What an entry looks like that is built booking by booking: one line for each
//! role that does not net to zero, and as much debited as credited.

use super::gl::{
    added, finished, finished_to, imbalance, lemma_imbalance_prefix, lemma_multiple_negated,
    lemma_multiples_add, lemma_sums_agree, lemma_sums_update, line_of, net_sum, net_sum_to,
    with_role, Booked, Net,
};
use crate::decimal::{max_places, negated, plus, pow10, worth, zero, Num};
use crate::search::{first_from, keys_differ, lemma_changed_key, lemma_first_from, lemma_new_key};
use crate::sums::{
    exact_sum, lemma_pow10_positive, lemma_rounded_multiple, lemma_worth_negated, lemma_worth_sign,
};
use vstd::prelude::*;

verus! {

/// A booking: an amount that is debited to a role, or credited where it is
/// negative.
pub struct Booking {
    pub role: Seq<char>,
    pub amount: Num,
    pub memo: Option<Seq<char>>,
}

/// The nets after the first `n` bookings; `None` where a sum leaves the range.
pub open spec fn built_to(bookings: Seq<Booking>, n: nat) -> Option<Seq<Net>>
    decreases n,
{
    if n == 0 {
        Some(Seq::empty())
    } else {
        let b = bookings[n - 1];
        match built_to(bookings, (n - 1) as nat) {
            None => None,
            Some(net) => added(net, b.role, b.amount, b.memo),
        }
    }
}

/// The lines that bookings become.
pub open spec fn built(bookings: Seq<Booking>) -> Option<Seq<Booked>> {
    match built_to(bookings, bookings.len()) {
        Some(net) => Some(finished(net)),
        None => None,
    }
}

/// What the first `n` bookings bring a role: debits less credits.
pub open spec fn brought_to(bookings: Seq<Booking>, role: Seq<char>, n: nat) -> int
    decreases n,
{
    if n == 0 {
        0
    } else {
        brought_to(bookings, role, (n - 1) as nat) + if bookings[n - 1].role == role {
            worth(bookings[n - 1].amount)
        } else {
            0
        }
    }
}

/// What bookings bring a role: debits less credits.
pub open spec fn brought(bookings: Seq<Booking>, role: Seq<char>) -> int {
    brought_to(bookings, role, bookings.len())
}

/// What the first `n` bookings debit, less what they credit.
pub open spec fn surplus_to(bookings: Seq<Booking>, n: nat) -> int
    decreases n,
{
    if n == 0 {
        0
    } else {
        surplus_to(bookings, (n - 1) as nat) + worth(bookings[n - 1].amount)
    }
}

/// What bookings debit, less what they credit.
pub open spec fn surplus(bookings: Seq<Booking>) -> int {
    surplus_to(bookings, bookings.len())
}

/// The first booking of something to a role.
pub open spec fn first_booking(bookings: Seq<Booking>, role: Seq<char>) -> Option<int> {
    first_from(bookings, books_to(role), 0)
}

pub open spec fn books_to(role: Seq<char>) -> spec_fn(Booking) -> bool {
    |b: Booking| b.role == role && b.amount.0 != 0
}

/// Whether a number comes to whole cents.
pub open spec fn whole_cents(n: Num) -> bool {
    n.1 <= max_places() && worth(n) % pow10(26) == 0
}

/// Whether the amounts are whole cents and are added up without rounding.
pub open spec fn builds_exactly(bookings: Seq<Booking>) -> bool {
    forall|i: int|
        0 <= i < bookings.len() ==> {
            let b = #[trigger] bookings[i];
            &&& whole_cents(b.amount)
            &&& built_to(bookings, i as nat) matches Some(net) ==> (match first_from(
                net,
                with_role(b.role),
                0,
            ) {
                Some(j) => exact_sum(net[j].amount, b.amount),
                None => true,
            })
        }
}

pub open spec fn net_role() -> spec_fn(Net) -> Seq<char> {
    |n: Net| n.role
}

pub open spec fn line_role() -> spec_fn(Booked) -> Seq<char> {
    |l: Booked| l.role
}

/// Whether a net is what the first `n` bookings bring its role, under the memo of
/// the first one.
spec fn is_net(net: Net, bookings: Seq<Booking>, n: nat) -> bool {
    let first = first_booking(bookings, net.role);
    &&& whole_cents(net.amount)
    &&& worth(net.amount) == brought_to(bookings, net.role, n)
    &&& first is Some
    &&& 0 <= first->0 < n
    &&& net.memo == bookings[first->0].memo
}

/// What holds of the nets after the first `n` bookings.
#[verifier::opaque]
spec fn are_nets(net: Seq<Net>, bookings: Seq<Booking>, n: nat) -> bool {
    &&& keys_differ(net, net_role())
    &&& net_sum(net) == surplus_to(bookings, n)
    &&& forall|j: int| 0 <= j < net.len() ==> is_net(#[trigger] net[j], bookings, n)
    &&& forall|j: int, k: int|
        0 <= j < k < net.len() ==> first_booking(bookings, (#[trigger] net[j]).role)->0
            < first_booking(bookings, (#[trigger] net[k]).role)->0
    &&& forall|i: int|
        0 <= i < n && (#[trigger] bookings[i]).amount.0 != 0 ==> first_from(
            net,
            with_role(bookings[i].role),
            0,
        ) is Some
}

/// A role that nothing was booked to is brought nothing.
proof fn lemma_brought_nothing(bookings: Seq<Booking>, role: Seq<char>, n: nat)
    requires
        n <= bookings.len(),
        forall|i: int| 0 <= i < n ==> !books_to(role)(#[trigger] bookings[i]),
    ensures
        brought_to(bookings, role, n) == 0,
    decreases n,
{
    if n > 0 {
        lemma_brought_nothing(bookings, role, (n - 1) as nat);
        assert(!books_to(role)(bookings[n - 1]));
        lemma_worth_sign(bookings[n - 1].amount);
    }
}

/// A role that has a net keeps it when another net is added or changed.
proof fn lemma_still_there(net: Seq<Net>, after: Seq<Net>, role: Seq<char>)
    requires
        first_from(net, with_role(role), 0) is Some,
        net.len() <= after.len(),
        forall|j: int| 0 <= j < net.len() ==> (#[trigger] after[j]).role == net[j].role,
    ensures
        first_from(after, with_role(role), 0) is Some,
{
    lemma_first_from(net, with_role(role), 0);
    lemma_first_from(after, with_role(role), 0);
    let j = first_from(net, with_role(role), 0)->0;
    assert(with_role(role)(after[j]));
}

proof fn lemma_added_to(bookings: Seq<Booking>, net: Seq<Net>, j: int, n: nat)
    requires
        n < bookings.len(),
        builds_exactly(bookings),
        built_to(bookings, n) == Some(net),
        are_nets(net, bookings, n),
        bookings[n as int].amount.0 != 0,
        first_from(net, with_role(bookings[n as int].role), 0) == Some(j),
    ensures
        built_to(bookings, n + 1) matches Some(after) && are_nets(after, bookings, n + 1),
{
    reveal(are_nets);
    let b = bookings[n as int];
    lemma_first_from(net, with_role(b.role), 0);
    let sum = plus(net[j].amount, b.amount)->0;
    assert(is_net(net[j], bookings, n));
    assert(exact_sum(net[j].amount, b.amount));
    lemma_pow10_positive(26);
    lemma_multiples_add(worth(net[j].amount), worth(b.amount), pow10(26));
    let x = Net { amount: sum, ..net[j] };
    let after = net.update(j, x);
    assert(built_to(bookings, n + 1) == Some(after));
    lemma_sums_update(net, j, x, net.len());
    assert forall|k: int| 0 <= k < net.len() && k != j implies net_role()(#[trigger] net[k])
        != net_role()(x) by {
        if k < j {
            assert(net_role()(net[k]) != net_role()(net[j]));
        } else {
            assert(net_role()(net[j]) != net_role()(net[k]));
        }
    }
    lemma_changed_key(net, net_role(), j, x);
    assert forall|k: int| 0 <= k < after.len() implies is_net(
        #[trigger] after[k],
        bookings,
        n + 1,
    ) by {
        assert(is_net(net[k], bookings, n));
        if k != j {
            assert(net_role()(net[k]) != net_role()(x));
        }
    }
    assert forall|k: int, l: int| 0 <= k < l < after.len() implies first_booking(
        bookings,
        (#[trigger] after[k]).role,
    )->0 < first_booking(bookings, (#[trigger] after[l]).role)->0 by {
        assert(after[k].role == net[k].role && after[l].role == net[l].role);
    }
    assert forall|i: int| 0 <= i < n + 1 && (#[trigger] bookings[i]).amount.0 != 0 implies first_from(
        after,
        with_role(bookings[i].role),
        0,
    ) is Some by {
        lemma_still_there(net, after, bookings[i].role);
    }
}

/// A role without a net is first booked to now.
proof fn lemma_first_now(bookings: Seq<Booking>, net: Seq<Net>, n: nat)
    requires
        n < bookings.len(),
        forall|i: int|
            0 <= i < n && (#[trigger] bookings[i]).amount.0 != 0 ==> first_from(
                net,
                with_role(bookings[i].role),
                0,
            ) is Some,
        bookings[n as int].amount.0 != 0,
        first_from(net, with_role(bookings[n as int].role), 0) is None,
    ensures
        brought_to(bookings, bookings[n as int].role, n) == 0,
        first_booking(bookings, bookings[n as int].role) == Some(n as int),
{
    let b = bookings[n as int];
    assert forall|i: int| 0 <= i < n implies !books_to(b.role)(#[trigger] bookings[i]) by {
        if books_to(b.role)(bookings[i]) {
            assert(first_from(net, with_role(bookings[i].role), 0) is Some);
        }
    }
    lemma_brought_nothing(bookings, b.role, n);
    lemma_first_from(bookings, books_to(b.role), 0);
    assert(books_to(b.role)(bookings[n as int]));
}

proof fn lemma_added_new(bookings: Seq<Booking>, net: Seq<Net>, n: nat)
    requires
        n < bookings.len(),
        builds_exactly(bookings),
        built_to(bookings, n) == Some(net),
        are_nets(net, bookings, n),
        bookings[n as int].amount.0 != 0,
        first_from(net, with_role(bookings[n as int].role), 0) is None,
    ensures
        built_to(bookings, n + 1) matches Some(after) && are_nets(after, bookings, n + 1),
{
    reveal(are_nets);
    let b = bookings[n as int];
    let x = Net { role: b.role, amount: b.amount, memo: b.memo };
    let after = net.push(x);
    lemma_first_from(net, with_role(b.role), 0);
    assert(built_to(bookings, n + 1) == Some(after));
    assert(after.take(net.len() as int) =~= net);
    lemma_sums_agree(after, net, net.len());
    assert forall|k: int| 0 <= k < net.len() implies net_role()(#[trigger] net[k]) != net_role()(
        x,
    ) by {
        assert(!with_role(b.role)(net[k]));
    }
    lemma_new_key(net, net_role(), x);
    lemma_first_now(bookings, net, n);
    assert forall|k: int| 0 <= k < after.len() implies is_net(
        #[trigger] after[k],
        bookings,
        n + 1,
    ) by {
        if k < net.len() {
            assert(is_net(net[k], bookings, n));
            assert(net_role()(net[k]) != net_role()(x));
        }
    }
    assert forall|k: int, l: int| 0 <= k < l < after.len() implies first_booking(
        bookings,
        (#[trigger] after[k]).role,
    )->0 < first_booking(bookings, (#[trigger] after[l]).role)->0 by {
        assert(is_net(net[k], bookings, n));
        if l < net.len() {
            assert(after[k] == net[k] && after[l] == net[l]);
        }
    }
    assert forall|i: int| 0 <= i < n + 1 && (#[trigger] bookings[i]).amount.0 != 0 implies first_from(
        after,
        with_role(bookings[i].role),
        0,
    ) is Some by {
        if i < n {
            lemma_still_there(net, after, bookings[i].role);
        } else {
            lemma_first_from(after, with_role(b.role), 0);
            assert(with_role(b.role)(after[net.len() as int]));
        }
    }
}

proof fn lemma_added_nothing(bookings: Seq<Booking>, net: Seq<Net>, n: nat)
    requires
        n < bookings.len(),
        built_to(bookings, n) == Some(net),
        are_nets(net, bookings, n),
        bookings[n as int].amount.0 == 0,
    ensures
        built_to(bookings, n + 1) == Some(net),
        are_nets(net, bookings, n + 1),
{
    reveal(are_nets);
    lemma_worth_sign(bookings[n as int].amount);
    assert forall|j: int| 0 <= j < net.len() implies is_net(#[trigger] net[j], bookings, n + 1) by {
        assert(is_net(net[j], bookings, n));
    }
}

proof fn lemma_built(bookings: Seq<Booking>, n: nat)
    requires
        builds_exactly(bookings),
        n <= bookings.len(),
    ensures
        built_to(bookings, n) matches Some(net) && are_nets(net, bookings, n),
    decreases n,
{
    if n > 0 {
        let m = (n - 1) as nat;
        lemma_built(bookings, m);
        let net = built_to(bookings, m)->0;
        let b = bookings[n - 1];
        if b.amount.0 == 0 {
            lemma_added_nothing(bookings, net, m);
        } else {
            match first_from(net, with_role(b.role), 0) {
                Some(j) => {
                    lemma_added_to(bookings, net, j, m);
                },
                None => {
                    lemma_added_new(bookings, net, m);
                },
            }
        }
    } else {
        reveal(are_nets);
    }
}

/// Each line is that of a net that is not zero, behind as many lines as such nets
/// stand before it.
proof fn lemma_finished_places(net: Seq<Net>, n: nat)
    requires
        n <= net.len(),
    ensures
        forall|k: int|
            0 <= k < finished_to(net, n).len() ==> exists|i: int|
                0 <= i < n && (#[trigger] net[i]).amount.0 != 0 && line_of(net[i]) == (
                #[trigger] finished_to(net, n)[k]) && finished_to(net, i as nat).len() == k,
    decreases n,
{
    if n > 0 {
        lemma_finished_places(net, (n - 1) as nat);
        let rest = finished_to(net, (n - 1) as nat);
        let all = finished_to(net, n);
        assert forall|k: int| 0 <= k < all.len() implies exists|i: int|
            0 <= i < n && (#[trigger] net[i]).amount.0 != 0 && line_of(net[i]) == (
            #[trigger] all[k]) && finished_to(net, i as nat).len() == k by {
            if k < rest.len() {
                assert(all[k] == rest[k]);
                let i = choose|i: int|
                    0 <= i < n - 1 && (#[trigger] net[i]).amount.0 != 0 && line_of(net[i])
                        == rest[k] && finished_to(net, i as nat).len() == k;
                assert(line_of(net[i]) == all[k]);
            } else {
                assert(line_of(net[n - 1]) == all[k]);
            }
        }
    }
}

proof fn lemma_finished_grows(net: Seq<Net>, i: nat, n: nat)
    requires
        i <= n <= net.len(),
    ensures
        finished_to(net, i).len() <= finished_to(net, n).len(),
    decreases n,
{
    if i < n {
        lemma_finished_grows(net, i, (n - 1) as nat);
    }
}

/// A net that is not zero has its line.
proof fn lemma_finished_at(net: Seq<Net>, i: int, n: nat)
    requires
        0 <= i < n <= net.len(),
        net[i].amount.0 != 0,
    ensures
        finished_to(net, i as nat).len() < finished_to(net, n).len(),
        finished_to(net, n)[finished_to(net, i as nat).len() as int] == line_of(net[i]),
    decreases n,
{
    if i < n - 1 {
        lemma_finished_at(net, i, (n - 1) as nat);
    }
}

/// What a line of whole cents says is what its net is worth.
proof fn lemma_line(n: Net)
    requires
        whole_cents(n.amount),
    ensures
        worth(n.amount) > 0 ==> worth(line_of(n).debit) == worth(n.amount) && line_of(n).credit
            == zero(),
        worth(n.amount) < 0 ==> worth(line_of(n).credit) == -worth(n.amount) && line_of(n).debit
            == zero(),
        worth(line_of(n).debit) - worth(line_of(n).credit) == worth(n.amount),
{
    lemma_worth_sign(n.amount);
    lemma_worth_sign(zero());
    lemma_worth_negated(n.amount);
    lemma_pow10_positive(26);
    lemma_multiple_negated(worth(n.amount), pow10(26));
    lemma_rounded_multiple(n.amount, 2);
    lemma_rounded_multiple(negated(n.amount), 2);
}

proof fn lemma_lines_net(net: Seq<Net>, n: nat)
    requires
        n <= net.len(),
        forall|j: int| 0 <= j < net.len() ==> whole_cents((#[trigger] net[j]).amount),
    ensures
        imbalance(finished_to(net, n)) == net_sum_to(net, n),
    decreases n,
{
    if n > 0 {
        lemma_lines_net(net, (n - 1) as nat);
        let rest = finished_to(net, (n - 1) as nat);
        lemma_worth_sign(net[n - 1].amount);
        if net[n - 1].amount.0 != 0 {
            let all = rest.push(line_of(net[n - 1]));
            lemma_imbalance_prefix(all, rest, rest.len());
            lemma_line(net[n - 1]);
        }
    }
}

/// Whether a line is that of a role: under the memo of the first booking to it,
/// on the side of what the bookings bring it, and by that much.
pub open spec fn is_line_of_role(line: Booked, bookings: Seq<Booking>) -> bool {
    let net = brought(bookings, line.role);
    let first = first_booking(bookings, line.role);
    &&& first is Some
    &&& line.memo == bookings[first->0].memo
    &&& net != 0
    &&& net > 0 ==> worth(line.debit) == net && line.credit == zero()
    &&& net < 0 ==> worth(line.credit) == -net && line.debit == zero()
}

/// An entry that is built of bookings in cents, as many debited as credited, has
/// one line for each role that does not net to zero and none for another, in the
/// order of the roles' first bookings and under their memos, each on the side
/// and by the amount that the role nets to; and it balances.
pub proof fn entries_have_one_line_per_role(bookings: Seq<Booking>)
    requires
        builds_exactly(bookings),
        surplus(bookings) == 0,
    ensures
        built(bookings) matches Some(lines) && {
            &&& forall|k: int|
                0 <= k < lines.len() ==> is_line_of_role(#[trigger] lines[k], bookings)
            &&& forall|k: int, l: int|
                0 <= k < l < lines.len() ==> first_booking(bookings, (#[trigger] lines[k]).role)->0
                    < first_booking(bookings, (#[trigger] lines[l]).role)->0
            &&& keys_differ(lines, line_role())
            &&& forall|role: Seq<char>| #[trigger]
                brought(bookings, role) != 0 ==> exists|k: int|
                    0 <= k < lines.len() && (#[trigger] lines[k]).role == role
            &&& imbalance(lines) == 0
        },
{
    reveal(are_nets);
    let n = bookings.len();
    lemma_built(bookings, n);
    let net = built_to(bookings, n)->0;
    let lines = finished(net);
    lemma_finished_places(net, net.len());
    assert forall|j: int| 0 <= j < net.len() implies whole_cents((#[trigger] net[j]).amount) by {
        assert(is_net(net[j], bookings, n));
    }
    lemma_lines_net(net, net.len());
    assert forall|k: int| 0 <= k < lines.len() implies is_line_of_role(
        #[trigger] lines[k],
        bookings,
    ) by {
        let i = choose|i: int|
            0 <= i < net.len() && (#[trigger] net[i]).amount.0 != 0 && line_of(net[i]) == lines[k]
                && finished_to(net, i as nat).len() == k;
        assert(is_net(net[i], bookings, n));
        lemma_line(net[i]);
        lemma_worth_sign(net[i].amount);
    }
    assert forall|k: int, l: int| 0 <= k < l < lines.len() implies first_booking(
        bookings,
        (#[trigger] lines[k]).role,
    )->0 < first_booking(bookings, (#[trigger] lines[l]).role)->0 by {
        let i = choose|i: int|
            0 <= i < net.len() && (#[trigger] net[i]).amount.0 != 0 && line_of(net[i]) == lines[k]
                && finished_to(net, i as nat).len() == k;
        let j = choose|j: int|
            0 <= j < net.len() && (#[trigger] net[j]).amount.0 != 0 && line_of(net[j]) == lines[l]
                && finished_to(net, j as nat).len() == l;
        if j <= i {
            lemma_finished_grows(net, j as nat, i as nat);
        }
        assert(lines[k].role == net[i].role && lines[l].role == net[j].role);
    }
    assert forall|k: int, l: int| 0 <= k < l < lines.len() implies line_role()(#[trigger] lines[k])
        != line_role()(#[trigger] lines[l]) by {
        assert(first_booking(bookings, lines[k].role)->0 < first_booking(
            bookings,
            lines[l].role,
        )->0);
    }
    assert forall|role: Seq<char>| #[trigger] brought(bookings, role) != 0 implies exists|k: int|
        0 <= k < lines.len() && (#[trigger] lines[k]).role == role by {
        lemma_first_from(bookings, books_to(role), 0);
        if first_booking(bookings, role) is None {
            lemma_brought_nothing(bookings, role, n);
        }
        let b = bookings[first_booking(bookings, role)->0];
        assert(books_to(role)(b));
        lemma_first_from(net, with_role(role), 0);
        let j = first_from(net, with_role(role), 0)->0;
        assert(is_net(net[j], bookings, n));
        lemma_worth_sign(net[j].amount);
        lemma_finished_at(net, j, net.len());
        assert(lines[finished_to(net, j as nat).len() as int].role == role);
    }
}

} // verus!
