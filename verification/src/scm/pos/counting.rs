//! What an accepted count of a session says: every tender that took money is
//! counted, once, and a difference is explained.

use super::close::{
    count_of, counting_refusal, counts_refusal, kept_count, kept_counts, provided, CountFacts,
    CountInput, Expected,
};
use super::sale::is_tender;
use crate::decimal::{max_places, pow10, rounded, worth, zero, Num};
use crate::search::{first_from, lemma_first_from};
use crate::sums::lemma_worth_sign;
use crate::text::trimmed_unless_blank;
use vstd::prelude::*;

verus! {

/// What a tender should hold.
pub open spec fn expected_of(e: Expected, tender: Seq<char>) -> Num {
    if tender == "cash"@ {
        e.cash
    } else if tender == "mpesa"@ {
        e.mpesa
    } else {
        e.card
    }
}

proof fn lemma_tenders_differ()
    ensures
        "cash"@ != "mpesa"@,
        "cash"@ != "card"@,
        "mpesa"@ != "card"@,
{
    reveal_strlit("cash");
    reveal_strlit("mpesa");
    reveal_strlit("card");
    assert("cash"@.len() == 4 && "card"@.len() == 4 && "mpesa"@.len() == 5);
    assert("cash"@[2] == 's' && "card"@[2] == 'r');
}

proof fn lemma_good_counts(counts: Seq<CountInput>, n: nat)
    requires
        n <= counts.len(),
        counts_refusal(counts, n) is None,
    ensures
        forall|i: int|
            0 <= i < n ==> is_tender((#[trigger] counts[i]).tender@) && counts[i].counted@.0 >= 0,
        forall|i: int, j: int|
            0 <= i < j < n ==> (#[trigger] counts[i]).tender@ != (#[trigger] counts[j]).tender@,
    decreases n,
{
    if n > 0 {
        lemma_good_counts(counts, (n - 1) as nat);
        let before = counts.take(n - 1);
        let p = count_of(counts[n - 1].tender@);
        lemma_first_from(before, p, 0);
        assert forall|i: int| 0 <= i < n - 1 implies (#[trigger] counts[i]).tender@ != counts[n
            - 1].tender@ by {
            assert(before[i] == counts[i]);
            assert(!p(before[i]));
        }
    }
}

proof fn lemma_counts_accepted(counts: Seq<CountInput>, n: nat)
    requires
        n <= counts.len(),
        forall|i: int|
            0 <= i < counts.len() ==> is_tender((#[trigger] counts[i]).tender@)
                && counts[i].counted@.0 >= 0,
        forall|i: int, j: int|
            0 <= i < j < counts.len() ==> (#[trigger] counts[i]).tender@ != (
            #[trigger] counts[j]).tender@,
    ensures
        counts_refusal(counts, n) is None,
    decreases n,
{
    if n > 0 {
        lemma_counts_accepted(counts, (n - 1) as nat);
        let before = counts.take(n - 1);
        let p = count_of(counts[n - 1].tender@);
        lemma_first_from(before, p, 0);
        if let Some(i) = first_from(before, p, 0) {
            assert(before[i] == counts[i]);
        }
    }
}

/// What was counted of a tender that was counted once.
proof fn lemma_provided(counts: Seq<CountInput>, tender: Seq<char>)
    requires
        forall|i: int, j: int|
            0 <= i < j < counts.len() ==> (#[trigger] counts[i]).tender@ != (
            #[trigger] counts[j]).tender@,
    ensures
        forall|k: int|
            0 <= k < counts.len() && (#[trigger] counts[k]).tender@ == tender ==> provided(
                counts,
                tender,
            ) == Some(rounded(counts[k].counted@, 2)),
        provided(counts, tender) is None ==> forall|k: int|
            0 <= k < counts.len() ==> (#[trigger] counts[k]).tender@ != tender,
        provided(counts, tender) is Some ==> exists|k: int|
            0 <= k < counts.len() && (#[trigger] counts[k]).tender@ == tender,
{
    let p = count_of(tender);
    lemma_first_from(counts, p, 0);
    assert forall|k: int| 0 <= k < counts.len() && (#[trigger] counts[k]).tender@
        == tender implies provided(counts, tender) == Some(rounded(counts[k].counted@, 2)) by {
        assert(p(counts[k]));
        assert(first_from(counts, p, 0) == Some(k));
    }
    if let Some(k) = first_from(counts, p, 0) {
        assert(counts[k].tender@ == tender);
    } else {
        assert forall|k: int| 0 <= k < counts.len() implies (#[trigger] counts[k]).tender@
            != tender by {
            assert(!p(counts[k]));
        }
    }
}

/// Whether counts leave nothing unexplained: each is of a tender there is, none is
/// negative or made twice, a tender that should hold money is counted, and where a
/// count, to the cent, is not what is expected, or one that was not made is taken
/// for nothing, there is a note.
pub open spec fn explained(counts: Seq<CountInput>, note: Option<Seq<char>>, e: Expected) -> bool {
    &&& forall|i: int|
        0 <= i < counts.len() ==> is_tender((#[trigger] counts[i]).tender@)
            && counts[i].counted@.0 >= 0
    &&& forall|i: int, j: int|
        0 <= i < j < counts.len() ==> (#[trigger] counts[i]).tender@ != (
        #[trigger] counts[j]).tender@
    &&& forall|tender: Seq<char>|
        #[trigger] is_tender(tender) && expected_of(e, tender).0 != 0 ==> exists|k: int|
            0 <= k < counts.len() && (#[trigger] counts[k]).tender@ == tender
    &&& trimmed_unless_blank(note) is Some || forall|i: int|
        0 <= i < counts.len() ==> worth(rounded((#[trigger] counts[i]).counted@, 2)) == worth(
            expected_of(e, counts[i].tender@),
        )
}

/// A close is accepted exactly where its counts leave nothing unexplained.
pub proof fn closing_takes_an_explained_count(
    counts: Seq<CountInput>,
    note: Option<Seq<char>>,
    e: Expected,
)
    ensures
        counting_refusal(counts, note, e) is None <==> explained(counts, note, e),
{
    lemma_tenders_differ();
    lemma_worth_sign(zero());
    assert(is_tender("cash"@) && is_tender("mpesa"@) && is_tender("card"@));
    if counting_refusal(counts, note, e) is None {
        lemma_good_counts(counts, counts.len());
        lemma_provided(counts, "cash"@);
        lemma_provided(counts, "mpesa"@);
        lemma_provided(counts, "card"@);
        assert(explained(counts, note, e));
    }
    if explained(counts, note, e) {
        lemma_counts_accepted(counts, counts.len());
        lemma_provided(counts, "cash"@);
        lemma_provided(counts, "mpesa"@);
        lemma_provided(counts, "card"@);
        lemma_zero_worth(e.cash);
        lemma_zero_worth(e.mpesa);
        lemma_zero_worth(e.card);
    }
}

proof fn lemma_zero_worth(n: Num)
    ensures
        n.0 == 0 ==> worth(n) == worth(zero()),
{
    lemma_worth_sign(zero());
    if n.0 == 0 {
        assert(worth(n) == 0) by (nonlinear_arith)
            requires
                n.0 == 0,
                worth(n) == n.0 * pow10((max_places() - n.1) as nat),
        ;
    }
}

/// What is stored of an accepted count is what was counted, to the cent, beside what was
/// expected, for each tender that was counted; nothing is stored of a tender that
/// should hold nothing and held nothing, nor of another session.
pub proof fn counts_are_stored_as_they_were_made(
    session: u128,
    counts: Seq<CountInput>,
    note: Option<Seq<char>>,
    e: Expected,
)
    requires
        counting_refusal(counts, note, e) is None,
    ensures
        ({
            let kept = kept_counts(session, counts, e);
            &&& forall|k: int|
                0 <= k < counts.len() && (expected_of(e, (#[trigger] counts[k]).tender@).0 != 0
                    || rounded(counts[k].counted@, 2).0 != 0) ==> kept.contains(
                    CountFacts {
                        session_id: session,
                        tender: counts[k].tender@,
                        expected: expected_of(e, counts[k].tender@),
                        counted: rounded(counts[k].counted@, 2),
                    },
                )
            &&& forall|j: int|
                0 <= j < kept.len() ==> (#[trigger] kept[j]).session_id == session && is_tender(
                    kept[j].tender,
                ) && kept[j].expected == expected_of(e, kept[j].tender) && !(kept[j].expected.0 == 0
                    && kept[j].counted.0 == 0)
            &&& forall|i: int, j: int|
                0 <= i < j < kept.len() ==> (#[trigger] kept[i]).tender != (
                #[trigger] kept[j]).tender
        }),
{
    let kept = kept_counts(session, counts, e);
    lemma_tenders_differ();
    lemma_good_counts(counts, counts.len());
    lemma_provided(counts, "cash"@);
    lemma_provided(counts, "mpesa"@);
    lemma_provided(counts, "card"@);
    let a = kept_count(session, counts, "cash"@, e.cash);
    let b = kept_count(session, counts, "mpesa"@, e.mpesa);
    let c = kept_count(session, counts, "card"@, e.card);
    assert(kept == a + b + c);
    assert forall|k: int|
        0 <= k < counts.len() && (expected_of(e, (#[trigger] counts[k]).tender@).0 != 0 || rounded(
            counts[k].counted@,
            2,
        ).0 != 0) implies kept.contains(
        CountFacts {
            session_id: session,
            tender: counts[k].tender@,
            expected: expected_of(e, counts[k].tender@),
            counted: rounded(counts[k].counted@, 2),
        },
    ) by {
        let fact = CountFacts {
            session_id: session,
            tender: counts[k].tender@,
            expected: expected_of(e, counts[k].tender@),
            counted: rounded(counts[k].counted@, 2),
        };
        assert(is_tender(counts[k].tender@));
        if counts[k].tender@ == "cash"@ {
            assert(a == seq![fact]);
            assert(kept[0] == fact);
        } else if counts[k].tender@ == "mpesa"@ {
            assert(b == seq![fact]);
            assert(kept[a.len() as int] == fact);
        } else {
            assert(c == seq![fact]);
            assert(kept[(a.len() + b.len()) as int] == fact);
        }
    }
}

} // verus!
