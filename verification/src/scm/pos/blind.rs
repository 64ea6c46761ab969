//! Blind counts: a cashier counts the drawer without knowing what it should
//! hold.

use super::session::SessionStatus;
use super::settings::Settings;
use super::takings::{SessionReport, TenderFacts, TenderReportLine};
use crate::text::same;
use vstd::prelude::*;

verus! {

/// Whether the expected cash is hidden: the tenant counts blind, nothing has
/// been counted yet, and the caller cannot read the reports anyway.
pub open spec fn is_hidden(blind_count: bool, reads_reports: bool, status: SessionStatus) -> bool {
    blind_count && !reads_reports && status == SessionStatus::Open
}

/// A tender's line as a blind cashier sees it.
pub open spec fn blinded(t: TenderFacts) -> TenderFacts {
    if t.tender == "cash"@ {
        TenderFacts { expected: None, ..t }
    } else {
        t
    }
}

pub open spec fn lines_of(tenders: Seq<TenderReportLine>) -> Seq<TenderFacts> {
    tenders.map_values(|t: TenderReportLine| t@)
}

/// What a caller is shown of a session's report.
pub fn shown_to(settings: &Settings, reads_reports: bool, report: SessionReport) -> (r: SessionReport)
    ensures
        if is_hidden(settings.blind_count, reads_reports, report.session.status) {
            &&& r == (SessionReport { expected_cash: None, tenders: r.tenders, ..report })
            &&& lines_of(r.tenders@) == lines_of(report.tenders@).map_values(
                |t: TenderFacts| blinded(t),
            )
        } else {
            r == report
        },
{
    if !settings.blind_count || reads_reports || report.session.status != SessionStatus::Open {
        return report;
    }
    let ghost before = report.tenders@;
    let mut tenders = report.tenders;
    let mut i: usize = 0;
    while i < tenders.len()
        invariant
            i <= tenders.len(),
            tenders@.len() == before.len(),
            forall|k: int| 0 <= k < i ==> (#[trigger] tenders@[k])@ == blinded(before[k]@),
            forall|k: int| i <= k < before.len() ==> #[trigger] tenders@[k] == before[k],
        decreases tenders.len() - i,
    {
        assert(tenders@[i as int] == before[i as int]);
        if same(tenders[i].tender.as_str(), "cash") {
            let line = &mut tenders[i];
            line.expected = None;
        }
        i = i + 1;
    }
    proof {
        let wanted = lines_of(before).map_values(|t: TenderFacts| blinded(t));
        assert forall|k: int| 0 <= k < before.len() implies lines_of(tenders@)[k] == wanted[k] by {
            assert(tenders@[k]@ == blinded(before[k]@));
        }
        assert(lines_of(tenders@) =~= wanted);
    }
    SessionReport { expected_cash: None, tenders, ..report }
}

/// Only what a drawer should hold is hidden, and only before it is counted: a caller who reads
/// the reports sees everything, and so does everyone once the session is no longer
/// open, or where the tenant does not count blind; what is hidden is what is expected
/// of cash, and nothing else of any tender.
pub proof fn only_expected_cash_is_hidden(
    blind_count: bool,
    reads_reports: bool,
    status: SessionStatus,
    t: TenderFacts,
)
    ensures
        is_hidden(blind_count, reads_reports, status) ==> blind_count && !reads_reports && status
            == SessionStatus::Open,
        is_hidden(true, false, SessionStatus::Open),
        t.tender == "cash"@ ==> blinded(t).expected is None,
        t.tender != "cash"@ ==> blinded(t).expected == t.expected,
        blinded(t).tender == t.tender,
        blinded(t).sales == t.sales,
        blinded(t).refunds == t.refunds,
        blinded(t).net == t.net,
        blinded(t).counted == t.counted,
        blinded(t).variance == t.variance,
{
}

} // verus!
