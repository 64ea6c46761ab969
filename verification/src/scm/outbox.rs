//! The outbox: posting requests that wait for the ledger's answer.
//!
//! A request is staged together with the document it books, published once that
//! is stored, and cleared by the acknowledgement. One that lingers is published
//! again, which the ledger tolerates: it books a source once.

use crate::accounting::gl_port::Books;
use crate::port::GlPostingRequested;
use crate::search::{any, find, kept, kept_to, keys_differ, lemma_kept_keys, lemma_kept_members};
use crate::sort::{arrange, arranged, Ordered};
use crate::text::same;
use vstd::prelude::*;

verus! {

/// A request that lingers this long without an answer is sent again: two
/// minutes, in microseconds.
pub const SWEEP_GRACE_MICROS: i64 = 120_000_000;

/// How often lingering requests are looked for, in seconds.
pub const SWEEP_INTERVAL_SECS: u64 = 300;

/// A staged request; moments are in microseconds since the epoch.
#[derive(Debug)]
pub struct Staged {
    pub source: String,
    /// The request; nothing where what was stored cannot be read.
    pub payload: Option<GlPostingRequested>,
    pub created_at: i64,
    pub attempts: i32,
    pub last_attempt_at: Option<i64>,
}

/// The requests that are not acknowledged yet, no two of one source.
#[derive(Debug)]
pub struct Outbox {
    pub rows: Vec<Staged>,
}

pub open spec fn from_source(source: Seq<char>) -> spec_fn(Staged) -> bool {
    |row: Staged| row.source@ == source
}

pub open spec fn its_source() -> spec_fn(Staged) -> Seq<char> {
    |row: Staged| row.source@
}

/// Whether no two rows are of one source.
pub open spec fn sources_differ(rows: Seq<Staged>) -> bool {
    keys_differ(rows, its_source())
}

/// The books that an acknowledged request lives in: the tenant's where there
/// are tenants, the main ones otherwise.
pub fn resolve_books(tenant_id: Option<u128>, multitenant: bool) -> (r: Books)
    ensures
        r == (match tenant_id {
            Some(id) if multitenant => Books::Tenant(id),
            _ => Books::Main,
        }),
{
    match tenant_id {
        Some(id) => {
            if multitenant {
                Books::Tenant(id)
            } else {
                Books::Main
            }
        },
        None => Books::Main,
    }
}

// ---------------------------------------------------------------------------
// Staging
// ---------------------------------------------------------------------------

/// Whether a row is a request that was just staged.
pub open spec fn is_staged(row: Staged, req: GlPostingRequested, now: i64) -> bool {
    &&& row.source@ == req.source@
    &&& row.payload == Some(req)
    &&& row.created_at == now
    &&& row.attempts == 0
    &&& row.last_attempt_at is None
}

impl Outbox {
    /// Stage a request. Says no, and changes nothing, where one of its source
    /// waits already.
    pub fn stage(&mut self, req: GlPostingRequested, now: i64) -> (r: bool)
        ensures
            r == !any(old(self).rows@, from_source(req.source@)),
            !r ==> *final(self) == *old(self),
            r ==> is_staged(final(self).rows@.last(), req, now) && final(self).rows@
                == old(self).rows@.push(final(self).rows@.last()),
            sources_differ(old(self).rows@) ==> sources_differ(final(self).rows@),
    {
        let held = find(&self.rows, Ghost(from_source(req.source@)), |x: &Staged| -> (b: bool)
            ensures
                b == from_source(req.source@)(*x),
            { same(x.source.as_str(), req.source.as_str()) });
        if held.is_some() {
            return false;
        }
        assert forall|i: int| 0 <= i < self.rows@.len() implies its_source()(
            #[trigger] self.rows@[i],
        ) != req.source@ by {
            assert(!from_source(req.source@)(self.rows@[i]));
        }
        let source = req.source.clone();
        self.rows.push(
            Staged { source, payload: Some(req), created_at: now, attempts: 0, last_attempt_at: None },
        );
        true
    }
}

// ---------------------------------------------------------------------------
// Acknowledgements
// ---------------------------------------------------------------------------

/// Whether a row outlives the acknowledgement of a source.
pub open spec fn survives(source: Seq<char>) -> spec_fn(Staged) -> bool {
    |row: Staged| row.source@ != source
}

impl Outbox {
    /// The ledger has booked a source: clear what waited for it. A source that
    /// nothing waits for changes nothing.
    pub fn acknowledge(&mut self, source: &str)
        ensures
            final(self).rows@ == kept(old(self).rows@, survives(source@)),
            sources_differ(old(self).rows@) ==> sources_differ(final(self).rows@),
    {
        let ghost all = self.rows@;
        let ghost p = survives(source@);
        let ghost mut seen: nat = 0;
        let mut i: usize = 0;
        while i < self.rows.len()
            invariant
                all == old(self).rows@,
                p == survives(source@),
                seen <= all.len(),
                i == kept_to(all, p, seen).len(),
                self.rows@ == kept_to(all, p, seen) + all.skip(seen as int),
            decreases self.rows.len() - i,
        {
            let ghost before = kept_to(all, p, seen);
            assert(self.rows@[i as int] == all[seen as int]);
            if same(self.rows[i].source.as_str(), source) {
                self.rows.remove(i);
                assert(self.rows@ =~= before + all.skip(seen as int + 1));
            } else {
                assert(self.rows@ =~= before.push(all[seen as int]) + all.skip(seen as int + 1));
                i = i + 1;
            }
            proof {
                seen = seen + 1;
            }
        }
        proof {
            assert(seen == all.len());
            assert(self.rows@ =~= kept(all, p));
            if sources_differ(all) {
                lemma_kept_keys(all, p, its_source());
            }
        }
    }
}

// ---------------------------------------------------------------------------
// Sweeping
// ---------------------------------------------------------------------------

/// Whether a row lingers: its last attempt, or its staging where there was
/// none, lies more than the grace period back.
pub open spec fn is_stale(row: Staged, now: i64) -> bool {
    (match row.last_attempt_at {
        Some(t) => t,
        None => row.created_at,
    }) < now - SWEEP_GRACE_MICROS
}

/// Whether a row is due to be published again: it lingers and can be read.
pub open spec fn is_due(now: i64) -> spec_fn(Staged) -> bool {
    |row: Staged| is_stale(row, now) && row.payload is Some
}

/// A request that is published again.
#[derive(Debug)]
pub struct Attempt {
    pub source: String,
    pub created_at: i64,
    /// How often it was published again, with this time.
    pub attempts: i32,
}

impl Ordered for Attempt {
    /// What was staged first goes first.
    open spec fn precedes(a: Self, b: Self) -> bool {
        a.created_at < b.created_at
    }

    fn goes_before(&self, other: &Self) -> (r: bool) {
        self.created_at < other.created_at
    }
}

pub open spec fn is_attempt(a: Attempt, row: Staged) -> bool {
    &&& a.source@ == row.source@
    &&& a.created_at == row.created_at
    &&& a.attempts == row.attempts + 1
}

pub open spec fn are_attempts(list: Seq<Attempt>, rows: Seq<Staged>) -> bool {
    &&& list.len() == rows.len()
    &&& forall|i: int| 0 <= i < list.len() ==> is_attempt(#[trigger] list[i], rows[i])
}

/// A row after a sweep.
pub open spec fn swept(row: Staged, now: i64) -> Staged {
    if is_due(now)(row) {
        Staged { attempts: (row.attempts + 1) as i32, last_attempt_at: Some(now), ..row }
    } else {
        row
    }
}

fn lingers(row: &Staged, now: i64) -> (r: bool)
    ensures
        r == is_stale(*row, now),
{
    let since: i64 = match row.last_attempt_at {
        Some(t) => t,
        None => row.created_at,
    };
    (since as i128) < (now as i128) - (SWEEP_GRACE_MICROS as i128)
}

impl Outbox {
    /// Find the requests that linger, count the attempt, and hand them out to
    /// be published again, what was staged first first. One that cannot be read
    /// is left for inspection.
    pub fn sweep(&mut self, now: i64) -> (r: Vec<Attempt>)
        requires
            forall|i: int|
                0 <= i < old(self).rows@.len() ==> (#[trigger] old(self).rows@[i]).attempts
                    < i32::MAX,
        ensures
            final(self).rows@ == old(self).rows@.map_values(|row: Staged| swept(row, now)),
            sources_differ(old(self).rows@) ==> sources_differ(final(self).rows@),
            exists|list: Seq<Attempt>|
                #[trigger] are_attempts(list, kept(old(self).rows@, is_due(now))) && r@ == arranged(
                    list,
                ),
    {
        let ghost all = self.rows@;
        let mut list: Vec<Attempt> = Vec::new();
        let mut i: usize = 0;
        while i < self.rows.len()
            invariant
                i <= self.rows.len(),
                self.rows@.len() == all.len(),
                forall|j: int| 0 <= j < all.len() ==> (#[trigger] all[j]).attempts < i32::MAX,
                forall|j: int| 0 <= j < i ==> #[trigger] self.rows@[j] == swept(all[j], now),
                forall|j: int| i <= j < all.len() ==> #[trigger] self.rows@[j] == all[j],
                are_attempts(list@, kept_to(all, is_due(now), i as nat)),
            decreases self.rows.len() - i,
        {
            assert(self.rows@[i as int] == all[i as int]);
            if lingers(&self.rows[i], now) && self.rows[i].payload.is_some() {
                let row = &mut self.rows[i];
                let attempts: i32 = row.attempts + 1;
                row.attempts = attempts;
                row.last_attempt_at = Some(now);
                list.push(
                    Attempt {
                        source: self.rows[i].source.clone(),
                        created_at: self.rows[i].created_at,
                        attempts,
                    },
                );
            }
            i = i + 1;
        }
        assert(self.rows@ =~= all.map_values(|row: Staged| swept(row, now)));
        assert(are_attempts(list@, kept(all, is_due(now))));
        arrange(list)
    }
}

// ---------------------------------------------------------------------------
// Laws
// ---------------------------------------------------------------------------

/// A sweep loses no request: each row keeps its source and what it asks for.
pub proof fn sweeping_loses_nothing(rows: Seq<Staged>, now: i64)
    ensures
        ({
            let after = rows.map_values(|row: Staged| swept(row, now));
            after.len() == rows.len() && forall|i: int|
                0 <= i < rows.len() ==> (#[trigger] after[i]).source == rows[i].source
                    && after[i].payload == rows[i].payload && after[i].created_at
                    == rows[i].created_at
        }),
{
}

/// What was just published again is not due before the grace period is over.
pub proof fn an_attempt_gets_its_time(row: Staged, now: i64, later: i64)
    requires
        is_due(now)(row),
        later <= now + SWEEP_GRACE_MICROS,
    ensures
        !is_due(later)(swept(row, now)),
{
}

/// What is acknowledged does not wait any more.
pub proof fn acknowledged_requests_are_cleared(rows: Seq<Staged>, source: Seq<char>)
    ensures
        !any(kept(rows, survives(source)), from_source(source)),
{
    let left = kept(rows, survives(source));
    lemma_kept_members(rows, survives(source));
    assert forall|i: int| 0 <= i < left.len() implies !from_source(source)(#[trigger] left[i]) by {
        assert(left.contains(left[i]));
    }
}

proof fn lemma_all_survive(rows: Seq<Staged>, source: Seq<char>, n: nat)
    requires
        n <= rows.len(),
        forall|i: int| 0 <= i < rows.len() ==> survives(source)(#[trigger] rows[i]),
    ensures
        kept_to(rows, survives(source), n) == rows.take(n as int),
    decreases n,
{
    if n > 0 {
        lemma_all_survive(rows, source, (n - 1) as nat);
        assert(rows.take(n as int) =~= rows.take(n - 1).push(rows[n - 1]));
    } else {
        assert(rows.take(0) =~= Seq::empty());
    }
}

/// The acknowledgement of a source that does not wait changes nothing.
pub proof fn other_acknowledgements_change_nothing(rows: Seq<Staged>, source: Seq<char>)
    requires
        !any(rows, from_source(source)),
    ensures
        kept(rows, survives(source)) == rows,
{
    assert forall|i: int| 0 <= i < rows.len() implies survives(source)(#[trigger] rows[i]) by {
        if rows[i].source@ == source {
            assert(from_source(source)(rows[i]));
        }
    }
    lemma_all_survive(rows, source, rows.len());
    assert(rows.take(rows.len() as int) =~= rows);
}

/// Staging a request and acknowledging it leaves what waited before.
pub proof fn acknowledging_undoes_staging(rows: Seq<Staged>, row: Staged)
    requires
        !any(rows, from_source(row.source@)),
    ensures
        kept(rows.push(row), survives(row.source@)) == rows,
{
    let source = row.source@;
    let all = rows.push(row);
    assert forall|i: int| 0 <= i < rows.len() implies survives(source)(#[trigger] rows[i]) by {
        if rows[i].source@ == source {
            assert(from_source(source)(rows[i]));
        }
    }
    lemma_kept_agrees(all, rows, source, rows.len());
    lemma_all_survive(rows, source, rows.len());
    assert(rows.take(rows.len() as int) =~= rows);
}

proof fn lemma_kept_agrees(s: Seq<Staged>, t: Seq<Staged>, source: Seq<char>, n: nat)
    requires
        n <= s.len(),
        n <= t.len(),
        forall|i: int| 0 <= i < n ==> s[i] == t[i],
    ensures
        kept_to(s, survives(source), n) == kept_to(t, survives(source), n),
    decreases n,
{
    if n > 0 {
        lemma_kept_agrees(s, t, source, (n - 1) as nat);
    }
}

/// A request that lingers is published again: one that can be read and was last tried, or
/// else staged, longer ago than the grace period; one that is newer waits. Each time
/// counts as an attempt, and from then on the grace period runs anew.
pub proof fn lingering_requests_are_tried_again(row: Staged, now: i64)
    ensures
        ({
            let since = match row.last_attempt_at {
                Some(t) => t as int,
                None => row.created_at as int,
            };
            &&& row.payload is Some && now - since > SWEEP_GRACE_MICROS ==> is_due(now)(row)
            &&& row.payload is None || now - since <= SWEEP_GRACE_MICROS ==> !is_due(now)(row)
            &&& is_due(now)(row) ==> swept(row, now).last_attempt_at == Some(now)
            &&& !is_due(now)(row) ==> swept(row, now) == row
        }),
{
}

} // verus!
