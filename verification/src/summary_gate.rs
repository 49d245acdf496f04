//! Rate limit for the reconciliation summary log line: at most one line per
//! minute across all tasks sharing the same last-emission timestamp.

use std::sync::atomic::AtomicI64;
use vstd::prelude::*;

verus! {

/// Whether a summary may be emitted at `now` when the last one was emitted at
/// `previous` (zero meaning never): it may unless the last one is less than
/// a minute old. `now.saturating_sub(previous) < 60` holds exactly when the
/// unbounded difference is below 60, so the difference is taken unbounded.
pub open spec fn summary_window_open(previous: i64, now: i64) -> bool {
    !(previous > 0 && now - previous < 60)
}

/// The new last-emission timestamp when a summary may be emitted at `now`.
pub fn summary_emission_update(previous: i64, now: i64) -> (r: Option<i64>)
    ensures
        r == (if summary_window_open(previous, now) { Some(now) } else { None::<i64> }),
{
    if previous > 0 && now <= previous {
        return None;
    }
    if previous > 0 && now - previous < 60 {
        return None;
    }
    Some(now)
}

/// Atomically replaces the last summary timestamp with `now` when the rule
/// admits `now` (`AtomicI64::fetch_update` with `summary_emission_update` as
/// the update). As std documents it, `Ok` carries a previous value for which
/// the update produced a new value, and that value was stored; `Err` carries
/// the current value for which the update declined.
#[verifier::external_body]
fn advance_summary_emission(last_emitted_at: &AtomicI64, now: i64) -> (r: Result<i64, i64>)
    ensures
        r matches Ok(p) ==> summary_window_open(p, now),
        r matches Err(p) ==> !summary_window_open(p, now),
{
    last_emitted_at.fetch_update(
        std::sync::atomic::Ordering::Relaxed,
        std::sync::atomic::Ordering::Relaxed,
        |previous| summary_emission_update(previous, now),
    )
}

/// Tries to claim the reconciliation summary at `now`: returns whether this
/// caller may log it and the last summary timestamp it found in place. The
/// answer is the rule applied to that timestamp; when it is `true`, `now`
/// has replaced the timestamp.
pub fn claim_reconciliation_summary_at(last_emitted_at: &AtomicI64, now: i64) -> (r: (bool, i64))
    ensures
        r.0 == summary_window_open(r.1, now),
{
    match advance_summary_emission(last_emitted_at, now) {
        Ok(previous) => (true, previous),
        Err(previous) => (false, previous),
    }
}

/// Whether this caller may log the reconciliation summary at `now`: the
/// first part of `claim_reconciliation_summary_at`. The timestamp the
/// answer rests on is the shared atomic's, which has no view, so this
/// function states nothing of its own; the claim returns that timestamp.
pub fn should_emit_reconciliation_summary_at(last_emitted_at: &AtomicI64, now: i64) -> bool {
    let (emit, _previous) = claim_reconciliation_summary_at(last_emitted_at, now);
    emit
}

/// Once a summary was logged at a positive time `first`, none is admitted
/// less than a minute later, and the rule admits one again a minute later.
pub proof fn lemma_one_summary_per_minute(first: i64, later: i64)
    requires
        first > 0,
        first <= later,
    ensures
        summary_window_open(first, later) == (later - first >= 60),
{
}

} // verus!
