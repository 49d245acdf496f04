//! The proxy service's decisions that do not depend on its stores: how an
//! alert read is deferred, what follows a projection slice, and the secret
//! a quota sync uses. The service performs the reads and writes; these
//! functions take what they returned.

use vstd::prelude::*;
use crate::alert_projection::AlertProjectionSliceOutcome;
use crate::error::ProxyError;

verus! {

/// The proxy's decision procedures.
pub struct TavilyProxy;

/// The message of a database lookup that found no row.
pub const ROW_NOT_FOUND_MESSAGE: &'static str = "no rows returned by a query that expected to return at least one row";


/// Whether a projection outcome requires the Dashboard alert summary to be
/// rebuilt: after a slice that dirtied the Dashboard or completed, and when
/// the projection is idle.
pub open spec fn outcome_refreshes_dashboard(outcome: AlertProjectionSliceOutcome) -> bool {
    match outcome {
        AlertProjectionSliceOutcome::Advanced { dashboard_dirty, complete, .. } => dashboard_dirty || complete,
        AlertProjectionSliceOutcome::Idle => true,
        AlertProjectionSliceOutcome::Deferred { .. } => false,
    }
}

impl TavilyProxy {
    /// The secret of the key whose quota is synced: a missing key is a
    /// database error (no row found).
    pub fn quota_sync_api_key_secret(secret: Option<String>) -> (r: Result<String, ProxyError>)
        ensures
            match secret {
                Some(s) => r matches Ok(t) && t@ == s@,
                None => r matches Err(e) && (e matches ProxyError::Database(m) && m@ == ROW_NOT_FOUND_MESSAGE@),
            },
    {
        match secret {
            Some(s) => Ok(s),
            None => Err(ProxyError::Database(String::from_str(ROW_NOT_FOUND_MESSAGE))),
        }
    }

    /// Why an administrator's alert read must be deferred: the reason the
    /// alert projection admission refused, or nothing once it admitted (the
    /// permit is released at once).
    pub fn admin_alert_read_defer_reason<P>(admission: Result<P, &'static str>) -> (r: Option<&'static str>)
        ensures
            r == (match admission {
                Ok(_) => None,
                Err(reason) => Some(reason),
            }),
    {
        match admission {
            Ok(_permit) => None,
            Err(reason) => Some(reason),
        }
    }

    /// What one scheduler step does after the projection slice ended with
    /// `outcome`: whether to rebuild the Dashboard summary, and the reported
    /// `(dashboard_dirty, idle)`.
    pub fn advance_dashboard_alert_projection_scheduler_step(outcome: AlertProjectionSliceOutcome) -> (r: (bool, (bool, bool)))
        ensures
            r.0 == outcome_refreshes_dashboard(outcome),
            r.1 == (match outcome {
                AlertProjectionSliceOutcome::Advanced { dashboard_dirty, .. } => (dashboard_dirty, false),
                AlertProjectionSliceOutcome::Idle => (false, true),
                AlertProjectionSliceOutcome::Deferred { .. } => (false, false),
            }),
    {
        match outcome {
            AlertProjectionSliceOutcome::Advanced { dashboard_dirty, complete, .. } =>
                (dashboard_dirty || complete, (dashboard_dirty, false)),
            AlertProjectionSliceOutcome::Idle => (true, (false, true)),
            AlertProjectionSliceOutcome::Deferred { .. } => (false, (false, false)),
        }
    }

    /// What a Dashboard slice does after the projection slice ended with
    /// `outcome`: whether to rebuild the Dashboard summary, and whether the
    /// slice dirtied it.
    pub fn advance_dashboard_alert_projection_slice(outcome: AlertProjectionSliceOutcome) -> (r: (bool, bool))
        ensures
            r.0 == outcome_refreshes_dashboard(outcome),
            r.1 == (outcome matches AlertProjectionSliceOutcome::Advanced { dashboard_dirty: true, .. }),
    {
        let (dashboard_dirty, complete) = match outcome {
            AlertProjectionSliceOutcome::Advanced { dashboard_dirty: true, complete, .. } => (true, complete),
            AlertProjectionSliceOutcome::Advanced { complete, .. } => (false, complete),
            AlertProjectionSliceOutcome::Idle => (false, true),
            AlertProjectionSliceOutcome::Deferred { .. } => (false, false),
        };
        (dashboard_dirty || complete, dashboard_dirty)
    }
}

/// A deferred slice never rebuilds the Dashboard, and the scheduler and a
/// direct slice rebuild it in exactly the same cases.
pub proof fn lemma_dashboard_refresh_agrees(outcome: AlertProjectionSliceOutcome)
    ensures
        outcome is Deferred ==> !outcome_refreshes_dashboard(outcome),
        outcome is Idle ==> outcome_refreshes_dashboard(outcome),
{
}

} // verus!
