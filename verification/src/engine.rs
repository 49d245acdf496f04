//! Reconciliation engine: classification of a reconciliation round and the
//! decisions taken on its result.

use vstd::prelude::*;
use crate::error::ProxyError;
use crate::text::{seq_contains_run, str_contains, str_eq};

verus! {

pub const RECONCILIATION_OUTCOME_SETTLED: &'static str = "settled";
pub const RECONCILIATION_OUTCOME_NO_ADJUSTMENT: &'static str = "no_adjustment";
pub const RECONCILIATION_OUTCOME_OBSERVED: &'static str = "observed";
pub const RECONCILIATION_OUTCOME_UPSTREAM_429: &'static str = "upstream_429";
pub const RECONCILIATION_OUTCOME_TRANSPORT_FAILURE: &'static str = "transport_failure";
pub const RECONCILIATION_OUTCOME_SEMANTIC_FAILURE: &'static str = "semantic_failure";
pub const RECONCILIATION_OUTCOME_LOCAL_PRESSURE: &'static str = "local_pressure";

/// How a reconciliation round ended.
#[derive(Debug, Clone, Copy, PartialEq, Eq, Structural)]
pub enum ReconciliationOutcome {
    Settled,
    NoAdjustment,
    Observed,
    Upstream429,
    TransportFailure,
    SemanticFailure,
    LocalPressure,
}

/// The result of running a claimed reconciliation job.
#[derive(Debug, Clone, Copy, PartialEq, Eq)]
pub enum ClaimedReconciliationRunOutcome {
    Completed { settled: i64, no_adjustment: i64, observed: i64 },
    Deferred { reason: &'static str },
    StaleClaim,
}

/// The reconciliation engine's decision procedures.
pub struct ReconciliationEngine;

/// The outcome of a round with the given counts and failure flags: a failure
/// flag wins over any count (429 first, then transport, semantic and local
/// pressure); otherwise a round settles when it settled more entries than it
/// left unadjusted, then an observation, then an unadjusted entry counts.
pub open spec fn classify_round(
    settled: int,
    no_adjustment: int,
    observed: int,
    upstream_429: bool,
    local_pressure: bool,
    transport_failure: bool,
    semantic_failure: bool,
) -> Option<ReconciliationOutcome> {
    if upstream_429 {
        Some(ReconciliationOutcome::Upstream429)
    } else if transport_failure {
        Some(ReconciliationOutcome::TransportFailure)
    } else if semantic_failure {
        Some(ReconciliationOutcome::SemanticFailure)
    } else if local_pressure {
        Some(ReconciliationOutcome::LocalPressure)
    } else if settled > no_adjustment {
        Some(ReconciliationOutcome::Settled)
    } else if observed > 0 {
        Some(ReconciliationOutcome::Observed)
    } else if no_adjustment > 0 {
        Some(ReconciliationOutcome::NoAdjustment)
    } else {
        None
    }
}

/// Whether an outcome ends a round successfully.
pub open spec fn is_successful_outcome(outcome: ReconciliationOutcome) -> bool {
    outcome is Settled || outcome is NoAdjustment || outcome is Observed
}

/// The stable name of an outcome.
pub open spec fn outcome_name(outcome: ReconciliationOutcome) -> &'static str {
    match outcome {
        ReconciliationOutcome::Settled => RECONCILIATION_OUTCOME_SETTLED,
        ReconciliationOutcome::NoAdjustment => RECONCILIATION_OUTCOME_NO_ADJUSTMENT,
        ReconciliationOutcome::Observed => RECONCILIATION_OUTCOME_OBSERVED,
        ReconciliationOutcome::Upstream429 => RECONCILIATION_OUTCOME_UPSTREAM_429,
        ReconciliationOutcome::TransportFailure => RECONCILIATION_OUTCOME_TRANSPORT_FAILURE,
        ReconciliationOutcome::SemanticFailure => RECONCILIATION_OUTCOME_SEMANTIC_FAILURE,
        ReconciliationOutcome::LocalPressure => RECONCILIATION_OUTCOME_LOCAL_PRESSURE,
    }
}

/// The pause reason for an error that shows an active settlement cannot
/// bill its subject.
pub open spec fn integrity_reason(err: ProxyError) -> Option<&'static str> {
    match err {
        ProxyError::Other(message) => {
            if seq_contains_run(message@, "invalid reconciliation billing subject"@) {
                Some("invalid_billing_subject")
            } else if seq_contains_run(message@, "unsupported reconciliation billing subject"@) {
                Some("unsupported_billing_subject")
            } else {
                None
            }
        },
        _ => None,
    }
}

impl ReconciliationOutcome {
    /// The stable name of the outcome, as recorded and logged.
    pub fn as_str(self) -> (s: &'static str)
        ensures
            s == outcome_name(self),
    {
        match self {
            Self::Settled => RECONCILIATION_OUTCOME_SETTLED,
            Self::NoAdjustment => RECONCILIATION_OUTCOME_NO_ADJUSTMENT,
            Self::Observed => RECONCILIATION_OUTCOME_OBSERVED,
            Self::Upstream429 => RECONCILIATION_OUTCOME_UPSTREAM_429,
            Self::TransportFailure => RECONCILIATION_OUTCOME_TRANSPORT_FAILURE,
            Self::SemanticFailure => RECONCILIATION_OUTCOME_SEMANTIC_FAILURE,
            Self::LocalPressure => RECONCILIATION_OUTCOME_LOCAL_PRESSURE,
        }
    }
}

impl ReconciliationEngine {
    /// Remote attempts a reconciliation job may make.
    pub const MAX_REMOTE_ATTEMPTS: i64 = 2;

    /// Classifies a finished round; see `classify_round`.
    pub fn outcome(
        settled: i64,
        no_adjustment: i64,
        observed: i64,
        upstream_429: bool,
        local_pressure: bool,
        transport_failure: bool,
        semantic_failure: bool,
    ) -> (r: Option<ReconciliationOutcome>)
        ensures
            r == classify_round(
                settled as int,
                no_adjustment as int,
                observed as int,
                upstream_429,
                local_pressure,
                transport_failure,
                semantic_failure,
            ),
    {
        if upstream_429 {
            Some(ReconciliationOutcome::Upstream429)
        } else if transport_failure {
            Some(ReconciliationOutcome::TransportFailure)
        } else if semantic_failure {
            Some(ReconciliationOutcome::SemanticFailure)
        } else if local_pressure {
            Some(ReconciliationOutcome::LocalPressure)
        } else if settled > no_adjustment {
            Some(ReconciliationOutcome::Settled)
        } else if observed > 0 {
            Some(ReconciliationOutcome::Observed)
        } else if no_adjustment > 0 {
            Some(ReconciliationOutcome::NoAdjustment)
        } else {
            None
        }
    }

    /// Whether an error came from the transport (HTTP or database).
    pub fn is_transport_failure(err: &ProxyError) -> (r: bool)
        ensures
            r == (err is Http || err is Database),
    {
        match err {
            ProxyError::Http(_) | ProxyError::Database(_) => true,
            _ => false,
        }
    }

    /// The integrity pause reason carried by an error, if any: only an
    /// `Other` error whose message names an invalid or unsupported billing
    /// subject has one.
    pub fn active_settlement_integrity_reason(err: &ProxyError) -> (r: Option<&'static str>)
        ensures
            r == integrity_reason(*err),
    {
        match err {
            ProxyError::Other(message) => {
                if str_contains(message.as_str(), "invalid reconciliation billing subject") {
                    Some("invalid_billing_subject")
                } else if str_contains(message.as_str(), "unsupported reconciliation billing subject") {
                    Some("unsupported_billing_subject")
                } else {
                    None
                }
            },
            _ => None,
        }
    }

    /// The reason for which reconciliation must be paused after `error`:
    /// only a settlement that is not in shadow mode pauses, and only for an
    /// integrity failure.
    pub fn integrity_pause_reason(settlement_mode: &str, error: &ProxyError) -> (r: Option<&'static str>)
        ensures
            r == (if settlement_mode@ == "shadow"@ { None } else { integrity_reason(*error) }),
    {
        if str_eq(settlement_mode, "shadow") {
            None
        } else {
            Self::active_settlement_integrity_reason(error)
        }
    }

    /// A projection deferral exhausts preparation when it found no candidate.
    pub fn projection_defer_exhausts_preparation(candidate_count: usize) -> (r: bool)
        ensures
            r == (candidate_count == 0),
    {
        candidate_count == 0
    }

    /// Whether an outcome clears the local-pressure backoff.
    pub fn clears_local_pressure(outcome: ReconciliationOutcome) -> (r: bool)
        ensures
            r == is_successful_outcome(outcome),
    {
        match outcome {
            ReconciliationOutcome::Settled
            | ReconciliationOutcome::NoAdjustment
            | ReconciliationOutcome::Observed => true,
            _ => false,
        }
    }

    /// Whether an outcome clears the upstream-429 backoff.
    pub fn clears_upstream_429(outcome: ReconciliationOutcome) -> (r: bool)
        ensures
            r == is_successful_outcome(outcome),
    {
        Self::clears_local_pressure(outcome)
    }

    /// The result of a claimed run: `None` means no maintenance run could be
    /// started (the service is shutting down), which defers the job; a stale
    /// claim is reported as an outcome rather than an error; anything else
    /// is passed through.
    pub fn claimed_run_result(
        run: Option<Result<ClaimedReconciliationRunOutcome, ProxyError>>,
    ) -> (r: Result<ClaimedReconciliationRunOutcome, ProxyError>)
        ensures
            r == (match run {
                None => Ok(ClaimedReconciliationRunOutcome::Deferred { reason: "shutdown" }),
                Some(Err(ProxyError::StaleClaim { .. })) => Ok(ClaimedReconciliationRunOutcome::StaleClaim),
                Some(result) => result,
            }),
    {
        match run {
            None => Ok(ClaimedReconciliationRunOutcome::Deferred { reason: "shutdown" }),
            Some(Err(ProxyError::StaleClaim { .. })) => Ok(ClaimedReconciliationRunOutcome::StaleClaim),
            Some(result) => result,
        }
    }

    /// The error of a claimed-run task that did not complete (it panicked
    /// or was cancelled), carrying the text of that failure.
    pub fn claimed_run_task_failure(failure: &str) -> (e: ProxyError)
        ensures
            e matches ProxyError::Other(m) && m@ == "reconciliation engine task failed: "@ + failure@,
    {
        let message = String::from_str("reconciliation engine task failed: ").concat(failure);
        ProxyError::Other(message)
    }

    /// The result of a claimed run as its spawner sees it once the task is
    /// joined: the task's own result, or, where the task did not complete
    /// (`Err` with the failure's text), the task-failure error.
    pub fn joined_claimed_run_result(
        joined: Result<Result<ClaimedReconciliationRunOutcome, ProxyError>, String>,
    ) -> (r: Result<ClaimedReconciliationRunOutcome, ProxyError>)
        ensures
            joined matches Ok(result) ==> r == result,
            joined matches Err(failure) ==> (r matches Err(ProxyError::Other(m))
                && m@ == "reconciliation engine task failed: "@ + failure@),
    {
        match joined {
            Ok(result) => result,
            Err(failure) => Err(Self::claimed_run_task_failure(failure.as_str())),
        }
    }
}

/// A round in which any failure was seen (429, transport, semantic or local
/// pressure) never clears a backoff, whatever it settled in the same round.
pub proof fn lemma_failed_round_keeps_backoffs(
    settled: int,
    no_adjustment: int,
    observed: int,
    upstream_429: bool,
    local_pressure: bool,
    transport_failure: bool,
    semantic_failure: bool,
)
    requires
        upstream_429 || local_pressure || transport_failure || semantic_failure,
    ensures
        classify_round(settled, no_adjustment, observed, upstream_429, local_pressure, transport_failure, semantic_failure) is Some,
        !is_successful_outcome(
            classify_round(settled, no_adjustment, observed, upstream_429, local_pressure, transport_failure, semantic_failure)->0,
        ),
{
}

/// A round without failures clears both backoffs exactly when it did any
/// work (settled, observed or confirmed an entry).
pub proof fn lemma_clean_round_clears_backoffs(settled: int, no_adjustment: int, observed: int)
    ensures
        (classify_round(settled, no_adjustment, observed, false, false, false, false) is Some)
            == (settled > no_adjustment || observed > 0 || no_adjustment > 0),
        classify_round(settled, no_adjustment, observed, false, false, false, false) matches Some(o)
            ==> is_successful_outcome(o),
{
}

/// Distinct outcomes have distinct names.
pub proof fn lemma_outcome_names_distinct(a: ReconciliationOutcome, b: ReconciliationOutcome)
    requires
        a != b,
    ensures
        outcome_name(a)@ != outcome_name(b)@,
{
    reveal_strlit("settled");
    reveal_strlit("no_adjustment");
    reveal_strlit("observed");
    reveal_strlit("upstream_429");
    reveal_strlit("transport_failure");
    reveal_strlit("semantic_failure");
    reveal_strlit("local_pressure");
    assert(outcome_name(a)@.len() != outcome_name(b)@.len());
}

/// In a round without failures, settling more entries than were left
/// unadjusted makes the round settled, whatever it also observed; it counts
/// as observed only when it settled no more than it left unadjusted and
/// observed something, and as unadjusted only when it also observed nothing.
pub proof fn lemma_clean_round_outcome(settled: int, no_adjustment: int, observed: int)
    ensures
        settled > no_adjustment ==> classify_round(settled, no_adjustment, observed, false, false, false, false)
            == Some(ReconciliationOutcome::Settled),
        classify_round(settled, no_adjustment, observed, false, false, false, false)
            == Some(ReconciliationOutcome::Observed) <==> (settled <= no_adjustment && observed > 0),
        classify_round(settled, no_adjustment, observed, false, false, false, false)
            == Some(ReconciliationOutcome::NoAdjustment)
            <==> (settled <= no_adjustment && observed <= 0 && no_adjustment > 0),
{
}

/// An error whose message names an invalid billing subject anywhere in it
/// pauses reconciliation as `invalid_billing_subject`; one that names an
/// unsupported subject, and no invalid one, as `unsupported_billing_subject`.
pub proof fn lemma_billing_subject_named_anywhere(message: String, before: Seq<char>, after: Seq<char>)
    ensures
        message@ == before + "invalid reconciliation billing subject"@ + after
            ==> integrity_reason(ProxyError::Other(message)) == Some("invalid_billing_subject"),
        message@ == before + "unsupported reconciliation billing subject"@ + after
            && !seq_contains_run(message@, "invalid reconciliation billing subject"@)
            ==> integrity_reason(ProxyError::Other(message)) == Some("unsupported_billing_subject"),
{
    let invalid = "invalid reconciliation billing subject"@;
    let unsupported = "unsupported reconciliation billing subject"@;
    if message@ == before + invalid + after {
        let start = before.len() as int;
        assert(message@.subrange(start, start + invalid.len()) =~= invalid);
        assert(seq_contains_run(message@, invalid));
    }
    if message@ == before + unsupported + after {
        let start = before.len() as int;
        assert(message@.subrange(start, start + unsupported.len()) =~= unsupported);
        assert(seq_contains_run(message@, unsupported));
    }
}

/// An error that is not an `Other` error, or whose message names neither
/// kind of billing subject, never pauses reconciliation.
pub proof fn lemma_other_errors_do_not_pause(err: ProxyError)
    ensures
        !(err is Other) ==> integrity_reason(err) is None,
        err matches ProxyError::Other(m) && !seq_contains_run(m@, "invalid reconciliation billing subject"@)
            && !seq_contains_run(m@, "unsupported reconciliation billing subject"@)
            ==> integrity_reason(err) is None,
{
}

} // verus!
