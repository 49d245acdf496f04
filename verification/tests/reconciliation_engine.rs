use std::sync::atomic::AtomicI64;

use tavily_hikari::engine::{
    ClaimedReconciliationRunOutcome, ReconciliationEngine, ReconciliationOutcome,
};
use tavily_hikari::error::ProxyError;
use tavily_hikari::proxy::TavilyProxy;
use tavily_hikari::summary_gate::{claim_reconciliation_summary_at, should_emit_reconciliation_summary_at, summary_emission_update};

#[test]
fn reconciliation_summary_logging_is_limited_to_one_per_minute() {
    let last_emitted_at = AtomicI64::new(0);

    assert!(should_emit_reconciliation_summary_at(&last_emitted_at, 1_000));
    assert!(!should_emit_reconciliation_summary_at(&last_emitted_at, 1_059));
    assert!(should_emit_reconciliation_summary_at(&last_emitted_at, 1_060));
}

#[test]
fn non_success_outcomes_do_not_clear_upstream_429_state() {
    assert!(!ReconciliationEngine::clears_upstream_429(
        ReconciliationOutcome::TransportFailure
    ));
    assert!(!ReconciliationEngine::clears_upstream_429(
        ReconciliationOutcome::SemanticFailure
    ));
    assert!(!ReconciliationEngine::clears_upstream_429(
        ReconciliationOutcome::LocalPressure
    ));
    assert!(ReconciliationEngine::clears_upstream_429(
        ReconciliationOutcome::Settled
    ));
}

#[test]
fn successful_terminal_outcomes_clear_both_backoffs() {
    assert!(ReconciliationEngine::clears_local_pressure(
        ReconciliationOutcome::Settled
    ));
    assert!(ReconciliationEngine::clears_local_pressure(
        ReconciliationOutcome::NoAdjustment
    ));
    assert!(ReconciliationEngine::clears_upstream_429(
        ReconciliationOutcome::NoAdjustment
    ));
}

#[test]
fn failure_outcomes_prevent_a_same_round_success_from_clearing_429() {
    assert_eq!(
        ReconciliationEngine::outcome(1, 1, 0, false, false, true, false),
        Some(ReconciliationOutcome::TransportFailure)
    );
    assert_eq!(
        ReconciliationEngine::outcome(1, 0, 0, false, false, false, true),
        Some(ReconciliationOutcome::SemanticFailure)
    );
    assert_eq!(
        ReconciliationEngine::outcome(1, 1, 0, false, true, false, false),
        Some(ReconciliationOutcome::LocalPressure)
    );
}

#[test]
fn compare_observation_is_not_classified_as_a_settlement() {
    assert_eq!(
        ReconciliationEngine::outcome(0, 0, 1, false, false, false, false),
        Some(ReconciliationOutcome::Observed)
    );
}

#[test]
fn actual_settlement_integrity_failures_are_pauseable_but_retryable_errors_are_not() {
    assert_eq!(
        ReconciliationEngine::active_settlement_integrity_reason(&ProxyError::Other(
            "invalid reconciliation billing subject".to_string(),
        )),
        Some("invalid_billing_subject")
    );
    assert_eq!(
        ReconciliationEngine::active_settlement_integrity_reason(&ProxyError::Other(
            "database is locked".to_string(),
        )),
        None
    );
    assert_eq!(
        ReconciliationEngine::active_settlement_integrity_reason(&ProxyError::StaleClaim {
            job_id: 1,
            claim_generation: 2,
        }),
        None
    );
}

#[test]
fn upstream_429_wins_over_every_other_signal() {
    assert_eq!(
        ReconciliationEngine::outcome(5, 0, 3, true, true, true, true),
        Some(ReconciliationOutcome::Upstream429)
    );
    assert_eq!(
        ReconciliationEngine::outcome(2, 1, 0, false, false, false, false),
        Some(ReconciliationOutcome::Settled)
    );
    assert_eq!(
        ReconciliationEngine::outcome(1, 1, 0, false, false, false, false),
        Some(ReconciliationOutcome::NoAdjustment)
    );
    assert_eq!(ReconciliationEngine::outcome(0, 0, 0, false, false, false, false), None);
}

#[test]
fn a_failed_round_never_clears_a_backoff() {
    for flags in [(true, false, false, false), (false, true, false, false), (false, false, true, false), (false, false, false, true)] {
        let outcome = ReconciliationEngine::outcome(9, 0, 9, flags.0, flags.1, flags.2, flags.3)
            .expect("a failed round has an outcome");
        assert!(!ReconciliationEngine::clears_upstream_429(outcome));
        assert!(!ReconciliationEngine::clears_local_pressure(outcome));
    }
}

#[test]
fn outcome_names_are_stable_and_distinct() {
    let all = [
        ReconciliationOutcome::Settled,
        ReconciliationOutcome::NoAdjustment,
        ReconciliationOutcome::Observed,
        ReconciliationOutcome::Upstream429,
        ReconciliationOutcome::TransportFailure,
        ReconciliationOutcome::SemanticFailure,
        ReconciliationOutcome::LocalPressure,
    ];
    assert_eq!(ReconciliationOutcome::Settled.as_str(), "settled");
    assert_eq!(ReconciliationOutcome::Upstream429.as_str(), "upstream_429");
    for (i, a) in all.iter().enumerate() {
        for (j, b) in all.iter().enumerate() {
            assert_eq!(i == j, a.as_str() == b.as_str());
        }
    }
}

#[test]
fn unsupported_billing_subject_is_an_integrity_failure() {
    let err = ProxyError::Other("settle: unsupported reconciliation billing subject foo".to_string());
    assert_eq!(
        ReconciliationEngine::active_settlement_integrity_reason(&err),
        Some("unsupported_billing_subject")
    );
    assert_eq!(ReconciliationEngine::active_settlement_integrity_reason(&ProxyError::Http("x".to_string())), None);
}

#[test]
fn only_active_settlements_pause_for_integrity() {
    let err = ProxyError::Other("invalid reconciliation billing subject".to_string());
    assert_eq!(ReconciliationEngine::integrity_pause_reason("shadow", &err), None);
    assert_eq!(ReconciliationEngine::integrity_pause_reason("actual", &err), Some("invalid_billing_subject"));
    assert_eq!(
        ReconciliationEngine::integrity_pause_reason("actual", &ProxyError::Database("locked".to_string())),
        None
    );
}

#[test]
fn transport_failures_are_http_and_database_errors() {
    assert!(ReconciliationEngine::is_transport_failure(&ProxyError::Http("reset".to_string())));
    assert!(ReconciliationEngine::is_transport_failure(&ProxyError::Database("busy".to_string())));
    assert!(!ReconciliationEngine::is_transport_failure(&ProxyError::Other("x".to_string())));
    assert!(!ReconciliationEngine::is_transport_failure(&ProxyError::StaleClaim { job_id: 1, claim_generation: 1 }));
}

#[test]
fn projection_deferral_exhausts_preparation_only_without_candidates() {
    assert!(ReconciliationEngine::projection_defer_exhausts_preparation(0));
    assert!(!ReconciliationEngine::projection_defer_exhausts_preparation(3));
}

#[test]
fn claimed_runs_report_shutdown_and_stale_claims_as_outcomes() {
    assert_eq!(
        ReconciliationEngine::claimed_run_result(None).unwrap(),
        ClaimedReconciliationRunOutcome::Deferred { reason: "shutdown" }
    );
    assert_eq!(
        ReconciliationEngine::claimed_run_result(Some(Err(ProxyError::StaleClaim { job_id: 4, claim_generation: 9 })))
            .unwrap(),
        ClaimedReconciliationRunOutcome::StaleClaim
    );
    let completed = ClaimedReconciliationRunOutcome::Completed { settled: 1, no_adjustment: 2, observed: 3 };
    assert_eq!(ReconciliationEngine::claimed_run_result(Some(Ok(completed))).unwrap(), completed);
    assert!(matches!(
        ReconciliationEngine::claimed_run_result(Some(Err(ProxyError::Other("boom".to_string())))),
        Err(ProxyError::Other(message)) if message == "boom"
    ));
}

#[test]
fn summary_gate_reopens_after_a_minute() {
    assert_eq!(summary_emission_update(0, 5), Some(5));
    assert_eq!(summary_emission_update(100, 159), None);
    assert_eq!(summary_emission_update(100, 160), Some(160));
    assert_eq!(summary_emission_update(100, 40), None);
    let last = AtomicI64::new(0);
    assert!(should_emit_reconciliation_summary_at(&last, 10));
    assert_eq!(last.load(std::sync::atomic::Ordering::Relaxed), 10);
    assert!(!should_emit_reconciliation_summary_at(&last, 20));
    assert_eq!(last.load(std::sync::atomic::Ordering::Relaxed), 10);
}

#[test]
fn quota_sync_of_a_missing_key_is_a_database_error() {
    assert_eq!(TavilyProxy::quota_sync_api_key_secret(Some("tvly-1".to_string())).unwrap(), "tvly-1");
    assert!(matches!(TavilyProxy::quota_sync_api_key_secret(None), Err(ProxyError::Database(_))));
}

#[test]
fn summary_claim_reports_the_timestamp_it_found() {
    let last = std::sync::atomic::AtomicI64::new(0);
    assert_eq!(claim_reconciliation_summary_at(&last, 1_000), (true, 0));
    assert_eq!(claim_reconciliation_summary_at(&last, 1_059), (false, 1_000));
    assert_eq!(claim_reconciliation_summary_at(&last, 1_060), (true, 1_000));
    assert_eq!(last.load(std::sync::atomic::Ordering::Relaxed), 1_060);
}

#[test]
fn failed_claimed_run_task_becomes_an_error() {
    match ReconciliationEngine::joined_claimed_run_result(Err("task 7 panicked".to_string())) {
        Err(ProxyError::Other(m)) => assert_eq!(m, "reconciliation engine task failed: task 7 panicked"),
        other => panic!("unexpected {other:?}"),
    }
    match ReconciliationEngine::joined_claimed_run_result(Ok(Err(ProxyError::Other("boom".to_string())))) {
        Err(ProxyError::Other(m)) => assert_eq!(m, "boom"),
        other => panic!("unexpected {other:?}"),
    }
    match ReconciliationEngine::claimed_run_task_failure("") {
        ProxyError::Other(m) => assert_eq!(m, "reconciliation engine task failed: "),
        other => panic!("unexpected {other:?}"),
    }
}
