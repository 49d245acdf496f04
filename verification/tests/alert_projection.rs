use tavily_hikari::alert_projection::{
    ALERT_SOURCE_API_KEY_MAINTENANCE_RECORD, ALERT_SOURCE_AUTH_TOKEN_LOG, ALERT_SOURCE_SCHEDULED_JOB,
    AlertProjectionColdStartProbe, AlertProjectionCounts, AlertProjectionFencePlan, AlertProjectionLane,
    AlertProjectionSliceOutcome, AlertProjectionSourceKey, AlertProjectionSourceState, AlertProjectionStatus,
    alert_projection_admission_outcome, alert_projection_slice_end, alert_projection_slice_state,
    advanced_alert_projection_slice, alert_projection_fence_plan, alert_projection_needs_cold_start_probe,
    alert_projection_numeric_key, alert_projection_slice_complete, alert_projection_source_cursor_id,
    alert_projection_state_write, alert_projection_state_write_applied, alert_projection_status_from,
    alert_window_start, auth_token_log_row_sort_id, clamp_alert_window_hours, maintenance_record_row_sort_id,
    recent_alerts_health, scheduled_job_row_sort_id, select_alert_projection_state, settle_alert_projection_slice,
};
use tavily_hikari::error::ProxyError;
use tavily_hikari::proxy::TavilyProxy;

#[test]
fn numeric_sort_ids_are_zero_padded_to_twenty() {
    assert_eq!(auth_token_log_row_sort_id(42), "atl:00000000000000000042");
    assert_eq!(scheduled_job_row_sort_id(7), "job:00000000000000000007");
    assert_eq!(auth_token_log_row_sort_id(-5), "atl:-0000000000000000005");
    assert_eq!(auth_token_log_row_sort_id(i64::MIN), "atl:-9223372036854775808");
    assert_eq!(maintenance_record_row_sort_id("m-1"), "maint:m-1");
}

#[test]
fn cursor_ids_strip_prefix_and_zeros() {
    assert_eq!(alert_projection_source_cursor_id(ALERT_SOURCE_AUTH_TOKEN_LOG, "atl:00000000000000000042"), "42");
    assert_eq!(alert_projection_source_cursor_id(ALERT_SOURCE_SCHEDULED_JOB, "job:00000000000000000100"), "100");
    assert_eq!(alert_projection_source_cursor_id(ALERT_SOURCE_API_KEY_MAINTENANCE_RECORD, "maint:00ab"), "00ab");
    assert_eq!(alert_projection_source_cursor_id(ALERT_SOURCE_AUTH_TOKEN_LOG, "job:5"), "");
    assert_eq!(alert_projection_source_cursor_id("unknown", "atl:5"), "");
    assert_eq!(alert_projection_source_cursor_id(ALERT_SOURCE_AUTH_TOKEN_LOG, "atl:00000000000000000000"), "");
}

#[test]
fn numeric_cursors_round_trip_to_ids() {
    for id in [0_i64, 1, 42, 1_000_000, -5, i64::MAX, i64::MIN] {
        let sort_id = auth_token_log_row_sort_id(id);
        let key = alert_projection_source_cursor_id(ALERT_SOURCE_AUTH_TOKEN_LOG, &sort_id);
        assert_eq!(alert_projection_numeric_key(&key), id);
        let job = scheduled_job_row_sort_id(id);
        let key = alert_projection_source_cursor_id(ALERT_SOURCE_SCHEDULED_JOB, &job);
        assert_eq!(alert_projection_numeric_key(&key), id);
    }
}

#[test]
fn numeric_keys_parse_like_i64() {
    assert_eq!(alert_projection_numeric_key("+17"), 17);
    assert_eq!(alert_projection_numeric_key("-0"), 0);
    assert_eq!(alert_projection_numeric_key(""), 0);
    assert_eq!(alert_projection_numeric_key("-"), 0);
    assert_eq!(alert_projection_numeric_key("12a"), 0);
    assert_eq!(alert_projection_numeric_key("9223372036854775808"), 0);
    assert_eq!(alert_projection_numeric_key("-9223372036854775808"), i64::MIN);
}

fn state(lane: AlertProjectionLane, generation: i64, fence: Option<(i64, &str)>) -> AlertProjectionSourceState {
    AlertProjectionSourceState {
        source_kind: ALERT_SOURCE_AUTH_TOKEN_LOG.to_string(),
        cursor_occurred_at: 10,
        cursor_row_sort_id: "atl:00000000000000000001".to_string(),
        fence_occurred_at: fence.map(|f| f.0),
        fence_row_sort_id: fence.map(|f| f.1.to_string()),
        generation,
        lane,
    }
}

#[test]
fn history_lane_runs_once_the_tail_catches_up() {
    let recent = state(AlertProjectionLane::RecentTail, 5, None);
    let behind = state(AlertProjectionLane::History, 5, None);
    assert_eq!(select_alert_projection_state(recent.clone(), Some(behind)).lane, AlertProjectionLane::History);
    let ahead = state(AlertProjectionLane::History, 6, None);
    assert_eq!(select_alert_projection_state(recent.clone(), Some(ahead)).lane, AlertProjectionLane::RecentTail);
    assert_eq!(select_alert_projection_state(recent, None).lane, AlertProjectionLane::RecentTail);
}

#[test]
fn fence_plans_follow_the_lane() {
    assert_eq!(
        alert_projection_fence_plan(&state(AlertProjectionLane::History, 1, Some((9, "atl:9")))),
        AlertProjectionFencePlan::Recorded(9, "atl:9".to_string())
    );
    assert_eq!(
        alert_projection_fence_plan(&state(AlertProjectionLane::RecentTail, 1, None)),
        AlertProjectionFencePlan::LookUpSource
    );
    assert_eq!(
        alert_projection_fence_plan(&state(AlertProjectionLane::History, 1, None)),
        AlertProjectionFencePlan::Finished
    );
}

#[test]
fn slices_complete_at_the_fence_or_on_a_short_batch() {
    assert!(alert_projection_slice_complete(Some((9, "atl:9")), 9, "atl:9", 25));
    assert!(alert_projection_slice_complete(None, 9, "atl:9", 0));
    assert!(alert_projection_slice_complete(Some((5, "atl:5")), 9, "atl:9", 24));
    assert!(!alert_projection_slice_complete(Some((5, "atl:5")), 9, "atl:9", 25));
}

#[test]
fn only_recent_rows_dirty_the_dashboard() {
    assert_eq!(
        advanced_alert_projection_slice(AlertProjectionLane::RecentTail, 3, false),
        AlertProjectionSliceOutcome::Advanced { rows: 3, complete: false, dashboard_dirty: true }
    );
    assert_eq!(
        advanced_alert_projection_slice(AlertProjectionLane::History, 3, true),
        AlertProjectionSliceOutcome::Advanced { rows: 3, complete: true, dashboard_dirty: false }
    );
    assert_eq!(
        advanced_alert_projection_slice(AlertProjectionLane::RecentTail, 0, true),
        AlertProjectionSliceOutcome::Advanced { rows: 0, complete: true, dashboard_dirty: false }
    );
}

#[test]
fn slice_state_writes_track_cursor_and_fence() {
    let s = state(AlertProjectionLane::RecentTail, 1, None);
    let done = alert_projection_state_write(&s, None, None, true).unwrap();
    assert_eq!(done.cursor_occurred_at, 10);
    assert_eq!(done.phase, "idle");
    assert_eq!(done.fence_row_sort_id, None);
    assert_eq!(done.generation, 2);
    let moving = alert_projection_state_write(&s, Some((20, "atl:20".to_string())), Some((15, "atl:15".to_string())), false)
        .unwrap();
    assert_eq!(moving.cursor_row_sort_id, "atl:15");
    assert_eq!(moving.fence_occurred_at, Some(20));
    assert_eq!(moving.phase, "catching_up");
    assert_eq!(moving.generation, 2);
    assert!(matches!(
        alert_projection_state_write(&s, None, None, false),
        Err(ProxyError::Other(m)) if m == "alert projection slice is missing source fence"
    ));
    assert!(alert_projection_state_write_applied(1).is_ok());
    assert!(matches!(
        alert_projection_state_write_applied(0),
        Err(ProxyError::Other(m)) if m == "alert projection state changed while a slice was in flight"
    ));
}

fn counts(sources: i64, idle: i64, fresh: i64, stale: Option<&str>, history: i64, idle_history: i64) -> AlertProjectionCounts {
    AlertProjectionCounts {
        sources,
        observed_at: Some(1_752_500_000),
        idle_sources: idle,
        fresh_sources: fresh,
        stale_reason: stale.map(|s| s.to_string()),
        history_sources: history,
        idle_history_sources: idle_history,
    }
}

#[test]
fn projection_marks_expired_observation_as_stale() {
    let status = alert_projection_status_from(counts(3, 3, 1, None, 3, 3), None);
    assert_eq!(status.recent_coverage, "stale");
    assert_eq!(status.coverage, "stale");
    assert_eq!(status.stale_reason.as_deref(), Some("observation_expired"));
}

#[test]
fn fully_projected_sources_are_ok() {
    let status = alert_projection_status_from(counts(3, 3, 3, None, 3, 3), None);
    assert_eq!(status.recent_coverage, "ok");
    assert_eq!(status.coverage, "ok");
    assert_eq!(status.stale_reason, None);
    let history_behind = alert_projection_status_from(counts(3, 3, 3, None, 3, 1), None);
    assert_eq!(history_behind.recent_coverage, "ok");
    assert_eq!(history_behind.coverage, "projecting");
}

#[test]
fn cold_projection_without_events_serves_empty_recent_view() {
    let c = counts(3, 1, 1, None, 3, 0);
    assert!(alert_projection_needs_cold_start_probe(&c));
    let empty = alert_projection_status_from(c.clone(), Some(AlertProjectionColdStartProbe {
        incomplete_sources: 2,
        any_source_has_events: false,
    }));
    assert_eq!(empty.recent_coverage, "ok");
    assert_eq!(empty.coverage, "projecting");
    let busy = alert_projection_status_from(c, Some(AlertProjectionColdStartProbe {
        incomplete_sources: 2,
        any_source_has_events: true,
    }));
    assert_eq!(busy.recent_coverage, "projecting");
    let recorded = counts(2, 1, 1, Some("source_failed"), 3, 3);
    assert!(!alert_projection_needs_cold_start_probe(&recorded));
    let status = alert_projection_status_from(recorded, None);
    assert_eq!(status.recent_coverage, "stale");
    assert_eq!(status.stale_reason.as_deref(), Some("source_failed"));
}

#[test]
fn recent_alert_health_reports_catching_up() {
    let ok = AlertProjectionStatus {
        coverage: "ok".to_string(),
        recent_coverage: "ok".to_string(),
        observed_at: None,
        stale_reason: None,
    };
    let health = recent_alerts_health(&ok);
    assert!(!health.stale);
    assert_eq!(health.error, None);
    let catching_up = AlertProjectionStatus { recent_coverage: "projecting".to_string(), ..ok.clone() };
    let health = recent_alerts_health(&catching_up);
    assert!(health.stale);
    assert_eq!(health.error.as_deref(), Some("projection_catching_up"));
    let stale = AlertProjectionStatus { stale_reason: Some("observation_expired".to_string()), ..ok };
    let health = recent_alerts_health(&stale);
    assert!(health.stale);
    assert_eq!(health.error.as_deref(), Some("observation_expired"));
}

#[test]
fn alert_windows_are_clamped_and_saturating() {
    assert_eq!(clamp_alert_window_hours(0), 1);
    assert_eq!(clamp_alert_window_hours(24), 24);
    assert_eq!(clamp_alert_window_hours(100_000), 720);
    assert_eq!(alert_window_start(1_752_500_000, 24), 1_752_500_000 - 86_400);
    assert_eq!(alert_window_start(i64::MIN + 10, 1), i64::MIN);
    assert_eq!(alert_window_start(0, i64::MAX), -i64::MAX);
}

#[test]
fn scheduler_refreshes_dashboard_on_dirty_complete_or_idle() {
    let dirty = AlertProjectionSliceOutcome::Advanced { rows: 2, complete: false, dashboard_dirty: true };
    let complete = AlertProjectionSliceOutcome::Advanced { rows: 0, complete: true, dashboard_dirty: false };
    let partial = AlertProjectionSliceOutcome::Advanced { rows: 25, complete: false, dashboard_dirty: false };
    let deferred = AlertProjectionSliceOutcome::Deferred { reason: "recent_contention" };
    assert_eq!(TavilyProxy::advance_dashboard_alert_projection_scheduler_step(dirty), (true, (true, false)));
    assert_eq!(TavilyProxy::advance_dashboard_alert_projection_scheduler_step(complete), (true, (false, false)));
    assert_eq!(TavilyProxy::advance_dashboard_alert_projection_scheduler_step(partial), (false, (false, false)));
    assert_eq!(TavilyProxy::advance_dashboard_alert_projection_scheduler_step(AlertProjectionSliceOutcome::Idle), (true, (false, true)));
    assert_eq!(TavilyProxy::advance_dashboard_alert_projection_scheduler_step(deferred), (false, (false, false)));
    assert_eq!(TavilyProxy::advance_dashboard_alert_projection_slice(dirty), (true, true));
    assert_eq!(TavilyProxy::advance_dashboard_alert_projection_slice(complete), (true, false));
    assert_eq!(TavilyProxy::advance_dashboard_alert_projection_slice(deferred), (false, false));
}

#[test]
fn admin_alert_reads_defer_only_when_refused() {
    assert_eq!(TavilyProxy::admin_alert_read_defer_reason::<()>(Ok(())), None);
    assert_eq!(TavilyProxy::admin_alert_read_defer_reason::<()>(Err("maintenance_busy")), Some("maintenance_busy"));
}

#[test]
fn transient_contention_defers_a_slice() {
    assert_eq!(
        settle_alert_projection_slice(Err(ProxyError::Database("locked".to_string())), true).unwrap(),
        AlertProjectionSliceOutcome::Deferred { reason: "recent_contention" }
    );
    assert!(settle_alert_projection_slice(Err(ProxyError::Database("corrupt".to_string())), false).is_err());
    assert_eq!(
        settle_alert_projection_slice(Ok(AlertProjectionSliceOutcome::Idle), true).unwrap(),
        AlertProjectionSliceOutcome::Idle
    );
}

fn source_key(n: i64) -> AlertProjectionSourceKey {
    AlertProjectionSourceKey {
        source_id: n.to_string(),
        occurred_at: 100 + n,
        row_sort_id: auth_token_log_row_sort_id(n),
    }
}

#[test]
fn refused_admission_defers_the_slice() {
    assert_eq!(
        alert_projection_admission_outcome(Some("foreground_busy")),
        Some(AlertProjectionSliceOutcome::Deferred { reason: "foreground_busy" })
    );
    assert_eq!(alert_projection_admission_outcome(None), None);
}

#[test]
fn finished_history_slice_advances_nothing() {
    let end = alert_projection_slice_end(AlertProjectionLane::History, AlertProjectionFencePlan::Finished, None, &Vec::new(), 0);
    assert_eq!(end.fence, None);
    assert_eq!(end.next_cursor, None);
    assert!(end.complete);
    assert_eq!(end.outcome, AlertProjectionSliceOutcome::Advanced { rows: 0, complete: true, dashboard_dirty: false });
    let empty_source = alert_projection_slice_end(
        AlertProjectionLane::RecentTail, AlertProjectionFencePlan::LookUpSource, None, &Vec::new(), 0);
    assert_eq!(empty_source.outcome, AlertProjectionSliceOutcome::Advanced { rows: 0, complete: true, dashboard_dirty: false });
}

#[test]
fn slice_cursor_moves_to_the_last_key_read() {
    let keys: Vec<AlertProjectionSourceKey> = (1..=25).map(source_key).collect();
    let fence = (200, auth_token_log_row_sort_id(90));
    let end = alert_projection_slice_end(
        AlertProjectionLane::RecentTail, AlertProjectionFencePlan::Recorded(fence.0, fence.1.clone()), None, &keys, 25);
    assert_eq!(end.fence, Some(fence));
    assert_eq!(end.next_cursor, Some((125, auth_token_log_row_sort_id(25))));
    assert!(!end.complete);
    assert_eq!(end.outcome, AlertProjectionSliceOutcome::Advanced { rows: 25, complete: false, dashboard_dirty: true });

    let reached = alert_projection_slice_end(
        AlertProjectionLane::History, AlertProjectionFencePlan::LookUpSource,
        Some((125, auth_token_log_row_sort_id(25))), &keys, 25);
    assert!(reached.complete);
    assert_eq!(reached.outcome, AlertProjectionSliceOutcome::Advanced { rows: 25, complete: true, dashboard_dirty: false });

    let short: Vec<AlertProjectionSourceKey> = (1..=3).map(source_key).collect();
    let partial = alert_projection_slice_end(
        AlertProjectionLane::RecentTail, AlertProjectionFencePlan::Recorded(200, auth_token_log_row_sort_id(90)), None, &short, 0);
    assert!(partial.complete);
    assert_eq!(partial.next_cursor, Some((103, auth_token_log_row_sort_id(3))));
    assert_eq!(partial.outcome, AlertProjectionSliceOutcome::Advanced { rows: 0, complete: true, dashboard_dirty: false });
}

#[test]
fn missing_tail_state_is_an_error() {
    let tail = AlertProjectionSourceState {
        source_kind: ALERT_SOURCE_AUTH_TOKEN_LOG.to_string(),
        cursor_occurred_at: 0,
        cursor_row_sort_id: String::new(),
        fence_occurred_at: None,
        fence_row_sort_id: None,
        generation: 3,
        lane: AlertProjectionLane::RecentTail,
    };
    let mut history = tail.clone();
    history.lane = AlertProjectionLane::History;
    history.generation = 2;
    match alert_projection_slice_state(None, Some(history.clone())) {
        Err(ProxyError::Other(m)) => assert_eq!(m, "missing alert projection tail state"),
        _ => panic!("a missing tail state must be an error"),
    }
    let chosen = alert_projection_slice_state(Some(tail.clone()), Some(history)).ok().unwrap();
    assert_eq!(chosen.lane, AlertProjectionLane::History);
    let only_tail = alert_projection_slice_state(Some(tail), None).ok().unwrap();
    assert_eq!(only_tail.lane, AlertProjectionLane::RecentTail);
}

#[test]
fn positive_numeric_cursor_ids_are_decimal_text() {
    for id in 1..=1000i64 {
        assert_eq!(alert_projection_source_cursor_id(ALERT_SOURCE_AUTH_TOKEN_LOG, &auth_token_log_row_sort_id(id)), id.to_string());
        assert_eq!(alert_projection_source_cursor_id(ALERT_SOURCE_SCHEDULED_JOB, &scheduled_job_row_sort_id(id)), id.to_string());
    }
    let big = i64::MAX;
    assert_eq!(alert_projection_source_cursor_id(ALERT_SOURCE_AUTH_TOKEN_LOG, &auth_token_log_row_sort_id(big)), big.to_string());
}
