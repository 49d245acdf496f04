use tavily_hikari::pressure::{PressureRebuildAction, PressureRebuildCheckpoint, pressure_rebuild_step};
use tavily_hikari::pressure::{
    ServerPressureBucketsRebuildOutcome, pressure_bucket_rows, pressure_rebuild_shortcut, pressure_rebuild_windows,
    server_pressure_event_deltas, server_pressure_event_deltas_at, server_pressure_points,
};

#[test]
fn events_land_in_their_five_minute_bucket() {
    let deltas = server_pressure_event_deltas(1_000, "success", 0);
    assert_eq!(deltas.len(), 2);
    assert_eq!(deltas[0].bucket_kind, "five_minute");
    assert_eq!(deltas[0].bucket_start, 900);
    assert_eq!(deltas[0].bucket_secs, 300);
    assert_eq!((deltas[0].success_count, deltas[0].failure_count), (1, 0));
    assert_eq!(deltas[1].bucket_kind, "hour");
    assert_eq!(deltas[1].bucket_start, 0);
    assert_eq!(deltas[1].bucket_secs, 3600);
    let failure = server_pressure_event_deltas(-1, "error", -3600);
    assert_eq!(failure[0].bucket_start, -300);
    assert_eq!((failure[0].success_count, failure[0].failure_count), (0, 1));
    assert_eq!((failure[1].success_count, failure[1].failure_count), (0, 1));
    assert_eq!(server_pressure_event_deltas(600, "success", 0)[0].bucket_start, 600);
}

#[test]
fn events_take_their_local_hour() {
    let created_at = 1_752_500_123;
    let deltas = server_pressure_event_deltas_at(created_at, "success");
    assert_eq!(deltas.len(), 2);
    let hour = deltas[1].bucket_start;
    assert!(hour <= created_at && created_at - hour < 3600);
    assert_eq!(deltas[0].bucket_start, 1_752_500_100);
    assert!(server_pressure_event_deltas_at(i64::MAX, "success").is_empty());
}

#[test]
fn rebuild_windows_cover_two_and_eight_days() {
    assert_eq!(pressure_rebuild_windows(1_000_000), (1_000_000 - 172_800, 1_000_000 - 691_200));
    assert_eq!(pressure_rebuild_windows(i64::MIN), (i64::MIN, i64::MIN));
}

#[test]
fn rebuild_is_skipped_without_a_usable_request_log() {
    let skipped = Some(ServerPressureBucketsRebuildOutcome::Completed { upper_bound_request_log_id: 0 });
    assert_eq!(pressure_rebuild_shortcut(true, true), skipped);
    assert_eq!(pressure_rebuild_shortcut(false, false), skipped);
    assert_eq!(pressure_rebuild_shortcut(false, true), None);
}

#[test]
fn aggregated_rows_become_bucket_inserts() {
    let rows = vec![(300, 4, 1), (600, 0, 2)];
    let deltas = pressure_bucket_rows("five_minute", 300, &rows);
    assert_eq!(deltas.len(), 2);
    assert_eq!((deltas[1].bucket_start, deltas[1].success_count, deltas[1].failure_count), (600, 0, 2));
    assert_eq!(deltas[0].bucket_secs, 300);
}

#[test]
fn pressure_is_successes_plus_failures() {
    let points = server_pressure_points(&vec![(3600, 5, 2, 3600), (7200, 0, 0, 3600)]);
    assert_eq!(points.len(), 2);
    assert_eq!(points[0].pressure, 7);
    assert_eq!(points[0].display_bucket_start, 3600);
    assert_eq!(points[1].pressure, 0);
}

#[test]
fn event_hour_starts_on_a_local_minute_boundary() {
    let created_at = 1_752_500_123;
    let deltas = server_pressure_event_deltas_at(created_at, "error");
    assert_eq!(deltas.len(), 2);
    assert_eq!((deltas[1].success_count, deltas[1].failure_count), (0, 1));
    let past_hour = created_at - deltas[1].bucket_start;
    assert!((0..3600).contains(&past_hour));
    assert_eq!(deltas[1].bucket_secs, 3600);
}

#[test]
fn rebuild_checkpoints_cancel_and_commit() {
    assert_eq!(
        pressure_rebuild_step(PressureRebuildCheckpoint::BeforeAggregation, true, 7),
        PressureRebuildAction::Proceed
    );
    assert_eq!(
        pressure_rebuild_step(PressureRebuildCheckpoint::BeforeRewrite, false, 7),
        PressureRebuildAction::Stop(ServerPressureBucketsRebuildOutcome::Cancelled)
    );
    assert_eq!(
        pressure_rebuild_step(PressureRebuildCheckpoint::BeforeCommit, false, 7),
        PressureRebuildAction::RollBack(ServerPressureBucketsRebuildOutcome::Cancelled)
    );
    assert_eq!(
        pressure_rebuild_step(PressureRebuildCheckpoint::BeforeCommit, true, 7),
        PressureRebuildAction::Commit(ServerPressureBucketsRebuildOutcome::Completed { upper_bound_request_log_id: 7 })
    );
}

#[test]
fn event_deltas_follow_chronos_date_range() {
    assert_eq!(server_pressure_event_deltas_at(-8_334_601_228_800, "success").len(), 2);
    assert!(server_pressure_event_deltas_at(-8_334_601_228_801, "success").is_empty());
    assert!(server_pressure_event_deltas_at(8_210_266_876_800, "success").is_empty());
    assert_eq!(server_pressure_event_deltas_at(2_000_000_000_000, "success").len(), 2);
}

#[test]
fn local_hour_starts_at_the_local_minute_and_second() {
    use_local_hour_start();
}

fn use_local_hour_start() {
    assert_eq!(tavily_hikari::pressure::local_hour_start(1_752_500_123, 15, 23), 1_752_500_123 - 923);
    assert_eq!(tavily_hikari::pressure::local_hour_start(0, 0, 0), 0);
    assert_eq!(tavily_hikari::pressure::local_hour_start(3_599, 59, 59), 0);
}
