//! Server pressure buckets: success and failure counts of business calls per
//! five-minute and per local-hour bucket, derived from the request log.

use vstd::prelude::*;
use crate::calendar::utc_timestamp_representable;
use crate::text::{clamp_i64, saturating_sub_i64, str_eq};
use chrono::{TimeZone, Timelike};

verus! {

pub const SECS_PER_FIVE_MINUTES: i64 = 300;
pub const SECS_PER_HOUR: i64 = 3600;
pub const SECS_PER_DAY: i64 = 86400;
/// Result status of a successful request.
pub const OUTCOME_SUCCESS: &'static str = "success";
/// Result status of a request refused for exhausted quota.
pub const OUTCOME_QUOTA_EXHAUSTED: &'static str = "quota_exhausted";
/// Bucket kind of five-minute buckets.
pub const BUCKET_KIND_FIVE_MINUTE: &'static str = "five_minute";
/// Bucket kind of local-hour buckets.
pub const BUCKET_KIND_HOUR: &'static str = "hour";

/// A coalesced derived-pressure delta. It contains no request payload or
/// identity and can always be rebuilt from the observability request log.
#[derive(Clone, Debug, PartialEq, Eq)]
pub struct ServerPressureBucketDelta {
    pub bucket_kind: &'static str,
    pub bucket_start: i64,
    pub bucket_secs: i64,
    pub success_count: i64,
    pub failure_count: i64,
}

/// One point of the pressure chart.
#[derive(Clone, Debug, PartialEq, Eq)]
pub struct AnalysisPressurePoint {
    pub bucket_start: i64,
    pub display_bucket_start: i64,
    pub pressure: i64,
    pub success_count: i64,
    pub failure_count: i64,
}

/// How a rebuild of the pressure buckets ended.
#[derive(Clone, Copy, Debug, PartialEq, Eq)]
pub enum ServerPressureBucketsRebuildOutcome {
    Completed { upper_bound_request_log_id: i64 },
    Cancelled,
}

/// The five-minute bucket of a UTC timestamp.
pub open spec fn five_minute_bucket_start(created_at: int) -> int {
    created_at - created_at % 300
}

/// The deltas one business call adds: one to the success count when its
/// status is `success`, else one to the failure count, in its five-minute
/// bucket and in its local-hour bucket.
pub open spec fn event_deltas_are(
    deltas: Seq<ServerPressureBucketDelta>,
    created_at: int,
    success: bool,
    hour_bucket_start: int,
) -> bool {
    let (s, f) = if success { (1int, 0int) } else { (0int, 1int) };
    &&& deltas.len() == 2
    &&& deltas[0].bucket_kind == BUCKET_KIND_FIVE_MINUTE
    &&& deltas[0].bucket_start == five_minute_bucket_start(created_at)
    &&& deltas[0].bucket_secs == SECS_PER_FIVE_MINUTES
    &&& deltas[0].success_count == s && deltas[0].failure_count == f
    &&& deltas[1].bucket_kind == BUCKET_KIND_HOUR
    &&& deltas[1].bucket_start == hour_bucket_start
    &&& deltas[1].bucket_secs == SECS_PER_HOUR
    &&& deltas[1].success_count == s && deltas[1].failure_count == f
}

/// The minute and second of the UTC timestamp `ts` on the machine's local
/// clock (`Utc.timestamp_opt(ts, 0).single()`, `with_timezone(&Local)`,
/// `minute`, `second`). `None` exactly where chrono cannot represent `ts`:
/// `DateTime::from_timestamp` accepts the `ts` whose UTC date lies in
/// `NaiveDate::MIN..=NaiveDate::MAX`, and the conversion to the local zone
/// does not fail. Of the local clock nothing
/// more is stated than the ranges of a minute and a second: the time zone's
/// offset is the machine's.
#[verifier::external_body]
fn local_minute_second(ts: i64) -> (r: Option<(u32, u32)>)
    ensures
        r matches Some((m, s)) ==> m < 60 && s < 60,
        r is Some <==> utc_timestamp_representable(ts as int),
{
    let local = chrono::Utc.timestamp_opt(ts, 0).single()?.with_timezone(&chrono::Local);
    Some((local.minute(), local.second()))
}

/// The deltas of one business call created at `created_at` with
/// `result_status`, given the start of its local hour.
pub fn server_pressure_event_deltas(
    created_at: i64,
    result_status: &str,
    hour_bucket_start: i64,
) -> (deltas: Vec<ServerPressureBucketDelta>)
    requires
        created_at >= i64::MIN + 300,
    ensures
        event_deltas_are(deltas@, created_at as int, result_status@ == OUTCOME_SUCCESS@, hour_bucket_start as int),
{
    let success = str_eq(result_status, OUTCOME_SUCCESS);
    let (s, f): (i64, i64) = if success { (1, 0) } else { (0, 1) };
    let mut rem = created_at % 300;
    if rem < 0 {
        rem = rem + 300;
    }
    proof {
        assert(rem as int == (created_at as int) % 300);
    }
    let mut deltas: Vec<ServerPressureBucketDelta> = Vec::new();
    deltas.push(ServerPressureBucketDelta {
        bucket_kind: BUCKET_KIND_FIVE_MINUTE,
        bucket_start: created_at - rem,
        bucket_secs: SECS_PER_FIVE_MINUTES,
        success_count: s,
        failure_count: f,
    });
    deltas.push(ServerPressureBucketDelta {
        bucket_kind: BUCKET_KIND_HOUR,
        bucket_start: hour_bucket_start,
        bucket_secs: SECS_PER_HOUR,
        success_count: s,
        failure_count: f,
    });
    deltas
}

/// The start of the local hour holding `created_at`, when the local clock
/// shows `minute` minutes and `second` seconds past the hour at that time.
pub fn local_hour_start(created_at: i64, minute: u32, second: u32) -> (r: i64)
    requires
        minute < 60,
        second < 60,
        created_at >= i64::MIN + 3600,
    ensures
        r == created_at - 60 * minute - second,
        r == local_hour_bucket_start(created_at as int, minute as int, second as int),
{
    created_at - (minute as i64 * 60 + second as i64)
}

/// The start of the local hour holding `created_at`, when the local clock
/// shows `minute` minutes and `second` seconds past the hour at that time.
pub open spec fn local_hour_bucket_start(created_at: int, minute: int, second: int) -> int {
    created_at - 60 * minute - second
}

/// The deltas of one business call at `created_at`, given what the local
/// clock shows at that time as `(minute, second)` past the hour (`None` when
/// chrono cannot place the instant): none without a clock reading, else the
/// five-minute delta and the delta of the local hour that the reading puts
/// the call in.
pub fn server_pressure_event_deltas_on_clock(
    created_at: i64,
    result_status: &str,
    clock: Option<(u32, u32)>,
) -> (deltas: Vec<ServerPressureBucketDelta>)
    requires
        clock matches Some((m, s)) ==> m < 60 && s < 60 && created_at >= i64::MIN + 3600,
    ensures
        clock is None ==> deltas@.len() == 0,
        clock matches Some((m, s)) ==> event_deltas_are(
            deltas@,
            created_at as int,
            result_status@ == OUTCOME_SUCCESS@,
            local_hour_bucket_start(created_at as int, m as int, s as int),
        ),
{
    match clock {
        None => Vec::new(),
        Some((minute, second)) => {
            server_pressure_event_deltas(created_at, result_status, local_hour_start(created_at, minute, second))
        }
    }
}

/// Two calls whose local clock readings differ by exactly the time between
/// them, both within one local hour, fall into the same hour bucket; and
/// the bucket starts where the clock shows the top of the hour.
pub proof fn lemma_one_local_hour_one_bucket(
    first: int,
    first_minute: int,
    first_second: int,
    later: int,
    later_minute: int,
    later_second: int,
)
    requires
        0 <= first_minute < 60 && 0 <= first_second < 60,
        0 <= later_minute < 60 && 0 <= later_second < 60,
        later - first == (60 * later_minute + later_second) - (60 * first_minute + first_second),
    ensures
        local_hour_bucket_start(first, first_minute, first_second)
            == local_hour_bucket_start(later, later_minute, later_second),
        first - 3600 < local_hour_bucket_start(first, first_minute, first_second) <= first,
        local_hour_bucket_start(first, first_minute, first_second) + 60 * first_minute + first_second == first,
{
}

/// The deltas of one business call, with its local hour taken from the
/// machine's time zone: the hour starts at `created_at` less the minutes and
/// seconds that the local clock shows past the hour. No deltas exactly when
/// chrono cannot place the timestamp.
pub fn server_pressure_event_deltas_at(created_at: i64, result_status: &str) -> (deltas: Vec<ServerPressureBucketDelta>)
    ensures
        deltas@.len() == 0 || (event_deltas_are(deltas@, created_at as int, result_status@ == OUTCOME_SUCCESS@, deltas@[1].bucket_start as int)
            && created_at - 3600 < deltas@[1].bucket_start <= created_at),
        deltas@.len() == 2 <==> utc_timestamp_representable(created_at as int),
{
    let clock = local_minute_second(created_at);
    server_pressure_event_deltas_on_clock(created_at, result_status, clock)
}

/// The lower bounds of a rebuild at `updated_at`: two days of five-minute
/// buckets and eight days of hour buckets, with saturating arithmetic.
pub fn pressure_rebuild_windows(updated_at: i64) -> (r: (i64, i64))
    ensures
        r.0 as int == clamp_i64(updated_at - 48 * 3600),
        r.1 as int == clamp_i64(updated_at - 8 * 86400),
{
    (saturating_sub_i64(updated_at, 48 * SECS_PER_HOUR), saturating_sub_i64(updated_at, 8 * SECS_PER_DAY))
}

/// A rebuild ends at once, with nothing to rebuild, on a legacy single
/// database or a request log that lacks the needed columns.
pub fn pressure_rebuild_shortcut(legacy_single_db: bool, request_logs_supported: bool) -> (r: Option<ServerPressureBucketsRebuildOutcome>)
    ensures
        r == (if legacy_single_db || !request_logs_supported {
            Some(ServerPressureBucketsRebuildOutcome::Completed { upper_bound_request_log_id: 0 })
        } else {
            None
        }),
{
    if legacy_single_db || !request_logs_supported {
        Some(ServerPressureBucketsRebuildOutcome::Completed { upper_bound_request_log_id: 0 })
    } else {
        None
    }
}

/// The three points at which a rebuild asks whether to go on: before it
/// aggregates the request log, before it rewrites the buckets, and after
/// the rewrite, before it commits.
#[derive(Clone, Copy, Debug, PartialEq, Eq)]
pub enum PressureRebuildCheckpoint {
    BeforeAggregation,
    BeforeRewrite,
    BeforeCommit,
}

/// What a rebuild does at a checkpoint.
#[derive(Clone, Copy, Debug, PartialEq, Eq)]
pub enum PressureRebuildAction {
    /// Go on to the next stage.
    Proceed,
    /// Stop with this outcome; nothing was written.
    Stop(ServerPressureBucketsRebuildOutcome),
    /// Roll the rewrite back and stop with this outcome.
    RollBack(ServerPressureBucketsRebuildOutcome),
    /// Commit the rewrite and stop with this outcome.
    Commit(ServerPressureBucketsRebuildOutcome),
}

/// The step of a rebuild at `checkpoint` when the caller's `should_continue`
/// answered `go_on`: a stop is a cancellation, rolled back once the rewrite
/// has begun; going on after the rewrite commits it and completes the
/// rebuild up to `upper_bound_request_log_id`.
pub fn pressure_rebuild_step(
    checkpoint: PressureRebuildCheckpoint,
    go_on: bool,
    upper_bound_request_log_id: i64,
) -> (r: PressureRebuildAction)
    ensures
        r == (if !go_on {
            if checkpoint == PressureRebuildCheckpoint::BeforeCommit {
                PressureRebuildAction::RollBack(ServerPressureBucketsRebuildOutcome::Cancelled)
            } else {
                PressureRebuildAction::Stop(ServerPressureBucketsRebuildOutcome::Cancelled)
            }
        } else if checkpoint == PressureRebuildCheckpoint::BeforeCommit {
            PressureRebuildAction::Commit(ServerPressureBucketsRebuildOutcome::Completed { upper_bound_request_log_id })
        } else {
            PressureRebuildAction::Proceed
        }),
{
    match checkpoint {
        PressureRebuildCheckpoint::BeforeCommit => if go_on {
            PressureRebuildAction::Commit(ServerPressureBucketsRebuildOutcome::Completed { upper_bound_request_log_id })
        } else {
            PressureRebuildAction::RollBack(ServerPressureBucketsRebuildOutcome::Cancelled)
        },
        _ => if go_on {
            PressureRebuildAction::Proceed
        } else {
            PressureRebuildAction::Stop(ServerPressureBucketsRebuildOutcome::Cancelled)
        },
    }
}

/// The buckets to insert for aggregated rows `(bucket_start, successes,
/// failures)` of one bucket kind.
pub fn pressure_bucket_rows(
    bucket_kind: &'static str,
    bucket_secs: i64,
    rows: &Vec<(i64, i64, i64)>,
) -> (deltas: Vec<ServerPressureBucketDelta>)
    ensures
        deltas@.len() == rows@.len(),
        forall|i: int| 0 <= i < rows@.len() ==> #[trigger] deltas@[i] == (ServerPressureBucketDelta {
            bucket_kind,
            bucket_start: rows@[i].0,
            bucket_secs,
            success_count: rows@[i].1,
            failure_count: rows@[i].2,
        }),
{
    let mut deltas: Vec<ServerPressureBucketDelta> = Vec::new();
    let mut i: usize = 0;
    while i < rows.len()
        invariant
            i <= rows@.len(),
            deltas@.len() == i,
            forall|k: int| 0 <= k < i ==> #[trigger] deltas@[k] == (ServerPressureBucketDelta {
                bucket_kind,
                bucket_start: rows@[k].0,
                bucket_secs,
                success_count: rows@[k].1,
                failure_count: rows@[k].2,
            }),
        decreases rows@.len() - i,
    {
        let (start, s, f) = rows[i];
        deltas.push(ServerPressureBucketDelta {
            bucket_kind,
            bucket_start: start,
            bucket_secs,
            success_count: s,
            failure_count: f,
        });
        i = i + 1;
    }
    deltas
}

/// Chart points from bucket rows `(bucket_start, successes, failures,
/// bucket_secs)`: the pressure of a bucket is its successes plus failures.
pub fn server_pressure_points(rows: &Vec<(i64, i64, i64, i64)>) -> (points: Vec<AnalysisPressurePoint>)
    requires
        forall|i: int| 0 <= i < rows@.len() ==> i64::MIN <= #[trigger] rows@[i].1 + rows@[i].2 <= i64::MAX,
    ensures
        points@.len() == rows@.len(),
        forall|i: int| 0 <= i < rows@.len() ==> #[trigger] points@[i] == (AnalysisPressurePoint {
            bucket_start: rows@[i].0,
            display_bucket_start: rows@[i].0,
            pressure: (rows@[i].1 + rows@[i].2) as i64,
            success_count: rows@[i].1,
            failure_count: rows@[i].2,
        }),
{
    let mut points: Vec<AnalysisPressurePoint> = Vec::new();
    let mut i: usize = 0;
    while i < rows.len()
        invariant
            i <= rows@.len(),
            points@.len() == i,
            forall|k: int| 0 <= k < rows@.len() ==> i64::MIN <= #[trigger] rows@[k].1 + rows@[k].2 <= i64::MAX,
            forall|k: int| 0 <= k < i ==> #[trigger] points@[k] == (AnalysisPressurePoint {
                bucket_start: rows@[k].0,
                display_bucket_start: rows@[k].0,
                pressure: (rows@[k].1 + rows@[k].2) as i64,
                success_count: rows@[k].1,
                failure_count: rows@[k].2,
            }),
        decreases rows@.len() - i,
    {
        let (start, s, f, _secs) = rows[i];
        proof {
            assert(i64::MIN <= rows@[i as int].1 + rows@[i as int].2 <= i64::MAX);
        }
        points.push(AnalysisPressurePoint {
            bucket_start: start,
            display_bucket_start: start,
            pressure: s + f,
            success_count: s,
            failure_count: f,
        });
        i = i + 1;
    }
    points
}

/// Every business call lands in the five-minute bucket that contains it,
/// and that bucket starts on a five-minute boundary.
pub proof fn lemma_five_minute_bucket_contains_event(created_at: int)
    ensures
        five_minute_bucket_start(created_at) <= created_at < five_minute_bucket_start(created_at) + 300,
        five_minute_bucket_start(created_at) % 300 == 0,
{
    assert((created_at - created_at % 300) % 300 == 0) by (nonlinear_arith);
}

/// Each business call counts once: as a success or as a failure, never both,
/// in each of its two buckets.
pub proof fn lemma_event_counts_once(
    deltas: Seq<ServerPressureBucketDelta>,
    created_at: int,
    success: bool,
    hour: int,
)
    requires
        event_deltas_are(deltas, created_at, success, hour),
    ensures
        forall|i: int| 0 <= i < 2 ==> #[trigger] deltas[i].success_count + deltas[i].failure_count == 1,
{
}

} // verus!
