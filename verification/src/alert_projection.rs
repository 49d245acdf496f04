//! Dashboard alert projection: the identifiers that order source rows, the
//! choice and bookkeeping of each bounded projection slice, and the coverage
//! that the projection reports.

use vstd::prelude::*;
use crate::error::ProxyError;
use crate::text::{
    chars_of, clamp_i64, decimal_seq, lemma_decimal_value, lemma_trim_zero_padded, lemma_zero_padded_value,
    opt_view, parse_i64_or_zero, parsed_i64, push_signed_zero_padded, saturating_mul_i64, saturating_sub_i64,
    signed_zero_padded, str_eq, string_of_chars, strip_prefix_chars, strip_prefix_seq, trim_leading_zero_chars,
    trim_leading_zeros, zero_padded,
};

verus! {

/// Rows projected per slice at most.
pub const ALERT_PROJECTION_BATCH_ROWS: i64 = 25;
/// Age in seconds after which a source's observation counts as expired.
pub const ALERT_PROJECTION_STALE_SECS: i64 = 90;
/// Alerts derived from auth token request logs.
pub const ALERT_SOURCE_AUTH_TOKEN_LOG: &'static str = "auth_token_log";
/// Alerts derived from API key maintenance records.
pub const ALERT_SOURCE_API_KEY_MAINTENANCE_RECORD: &'static str = "api_key_maintenance_record";
/// Alerts derived from failed scheduled jobs.
pub const ALERT_SOURCE_SCHEDULED_JOB: &'static str = "scheduled_job";
/// Number of alert sources the projection follows.
pub const ALERT_PROJECTION_SOURCE_COUNT: i64 = 3;

/// The sort key of a row with a numeric id: `prefix` and the id zero padded
/// to 20 characters (`format!("{prefix}{id:020}")`).
pub open spec fn numeric_row_sort_id(prefix: Seq<char>, id: int) -> Seq<char> {
    prefix + signed_zero_padded(id, 20)
}

/// The key part of a row sort id, as the source's own query compares it:
/// the prefix removed (nothing when it is missing) and, for numeric ids,
/// leading zeros removed; nothing for an unknown source.
pub open spec fn cursor_id_of(source_kind: Seq<char>, row_sort_id: Seq<char>) -> Seq<char> {
    if source_kind == ALERT_SOURCE_AUTH_TOKEN_LOG@ {
        trim_leading_zeros(strip_prefix_seq(row_sort_id, "atl:"@).unwrap_or(Seq::empty()))
    } else if source_kind == ALERT_SOURCE_API_KEY_MAINTENANCE_RECORD@ {
        strip_prefix_seq(row_sort_id, "maint:"@).unwrap_or(Seq::empty())
    } else if source_kind == ALERT_SOURCE_SCHEDULED_JOB@ {
        trim_leading_zeros(strip_prefix_seq(row_sort_id, "job:"@).unwrap_or(Seq::empty()))
    } else {
        Seq::empty()
    }
}

/// The number a numeric key part binds as: its `i64` value, zero where it
/// does not parse.
pub open spec fn numeric_key_value(key: Seq<char>) -> int {
    match parsed_i64(key) {
        Some(v) => v,
        None => 0,
    }
}

/// The sort id of an auth token log row: `atl:` and the id on 20 characters.
pub fn auth_token_log_row_sort_id(id: i64) -> (s: String)
    ensures
        s@ == numeric_row_sort_id("atl:"@, id as int),
{
    let mut s = String::from_str("atl:");
    push_signed_zero_padded(&mut s, id, 20);
    s
}

/// The sort id of a scheduled job row: `job:` and the id on 20 characters.
pub fn scheduled_job_row_sort_id(id: i64) -> (s: String)
    ensures
        s@ == numeric_row_sort_id("job:"@, id as int),
{
    let mut s = String::from_str("job:");
    push_signed_zero_padded(&mut s, id, 20);
    s
}

/// The sort id of a maintenance record: `maint:` and the record id.
pub fn maintenance_record_row_sort_id(source_id: &str) -> (s: String)
    ensures
        s@ == "maint:"@ + source_id@,
{
    let mut s = String::from_str("maint:");
    s.append(source_id);
    s
}

/// The key part of `row_sort_id` for `source_kind`; see `cursor_id_of`.
pub fn alert_projection_source_cursor_id(source_kind: &str, row_sort_id: &str) -> (s: String)
    ensures
        s@ == cursor_id_of(source_kind@, row_sort_id@),
{
    let row = chars_of(row_sort_id);
    if str_eq(source_kind, ALERT_SOURCE_AUTH_TOKEN_LOG) {
        match strip_prefix_chars(&row, "atl:") {
            Some(rest) => {
                let t = trim_leading_zero_chars(&rest);
                string_of_chars(t.as_slice(), 0, t.len())
            },
            None => {
                proof {
                    assert(trim_leading_zeros(Seq::<char>::empty()) =~= Seq::<char>::empty());
                }
                String::new()
            },
        }
    } else if str_eq(source_kind, ALERT_SOURCE_API_KEY_MAINTENANCE_RECORD) {
        match strip_prefix_chars(&row, "maint:") {
            Some(rest) => string_of_chars(rest.as_slice(), 0, rest.len()),
            None => String::new(),
        }
    } else if str_eq(source_kind, ALERT_SOURCE_SCHEDULED_JOB) {
        match strip_prefix_chars(&row, "job:") {
            Some(rest) => {
                let t = trim_leading_zero_chars(&rest);
                string_of_chars(t.as_slice(), 0, t.len())
            },
            None => {
                proof {
                    assert(trim_leading_zeros(Seq::<char>::empty()) =~= Seq::<char>::empty());
                }
                String::new()
            },
        }
    } else {
        String::new()
    }
}

/// The number a numeric cursor key binds as in a source query.
pub fn alert_projection_numeric_key(cursor_id: &str) -> (r: i64)
    ensures
        r as int == numeric_key_value(cursor_id@),
{
    parse_i64_or_zero(cursor_id)
}

/// The state update of a slice must change exactly one row: any other
/// count means another slice moved the state meanwhile.
pub fn alert_projection_state_write_applied(rows_affected: u64) -> (r: Result<(), ProxyError>)
    ensures
        r is Ok <==> rows_affected == 1,
        r matches Err(e) ==> (e matches ProxyError::Other(m)
            && m@ == "alert projection state changed while a slice was in flight"@),
{
    if rows_affected != 1 {
        Err(ProxyError::Other(String::from_str("alert projection state changed while a slice was in flight")))
    } else {
        Ok(())
    }
}

/// The two lanes of the projection: the recent tail that feeds the
/// Dashboard, and the catch-up over older history.
#[derive(Debug, Clone, Copy, PartialEq, Eq, Structural)]
pub enum AlertProjectionLane {
    RecentTail,
    History,
}

/// The projection state of one source in one lane.
#[derive(Debug, Clone)]
pub struct AlertProjectionSourceState {
    pub source_kind: String,
    pub cursor_occurred_at: i64,
    pub cursor_row_sort_id: String,
    pub fence_occurred_at: Option<i64>,
    pub fence_row_sort_id: Option<String>,
    pub generation: i64,
    pub lane: AlertProjectionLane,
}

/// A source row selected by a slice, in projection order.
#[derive(Debug, Clone)]
pub struct AlertProjectionSourceKey {
    pub source_id: String,
    pub occurred_at: i64,
    pub row_sort_id: String,
}

/// The result of one projection slice.
#[derive(Debug, Clone, Copy, PartialEq, Eq)]
pub enum AlertProjectionSliceOutcome {
    Advanced { rows: i64, complete: bool, dashboard_dirty: bool },
    Deferred { reason: &'static str },
    Idle,
}

/// Where the fence of a slice comes from.
#[derive(Debug, Clone, PartialEq, Eq)]
pub enum AlertProjectionFencePlan {
    /// The state already holds a fence: `(occurred_at, row_sort_id)`.
    Recorded(i64, String),
    /// The recent tail has no fence yet: look up the newest alert row of
    /// the source.
    LookUpSource,
    /// The history lane without a fence has nothing left to project.
    Finished,
}

/// The state a slice works on: the history lane while its generation has
/// not overtaken the recent tail's, else the recent tail.
pub open spec fn selected_projection_state(
    recent: AlertProjectionSourceState,
    history: Option<AlertProjectionSourceState>,
) -> AlertProjectionSourceState {
    match history {
        Some(h) => if h.generation <= recent.generation { h } else { recent },
        None => recent,
    }
}

/// Whether a slice that read `key_count` keys, the last one `last_key`,
/// reaches its fence: its last key is the fence, it read no key, or it read
/// less than a full batch.
pub open spec fn slice_reaches_fence(
    last_key: Option<(int, Seq<char>)>,
    fence: (int, Seq<char>),
    key_count: int,
) -> bool {
    ||| match last_key {
        Some(k) => k.0 == fence.0 && k.1 == fence.1,
        None => true,
    }
    ||| key_count < ALERT_PROJECTION_BATCH_ROWS
}

/// The state a slice works on, from the recent tail's state row and the
/// history lane's, if any; a missing tail state row is an error.
pub fn alert_projection_slice_state(
    recent: Option<AlertProjectionSourceState>,
    history: Option<AlertProjectionSourceState>,
) -> (r: Result<AlertProjectionSourceState, ProxyError>)
    ensures
        recent is None ==> (r matches Err(ProxyError::Other(m)) && m@ == "missing alert projection tail state"@),
        recent matches Some(tail) ==> r == Ok::<AlertProjectionSourceState, ProxyError>(selected_projection_state(tail, history)),
{
    match recent {
        None => Err(ProxyError::Other(String::from_str("missing alert projection tail state"))),
        Some(tail) => Ok(select_alert_projection_state(tail, history)),
    }
}

/// Picks the lane a slice advances; see `selected_projection_state`.
pub fn select_alert_projection_state(
    recent: AlertProjectionSourceState,
    history: Option<AlertProjectionSourceState>,
) -> (r: AlertProjectionSourceState)
    ensures
        r == selected_projection_state(recent, history),
{
    match history {
        Some(h) => if h.generation <= recent.generation { h } else { recent },
        None => recent,
    }
}

/// Where the slice's fence comes from: the recorded fence when the state
/// has both parts of it, else a look-up for the recent tail, else the
/// history lane is finished.
pub fn alert_projection_fence_plan(state: &AlertProjectionSourceState) -> (r: AlertProjectionFencePlan)
    ensures
        r == (match (state.fence_occurred_at, state.fence_row_sort_id) {
            (Some(at), Some(id)) => AlertProjectionFencePlan::Recorded(at, id),
            _ => if state.lane == AlertProjectionLane::RecentTail {
                AlertProjectionFencePlan::LookUpSource
            } else {
                AlertProjectionFencePlan::Finished
            },
        }),
{
    match (&state.fence_occurred_at, &state.fence_row_sort_id) {
        (Some(at), Some(id)) => AlertProjectionFencePlan::Recorded(*at, id.clone()),
        _ => match state.lane {
            AlertProjectionLane::RecentTail => AlertProjectionFencePlan::LookUpSource,
            AlertProjectionLane::History => AlertProjectionFencePlan::Finished,
        },
    }
}

/// Whether a slice reached its fence; see `slice_reaches_fence`.
pub fn alert_projection_slice_complete(
    last_key: Option<(i64, &str)>,
    fence_occurred_at: i64,
    fence_row_sort_id: &str,
    key_count: usize,
) -> (r: bool)
    ensures
        r == slice_reaches_fence(
            match last_key {
                Some(k) => Some((k.0 as int, k.1@)),
                None => None,
            },
            (fence_occurred_at as int, fence_row_sort_id@),
            key_count as int,
        ),
{
    let at_fence = match last_key {
        Some((at, id)) => at == fence_occurred_at && str_eq(id, fence_row_sort_id),
        None => true,
    };
    at_fence || key_count < 25
}

/// The outcome of a slice that projected `rows` rows in `lane`: it dirties
/// the Dashboard exactly when it projected rows of the recent tail.
pub fn advanced_alert_projection_slice(
    lane: AlertProjectionLane,
    rows: usize,
    complete: bool,
) -> (r: AlertProjectionSliceOutcome)
    requires
        rows <= i64::MAX,
    ensures
        r == (AlertProjectionSliceOutcome::Advanced {
            rows: rows as i64,
            complete,
            dashboard_dirty: lane == AlertProjectionLane::RecentTail && rows > 0,
        }),
{
    let dirty = match lane {
        AlertProjectionLane::RecentTail => rows > 0,
        AlertProjectionLane::History => false,
    };
    AlertProjectionSliceOutcome::Advanced { rows: rows as i64, complete, dashboard_dirty: dirty }
}

/// The outcome of a slice that the SQLite admission refused with `reason`:
/// the slice is deferred before it touches SQLite. `None` when admitted.
pub fn alert_projection_admission_outcome(refusal: Option<&'static str>) -> (r: Option<AlertProjectionSliceOutcome>)
    ensures
        r == (match refusal {
            Some(reason) => Some(AlertProjectionSliceOutcome::Deferred { reason }),
            None => None,
        }),
{
    match refusal {
        Some(reason) => Some(AlertProjectionSliceOutcome::Deferred { reason }),
        None => None,
    }
}

/// The fence a slice works up to: the recorded one, the source's newest
/// alert row that was looked up for the recent tail, or none for a finished
/// history lane.
pub open spec fn resolved_fence(plan: AlertProjectionFencePlan, looked_up: Option<(i64, String)>) -> Option<(i64, String)> {
    match plan {
        AlertProjectionFencePlan::Recorded(at, id) => Some((at, id)),
        AlertProjectionFencePlan::LookUpSource => looked_up,
        AlertProjectionFencePlan::Finished => None,
    }
}

/// The position of the last of `keys`.
pub open spec fn last_key_of(keys: Seq<AlertProjectionSourceKey>) -> Option<(int, Seq<char>)> {
    if keys.len() == 0 {
        None
    } else {
        Some((keys.last().occurred_at as int, keys.last().row_sort_id@))
    }
}

/// How a slice ends: its fence, the cursor it moves to, whether it reached
/// the fence, and its outcome.
#[derive(Debug, Clone)]
pub struct AlertProjectionSliceEnd {
    pub fence: Option<(i64, String)>,
    pub next_cursor: Option<(i64, String)>,
    pub complete: bool,
    pub outcome: AlertProjectionSliceOutcome,
}

/// The end of a slice in `lane` planned by `plan` (with `looked_up` the
/// source's newest alert row, when the plan asked for it), that read `keys`
/// in projection order, at most a batch of them, and projected `rows` rows,
/// at most one per key. Without a fence the slice
/// is complete, moves nothing and projects nothing. With one, the cursor
/// moves to the last key read (none read: it stays), the slice is complete
/// when it reached the fence, and it dirties the Dashboard when it projected
/// recent-tail rows.
pub fn alert_projection_slice_end(
    lane: AlertProjectionLane,
    plan: AlertProjectionFencePlan,
    looked_up: Option<(i64, String)>,
    keys: &Vec<AlertProjectionSourceKey>,
    rows: usize,
) -> (r: AlertProjectionSliceEnd)
    requires
        keys@.len() <= ALERT_PROJECTION_BATCH_ROWS,
        rows <= keys@.len(),
    ensures
        r.outcome matches AlertProjectionSliceOutcome::Advanced { rows: n, .. } && 0 <= n <= ALERT_PROJECTION_BATCH_ROWS,
        r.fence == resolved_fence(plan, looked_up),
        r.fence is None ==> {
            &&& r.next_cursor is None
            &&& r.complete
            &&& r.outcome == (AlertProjectionSliceOutcome::Advanced { rows: 0, complete: true, dashboard_dirty: false })
        },
        r.fence matches Some(f) ==> {
            &&& (match last_key_of(keys@) {
                Some(k) => r.next_cursor matches Some(c) && c.0 == k.0 && c.1@ == k.1,
                None => r.next_cursor is None,
            })
            &&& r.complete == slice_reaches_fence(last_key_of(keys@), (f.0 as int, f.1@), keys@.len() as int)
            &&& r.outcome == (AlertProjectionSliceOutcome::Advanced {
                rows: rows as i64,
                complete: r.complete,
                dashboard_dirty: lane == AlertProjectionLane::RecentTail && rows > 0,
            })
        },
{
    let fence = match plan {
        AlertProjectionFencePlan::Recorded(at, id) => Some((at, id)),
        AlertProjectionFencePlan::LookUpSource => looked_up,
        AlertProjectionFencePlan::Finished => None,
    };
    match fence {
        None => AlertProjectionSliceEnd {
            fence: None,
            next_cursor: None,
            complete: true,
            outcome: advanced_alert_projection_slice(lane, 0, true),
        },
        Some((fence_at, fence_id)) => {
            let n = keys.len();
            let (next_cursor, complete) = if n == 0 {
                (None, alert_projection_slice_complete(None, fence_at, fence_id.as_str(), 0))
            } else {
                let last = &keys[n - 1];
                let done = alert_projection_slice_complete(
                    Some((last.occurred_at, last.row_sort_id.as_str())),
                    fence_at,
                    fence_id.as_str(),
                    n,
                );
                (Some((last.occurred_at, last.row_sort_id.clone())), done)
            };
            AlertProjectionSliceEnd {
                fence: Some((fence_at, fence_id)),
                next_cursor,
                complete,
                outcome: advanced_alert_projection_slice(lane, rows, complete),
            }
        },
    }
}

/// The outcome of an admitted slice run: a transient write contention
/// defers the slice (nothing was committed), any other error stays an error.
pub fn settle_alert_projection_slice(
    result: Result<AlertProjectionSliceOutcome, ProxyError>,
    transient_contention: bool,
) -> (r: Result<AlertProjectionSliceOutcome, ProxyError>)
    ensures
        r == (match result {
            Ok(o) => Ok(o),
            Err(e) => if transient_contention {
                Ok(AlertProjectionSliceOutcome::Deferred { reason: "recent_contention" })
            } else {
                Err(e)
            },
        }),
{
    match result {
        Ok(o) => Ok(o),
        Err(e) => if transient_contention {
            Ok(AlertProjectionSliceOutcome::Deferred { reason: "recent_contention" })
        } else {
            Err(e)
        },
    }
}

/// The state row written at the end of a slice.
#[derive(Debug, Clone, PartialEq, Eq)]
pub struct AlertProjectionStateWrite {
    pub cursor_occurred_at: i64,
    pub cursor_row_sort_id: String,
    pub fence_occurred_at: Option<i64>,
    pub fence_row_sort_id: Option<String>,
    pub phase: &'static str,
    pub generation: i64,
}

/// The state a slice leaves behind: the cursor moves to the last key read
/// (or stays); a complete slice clears the fence and goes idle, an
/// incomplete one keeps its fence and keeps catching up, and cannot be
/// recorded without a fence. Every write moves the state one generation
/// on, which is how the history lane and the recent tail take turns.
pub fn alert_projection_state_write(
    state: &AlertProjectionSourceState,
    fence: Option<(i64, String)>,
    next_cursor: Option<(i64, String)>,
    complete: bool,
) -> (r: Result<AlertProjectionStateWrite, ProxyError>)
    requires
        state.generation < i64::MAX,
    ensures
        (!complete && fence is None) <==> r is Err,
        r matches Err(e) ==> (e matches ProxyError::Other(m) && m@ == "alert projection slice is missing source fence"@),
        r matches Ok(w) ==> {
            &&& w.generation == state.generation + 1
            &&& (match next_cursor {
                Some(c) => w.cursor_occurred_at == c.0 && w.cursor_row_sort_id@ == c.1@,
                None => w.cursor_occurred_at == state.cursor_occurred_at
                    && w.cursor_row_sort_id@ == state.cursor_row_sort_id@,
            })
            &&& complete ==> w.fence_occurred_at is None && w.fence_row_sort_id is None && w.phase == "idle"
            &&& !complete ==> w.fence_occurred_at == Some((fence->0).0)
                && (w.fence_row_sort_id matches Some(id) && id@ == (fence->0).1@)
                && w.phase == "catching_up"
        },
{
    let (cursor_at, cursor_id) = match next_cursor {
        Some(c) => c,
        None => (state.cursor_occurred_at, state.cursor_row_sort_id.clone()),
    };
    if complete {
        Ok(AlertProjectionStateWrite {
            cursor_occurred_at: cursor_at,
            cursor_row_sort_id: cursor_id,
            fence_occurred_at: None,
            fence_row_sort_id: None,
            phase: "idle",
            generation: state.generation + 1,
        })
    } else {
        match fence {
            None => Err(ProxyError::Other(String::from_str("alert projection slice is missing source fence"))),
            Some((at, id)) => Ok(AlertProjectionStateWrite {
                cursor_occurred_at: cursor_at,
                cursor_row_sort_id: cursor_id,
                fence_occurred_at: Some(at),
                fence_row_sort_id: Some(id),
                phase: "catching_up",
                generation: state.generation + 1,
            }),
        }
    }
}

/// How far the projection covers the alert sources.
#[derive(Debug, Clone, Copy, PartialEq, Eq, Structural)]
pub enum AlertCoverage {
    /// Every source is projected and recently observed.
    Complete,
    /// A source reported a stale reason or its observation expired.
    Stale,
    /// Some source is still catching up.
    Projecting,
}

/// The counts read from the projection's state tables.
#[derive(Debug, Clone)]
pub struct AlertProjectionCounts {
    /// Recent-tail sources with a state row.
    pub sources: i64,
    /// Oldest observation time among them.
    pub observed_at: Option<i64>,
    /// Recent-tail sources in the idle phase.
    pub idle_sources: i64,
    /// Recent-tail sources observed within the stale window.
    pub fresh_sources: i64,
    /// A stale reason recorded by some source.
    pub stale_reason: Option<String>,
    /// History sources with a state row.
    pub history_sources: i64,
    /// History sources in the idle phase.
    pub idle_history_sources: i64,
}

/// What a cold-start probe found among the unfinished recent-tail sources.
#[derive(Debug, Clone, Copy)]
pub struct AlertProjectionColdStartProbe {
    /// Recent-tail sources not yet idle.
    pub incomplete_sources: usize,
    /// Whether any of them has an alert row at all.
    pub any_source_has_events: bool,
}

/// The projection status reported to readers.
#[derive(Debug, Clone, PartialEq, Eq)]
pub struct AlertProjectionStatus {
    pub coverage: String,
    pub recent_coverage: String,
    pub observed_at: Option<i64>,
    pub stale_reason: Option<String>,
}

/// The name of a coverage level.
pub open spec fn coverage_name(c: AlertCoverage) -> Seq<char> {
    match c {
        AlertCoverage::Complete => "ok"@,
        AlertCoverage::Stale => "stale"@,
        AlertCoverage::Projecting => "projecting"@,
    }
}

/// Every source is idle but not every one was observed recently.
pub open spec fn observations_expired(c: AlertProjectionCounts) -> bool {
    c.sources == ALERT_PROJECTION_SOURCE_COUNT && c.idle_sources == c.sources && c.fresh_sources != c.sources
}

/// The recent-tail coverage from the counts alone.
pub open spec fn counted_recent_coverage(c: AlertProjectionCounts) -> AlertCoverage {
    if c.sources == ALERT_PROJECTION_SOURCE_COUNT && c.idle_sources == c.sources && c.fresh_sources == c.sources {
        AlertCoverage::Complete
    } else if c.stale_reason is Some || observations_expired(c) {
        AlertCoverage::Stale
    } else {
        AlertCoverage::Projecting
    }
}

/// Whether the recent coverage depends on a cold-start probe: the tail is
/// still projecting and nothing is stale.
pub open spec fn needs_cold_start_probe(c: AlertProjectionCounts) -> bool {
    counted_recent_coverage(c) == AlertCoverage::Projecting && c.stale_reason is None
}

/// The recent-tail coverage: a projecting tail whose unfinished sources
/// have no alert row at all is as good as complete.
pub open spec fn recent_coverage_of(c: AlertProjectionCounts, probe: Option<AlertProjectionColdStartProbe>) -> AlertCoverage {
    if needs_cold_start_probe(c) && (probe matches Some(p) && p.incomplete_sources > 0 && !p.any_source_has_events) {
        AlertCoverage::Complete
    } else {
        counted_recent_coverage(c)
    }
}

/// The overall coverage: complete only when the recent tail is complete and
/// every history source is idle.
pub open spec fn overall_coverage_of(recent: AlertCoverage, c: AlertProjectionCounts) -> AlertCoverage {
    if recent == AlertCoverage::Complete && c.history_sources == ALERT_PROJECTION_SOURCE_COUNT
        && c.idle_history_sources == c.history_sources {
        AlertCoverage::Complete
    } else if recent == AlertCoverage::Stale {
        AlertCoverage::Stale
    } else {
        AlertCoverage::Projecting
    }
}

/// The reported stale reason: the recorded one, else
/// `observation_expired` when the observations expired.
pub open spec fn stale_reason_of(c: AlertProjectionCounts) -> Option<Seq<char>> {
    match c.stale_reason {
        Some(r) => Some(r@),
        None => if observations_expired(c) { Some("observation_expired"@) } else { None },
    }
}

impl AlertCoverage {
    /// The coverage name that readers see.
    pub fn as_str(self) -> (s: &'static str)
        ensures
            s@ == coverage_name(self),
    {
        match self {
            AlertCoverage::Complete => "ok",
            AlertCoverage::Stale => "stale",
            AlertCoverage::Projecting => "projecting",
        }
    }
}

fn counted_coverage(c: &AlertProjectionCounts) -> (r: AlertCoverage)
    ensures
        r == counted_recent_coverage(*c),
{
    if c.sources == 3 && c.idle_sources == c.sources && c.fresh_sources == c.sources {
        AlertCoverage::Complete
    } else if c.stale_reason.is_some()
        || (c.sources == 3 && c.idle_sources == c.sources && c.fresh_sources != c.sources) {
        AlertCoverage::Stale
    } else {
        AlertCoverage::Projecting
    }
}

/// Whether the status needs a cold-start probe of the unfinished sources.
pub fn alert_projection_needs_cold_start_probe(counts: &AlertProjectionCounts) -> (r: bool)
    ensures
        r == needs_cold_start_probe(*counts),
{
    counted_coverage(counts) == AlertCoverage::Projecting && counts.stale_reason.is_none()
}

/// The projection status from the state counts and, where the counts call
/// for one, the cold-start probe.
pub fn alert_projection_status_from(
    counts: AlertProjectionCounts,
    probe: Option<AlertProjectionColdStartProbe>,
) -> (r: AlertProjectionStatus)
    ensures
        r.recent_coverage@ == coverage_name(recent_coverage_of(counts, probe)),
        r.coverage@ == coverage_name(overall_coverage_of(recent_coverage_of(counts, probe), counts)),
        r.observed_at == counts.observed_at,
        opt_view(r.stale_reason) == stale_reason_of(counts),
{
    let counted = counted_coverage(&counts);
    let mut recent = counted;
    if counted == AlertCoverage::Projecting && counts.stale_reason.is_none() {
        if let Some(p) = probe {
            if p.incomplete_sources > 0 && !p.any_source_has_events {
                recent = AlertCoverage::Complete;
            }
        }
    }
    let overall = if recent == AlertCoverage::Complete && counts.history_sources == 3
        && counts.idle_history_sources == counts.history_sources {
        AlertCoverage::Complete
    } else if recent == AlertCoverage::Stale {
        AlertCoverage::Stale
    } else {
        AlertCoverage::Projecting
    };
    let expired = counts.sources == 3 && counts.idle_sources == counts.sources
        && counts.fresh_sources != counts.sources;
    let stale_reason = match counts.stale_reason {
        Some(r) => Some(r),
        None => if expired { Some(String::from_str("observation_expired")) } else { None },
    };
    let r = AlertProjectionStatus {
        coverage: String::from_str(overall.as_str()),
        recent_coverage: String::from_str(recent.as_str()),
        observed_at: counts.observed_at,
        stale_reason,
    };
    proof {
        assert(opt_view(r.stale_reason) =~= stale_reason_of(counts));
    }
    r
}

/// The overall coverage is complete only when the recent tail is, and a
/// stale recent tail makes the whole projection stale.
pub proof fn lemma_coverage_follows_recent_tail(
    counts: AlertProjectionCounts,
    probe: Option<AlertProjectionColdStartProbe>,
)
    ensures
        overall_coverage_of(recent_coverage_of(counts, probe), counts) == AlertCoverage::Complete
            ==> recent_coverage_of(counts, probe) == AlertCoverage::Complete,
        recent_coverage_of(counts, probe) == AlertCoverage::Stale
            ==> overall_coverage_of(recent_coverage_of(counts, probe), counts) == AlertCoverage::Stale,
{
}

/// When every source is idle but some observation has expired, and no
/// stale reason was recorded, the projection is stale for the reason
/// `observation_expired`.
pub proof fn lemma_expired_observation_is_stale(
    counts: AlertProjectionCounts,
    probe: Option<AlertProjectionColdStartProbe>,
)
    requires
        observations_expired(counts),
        counts.stale_reason is None,
    ensures
        recent_coverage_of(counts, probe) == AlertCoverage::Stale,
        overall_coverage_of(recent_coverage_of(counts, probe), counts) == AlertCoverage::Stale,
        stale_reason_of(counts) == Some("observation_expired"@),
{
}

/// A recorded stale reason is always reported, and it keeps a tail that is
/// not fully observed from counting as complete.
pub proof fn lemma_recorded_stale_reason_is_reported(
    counts: AlertProjectionCounts,
    probe: Option<AlertProjectionColdStartProbe>,
)
    requires
        counts.stale_reason is Some,
        !(counts.sources == ALERT_PROJECTION_SOURCE_COUNT && counts.idle_sources == counts.sources
            && counts.fresh_sources == counts.sources),
    ensures
        stale_reason_of(counts) == Some((counts.stale_reason->0)@),
        recent_coverage_of(counts, probe) == AlertCoverage::Stale,
{
}

/// The health a recent-alerts summary reports.
#[derive(Debug, Clone, PartialEq, Eq)]
pub struct RecentAlertsHealth {
    pub coverage: String,
    pub stale: bool,
    pub error: Option<String>,
}

/// The window of a recent-alerts summary, in hours: between one hour and
/// thirty days.
pub open spec fn clamped_window_hours(window_hours: int) -> int {
    if window_hours < 1 { 1 } else if window_hours > 720 { 720 } else { window_hours }
}

/// Clamps a requested summary window to between one hour and thirty days.
pub fn clamp_alert_window_hours(window_hours: i64) -> (r: i64)
    ensures
        r as int == clamped_window_hours(window_hours as int),
{
    if window_hours < 1 { 1 } else if window_hours > 720 { 720 } else { window_hours }
}

/// The start of a window of `window_hours` hours ending at `now`, with
/// saturating arithmetic.
pub fn alert_window_start(now: i64, window_hours: i64) -> (r: i64)
    ensures
        r as int == clamp_i64(now - clamp_i64(window_hours * 3600)),
{
    let span = saturating_mul_i64(window_hours, 3600);
    saturating_sub_i64(now, span)
}

/// The health of a recent-alerts summary: stale unless the recent tail is
/// complete and no stale reason is recorded; the error is the stale reason,
/// else `projection_catching_up` while the tail is not complete.
pub fn recent_alerts_health(status: &AlertProjectionStatus) -> (r: RecentAlertsHealth)
    ensures
        r.coverage@ == status.recent_coverage@,
        r.stale == (status.recent_coverage@ != "ok"@ || status.stale_reason is Some),
        opt_view(r.error) == (match status.stale_reason {
            Some(reason) => Some(reason@),
            None => if status.recent_coverage@ != "ok"@ { Some("projection_catching_up"@) } else { None },
        }),
{
    let ok = str_eq(status.recent_coverage.as_str(), "ok");
    let error = match &status.stale_reason {
        Some(reason) => Some(reason.clone()),
        None => if !ok { Some(String::from_str("projection_catching_up")) } else { None },
    };
    let r = RecentAlertsHealth {
        coverage: status.recent_coverage.clone(),
        stale: !ok || status.stale_reason.is_some(),
        error,
    };
    proof {
        assert(opt_view(r.error) =~= (match status.stale_reason {
            Some(reason) => Some(reason@),
            None => if status.recent_coverage@ != "ok"@ { Some("projection_catching_up"@) } else { None },
        }));
    }
    r
}

/// The history lane is not starved: once the recent tail's generation has
/// caught up with the history's, the next slice works on history.
pub proof fn lemma_history_lane_is_served(
    recent: AlertProjectionSourceState,
    history: AlertProjectionSourceState,
)
    requires
        history.generation <= recent.generation,
    ensures
        selected_projection_state(recent, Some(history)) == history,
{
}

/// A busy recent tail cannot starve the history lane: each tail slice moves
/// the tail one generation on (`alert_projection_state_write`), and once it
/// has moved as many generations as the history lane was ahead, the next
/// slice goes to the history lane.
pub proof fn lemma_tail_slices_let_history_through(
    recent: AlertProjectionSourceState,
    history: AlertProjectionSourceState,
    tail_slices: int,
)
    requires
        tail_slices >= 0,
        tail_slices >= history.generation - recent.generation,
        recent.generation + tail_slices <= i64::MAX,
    ensures
        selected_projection_state(
            AlertProjectionSourceState { generation: (recent.generation + tail_slices) as i64, ..recent },
            Some(history),
        ) == history,
{
}

/// A slice that read a full batch is complete exactly when its last key is
/// the fence itself, its time and its row sort id both: another row at the
/// fence's second does not complete it.
pub proof fn lemma_full_batch_completes_only_at_fence(
    last: (int, Seq<char>),
    fence: (int, Seq<char>),
    key_count: int,
)
    requires
        key_count >= ALERT_PROJECTION_BATCH_ROWS,
    ensures
        slice_reaches_fence(Some(last), fence, key_count) <==> (last.0 == fence.0 && last.1 == fence.1),
        last.1 != fence.1 ==> !slice_reaches_fence(Some(last), fence, key_count),
{
}

/// A slice that read less than a full batch has reached its fence, wherever
/// its last key is.
pub proof fn lemma_short_batch_completes(last_key: Option<(int, Seq<char>)>, fence: (int, Seq<char>), key_count: int)
    requires
        key_count < ALERT_PROJECTION_BATCH_ROWS,
    ensures
        slice_reaches_fence(last_key, fence, key_count),
{
}

/// A slice that does not reach its fence read a full batch of keys.
pub proof fn lemma_unfinished_slice_read_full_batch(
    last_key: Option<(int, Seq<char>)>,
    fence: (int, Seq<char>),
    key_count: int,
)
    requires
        !slice_reaches_fence(last_key, fence, key_count),
    ensures
        key_count >= ALERT_PROJECTION_BATCH_ROWS,
        last_key is Some,
{
}

proof fn lemma_strip_own_prefix(prefix: Seq<char>, rest: Seq<char>)
    ensures
        strip_prefix_seq(prefix + rest, prefix) == Some(rest),
{
    assert((prefix + rest).subrange(0, prefix.len() as int) =~= prefix);
    assert((prefix + rest).subrange(prefix.len() as int, (prefix + rest).len() as int) =~= rest);
}

proof fn lemma_padded_id_key_value(id: i64)
    ensures
        numeric_key_value(trim_leading_zeros(signed_zero_padded(id as int, 20))) == id,
{
    if id == 0 {
        lemma_trim_zero_padded_zero();
        assert(parsed_i64(Seq::<char>::empty()) is None);
    } else if id > 0 {
        lemma_trim_zero_padded(id as nat, 20);
        lemma_decimal_value(id as nat);
        let d = decimal_seq(id as nat);
        assert('0' <= d[0] && d[0] <= '9');
        assert(parsed_i64(d) == Some(id as int));
    } else {
        let m = (-(id as int)) as nat;
        let body = zero_padded(decimal_seq(m), 19);
        let s = seq!['-'] + body;
        assert(signed_zero_padded(id as int, 20) == s);
        assert(s[0] == '-');
        assert(trim_leading_zeros(s) == s);
        lemma_zero_padded_value(m, 19);
        assert(s.drop_first() =~= body);
        assert(parsed_i64(s) == Some(id as int));
    }
}

proof fn lemma_trim_zero_padded_zero()
    ensures
        trim_leading_zeros(signed_zero_padded(0, 20)) == Seq::<char>::empty(),
{
    let d = decimal_seq(0);
    assert(d =~= seq!['0']);
    let z = Seq::new(19, |i: int| '0');
    assert(z + d =~= Seq::new(20, |i: int| '0'));
    lemma_all_zeros_trim(20);
}

proof fn lemma_all_zeros_trim(k: nat)
    ensures
        trim_leading_zeros(Seq::new(k, |i: int| '0')) == Seq::<char>::empty(),
    decreases k,
{
    if k > 0 {
        assert(Seq::new(k, |i: int| '0').drop_first() =~= Seq::new((k - 1) as nat, |i: int| '0'));
        lemma_all_zeros_trim((k - 1) as nat);
    } else {
        assert(Seq::new(k, |i: int| '0') =~= Seq::<char>::empty());
    }
}

/// The key a numeric row sort id yields binds as the row's own id: the sort
/// id of an auth token log row or a scheduled job, reduced to its key part
/// and read as a number, gives the id back, for every `i64`.
pub proof fn lemma_numeric_cursor_round_trip(id: i64)
    ensures
        numeric_key_value(cursor_id_of(ALERT_SOURCE_AUTH_TOKEN_LOG@, numeric_row_sort_id("atl:"@, id as int))) == id,
        numeric_key_value(cursor_id_of(ALERT_SOURCE_SCHEDULED_JOB@, numeric_row_sort_id("job:"@, id as int))) == id,
{
    reveal_strlit("auth_token_log");
    reveal_strlit("api_key_maintenance_record");
    reveal_strlit("scheduled_job");
    reveal_strlit("atl:");
    reveal_strlit("job:");
    assert(ALERT_SOURCE_SCHEDULED_JOB@ != ALERT_SOURCE_AUTH_TOKEN_LOG@) by {
        assert(ALERT_SOURCE_SCHEDULED_JOB@.len() != ALERT_SOURCE_AUTH_TOKEN_LOG@.len());
    }
    assert(ALERT_SOURCE_SCHEDULED_JOB@ != ALERT_SOURCE_API_KEY_MAINTENANCE_RECORD@) by {
        assert(ALERT_SOURCE_SCHEDULED_JOB@.len() != ALERT_SOURCE_API_KEY_MAINTENANCE_RECORD@.len());
    }
    lemma_strip_own_prefix("atl:"@, signed_zero_padded(id as int, 20));
    lemma_strip_own_prefix("job:"@, signed_zero_padded(id as int, 20));
    lemma_padded_id_key_value(id);
}

/// The key a positive numeric id's sort id yields is the id's decimal text
/// (`id.to_string()`), for auth token log rows and scheduled jobs alike.
pub proof fn lemma_numeric_cursor_is_decimal_text(id: int)
    requires
        id >= 1,
    ensures
        cursor_id_of(ALERT_SOURCE_AUTH_TOKEN_LOG@, numeric_row_sort_id("atl:"@, id)) == decimal_seq(id as nat),
        cursor_id_of(ALERT_SOURCE_SCHEDULED_JOB@, numeric_row_sort_id("job:"@, id)) == decimal_seq(id as nat),
{
    reveal_strlit("auth_token_log");
    reveal_strlit("api_key_maintenance_record");
    reveal_strlit("scheduled_job");
    assert(ALERT_SOURCE_SCHEDULED_JOB@ != ALERT_SOURCE_AUTH_TOKEN_LOG@) by {
        assert(ALERT_SOURCE_SCHEDULED_JOB@.len() != ALERT_SOURCE_AUTH_TOKEN_LOG@.len());
    }
    assert(ALERT_SOURCE_SCHEDULED_JOB@ != ALERT_SOURCE_API_KEY_MAINTENANCE_RECORD@) by {
        assert(ALERT_SOURCE_SCHEDULED_JOB@.len() != ALERT_SOURCE_API_KEY_MAINTENANCE_RECORD@.len());
    }
    lemma_strip_own_prefix("atl:"@, signed_zero_padded(id, 20));
    lemma_strip_own_prefix("job:"@, signed_zero_padded(id, 20));
    lemma_trim_zero_padded(id as nat, 20);
}

/// A sort id without its source's prefix, or a source that is none of the
/// three, yields an empty key.
pub proof fn lemma_unprefixed_cursor_is_empty(source_kind: Seq<char>, row_sort_id: Seq<char>)
    requires
        source_kind == ALERT_SOURCE_AUTH_TOKEN_LOG@ ==> strip_prefix_seq(row_sort_id, "atl:"@) is None,
        source_kind == ALERT_SOURCE_API_KEY_MAINTENANCE_RECORD@ ==> strip_prefix_seq(row_sort_id, "maint:"@) is None,
        source_kind == ALERT_SOURCE_SCHEDULED_JOB@ ==> strip_prefix_seq(row_sort_id, "job:"@) is None,
    ensures
        cursor_id_of(source_kind, row_sort_id) == Seq::<char>::empty(),
{
    assert(trim_leading_zeros(Seq::<char>::empty()) == Seq::<char>::empty());
}

/// The key of a maintenance record's sort id is the record id itself.
pub proof fn lemma_maintenance_cursor_round_trip(source_id: Seq<char>)
    ensures
        cursor_id_of(ALERT_SOURCE_API_KEY_MAINTENANCE_RECORD@, "maint:"@ + source_id) == source_id,
{
    reveal_strlit("auth_token_log");
    reveal_strlit("api_key_maintenance_record");
    assert(ALERT_SOURCE_API_KEY_MAINTENANCE_RECORD@ != ALERT_SOURCE_AUTH_TOKEN_LOG@) by {
        assert(ALERT_SOURCE_API_KEY_MAINTENANCE_RECORD@.len() != ALERT_SOURCE_AUTH_TOKEN_LOG@.len());
    }
    lemma_strip_own_prefix("maint:"@, source_id);
}

} // verus!
