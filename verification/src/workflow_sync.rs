//! Scheduled re-synchronisation of catalog workflows from Git.
use vstd::prelude::*;
use crate::error::{ApiError, ErrorKind};
use crate::text::owned;

verus! {

/// Minutes until the next sync stored for a schedule that is off: a year, so that the
/// background task never picks it up.
pub open spec fn idle_schedule_minutes() -> i64 {
    525600
}

/// What a schedule request stores.
pub struct SyncSchedulePlan {
    /// The schedule runs: it was asked for with a positive interval.
    pub enabled: bool,
    /// Minutes from now until the next sync.
    pub next_sync_in_minutes: i64,
}

/// A schedule with a negative interval is refused; it runs only when enabled with a
/// positive interval, next after one interval; otherwise it is parked a year ahead.
pub fn plan_sync_schedule(interval_minutes: i32, enabled: bool) -> (r: Result<SyncSchedulePlan, ApiError>)
    ensures
        interval_minutes < 0 ==> (r matches Err(e) && e.is(
            ErrorKind::BadRequest,
            "interval_minutes must be >= 0"@,
        )),
        interval_minutes >= 0 ==> (r matches Ok(p) && p.enabled == (enabled && interval_minutes > 0)
            && p.next_sync_in_minutes == (if p.enabled {
            interval_minutes as i64
        } else {
            idle_schedule_minutes()
        })),
{
    if interval_minutes < 0 {
        return Err(ApiError::bad_request("interval_minutes must be >= 0"));
    }
    let on = enabled && interval_minutes > 0;
    let next: i64 = if on {
        interval_minutes as i64
    } else {
        24 * 365 * 60
    };
    Ok(SyncSchedulePlan { enabled: on, next_sync_in_minutes: next })
}

/// A stored schedule is due when it is enabled, has a positive interval and its next sync
/// time (seconds since the epoch) has come.
pub fn schedule_due(enabled: bool, interval_minutes: i32, next_sync_at: i64, now: i64) -> (r: bool)
    ensures
        r == (enabled && interval_minutes > 0 && next_sync_at <= now),
{
    enabled && interval_minutes > 0 && next_sync_at <= now
}

/// A schedule the background task found due.
pub struct DueSchedule {
    pub org_id: String,
    pub workflow_name: String,
    pub interval_minutes: i32,
}

/// Where a due schedule moves once its sync was attempted (times in seconds since the epoch).
pub struct ScheduleAdvance {
    pub org_id: String,
    pub workflow_name: String,
    pub last_synced_at: i64,
    pub next_sync_at: i64,
}

/// Moves a schedule forward after a sync attempt: last synced now, next one interval ahead.
/// The sync's outcome plays no part, so a failing workflow is retried only after an interval.
pub fn advance_schedule(s: &DueSchedule, now: i64) -> (r: ScheduleAdvance)
    requires
        i64::MIN <= now + s.interval_minutes * 60 <= i64::MAX,
    ensures
        r.org_id@ == s.org_id@,
        r.workflow_name@ == s.workflow_name@,
        r.last_synced_at == now,
        r.next_sync_at == now + s.interval_minutes * 60,
{
    let step: i64 = (s.interval_minutes as i64) * 60;
    ScheduleAdvance {
        org_id: owned(s.org_id.as_str()),
        workflow_name: owned(s.workflow_name.as_str()),
        last_synced_at: now,
        next_sync_at: now + step,
    }
}

/// Every due schedule, in order, moved forward (see [`advance_schedule`]) whatever its sync
/// returned.
pub fn advance_due_schedules(due: &Vec<DueSchedule>, now: i64) -> (r: Vec<ScheduleAdvance>)
    requires
        forall|i: int|
            0 <= i < due@.len() ==> i64::MIN <= now + (#[trigger] due@[i]).interval_minutes * 60
                <= i64::MAX,
    ensures
        r@.len() == due@.len(),
        forall|i: int|
            0 <= i < due@.len() ==> {
                &&& (#[trigger] r@[i]).org_id@ == due@[i].org_id@
                &&& r@[i].workflow_name@ == due@[i].workflow_name@
                &&& r@[i].last_synced_at == now
                &&& r@[i].next_sync_at == now + due@[i].interval_minutes * 60
            },
{
    let mut r: Vec<ScheduleAdvance> = Vec::new();
    let mut i: usize = 0;
    while i < due.len()
        invariant
            i <= due@.len(),
            r@.len() == i,
            forall|k: int|
                0 <= k < due@.len() ==> i64::MIN <= now + (#[trigger] due@[k]).interval_minutes
                    * 60 <= i64::MAX,
            forall|k: int|
                0 <= k < i ==> {
                    &&& (#[trigger] r@[k]).org_id@ == due@[k].org_id@
                    &&& r@[k].workflow_name@ == due@[k].workflow_name@
                    &&& r@[k].last_synced_at == now
                    &&& r@[k].next_sync_at == now + due@[k].interval_minutes * 60
                },
        decreases due.len() - i,
    {
        let a = advance_schedule(&due[i], now);
        r.push(a);
        i = i + 1;
    }
    r
}

} // verus!
