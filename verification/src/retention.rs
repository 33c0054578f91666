//! Data retention: which agent heartbeats and runs the periodic clean-up removes.
use vstd::prelude::*;

verus! {

/// Runs deleted per project on one clean-up tick.
pub const RUN_DELETE_BATCH_SIZE: i64 = 500;

/// Seconds between clean-up ticks.
pub const RETENTION_POLL_INTERVAL_SECS: u64 = 300;

/// Heartbeats recorded before the returned time (seconds since the epoch) are removed;
/// `None` when the retention setting is 0, which turns heartbeat clean-up off.
pub fn heartbeat_cutoff(now: i64, retention_hours: i64) -> (r: Option<i64>)
    requires
        i64::MIN <= retention_hours * 3600 <= i64::MAX,
        i64::MIN <= now - retention_hours * 3600 <= i64::MAX,
    ensures
        r == (if retention_hours == 0 {
            None
        } else {
            Some((now - retention_hours * 3600) as i64)
        }),
{
    if retention_hours == 0 {
        return None;
    }
    Some(now - retention_hours * 3600)
}

/// Terminal runs of a project created before the returned time are removed: its effective
/// retention (the project's own, else the platform's) back from now.
pub fn run_cutoff(now: i64, retention_days: i64) -> (r: i64)
    requires
        i64::MIN <= retention_days * 86400 <= i64::MAX,
        i64::MIN <= now - retention_days * 86400 <= i64::MAX,
    ensures
        r == now - retention_days * 86400,
{
    now - retention_days * 86400
}

/// The retention a project's runs follow: its own setting, else the platform's.
pub fn effective_retention_days(project_days: Option<i64>, platform_days: i64) -> (r: i64)
    ensures
        r == (match project_days {
            Some(d) => d,
            None => platform_days,
        }),
{
    match project_days {
        Some(d) => d,
        None => platform_days,
    }
}

} // verus!
