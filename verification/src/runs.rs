//! Run listings: which runs a list request selects, when a running run is shown as still
//! queued, and how stored definition digests are rendered.
use vstd::prelude::*;
use crate::error::{ApiError, ErrorKind};
use crate::text::{concat2, concat3, hex_encode, hex_lower};

verus! {

/// What a run list request reads.
pub enum RunListTarget {
    /// The run with this number in this pipeline (at most one).
    PipelineRunNumber { pipeline_id: String, run_number: i64 },
    /// A page of the runs of one pipeline.
    Pipeline { pipeline_id: String },
    /// A page of the runs of all pipelines of one project.
    Project { project_id: String },
}

/// The error, if any, that a run list request with these filters is refused with.
pub open spec fn run_list_error(
    pipeline_given: bool,
    project_given: bool,
    run_number_given: bool,
) -> Option<Seq<char>> {
    if pipeline_given && project_given {
        Some("provide only one of `pipeline_id` or `project_id`"@)
    } else if run_number_given && project_given {
        Some("`run_number` can only be used with `pipeline_id`"@)
    } else if run_number_given && !pipeline_given {
        Some("`run_number` requires `pipeline_id`"@)
    } else if !pipeline_given && !project_given {
        Some("`pipeline_id` or `project_id` query parameter is required"@)
    } else {
        None
    }
}

/// Chooses what a run list request reads: exactly one of `pipeline_id` and `project_id`
/// must be given, and `run_number` only together with `pipeline_id`.
pub fn plan_run_list(
    pipeline_id: Option<String>,
    project_id: Option<String>,
    run_number: Option<i64>,
) -> (r: Result<RunListTarget, ApiError>)
    ensures
        match run_list_error(pipeline_id is Some, project_id is Some, run_number is Some) {
            Some(m) => r matches Err(e) && e.is(ErrorKind::BadRequest, m),
            None => r is Ok,
        },
        r matches Ok(RunListTarget::PipelineRunNumber { pipeline_id: p, run_number: n }) ==> (
        pipeline_id matches Some(q) && q@ == p@ && run_number == Some(n)),
        r matches Ok(RunListTarget::Pipeline { pipeline_id: p }) ==> (pipeline_id matches Some(q)
            && q@ == p@ && run_number is None),
        r matches Ok(RunListTarget::Project { project_id: p }) ==> (project_id matches Some(q)
            && q@ == p@ && run_number is None),
{
    if pipeline_id.is_some() && project_id.is_some() {
        return Err(ApiError::bad_request("provide only one of `pipeline_id` or `project_id`"));
    }
    if run_number.is_some() && project_id.is_some() {
        return Err(ApiError::bad_request("`run_number` can only be used with `pipeline_id`"));
    }
    if let Some(n) = run_number {
        return match pipeline_id {
            Some(p) => Ok(RunListTarget::PipelineRunNumber { pipeline_id: p, run_number: n }),
            None => Err(ApiError::bad_request("`run_number` requires `pipeline_id`")),
        };
    }
    match (pipeline_id, project_id) {
        (Some(p), None) => Ok(RunListTarget::Pipeline { pipeline_id: p }),
        (None, Some(p)) => Ok(RunListTarget::Project { project_id: p }),
        _ => Err(
            ApiError::bad_request("`pipeline_id` or `project_id` query parameter is required"),
        ),
    }
}

/// Job counts of one run, as the run list reads them.
#[derive(Clone, Copy)]
pub struct RunJobRollup {
    /// Job runs of the run.
    pub job_count: i64,
    /// Whether any of them is running on an agent.
    pub any_running: bool,
}

/// A run that is `running` while none of its jobs has reached an agent yet is shown as
/// `queued`: this says whether to show it so, given its status and its job counts (none
/// when the run has no job rows).
pub fn shows_as_queued(run_is_running: bool, rollup: Option<RunJobRollup>) -> (q: bool)
    ensures
        q == (run_is_running && (match rollup {
            Some(ru) => ru.job_count > 0 && !ru.any_running,
            None => false,
        })),
{
    if !run_is_running {
        return false;
    }
    match rollup {
        Some(ru) => ru.job_count > 0 && !ru.any_running,
        None => false,
    }
}

/// Lowercase hex of a stored SHA-256 digest; a value that is not 32 bytes long is not shown.
pub fn definition_digest_hex(digest: &Option<Vec<u8>>) -> (r: Option<String>)
    ensures
        match digest {
            Some(d) => if d@.len() == 32 {
                r matches Some(h) && h@ == hex_lower(d@)
            } else {
                r is None
            },
            None => r is None,
        },
{
    match digest {
        Some(d) => if d.len() == 32 {
            Some(hex_encode(d.as_slice()))
        } else {
            None
        },
        None => None,
    }
}

/// A run can be cancelled only while it is not in a terminal state; `status` is the
/// state's name as shown in the refusal.
pub fn check_cancellable(run_id: &str, is_terminal: bool, status: &str) -> (r: Result<
    (),
    ApiError,
>)
    ensures
        !is_terminal ==> r is Ok,
        is_terminal ==> (r matches Err(e) && e.is(
            ErrorKind::Conflict,
            "Run "@ + run_id@ + " is already in terminal state: "@ + status@,
        )),
{
    if is_terminal {
        let head = concat3("Run ", run_id, " is already in terminal state: ");
        return Err(ApiError::new(ErrorKind::Conflict, concat2(head.as_str(), status)));
    }
    Ok(())
}

/// A run can be retried only once it has reached a terminal state; `status` is the state's
/// name as shown in the refusal.
pub fn check_retryable(run_id: &str, is_terminal: bool, status: &str) -> (r: Result<
    (),
    ApiError,
>)
    ensures
        is_terminal ==> r is Ok,
        !is_terminal ==> (r matches Err(e) && e.is(
            ErrorKind::Conflict,
            "Run "@ + run_id@ + " is still in progress: "@ + status@,
        )),
{
    if !is_terminal {
        let head = concat3("Run ", run_id, " is still in progress: ");
        return Err(ApiError::new(ErrorKind::Conflict, concat2(head.as_str(), status)));
    }
    Ok(())
}

} // verus!
