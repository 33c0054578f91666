//! Short explanations for jobs that look stalled (queued or pending).
use vstd::prelude::*;
use crate::text::{concat3, join, join_seq, owned, str_eq, views};

verus! {

/// State of a job run.
#[derive(Debug, Clone, Copy, PartialEq, Eq, Structural)]
pub enum JobStatus {
    Pending,
    Queued,
    Running,
    Succeeded,
    Failed,
    Cancelled,
    TimedOut,
    Skipped,
}

/// The lowercased variant name used in hints.
pub open spec fn status_label_spec(s: JobStatus) -> Seq<char> {
    match s {
        JobStatus::Pending => "pending"@,
        JobStatus::Queued => "queued"@,
        JobStatus::Running => "running"@,
        JobStatus::Succeeded => "succeeded"@,
        JobStatus::Failed => "failed"@,
        JobStatus::Cancelled => "cancelled"@,
        JobStatus::TimedOut => "timedout"@,
        JobStatus::Skipped => "skipped"@,
    }
}

pub fn status_label(s: JobStatus) -> (r: &'static str)
    ensures
        r@ == status_label_spec(s),
{
    match s {
        JobStatus::Pending => "pending",
        JobStatus::Queued => "queued",
        JobStatus::Running => "running",
        JobStatus::Succeeded => "succeeded",
        JobStatus::Failed => "failed",
        JobStatus::Cancelled => "cancelled",
        JobStatus::TimedOut => "timedout",
        JobStatus::Skipped => "skipped",
    }
}

/// A dependency has finished (successfully or not, or was skipped).
pub open spec fn is_done(s: JobStatus) -> bool {
    s == JobStatus::Succeeded || s == JobStatus::Failed || s == JobStatus::Cancelled || s
        == JobStatus::TimedOut || s == JobStatus::Skipped
}

/// Whether a dependency has finished.
pub fn dep_is_done(status: JobStatus) -> (r: bool)
    ensures
        r == is_done(status),
        r <==> !(status == JobStatus::Pending || status == JobStatus::Queued || status
            == JobStatus::Running),
{
    match status {
        JobStatus::Succeeded | JobStatus::Failed | JobStatus::Cancelled | JobStatus::TimedOut
        | JobStatus::Skipped => true,
        _ => false,
    }
}

/// Value of a required agent tag.
pub enum TagValue {
    Bool(bool),
    String(String),
    Present,
}

/// Which agents a job may run on.
pub struct PoolSelector {
    pub pool_name: Option<String>,
    pub required_tags: Vec<(String, TagValue)>,
}

/// A job of the pipeline plan.
pub struct JobIr {
    pub id: String,
    pub name: String,
    pub depends_on: Vec<String>,
    pub pool_selector: PoolSelector,
}

/// A job run of a pipeline run.
pub struct JobRun {
    pub job_id: String,
    pub status: JobStatus,
}

/// Index of the first job with id `id`.
pub open spec fn find_job(jobs: Seq<JobIr>, id: Seq<char>) -> Option<int>
    decreases jobs.len(),
{
    if jobs.len() == 0 {
        None
    } else if jobs[0].id@ == id {
        Some(0)
    } else {
        match find_job(jobs.subrange(1, jobs.len() as int), id) {
            Some(k) => Some(k + 1),
            None => None,
        }
    }
}

/// Name of the first job with id `id`, `dependency` when there is none.
pub open spec fn job_name_spec(jobs: Seq<JobIr>, id: Seq<char>) -> Seq<char> {
    match find_job(jobs, id) {
        Some(k) => jobs[k].name@,
        None => "dependency"@,
    }
}

/// Status of the last run of job `id` (later runs override earlier ones).
pub open spec fn last_status(runs: Seq<JobRun>, id: Seq<char>) -> Option<JobStatus>
    decreases runs.len(),
{
    if runs.len() == 0 {
        None
    } else if runs.last().job_id@ == id {
        Some(runs.last().status)
    } else {
        last_status(runs.drop_last(), id)
    }
}

/// `"{name} ({status})"` for each dependency that has a run and has not finished.
pub open spec fn blocker_lines(
    deps: Seq<String>,
    jobs: Seq<JobIr>,
    runs: Seq<JobRun>,
) -> Seq<Seq<char>>
    decreases deps.len(),
{
    if deps.len() == 0 {
        Seq::empty()
    } else {
        let prev = blocker_lines(deps.drop_last(), jobs, runs);
        let d = deps.last()@;
        match last_status(runs, d) {
            Some(st) => if is_done(st) {
                prev
            } else {
                prev.push(job_name_spec(jobs, d) + " ("@ + status_label_spec(st) + ")"@)
            },
            None => prev,
        }
    }
}

/// One requirement of a pool selector as shown to users.
pub open spec fn tag_part(t: (String, TagValue)) -> Seq<char> {
    match t.1 {
        TagValue::Bool(b) => t.0@ + "="@ + (if b {
            "true"@
        } else {
            "false"@
        }),
        TagValue::String(s) => t.0@ + "="@ + s@,
        TagValue::Present => t.0@,
    }
}

/// Requirements of a selector: a named pool other than `_default`, then each tag.
pub open spec fn pool_parts(p: PoolSelector) -> Seq<Seq<char>> {
    let head: Seq<Seq<char>> = match p.pool_name {
        Some(n) => if n@ != "_default"@ && n@.len() > 0 {
            seq!["pool '"@ + n@ + "'"@]
        } else {
            Seq::empty()
        },
        None => Seq::empty(),
    };
    head + p.required_tags@.map_values(|t: (String, TagValue)| tag_part(t))
}

/// The explanation for job run `jr`.
pub open spec fn scheduling_hint_spec(jobs: Seq<JobIr>, runs: Seq<JobRun>, jr: JobRun) -> Option<
    Seq<char>,
> {
    if jr.status == JobStatus::Queued {
        Some("Dispatched to an agent queue; waiting for the agent to start this job."@)
    } else if jr.status != JobStatus::Pending {
        None
    } else {
        match find_job(jobs, jr.job_id@) {
            None => None,
            Some(k) => {
                let job = jobs[k];
                let blockers = blocker_lines(job.depends_on@, jobs, runs);
                let parts = pool_parts(job.pool_selector);
                if blockers.len() > 0 {
                    Some("Waiting for upstream jobs to finish: "@ + join_seq(blockers, ", "@) + "."@)
                } else if parts.len() > 0 {
                    Some(
                        "Waiting for the scheduler to assign an available agent (requires "@
                            + join_seq(parts, ", "@)
                            + "). Other jobs may be using concurrency slots."@,
                    )
                } else {
                    Some(
                        "Waiting for the scheduler — no upstream blockers, but an agent must be available (and under the concurrency limit) before this job starts."@,
                    )
                }
            },
        }
    }
}

proof fn lemma_find_job_skip(jobs: Seq<JobIr>, id: Seq<char>, i: int)
    requires
        0 <= i <= jobs.len(),
        forall|j: int| 0 <= j < i ==> (#[trigger] jobs[j]).id@ != id,
    ensures
        match find_job(jobs.subrange(i, jobs.len() as int), id) {
            Some(k) => find_job(jobs, id) == Some(k + i),
            None => find_job(jobs, id) is None,
        },
    decreases i,
{
    if i > 0 {
        let t = jobs.subrange(1, jobs.len() as int);
        assert forall|j: int| 0 <= j < i - 1 implies (#[trigger] t[j]).id@ != id by {
            assert(t[j] == jobs[j + 1]);
        }
        lemma_find_job_skip(t, id, i - 1);
        assert(t.subrange(i - 1, t.len() as int) =~= jobs.subrange(i, jobs.len() as int));
    } else {
        assert(jobs.subrange(0, jobs.len() as int) =~= jobs);
    }
}

/// Index of the first job with id `id`.
pub fn find_job_index(jobs: &Vec<JobIr>, id: &str) -> (r: Option<usize>)
    ensures
        match r {
            Some(k) => find_job(jobs@, id@) == Some(k as int) && k < jobs@.len(),
            None => find_job(jobs@, id@) is None,
        },
{
    let mut i: usize = 0;
    while i < jobs.len()
        invariant
            i <= jobs@.len(),
            forall|j: int| 0 <= j < i ==> (#[trigger] jobs@[j]).id@ != id@,
        decreases jobs.len() - i,
    {
        if str_eq(jobs[i].id.as_str(), id) {
            proof {
                lemma_find_job_skip(jobs@, id@, i as int);
                let t = jobs@.subrange(i as int, jobs@.len() as int);
                assert(t[0] == jobs@[i as int]);
                assert(find_job(t, id@) == Some(0int));
            }
            return Some(i);
        }
        i = i + 1;
    }
    proof {
        lemma_find_job_skip(jobs@, id@, i as int);
        assert(jobs@.subrange(i as int, jobs@.len() as int).len() == 0);
    }
    None
}

/// Display name of a dependency.
pub fn job_display_name(jobs: &Vec<JobIr>, id: &str) -> (r: String)
    ensures
        r@ == job_name_spec(jobs@, id@),
{
    match find_job_index(jobs, id) {
        Some(k) => jobs[k].name.clone(),
        None => owned("dependency"),
    }
}

fn last_status_of(runs: &[JobRun], id: &str) -> (r: Option<JobStatus>)
    ensures
        r == last_status(runs@, id@),
{
    let mut i: usize = runs.len();
    assert(runs@.subrange(0, i as int) =~= runs@);
    while i > 0
        invariant
            i <= runs@.len(),
            last_status(runs@, id@) == last_status(runs@.subrange(0, i as int), id@),
        decreases i,
    {
        let ghost pre = runs@.subrange(0, i as int);
        assert(pre.drop_last() =~= runs@.subrange(0, i - 1));
        if str_eq(runs[i - 1].job_id.as_str(), id) {
            return Some(runs[i - 1].status);
        }
        i = i - 1;
    }
    None
}

fn tag_part_of(t: &(String, TagValue)) -> (r: String)
    ensures
        r@ == tag_part(*t),
{
    match &t.1 {
        TagValue::Bool(b) => concat3(t.0.as_str(), "=", if *b {
            "true"
        } else {
            "false"
        }),
        TagValue::String(s) => concat3(t.0.as_str(), "=", s.as_str()),
        TagValue::Present => t.0.clone(),
    }
}

/// `pool '<name>'` and the tag requirements, joined by `, `; `None` when there are none.
pub fn format_pool_hint(pool: &PoolSelector) -> (r: Option<String>)
    ensures
        match r {
            Some(s) => pool_parts(*pool).len() > 0 && s@ == join_seq(pool_parts(*pool), ", "@),
            None => pool_parts(*pool).len() == 0,
        },
{
    let mut parts: Vec<String> = Vec::new();
    let ghost head: Seq<Seq<char>> = Seq::empty();
    if let Some(p) = &pool.pool_name {
        if !str_eq(p.as_str(), "_default") && !p.as_str().is_empty() {
            parts.push(concat3("pool '", p.as_str(), "'"));
            proof {
                head = seq!["pool '"@ + p@ + "'"@];
            }
        }
    }
    assert(views(parts@) =~= head);
    let mut i: usize = 0;
    while i < pool.required_tags.len()
        invariant
            i <= pool.required_tags@.len(),
            head + pool.required_tags@.map_values(|t: (String, TagValue)| tag_part(t))
                == pool_parts(*pool),
            views(parts@) == head + pool.required_tags@.subrange(0, i as int).map_values(
                |t: (String, TagValue)| tag_part(t),
            ),
        decreases pool.required_tags.len() - i,
    {
        let s = tag_part_of(&pool.required_tags[i]);
        let ghost before = views(parts@);
        parts.push(s);
        assert(views(parts@) =~= before.push(tag_part(pool.required_tags@[i as int])));
        assert(pool.required_tags@.subrange(0, i + 1).map_values(|t: (String, TagValue)| tag_part(t))
            =~= pool.required_tags@.subrange(0, i as int).map_values(|t: (String, TagValue)| tag_part(t)).push(
            tag_part(pool.required_tags@[i as int])));
        assert(views(parts@) =~= head + pool.required_tags@.subrange(0, i + 1).map_values(
            |t: (String, TagValue)| tag_part(t),
        ));
        i = i + 1;
    }
    assert(pool.required_tags@.subrange(0, i as int) =~= pool.required_tags@);
    if parts.len() == 0 {
        None
    } else {
        Some(join(&parts, ", "))
    }
}

fn blockers_of(deps: &Vec<String>, jobs: &Vec<JobIr>, runs: &[JobRun]) -> (r: Vec<String>)
    ensures
        views(r@) == blocker_lines(deps@, jobs@, runs@),
{
    let mut r: Vec<String> = Vec::new();
    let mut i: usize = 0;
    while i < deps.len()
        invariant
            i <= deps@.len(),
            views(r@) == blocker_lines(deps@.subrange(0, i as int), jobs@, runs@),
        decreases deps.len() - i,
    {
        let ghost nxt = deps@.subrange(0, i + 1);
        assert(nxt.drop_last() =~= deps@.subrange(0, i as int));
        let d = deps[i].as_str();
        match last_status_of(runs, d) {
            Some(st) => {
                if !dep_is_done(st) {
                    let label = job_display_name(jobs, d);
                    let mut line = label;
                    line.append(" (");
                    line.append(status_label(st));
                    line.append(")");
                    r.push(line);
                    assert(views(r@) =~= blocker_lines(nxt, jobs@, runs@));
                }
            },
            None => {},
        }
        i = i + 1;
    }
    assert(deps@.subrange(0, deps@.len() as int) =~= deps@);
    r
}

/// A short explanation of why job run `jr` has not started, for queued and pending runs.
pub fn scheduling_hint(jobs: &Vec<JobIr>, job_runs: &[JobRun], jr: &JobRun) -> (r: Option<String>)
    ensures
        match r {
            Some(s) => scheduling_hint_spec(jobs@, job_runs@, *jr) == Some(s@),
            None => scheduling_hint_spec(jobs@, job_runs@, *jr) is None,
        },
{
    if jr.status == JobStatus::Queued {
        return Some(owned("Dispatched to an agent queue; waiting for the agent to start this job."));
    }
    if jr.status != JobStatus::Pending {
        return None;
    }
    let k = match find_job_index(jobs, jr.job_id.as_str()) {
        Some(k) => k,
        None => {
            return None;
        },
    };
    let job = &jobs[k];
    let blockers = blockers_of(&job.depends_on, jobs, job_runs);
    if blockers.len() > 0 {
        let joined = join(&blockers, ", ");
        return Some(concat3("Waiting for upstream jobs to finish: ", joined.as_str(), "."));
    }
    match format_pool_hint(&job.pool_selector) {
        Some(p) => Some(
            concat3(
                "Waiting for the scheduler to assign an available agent (requires ",
                p.as_str(),
                "). Other jobs may be using concurrency slots.",
            ),
        ),
        None => Some(
            owned(
                "Waiting for the scheduler — no upstream blockers, but an agent must be available (and under the concurrency limit) before this job starts.",
            ),
        ),
    }
}

} // verus!
