//! The environment matrix of a pipeline: the workflows it ran, its environments, and the
//! latest run of each workflow in each environment.
use vstd::prelude::*;
use crate::text::{owned, str_eq, views};
use crate::webhook_config::dedup_first;
use crate::webhook_payloads::opt_view;
use crate::webhooks::contains_string;

verus! {

/// An environment of the pipeline's project.
pub struct Environment {
    pub id: String,
    pub name: String,
    pub tier: String,
}

/// A column of the matrix.
pub struct MatrixEnvironment {
    pub id: Option<String>,
    pub name: String,
    pub tier: String,
}

/// The latest run of a workflow in an environment, as read (times as RFC 3339 text).
pub struct MatrixCellRow {
    pub workflow_invocation_id: Option<String>,
    pub environment_id: Option<String>,
    pub run_id: String,
    pub run_number: i64,
    pub status: String,
    pub started_at: Option<String>,
    pub finished_at: Option<String>,
    pub duration_ms: Option<i64>,
    pub branch: Option<String>,
    pub triggered_by: String,
}

/// A cell of the matrix.
pub struct MatrixCell {
    pub workflow: String,
    /// Name of the environment; `None` for the global column or an unknown environment.
    pub environment: Option<String>,
    pub run_id: Option<String>,
    pub run_number: Option<i64>,
    pub status: Option<String>,
    pub started_at: Option<String>,
    pub finished_at: Option<String>,
    pub duration_ms: Option<i64>,
    pub branch: Option<String>,
    pub triggered_by: Option<String>,
}

pub struct MatrixResponse {
    pub workflows: Vec<String>,
    pub environments: Vec<MatrixEnvironment>,
    pub cells: Vec<MatrixCell>,
}

/// Workflow ids of the rows that have one, in order.
pub open spec fn row_workflows(rows: Seq<MatrixCellRow>) -> Seq<Seq<char>>
    decreases rows.len(),
{
    if rows.len() == 0 {
        Seq::empty()
    } else {
        let p = row_workflows(rows.drop_last());
        match opt_view(rows.last().workflow_invocation_id) {
            Some(w) => p.push(w),
            None => p,
        }
    }
}

/// Name of environment `id`: that of the last environment listed with it (a map built from
/// the list).
pub open spec fn env_name(envs: Seq<Environment>, id: Seq<char>) -> Option<Seq<char>>
    decreases envs.len(),
{
    if envs.len() == 0 {
        None
    } else if envs.last().id@ == id {
        Some(envs.last().name@)
    } else {
        env_name(envs.drop_last(), id)
    }
}

/// A column stands for environment `e`.
pub open spec fn column_of(c: MatrixEnvironment, e: Environment) -> bool {
    opt_view(c.id) == Some(e.id@) && c.name@ == e.name@ && c.tier@ == e.tier@
}

/// A cell shows row `r`, its environment by name.
pub open spec fn cell_of(c: MatrixCell, r: MatrixCellRow, envs: Seq<Environment>) -> bool {
    &&& c.workflow@ == match opt_view(r.workflow_invocation_id) {
        Some(w) => w,
        None => Seq::empty(),
    }
    &&& opt_view(c.environment) == match opt_view(r.environment_id) {
        Some(id) => env_name(envs, id),
        None => None,
    }
    &&& opt_view(c.run_id) == Some(r.run_id@)
    &&& c.run_number == Some(r.run_number)
    &&& opt_view(c.status) == Some(r.status@)
    &&& opt_view(c.started_at) == opt_view(r.started_at)
    &&& opt_view(c.finished_at) == opt_view(r.finished_at)
    &&& c.duration_ms == r.duration_ms
    &&& opt_view(c.branch) == opt_view(r.branch)
    &&& opt_view(c.triggered_by) == Some(r.triggered_by@)
}

fn env_name_lookup(envs: &Vec<Environment>, id: &str) -> (r: Option<String>)
    ensures
        opt_view(r) == env_name(envs@, id@),
{
    let mut k: usize = envs.len();
    assert(envs@.take(envs@.len() as int) =~= envs@);
    while k > 0
        invariant
            k <= envs@.len(),
            env_name(envs@, id@) == env_name(envs@.take(k as int), id@),
        decreases k,
    {
        let ghost t = envs@.take(k as int);
        assert(t.last() == envs@[k - 1]);
        assert(t.drop_last() =~= envs@.take(k - 1));
        if str_eq(envs[k - 1].id.as_str(), id) {
            return Some(owned(envs[k - 1].name.as_str()));
        }
        k = k - 1;
    }
    None
}

fn copy_opt(o: &Option<String>) -> (r: Option<String>)
    ensures
        opt_view(r) == opt_view(*o),
{
    match o {
        Some(s) => Some(owned(s.as_str())),
        None => None,
    }
}

/// The matrix: the distinct workflows in order of first appearance; a `Global` column
/// (tier `global`) followed by one column per environment; one cell per row.
pub fn matrix_view(envs: &Vec<Environment>, rows: &Vec<MatrixCellRow>) -> (r: MatrixResponse)
    ensures
        views(r.workflows@) == dedup_first(row_workflows(rows@)),
        r.environments@.len() == envs@.len() + 1,
        r.environments@[0].id is None,
        r.environments@[0].name@ == "Global"@,
        r.environments@[0].tier@ == "global"@,
        forall|i: int| 0 <= i < envs@.len() ==> column_of(#[trigger] r.environments@[i + 1], envs@[i]),
        r.cells@.len() == rows@.len(),
        forall|i: int| 0 <= i < rows@.len() ==> cell_of(#[trigger] r.cells@[i], rows@[i], envs@),
{
    let mut environments: Vec<MatrixEnvironment> = Vec::new();
    environments.push(
        MatrixEnvironment { id: None, name: owned("Global"), tier: owned("global") },
    );
    let mut i: usize = 0;
    while i < envs.len()
        invariant
            i <= envs@.len(),
            environments@.len() == i + 1,
            environments@[0].id is None,
            environments@[0].name@ == "Global"@,
            environments@[0].tier@ == "global"@,
            forall|j: int| 0 <= j < i ==> column_of(#[trigger] environments@[j + 1], envs@[j]),
        decreases envs.len() - i,
    {
        let e = &envs[i];
        environments.push(
            MatrixEnvironment {
                id: Some(owned(e.id.as_str())),
                name: owned(e.name.as_str()),
                tier: owned(e.tier.as_str()),
            },
        );
        i = i + 1;
    }
    let mut workflows: Vec<String> = Vec::new();
    let mut cells: Vec<MatrixCell> = Vec::new();
    let mut k: usize = 0;
    while k < rows.len()
        invariant
            k <= rows@.len(),
            views(workflows@) == dedup_first(row_workflows(rows@.take(k as int))),
            cells@.len() == k,
            forall|j: int| 0 <= j < k ==> cell_of(#[trigger] cells@[j], rows@[j], envs@),
        decreases rows.len() - k,
    {
        let row = &rows[k];
        proof {
            assert(rows@.take(k + 1).drop_last() =~= rows@.take(k as int));
            assert(rows@.take(k + 1).last() == rows@[k as int]);
        }
        let ghost before = views(workflows@);
        if let Some(wf) = &row.workflow_invocation_id {
            let ghost pw = row_workflows(rows@.take(k as int));
            assert(row_workflows(rows@.take(k + 1)) =~= pw.push(wf@));
            assert(pw.push(wf@).drop_last() =~= pw);
            if !contains_string(&workflows, wf.as_str()) {
                workflows.push(owned(wf.as_str()));
                proof {
                    assert(views(workflows@) =~= before.push(wf@));
                    assert(!before.contains(wf@)) by {
                        if before.contains(wf@) {
                            let m = choose|m: int| 0 <= m < before.len() && before[m] == wf@;
                            assert(workflows@[m]@ == wf@);
                        }
                    }
                }
            } else {
                proof {
                    let m = choose|m: int| 0 <= m < workflows@.len() && #[trigger] workflows@[m]@ == wf@;
                    assert(before[m] == wf@);
                }
            }
        }
        let environment = match &row.environment_id {
            Some(eid) => env_name_lookup(envs, eid.as_str()),
            None => None,
        };
        let workflow = match &row.workflow_invocation_id {
            Some(w) => owned(w.as_str()),
            None => String::new(),
        };
        cells.push(
            MatrixCell {
                workflow,
                environment,
                run_id: Some(owned(row.run_id.as_str())),
                run_number: Some(row.run_number),
                status: Some(owned(row.status.as_str())),
                started_at: copy_opt(&row.started_at),
                finished_at: copy_opt(&row.finished_at),
                duration_ms: row.duration_ms,
                branch: copy_opt(&row.branch),
                triggered_by: Some(owned(row.triggered_by.as_str())),
            },
        );
        k = k + 1;
    }
    assert(rows@.take(rows@.len() as int) =~= rows@);
    MatrixResponse { workflows, environments, cells }
}

} // verus!
