//! The job graph of a run: each job with the status of its latest attempt and the binaries
//! its attempts executed.
use vstd::prelude::*;
use crate::footprint::{DagNodeResponse, ExecutedBinarySummary};
use crate::footprint_groups::{lemma_pair_lt_facts, lemma_pair_lt_transitive, pair_lt, pairs_sorted};
use crate::ordering::str_lt;
use crate::scheduling::{status_label, status_label_spec, JobStatus};
use crate::text::{copy_strings, concat2, owned, str_eq, views};

verus! {

/// An attempt of a job in a run.
pub struct DagJobRun {
    pub id: String,
    pub job_id: String,
    pub job_name: String,
    pub attempt: i32,
    pub status: JobStatus,
}

/// Executions of one binary during one attempt.
pub struct RunBinaryExecutionAgg {
    pub binary_path: String,
    pub binary_sha256: String,
    pub execution_count: i64,
}

/// The binaries recorded for one attempt.
pub struct JobRunBinaries {
    pub job_run_id: String,
    pub rows: Vec<RunBinaryExecutionAgg>,
}

// ---------------------------------------------------------------------------
// Merging the binaries of several attempts
// ---------------------------------------------------------------------------

pub open spec fn agg_key(r: RunBinaryExecutionAgg) -> (Seq<char>, Seq<char>) {
    (r.binary_path@, r.binary_sha256@)
}

/// Sum of the counts of the rows with key `k`.
pub open spec fn agg_total(rows: Seq<RunBinaryExecutionAgg>, k: (Seq<char>, Seq<char>)) -> int
    decreases rows.len(),
{
    if rows.len() == 0 {
        0
    } else if agg_key(rows.last()) == k {
        agg_total(rows.drop_last(), k) + rows.last().execution_count
    } else {
        agg_total(rows.drop_last(), k)
    }
}

/// Every running sum that merging computes fits in an `i64`.
pub open spec fn agg_totals_fit(rows: Seq<RunBinaryExecutionAgg>) -> bool {
    forall|i: int|
        0 <= i < rows.len() ==> i64::MIN <= #[trigger] agg_total(rows.take(i + 1), agg_key(rows[i]))
            <= i64::MAX
}

pub open spec fn summary_key(s: ExecutedBinarySummary) -> (Seq<char>, Seq<char>) {
    (s.binary_path@, s.sha256@)
}

pub open spec fn summary_keys(s: Seq<ExecutedBinarySummary>) -> Seq<(Seq<char>, Seq<char>)> {
    s.map_values(|x: ExecutedBinarySummary| summary_key(x))
}

/// One summary per distinct (path, digest) of `rows`, in key order, with the summed count.
pub open spec fn merged(out: Seq<ExecutedBinarySummary>, rows: Seq<RunBinaryExecutionAgg>) -> bool {
    &&& pairs_sorted(summary_keys(out))
    &&& summary_keys(out).to_set() == rows.map_values(|r: RunBinaryExecutionAgg| agg_key(r)).to_set()
    &&& forall|i: int| 0 <= i < out.len() ==> (#[trigger] out[i]).execution_count == agg_total(rows, summary_key(out[i]))
}

fn add_agg(out: &mut Vec<ExecutedBinarySummary>, r: &RunBinaryExecutionAgg, Ghost(p): Ghost<
    Seq<RunBinaryExecutionAgg>,
>)
    requires
        merged(old(out)@, p),
        i64::MIN <= agg_total(p.push(*r), agg_key(*r)) <= i64::MAX,
    ensures
        merged(final(out)@, p.push(*r)),
{
    let ghost q = p.push(*r);
    let ghost k = agg_key(*r);
    let ghost s0 = out@;
    let ghost kp = p.map_values(|x: RunBinaryExecutionAgg| agg_key(x));
    let ghost kq = q.map_values(|x: RunBinaryExecutionAgg| agg_key(x));
    proof {
        assert(q.drop_last() =~= p);
        assert(q.last() == *r);
        assert(kq =~= kp.push(k));
        assert forall|x: (Seq<char>, Seq<char>)| #[trigger] agg_total(q, x) == agg_total(p, x) + if x == k {
            r.execution_count as int
        } else {
            0
        } by {}
        assert(kq.to_set() =~= kp.to_set().insert(k)) by {
            assert forall|x| kq.to_set().contains(x) implies kp.to_set().insert(k).contains(x) by {
                let m = choose|m: int| 0 <= m < kq.len() && kq[m] == x;
                if m < kp.len() {
                    assert(kp[m] == x);
                }
            }
            assert forall|x| kp.to_set().insert(k).contains(x) implies kq.to_set().contains(x) by {
                if x == k {
                    assert(kq[kp.len() as int] == x);
                } else {
                    let m = choose|m: int| 0 <= m < kp.len() && kp[m] == x;
                    assert(kq[m] == x);
                }
            }
        }
    }
    let mut j: usize = 0;
    while j < out.len() && (str_lt(out[j].binary_path.as_str(), r.binary_path.as_str()) || (str_eq(
        out[j].binary_path.as_str(),
        r.binary_path.as_str(),
    ) && str_lt(out[j].sha256.as_str(), r.binary_sha256.as_str())))
        invariant
            j <= out@.len(),
            out@ == s0,
            pairs_sorted(summary_keys(s0)),
            forall|m: int| 0 <= m < j ==> pair_lt(#[trigger] summary_keys(s0)[m], k),
            k == (r.binary_path@, r.binary_sha256@),
        decreases out.len() - j,
    {
        assert(summary_keys(s0)[j as int] == summary_key(s0[j as int]));
        j = j + 1;
    }
    if j < out.len() && str_eq(out[j].binary_path.as_str(), r.binary_path.as_str()) && str_eq(
        out[j].sha256.as_str(),
        r.binary_sha256.as_str(),
    ) {
        let mut e = out.remove(j);
        e.execution_count = e.execution_count + r.execution_count;
        out.insert(j, e);
        proof {
            let s1 = out@;
            assert(s1 =~= s0.update(j as int, e));
            assert(summary_keys(s1) =~= summary_keys(s0));
            assert(summary_keys(s0)[j as int] == k);
            assert(summary_keys(s0).to_set().contains(k));
            assert(kq.to_set() =~= kp.to_set());
            assert forall|m: int| 0 <= m < s1.len() implies (#[trigger] s1[m]).execution_count
                == agg_total(q, summary_key(s1[m])) by {
                if m != j {
                    assert(s1[m] == s0[m]);
                    assert(summary_keys(s0)[m] == summary_key(s0[m]));
                    lemma_pair_lt_facts(summary_keys(s0)[m], k);
                }
            }
        }
    } else {
        proof {
            let k0 = summary_keys(s0);
            if k0.to_set().contains(k) {
                let m = choose|m: int| 0 <= m < k0.len() && k0[m] == k;
                if m < j {
                    lemma_pair_lt_facts(k, k);
                } else if m > j {
                    let kj = k0[j as int];
                    assert(kj == summary_key(s0[j as int]));
                    assert(kj != k);
                    lemma_pair_lt_facts(kj, k);
                } else {
                    assert(k0[j as int] == summary_key(s0[j as int]));
                }
            }
            assert(!kp.to_set().contains(k));
            lemma_absent_total(p, k);
        }
        let e = ExecutedBinarySummary {
            binary_path: owned(r.binary_path.as_str()),
            sha256: owned(r.binary_sha256.as_str()),
            execution_count: r.execution_count,
        };
        out.insert(j, e);
        proof {
            let s1 = out@;
            let k0 = summary_keys(s0);
            let k1 = summary_keys(s1);
            assert(s1 =~= s0.insert(j as int, e));
            assert(k1 =~= k0.insert(j as int, k));
            if j < s0.len() {
                let kj = k0[j as int];
                assert(kj == summary_key(s0[j as int]));
                assert(!pair_lt(kj, k));
                lemma_pair_lt_facts(kj, k);
                assert forall|m: int| j < m < k0.len() implies pair_lt(k, #[trigger] k0[m]) by {
                    lemma_pair_lt_transitive(k, kj, k0[m]);
                }
            }
            assert forall|a: int, c: int| 0 <= a < c < k1.len() implies pair_lt(
                #[trigger] k1[a],
                #[trigger] k1[c],
            ) by {
                if a < j && c < j {
                    assert(k1[a] == k0[a] && k1[c] == k0[c]);
                } else if a < j && c == j {
                    assert(k1[a] == k0[a]);
                } else if a < j {
                    assert(k1[a] == k0[a] && k1[c] == k0[c - 1]);
                } else if a == j {
                    assert(k1[c] == k0[c - 1]);
                } else {
                    assert(k1[a] == k0[a - 1] && k1[c] == k0[c - 1]);
                }
            }
            assert(k1.to_set() =~= k0.to_set().insert(k)) by {
                assert forall|x: (Seq<char>, Seq<char>)| k1.to_set().contains(x) implies k0.to_set().insert(
                    k,
                ).contains(x) by {
                    let m = choose|m: int| 0 <= m < k1.len() && k1[m] == x;
                    if m < j {
                        assert(k0[m] == x);
                    } else if m > j {
                        assert(k0[m - 1] == x);
                    }
                }
                assert forall|x: (Seq<char>, Seq<char>)| k0.to_set().insert(k).contains(x) implies k1.to_set().contains(
                    x,
                ) by {
                    if x == k {
                        assert(k1[j as int] == x);
                    } else {
                        let m = choose|m: int| 0 <= m < k0.len() && k0[m] == x;
                        if m < j {
                            assert(k1[m] == x);
                        } else {
                            assert(k1[m + 1] == x);
                        }
                    }
                }
            }
            assert forall|m: int| 0 <= m < s1.len() implies (#[trigger] s1[m]).execution_count
                == agg_total(q, summary_key(s1[m])) by {
                if m < j {
                    assert(s1[m] == s0[m]);
                    assert(k0[m] == summary_key(s0[m]));
                    lemma_pair_lt_facts(k0[m], k);
                } else if m > j {
                    assert(s1[m] == s0[m - 1]);
                    assert(k0[m - 1] == summary_key(s0[m - 1]));
                    if summary_key(s0[m - 1]) == k {
                        assert(k0.to_set().contains(k));
                    }
                }
            }
        }
    }
}

proof fn lemma_absent_total(rows: Seq<RunBinaryExecutionAgg>, k: (Seq<char>, Seq<char>))
    requires
        !rows.map_values(|r: RunBinaryExecutionAgg| agg_key(r)).to_set().contains(k),
    ensures
        agg_total(rows, k) == 0,
    decreases rows.len(),
{
    if rows.len() > 0 {
        let p = rows.drop_last();
        let kr = rows.map_values(|r: RunBinaryExecutionAgg| agg_key(r));
        let kp = p.map_values(|r: RunBinaryExecutionAgg| agg_key(r));
        assert(kr[rows.len() - 1] == agg_key(rows.last()));
        if kp.to_set().contains(k) {
            let m = choose|m: int| 0 <= m < kp.len() && kp[m] == k;
            assert(kr[m] == kp[m]);
        }
        lemma_absent_total(p, k);
    }
}

fn merge_refs(rows: &Vec<&RunBinaryExecutionAgg>, Ghost(rs): Ghost<Seq<RunBinaryExecutionAgg>>) -> (r: Vec<
    ExecutedBinarySummary,
>)
    requires
        rows@.len() == rs.len(),
        forall|i: int| 0 <= i < rs.len() ==> *rows@[i] == #[trigger] rs[i],
        agg_totals_fit(rs),
    ensures
        merged(r@, rs),
{
    let mut out: Vec<ExecutedBinarySummary> = Vec::new();
    let mut i: usize = 0;
    proof {
        assert(summary_keys(out@).to_set() =~= rs.take(0).map_values(
            |r: RunBinaryExecutionAgg| agg_key(r),
        ).to_set());
    }
    while i < rows.len()
        invariant
            i <= rs.len(),
            rows@.len() == rs.len(),
            forall|m: int| 0 <= m < rs.len() ==> *rows@[m] == #[trigger] rs[m],
            agg_totals_fit(rs),
            merged(out@, rs.take(i as int)),
        decreases rows.len() - i,
    {
        proof {
            assert(rs.take(i + 1) =~= rs.take(i as int).push(rs[i as int]));
            assert(i64::MIN <= agg_total(rs.take(i + 1), agg_key(rs[i as int])) <= i64::MAX);
        }
        let r: &RunBinaryExecutionAgg = rows[i];
        assert(*r == rs[i as int]);
        add_agg(&mut out, r, Ghost(rs.take(i as int)));
        i = i + 1;
    }
    assert(rs.take(rs.len() as int) =~= rs);
    out
}

/// The binaries of several attempts, merged: one summary per (path, digest) in order of
/// path then digest, with the execution counts summed.
pub fn merge_binaries_for_job_runs(rows: &Vec<RunBinaryExecutionAgg>) -> (r: Vec<ExecutedBinarySummary>)
    requires
        agg_totals_fit(rows@),
    ensures
        merged(r@, rows@),
{
    let mut refs: Vec<&RunBinaryExecutionAgg> = Vec::new();
    let mut i: usize = 0;
    while i < rows.len()
        invariant
            i <= rows@.len(),
            refs@.len() == i,
            forall|m: int| 0 <= m < i ==> *refs@[m] == #[trigger] rows@[m],
        decreases rows.len() - i,
    {
        refs.push(&rows[i]);
        i = i + 1;
    }
    merge_refs(&refs, Ghost(rows@))
}

// ---------------------------------------------------------------------------
// Nodes
// ---------------------------------------------------------------------------

/// Index of the latest attempt: the highest attempt number, the last listed among equal
/// ones (`max_by_key`).
pub open spec fn latest_run(runs: Seq<DagJobRun>) -> Option<int>
    decreases runs.len(),
{
    if runs.len() == 0 {
        None
    } else {
        let last = runs.len() - 1;
        match latest_run(runs.drop_last()) {
            Some(i) => if runs[last].attempt >= runs[i].attempt {
                Some(last)
            } else {
                Some(i)
            },
            None => Some(last),
        }
    }
}

/// Status shown for a job: that of its latest attempt, `pending` without attempts.
pub open spec fn node_status(runs: Seq<DagJobRun>) -> Seq<char> {
    match latest_run(runs) {
        Some(i) => status_label_spec(runs[i].status),
        None => "pending"@,
    }
}

proof fn lemma_latest_run_bounds(runs: Seq<DagJobRun>)
    ensures
        latest_run(runs) is Some <==> runs.len() > 0,
        latest_run(runs) matches Some(i) ==> 0 <= i < runs.len(),
    decreases runs.len(),
{
    if runs.len() > 0 {
        lemma_latest_run_bounds(runs.drop_last());
    }
}

/// The attempts of a job by name, in order.
pub open spec fn runs_named(runs: Seq<DagJobRun>, name: Seq<char>) -> Seq<DagJobRun>
    decreases runs.len(),
{
    if runs.len() == 0 {
        Seq::empty()
    } else if runs.last().job_name@ == name {
        runs_named(runs.drop_last(), name).push(runs.last())
    } else {
        runs_named(runs.drop_last(), name)
    }
}

/// Rows recorded for attempt `id`: those of the first entry for it, none without one.
pub open spec fn binaries_of(table: Seq<JobRunBinaries>, id: Seq<char>) -> Seq<RunBinaryExecutionAgg>
    decreases table.len(),
{
    if table.len() == 0 {
        Seq::empty()
    } else if table[0].job_run_id@ == id {
        table[0].rows@
    } else {
        binaries_of(table.drop_first(), id)
    }
}

/// Rows of the given attempts, attempt by attempt.
pub open spec fn rows_of_runs(runs: Seq<DagJobRun>, table: Seq<JobRunBinaries>) -> Seq<RunBinaryExecutionAgg>
    decreases runs.len(),
{
    if runs.len() == 0 {
        Seq::empty()
    } else {
        rows_of_runs(runs.drop_last(), table) + binaries_of(table, runs.last().id@)
    }
}

fn lookup_binaries(table: &Vec<JobRunBinaries>, id: &str) -> (r: Option<usize>)
    ensures
        match r {
            Some(k) => k < table@.len() && binaries_of(table@, id@) == table@[k as int].rows@,
            None => binaries_of(table@, id@) == Seq::<RunBinaryExecutionAgg>::empty(),
        },
{
    let mut k: usize = 0;
    assert(table@.subrange(0, table@.len() as int) =~= table@);
    while k < table.len()
        invariant
            k <= table@.len(),
            binaries_of(table@, id@) == binaries_of(table@.subrange(k as int, table@.len() as int), id@),
        decreases table.len() - k,
    {
        let ghost t = table@.subrange(k as int, table@.len() as int);
        assert(t[0] == table@[k as int]);
        if str_eq(table[k].job_run_id.as_str(), id) {
            return Some(k);
        }
        assert(t.drop_first() =~= table@.subrange(k + 1, table@.len() as int));
        k = k + 1;
    }
    None
}

/// Status and merged binaries of a job from its attempts.
fn node_facts(runs: &Vec<&DagJobRun>, table: &Vec<JobRunBinaries>, Ghost(rs): Ghost<Seq<DagJobRun>>) -> (r: (
    String,
    Vec<ExecutedBinarySummary>,
))
    requires
        runs@.len() == rs.len(),
        forall|i: int| 0 <= i < rs.len() ==> *runs@[i] == #[trigger] rs[i],
        agg_totals_fit(rows_of_runs(rs, table@)),
    ensures
        r.0@ == node_status(rs),
        merged(r.1@, rows_of_runs(rs, table@)),
{
    // latest attempt
    let mut best: Option<usize> = None;
    let mut i: usize = 0;
    while i < runs.len()
        invariant
            i <= runs@.len(),
            runs@.len() == rs.len(),
            forall|m: int| 0 <= m < rs.len() ==> *runs@[m] == #[trigger] rs[m],
            latest_run(rs.take(i as int)) == match best {
                Some(b) => Some(b as int),
                None => None::<int>,
            },
            best matches Some(b) ==> b < i,
        decreases runs.len() - i,
    {
        proof {
            assert(rs.take(i + 1).drop_last() =~= rs.take(i as int));
            assert(rs.take(i + 1)[i as int] == rs[i as int]);
            if let Some(b) = best {
                assert(rs.take(i + 1)[b as int] == rs[b as int]);
            }
        }
        match best {
            Some(b) => {
                if runs[i].attempt >= runs[b].attempt {
                    best = Some(i);
                }
            },
            None => {
                best = Some(i);
            },
        }
        i = i + 1;
    }
    assert(rs.take(rs.len() as int) =~= rs);
    let status = match best {
        Some(b) => owned(status_label(runs[b].status)),
        None => owned("pending"),
    };
    // binaries of all attempts, attempt by attempt
    let mut rows: Vec<&RunBinaryExecutionAgg> = Vec::new();
    let ghost mut gs: Seq<RunBinaryExecutionAgg> = Seq::empty();
    let mut k: usize = 0;
    assert(rows_of_runs(rs.take(0), table@) =~= Seq::<RunBinaryExecutionAgg>::empty());
    while k < runs.len()
        invariant
            k <= runs@.len(),
            runs@.len() == rs.len(),
            forall|m: int| 0 <= m < rs.len() ==> *runs@[m] == #[trigger] rs[m],
            gs == rows_of_runs(rs.take(k as int), table@),
            rows@.len() == gs.len(),
            forall|m: int| 0 <= m < gs.len() ==> *rows@[m] == #[trigger] gs[m],
        decreases runs.len() - k,
    {
        proof {
            assert(rs.take(k + 1).drop_last() =~= rs.take(k as int));
            assert(rs.take(k + 1).last() == rs[k as int]);
        }
        let ghost before = gs;
        match lookup_binaries(table, runs[k].id.as_str()) {
            Some(t) => {
                let src = &table[t].rows;
                let mut q: usize = 0;
                while q < src.len()
                    invariant
                        q <= src@.len(),
                        gs == before + src@.take(q as int),
                        rows@.len() == gs.len(),
                        forall|m: int| 0 <= m < gs.len() ==> *rows@[m] == #[trigger] gs[m],
                    decreases src.len() - q,
                {
                    rows.push(&src[q]);
                    proof {
                        gs = gs.push(src@[q as int]);
                        assert(src@.take(q + 1) =~= src@.take(q as int).push(src@[q as int]));
                    }
                    q = q + 1;
                }
                assert(src@.take(src@.len() as int) =~= src@);
            },
            None => {
                assert(before + Seq::<RunBinaryExecutionAgg>::empty() =~= before);
            },
        }
        k = k + 1;
    }
    assert(rs.take(rs.len() as int) =~= rs);
    let merged_rows = merge_refs(&rows, Ghost(gs));
    (status, merged_rows)
}

/// The attempts of a job by id, in order.
pub open spec fn runs_of_job(runs: Seq<DagJobRun>, job_id: Seq<char>) -> Seq<DagJobRun>
    decreases runs.len(),
{
    if runs.len() == 0 {
        Seq::empty()
    } else if runs.last().job_id@ == job_id {
        runs_of_job(runs.drop_last(), job_id).push(runs.last())
    } else {
        runs_of_job(runs.drop_last(), job_id)
    }
}

/// The attempts whose name (`by_name`) or job id is `key`, with references to them.
fn select_runs<'a>(job_runs: &'a Vec<DagJobRun>, key: &str, by_name: bool) -> (r: (
    Vec<&'a DagJobRun>,
    Ghost<Seq<DagJobRun>>,
))
    ensures
        r.1@ == (if by_name {
            runs_named(job_runs@, key@)
        } else {
            runs_of_job(job_runs@, key@)
        }),
        r.0@.len() == r.1@.len(),
        forall|i: int| 0 <= i < r.1@.len() ==> *r.0@[i] == #[trigger] r.1@[i],
{
    let mut v: Vec<&'a DagJobRun> = Vec::new();
    let ghost mut g: Seq<DagJobRun> = Seq::empty();
    let mut i: usize = 0;
    while i < job_runs.len()
        invariant
            i <= job_runs@.len(),
            g == (if by_name {
                runs_named(job_runs@.take(i as int), key@)
            } else {
                runs_of_job(job_runs@.take(i as int), key@)
            }),
            v@.len() == g.len(),
            forall|m: int| 0 <= m < g.len() ==> *v@[m] == #[trigger] g[m],
        decreases job_runs.len() - i,
    {
        proof {
            assert(job_runs@.take(i + 1).drop_last() =~= job_runs@.take(i as int));
            assert(job_runs@.take(i + 1).last() == job_runs@[i as int]);
        }
        let hit = if by_name {
            str_eq(job_runs[i].job_name.as_str(), key)
        } else {
            str_eq(job_runs[i].job_id.as_str(), key)
        };
        if hit {
            v.push(&job_runs[i]);
            proof {
                g = g.push(job_runs@[i as int]);
            }
        }
        i = i + 1;
    }
    assert(job_runs@.take(job_runs@.len() as int) =~= job_runs@);
    (v, Ghost(g))
}

/// A node shows its job with the given id and dependencies, the status of the job's latest
/// attempt and the merged binaries of all its attempts.
pub open spec fn node_ok(
    n: DagNodeResponse,
    job_id: Seq<char>,
    name: Seq<char>,
    depends_on: Seq<Seq<char>>,
    runs: Seq<DagJobRun>,
    table: Seq<JobRunBinaries>,
) -> bool {
    &&& n.job_id@ == job_id
    &&& n.job_name@ == name
    &&& n.status@ == node_status(runs)
    &&& views(n.depends_on@) == depends_on
    &&& merged(n.executed_binaries@, rows_of_runs(runs, table))
}

/// Nodes from a pipeline definition's jobs (name and dependencies, in definition order):
/// node `def:{name}` gathers the attempts of the job with that name.
pub fn build_dag_nodes_from_definition(
    defs: &Vec<(String, Vec<String>)>,
    job_runs: &Vec<DagJobRun>,
    binaries: &Vec<JobRunBinaries>,
) -> (r: Vec<DagNodeResponse>)
    requires
        forall|i: int|
            0 <= i < defs@.len() ==> agg_totals_fit(
                rows_of_runs(runs_named(job_runs@, (#[trigger] defs@[i]).0@), binaries@),
            ),
    ensures
        r@.len() == defs@.len(),
        forall|i: int|
            0 <= i < defs@.len() ==> node_ok(
                #[trigger] r@[i],
                "def:"@ + defs@[i].0@,
                defs@[i].0@,
                views(defs@[i].1@),
                runs_named(job_runs@, defs@[i].0@),
                binaries@,
            ),
{
    let mut out: Vec<DagNodeResponse> = Vec::new();
    let mut i: usize = 0;
    while i < defs.len()
        invariant
            i <= defs@.len(),
            out@.len() == i,
            forall|j: int|
                0 <= j < defs@.len() ==> agg_totals_fit(
                    rows_of_runs(runs_named(job_runs@, (#[trigger] defs@[j]).0@), binaries@),
                ),
            forall|j: int|
                0 <= j < i ==> node_ok(
                    #[trigger] out@[j],
                    "def:"@ + defs@[j].0@,
                    defs@[j].0@,
                    views(defs@[j].1@),
                    runs_named(job_runs@, defs@[j].0@),
                    binaries@,
                ),
        decreases defs.len() - i,
    {
        let name = defs[i].0.as_str();
        let (runs, Ghost(rs)) = select_runs(job_runs, name, true);
        assert(agg_totals_fit(rows_of_runs(runs_named(job_runs@, defs@[i as int].0@), binaries@)));
        let (status, executed_binaries) = node_facts(&runs, binaries, Ghost(rs));
        out.push(
            DagNodeResponse {
                job_id: concat2("def:", name),
                job_name: owned(name),
                status,
                depends_on: copy_strings(&defs[i].1),
                executed_binaries,
            },
        );
        i = i + 1;
    }
    out
}

/// A job of the pipeline's stored graph.
pub struct JobDagNode {
    pub id: String,
    pub name: String,
    pub depends_on: Vec<String>,
}

/// Nodes from the pipeline's stored jobs: each gathers the attempts of its job id.
pub fn build_dag_nodes_from_db_jobs(
    dag_jobs: &Vec<JobDagNode>,
    job_runs: &Vec<DagJobRun>,
    binaries: &Vec<JobRunBinaries>,
) -> (r: Vec<DagNodeResponse>)
    requires
        forall|i: int|
            0 <= i < dag_jobs@.len() ==> agg_totals_fit(
                rows_of_runs(runs_of_job(job_runs@, (#[trigger] dag_jobs@[i]).id@), binaries@),
            ),
    ensures
        r@.len() == dag_jobs@.len(),
        forall|i: int|
            0 <= i < dag_jobs@.len() ==> node_ok(
                #[trigger] r@[i],
                dag_jobs@[i].id@,
                dag_jobs@[i].name@,
                views(dag_jobs@[i].depends_on@),
                runs_of_job(job_runs@, dag_jobs@[i].id@),
                binaries@,
            ),
{
    let mut out: Vec<DagNodeResponse> = Vec::new();
    let mut i: usize = 0;
    while i < dag_jobs.len()
        invariant
            i <= dag_jobs@.len(),
            out@.len() == i,
            forall|j: int|
                0 <= j < dag_jobs@.len() ==> agg_totals_fit(
                    rows_of_runs(runs_of_job(job_runs@, (#[trigger] dag_jobs@[j]).id@), binaries@),
                ),
            forall|j: int|
                0 <= j < i ==> node_ok(
                    #[trigger] out@[j],
                    dag_jobs@[j].id@,
                    dag_jobs@[j].name@,
                    views(dag_jobs@[j].depends_on@),
                    runs_of_job(job_runs@, dag_jobs@[j].id@),
                    binaries@,
                ),
        decreases dag_jobs.len() - i,
    {
        let job = &dag_jobs[i];
        let (runs, Ghost(rs)) = select_runs(job_runs, job.id.as_str(), false);
        assert(agg_totals_fit(rows_of_runs(runs_of_job(job_runs@, dag_jobs@[i as int].id@), binaries@)));
        let (status, executed_binaries) = node_facts(&runs, binaries, Ghost(rs));
        out.push(
            DagNodeResponse {
                job_id: owned(job.id.as_str()),
                job_name: owned(job.name.as_str()),
                status,
                depends_on: copy_strings(&job.depends_on),
                executed_binaries,
            },
        );
        i = i + 1;
    }
    out
}

} // verus!
