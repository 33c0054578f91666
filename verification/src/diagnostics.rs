//! Reusable workflow references of a pipeline, checked against the org catalog and the
//! project's own workflows: how each reference resolves and whether it blocks execution.
use vstd::prelude::*;
use crate::ordering::{is_sorted_set_of, sorted_unique};
use crate::text::{concat2, concat3, join, join_seq, owned, str_eq, views};
use crate::webhook_payloads::opt_view;
use crate::webhooks::{contains_string, contains_view};

verus! {

/// One workflow reference of a pipeline and how it resolves.
pub struct WorkflowDiagnosticItem {
    /// Invocation id from the pipeline YAML (`workflows[].id`).
    pub invocation_id: String,
    /// Original reference, e.g. `global/build`.
    pub reference: String,
    pub scope: String,
    pub name: String,
    pub version_requested: String,
    pub version_resolved: Option<String>,
    /// `ok`, `missing`, `version_not_found`, `pending_approval`, `rejected`, `deleted`,
    /// `untrusted_blocked` or `project_not_found`.
    pub status: String,
    pub detail: Option<String>,
    /// Execution must wait until this reference is resolved.
    pub blocking: bool,
    /// Declared workflow outputs of the resolved definition, when it declares any.
    pub declared_outputs: Option<Vec<String>>,
}

pub open spec fn opt_views(o: Option<Vec<String>>) -> Option<Seq<Seq<char>>> {
    match o {
        Some(v) => Some(views(v@)),
        None => None,
    }
}

/// Declared outputs: the distinct names in ascending order, `None` when there are none.
pub open spec fn declared_outputs_ok(names: Seq<Seq<char>>, r: Option<Vec<String>>) -> bool {
    match r {
        None => names.len() == 0,
        Some(v) => names.len() > 0 && is_sorted_set_of(views(v@), names),
    }
}

/// Output names a workflow definition declares (its `outputs:` keys and every step's
/// `outputs:` keys), sorted and without repeats; `None` when it declares none.
pub fn declared_output_names_from_definition(output_names: &Vec<String>) -> (r: Option<Vec<String>>)
    ensures
        declared_outputs_ok(views(output_names@), r),
{
    if output_names.len() == 0 {
        return None;
    }
    let names = sorted_unique(output_names);
    proof {
        assert(views(output_names@)[0] == output_names@[0]@);
        assert(views(output_names@).contains(output_names@[0]@));
        assert(views(output_names@).to_set().contains(output_names@[0]@));
        if names@.len() == 0 {
            assert(views(names@).to_set().len() == 0);
            assert(views(names@).to_set() =~= Set::<Seq<char>>::empty());
        }
    }
    Some(names)
}

/// How a requested version resolves among the available versions: `latest` is the first
/// listed; a version constraint takes what constraint resolution found; a plain version
/// must be listed.
pub open spec fn resolve_version_spec(
    versions: Seq<String>,
    requested: Seq<char>,
    constraint: Option<Option<Seq<char>>>,
) -> Option<Seq<char>> {
    if requested == "latest"@ {
        if versions.len() > 0 {
            Some(versions[0]@)
        } else {
            None
        }
    } else {
        match constraint {
            Some(found) => found,
            None => if contains_view(versions, requested) {
                Some(requested)
            } else {
                None
            },
        }
    }
}

/// Picks the version a reference runs. `constraint` is `None` when `requested` does not
/// parse as a version constraint, else the version the constraint selects among `versions`.
pub fn resolve_version_string(
    versions: &Vec<String>,
    requested: &str,
    constraint: &Option<Option<String>>,
) -> (r: Result<String, ()>)
    ensures
        match resolve_version_spec(
            versions@,
            requested@,
            match constraint {
                Some(f) => Some(opt_view(*f)),
                None => None,
            },
        ) {
            Some(v) => r matches Ok(s) && s@ == v,
            None => r is Err,
        },
{
    if str_eq(requested, "latest") {
        if versions.len() > 0 {
            return Ok(versions[0].clone());
        }
        return Err(());
    }
    match constraint {
        Some(found) => match found {
            Some(v) => Ok(v.clone()),
            None => Err(()),
        },
        None => if contains_string(versions, requested) {
            Ok(owned(requested))
        } else {
            Err(())
        },
    }
}

/// The fields of an item before its invocation id and reference are filled in.
pub open spec fn item_is(
    it: WorkflowDiagnosticItem,
    scope: Seq<char>,
    name: Seq<char>,
    requested: Seq<char>,
    resolved: Option<Seq<char>>,
    status: Seq<char>,
    detail: Option<Seq<char>>,
    blocking: bool,
) -> bool {
    &&& it.invocation_id@.len() == 0
    &&& it.reference@.len() == 0
    &&& it.scope@ == scope
    &&& it.name@ == name
    &&& it.version_requested@ == requested
    &&& opt_view(it.version_resolved) == resolved
    &&& it.status@ == status
    &&& opt_view(it.detail) == detail
    &&& it.blocking == blocking
}

fn make_item(
    scope: &str,
    name: &str,
    requested: &str,
    resolved: Option<String>,
    status: &str,
    detail: Option<String>,
    blocking: bool,
    declared_outputs: Option<Vec<String>>,
) -> (it: WorkflowDiagnosticItem)
    ensures
        item_is(it, scope@, name@, requested@, opt_view(resolved), status@, opt_view(detail), blocking),
        it.declared_outputs == declared_outputs,
{
    WorkflowDiagnosticItem {
        invocation_id: String::new(),
        reference: String::new(),
        scope: owned(scope),
        name: owned(name),
        version_requested: owned(requested),
        version_resolved: resolved,
        status: owned(status),
        detail,
        blocking,
        declared_outputs,
    }
}

/// First step for a catalog (`global`) reference: list the catalog versions and resolve the
/// requested one. A listing failure reports `missing` with the error; no match reports
/// `version_not_found` with the versions on offer. Both block.
pub fn diagnose_global_versions(
    name: &str,
    version_requested: &str,
    listed: &Result<Vec<String>, String>,
    constraint: &Option<Option<String>>,
) -> (r: Result<String, WorkflowDiagnosticItem>)
    ensures
        match listed {
            Err(e) => r matches Err(it) && item_is(
                it,
                "global"@,
                name@,
                version_requested@,
                None,
                "missing"@,
                Some("list versions: "@ + e@),
                true,
            ) && it.declared_outputs is None,
            Ok(versions) => match resolve_version_spec(
                versions@,
                version_requested@,
                match constraint {
                    Some(f) => Some(opt_view(*f)),
                    None => None,
                },
            ) {
                Some(v) => r matches Ok(s) && s@ == v,
                None => r matches Err(it) && item_is(
                    it,
                    "global"@,
                    name@,
                    version_requested@,
                    None,
                    "version_not_found"@,
                    Some("no matching version (have: "@ + join_seq(views(versions@), ", "@) + ")"@),
                    true,
                ) && it.declared_outputs is None,
            },
        },
{
    match listed {
        Err(e) => Err(
            make_item(
                "global",
                name,
                version_requested,
                None,
                "missing",
                Some(concat2("list versions: ", e.as_str())),
                true,
                None,
            ),
        ),
        Ok(versions) => match resolve_version_string(versions, version_requested, constraint) {
            Ok(v) => Ok(v),
            Err(()) => {
                let have = join(versions, ", ");
                Err(
                    make_item(
                        "global",
                        name,
                        version_requested,
                        None,
                        "version_not_found",
                        Some(concat3("no matching version (have: ", have.as_str(), ")")),
                        true,
                        None,
                    ),
                )
            },
        },
    }
}

/// Moderation state of a catalog workflow.
#[derive(Debug, Clone, Copy, PartialEq, Eq, Structural)]
pub enum WorkflowSubmissionStatus {
    Pending,
    Approved,
    Rejected,
}

/// Trust state of a catalog workflow.
#[derive(Debug, Clone, Copy, PartialEq, Eq, Structural)]
pub enum WorkflowTrustState {
    Trusted,
    Untrusted,
}

/// What the catalog holds for a resolved global version.
pub enum GlobalRowLookup {
    /// The row, with the output names its definition declares.
    Found {
        submission_status: WorkflowSubmissionStatus,
        trust_state: WorkflowTrustState,
        output_names: Vec<String>,
    },
    /// Only a deleted row exists.
    Deleted,
    /// No row.
    Missing,
}

/// Second step for a catalog reference: the resolved version's row decides the status.
/// Pending and rejected submissions block; an approved but untrusted workflow blocks unless
/// the org allows untrusted workflows; a deleted or missing row blocks.
pub fn diagnose_global_row(
    name: &str,
    version_requested: &str,
    resolved: String,
    row: &GlobalRowLookup,
    allow_untrusted: bool,
) -> (it: WorkflowDiagnosticItem)
    ensures
        match row {
            GlobalRowLookup::Deleted => item_is(
                it,
                "global"@,
                name@,
                version_requested@,
                Some(resolved@),
                "deleted"@,
                Some("this catalog version was removed"@),
                true,
            ) && it.declared_outputs is None,
            GlobalRowLookup::Missing => item_is(
                it,
                "global"@,
                name@,
                version_requested@,
                Some(resolved@),
                "missing"@,
                None,
                true,
            ) && it.declared_outputs is None,
            GlobalRowLookup::Found { submission_status, trust_state, output_names } => {
                &&& declared_outputs_ok(views(output_names@), it.declared_outputs)
                &&& match submission_status {
                    WorkflowSubmissionStatus::Pending => item_is(
                        it,
                        "global"@,
                        name@,
                        version_requested@,
                        Some(resolved@),
                        "pending_approval"@,
                        Some("catalog workflow is awaiting admin approval"@),
                        true,
                    ),
                    WorkflowSubmissionStatus::Rejected => item_is(
                        it,
                        "global"@,
                        name@,
                        version_requested@,
                        Some(resolved@),
                        "rejected"@,
                        Some("catalog workflow was rejected"@),
                        true,
                    ),
                    WorkflowSubmissionStatus::Approved => if trust_state
                        == WorkflowTrustState::Untrusted && !allow_untrusted {
                        item_is(
                            it,
                            "global"@,
                            name@,
                            version_requested@,
                            Some(resolved@),
                            "untrusted_blocked"@,
                            Some(
                                "untrusted catalog workflow; enable org setting allow_untrusted_workflows or mark trusted"@,
                            ),
                            true,
                        )
                    } else {
                        item_is(
                            it,
                            "global"@,
                            name@,
                            version_requested@,
                            Some(resolved@),
                            "ok"@,
                            None,
                            false,
                        )
                    },
                }
            },
        },
{
    match row {
        GlobalRowLookup::Deleted => make_item(
            "global",
            name,
            version_requested,
            Some(resolved),
            "deleted",
            Some(owned("this catalog version was removed")),
            true,
            None,
        ),
        GlobalRowLookup::Missing => make_item(
            "global",
            name,
            version_requested,
            Some(resolved),
            "missing",
            None,
            true,
            None,
        ),
        GlobalRowLookup::Found { submission_status, trust_state, output_names } => {
            let outputs = declared_output_names_from_definition(output_names);
            match submission_status {
                WorkflowSubmissionStatus::Pending => make_item(
                    "global",
                    name,
                    version_requested,
                    Some(resolved),
                    "pending_approval",
                    Some(owned("catalog workflow is awaiting admin approval")),
                    true,
                    outputs,
                ),
                WorkflowSubmissionStatus::Rejected => make_item(
                    "global",
                    name,
                    version_requested,
                    Some(resolved),
                    "rejected",
                    Some(owned("catalog workflow was rejected")),
                    true,
                    outputs,
                ),
                WorkflowSubmissionStatus::Approved => {
                    let untrusted = match trust_state {
                        WorkflowTrustState::Untrusted => true,
                        WorkflowTrustState::Trusted => false,
                    };
                    if untrusted && !allow_untrusted {
                        make_item(
                            "global",
                            name,
                            version_requested,
                            Some(resolved),
                            "untrusted_blocked",
                            Some(
                                owned(
                                    "untrusted catalog workflow; enable org setting allow_untrusted_workflows or mark trusted",
                                ),
                            ),
                            true,
                            outputs,
                        )
                    } else {
                        make_item(
                            "global",
                            name,
                            version_requested,
                            Some(resolved),
                            "ok",
                            None,
                            false,
                            outputs,
                        )
                    }
                },
            }
        },
    }
}

/// First step for a project-scoped reference: resolve among the project's versions (a
/// listing failure counts as no versions); no match is `project_not_found`, blocking.
pub fn diagnose_project_versions(
    name: &str,
    version_requested: &str,
    versions: &Vec<String>,
    constraint: &Option<Option<String>>,
) -> (r: Result<String, WorkflowDiagnosticItem>)
    ensures
        match resolve_version_spec(
            versions@,
            version_requested@,
            match constraint {
                Some(f) => Some(opt_view(*f)),
                None => None,
            },
        ) {
            Some(v) => r matches Ok(s) && s@ == v,
            None => r matches Err(it) && item_is(
                it,
                "project"@,
                name@,
                version_requested@,
                None,
                "project_not_found"@,
                Some(
                    "no matching project-scoped workflow version in the database (sync from Git if this pipeline uses `.stable/workflows`)"@,
                ),
                true,
            ) && it.declared_outputs is None,
        },
{
    match resolve_version_string(versions, version_requested, constraint) {
        Ok(v) => Ok(v),
        Err(()) => Err(
            make_item(
                "project",
                name,
                version_requested,
                None,
                "project_not_found",
                Some(
                    owned(
                        "no matching project-scoped workflow version in the database (sync from Git if this pipeline uses `.stable/workflows`)",
                    ),
                ),
                true,
                None,
            ),
        ),
    }
}

/// Second step for a project-scoped reference: a found row is `ok` with its declared
/// outputs; no row is `project_not_found`, blocking.
pub fn diagnose_project_row(
    name: &str,
    version_requested: &str,
    resolved: String,
    row_output_names: &Option<Vec<String>>,
) -> (it: WorkflowDiagnosticItem)
    ensures
        match row_output_names {
            Some(names) => item_is(
                it,
                "project"@,
                name@,
                version_requested@,
                Some(resolved@),
                "ok"@,
                None,
                false,
            ) && declared_outputs_ok(views(names@), it.declared_outputs),
            None => item_is(
                it,
                "project"@,
                name@,
                version_requested@,
                Some(resolved@),
                "project_not_found"@,
                None,
                true,
            ) && it.declared_outputs is None,
        },
{
    match row_output_names {
        Some(names) => {
            let outputs = declared_output_names_from_definition(names);
            make_item("project", name, version_requested, Some(resolved), "ok", None, false, outputs)
        },
        None => make_item(
            "project",
            name,
            version_requested,
            Some(resolved),
            "project_not_found",
            None,
            true,
            None,
        ),
    }
}

/// Fills in where in the pipeline the reference came from.
pub fn with_invocation(item: WorkflowDiagnosticItem, invocation_id: &str, reference: &str) -> (r:
    WorkflowDiagnosticItem)
    ensures
        r.invocation_id@ == invocation_id@,
        r.reference@ == reference@,
        r.scope == item.scope,
        r.name == item.name,
        r.version_requested == item.version_requested,
        r.version_resolved == item.version_resolved,
        r.status == item.status,
        r.detail == item.detail,
        r.blocking == item.blocking,
        r.declared_outputs == item.declared_outputs,
{
    WorkflowDiagnosticItem {
        invocation_id: owned(invocation_id),
        reference: owned(reference),
        ..item
    }
}

/// Some item blocks execution.
pub open spec fn any_blocking(items: Seq<WorkflowDiagnosticItem>) -> bool {
    exists|i: int| 0 <= i < items.len() && #[trigger] items[i].blocking
}

/// `true` if any item is blocking.
pub fn diagnostics_has_blocking(items: &[WorkflowDiagnosticItem]) -> (r: bool)
    ensures
        r == any_blocking(items@),
{
    let mut i: usize = 0;
    while i < items.len()
        invariant
            i <= items@.len(),
            forall|j: int| 0 <= j < i ==> !(#[trigger] items@[j]).blocking,
        decreases items.len() - i,
    {
        if items[i].blocking {
            return true;
        }
        i = i + 1;
    }
    false
}

/// `"{invocation} ({reference}): {status}"`, followed by `" — {detail}"` when there is one.
pub open spec fn blocking_line(it: WorkflowDiagnosticItem) -> Seq<char> {
    it.invocation_id@ + " ("@ + it.reference@ + "): "@ + it.status@ + match opt_view(it.detail) {
        Some(d) => " — "@ + d,
        None => Seq::empty(),
    }
}

/// Lines of the blocking items, in order.
pub open spec fn blocking_lines(items: Seq<WorkflowDiagnosticItem>) -> Seq<Seq<char>>
    decreases items.len(),
{
    if items.len() == 0 {
        Seq::empty()
    } else if items.last().blocking {
        blocking_lines(items.drop_last()).push(blocking_line(items.last()))
    } else {
        blocking_lines(items.drop_last())
    }
}

fn line_of(it: &WorkflowDiagnosticItem) -> (r: String)
    ensures
        r@ == blocking_line(*it),
{
    let mut r = owned(it.invocation_id.as_str());
    r.append(" (");
    r.append(it.reference.as_str());
    r.append("): ");
    r.append(it.status.as_str());
    if let Some(d) = &it.detail {
        r.append(" — ");
        r.append(d.as_str());
    }
    r
}

/// Summary of the blocking items for a refused trigger: their lines joined by `; `.
pub fn diagnostics_trigger_message(items: &[WorkflowDiagnosticItem]) -> (r: String)
    ensures
        r@ == join_seq(blocking_lines(items@), "; "@),
{
    let mut lines: Vec<String> = Vec::new();
    let mut i: usize = 0;
    while i < items.len()
        invariant
            i <= items@.len(),
            views(lines@) == blocking_lines(items@.subrange(0, i as int)),
        decreases items.len() - i,
    {
        let ghost nxt = items@.subrange(0, i + 1);
        assert(nxt.drop_last() =~= items@.subrange(0, i as int));
        if items[i].blocking {
            let l = line_of(&items[i]);
            lines.push(l);
            assert(views(lines@) =~= blocking_lines(nxt));
        }
        i = i + 1;
    }
    assert(items@.subrange(0, items@.len() as int) =~= items@);
    join(&lines, "; ")
}

} // verus!
