//! Pipeline variables: creation and update rules, and how a stored variable is shown
//! (sensitive values never are).
use vstd::prelude::*;
use crate::error::{ApiError, ErrorKind};
use crate::text::{owned, str_eq};
use crate::webhook_payloads::{clone_opt, opt_view};

verus! {

/// A stored variable (times as RFC 3339 text).
pub struct VariableRow {
    pub id: String,
    pub project_id: String,
    pub org_id: String,
    pub pipeline_id: Option<String>,
    pub environment_id: Option<String>,
    pub name: String,
    pub value: String,
    pub scope: String,
    pub is_sensitive: bool,
    pub created_at: String,
    pub updated_at: String,
}

/// A variable as the API shows it.
pub struct VariableResponse {
    pub id: String,
    pub project_id: String,
    pub pipeline_id: Option<String>,
    pub environment_id: Option<String>,
    pub name: String,
    /// The value; `None` for a sensitive variable.
    pub value: Option<String>,
    pub scope: String,
    pub is_sensitive: bool,
    pub created_at: String,
    pub updated_at: String,
}

/// The response for a stored variable: its fields, with the value withheld when the
/// variable is sensitive.
pub fn variable_response(r: &VariableRow) -> (v: VariableResponse)
    ensures
        v.id@ == r.id@,
        v.project_id@ == r.project_id@,
        opt_view(v.pipeline_id) == opt_view(r.pipeline_id),
        opt_view(v.environment_id) == opt_view(r.environment_id),
        v.name@ == r.name@,
        r.is_sensitive ==> v.value is None,
        !r.is_sensitive ==> opt_view(v.value) == Some(r.value@),
        v.scope@ == r.scope@,
        v.is_sensitive == r.is_sensitive,
        v.created_at@ == r.created_at@,
        v.updated_at@ == r.updated_at@,
{
    let value = if r.is_sensitive {
        None
    } else {
        Some(owned(r.value.as_str()))
    };
    VariableResponse {
        id: owned(r.id.as_str()),
        project_id: owned(r.project_id.as_str()),
        pipeline_id: clone_opt(&r.pipeline_id),
        environment_id: clone_opt(&r.environment_id),
        name: owned(r.name.as_str()),
        value,
        scope: owned(r.scope.as_str()),
        is_sensitive: r.is_sensitive,
        created_at: owned(r.created_at.as_str()),
        updated_at: owned(r.updated_at.as_str()),
    }
}

/// A variable needs a name.
pub fn check_variable_name(name: &str) -> (r: Result<(), ApiError>)
    ensures
        r is Ok <==> name@.len() > 0,
        r matches Err(e) ==> e.is(ErrorKind::BadRequest, "name is required"@),
{
    if name.is_empty() {
        return Err(ApiError::bad_request("name is required"));
    }
    Ok(())
}

/// A pipeline named by a project-level request must belong to that project.
pub fn check_pipeline_in_project(pipeline_project_id: &str, project_id: &str, message: &str) -> (r:
    Result<(), ApiError>)
    ensures
        r is Ok <==> pipeline_project_id@ == project_id@,
        r matches Err(e) ==> e.is(ErrorKind::BadRequest, message@),
{
    if !str_eq(pipeline_project_id, project_id) {
        return Err(ApiError::bad_request(message));
    }
    Ok(())
}

/// Variables are changed only within the caller's organization.
pub fn check_variable_org(variable_org_id: &str, user_org_id: &str) -> (r: Result<(), ApiError>)
    ensures
        r is Ok <==> variable_org_id@ == user_org_id@,
        r matches Err(e) ==> e.is(
            ErrorKind::Forbidden,
            "cannot modify variables in other organizations"@,
        ),
{
    if !str_eq(variable_org_id, user_org_id) {
        return Err(ApiError::forbidden("cannot modify variables in other organizations"));
    }
    Ok(())
}

/// Name, value and sensitivity after an update: each requested field replaces the stored
/// one, the others stay.
pub fn apply_variable_update(
    existing: &VariableRow,
    name: &Option<String>,
    value: &Option<String>,
    is_sensitive: Option<bool>,
) -> (r: (String, String, bool))
    ensures
        r.0@ == match opt_view(*name) {
            Some(n) => n,
            None => existing.name@,
        },
        r.1@ == match opt_view(*value) {
            Some(v) => v,
            None => existing.value@,
        },
        r.2 == match is_sensitive {
            Some(b) => b,
            None => existing.is_sensitive,
        },
{
    let n = match name {
        Some(n) => owned(n.as_str()),
        None => owned(existing.name.as_str()),
    };
    let v = match value {
        Some(v) => owned(v.as_str()),
        None => owned(existing.value.as_str()),
    };
    let s = match is_sensitive {
        Some(b) => b,
        None => existing.is_sensitive,
    };
    (n, v, s)
}

} // verus!
