//! Where Git-backed pipelines and catalog workflows are read from: which stored fields a
//! checkout needs, and which ref it reads.
use vstd::prelude::*;
use crate::error::{ApiError, ErrorKind};
use crate::text::{owned, str_eq};
use crate::webhook_payloads::opt_view;

verus! {

/// The Git link stored with a pipeline.
pub struct PipelineScmLink {
    pub provider: Option<String>,
    pub repository: Option<String>,
    pub credentials_secret_path: Option<String>,
    pub path: Option<String>,
    pub git_ref: Option<String>,
}

/// What a checkout of a pipeline definition reads.
pub struct GitCheckout {
    pub repository: String,
    pub credentials_path: String,
    pub path: String,
    pub git_ref: String,
}

/// The refusal for a pipeline whose link cannot be synced, in the order the fields are
/// checked.
pub open spec fn sync_refusal(l: PipelineScmLink) -> Option<Seq<char>> {
    if opt_view(l.provider) != Some("github"@) {
        Some("pipeline is not linked to GitHub (scm_provider is not github)"@)
    } else if l.repository is None {
        Some("pipeline is missing scm_repository"@)
    } else if l.credentials_secret_path is None {
        Some("pipeline is missing scm_credentials_secret_path"@)
    } else if l.path is None {
        Some("pipeline is missing scm_path"@)
    } else if l.git_ref is None {
        Some("pipeline is missing scm_ref"@)
    } else {
        None
    }
}

/// The checkout a sync from Git reads: a GitHub link with every field stored; the ref is
/// the requested one, else the stored one (which must be stored either way).
pub fn pipeline_sync_checkout(link: &PipelineScmLink, requested_ref: &Option<String>) -> (r: Result<
    GitCheckout,
    ApiError,
>)
    ensures
        match sync_refusal(*link) {
            Some(m) => r matches Err(e) && e.is(ErrorKind::BadRequest, m),
            None => r matches Ok(c) && opt_view(link.repository) == Some(c.repository@) && opt_view(
                link.credentials_secret_path,
            ) == Some(c.credentials_path@) && opt_view(link.path) == Some(c.path@) && Some(
                c.git_ref@,
            ) == match opt_view(*requested_ref) {
                Some(g) => Some(g),
                None => opt_view(link.git_ref),
            },
        },
{
    let is_github = match &link.provider {
        Some(p) => str_eq(p.as_str(), "github"),
        None => false,
    };
    if !is_github {
        return Err(ApiError::bad_request("pipeline is not linked to GitHub (scm_provider is not github)"));
    }
    let repository = match &link.repository {
        Some(x) => owned(x.as_str()),
        None => {
            return Err(ApiError::bad_request("pipeline is missing scm_repository"));
        },
    };
    let credentials_path = match &link.credentials_secret_path {
        Some(x) => owned(x.as_str()),
        None => {
            return Err(ApiError::bad_request("pipeline is missing scm_credentials_secret_path"));
        },
    };
    let path = match &link.path {
        Some(x) => owned(x.as_str()),
        None => {
            return Err(ApiError::bad_request("pipeline is missing scm_path"));
        },
    };
    let default_ref = match &link.git_ref {
        Some(x) => owned(x.as_str()),
        None => {
            return Err(ApiError::bad_request("pipeline is missing scm_ref"));
        },
    };
    let git_ref = match requested_ref {
        Some(g) => owned(g.as_str()),
        None => default_ref,
    };
    Ok(GitCheckout { repository, credentials_path, path, git_ref })
}

/// Where the definition a diagnosis reads comes from.
pub enum DiagnosisSource {
    /// A checkout of the GitHub link.
    GitHub(GitCheckout),
    /// The definition stored with the pipeline.
    Stored,
}

/// Ref a diagnosis reads: the run's commit, else its branch, else the stored ref, else
/// `main`.
pub open spec fn diagnosis_ref(
    commit: Option<Seq<char>>,
    branch: Option<Seq<char>>,
    stored: Option<Seq<char>>,
) -> Seq<char> {
    match commit {
        Some(c) => c,
        None => match branch {
            Some(b) => b,
            None => match stored {
                Some(s) => s,
                None => "main"@,
            },
        },
    }
}

/// The source a diagnosis reads: for a GitHub-linked pipeline, a checkout at
/// [`diagnosis_ref`] (repository, credentials path and path must be stored); for any other
/// pipeline its stored definition.
pub fn diagnosis_source(
    link: &PipelineScmLink,
    commit_sha: &Option<String>,
    branch: &Option<String>,
) -> (r: Result<DiagnosisSource, ApiError>)
    ensures
        opt_view(link.provider) != Some("github"@) ==> r matches Ok(DiagnosisSource::Stored),
        opt_view(link.provider) == Some("github"@) ==> (if link.repository is None {
            r matches Err(e) && e.is(
                ErrorKind::BadRequest,
                "Git-backed pipeline missing scm_repository"@,
            )
        } else if link.credentials_secret_path is None {
            r matches Err(e) && e.is(
                ErrorKind::BadRequest,
                "Git-backed pipeline missing scm_credentials_secret_path"@,
            )
        } else if link.path is None {
            r matches Err(e) && e.is(ErrorKind::BadRequest, "Git-backed pipeline missing scm_path"@)
        } else {
            r matches Ok(DiagnosisSource::GitHub(c)) && opt_view(link.repository) == Some(
                c.repository@,
            ) && opt_view(link.credentials_secret_path) == Some(c.credentials_path@) && opt_view(
                link.path,
            ) == Some(c.path@) && c.git_ref@ == diagnosis_ref(
                opt_view(*commit_sha),
                opt_view(*branch),
                opt_view(link.git_ref),
            )
        }),
{
    let is_github = match &link.provider {
        Some(p) => str_eq(p.as_str(), "github"),
        None => false,
    };
    if !is_github {
        return Ok(DiagnosisSource::Stored);
    }
    let git_ref = match commit_sha {
        Some(c) => owned(c.as_str()),
        None => match branch {
            Some(b) => owned(b.as_str()),
            None => match &link.git_ref {
                Some(s) => owned(s.as_str()),
                None => owned("main"),
            },
        },
    };
    let repository = match &link.repository {
        Some(x) => owned(x.as_str()),
        None => {
            return Err(ApiError::bad_request("Git-backed pipeline missing scm_repository"));
        },
    };
    let credentials_path = match &link.credentials_secret_path {
        Some(x) => owned(x.as_str()),
        None => {
            return Err(ApiError::bad_request("Git-backed pipeline missing scm_credentials_secret_path"));
        },
    };
    let path = match &link.path {
        Some(x) => owned(x.as_str()),
        None => {
            return Err(ApiError::bad_request("Git-backed pipeline missing scm_path"));
        },
    };
    Ok(DiagnosisSource::GitHub(GitCheckout { repository, credentials_path, path, git_ref }))
}

/// The Git source stored with a catalog workflow.
pub struct WorkflowScmLink {
    pub repository: Option<String>,
    pub git_ref: Option<String>,
    pub path: Option<String>,
    /// The `catalog_scm_credentials_path` string of its catalog metadata, if any.
    pub credentials_path: Option<String>,
}

/// The checkout a re-import of a catalog workflow reads: every field must be stored.
pub fn workflow_reimport_checkout(link: &WorkflowScmLink) -> (r: Result<GitCheckout, ApiError>)
    ensures
        link.repository is None ==> (r matches Err(e) && e.is(
            ErrorKind::BadRequest,
            "workflow has no SCM repository"@,
        )),
        (link.repository is Some && link.git_ref is None) ==> (r matches Err(e) && e.is(
            ErrorKind::BadRequest,
            "workflow has no SCM ref"@,
        )),
        (link.repository is Some && link.git_ref is Some && link.path is None) ==> (r matches Err(e)
            && e.is(ErrorKind::BadRequest, "workflow has no SCM path"@)),
        (link.repository is Some && link.git_ref is Some && link.path is Some
            && link.credentials_path is None) ==> (r matches Err(e) && e.is(
            ErrorKind::BadRequest,
            "workflow has no stored credentials path for re-import"@,
        )),
        (link.repository is Some && link.git_ref is Some && link.path is Some
            && link.credentials_path is Some) ==> (r matches Ok(c) && opt_view(link.repository)
            == Some(c.repository@) && opt_view(link.git_ref) == Some(c.git_ref@) && opt_view(
            link.path,
        ) == Some(c.path@) && opt_view(link.credentials_path) == Some(c.credentials_path@)),
{
    let repository = match &link.repository {
        Some(x) => owned(x.as_str()),
        None => {
            return Err(ApiError::bad_request("workflow has no SCM repository"));
        },
    };
    let git_ref = match &link.git_ref {
        Some(x) => owned(x.as_str()),
        None => {
            return Err(ApiError::bad_request("workflow has no SCM ref"));
        },
    };
    let path = match &link.path {
        Some(x) => owned(x.as_str()),
        None => {
            return Err(ApiError::bad_request("workflow has no SCM path"));
        },
    };
    let credentials_path = match &link.credentials_path {
        Some(x) => owned(x.as_str()),
        None => {
            return Err(ApiError::bad_request("workflow has no stored credentials path for re-import"));
        },
    };
    Ok(GitCheckout { repository, credentials_path, path, git_ref })
}

} // verus!
