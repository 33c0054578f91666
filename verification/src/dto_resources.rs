//! Request and response bodies of the run, log, secret, variable, health, integration, security,
//! workflow and settings routes.
use vstd::prelude::*;

verus! {

pub struct DashboardWindowQuery {
    /// Time window for completed/failed counts and average duration: `1h`, `4h`, `12h`, `1d`, `3d`, `7d`.
    pub window: String,
}

pub struct DashboardStatsResponse {
    pub active_runs: i64,
    pub completed_runs: i64,
    pub failed_runs: i64,
    pub avg_duration_ms: i64,
    pub agents_online: i64,
    pub agents_total: i64,
    pub pipelines_count: i64,
    pub projects_count: i64,
    /// Echo of the requested window key (e.g. `1d`).
    pub window: String,
}

pub struct RecentRunsQuery {
    pub limit: i64,
    pub window: String,
}

pub struct CreateDebugSessionRequest {
    pub project_id: Option<String>,
    pub pipeline_id: Option<String>,
    pub ttl_minutes: i64,
}

pub struct DebugSecretResponse {
    pub name: String,
    pub value: String,
    pub consumed: bool,
}

pub struct HealthResponse {
    /// Service status.
    pub status: &'static str,
    /// Service version.
    pub version: &'static str,
}

pub struct ReadyResponse {
    /// Overall readiness status.
    pub status: &'static str,
    /// Service version.
    pub version: &'static str,
    /// Individual component checks.
    pub checks: ReadyChecks,
}

pub struct ReadyChecks {
    /// Database connectivity status.
    pub database: CheckStatus,
}

pub struct CheckStatus {
    /// Whether the check passed.
    pub healthy: bool,
    /// Optional message (usually for errors).
    pub message: Option<String>,
}

pub struct IntegrationJobQueueInfo {
    pub jetstream_stream: &'static str,
    pub dispatch_subject_prefix: &'static str,
}

pub struct IntegrationPublicContextResponse {
    pub jwt_audience: String,
    pub job_queue: IntegrationJobQueueInfo,
}

pub struct CleanupAgentByKubernetesPodRequest {
    pub kubernetes_pod_uid: String,
}

pub struct WorkflowDiagnosticsQuery {
    pub commit_sha: Option<String>,
    pub branch: Option<String>,
}

pub struct ImportPipelineGitRequest {
    pub name: String,
    pub slug: String,
    pub description: Option<String>,
    /// GitHub repository as `owner/name` or `https://github.com/owner/repo`.
    pub repository: String,
    /// Branch, tag, or commit SHA.
    pub git_ref: String,
    /// Path to the pipeline YAML in the repo (e.g. `.stable/demo.yaml`).
    pub scm_path: String,
    /// `builtin_secrets.path` for a project-scoped `github_app` secret.
    pub credentials_path: String,
}

pub struct SyncPipelineGitRequest {
    /// When set, sync from this ref instead of the pipeline's stored `scm_ref`.
    pub git_ref: Option<String>,
}

pub struct TriggerPipelineRequest {
    pub branch: Option<String>,
    pub commit_sha: Option<String>,
    pub variables: Option<std::collections::HashMap<String, String>>,
}

pub struct ValidatePipelineResponse {
    pub valid: bool,
    pub errors: Vec<String>,
    pub warnings: Vec<String>,
}

pub struct LogsQuery {
    pub offset: Option<u64>,
    pub limit: Option<u64>,
    pub stream: Option<String>,
}

pub struct JobLogLine {
    pub run_id: String,
    pub job_run_id: String,
    pub step_run_id: Option<String>,
    pub line: String,
    pub level: String,
    pub timestamp: String,
}

pub struct LogsResponse {
    pub content: String,
    pub lines: Vec<JobLogLine>,
    pub offset: u64,
    pub has_more: bool,
}

pub struct CreateSecretRequest {
    pub name: String,
    pub description: Option<String>,
    pub scope: String,
    pub provider: String,
    pub provider_key: String,
}

pub struct UpdateSecretRequest {
    pub name: Option<String>,
    pub description: Option<String>,
    pub provider: Option<String>,
    pub provider_key: Option<String>,
}

pub struct BlastRadiusQuery {
    pub q: String,
}

pub struct BlastRadiusHit {
    pub kind: &'static str,
    pub id: String,
    pub project_id: Option<String>,
    pub detail: Option<String>,
}

pub struct BlastRadiusResponse {
    pub query: String,
    pub hits: Vec<BlastRadiusHit>,
}

pub struct RotateStoredSecretRequest {
    pub value: String,
}

pub struct UpdateVariableRequest {
    pub name: Option<String>,
    pub value: Option<String>,
    pub is_sensitive: Option<bool>,
}

pub struct LogStreamQuery {
    pub follow: Option<bool>,
    pub from_line: Option<u64>,
}

pub enum WsClientMessage {
    Auth { token: String },
    Close,
    Ping,
}

pub struct OrgSyncSettingsResponse {
    /// Global default sync interval in minutes. `null` = disabled globally.
    pub default_sync_interval_minutes: Option<i32>,
}

pub struct PutOrgSyncSettingsRequest {
    /// Set to `null` or `0` to disable org-wide auto-sync.
    pub default_sync_interval_minutes: Option<i32>,
}

pub struct PutWorkflowSyncScheduleRequest {
    pub enabled: bool,
    /// Sync interval in minutes. `0` = disabled.
    pub interval_minutes: i32,
}

pub struct WorkflowVersionsResponse {
    pub workflow_name: String,
    pub versions: Vec<String>,
}

pub struct CatalogListQuery {
    pub status: Option<String>,
}

pub struct ImportCatalogWorkflowGitRequest {
    /// GitHub repository as `owner/name` or URL.
    pub repository: String,
    pub git_ref: String,
    /// Path to workflow YAML in the repo.
    pub workflow_path: String,
    pub credentials_path: String,
}

pub struct CatalogVersionsQuery {
    pub q: Option<String>,
}

pub struct ObjectStoragePublicConfig {
    pub endpoint: String,
    pub bucket: String,
    pub path_style: bool,
}

/// Lifetime of a debug session in minutes, when the request gives none.
pub fn default_ttl_minutes() -> (r: i64)
    ensures
        r == 15,
{
    15
}

/// Tier of a new environment, when the request gives none.
pub fn default_tier() -> (r: String)
    ensures
        r@ == "development"@,
{
    "development".to_owned()
}

/// Scope of a new secret or variable, when the request gives none.
pub fn default_scope() -> (r: String)
    ensures
        r@ == "project"@,
{
    "project".to_owned()
}

/// New webhook targets are enabled unless the request says otherwise.
pub fn default_target_enabled() -> (r: bool)
    ensures
        r,
{
    true
}

} // verus!
