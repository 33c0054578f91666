//! Request and response bodies of the admin, platform health and workflow moderation routes.
use vstd::prelude::*;
use crate::dto_accounts::TokenResponse;

verus! {

pub struct JobsDlqQuery {
    pub limit: Option<u32>,
}

pub struct JobQueueQuery {
    pub limit: Option<u32>,
}

pub struct JobQueueEntryResponse {
    pub job_run_id: Option<String>,
    pub run_id: String,
    pub job_id: Option<String>,
    pub job_name: String,
    pub job_status: String,
    pub attempt: i32,
    pub job_run_created_at: String,
    pub run_number: i64,
    pub run_status: String,
    pub pipeline_id: String,
    pub pipeline_name: String,
    pub project_id: String,
    pub project_slug: String,
}

pub struct JobQueueListResponse {
    pub count: usize,
    pub data: Vec<JobQueueEntryResponse>,
}

pub struct UserResponse {
    pub id: String,
    pub username: String,
    pub email: String,
    pub display_name: Option<String>,
    pub is_active: bool,
    pub is_admin: bool,
    pub service_account: bool,
    pub password_must_change: bool,
    pub last_login_at: Option<String>,
    pub created_at: String,
    pub updated_at: String,
}

pub struct AdminCreateServiceAccountRequest {
    pub username: String,
    pub email: String,
    pub display_name: Option<String>,
    pub is_admin: bool,
}

pub struct OrgPolicyApiResponse {
    pub max_api_token_ttl_days: i32,
    pub user_rl_primary_period_secs: i32,
    pub user_rl_primary_max: i32,
    pub user_rl_secondary_period_secs: i32,
    pub user_rl_secondary_max: i32,
    pub app_rl_primary_period_secs: i32,
    pub app_rl_primary_max: i32,
    pub app_rl_secondary_period_secs: i32,
    pub app_rl_secondary_max: i32,
}

pub struct PatchOrgPolicyRequest {
    pub max_api_token_ttl_days: Option<i32>,
    pub user_rl_primary_period_secs: Option<i32>,
    pub user_rl_primary_max: Option<i32>,
    pub user_rl_secondary_period_secs: Option<i32>,
    pub user_rl_secondary_max: Option<i32>,
    pub app_rl_primary_period_secs: Option<i32>,
    pub app_rl_primary_max: Option<i32>,
    pub app_rl_secondary_period_secs: Option<i32>,
    pub app_rl_secondary_max: Option<i32>,
}

pub struct AdminOrgTokenRow {
    pub token: TokenResponse,
    pub owner_user_id: String,
    pub owner_email: String,
}

pub struct UpdateUserRequest {
    pub display_name: Option<String>,
    pub is_admin: Option<bool>,
}

pub struct GroupResponse {
    pub id: String,
    pub name: String,
    pub description: Option<String>,
    pub member_count: i64,
    pub created_at: String,
    pub updated_at: String,
}

pub struct CreateGroupRequest {
    pub name: String,
    pub description: Option<String>,
}

pub struct UpdateGroupRequest {
    pub name: Option<String>,
    pub description: Option<String>,
}

pub struct RoleInfo {
    pub name: String,
    pub description: String,
    pub permissions: Vec<String>,
}

pub struct UserRoleResponse {
    pub role: String,
    pub granted_by: Option<String>,
    pub granted_at: String,
}

pub struct AssignRoleRequest {
    pub role: String,
}

pub struct ScheduleDeletionRequest {
    pub retention_days: i64,
}

pub struct AuthProviderResponse {
    pub id: String,
    pub name: String,
    pub provider_type: String,
    pub client_id: String,
    pub issuer_url: Option<String>,
    pub enabled: bool,
    pub created_at: String,
    pub updated_at: String,
}

pub struct CreateAuthProviderRequest {
    pub name: String,
    pub provider_type: String,
    pub client_id: String,
    pub client_secret: String,
    pub issuer_url: Option<String>,
}

pub struct UpdateAuthProviderRequest {
    pub name: Option<String>,
    pub client_id: Option<String>,
    pub client_secret: Option<String>,
    pub issuer_url: Option<String>,
}

pub struct GroupMappingResponse {
    pub id: String,
    pub provider_id: String,
    pub oidc_group_claim: String,
    pub meticulous_group_id: String,
    pub role: String,
    pub created_at: String,
}

pub struct JoinTokenResponse {
    pub id: String,
    pub prefix: String,
    pub description: String,
    pub scope: String,
    pub scope_id: Option<String>,
    pub max_uses: i32,
    pub current_uses: i32,
    pub labels: Vec<String>,
    pub pool_tags: Vec<String>,
    pub expires_at: Option<String>,
    pub revoked: bool,
    pub created_by: String,
    pub created_by_name: Option<String>,
    pub created_at: String,
    pub consumed_at: Option<String>,
    pub consumed_by_agent_id: Option<String>,
    /// Present on single-token GET; omitted or empty on list to keep payloads small.
    pub description_history: Vec<JoinTokenDescriptionHistoryEntry>,
    pub agents: Vec<JoinTokenAgentInfo>,
}

pub struct JoinTokenDescriptionHistoryEntry {
    pub description: String,
    pub changed_at: String,
    pub changed_by: Option<String>,
    pub changed_by_name: Option<String>,
}

pub struct JoinTokenAgentInfo {
    pub id: String,
    pub name: String,
    pub status: String,
    pub registered_at: String,
}

pub struct UpdateJoinTokenRequest {
    /// New description (required, non-empty when trimmed).
    pub description: String,
}

pub struct CreateJoinTokenResponse {
    pub token: JoinTokenResponse,
    pub plain_token: String,
}

pub struct JoinTokenListQuery {
    /// 1-based page index.
    pub page: u32,
    /// Page size: one of 20, 50, 100, 200 (other values are clamped to the nearest allowed size).
    pub limit: u32,
    /// Case-insensitive search on description or stored token hash (matches visible prefix / hash fragments).
    pub q: Option<String>,
}

pub struct JoinTokenListResponse {
    /// Join tokens for this page.
    pub data: Vec<JoinTokenResponse>,
    pub pagination: JoinTokenListPagination,
}

pub struct JoinTokenListPagination {
    pub page: u32,
    pub per_page: u32,
    pub total: u64,
    pub has_more: bool,
}

pub struct PlatformHealthQuery {
    /// Expensive: paginate object listings to estimate org-prefix usage (capped).
    pub deep_object_store: bool,
}

pub struct PlatformHealthResponse {
    pub api_version: String,
    pub engine_initialized: bool,
    pub engine_init_error: Option<String>,
    pub postgres: PostgresHealthSection,
    pub org_artifacts: OrgArtifactsSection,
    pub object_storage: ObjectStorageHealthSection,
    pub nats_jetstream: NatsJetStreamHealthSection,
}

pub struct PostgresHealthSection {
    pub database_bytes: i64,
    pub top_relations: Vec<RelationSizeResponse>,
}

pub struct RelationSizeResponse {
    pub schema: String,
    pub name: String,
    pub total_bytes: i64,
}

pub struct OrgArtifactsSection {
    pub total_bytes: i64,
    pub artifact_count: i64,
}

pub struct ObjectStorageHealthSection {
    pub endpoint_display: String,
    pub bucket: String,
    pub path_style: bool,
    pub client_initialized: bool,
    pub reachable: bool,
    pub reachability_error: Option<String>,
    pub deep_scan: Option<ObjectStorageDeepScanSection>,
}

pub struct ObjectStorageDeepScanSection {
    pub prefix: String,
    pub bytes_summed: u64,
    pub objects_scanned: u64,
    pub list_pages: u32,
    pub truncated: bool,
    pub error: Option<String>,
}

pub struct NatsJetStreamHealthSection {
    pub available: bool,
    pub unavailable_reason: Option<String>,
    pub streams: Vec<JetStreamStreamRow>,
}

pub struct JetStreamStreamRow {
    pub name: String,
    pub messages: u64,
    pub bytes: u64,
    pub error: Option<String>,
}

pub struct WorkflowModerationRequest {
    /// Markdown note explaining the decision.
    /// Required when the caller has `workflow:*` permission (SecurityEngineer)
    /// rather than `*` (SuperAdmin). May be multi-line.
    pub note: Option<String>,
}

pub struct AdminWorkflowDeleteResponse {
    pub ok: bool,
}

/// Days before a scheduled project deletion runs, when the request gives none.
pub fn default_retention_days() -> (r: i64)
    ensures
        r == 7,
{
    7
}

} // verus!
