//! Request and response bodies of the account, login, organisation, project, app and token routes.
use vstd::prelude::*;

verus! {

pub struct PublicAuthProvider {
    pub id: String,
    pub name: String,
    pub provider_type: String,
}

pub struct AuthProvidersResponse {
    /// Whether password authentication is enabled.
    pub password_enabled: bool,
    /// When true, the login UI may show that default bootstrap credentials apply (until changed).
    pub show_bootstrap_credentials_hint: bool,
    /// List of enabled SSO providers.
    pub providers: Vec<PublicAuthProvider>,
}

pub struct LoginRequest {
    /// Username or email.
    pub username: String,
    /// Password.
    pub password: String,
}

pub struct LoginResponse {
    /// JWT access token.
    pub token: String,
    /// Token type (always "Bearer").
    pub token_type: String,
    /// Token expiration in seconds.
    pub expires_in: u64,
    /// User information.
    pub user: UserResponse,
    /// When true, the client must complete a password change before using the rest of the API.
    pub password_must_change: bool,
}

pub struct UserResponse {
    pub id: String,
    pub username: String,
    pub email: String,
    pub display_name: Option<String>,
    pub is_admin: bool,
    pub service_account: bool,
    pub password_must_change: bool,
}

pub struct MeGroup {
    pub id: String,
    pub name: String,
    pub role: String,
}

pub struct MeResponse {
    pub id: String,
    pub email: String,
    pub name: String,
    pub org_id: String,
    pub role: String,
    pub created_at: String,
    pub password_must_change: bool,
    pub groups: Vec<MeGroup>,
}

pub struct LogoutResponse {
    pub message: String,
}

pub struct SetupStatusResponse {
    /// Whether initial setup is required.
    pub setup_required: bool,
}

pub struct SetupRequest {
    /// Admin username.
    pub username: String,
    /// Admin email.
    pub email: String,
    /// Admin password.
    pub password: String,
    /// Organization name.
    pub org_name: String,
}

pub struct SetupResponse {
    pub message: String,
    pub token: String,
    pub token_type: String,
    pub expires_in: u64,
    pub user: UserResponse,
}

pub struct ChangePasswordRequest {
    /// Current password for verification.
    pub current_password: String,
    /// New password.
    pub new_password: String,
}

pub struct ChangePasswordResponse {
    pub message: String,
}

pub struct AdminResetPasswordRequest {
    /// New password for the user.
    pub new_password: String,
}

pub struct AdminResetPasswordResponse {
    pub message: String,
}

pub struct MeticulousAppSummary {
    pub id: String,
    pub application_id: String,
    pub name: String,
    pub description: Option<String>,
    pub enabled: bool,
    pub created_at: String,
}

pub struct PatchMeticulousAppRequest {
    pub enabled: Option<bool>,
}

pub struct CreateMeticulousAppRequest {
    pub name: String,
    pub description: Option<String>,
}

pub struct CreateMeticulousAppResponse {
    pub app: MeticulousAppSummary,
    pub key_id: String,
    /// PKCS#8 PEM private key — shown only at creation / rotation.
    pub private_key_pem: String,
}

pub struct AppKeySummary {
    pub key_id: String,
    pub created_at: String,
}

pub struct InstallationSummary {
    pub id: String,
    pub project_id: String,
    pub permissions: Vec<String>,
    pub created_at: String,
    pub revoked_at: Option<String>,
}

pub struct LoginQuery {
    /// Where to redirect after successful login.
    pub redirect_uri: String,
}

pub struct OAuthLoginResponse {
    pub redirect_url: String,
}

pub struct CallbackQuery {
    pub code: String,
    pub state: String,
}

pub struct OAuthCallbackResponse {
    pub token: String,
    pub token_type: String,
    pub expires_in: u64,
    pub user: OAuthUser,
}

pub struct OAuthUser {
    pub id: String,
    pub email: String,
    pub name: Option<String>,
}

pub struct CreateOrgRequest {
    pub name: String,
    pub slug: String,
}

pub struct UpdateOrgRequest {
    pub name: Option<String>,
}

pub struct UpdateProjectRequest {
    pub name: Option<String>,
    pub slug: Option<String>,
    pub description: Option<String>,
}

pub struct InstallMeticulousAppRequest {
    /// Public application id string.
    pub application_id: String,
    pub permissions: Vec<String>,
}

pub struct InstallMeticulousAppResponse {
    pub installation_id: String,
    pub application_id: String,
    pub project_id: String,
    pub permissions: Vec<String>,
}

pub struct MeticulousAppCatalogEntry {
    pub application_id: String,
    pub name: String,
    pub description: Option<String>,
}

pub struct TokenResponse {
    pub id: String,
    pub name: String,
    pub description: Option<String>,
    pub prefix: String,
    pub scopes: Vec<String>,
    pub project_ids: Option<Vec<String>>,
    pub pipeline_ids: Option<Vec<String>>,
    pub expires_at: Option<String>,
    pub last_used_at: Option<String>,
    pub deactivated_at: Option<String>,
    pub revoked_at: Option<String>,
    pub created_at: String,
}

pub struct CreateTokenResponseBody {
    /// The created token metadata.
    pub token: TokenResponse,
    /// The plain token value (only shown once).
    pub plain_token: String,
}

/// Organisation name of the initial setup, when the request gives none.
pub fn default_org_name() -> (r: String)
    ensures
        r@ == "Default"@,
{
    "Default".to_owned()
}

/// Where an OAuth login returns to, when the request gives no target.
pub fn default_redirect() -> (r: String)
    ensures
        r@ == "/"@,
{
    "/".to_owned()
}

} // verus!
