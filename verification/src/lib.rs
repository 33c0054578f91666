//! Request-handling logic of the Meticulous CI API server: webhook authentication and
//! dispatch decisions, workflow reference diagnostics, run footprints and DAGs, access and
//! organization guards, pagination cursors, blast-radius search results, and the checks and
//! normalisation of the request bodies the routes accept.
use vstd::prelude::*;

pub mod text;
pub mod keyed;
pub mod ordering;
pub mod error;
pub mod crypto;
pub mod webhook_payloads;
pub mod webhooks;
pub mod webhook_config;
pub mod access;
pub mod members;
pub mod listing;
pub mod oidc;
pub mod checks;
pub mod artifacts;
pub mod policy;
pub mod diagnostics;
pub mod scheduling;
pub mod footprint;
pub mod footprint_groups;
pub mod dto_admin;
pub mod dto_accounts;
pub mod dto_resources;
pub mod security;
pub mod oauth;
pub mod run_vars;
pub mod trigger_sync;
pub mod join_tokens;
pub mod api_tokens;
pub mod stored_secrets;
pub mod platform;
pub mod dag;
pub mod pipeline_matrix;
pub mod log_stream;
pub mod workspace_cursor;
pub mod sign_in;
pub mod variables;
pub mod projects;
pub mod debug_sessions;
pub mod catalog;
pub mod runs;
pub mod admin_users;
pub mod agents;
pub mod orgs;
pub mod scm_source;
pub mod workflow_sync;
pub mod retention;
pub mod laws;

verus! {

} // verus!
