//! Platform health: how the object storage endpoint is shown, what the report says of
//! services that are not connected, and the readiness probe.
use vstd::prelude::*;
use crate::dto_admin::{
    JetStreamStreamRow, NatsJetStreamHealthSection, ObjectStorageDeepScanSection,
    ObjectStorageHealthSection, OrgArtifactsSection, PlatformHealthResponse, PostgresHealthSection,
};
use crate::dto_resources::{CheckStatus, HealthResponse, ReadyChecks, ReadyResponse};
use crate::error::{ApiError, ErrorKind};
use crate::text::{concat2, owned};
use crate::webhook_payloads::opt_view;

verus! {

/// Host of a URL as `url::Url::parse` then `host_str` of url 2.5 give it (`None` when the
/// text does not parse or the URL has no host).
pub uninterp spec fn url_host(url: Seq<char>) -> Option<Seq<char>>;

/// Parses `endpoint` with `url::Url::parse` and returns its `host_str`; the result is named
/// [`url_host`].
#[verifier::external_body]
fn parse_url_host(endpoint: &str) -> (r: Option<String>)
    ensures
        match r {
            Some(h) => url_host(endpoint@) == Some(h@),
            None => url_host(endpoint@) is None,
        },
{
    url::Url::parse(endpoint).ok().and_then(|u| u.host_str().map(|h| h.to_string()))
}

/// How the configured endpoint is shown: `default (AWS)` when none is set, else its host,
/// else the endpoint as configured.
pub open spec fn endpoint_display_spec(endpoint: Seq<char>) -> Seq<char> {
    if endpoint.len() == 0 {
        "default (AWS)"@
    } else {
        match url_host(endpoint) {
            Some(h) => h,
            None => endpoint,
        }
    }
}

pub fn endpoint_display(endpoint: &str) -> (r: String)
    ensures
        r@ == endpoint_display_spec(endpoint@),
{
    if endpoint.is_empty() {
        return owned("default (AWS)");
    }
    match parse_url_host(endpoint) {
        Some(h) => h,
        None => owned(endpoint),
    }
}

/// Object-store prefix whose usage the deep scan estimates: `orgs/{org}/`.
pub fn org_object_prefix(org_id: &str) -> (r: String)
    ensures
        r@ == "orgs/"@ + org_id@ + "/"@,
{
    crate::text::concat3("orgs/", org_id, "/")
}

/// What a capped object listing of a prefix estimated.
pub struct PrefixUsageEstimate {
    pub bytes_summed: u64,
    pub objects_scanned: u64,
    pub list_pages: u32,
    pub truncated: bool,
}

/// The reason given when the object store client was not set up.
pub open spec fn no_object_store() -> Seq<char> {
    "object store client not initialized"@
}

/// The reachability fields for a bucket check (`None`: no client).
pub open spec fn reachability_ok(r: (bool, Option<String>), check: Option<Result<(), String>>) -> bool {
    match check {
        None => !r.0 && opt_view(r.1) == Some(no_object_store()),
        Some(Ok(())) => r.0 && r.1 is None,
        Some(Err(e)) => !r.0 && opt_view(r.1) == Some(e@),
    }
}

/// Whether the object store answered a bucket check: `None` when no client was set up,
/// else the check's outcome (its error text on failure).
pub fn object_store_reachability(check: Option<Result<(), String>>) -> (r: (bool, Option<String>))
    ensures
        reachability_ok(r, check),
{
    match check {
        None => (false, Some(owned("object store client not initialized"))),
        Some(Ok(())) => (true, None),
        Some(Err(e)) => (false, Some(e)),
    }
}

/// The deep-scan section of the report for `prefix`: the estimate, or zeros with the error
/// The deep-scan section for `prefix` and the scan's outcome (`None`: no client).
pub open spec fn deep_scan_ok(
    r: ObjectStorageDeepScanSection,
    prefix: Seq<char>,
    scan: Option<Result<PrefixUsageEstimate, String>>,
) -> bool {
    &&& r.prefix@ == prefix
    &&& match scan {
        Some(Ok(est)) => r.bytes_summed == est.bytes_summed && r.objects_scanned
            == est.objects_scanned && r.list_pages == est.list_pages && r.truncated
            == est.truncated && r.error is None,
        Some(Err(e)) => r.bytes_summed == 0 && r.objects_scanned == 0 && r.list_pages == 0
            && !r.truncated && opt_view(r.error) == Some(e@),
        None => r.bytes_summed == 0 && r.objects_scanned == 0 && r.list_pages == 0
            && !r.truncated && opt_view(r.error) == Some(no_object_store()),
    }
}

/// (the listing's error text, or the missing client).
pub fn deep_scan_section(prefix: String, scan: Option<Result<PrefixUsageEstimate, String>>) -> (r:
    ObjectStorageDeepScanSection)
    ensures
        deep_scan_ok(r, prefix@, scan),
{
    match scan {
        Some(Ok(est)) => ObjectStorageDeepScanSection {
            prefix,
            bytes_summed: est.bytes_summed,
            objects_scanned: est.objects_scanned,
            list_pages: est.list_pages,
            truncated: est.truncated,
            error: None,
        },
        Some(Err(e)) => ObjectStorageDeepScanSection {
            prefix,
            bytes_summed: 0,
            objects_scanned: 0,
            list_pages: 0,
            truncated: false,
            error: Some(e),
        },
        None => ObjectStorageDeepScanSection {
            prefix,
            bytes_summed: 0,
            objects_scanned: 0,
            list_pages: 0,
            truncated: false,
            error: Some(owned("object store client not initialized")),
        },
    }
}

/// The platform health report from what was gathered: the API version, whether the engine
/// started (and its start-up error), the Postgres and artifact totals, the object storage
/// section (the endpoint as shown, the bucket, path style, whether a client exists, the
/// bucket check, and the deep scan of `orgs/{org}/` exactly when it was asked for), and
/// the NATS section. `bucket_check` is `None` when no object store client exists; `scan`
/// is what the capped listing returned and is read only when a deep scan was asked for
/// and a client exists.
pub fn platform_health_report(
    api_version: &str,
    engine_initialized: bool,
    engine_init_error: Option<String>,
    postgres: PostgresHealthSection,
    org_artifacts: OrgArtifactsSection,
    endpoint: &str,
    bucket: String,
    path_style: bool,
    org_id: &str,
    deep_object_store: bool,
    bucket_check: Option<Result<(), String>>,
    scan: Result<PrefixUsageEstimate, String>,
    nats: Option<Vec<JetStreamStreamRow>>,
) -> (r: PlatformHealthResponse)
    ensures
        r.api_version@ == api_version@,
        r.engine_initialized == engine_initialized,
        r.engine_init_error == engine_init_error,
        r.postgres == postgres,
        r.org_artifacts == org_artifacts,
        r.object_storage.endpoint_display@ == endpoint_display_spec(endpoint@),
        r.object_storage.bucket == bucket,
        r.object_storage.path_style == path_style,
        r.object_storage.client_initialized == bucket_check is Some,
        reachability_ok((r.object_storage.reachable, r.object_storage.reachability_error), bucket_check),
        r.object_storage.deep_scan is Some == deep_object_store,
        r.object_storage.deep_scan matches Some(d) ==> deep_scan_ok(
            d,
            "orgs/"@ + org_id@ + "/"@,
            if bucket_check is Some { Some(scan) } else { None },
        ),
        nats_ok(r.nats_jetstream, nats),
{
    let client = bucket_check.is_some();
    let (reachable, reachability_error) = object_store_reachability(bucket_check);
    let deep_scan = if deep_object_store {
        let prefix = org_object_prefix(org_id);
        let s = if client { Some(scan) } else { None };
        Some(deep_scan_section(prefix, s))
    } else {
        None
    };
    PlatformHealthResponse {
        api_version: owned(api_version),
        engine_initialized,
        engine_init_error,
        postgres,
        org_artifacts,
        object_storage: ObjectStorageHealthSection {
            endpoint_display: endpoint_display(endpoint),
            bucket,
            path_style,
            client_initialized: client,
            reachable,
            reachability_error,
            deep_scan,
        },
        nats_jetstream: nats_section(nats),
    }
}

/// The NATS section for the stream summaries (`None`: not connected).
pub open spec fn nats_ok(r: NatsJetStreamHealthSection, streams: Option<Vec<JetStreamStreamRow>>) -> bool {
    match streams {
        Some(v) => r.available && r.unavailable_reason is None && r.streams == v,
        None => !r.available && opt_view(r.unavailable_reason) == Some("NATS is not connected"@)
            && r.streams@.len() == 0,
    }
}

/// The NATS section of the report: the stream summaries when connected (`Some`), else
/// unavailable with the reason `NATS is not connected` and no streams.
pub fn nats_section(streams: Option<Vec<JetStreamStreamRow>>) -> (r: NatsJetStreamHealthSection)
    ensures
        nats_ok(r, streams),
{
    match streams {
        Some(v) => NatsJetStreamHealthSection { available: true, unavailable_reason: None, streams: v },
        None => NatsJetStreamHealthSection {
            available: false,
            unavailable_reason: Some(owned("NATS is not connected")),
            streams: Vec::new(),
        },
    }
}

/// The database check of the readiness probe: healthy when the probe query ran, else
/// unhealthy with `database error: <error>`.
pub fn database_check(outcome: Result<(), String>) -> (c: CheckStatus)
    ensures
        match outcome {
            Ok(()) => c.healthy && c.message is None,
            Err(e) => !c.healthy && opt_view(c.message) == Some("database error: "@ + e@),
        },
{
    match outcome {
        Ok(()) => CheckStatus { healthy: true, message: None },
        Err(e) => CheckStatus {
            healthy: false,
            message: Some(concat2("database error: ", e.as_str())),
        },
    }
}

/// The readiness probe's answer: `ready` when every check passed, else the service is
/// reported unavailable.
pub fn readiness(version: &'static str, database: CheckStatus) -> (r: Result<ReadyResponse, ApiError>)
    ensures
        database.healthy ==> (r matches Ok(x) && x.status@ == "ready"@ && x.version == version
            && x.checks.database == database),
        !database.healthy ==> (r matches Err(e) && e.is(ErrorKind::Unavailable, "service not ready"@)),
{
    if database.healthy {
        Ok(ReadyResponse { status: "ready", version, checks: ReadyChecks { database } })
    } else {
        Err(ApiError::unavailable("service not ready"))
    }
}

/// The liveness probe's answer: the service runs.
pub fn liveness(version: &'static str) -> (r: HealthResponse)
    ensures
        r.status@ == "ok"@,
        r.version == version,
{
    HealthResponse { status: "ok", version }
}

} // verus!
