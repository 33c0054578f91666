//! Result of a remote pipeline check: diagnostics and their severity counts.
use vstd::prelude::*;
use crate::text::{concat2, i64_to_string, owned, signed_decimal, str_eq, views};
use crate::webhook_payloads::opt_view;

verus! {

/// Position of a diagnostic in the checked YAML.
pub struct DiagLocation {
    pub line: Option<usize>,
    pub column: Option<usize>,
}

/// One finding of a pipeline check.
pub struct CheckDiagnostic {
    pub code: String,
    /// `error`, `warning` or `info`.
    pub severity: String,
    pub message: String,
    pub location: Option<DiagLocation>,
    pub suggestion: Option<String>,
    pub doc_url: Option<String>,
}

/// Severity counts of a check.
pub struct CheckSummary {
    pub errors: u32,
    pub warnings: u32,
    pub info: u32,
}

/// Answer to a pipeline check.
pub struct CheckResponse {
    pub valid: bool,
    pub diagnostics: Vec<CheckDiagnostic>,
    pub summary: CheckSummary,
}

/// Number of diagnostics with severity `sev`.
pub open spec fn count_severity(d: Seq<CheckDiagnostic>, sev: Seq<char>) -> nat
    decreases d.len(),
{
    if d.len() == 0 {
        0
    } else {
        count_severity(d.drop_last(), sev) + (if d.last().severity@ == sev {
            1nat
        } else {
            0nat
        })
    }
}

proof fn lemma_count_le(d: Seq<CheckDiagnostic>, sev: Seq<char>)
    ensures
        count_severity(d, sev) <= d.len(),
    decreases d.len(),
{
    if d.len() > 0 {
        lemma_count_le(d.drop_last(), sev);
    }
}

fn count_of(d: &Vec<CheckDiagnostic>, sev: &str) -> (n: usize)
    ensures
        n == count_severity(d@, sev@),
{
    let mut n: usize = 0;
    let mut i: usize = 0;
    while i < d.len()
        invariant
            i <= d@.len(),
            n == count_severity(d@.subrange(0, i as int), sev@),
            n <= i,
        decreases d.len() - i,
    {
        let ghost nxt = d@.subrange(0, i + 1);
        assert(nxt.drop_last() =~= d@.subrange(0, i as int));
        if str_eq(d[i].severity.as_str(), sev) {
            n = n + 1;
        }
        i = i + 1;
    }
    assert(d@.subrange(0, d@.len() as int) =~= d@);
    n
}

/// Counts errors, warnings and infos (as `u32`, like the API reports them); the check is
/// valid when the error count is zero.
pub fn build_response(diagnostics: Vec<CheckDiagnostic>) -> (r: CheckResponse)
    ensures
        r.summary.errors == count_severity(diagnostics@, "error"@) as u32,
        r.summary.warnings == count_severity(diagnostics@, "warning"@) as u32,
        r.summary.info == count_severity(diagnostics@, "info"@) as u32,
        r.valid == (r.summary.errors == 0),
        r.diagnostics@ == diagnostics@,
{
    let errors = count_of(&diagnostics, "error") as u32;
    let warnings = count_of(&diagnostics, "warning") as u32;
    let info = count_of(&diagnostics, "info") as u32;
    let valid = errors == 0;
    CheckResponse { valid, diagnostics, summary: CheckSummary { errors, warnings, info } }
}

/// A diagnostic stated by its fields.
pub open spec fn diag_is(
    d: CheckDiagnostic,
    code: Seq<char>,
    severity: Seq<char>,
    message: Seq<char>,
    suggestion: Option<Seq<char>>,
    doc_url: Option<Seq<char>>,
) -> bool {
    &&& d.code@ == code
    &&& d.severity@ == severity
    &&& d.message@ == message
    &&& d.location is None
    &&& opt_view(d.suggestion) == suggestion
    &&& opt_view(d.doc_url) == doc_url
}

fn diag(code: &str, severity: &str, message: String, suggestion: Option<String>, doc_url: Option<
    String,
>) -> (d: CheckDiagnostic)
    ensures
        diag_is(d, code@, severity@, message@, opt_view(suggestion), opt_view(doc_url)),
{
    CheckDiagnostic {
        code: owned(code),
        severity: owned(severity),
        message,
        location: None,
        suggestion,
        doc_url,
    }
}

/// The definition is not valid YAML: the check stops with this diagnostic.
pub fn parse_error_diagnostic(error: &str) -> (d: CheckDiagnostic)
    ensures
        diag_is(d, "PARSE"@, "error"@, "YAML parse error: "@ + error@, None, None),
{
    diag("PARSE", "error", concat2("YAML parse error: ", error), None, None)
}

/// Severity of a lint finding.
#[derive(Debug, Clone, Copy, PartialEq, Eq, Structural)]
pub enum LintSeverity {
    Error,
    Warning,
    Info,
}

pub open spec fn lint_severity_name(s: LintSeverity) -> Seq<char> {
    match s {
        LintSeverity::Error => "error"@,
        LintSeverity::Warning => "warning"@,
        LintSeverity::Info => "info"@,
    }
}

/// A lint finding as a diagnostic: its rule id as the code, its severity by name, and its
/// remediation URL as the documentation link.
pub fn lint_diagnostic(
    rule_id: &str,
    severity: LintSeverity,
    message: &str,
    remediation_url: &Option<String>,
) -> (d: CheckDiagnostic)
    ensures
        diag_is(
            d,
            rule_id@,
            lint_severity_name(severity),
            message@,
            None,
            opt_view(*remediation_url),
        ),
{
    let sev: &str = match severity {
        LintSeverity::Error => "error",
        LintSeverity::Warning => "warning",
        LintSeverity::Info => "info",
    };
    let url = match remediation_url {
        Some(u) => Some(owned(u.as_str())),
        None => None,
    };
    diag(rule_id, sev, owned(message), None, url)
}

/// Name of the stored secret a pipeline secret refers to: its `stored` name, else its
/// `builtin` name.
pub fn secret_ref_name<'a>(stored: Option<&'a str>, builtin: Option<&'a str>) -> (r: Option<&'a str>)
    ensures
        r == match stored {
            Some(s) => Some(s),
            None => builtin,
        },
{
    match stored {
        Some(s) => Some(s),
        None => builtin,
    }
}

/// A referenced secret that the project does not have (`CHK-003`), with the suggestions
/// found for it.
pub fn missing_secret_diagnostic(name: &str, env_name: &str, suggestion: Option<String>) -> (d:
    CheckDiagnostic)
    ensures
        diag_is(
            d,
            "CHK-003"@,
            "error"@,
            "secret '"@ + name@ + "' not found in project scope (referenced as "@ + env_name@ + ")"@,
            opt_view(suggestion),
            Some("https://docs.meticulous.example.com/diagnostics/CHK-003"@),
        ),
{
    let mut m = owned("secret '");
    m.append(name);
    m.append("' not found in project scope (referenced as ");
    m.append(env_name);
    m.append(")");
    diag(
        "CHK-003",
        "error",
        m,
        suggestion,
        Some(owned("https://docs.meticulous.example.com/diagnostics/CHK-003")),
    )
}

/// `Debug` rendering of a list of strings, as `format!("{:?}", list)` produces it.
pub uninterp spec fn debug_string_list(items: Seq<Seq<char>>) -> Seq<char>;

/// Renders `items` with `format!("{:?}", ..)`; the result is named [`debug_string_list`].
#[verifier::external_body]
fn debug_list(items: &Vec<String>) -> (r: String)
    ensures
        r@ == debug_string_list(views(items@)),
{
    format!("{:?}", items)
}

/// What is known of the environment a check names.
pub struct CheckedEnvironment {
    /// Whether its branch rules allow the checked ref (`None` when no ref is checked).
    pub ref_allowed: Option<bool>,
    pub allowed_branches: Vec<String>,
    pub require_approval: bool,
    pub required_approvers: i64,
    pub approval_timeout_hours: i64,
}

/// Diagnostics for the environment a check names: `CHK-009` when it does not exist; else
/// `CHK-007` when it blocks the checked ref, then `CHK-008` when it requires approval.
pub open spec fn environment_diagnostics_ok(
    d: Seq<CheckDiagnostic>,
    env_name: Seq<char>,
    trigger_ref: Option<Seq<char>>,
    env: Option<CheckedEnvironment>,
) -> bool {
    match env {
        None => d.len() == 1 && diag_is(
            d[0],
            "CHK-009"@,
            "error"@,
            "environment '"@ + env_name + "' not found"@,
            None,
            Some("https://docs.meticulous.example.com/diagnostics/CHK-009"@),
        ),
        Some(e) => {
            let blocked = trigger_ref is Some && e.ref_allowed == Some(false);
            let n = (if blocked {
                1int
            } else {
                0int
            }) + (if e.require_approval {
                1int
            } else {
                0int
            });
            &&& d.len() == n
            &&& blocked ==> diag_is(
                d[0],
                "CHK-007"@,
                "error"@,
                "environment '"@ + env_name + "' blocks ref '"@ + trigger_ref->0 + "' (allowed: "@
                    + debug_string_list(views(e.allowed_branches@)) + ")"@,
                None,
                Some("https://docs.meticulous.example.com/diagnostics/CHK-007"@),
            )
            &&& e.require_approval ==> diag_is(
                d[d.len() - 1],
                "CHK-008"@,
                "info"@,
                "environment '"@ + env_name + "' requires approval ("@ + signed_decimal(
                    e.required_approvers as int,
                ) + " approver(s), "@ + signed_decimal(e.approval_timeout_hours as int)
                    + "h timeout)"@,
                None,
                Some("https://docs.meticulous.example.com/diagnostics/CHK-008"@),
            )
        },
    }
}

pub fn environment_diagnostics(
    env_name: &str,
    trigger_ref: Option<&str>,
    env: &Option<CheckedEnvironment>,
) -> (d: Vec<CheckDiagnostic>)
    ensures
        environment_diagnostics_ok(
            d@,
            env_name@,
            match trigger_ref {
                Some(r) => Some(r@),
                None => None,
            },
            *env,
        ),
{
    let mut out: Vec<CheckDiagnostic> = Vec::new();
    match env {
        None => {
            let mut m = owned("environment '");
            m.append(env_name);
            m.append("' not found");
            out.push(
                diag(
                    "CHK-009",
                    "error",
                    m,
                    None,
                    Some(owned("https://docs.meticulous.example.com/diagnostics/CHK-009")),
                ),
            );
        },
        Some(e) => {
            if let Some(r) = trigger_ref {
                if e.ref_allowed == Some(false) {
                    let mut m = owned("environment '");
                    m.append(env_name);
                    m.append("' blocks ref '");
                    m.append(r);
                    m.append("' (allowed: ");
                    let listed = debug_list(&e.allowed_branches);
                    m.append(listed.as_str());
                    m.append(")");
                    out.push(
                        diag(
                            "CHK-007",
                            "error",
                            m,
                            None,
                            Some(owned("https://docs.meticulous.example.com/diagnostics/CHK-007")),
                        ),
                    );
                }
            }
            if e.require_approval {
                let mut m = owned("environment '");
                m.append(env_name);
                m.append("' requires approval (");
                let a = i64_to_string(e.required_approvers);
                m.append(a.as_str());
                m.append(" approver(s), ");
                let h = i64_to_string(e.approval_timeout_hours);
                m.append(h.as_str());
                m.append("h timeout)");
                out.push(
                    diag(
                        "CHK-008",
                        "info",
                        m,
                        None,
                        Some(owned("https://docs.meticulous.example.com/diagnostics/CHK-008")),
                    ),
                );
            }
        },
    }
    out
}

} // verus!
