//! Recognising software bills of materials among run artifacts, and which SBOM a run
//! reports.
use vstd::prelude::*;
use crate::text::{contains_str, seq_contains_run, str_eq, to_lowercase, unicode_lowercase};

verus! {

/// A name that mentions an SBOM format.
pub open spec fn mentions_sbom(s: Seq<char>) -> bool {
    seq_contains_run(s, "spdx"@) || seq_contains_run(s, "cyclonedx"@) || seq_contains_run(
        s,
        "sbom"@,
    )
}

/// An artifact may be an SBOM when its lowercased name or storage path mentions `spdx`,
/// `cyclonedx` or `sbom`, or its content type is an SPDX or CycloneDX JSON media type.
pub fn artifact_might_be_sbom(name: &str, storage_path: &str, content_type: Option<&str>) -> (r:
    bool)
    ensures
        r == (mentions_sbom(unicode_lowercase(name@)) || mentions_sbom(
            unicode_lowercase(storage_path@),
        ) || match content_type {
            Some(ct) => ct@ == "application/spdx+json"@ || ct@ == "application/vnd.cyclonedx+json"@,
            None => false,
        }),
{
    let n = to_lowercase(name);
    let p = to_lowercase(storage_path);
    if contains_str(n.as_str(), "spdx") || contains_str(n.as_str(), "cyclonedx") || contains_str(
        n.as_str(),
        "sbom",
    ) || contains_str(p.as_str(), "spdx") || contains_str(p.as_str(), "cyclonedx")
        || contains_str(p.as_str(), "sbom") {
        return true;
    }
    match content_type {
        Some(ct) => str_eq(ct, "application/spdx+json") || str_eq(
            ct,
            "application/vnd.cyclonedx+json",
        ),
        None => false,
    }
}

/// The artifact may be an SBOM (what [`artifact_might_be_sbom`] answers).
pub open spec fn might_be_sbom(name: Seq<char>, storage_path: Seq<char>, content_type: Option<
    Seq<char>,
>) -> bool {
    mentions_sbom(unicode_lowercase(name)) || mentions_sbom(unicode_lowercase(storage_path))
        || match content_type {
        Some(ct) => ct == "application/spdx+json"@ || ct == "application/vnd.cyclonedx+json"@,
        None => false,
    }
}

/// What the SBOM lookup reads of one artifact of a run.
pub struct SbomProbe {
    pub name: String,
    pub storage_path: String,
    pub content_type: Option<String>,
    /// Whether the artifact's metadata holds an SBOM document inline.
    pub has_inline_document: bool,
}

pub open spec fn probe_candidate(p: SbomProbe) -> bool {
    might_be_sbom(
        p.name@,
        p.storage_path@,
        match p.content_type {
            Some(c) => Some(c@),
            None => None,
        },
    )
}

/// What a run reports as its SBOM.
#[derive(Debug, Clone, Copy, PartialEq, Eq, Structural)]
pub enum SbomOutcome {
    /// The document held inline by the artifact at this position.
    Inline(usize),
    /// An SBOM artifact exists but none holds its document inline.
    Registered,
    /// No artifact looks like an SBOM.
    NotGenerated,
}

/// The run's SBOM: the first SBOM-like artifact (in the order given) whose metadata holds
/// the document inline; else `Registered` when some artifact looks like an SBOM; else
/// `NotGenerated`.
pub fn select_run_sbom(rows: &Vec<SbomProbe>) -> (o: SbomOutcome)
    ensures
        match o {
            SbomOutcome::Inline(i) => i < rows@.len() && probe_candidate(rows@[i as int])
                && rows@[i as int].has_inline_document && forall|j: int|
                0 <= j < i ==> !(probe_candidate(#[trigger] rows@[j]) && rows@[j].has_inline_document),
            SbomOutcome::Registered => (exists|j: int|
                0 <= j < rows@.len() && probe_candidate(#[trigger] rows@[j])) && forall|j: int|
                0 <= j < rows@.len() ==> !(probe_candidate(#[trigger] rows@[j])
                    && rows@[j].has_inline_document),
            SbomOutcome::NotGenerated => forall|j: int|
                0 <= j < rows@.len() ==> !probe_candidate(#[trigger] rows@[j]),
        },
{
    let mut saw = false;
    let mut i: usize = 0;
    while i < rows.len()
        invariant
            i <= rows@.len(),
            saw <==> exists|j: int| 0 <= j < i && probe_candidate(#[trigger] rows@[j]),
            forall|j: int|
                0 <= j < i ==> !(probe_candidate(#[trigger] rows@[j]) && rows@[j].has_inline_document),
        decreases rows.len() - i,
    {
        let r = &rows[i];
        let ct: Option<&str> = match &r.content_type {
            Some(c) => Some(c.as_str()),
            None => None,
        };
        if artifact_might_be_sbom(r.name.as_str(), r.storage_path.as_str(), ct) {
            assert(probe_candidate(rows@[i as int]));
            saw = true;
            if r.has_inline_document {
                return SbomOutcome::Inline(i);
            }
        } else {
            assert(!probe_candidate(rows@[i as int]));
        }
        i = i + 1;
    }
    if saw {
        SbomOutcome::Registered
    } else {
        SbomOutcome::NotGenerated
    }
}

/// Format of an inline SBOM document: `cyclonedx` when it has a string `bomFormat`, else
/// `spdx` when it has a string `spdxVersion`, else `json`.
pub fn sbom_document_format(has_bom_format: bool, has_spdx_version: bool) -> (f: &'static str)
    ensures
        f@ == (if has_bom_format {
            "cyclonedx"@
        } else if has_spdx_version {
            "spdx"@
        } else {
            "json"@
        }),
{
    if has_bom_format {
        "cyclonedx"
    } else if has_spdx_version {
        "spdx"
    } else {
        "json"
    }
}

/// Where an artifact's metadata holds an inline SBOM.
#[derive(Debug, Clone, Copy, PartialEq, Eq, Structural)]
pub enum InlineSbomKey {
    /// The `sbom_json` object.
    SbomJson,
    /// The `sbom` object.
    Sbom,
}

/// `sbom_json` is preferred over `sbom`; each counts only when it is a JSON object.
pub fn inline_sbom_key(sbom_json_is_object: bool, sbom_is_object: bool) -> (k: Option<InlineSbomKey>)
    ensures
        k == (if sbom_json_is_object {
            Some(InlineSbomKey::SbomJson)
        } else if sbom_is_object {
            Some(InlineSbomKey::Sbom)
        } else {
            None
        }),
{
    if sbom_json_is_object {
        Some(InlineSbomKey::SbomJson)
    } else if sbom_is_object {
        Some(InlineSbomKey::Sbom)
    } else {
        None
    }
}

} // verus!
