//! Execution footprint of a run: executed binaries grouped by directory, network
//! connections, and how they are labelled.
use vstd::prelude::*;
use crate::text::{concat3, owned, push_char, trim, trim_str};

verus! {

/// A binary executed by a job step.
pub struct FootprintBinaryRow {
    pub job_name: String,
    pub step_name: Option<String>,
    pub binary_path: String,
    pub sha256: String,
    pub execution_count: i64,
}

/// An outbound connection observed during a run.
pub struct FootprintNetworkRow {
    pub job_name: Option<String>,
    pub dst_ip: String,
    pub dst_port: i32,
    pub protocol: String,
    pub direction: String,
    pub connected_at: String,
    pub binary_path: Option<String>,
    pub binary_sha256: Option<String>,
}

/// One binary (path and digest) in a directory group.
pub struct FootprintDirectoryEntry {
    pub binary_path: String,
    pub sha256: String,
    pub execution_count: i64,
    pub job_names: Vec<String>,
}

/// Binaries of one directory.
pub struct FootprintDirectoryGroup {
    pub directory: String,
    pub entries: Vec<FootprintDirectoryEntry>,
    pub entries_truncated: bool,
}

/// Executions of one binary in a DAG node.
pub struct ExecutedBinarySummary {
    pub binary_path: String,
    pub sha256: String,
    pub execution_count: i64,
}

/// One job of a run DAG.
pub struct DagNodeResponse {
    pub job_id: String,
    pub job_name: String,
    pub status: String,
    pub depends_on: Vec<String>,
    pub executed_binaries: Vec<ExecutedBinarySummary>,
}

/// Label for the job and step a binary ran in: `job · step`, or whichever of the two is
/// non-blank (trimmed), or `—` when both are blank.
pub open spec fn job_step_label(job_name: Seq<char>, step_name: Option<Seq<char>>) -> Seq<char> {
    let job = trim(job_name);
    let step = match step_name {
        Some(s) => if trim(s).len() > 0 {
            Some(trim(s))
        } else {
            None
        },
        None => None,
    };
    match step {
        Some(st) => if job.len() > 0 {
            job + " · "@ + st
        } else {
            st
        },
        None => if job.len() > 0 {
            job
        } else {
            "—"@
        },
    }
}

pub fn footprint_job_step_label(job_name: &str, step_name: Option<&str>) -> (r: String)
    ensures
        r@ == job_step_label(
            job_name@,
            match step_name {
                Some(s) => Some(s@),
                None => None,
            },
        ),
{
    let job = trim_str(job_name);
    let step: Option<&str> = match step_name {
        Some(s) => {
            let t = trim_str(s);
            if t.is_empty() {
                None
            } else {
                Some(t)
            }
        },
        None => None,
    };
    match step {
        Some(st) => if !job.is_empty() {
            concat3(job, " · ", st)
        } else {
            owned(st)
        },
        None => if !job.is_empty() {
            owned(job)
        } else {
            owned("—")
        },
    }
}

/// What `Path::parent` returns for a path, rendered with `to_string_lossy`
/// (`None` for a root or an empty path).
pub uninterp spec fn path_parent(p: Seq<char>) -> Option<Seq<char>>;

/// Calls `std::path::Path::parent` on `p`; the rendered parent is named `path_parent(p)`.
#[verifier::external_body]
fn parent_of(p: &str) -> (r: Option<String>)
    ensures
        match r {
            Some(s) => path_parent(p@) == Some(s@),
            None => path_parent(p@) is None,
        },
{
    std::path::Path::new(p).parent().map(|x| x.to_string_lossy().into_owned())
}

/// Backslashes read as slashes, and runs of slashes collapsed to one.
pub open spec fn collapse_slashes(s: Seq<char>) -> Seq<char>
    decreases s.len(),
{
    if s.len() == 0 {
        Seq::empty()
    } else {
        let p = collapse_slashes(s.drop_last());
        let c = if s.last() == '\\' {
            '/'
        } else {
            s.last()
        };
        if c == '/' && p.len() > 0 && p.last() == '/' {
            p
        } else {
            p.push(c)
        }
    }
}

/// Trailing slashes removed, except a lone `/`.
pub open spec fn strip_trailing_keep_root(s: Seq<char>) -> Seq<char>
    decreases s.len(),
{
    if s.len() > 1 && s.last() == '/' {
        strip_trailing_keep_root(s.drop_last())
    } else {
        s
    }
}

/// Directory a binary is grouped under: the parent of the trimmed path with separators
/// normalised; `.` when there is no (or an empty) parent.
pub open spec fn parent_dir_spec(binary_path: Seq<char>) -> Seq<char> {
    match path_parent(trim(binary_path)) {
        None => "."@,
        Some(p) => if p.len() == 0 {
            "."@
        } else {
            let out = strip_trailing_keep_root(collapse_slashes(p));
            if out.len() == 0 {
                "."@
            } else {
                out
            }
        },
    }
}

proof fn lemma_strip_step(s: Seq<char>)
    requires
        s.len() > 1,
        s.last() == '/',
    ensures
        strip_trailing_keep_root(s) == strip_trailing_keep_root(s.drop_last()),
{
}

/// The first `n` characters of `s`, as an owned string.
fn char_prefix(s: &str, n: usize) -> (r: String)
    requires
        n <= s@.len(),
    ensures
        r@ == s@.subrange(0, n as int),
{
    owned(s.substring_char(0, n))
}

pub fn format_footprint_parent_dir(binary_path: &str) -> (r: String)
    ensures
        r@ == parent_dir_spec(binary_path@),
{
    let parent = match parent_of(trim_str(binary_path)) {
        None => {
            return owned(".");
        },
        Some(p) => p,
    };
    if parent.as_str().is_empty() {
        return owned(".");
    }
    let n = parent.as_str().unicode_len();
    let mut out = String::new();
    let mut prev_slash = false;
    let mut i: usize = 0;
    while i < n
        invariant
            n == parent@.len(),
            i <= n,
            out@ == collapse_slashes(parent@.subrange(0, i as int)),
            prev_slash == (out@.len() > 0 && out@.last() == '/'),
        decreases n - i,
    {
        let ghost nxt = parent@.subrange(0, i + 1);
        assert(nxt.drop_last() =~= parent@.subrange(0, i as int));
        let raw = parent.as_str().get_char(i);
        let ch = if raw == '\\' {
            '/'
        } else {
            raw
        };
        if ch == '/' {
            if !prev_slash {
                push_char(&mut out, '/');
                prev_slash = true;
            }
        } else {
            push_char(&mut out, ch);
            prev_slash = false;
        }
        i = i + 1;
    }
    assert(parent@.subrange(0, n as int) =~= parent@);
    let ghost collapsed = out@;
    let mut m = out.as_str().unicode_len();
    assert(collapsed.subrange(0, m as int) =~= collapsed);
    while m > 1 && out.as_str().get_char(m - 1) == '/'
        invariant
            m <= out@.len(),
            out@ == collapsed,
            strip_trailing_keep_root(collapsed) == strip_trailing_keep_root(
                collapsed.subrange(0, m as int),
            ),
        decreases m,
    {
        proof {
            let t = collapsed.subrange(0, m as int);
            lemma_strip_step(t);
            assert(t.drop_last() =~= collapsed.subrange(0, m - 1));
        }
        m = m - 1;
    }
    proof {
        let t = collapsed.subrange(0, m as int);
        if m > 1 {
            assert(t.last() == collapsed[m - 1]);
        }
        assert(strip_trailing_keep_root(t) == t);
    }
    let stripped = char_prefix(out.as_str(), m);
    if stripped.as_str().is_empty() {
        owned(".")
    } else {
        stripped
    }
}

/// A byte slice as a 32-byte array: `Some` exactly when it holds 32 bytes, with the same
/// bytes.
fn bytes_to_key(b: &[u8]) -> (r: Option<[u8; 32]>)
    ensures
        r is Some <==> b@.len() == 32,
        r matches Some(k) ==> k@ == b@,
{
    if b.len() != 32 {
        return None;
    }
    let mut k: [u8; 32] = [0u8; 32];
    let mut i: usize = 0;
    while i < 32
        invariant
            i <= 32,
            b@.len() == 32,
            k@.len() == 32,
            forall|j: int| 0 <= j < i ==> k@[j] == b@[j],
        decreases 32 - i,
    {
        k[i] = b[i];
        i = i + 1;
    }
    assert(k@ =~= b@);
    Some(k)
}

/// A 32-byte snapshot key, when the stored value has exactly 32 bytes.
pub fn job_run_snapshot_key(bytes: &Option<Vec<u8>>) -> (r: Option<[u8; 32]>)
    ensures
        match bytes {
            None => r is None,
            Some(b) => (r is Some <==> b@.len() == 32) && (r matches Some(k) ==> k@ == b@),
        },
{
    match bytes {
        None => None,
        Some(b) => bytes_to_key(b.as_slice()),
    }
}

} // verus!
