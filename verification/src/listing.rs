//! Paging, filtering and search parameters of the list endpoints.
use vstd::prelude::*;
use crate::error::{ApiError, ErrorKind};
use crate::text::{decimal, owned, parse_i64, parse_i64_spec, push_char, str_eq, trim, trim_str, usize_to_string};

verus! {

/// Offset encoded in a list cursor: a non-negative decimal `i64` (surrounding whitespace
/// ignored); anything else, or no cursor, means 0.
pub open spec fn cursor_offset(cursor: Option<Seq<char>>) -> i64 {
    match cursor {
        None => 0,
        Some(raw) => match parse_i64_spec(trim(raw)) {
            Some(o) => if o >= 0 {
                o
            } else {
                0
            },
            None => 0,
        },
    }
}

fn offset_of(cursor: Option<&str>) -> (o: i64)
    ensures
        o == cursor_offset(match cursor {
            Some(c) => Some(c@),
            None => None,
        }),
{
    let raw = match cursor {
        Some(r) => r,
        None => {
            return 0;
        },
    };
    let trimmed = trim_str(raw);
    if trimmed.is_empty() {
        return 0;
    }
    match parse_i64(trimmed) {
        Some(o) => if o >= 0 {
            o
        } else {
            0
        },
        None => 0,
    }
}

/// SQL `OFFSET` of a run list page.
pub fn parse_runs_list_offset(cursor: Option<&str>) -> (o: i64)
    ensures
        o == cursor_offset(match cursor {
            Some(c) => Some(c@),
            None => None,
        }),
        o >= 0,
{
    offset_of(cursor)
}

/// SQL `OFFSET` of a catalog list page.
pub fn parse_catalog_list_offset(cursor: Option<&str>) -> (o: i64)
    ensures
        o == cursor_offset(match cursor {
            Some(c) => Some(c@),
            None => None,
        }),
        o >= 0,
{
    offset_of(cursor)
}

/// Paging metadata returned with a list page.
pub struct PaginationMeta {
    /// Cursor of the next page, when there is one.
    pub next_cursor: Option<String>,
    /// More rows follow this page.
    pub has_more: bool,
    /// Rows on this page.
    pub count: usize,
}

/// Metadata of a page read at `offset` with one row more than the page size `limit`:
/// the extra row, when it came back, only signals that more follow and is dropped; the next
/// cursor is the decimal offset of the first row after the page.
pub fn page_meta(offset: i64, fetched: usize, limit: usize) -> (m: PaginationMeta)
    requires
        offset >= 0,
        offset + fetched <= usize::MAX,
    ensures
        m.has_more == (fetched > limit),
        m.count == (if fetched > limit {
            fetched - 1
        } else {
            fetched as int
        }),
        m.has_more ==> (m.next_cursor matches Some(c) && c@ == decimal((offset + m.count) as nat)),
        !m.has_more ==> m.next_cursor is None,
{
    let has_more = fetched > limit;
    let count = if has_more {
        fetched - 1
    } else {
        fetched
    };
    let next_cursor = if has_more {
        Some(usize_to_string(offset as usize + count))
    } else {
        None
    };
    PaginationMeta { next_cursor, has_more, count }
}

/// A page read with one row more than the page size: the rows shown (without the extra row,
/// when it came back) and the page's metadata (see [`page_meta`]).
pub fn paginate_rows<T>(rows: Vec<T>, offset: i64, limit: usize) -> (r: (Vec<T>, PaginationMeta))
    requires
        offset >= 0,
        offset + rows@.len() <= usize::MAX,
    ensures
        r.0@ == (if rows@.len() > limit {
            rows@.drop_last()
        } else {
            rows@
        }),
        r.1.has_more == (rows@.len() > limit),
        r.1.count == r.0@.len(),
        r.1.has_more ==> (r.1.next_cursor matches Some(c) && c@ == decimal((offset + r.1.count) as nat)),
        !r.1.has_more ==> r.1.next_cursor is None,
{
    let fetched = rows.len();
    let meta = page_meta(offset, fetched, limit);
    let mut rows = rows;
    if fetched > limit {
        rows.pop();
    }
    (rows, meta)
}

/// Whether `s` is one of the names.
pub open spec fn names_contain(names: Seq<String>, s: Seq<char>) -> bool {
    exists|i: int| 0 <= i < names.len() && #[trigger] names[i]@ == s
}

/// The status filter of a run list as plain values: none when absent or blank, the trimmed
/// text when it is a status name, else the error message.
pub open spec fn run_status_filter_spec(raw: Option<Seq<char>>, names: Seq<String>) -> Result<
    Option<Seq<char>>,
    Seq<char>,
> {
    match raw {
        None => Ok(None),
        Some(t) => if trim(t).len() == 0 {
            Ok(None)
        } else if names_contain(names, trim(t)) {
            Ok(Some(trim(t)))
        } else {
            Err("invalid run status: "@ + trim(t))
        },
    }
}

/// The status a run list filters by: none when absent or blank, else the trimmed text, which
/// must be one of the run status names (an unknown one is a bad request).
pub fn parse_run_status_filter(raw: Option<&str>, status_names: &Vec<String>) -> (r: Result<
    Option<String>,
    ApiError,
>)
    ensures
        match (r, run_status_filter_spec(
            match raw {
                Some(t) => Some(t@),
                None => None,
            },
            status_names@,
        )) {
            (Ok(None), Ok(None)) => true,
            (Ok(Some(v)), Ok(Some(w))) => v@ == w,
            (Err(e), Err(m)) => e.kind == ErrorKind::BadRequest && e.message@ == m,
            _ => false,
        },
{
    match raw {
        None => Ok(None),
        Some(t) => {
            let s = trim_str(t);
            if s.is_empty() {
                return Ok(None);
            }
            let mut i: usize = 0;
            while i < status_names.len()
                invariant
                    i <= status_names@.len(),
                    raw == Some(t),
                    s@ == trim(t@),
                    s@.len() > 0,
                    forall|j: int| 0 <= j < i ==> #[trigger] status_names@[j]@ != s@,
                decreases status_names.len() - i,
            {
                if str_eq(status_names[i].as_str(), s) {
                    assert(status_names@[i as int]@ == trim(t@));
                    assert(names_contain(status_names@, trim(t@)));
                    return Ok(Some(owned(s)));
                }
                i = i + 1;
            }
            let m = crate::text::concat2("invalid run status: ", s);
            Err(ApiError::bad_request(m.as_str()))
        },
    }
}

/// First page of a join token listing.
pub fn join_token_list_default_page() -> (r: u32)
    ensures
        r == 1,
{
    1
}

/// Default page size of a join token listing.
pub fn join_token_list_default_limit() -> (r: u32)
    ensures
        r == 20,
{
    20
}

/// Page sizes are 20, 50, 100 or 200; other requests map to the size whose band holds them
/// (0..=35 to 20, ..=75 to 50, ..=150 to 100, above to 200).
pub open spec fn join_token_limit_spec(n: u32) -> u32 {
    if n == 20 || n == 50 || n == 100 || n == 200 {
        n
    } else if n <= 35 {
        20
    } else if n <= 75 {
        50
    } else if n <= 150 {
        100
    } else {
        200
    }
}

/// The page size actually used for a requested join token page size.
pub fn normalize_join_token_limit(n: u32) -> (r: u32)
    ensures
        r == join_token_limit_spec(n),
{
    match n {
        20 | 50 | 100 | 200 => n,
        0 => 20,
        n if n <= 35 => 20,
        n if n <= 75 => 50,
        n if n <= 150 => 100,
        _ => 200,
    }
}

/// Dashboard window when none is given.
pub fn default_window() -> (r: String)
    ensures
        r@ == "1d"@,
{
    owned("1d")
}

/// Number of recent runs shown when no limit is given.
pub fn default_recent_limit() -> (r: i64)
    ensures
        r == 10,
{
    10
}

/// Length in seconds of a dashboard window name.
pub open spec fn window_seconds(s: Seq<char>) -> Option<i64> {
    if s == "1h"@ {
        Some(3600i64)
    } else if s == "4h"@ {
        Some(14400i64)
    } else if s == "12h"@ {
        Some(43200i64)
    } else if s == "1d"@ {
        Some(86400i64)
    } else if s == "3d"@ {
        Some(259200i64)
    } else if s == "7d"@ {
        Some(604800i64)
    } else {
        None
    }
}

/// Dashboard window: `1h`, `4h`, `12h`, `1d`, `3d` or `7d`, as a number of seconds.
pub fn parse_window(s: &str) -> (r: Result<i64, ApiError>)
    ensures
        r is Ok <==> window_seconds(s@) is Some,
        r matches Ok(secs) ==> Some(secs) == window_seconds(s@),
        r matches Err(e) ==> e.is(
            ErrorKind::BadRequest,
            "invalid `window`; use 1h, 4h, 12h, 1d, 3d, or 7d"@,
        ),
{
    if str_eq(s, "1h") {
        Ok(3600)
    } else if str_eq(s, "4h") {
        Ok(4 * 3600)
    } else if str_eq(s, "12h") {
        Ok(12 * 3600)
    } else if str_eq(s, "1d") {
        Ok(86400)
    } else if str_eq(s, "3d") {
        Ok(3 * 86400)
    } else if str_eq(s, "7d") {
        Ok(7 * 86400)
    } else {
        Err(ApiError::bad_request("invalid `window`; use 1h, 4h, 12h, 1d, 3d, or 7d"))
    }
}

/// Scope filter of the workspace variable and stored-secret listings.
#[derive(Debug, Clone, Copy, PartialEq, Eq, Structural)]
pub enum WorkspaceScopeLevel {
    All,
    /// Org-wide stored secrets only.
    Organization,
    /// Project-scoped rows without a pipeline.
    Project,
    /// Pipeline-scoped rows only.
    Pipeline,
}

impl WorkspaceScopeLevel {
    /// The SQL parameter for this scope.
    pub open spec fn sql_name(self) -> Seq<char> {
        match self {
            WorkspaceScopeLevel::All => "all"@,
            WorkspaceScopeLevel::Organization => "organization"@,
            WorkspaceScopeLevel::Project => "project"@,
            WorkspaceScopeLevel::Pipeline => "pipeline"@,
        }
    }

    pub fn as_sql_str(&self) -> (r: &'static str)
        ensures
            r@ == self.sql_name(),
    {
        match self {
            WorkspaceScopeLevel::All => "all",
            WorkspaceScopeLevel::Organization => "organization",
            WorkspaceScopeLevel::Project => "project",
            WorkspaceScopeLevel::Pipeline => "pipeline",
        }
    }
}

impl Default for WorkspaceScopeLevel {
    fn default() -> (r: Self)
        ensures
            r == WorkspaceScopeLevel::All,
    {
        WorkspaceScopeLevel::All
    }
}

/// `\`, `%` and `_` escaped with a backslash.
pub open spec fn like_escape(s: Seq<char>) -> Seq<char>
    decreases s.len(),
{
    if s.len() == 0 {
        Seq::empty()
    } else {
        let c = s.last();
        like_escape(s.drop_last()) + (if c == '\\' || c == '%' || c == '_' {
            seq!['\\', c]
        } else {
            seq![c]
        })
    }
}

/// `ILIKE` pattern matching `raw` anywhere, with wildcard characters escaped.
pub fn ilike_pattern(raw: &str) -> (r: String)
    ensures
        r@ == seq!['%'] + like_escape(raw@) + seq!['%'],
{
    let n = raw.unicode_len();
    let mut body = String::new();
    let mut i: usize = 0;
    while i < n
        invariant
            n == raw@.len(),
            i <= n,
            body@ == like_escape(raw@.subrange(0, i as int)),
        decreases n - i,
    {
        let c = raw.get_char(i);
        let ghost pre = raw@.subrange(0, i as int);
        let ghost nxt = raw@.subrange(0, i + 1);
        assert(nxt.drop_last() =~= pre);
        if c == '\\' || c == '%' || c == '_' {
            push_char(&mut body, '\\');
        }
        push_char(&mut body, c);
        assert(body@ =~= like_escape(nxt));
        i = i + 1;
    }
    assert(raw@.subrange(0, n as int) =~= raw@);
    let mut r = String::new();
    push_char(&mut r, '%');
    r.append(body.as_str());
    push_char(&mut r, '%');
    assert(r@ =~= seq!['%'] + like_escape(raw@) + seq!['%']);
    r
}

/// Search pattern of a listing's `q`: `None` when absent or blank, else the `ILIKE`
/// pattern of the trimmed text.
pub fn search_pattern(q: &Option<String>) -> (r: Option<String>)
    ensures
        match q {
            Some(s) => if trim(s@).len() > 0 {
                r matches Some(p) && p@ == seq!['%'] + like_escape(trim(s@)) + seq!['%']
            } else {
                r is None
            },
            None => r is None,
        },
{
    match q {
        Some(s) => {
            let t = trim_str(s.as_str());
            if t.is_empty() {
                None
            } else {
                Some(ilike_pattern(t))
            }
        },
        None => None,
    }
}

/// Project filter of a listing filtered by pipeline: the pipeline's project must be in the
/// caller's organization and match a requested project; it becomes the project filter.
pub fn project_filter_for_pipeline(
    pipeline_project_id: &str,
    pipeline_project_org_id: &str,
    user_org_id: &str,
    requested_project_id: Option<&str>,
) -> (r: Result<String, ApiError>)
    ensures
        pipeline_project_org_id@ != user_org_id@ ==> (r matches Err(e) && e.is(
            ErrorKind::Forbidden,
            "pipeline not in your organization"@,
        )),
        pipeline_project_org_id@ == user_org_id@ ==> match requested_project_id {
            Some(p) => if p@ != pipeline_project_id@ {
                r matches Err(e) && e.is(
                    ErrorKind::BadRequest,
                    "pipeline_id does not belong to the given project_id"@,
                )
            } else {
                r matches Ok(x) && x@ == pipeline_project_id@
            },
            None => r matches Ok(x) && x@ == pipeline_project_id@,
        },
{
    if !str_eq(pipeline_project_org_id, user_org_id) {
        return Err(ApiError::forbidden("pipeline not in your organization"));
    }
    if let Some(p) = requested_project_id {
        if !str_eq(p, pipeline_project_id) {
            return Err(ApiError::bad_request("pipeline_id does not belong to the given project_id"));
        }
    }
    Ok(owned(pipeline_project_id))
}

/// Rows of a recent-runs dashboard listing: the requested count kept within 1..=50.
pub fn recent_runs_limit(requested: i64) -> (r: i64)
    ensures
        r == (if requested < 1 {
            1
        } else if requested > 50 {
            50
        } else {
            requested
        }),
{
    if requested < 1 {
        1
    } else if requested > 50 {
        50
    } else {
        requested
    }
}

/// Rows of the admin job queue listing: 200 unless asked, and at most 500.
pub fn job_queue_limit(requested: Option<u32>) -> (r: i64)
    ensures
        r == (match requested {
            Some(n) => if n > 500 {
                500
            } else {
                n as int
            },
            None => 200,
        }),
{
    let n: u32 = match requested {
        Some(n) => n,
        None => 200,
    };
    if n > 500 {
        500
    } else {
        n as i64
    }
}

/// Messages of the dead-letter queue preview: 50 unless asked.
pub fn dlq_limit(requested: Option<u32>) -> (r: u32)
    ensures
        r == (match requested {
            Some(n) => n,
            None => 50,
        }),
{
    match requested {
        Some(n) => n,
        None => 50,
    }
}

} // verus!
