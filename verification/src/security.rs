//! Blast-radius search: validating the query, its `ILIKE` pattern, what each matching row
//! is reported as, and collecting the hits without repeats.
use vstd::prelude::*;
use vstd::utf8::encode_utf8;
use crate::access::OrgSearchMode;
use crate::dto_resources::BlastRadiusHit;
use crate::error::{ApiError, ErrorKind};
use crate::text::{copy_strings, concat2, concat3, owned, push_char, str_eq, trim, trim_str, views};
use crate::webhook_payloads::opt_view;

verus! {

/// `%` and `_` escaped with a backslash (other characters, backslash included, unchanged).
pub open spec fn wildcard_escape(s: Seq<char>) -> Seq<char>
    decreases s.len(),
{
    if s.len() == 0 {
        Seq::empty()
    } else {
        let c = s.last();
        wildcard_escape(s.drop_last()) + (if c == '%' || c == '_' {
            seq!['\\', c]
        } else {
            seq![c]
        })
    }
}

/// What a blast-radius query searches for.
pub struct BlastQuery {
    /// The trimmed query.
    pub needle: String,
    /// Egress CIDR the query denotes, if any.
    pub net_cidr: Option<String>,
    /// `ILIKE` pattern matching the needle anywhere.
    pub like: String,
}

/// A query is searched when its trimmed form has at least 3 bytes or denotes an egress
/// CIDR; `net_cidr` is the CIDR literal the trimmed query denotes, if any.
pub fn prepare_blast_query(q: &str, net_cidr: Option<String>) -> (r: Result<BlastQuery, ApiError>)
    ensures
        match r {
            Ok(b) => {
                &&& b.needle@ == trim(q@)
                &&& b.net_cidr == net_cidr
                &&& (encode_utf8(trim(q@)).len() >= 3 || net_cidr is Some)
                &&& b.like@ == seq!['%'] + wildcard_escape(trim(q@)) + seq!['%']
            },
            Err(e) => encode_utf8(trim(q@)).len() < 3 && net_cidr is None && e.is(
                ErrorKind::BadRequest,
                "query must be at least 3 characters (or a valid IP / CIDR for egress search)"@,
            ),
        },
{
    let needle = trim_str(q);
    if crate::crypto::str_bytes(needle).len() < 3 && net_cidr.is_none() {
        return Err(
            ApiError::bad_request(
                "query must be at least 3 characters (or a valid IP / CIDR for egress search)",
            ),
        );
    }
    let n = needle.unicode_len();
    let mut body = String::new();
    let mut i: usize = 0;
    while i < n
        invariant
            n == needle@.len(),
            i <= n,
            body@ == wildcard_escape(needle@.subrange(0, i as int)),
        decreases n - i,
    {
        let c = needle.get_char(i);
        let ghost nxt = needle@.subrange(0, i + 1);
        assert(nxt.drop_last() =~= needle@.subrange(0, i as int));
        if c == '%' || c == '_' {
            push_char(&mut body, '\\');
        }
        push_char(&mut body, c);
        assert(body@ =~= wildcard_escape(nxt));
        i = i + 1;
    }
    assert(needle@.subrange(0, n as int) =~= needle@);
    let mut like = String::new();
    push_char(&mut like, '%');
    like.append(body.as_str());
    push_char(&mut like, '%');
    assert(like@ =~= seq!['%'] + wildcard_escape(needle@) + seq!['%']);
    Ok(BlastQuery { needle: owned(needle), net_cidr, like })
}

/// The (kind, id) pairs already reported.
pub open spec fn seen_has(seen: Seq<(String, String)>, kind: Seq<char>, id: Seq<char>) -> bool {
    exists|i: int| 0 <= i < seen.len() && #[trigger] seen[i].0@ == kind && seen[i].1@ == id
}

/// Adds a hit unless one of the same kind and id was already added.
pub fn push_hit(
    hits: &mut Vec<BlastRadiusHit>,
    seen: &mut Vec<(String, String)>,
    kind: &'static str,
    id: String,
    project_id: Option<String>,
    detail: Option<String>,
)
    ensures
        seen_has(old(seen)@, kind@, id@) ==> final(hits)@ == old(hits)@ && final(seen)@ == old(
            seen,
        )@,
        !seen_has(old(seen)@, kind@, id@) ==> {
            &&& final(hits)@.len() == old(hits)@.len() + 1
            &&& final(hits)@.subrange(0, old(hits)@.len() as int) == old(hits)@
            &&& final(hits)@.last().kind@ == kind@
            &&& final(hits)@.last().id@ == id@
            &&& final(hits)@.last().project_id == project_id
            &&& final(hits)@.last().detail == detail
            &&& final(seen)@.len() == old(seen)@.len() + 1
            &&& final(seen)@.subrange(0, old(seen)@.len() as int) == old(seen)@
            &&& final(seen)@.last().0@ == kind@ && final(seen)@.last().1@ == id@
        },
{
    let mut i: usize = 0;
    while i < seen.len()
        invariant
            i <= seen@.len(),
            forall|j: int| 0 <= j < i ==> !((#[trigger] seen@[j]).0@ == kind@ && seen@[j].1@ == id@),
        decreases seen.len() - i,
    {
        if str_eq(seen[i].0.as_str(), kind) && str_eq(seen[i].1.as_str(), id.as_str()) {
            return;
        }
        i = i + 1;
    }
    seen.push((owned(kind), id.clone()));
    hits.push(BlastRadiusHit { kind, id, project_id, detail });
}


/// A run whose commit, id or pipeline matched.
pub struct RunMatch {
    pub run_id: String,
    pub commit_sha: Option<String>,
    pub pipeline_name: Option<String>,
}

/// A pipeline whose name or id matched.
pub struct PipelineMatch {
    pub pipeline_id: String,
    pub project_id: String,
    pub pipeline_name: String,
    pub project_name: String,
}

/// A project whose name or id matched.
pub struct ProjectMatch {
    pub project_id: String,
    pub name: String,
}

/// A run whose execution footprint matched, with one matching sample (a binary path, or
/// an egress destination).
pub struct FootprintMatch {
    pub run_id: String,
    pub commit_sha: Option<String>,
    pub pipeline_name: Option<String>,
    pub sample: String,
}

/// An agent whose id, name or address matched.
pub struct AgentMatch {
    pub agent_id: String,
    pub name: String,
}

/// Everything a blast-radius search found, source by source, each in its query's order.
pub struct BlastMatches {
    pub runs: Vec<RunMatch>,
    pub pipelines: Vec<PipelineMatch>,
    pub projects: Vec<ProjectMatch>,
    pub binary_footprints: Vec<FootprintMatch>,
    pub egress_footprints: Vec<FootprintMatch>,
    pub agents: Vec<AgentMatch>,
}

/// A hit as plain values: kind, id, project id, detail.
pub type HitView = (Seq<char>, Seq<char>, Option<Seq<char>>, Option<Seq<char>>);

pub open spec fn hit_view(h: BlastRadiusHit) -> HitView {
    (h.kind@, h.id@, opt_view(h.project_id), opt_view(h.detail))
}

pub open spec fn hit_views(hs: Seq<BlastRadiusHit>) -> Seq<HitView> {
    hs.map_values(|h: BlastRadiusHit| hit_view(h))
}

/// A commit that is not blank.
pub open spec fn non_blank(o: Option<Seq<char>>) -> Option<Seq<char>> {
    match o {
        Some(c) => if trim(c).len() > 0 {
            Some(c)
        } else {
            None
        },
        None => None,
    }
}

/// Detail of a matched run: its commit when not blank, else its pipeline's name.
pub open spec fn run_detail(commit: Option<Seq<char>>, pipeline: Option<Seq<char>>) -> Option<
    Seq<char>,
> {
    match non_blank(commit) {
        Some(c) => Some(c),
        None => pipeline,
    }
}

/// Detail of a run matched by footprint: the commit (when not blank) and the pipeline name,
/// each when present, then `footprint (<source>): <sample>`, joined by ` · `.
pub open spec fn footprint_detail(
    source: Seq<char>,
    sample: Seq<char>,
    commit: Option<Seq<char>>,
    pipeline: Option<Seq<char>>,
) -> Seq<char> {
    let foot = "footprint ("@ + source + "): "@ + sample;
    match (non_blank(commit), pipeline) {
        (Some(c), Some(p)) => c + " · "@ + p + " · "@ + foot,
        (Some(c), None) => c + " · "@ + foot,
        (None, Some(p)) => p + " · "@ + foot,
        (None, None) => foot,
    }
}

pub open spec fn run_candidate(r: RunMatch) -> HitView {
    ("run"@, r.run_id@, None, run_detail(opt_view(r.commit_sha), opt_view(r.pipeline_name)))
}

pub open spec fn pipeline_candidate(p: PipelineMatch) -> HitView {
    ("pipeline"@, p.pipeline_id@, Some(p.project_id@), Some(p.pipeline_name@ + " · "@ + p.project_name@))
}

pub open spec fn project_candidate(p: ProjectMatch) -> HitView {
    ("project"@, p.project_id@, None, Some(p.name@))
}

pub open spec fn footprint_candidate(source: Seq<char>, f: FootprintMatch) -> HitView {
    (
        "run"@,
        f.run_id@,
        None,
        Some(footprint_detail(source, f.sample@, opt_view(f.commit_sha), opt_view(f.pipeline_name))),
    )
}

pub open spec fn agent_candidate(a: AgentMatch) -> HitView {
    ("agent"@, a.agent_id@, None, Some(a.name@))
}

/// The hits the search would report, before repeats are dropped: runs, pipelines,
/// projects, runs by binary footprint, runs by egress footprint, agents.
pub open spec fn blast_candidates(m: BlastMatches) -> Seq<HitView> {
    m.runs@.map_values(|r: RunMatch| run_candidate(r)) + m.pipelines@.map_values(
        |p: PipelineMatch| pipeline_candidate(p),
    ) + m.projects@.map_values(|p: ProjectMatch| project_candidate(p))
        + m.binary_footprints@.map_values(|f: FootprintMatch| footprint_candidate("binary"@, f))
        + m.egress_footprints@.map_values(|f: FootprintMatch| footprint_candidate("egress"@, f))
        + m.agents@.map_values(|a: AgentMatch| agent_candidate(a))
}

/// Some hit in `hs` has this kind and id.
pub open spec fn has_key(hs: Seq<HitView>, kind: Seq<char>, id: Seq<char>) -> bool {
    exists|i: int| 0 <= i < hs.len() && (#[trigger] hs[i]).0 == kind && hs[i].1 == id
}

/// The hits of `s` that are the first of their kind and id, in order.
pub open spec fn first_occurrences(s: Seq<HitView>) -> Seq<HitView>
    decreases s.len(),
{
    if s.len() == 0 {
        Seq::empty()
    } else {
        let p = first_occurrences(s.drop_last());
        if has_key(p, s.last().0, s.last().1) {
            p
        } else {
            p.push(s.last())
        }
    }
}

proof fn lemma_hit_views_push(s: Seq<BlastRadiusHit>, x: BlastRadiusHit)
    ensures
        hit_views(s.push(x)) == hit_views(s).push(hit_view(x)),
{
    assert(hit_views(s.push(x)) =~= hit_views(s).push(hit_view(x)));
}

proof fn lemma_map_take_push<A, B>(s: Seq<A>, i: int, f: spec_fn(A) -> B)
    requires
        0 <= i < s.len(),
    ensures
        s.take(i + 1).map_values(f) == s.take(i).map_values(f).push(f(s[i])),
{
    assert(s.take(i + 1).map_values(f) =~= s.take(i).map_values(f).push(f(s[i])));
}

fn non_blank_of(o: &Option<String>) -> (r: Option<String>)
    ensures
        opt_view(r) == non_blank(opt_view(*o)),
{
    match o {
        Some(c) => if trim_str(c.as_str()).is_empty() {
            None
        } else {
            Some(c.clone())
        },
        None => None,
    }
}

fn run_detail_of(commit: &Option<String>, pipeline: &Option<String>) -> (r: Option<String>)
    ensures
        opt_view(r) == run_detail(opt_view(*commit), opt_view(*pipeline)),
{
    match non_blank_of(commit) {
        Some(c) => Some(c),
        None => crate::webhook_payloads::clone_opt(pipeline),
    }
}

fn footprint_detail_of(
    source: &str,
    sample: &str,
    commit: &Option<String>,
    pipeline: &Option<String>,
) -> (r: String)
    ensures
        r@ == footprint_detail(source@, sample@, opt_view(*commit), opt_view(*pipeline)),
{
    let head = concat3("footprint (", source, "): ");
    let foot = concat2(head.as_str(), sample);
    match (non_blank_of(commit), pipeline) {
        (Some(c), Some(p)) => {
            let a = concat3(c.as_str(), " · ", p.as_str());
            concat3(a.as_str(), " · ", foot.as_str())
        },
        (Some(c), None) => concat3(c.as_str(), " · ", foot.as_str()),
        (None, Some(p)) => concat3(p.as_str(), " · ", foot.as_str()),
        (None, None) => foot,
    }
}

fn push_footprint_candidates(out: &mut Vec<BlastRadiusHit>, source: &str, rows: &Vec<FootprintMatch>)
    ensures
        hit_views(final(out)@) == hit_views(old(out)@) + rows@.map_values(
            |f: FootprintMatch| footprint_candidate(source@, f),
        ),
{
    let ghost start = hit_views(out@);
    let mut i: usize = 0;
    while i < rows.len()
        invariant
            i <= rows@.len(),
            hit_views(out@) == start + rows@.take(i as int).map_values(
                |f: FootprintMatch| footprint_candidate(source@, f),
            ),
        decreases rows.len() - i,
    {
        let r = &rows[i];
        let d = footprint_detail_of(source, r.sample.as_str(), &r.commit_sha, &r.pipeline_name);
        let h = BlastRadiusHit { kind: "run", id: r.run_id.clone(), project_id: None, detail: Some(d) };
        proof {
            reveal_strlit("run");
            assert(hit_view(h) == footprint_candidate(source@, rows@[i as int]));
            lemma_hit_views_push(out@, h);
            lemma_map_take_push(rows@, i as int, |f: FootprintMatch| footprint_candidate(source@, f));
        }
        out.push(h);
        i = i + 1;
    }
    assert(rows@.take(rows@.len() as int) =~= rows@);
}

/// Every match as the hit it is reported as, source by source (see [`blast_candidates`]).
pub fn blast_candidate_hits(m: &BlastMatches) -> (r: Vec<BlastRadiusHit>)
    ensures
        hit_views(r@) == blast_candidates(*m),
{
    proof {
        reveal_strlit("run");
        reveal_strlit("pipeline");
        reveal_strlit("project");
        reveal_strlit("agent");
        reveal_strlit("binary");
        reveal_strlit("egress");
    }
    let mut out: Vec<BlastRadiusHit> = Vec::new();
    let mut i: usize = 0;
    while i < m.runs.len()
        invariant
            i <= m.runs@.len(),
            hit_views(out@) == m.runs@.take(i as int).map_values(|r: RunMatch| run_candidate(r)),
        decreases m.runs.len() - i,
    {
        let r = &m.runs[i];
        let d = run_detail_of(&r.commit_sha, &r.pipeline_name);
        let h = BlastRadiusHit { kind: "run", id: r.run_id.clone(), project_id: None, detail: d };
        proof {
            assert(hit_view(h) == run_candidate(m.runs@[i as int]));
            lemma_hit_views_push(out@, h);
            lemma_map_take_push(m.runs@, i as int, |r: RunMatch| run_candidate(r));
        }
        out.push(h);
        i = i + 1;
    }
    assert(m.runs@.take(m.runs@.len() as int) =~= m.runs@);
    let ghost a = hit_views(out@);
    let mut i: usize = 0;
    while i < m.pipelines.len()
        invariant
            i <= m.pipelines@.len(),
            hit_views(out@) == a + m.pipelines@.take(i as int).map_values(
                |p: PipelineMatch| pipeline_candidate(p),
            ),
        decreases m.pipelines.len() - i,
    {
        let p = &m.pipelines[i];
        let d = concat3(p.pipeline_name.as_str(), " · ", p.project_name.as_str());
        let h = BlastRadiusHit {
            kind: "pipeline",
            id: p.pipeline_id.clone(),
            project_id: Some(p.project_id.clone()),
            detail: Some(d),
        };
        proof {
            assert(hit_view(h) == pipeline_candidate(m.pipelines@[i as int]));
            lemma_hit_views_push(out@, h);
            lemma_map_take_push(m.pipelines@, i as int, |p: PipelineMatch| pipeline_candidate(p));
        }
        out.push(h);
        i = i + 1;
    }
    assert(m.pipelines@.take(m.pipelines@.len() as int) =~= m.pipelines@);
    let ghost b = hit_views(out@);
    let mut i: usize = 0;
    while i < m.projects.len()
        invariant
            i <= m.projects@.len(),
            hit_views(out@) == b + m.projects@.take(i as int).map_values(
                |p: ProjectMatch| project_candidate(p),
            ),
        decreases m.projects.len() - i,
    {
        let p = &m.projects[i];
        let h = BlastRadiusHit {
            kind: "project",
            id: p.project_id.clone(),
            project_id: None,
            detail: Some(p.name.clone()),
        };
        proof {
            assert(hit_view(h) == project_candidate(m.projects@[i as int]));
            lemma_hit_views_push(out@, h);
            lemma_map_take_push(m.projects@, i as int, |p: ProjectMatch| project_candidate(p));
        }
        out.push(h);
        i = i + 1;
    }
    assert(m.projects@.take(m.projects@.len() as int) =~= m.projects@);
    push_footprint_candidates(&mut out, "binary", &m.binary_footprints);
    push_footprint_candidates(&mut out, "egress", &m.egress_footprints);
    let ghost c = hit_views(out@);
    let mut i: usize = 0;
    while i < m.agents.len()
        invariant
            i <= m.agents@.len(),
            hit_views(out@) == c + m.agents@.take(i as int).map_values(|x: AgentMatch| agent_candidate(x)),
        decreases m.agents.len() - i,
    {
        let x = &m.agents[i];
        let h = BlastRadiusHit {
            kind: "agent",
            id: x.agent_id.clone(),
            project_id: None,
            detail: Some(x.name.clone()),
        };
        proof {
            assert(hit_view(h) == agent_candidate(m.agents@[i as int]));
            lemma_hit_views_push(out@, h);
            lemma_map_take_push(m.agents@, i as int, |x: AgentMatch| agent_candidate(x));
        }
        out.push(h);
        i = i + 1;
    }
    assert(m.agents@.take(m.agents@.len() as int) =~= m.agents@);
    assert(hit_views(out@) =~= blast_candidates(*m));
    out
}

/// `seen` records the kind and id of each hit, position by position.
pub open spec fn seen_tracks(seen: Seq<(String, String)>, hits: Seq<BlastRadiusHit>) -> bool {
    &&& seen.len() == hits.len()
    &&& forall|j: int|
        0 <= j < seen.len() ==> (#[trigger] seen[j]).0@ == hits[j].kind@ && seen[j].1@ == hits[j].id@
}

proof fn lemma_seen_has_key(
    seen: Seq<(String, String)>,
    hits: Seq<BlastRadiusHit>,
    kind: Seq<char>,
    id: Seq<char>,
)
    requires
        seen_tracks(seen, hits),
    ensures
        seen_has(seen, kind, id) == has_key(hit_views(hits), kind, id),
{
    if seen_has(seen, kind, id) {
        let j = choose|j: int| 0 <= j < seen.len() && #[trigger] seen[j].0@ == kind && seen[j].1@ == id;
        assert(hit_views(hits)[j].0 == kind && hit_views(hits)[j].1 == id);
    }
    if has_key(hit_views(hits), kind, id) {
        let j = choose|j: int|
            0 <= j < hit_views(hits).len() && (#[trigger] hit_views(hits)[j]).0 == kind
                && hit_views(hits)[j].1 == id;
        assert(seen[j].0@ == kind && seen[j].1@ == id);
    }
}

/// The search's hits: every match as the hit it is reported as (see
/// [`blast_candidates`]), keeping only the first hit of each kind and id.
pub fn collect_blast_hits(m: &BlastMatches) -> (r: Vec<BlastRadiusHit>)
    ensures
        hit_views(r@) == first_occurrences(blast_candidates(*m)),
{
    let cands = blast_candidate_hits(m);
    let mut hits: Vec<BlastRadiusHit> = Vec::new();
    let mut seen: Vec<(String, String)> = Vec::new();
    let mut i: usize = 0;
    assert(hit_views(cands@).take(0) =~= Seq::<HitView>::empty());
    assert(hit_views(hits@) =~= Seq::<HitView>::empty());
    while i < cands.len()
        invariant
            i <= cands@.len(),
            hit_views(hits@) == first_occurrences(hit_views(cands@).take(i as int)),
            seen_tracks(seen@, hits@),
        decreases cands.len() - i,
    {
        let c = &cands[i];
        let ghost cv = hit_views(cands@)[i as int];
        let ghost pre = hit_views(cands@).take(i as int);
        let ghost nxt = hit_views(cands@).take(i + 1);
        proof {
            assert(nxt.drop_last() =~= pre);
            assert(nxt.last() == cv);
            assert(cv == hit_view(*c));
            lemma_seen_has_key(seen@, hits@, c.kind@, c.id@);
        }
        let ghost old_hits = hits@;
        let ghost old_seen = seen@;
        push_hit(
            &mut hits,
            &mut seen,
            c.kind,
            c.id.clone(),
            crate::webhook_payloads::clone_opt(&c.project_id),
            crate::webhook_payloads::clone_opt(&c.detail),
        );
        proof {
            if !seen_has(old_seen, cv.0, cv.1) {
                assert(hits@ =~= old_hits.push(hits@.last()));
                lemma_hit_views_push(old_hits, hits@.last());
                assert(hit_view(hits@.last()) == cv);
                assert forall|j: int| 0 <= j < seen@.len() implies (#[trigger] seen@[j]).0@
                    == hits@[j].kind@ && seen@[j].1@ == hits@[j].id@ by {
                    if j < old_seen.len() {
                        assert(seen@[j] == seen@.subrange(0, old_seen.len() as int)[j]);
                        assert(hits@[j] == hits@.subrange(0, old_hits.len() as int)[j]);
                    }
                }
            }
        }
        i = i + 1;
    }
    assert(hit_views(cands@).take(cands@.len() as int) =~= hit_views(cands@));
    hits
}

/// Which rows each blast-radius query reads.
pub enum SearchScope {
    /// All projects of the caller's organization.
    Org,
    /// Only these projects.
    Projects(Vec<String>),
    /// Only these pipelines (within the caller's organization).
    Pipelines(Vec<String>),
    /// Nothing: the caller's allow list is empty, so no query runs.
    Nothing,
}

/// The rows the queries read for a search mode: the whole organization for the full and
/// open modes; the allow list otherwise, and nothing when that list is empty.
pub fn search_scope(mode: &OrgSearchMode) -> (s: SearchScope)
    ensures
        match *mode {
            OrgSearchMode::FullOrg => s is Org,
            OrgSearchMode::OpenOrg => s is Org,
            OrgSearchMode::ProjectAllowList(ids) => if ids@.len() == 0 {
                s is Nothing
            } else {
                s matches SearchScope::Projects(v) && views(v@) == views(ids@)
            },
            OrgSearchMode::PipelineAllowList(ids) => if ids@.len() == 0 {
                s is Nothing
            } else {
                s matches SearchScope::Pipelines(v) && views(v@) == views(ids@)
            },
        },
{
    match mode {
        OrgSearchMode::FullOrg => SearchScope::Org,
        OrgSearchMode::OpenOrg => SearchScope::Org,
        OrgSearchMode::ProjectAllowList(ids) => if ids.len() == 0 {
            SearchScope::Nothing
        } else {
            SearchScope::Projects(copy_strings(ids))
        },
        OrgSearchMode::PipelineAllowList(ids) => if ids.len() == 0 {
            SearchScope::Nothing
        } else {
            SearchScope::Pipelines(copy_strings(ids))
        },
    }
}

} // verus!
