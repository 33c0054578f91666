//! Build agents: which agents an agent listing keeps, and what draining and resuming an
//! agent do.
use vstd::prelude::*;
use crate::error::{ApiError, ErrorKind};
use crate::text::{
    concat3, split_char, split_on, str_eq, to_lowercase, trim, trim_str, unicode_lowercase, views,
};
use crate::webhook_payloads::opt_view;
use crate::webhooks::{contains_string, contains_view};

verus! {

/// What an agent listing reads of one agent.
pub struct AgentFacts {
    /// The agent's status as its name is written (`Online`, `Busy`, `Draining`, ...).
    pub status: String,
    pub pool: Option<String>,
    pub tags: Vec<String>,
}

/// The filters of an agent listing.
pub struct AgentQuery {
    /// Status name, compared ignoring letter case.
    pub status: Option<String>,
    /// Pool the agent must be in.
    pub pool: Option<String>,
    /// Comma-separated tags, each of which (trimmed) the agent must carry.
    pub tags: Option<String>,
}

/// Every comma-separated piece of `tags`, trimmed, is one of the agent's tags.
pub open spec fn has_all_tags(agent_tags: Seq<String>, tags: Seq<char>) -> bool {
    forall|i: int|
        0 <= i < split_on(tags, ',').len() ==> contains_view(
            agent_tags,
            trim(#[trigger] split_on(tags, ',')[i]),
        )
}

/// The agent passes every filter that is set.
pub open spec fn agent_matches(a: AgentFacts, q: AgentQuery) -> bool {
    &&& match q.status {
        Some(s) => unicode_lowercase(a.status@) == unicode_lowercase(s@),
        None => true,
    }
    &&& match q.pool {
        Some(p) => opt_view(a.pool) == Some(p@),
        None => true,
    }
    &&& match q.tags {
        Some(t) => has_all_tags(a.tags@, t@),
        None => true,
    }
}

fn has_all_tags_exec(agent_tags: &Vec<String>, tags: &str) -> (r: bool)
    ensures
        r == has_all_tags(agent_tags@, tags@),
{
    let pieces = split_char(tags, ',');
    let mut i: usize = 0;
    while i < pieces.len()
        invariant
            i <= pieces@.len(),
            views(pieces@) == split_on(tags@, ','),
            forall|j: int|
                0 <= j < i ==> contains_view(agent_tags@, trim(#[trigger] views(pieces@)[j])),
        decreases pieces.len() - i,
    {
        assert(views(pieces@)[i as int] == pieces@[i as int]@);
        let t = trim_str(pieces[i].as_str());
        if !contains_string(agent_tags, t) {
            assert(!contains_view(agent_tags@, trim(split_on(tags@, ',')[i as int])));
            return false;
        }
        i = i + 1;
    }
    true
}

/// Whether the agent passes the listing's filters.
pub fn agent_matches_query(a: &AgentFacts, q: &AgentQuery) -> (r: bool)
    ensures
        r == agent_matches(*a, *q),
{
    if let Some(s) = &q.status {
        let have = to_lowercase(a.status.as_str());
        let want = to_lowercase(s.as_str());
        if !str_eq(have.as_str(), want.as_str()) {
            return false;
        }
    }
    if let Some(p) = &q.pool {
        match &a.pool {
            Some(ap) => {
                if !str_eq(ap.as_str(), p.as_str()) {
                    return false;
                }
            },
            None => {
                return false;
            },
        }
    }
    if let Some(t) = &q.tags {
        if !has_all_tags_exec(&a.tags, t.as_str()) {
            return false;
        }
    }
    true
}

/// Positions, in order, of the agents among the first `n` that pass the filters.
pub open spec fn matching_positions(agents: Seq<AgentFacts>, q: AgentQuery, n: int) -> Seq<usize>
    decreases n,
{
    if n <= 0 {
        Seq::empty()
    } else if agent_matches(agents[n - 1], q) {
        matching_positions(agents, q, n - 1).push((n - 1) as usize)
    } else {
        matching_positions(agents, q, n - 1)
    }
}

/// The positions of the listed agents that pass the filters, in listing order.
pub fn filter_agents(agents: &Vec<AgentFacts>, q: &AgentQuery) -> (r: Vec<usize>)
    ensures
        r@ == matching_positions(agents@, *q, agents@.len() as int),
{
    let mut r: Vec<usize> = Vec::new();
    let mut i: usize = 0;
    while i < agents.len()
        invariant
            i <= agents@.len(),
            r@ == matching_positions(agents@, *q, i as int),
        decreases agents.len() - i,
    {
        if agent_matches_query(&agents[i], q) {
            r.push(i);
        }
        i = i + 1;
    }
    r
}

/// What draining an agent does.
pub struct DrainOutcome {
    /// Whether the agent's status is to be set to draining (it is not draining yet).
    pub set_draining: bool,
    /// The message answered.
    pub message: &'static str,
}

/// Draining an agent that already drains changes nothing.
pub fn drain_outcome(already_draining: bool) -> (o: DrainOutcome)
    ensures
        o.set_draining == !already_draining,
        o.message@ == (if already_draining {
            "Agent is already draining"@
        } else {
            "Agent will stop accepting new jobs"@
        }),
{
    if already_draining {
        DrainOutcome { set_draining: false, message: "Agent is already draining" }
    } else {
        DrainOutcome { set_draining: true, message: "Agent will stop accepting new jobs" }
    }
}

/// The status a resumed agent gets.
#[derive(Debug, Clone, Copy, PartialEq, Eq, Structural)]
pub enum ResumedStatus {
    /// It still runs jobs.
    Busy,
    Online,
}

/// Only a draining agent can be resumed; it becomes busy while it still runs jobs, else
/// online. `status` is the current status's name, shown in the refusal.
pub fn resume_outcome(agent_id: &str, draining: bool, status: &str, running_jobs: i32) -> (r:
    Result<ResumedStatus, ApiError>)
    ensures
        !draining ==> (r matches Err(e) && e.is(
            ErrorKind::Conflict,
            "Agent "@ + agent_id@ + " is not draining (current status: "@ + status@ + ")"@,
        )),
        draining ==> r == Ok::<ResumedStatus, ApiError>(
            if running_jobs > 0 {
                ResumedStatus::Busy
            } else {
                ResumedStatus::Online
            },
        ),
{
    if !draining {
        let head = concat3("Agent ", agent_id, " is not draining (current status: ");
        let msg = concat3(head.as_str(), status, ")");
        return Err(ApiError::new(ErrorKind::Conflict, msg));
    }
    if running_jobs > 0 {
        Ok(ResumedStatus::Busy)
    } else {
        Ok(ResumedStatus::Online)
    }
}

/// Status name answered for a resumed agent.
pub fn resumed_status_name(s: ResumedStatus) -> (n: &'static str)
    ensures
        n@ == (match s {
            ResumedStatus::Busy => "busy"@,
            ResumedStatus::Online => "online"@,
        }),
{
    match s {
        ResumedStatus::Busy => "busy",
        ResumedStatus::Online => "online",
    }
}

} // verus!
