//! Variables handed to a pipeline run started by a webhook.
use vstd::prelude::*;
use crate::text::{owned, str_eq};
use crate::webhook_payloads::{generic_event_fields, non_empty, opt_view, GenericWebhookPayload};

verus! {

/// The variables as a map from name to value (a later pair for a name wins).
pub open spec fn vars_view(v: Seq<(String, String)>) -> Map<Seq<char>, Seq<char>>
    decreases v.len(),
{
    if v.len() == 0 {
        Map::empty()
    } else {
        vars_view(v.drop_last()).insert(v.last().0@, v.last().1@)
    }
}

/// `m` with `k` set to `v` unless `k` already has a value (`entry(k).or_insert(v)`).
pub open spec fn put_absent(m: Map<Seq<char>, Seq<char>>, k: Seq<char>, v: Seq<char>) -> Map<
    Seq<char>,
    Seq<char>,
> {
    if m.dom().contains(k) {
        m
    } else {
        m.insert(k, v)
    }
}

proof fn lemma_vars_dom(v: Seq<(String, String)>, k: Seq<char>)
    ensures
        vars_view(v).dom().contains(k) <==> exists|i: int| 0 <= i < v.len() && (#[trigger] v[i]).0@ == k,
    decreases v.len(),
{
    if v.len() > 0 {
        let p = v.drop_last();
        lemma_vars_dom(p, k);
        if exists|i: int| 0 <= i < p.len() && (#[trigger] p[i]).0@ == k {
            let i = choose|i: int| 0 <= i < p.len() && (#[trigger] p[i]).0@ == k;
            assert(v[i] == p[i]);
        }
        if exists|i: int| 0 <= i < v.len() && (#[trigger] v[i]).0@ == k {
            let i = choose|i: int| 0 <= i < v.len() && (#[trigger] v[i]).0@ == k;
            if i < p.len() {
                assert(p[i] == v[i]);
            }
        }
    }
}

/// Sets `name` to `value` unless the variables already have it.
pub fn insert_var_if_absent(vars: &mut Vec<(String, String)>, name: &str, value: &str)
    ensures
        vars_view(final(vars)@) == put_absent(vars_view(old(vars)@), name@, value@),
{
    let mut i: usize = 0;
    while i < vars.len()
        invariant
            i <= vars@.len(),
            forall|j: int| 0 <= j < i ==> (#[trigger] vars@[j]).0@ != name@,
        decreases vars.len() - i,
    {
        if str_eq(vars[i].0.as_str(), name) {
            proof {
                lemma_vars_dom(vars@, name@);
            }
            return;
        }
        i = i + 1;
    }
    proof {
        lemma_vars_dom(vars@, name@);
    }
    let ghost v0 = vars@;
    vars.push((owned(name), owned(value)));
    assert(vars@.drop_last() =~= v0);
}

/// The variables after a generic webhook body was read: `webhook_branch`, `webhook_commit`
/// and `webhook_ref` from its non-empty fields, and, with `with_event`, `webhook_event`
/// (the non-empty `event`, else `webhook`; also `webhook` when the body did not parse),
/// each set only where the payload mapping did not already set it.
pub open spec fn generic_vars_spec(
    m: Map<Seq<char>, Seq<char>>,
    payload: Option<GenericWebhookPayload>,
    with_event: bool,
) -> Map<Seq<char>, Seq<char>> {
    let m1 = match payload {
        Some(p) => {
            let a = match non_empty(opt_view(p.branch)) {
                Some(b) => put_absent(m, "webhook_branch"@, b),
                None => m,
            };
            let b = match non_empty(opt_view(p.commit)) {
                Some(c) => put_absent(a, "webhook_commit"@, c),
                None => a,
            };
            match non_empty(opt_view(p.ref_name)) {
                Some(r) => put_absent(b, "webhook_ref"@, r),
                None => b,
            }
        },
        None => m,
    };
    if with_event {
        let event = match payload {
            Some(p) => match non_empty(opt_view(p.event)) {
                Some(e) => e,
                None => "webhook"@,
            },
            None => "webhook"@,
        };
        put_absent(m1, "webhook_event"@, event)
    } else {
        m1
    }
}

/// Adds what a generic webhook body says to the run variables mapped from its payload
/// (see [`generic_vars_spec`]); `payload` is `None` when the body is not a generic payload.
pub fn add_generic_webhook_vars(
    vars: &mut Vec<(String, String)>,
    payload: Option<&GenericWebhookPayload>,
    with_event: bool,
)
    ensures
        vars_view(final(vars)@) == generic_vars_spec(
            vars_view(old(vars)@),
            match payload {
                Some(p) => Some(*p),
                None => None,
            },
            with_event,
        ),
{
    let mut event_type = owned("webhook");
    if let Some(p) = payload {
        let f = generic_event_fields(p);
        if let Some(b) = &f.branch {
            insert_var_if_absent(vars, "webhook_branch", b.as_str());
        }
        if let Some(c) = &f.commit_sha {
            insert_var_if_absent(vars, "webhook_commit", c.as_str());
        }
        if let Some(r) = &f.ref_name {
            insert_var_if_absent(vars, "webhook_ref", r.as_str());
        }
        event_type = f.event_type;
    }
    if with_event {
        insert_var_if_absent(vars, "webhook_event", event_type.as_str());
    }
}

} // verus!
