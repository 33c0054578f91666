//! Platform policy for external (provider-reference) stored secret kinds: its defaults,
//! how stored and requested settings are merged into it, and what it allows.
use vstd::prelude::*;
use crate::error::{ApiError, ErrorKind};
use crate::text::{owned, str_eq};

verus! {

/// Settings key of the policy.
pub const STORED_SECRET_EXTERNAL_KINDS_KEY: &'static str = "stored_secret_external_kinds";

/// External provider kinds the policy controls.
pub open spec fn external_kinds() -> Seq<Seq<char>> {
    seq!["aws_sm"@, "vault"@, "gcp_sm"@, "azure_kv"@, "kubernetes"@]
}

/// The policy when nothing is stored: every external kind enabled, one entry per kind.
pub fn default_external_kind_policy() -> (m: Vec<(String, bool)>)
    ensures
        m@.map_values(|e: (String, bool)| (e.0@, e.1)) == external_kinds().map_values(
            |k: Seq<char>| (k, true),
        ),
{
    let mut m: Vec<(String, bool)> = Vec::new();
    m.push((owned("aws_sm"), true));
    m.push((owned("vault"), true));
    m.push((owned("gcp_sm"), true));
    m.push((owned("azure_kv"), true));
    m.push((owned("kubernetes"), true));
    assert(m@.map_values(|e: (String, bool)| (e.0@, e.1)) =~= external_kinds().map_values(
        |k: Seq<char>| (k, true),
    ));
    m
}

/// The setting of the first entry named `k`.
pub open spec fn policy_lookup(policy: Seq<(String, bool)>, k: Seq<char>) -> Option<bool>
    decreases policy.len(),
{
    if policy.len() == 0 {
        None
    } else if policy[0].0@ == k {
        Some(policy[0].1)
    } else {
        policy_lookup(policy.subrange(1, policy.len() as int), k)
    }
}

proof fn lemma_lookup_skip(policy: Seq<(String, bool)>, k: Seq<char>, i: int)
    requires
        0 <= i <= policy.len(),
        forall|j: int| 0 <= j < i ==> (#[trigger] policy[j]).0@ != k,
    ensures
        policy_lookup(policy, k) == policy_lookup(policy.subrange(i, policy.len() as int), k),
    decreases i,
{
    if i > 0 {
        let t = policy.subrange(1, policy.len() as int);
        assert forall|j: int| 0 <= j < i - 1 implies (#[trigger] t[j]).0@ != k by {
            assert(t[j] == policy[j + 1]);
        }
        lemma_lookup_skip(t, k, i - 1);
        assert(t.subrange(i - 1, t.len() as int) =~= policy.subrange(i, policy.len() as int));
    } else {
        assert(policy.subrange(0, policy.len() as int) =~= policy);
    }
}

/// Whether a stored secret kind may be used: kinds that keep no remote reference always
/// may; external kinds follow the policy entry for their name, enabled when absent.
pub fn is_external_kind_allowed(
    policy: &Vec<(String, bool)>,
    stores_remote_ref: bool,
    kind_name: &str,
) -> (r: bool)
    ensures
        r == (!stores_remote_ref || match policy_lookup(policy@, kind_name@) {
            Some(b) => b,
            None => true,
        }),
{
    if !stores_remote_ref {
        return true;
    }
    let mut i: usize = 0;
    while i < policy.len()
        invariant
            stores_remote_ref,
            i <= policy@.len(),
            forall|j: int| 0 <= j < i ==> (#[trigger] policy@[j]).0@ != kind_name@,
        decreases policy.len() - i,
    {
        if crate::text::str_eq(policy[i].0.as_str(), kind_name) {
            proof {
                lemma_lookup_skip(policy@, kind_name@, i as int);
                let t = policy@.subrange(i as int, policy@.len() as int);
                assert(t[0] == policy@[i as int]);
                assert(policy_lookup(t, kind_name@) == Some(t[0].1));
            }
            let b = policy[i].1;
            assert(b == policy@[i as int].1);
            return b;
        }
        i = i + 1;
    }
    proof {
        lemma_lookup_skip(policy@, kind_name@, i as int);
    }
    true
}

/// Sets the entry of kind `k` to `v`: the first entry named `k` is changed, or an entry is
/// added when there is none.
pub fn policy_set(policy: &mut Vec<(String, bool)>, k: &str, v: bool)
    ensures
        forall|x: Seq<char>|
            #[trigger] policy_lookup(final(policy)@, x) == if x == k@ {
                Some(v)
            } else {
                policy_lookup(old(policy)@, x)
            },
{
    let ghost p0 = policy@;
    let mut i: usize = 0;
    while i < policy.len()
        invariant
            policy@ == p0,
            p0 == old(policy)@,
            i <= p0.len(),
            forall|j: int| 0 <= j < i ==> (#[trigger] p0[j]).0@ != k@,
        decreases policy.len() - i,
    {
        if str_eq(policy[i].0.as_str(), k) {
            let name = policy[i].0.clone();
            let ghost e = (name, v);
            policy.set(i, (name, v));
            proof {
                assert(policy@ == p0.update(i as int, e));
                assert forall|x: Seq<char>|
                    #[trigger] policy_lookup(policy@, x) == if x == k@ {
                        Some(v)
                    } else {
                        policy_lookup(p0, x)
                    } by {
                    lemma_lookup_update(p0, i as int, e, x);
                }
            }
            return;
        }
        i = i + 1;
    }
    policy.push((owned(k), v));
    proof {
        assert forall|x: Seq<char>|
            #[trigger] policy_lookup(policy@, x) == if x == k@ {
                Some(v)
            } else {
                policy_lookup(p0, x)
            } by {
            lemma_lookup_push(p0, policy@.last(), x);
            assert(policy@ =~= p0.push(policy@.last()));
            if x == k@ {
                lemma_lookup_skip(p0, x, p0.len() as int);
                assert(p0.subrange(p0.len() as int, p0.len() as int) =~= Seq::<(String, bool)>::empty());
            }
        }
    }
}

proof fn lemma_lookup_update(p: Seq<(String, bool)>, i: int, e: (String, bool), x: Seq<char>)
    requires
        0 <= i < p.len(),
        p[i].0@ == e.0@,
        forall|j: int| 0 <= j < i ==> (#[trigger] p[j]).0@ != e.0@,
    ensures
        policy_lookup(p.update(i, e), x) == if x == e.0@ {
            Some(e.1)
        } else {
            policy_lookup(p, x)
        },
    decreases i,
{
    let q = p.update(i, e);
    if i == 0 {
        assert(q[0] == e);
        assert(q.subrange(1, q.len() as int) =~= p.subrange(1, p.len() as int));
    } else {
        let t = p.subrange(1, p.len() as int);
        assert forall|j: int| 0 <= j < i - 1 implies (#[trigger] t[j]).0@ != e.0@ by {
            assert(t[j] == p[j + 1]);
        }
        lemma_lookup_update(t, i - 1, e, x);
        assert(q.subrange(1, q.len() as int) =~= t.update(i - 1, e));
        assert(q[0] == p[0]);
        assert(p[0].0@ != e.0@);
    }
}

proof fn lemma_lookup_push(p: Seq<(String, bool)>, e: (String, bool), x: Seq<char>)
    ensures
        policy_lookup(p.push(e), x) == match policy_lookup(p, x) {
            Some(b) => Some(b),
            None => if e.0@ == x {
                Some(e.1)
            } else {
                None
            },
        },
    decreases p.len(),
{
    let q = p.push(e);
    if p.len() > 0 {
        assert(q[0] == p[0]);
        assert(q.subrange(1, q.len() as int) =~= p.subrange(1, p.len() as int).push(e));
        lemma_lookup_push(p.subrange(1, p.len() as int), e, x);
        if p[0].0@ != x {
            assert(policy_lookup(q, x) == policy_lookup(q.subrange(1, q.len() as int), x));
            assert(policy_lookup(p, x) == policy_lookup(p.subrange(1, p.len() as int), x));
        }
    } else {
        assert(q[0] == e);
        assert(q.subrange(1, q.len() as int) =~= Seq::<(String, bool)>::empty());
        assert(policy_lookup(Seq::<(String, bool)>::empty(), x) is None);
        assert(policy_lookup(p, x) is None);
    }
}

/// The setting of kind `x` once `overrides` are applied to `policy` in order (a later
/// override of a kind wins).
pub open spec fn merged_lookup(
    policy: Seq<(String, bool)>,
    overrides: Seq<(String, bool)>,
    x: Seq<char>,
) -> Option<bool>
    decreases overrides.len(),
{
    if overrides.len() == 0 {
        policy_lookup(policy, x)
    } else if overrides.last().0@ == x {
        Some(overrides.last().1)
    } else {
        merged_lookup(policy, overrides.drop_last(), x)
    }
}

/// Applies `overrides` (settings read from storage, or requested) to `policy`.
pub fn merge_external_kind_policy(policy: Vec<(String, bool)>, overrides: &Vec<(String, bool)>) -> (r:
    Vec<(String, bool)>)
    ensures
        forall|x: Seq<char>| #[trigger] policy_lookup(r@, x) == merged_lookup(policy@, overrides@, x),
{
    let ghost p0 = policy@;
    let mut r = policy;
    let mut i: usize = 0;
    while i < overrides.len()
        invariant
            i <= overrides@.len(),
            forall|x: Seq<char>|
                #[trigger] policy_lookup(r@, x) == merged_lookup(p0, overrides@.take(i as int), x),
        decreases overrides.len() - i,
    {
        let ghost before = r@;
        policy_set(&mut r, overrides[i].0.as_str(), overrides[i].1);
        proof {
            assert(overrides@.take(i + 1).drop_last() =~= overrides@.take(i as int));
            assert(overrides@.take(i + 1).last() == overrides@[i as int]);
        }
        i = i + 1;
    }
    proof {
        assert(overrides@.take(overrides@.len() as int) =~= overrides@);
    }
    r
}

/// Changing platform settings needs a super administrator (`super_admin` is that answer).
pub fn require_super_admin(super_admin: bool) -> (r: Result<(), ApiError>)
    ensures
        r is Ok <==> super_admin,
        r matches Err(e) ==> e.is(ErrorKind::Forbidden, "requires super_admin"@),
{
    if !super_admin {
        return Err(ApiError::forbidden("requires super_admin"));
    }
    Ok(())
}

} // verus!
