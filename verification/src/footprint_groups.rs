//! The filesystem view of a run footprint: executed binaries grouped by parent directory,
//! one entry per distinct (path, digest), with execution counts summed and the job steps
//! that ran each binary.
use vstd::prelude::*;
use crate::footprint::{
    footprint_job_step_label, format_footprint_parent_dir, job_step_label, parent_dir_spec,
    FootprintBinaryRow, FootprintDirectoryEntry, FootprintDirectoryGroup,
};
use crate::ordering::{
    insert_sorted_unique, lemma_lt_asymmetric, lemma_lt_irreflexive, lemma_lt_total,
    lemma_lt_transitive, seq_lt, str_lt, strictly_sorted,
};
use crate::text::{str_eq, views};
use crate::webhook_payloads::opt_view;

verus! {

/// Directory groups shown for one run.
pub const FOOTPRINT_MAX_DIRS: usize = 120;

/// Entries shown per directory group.
pub const FOOTPRINT_MAX_ENTRIES_PER_DIR: usize = 48;

// ---------------------------------------------------------------------------
// What the grouping is computed from
// ---------------------------------------------------------------------------

/// Directory a row is grouped under.
pub open spec fn row_dir(b: FootprintBinaryRow) -> Seq<char> {
    parent_dir_spec(b.binary_path@)
}

/// A row's entry key: its path and digest.
pub open spec fn row_key(b: FootprintBinaryRow) -> (Seq<char>, Seq<char>) {
    (b.binary_path@, b.sha256@)
}

/// The job step a row ran in, as labelled in the footprint.
pub open spec fn row_label(b: FootprintBinaryRow) -> Seq<char> {
    job_step_label(b.job_name@, opt_view(b.step_name))
}

/// Directories that hold at least one of the rows.
pub open spec fn dir_set(bs: Seq<FootprintBinaryRow>) -> Set<Seq<char>>
    decreases bs.len(),
{
    if bs.len() == 0 {
        Set::empty()
    } else {
        dir_set(bs.drop_last()).insert(row_dir(bs.last()))
    }
}

/// Distinct entry keys of the rows grouped under directory `d`.
pub open spec fn dir_keys(bs: Seq<FootprintBinaryRow>, d: Seq<char>) -> Set<(Seq<char>, Seq<char>)>
    decreases bs.len(),
{
    if bs.len() == 0 {
        Set::empty()
    } else if row_dir(bs.last()) == d {
        dir_keys(bs.drop_last(), d).insert(row_key(bs.last()))
    } else {
        dir_keys(bs.drop_last(), d)
    }
}

/// Sum of the execution counts of the rows with key `k`.
pub open spec fn key_total(bs: Seq<FootprintBinaryRow>, k: (Seq<char>, Seq<char>)) -> int
    decreases bs.len(),
{
    if bs.len() == 0 {
        0
    } else if row_key(bs.last()) == k {
        key_total(bs.drop_last(), k) + bs.last().execution_count
    } else {
        key_total(bs.drop_last(), k)
    }
}

/// Labels (other than `—`) of the job steps that ran the rows with key `k`.
pub open spec fn key_labels(bs: Seq<FootprintBinaryRow>, k: (Seq<char>, Seq<char>)) -> Set<Seq<char>>
    decreases bs.len(),
{
    if bs.len() == 0 {
        Set::empty()
    } else if row_key(bs.last()) == k && row_label(bs.last()) != "—"@ {
        key_labels(bs.drop_last(), k).insert(row_label(bs.last()))
    } else {
        key_labels(bs.drop_last(), k)
    }
}

/// Running total of the key of row `i` after rows `0..=i`: the sums that are computed.
pub open spec fn running_total(bs: Seq<FootprintBinaryRow>, i: int) -> int {
    key_total(bs.take(i + 1), row_key(bs[i]))
}

/// Every running total fits in an `i64`.
pub open spec fn totals_fit(bs: Seq<FootprintBinaryRow>) -> bool {
    forall|i: int| 0 <= i < bs.len() ==> i64::MIN <= #[trigger] running_total(bs, i) <= i64::MAX
}

// ---------------------------------------------------------------------------
// Order of entry keys
// ---------------------------------------------------------------------------

/// Order of entry keys: by path, then by digest.
pub open spec fn pair_lt(a: (Seq<char>, Seq<char>), b: (Seq<char>, Seq<char>)) -> bool {
    seq_lt(a.0, b.0) || (a.0 == b.0 && seq_lt(a.1, b.1))
}

pub open spec fn pairs_sorted(s: Seq<(Seq<char>, Seq<char>)>) -> bool {
    forall|i: int, j: int| 0 <= i < j < s.len() ==> pair_lt(#[trigger] s[i], #[trigger] s[j])
}

pub proof fn lemma_pair_lt_facts(a: (Seq<char>, Seq<char>), b: (Seq<char>, Seq<char>))
    ensures
        !pair_lt(a, a),
        pair_lt(a, b) ==> !pair_lt(b, a),
        a != b ==> pair_lt(a, b) || pair_lt(b, a),
{
    lemma_lt_irreflexive(a.0);
    lemma_lt_irreflexive(a.1);
    lemma_lt_asymmetric(a.0, b.0);
    lemma_lt_asymmetric(a.1, b.1);
    lemma_lt_total(a.0, b.0);
    lemma_lt_total(a.1, b.1);
}

pub proof fn lemma_pair_lt_transitive(
    a: (Seq<char>, Seq<char>),
    b: (Seq<char>, Seq<char>),
    c: (Seq<char>, Seq<char>),
)
    requires
        pair_lt(a, b),
        pair_lt(b, c),
    ensures
        pair_lt(a, c),
{
    lemma_lt_irreflexive(a.0);
    lemma_lt_irreflexive(b.0);
    if seq_lt(a.0, b.0) && seq_lt(b.0, c.0) {
        lemma_lt_transitive(a.0, b.0, c.0);
    }
    if a.0 == b.0 && b.0 == c.0 {
        lemma_lt_transitive(a.1, b.1, c.1);
    }
}

// ---------------------------------------------------------------------------
// Facts about the sets
// ---------------------------------------------------------------------------

proof fn lemma_dir_keys_parent(bs: Seq<FootprintBinaryRow>, d: Seq<char>, k: (Seq<char>, Seq<char>))
    requires
        dir_keys(bs, d).contains(k),
    ensures
        parent_dir_spec(k.0) == d,
    decreases bs.len(),
{
    if bs.len() > 0 && !(row_dir(bs.last()) == d && row_key(bs.last()) == k) {
        lemma_dir_keys_parent(bs.drop_last(), d, k);
    }
}

proof fn lemma_absent_key(bs: Seq<FootprintBinaryRow>, k: (Seq<char>, Seq<char>))
    requires
        !dir_keys(bs, parent_dir_spec(k.0)).contains(k),
    ensures
        key_total(bs, k) == 0,
        key_labels(bs, k) == Set::<Seq<char>>::empty(),
    decreases bs.len(),
{
    if bs.len() > 0 {
        let p = bs.drop_last();
        if row_dir(bs.last()) == parent_dir_spec(k.0) {
            assert(!dir_keys(p, parent_dir_spec(k.0)).contains(k));
        }
        lemma_absent_key(p, k);
    }
}

proof fn lemma_absent_dir(bs: Seq<FootprintBinaryRow>, d: Seq<char>)
    requires
        !dir_set(bs).contains(d),
    ensures
        dir_keys(bs, d) == Set::<(Seq<char>, Seq<char>)>::empty(),
    decreases bs.len(),
{
    if bs.len() > 0 {
        lemma_absent_dir(bs.drop_last(), d);
    }
}

// ---------------------------------------------------------------------------
// Accumulation
// ---------------------------------------------------------------------------

/// An entry being accumulated.
struct Ent {
    path: String,
    sha: String,
    count: i64,
    jobs: Vec<String>,
}

spec fn ent_key(e: Ent) -> (Seq<char>, Seq<char>) {
    (e.path@, e.sha@)
}

spec fn ent_keys(es: Seq<Ent>) -> Seq<(Seq<char>, Seq<char>)> {
    es.map_values(|e: Ent| ent_key(e))
}

/// The entry holds the total and the labels of its key over `p`.
spec fn ent_ok(e: Ent, p: Seq<FootprintBinaryRow>) -> bool {
    &&& e.count == key_total(p, ent_key(e))
    &&& strictly_sorted(views(e.jobs@))
    &&& views(e.jobs@).to_set() == key_labels(p, ent_key(e))
}

/// The entries of directory `d` over `p`: one per key, in key order.
spec fn ents_ok(es: Seq<Ent>, p: Seq<FootprintBinaryRow>, d: Seq<char>) -> bool {
    &&& pairs_sorted(ent_keys(es))
    &&& ent_keys(es).to_set() == dir_keys(p, d)
    &&& forall|i: int| 0 <= i < es.len() ==> ent_ok(#[trigger] es[i], p)
}

proof fn lemma_push_facts(p: Seq<FootprintBinaryRow>, b: FootprintBinaryRow)
    ensures
        dir_set(p.push(b)) == dir_set(p).insert(row_dir(b)),
        forall|d: Seq<char>|
            #[trigger] dir_keys(p.push(b), d) == if row_dir(b) == d {
                dir_keys(p, d).insert(row_key(b))
            } else {
                dir_keys(p, d)
            },
        forall|k: (Seq<char>, Seq<char>)|
            #[trigger] key_total(p.push(b), k) == key_total(p, k) + if row_key(b) == k {
                b.execution_count as int
            } else {
                0
            },
        forall|k: (Seq<char>, Seq<char>)|
            #[trigger] key_labels(p.push(b), k) == if row_key(b) == k && row_label(b) != "—"@ {
                key_labels(p, k).insert(row_label(b))
            } else {
                key_labels(p, k)
            },
{
    assert(p.push(b).drop_last() =~= p);
    assert(p.push(b).last() == b);
}

fn key_before(e: &Ent, path: &str, sha: &str) -> (r: bool)
    ensures
        r == pair_lt(ent_key(*e), (path@, sha@)),
{
    str_lt(e.path.as_str(), path) || (str_eq(e.path.as_str(), path) && str_lt(e.sha.as_str(), sha))
}

/// Adds row `b` to the entries of its directory.
fn add_row(es: &mut Vec<Ent>, b: &FootprintBinaryRow, label: &String, Ghost(p): Ghost<
    Seq<FootprintBinaryRow>,
>)
    requires
        ents_ok(old(es)@, p, row_dir(*b)),
        label@ == row_label(*b),
        i64::MIN <= key_total(p.push(*b), row_key(*b)) <= i64::MAX,
    ensures
        ents_ok(final(es)@, p.push(*b), row_dir(*b)),
{
    let ghost d = row_dir(*b);
    let ghost k = row_key(*b);
    let ghost q = p.push(*b);
    let ghost s0 = es@;
    proof {
        lemma_push_facts(p, *b);
        reveal_strlit("—");
    }
    let mut j: usize = 0;
    while j < es.len() && key_before(&es[j], b.binary_path.as_str(), b.sha256.as_str())
        invariant
            j <= es@.len(),
            es@ == s0,
            pairs_sorted(ent_keys(s0)),
            forall|m: int| 0 <= m < j ==> pair_lt(#[trigger] ent_keys(s0)[m], k),
            k == (b.binary_path@, b.sha256@),
        decreases es.len() - j,
    {
        assert(ent_keys(s0)[j as int] == ent_key(s0[j as int]));
        j = j + 1;
    }
    let found = j < es.len() && str_eq(es[j].path.as_str(), b.binary_path.as_str()) && str_eq(
        es[j].sha.as_str(),
        b.sha256.as_str(),
    );
    // Entries other than the one for `k` keep their totals and labels.
    assert forall|m: int| 0 <= m < s0.len() && ent_key(s0[m]) != k implies ent_ok(
        #[trigger] s0[m],
        q,
    ) by {
        assert(ent_ok(s0[m], p));
    }
    if found {
        let mut e = es.remove(j);
        assert(ent_key(e) == k);
        assert(ent_ok(e, p));
        e.count = e.count + b.execution_count;
        if !str_eq(label.as_str(), "—") {
            insert_sorted_unique(&mut e.jobs, label.clone());
        }
        assert(ent_ok(e, q));
        es.insert(j, e);
        proof {
            let s1 = es@;
            assert(s1 =~= s0.update(j as int, e));
            assert(ent_keys(s1) =~= ent_keys(s0));
            assert(ent_keys(s0)[j as int] == k);
            assert(ent_keys(s0).to_set().contains(k));
            assert(dir_keys(q, d) =~= dir_keys(p, d));
            assert forall|m: int| 0 <= m < s1.len() implies ent_ok(#[trigger] s1[m], q) by {
                if m != j {
                    assert(s1[m] == s0[m]);
                    assert(ent_keys(s0)[m] == ent_key(s0[m]));
                    lemma_pair_lt_facts(ent_keys(s0)[m], k);
                }
            }
        }
    } else {
        proof {
            // `k` is new for `d`, so nothing in `p` carries it.
            if ent_keys(s0).to_set().contains(k) {
                let m = choose|m: int| 0 <= m < ent_keys(s0).len() && ent_keys(s0)[m] == k;
                if m < j {
                    lemma_pair_lt_facts(k, k);
                } else if m > j {
                    let kj = ent_keys(s0)[j as int];
                    assert(kj == ent_key(s0[j as int]));
                    assert(!pair_lt(kj, k));
                    assert(kj != k);
                    lemma_pair_lt_facts(kj, k);
                    assert(pair_lt(kj, k));
                } else {
                    assert(ent_keys(s0)[j as int] == ent_key(s0[j as int]));
                }
            }
            assert(!dir_keys(p, d).contains(k));
            lemma_absent_key(p, k);
        }
        let mut jobs: Vec<String> = Vec::new();
        if !str_eq(label.as_str(), "—") {
            jobs.push(label.clone());
        }
        let e = Ent {
            path: b.binary_path.clone(),
            sha: b.sha256.clone(),
            count: b.execution_count,
            jobs,
        };
        proof {
            let v = views(e.jobs@);
            if label@ != "—"@ {
                assert(v =~= seq![label@]);
                assert forall|x: Seq<char>| v.to_set().contains(x) <==> key_labels(q, k).contains(x) by {
                    if x == label@ {
                        assert(v[0] == x);
                    }
                }
            } else {
                assert(v =~= Seq::<Seq<char>>::empty());
            }
            assert(v.to_set() =~= key_labels(q, k));
        }
        assert(ent_ok(e, q));
        es.insert(j, e);
        proof {
            let s1 = es@;
            let k0 = ent_keys(s0);
            let k1 = ent_keys(s1);
            assert(s1 =~= s0.insert(j as int, e));
            assert(k1 =~= k0.insert(j as int, k));
            if j < s0.len() {
                let kj = k0[j as int];
                assert(kj == ent_key(s0[j as int]));
                assert(!pair_lt(kj, k));
                lemma_pair_lt_facts(kj, k);
                assert forall|m: int| j < m < k0.len() implies pair_lt(k, #[trigger] k0[m]) by {
                    lemma_pair_lt_transitive(k, kj, k0[m]);
                }
            }
            assert forall|a: int, c: int| 0 <= a < c < k1.len() implies pair_lt(
                #[trigger] k1[a],
                #[trigger] k1[c],
            ) by {
                if a < j && c < j {
                    assert(k1[a] == k0[a] && k1[c] == k0[c]);
                } else if a < j && c == j {
                    assert(k1[a] == k0[a]);
                } else if a < j {
                    assert(k1[a] == k0[a] && k1[c] == k0[c - 1]);
                } else if a == j {
                    assert(k1[c] == k0[c - 1]);
                } else {
                    assert(k1[a] == k0[a - 1] && k1[c] == k0[c - 1]);
                }
            }
            assert(k1.to_set() =~= k0.to_set().insert(k)) by {
                assert forall|x: (Seq<char>, Seq<char>)| k1.to_set().contains(x) implies k0.to_set().insert(
                    k,
                ).contains(x) by {
                    let m = choose|m: int| 0 <= m < k1.len() && k1[m] == x;
                    if m < j {
                        assert(k0[m] == x);
                    } else if m > j {
                        assert(k0[m - 1] == x);
                    }
                }
                assert forall|x: (Seq<char>, Seq<char>)| k0.to_set().insert(k).contains(x) implies k1.to_set().contains(
                    x,
                ) by {
                    if x == k {
                        assert(k1[j as int] == x);
                    } else {
                        let m = choose|m: int| 0 <= m < k0.len() && k0[m] == x;
                        if m < j {
                            assert(k1[m] == x);
                        } else {
                            assert(k1[m + 1] == x);
                        }
                    }
                }
            }
            assert forall|m: int| 0 <= m < s1.len() implies ent_ok(#[trigger] s1[m], q) by {
                if m < j {
                    assert(s1[m] == s0[m]);
                    assert(k0[m] == ent_key(s0[m]));
                    lemma_pair_lt_facts(k0[m], k);
                } else if m > j {
                    assert(s1[m] == s0[m - 1]);
                    assert(k0[m - 1] == ent_key(s0[m - 1]));
                    if ent_key(s0[m - 1]) == k {
                        assert(k0.to_set().contains(k));
                    }
                }
            }
        }
    }
}

/// A directory group being accumulated.
struct Grp {
    dir: String,
    entries: Vec<Ent>,
}

spec fn grp_dirs(gs: Seq<Grp>) -> Seq<Seq<char>> {
    gs.map_values(|g: Grp| g.dir@)
}

/// The groups over `p`: one per directory, in directory order, each with its entries.
spec fn grps_ok(gs: Seq<Grp>, p: Seq<FootprintBinaryRow>) -> bool {
    &&& strictly_sorted(grp_dirs(gs))
    &&& grp_dirs(gs).to_set() == dir_set(p)
    &&& forall|i: int| 0 <= i < gs.len() ==> ents_ok((#[trigger] gs[i]).entries@, p, gs[i].dir@)
}

proof fn lemma_other_dir(es: Seq<Ent>, p: Seq<FootprintBinaryRow>, d: Seq<char>, b: FootprintBinaryRow)
    requires
        ents_ok(es, p, d),
        d != row_dir(b),
    ensures
        ents_ok(es, p.push(b), d),
{
    lemma_push_facts(p, b);
    assert forall|i: int| 0 <= i < es.len() implies ent_ok(#[trigger] es[i], p.push(b)) by {
        assert(ent_ok(es[i], p));
        assert(ent_keys(es)[i] == ent_key(es[i]));
        assert(ent_keys(es).to_set().contains(ent_key(es[i])));
        lemma_dir_keys_parent(p, d, ent_key(es[i]));
    }
}

/// Adds row `b` to the groups.
fn add_to_groups(gs: &mut Vec<Grp>, b: &FootprintBinaryRow, Ghost(p): Ghost<Seq<FootprintBinaryRow>>)
    requires
        grps_ok(old(gs)@, p),
        i64::MIN <= key_total(p.push(*b), row_key(*b)) <= i64::MAX,
    ensures
        grps_ok(final(gs)@, p.push(*b)),
{
    let ghost q = p.push(*b);
    let ghost s0 = gs@;
    proof {
        lemma_push_facts(p, *b);
    }
    let dir = format_footprint_parent_dir(b.binary_path.as_str());
    let step: Option<&str> = match &b.step_name {
        Some(st) => Some(st.as_str()),
        None => None,
    };
    let label = footprint_job_step_label(b.job_name.as_str(), step);
    let ghost d = dir@;
    assert(d == row_dir(*b));
    let mut j: usize = 0;
    while j < gs.len() && str_lt(gs[j].dir.as_str(), dir.as_str())
        invariant
            j <= gs@.len(),
            gs@ == s0,
            strictly_sorted(grp_dirs(s0)),
            forall|m: int| 0 <= m < j ==> seq_lt(#[trigger] grp_dirs(s0)[m], d),
            d == dir@,
        decreases gs.len() - j,
    {
        assert(grp_dirs(s0)[j as int] == s0[j as int].dir@);
        j = j + 1;
    }
    // Groups of other directories are unaffected by the row.
    assert forall|m: int| 0 <= m < s0.len() && s0[m].dir@ != d implies ents_ok(
        (#[trigger] s0[m]).entries@,
        q,
        s0[m].dir@,
    ) by {
        lemma_other_dir(s0[m].entries@, p, s0[m].dir@, *b);
    }
    if j < gs.len() && str_eq(gs[j].dir.as_str(), dir.as_str()) {
        let mut g = gs.remove(j);
        assert(g == s0[j as int]);
        add_row(&mut g.entries, b, &label, Ghost(p));
        gs.insert(j, g);
        proof {
            let s1 = gs@;
            assert(s1 =~= s0.update(j as int, g));
            assert(grp_dirs(s1) =~= grp_dirs(s0));
            assert(grp_dirs(s0)[j as int] == d);
            assert(grp_dirs(s0).to_set().contains(d));
            assert(dir_set(q) =~= dir_set(p));
            assert forall|m: int| 0 <= m < s1.len() implies ents_ok(
                (#[trigger] s1[m]).entries@,
                q,
                s1[m].dir@,
            ) by {
                if m != j {
                    assert(s1[m] == s0[m]);
                    assert(grp_dirs(s0)[m] == s0[m].dir@);
                    lemma_lt_irreflexive(d);
                }
            }
        }
    } else {
        proof {
            let ds = grp_dirs(s0);
            if ds.to_set().contains(d) {
                let m = choose|m: int| 0 <= m < ds.len() && ds[m] == d;
                if m < j {
                    lemma_lt_irreflexive(d);
                } else if m > j {
                    let dj = ds[j as int];
                    assert(dj == s0[j as int].dir@);
                    assert(!seq_lt(dj, d));
                    lemma_lt_total(dj, d);
                    lemma_lt_asymmetric(dj, d);
                } else {
                    assert(ds[j as int] == s0[j as int].dir@);
                }
            }
            assert(!dir_set(p).contains(d));
            lemma_absent_dir(p, d);
            assert(ent_keys(Seq::<Ent>::empty()).to_set() =~= dir_keys(p, d));
        }
        let mut es: Vec<Ent> = Vec::new();
        add_row(&mut es, b, &label, Ghost(p));
        let g = Grp { dir, entries: es };
        gs.insert(j, g);
        proof {
            let s1 = gs@;
            let d0 = grp_dirs(s0);
            let d1 = grp_dirs(s1);
            assert(s1 =~= s0.insert(j as int, g));
            assert(d1 =~= d0.insert(j as int, d));
            if j < s0.len() {
                let dj = d0[j as int];
                assert(dj == s0[j as int].dir@);
                assert(!seq_lt(dj, d));
                assert(dj != d);
                lemma_lt_total(dj, d);
                assert forall|m: int| j < m < d0.len() implies seq_lt(d, #[trigger] d0[m]) by {
                    lemma_lt_transitive(d, dj, d0[m]);
                }
            }
            assert forall|a: int, c: int| 0 <= a < c < d1.len() implies seq_lt(
                #[trigger] d1[a],
                #[trigger] d1[c],
            ) by {
                if a < j && c < j {
                    assert(d1[a] == d0[a] && d1[c] == d0[c]);
                } else if a < j && c == j {
                    assert(d1[a] == d0[a]);
                } else if a < j {
                    assert(d1[a] == d0[a] && d1[c] == d0[c - 1]);
                } else if a == j {
                    assert(d1[c] == d0[c - 1]);
                } else {
                    assert(d1[a] == d0[a - 1] && d1[c] == d0[c - 1]);
                }
            }
            assert(d1.to_set() =~= d0.to_set().insert(d)) by {
                assert forall|x: Seq<char>| d1.to_set().contains(x) implies d0.to_set().insert(
                    d,
                ).contains(x) by {
                    let m = choose|m: int| 0 <= m < d1.len() && d1[m] == x;
                    if m < j {
                        assert(d0[m] == x);
                    } else if m > j {
                        assert(d0[m - 1] == x);
                    }
                }
                assert forall|x: Seq<char>| d0.to_set().insert(d).contains(x) implies d1.to_set().contains(
                    x,
                ) by {
                    if x == d {
                        assert(d1[j as int] == x);
                    } else {
                        let m = choose|m: int| 0 <= m < d0.len() && d0[m] == x;
                        if m < j {
                            assert(d1[m] == x);
                        } else {
                            assert(d1[m + 1] == x);
                        }
                    }
                }
            }
            assert forall|m: int| 0 <= m < s1.len() implies ents_ok(
                (#[trigger] s1[m]).entries@,
                q,
                s1[m].dir@,
            ) by {
                if m < j {
                    assert(s1[m] == s0[m]);
                    assert(d0[m] == s0[m].dir@);
                    lemma_lt_irreflexive(d);
                } else if m > j {
                    assert(s1[m] == s0[m - 1]);
                    assert(d0[m - 1] == s0[m - 1].dir@);
                    if s0[m - 1].dir@ == d {
                        assert(d0.to_set().contains(d));
                    }
                }
            }
        }
    }
}

// ---------------------------------------------------------------------------
// The result
// ---------------------------------------------------------------------------

/// `s` lists in ascending order the least elements of `set`: all of them when there are at
/// most `cap`, else the first `cap`.
pub open spec fn lists_first(s: Seq<Seq<char>>, set: Set<Seq<char>>, cap: nat) -> bool {
    &&& strictly_sorted(s)
    &&& s.len() == (if set.len() <= cap {
        set.len()
    } else {
        cap
    })
    &&& forall|i: int| 0 <= i < s.len() ==> set.contains(#[trigger] s[i])
    &&& forall|x: Seq<char>|
        #[trigger] set.contains(x) && !s.contains(x) ==> forall|i: int|
            0 <= i < s.len() ==> seq_lt(#[trigger] s[i], x)
}

/// [`lists_first`] for entry keys in [`pair_lt`] order.
pub open spec fn pairs_list_first(
    s: Seq<(Seq<char>, Seq<char>)>,
    set: Set<(Seq<char>, Seq<char>)>,
    cap: nat,
) -> bool {
    &&& pairs_sorted(s)
    &&& s.len() == (if set.len() <= cap {
        set.len()
    } else {
        cap
    })
    &&& forall|i: int| 0 <= i < s.len() ==> set.contains(#[trigger] s[i])
    &&& forall|x: (Seq<char>, Seq<char>)|
        #[trigger] set.contains(x) && !s.contains(x) ==> forall|i: int|
            0 <= i < s.len() ==> pair_lt(#[trigger] s[i], x)
}

pub open spec fn group_dirs(gs: Seq<FootprintDirectoryGroup>) -> Seq<Seq<char>> {
    gs.map_values(|g: FootprintDirectoryGroup| g.directory@)
}

pub open spec fn entry_key(e: FootprintDirectoryEntry) -> (Seq<char>, Seq<char>) {
    (e.binary_path@, e.sha256@)
}

pub open spec fn entry_keys(es: Seq<FootprintDirectoryEntry>) -> Seq<(Seq<char>, Seq<char>)> {
    es.map_values(|e: FootprintDirectoryEntry| entry_key(e))
}

/// An entry carries the summed execution count of its key and the sorted labels of the job
/// steps that ran it.
pub open spec fn entry_ok(e: FootprintDirectoryEntry, bs: Seq<FootprintBinaryRow>) -> bool {
    &&& e.execution_count == key_total(bs, entry_key(e))
    &&& strictly_sorted(views(e.job_names@))
    &&& views(e.job_names@).to_set() == key_labels(bs, entry_key(e))
}

/// A group lists the first entries of its directory in key order, and says whether some
/// were left out.
pub open spec fn group_ok(g: FootprintDirectoryGroup, bs: Seq<FootprintBinaryRow>) -> bool {
    &&& pairs_list_first(
        entry_keys(g.entries@),
        dir_keys(bs, g.directory@),
        FOOTPRINT_MAX_ENTRIES_PER_DIR as nat,
    )
    &&& g.entries_truncated == (dir_keys(bs, g.directory@).len() > FOOTPRINT_MAX_ENTRIES_PER_DIR)
    &&& forall|i: int| 0 <= i < g.entries@.len() ==> entry_ok(#[trigger] g.entries@[i], bs)
}

proof fn lemma_take_lists_first(s: Seq<Seq<char>>, set: Set<Seq<char>>, cap: nat)
    requires
        strictly_sorted(s),
        s.to_set() == set,
    ensures
        set.len() == s.len(),
        lists_first(s.take(if s.len() <= cap { s.len() as int } else { cap as int }), set, cap),
{
    assert forall|i: int, j: int| 0 <= i < s.len() && 0 <= j < s.len() && i != j implies s[i]
        != s[j] by {
        if i < j {
            assert(seq_lt(s[i], s[j]));
        } else {
            assert(seq_lt(s[j], s[i]));
        }
        lemma_lt_irreflexive(s[i]);
    }
    s.unique_seq_to_set();
    let n = if s.len() <= cap {
        s.len() as int
    } else {
        cap as int
    };
    let t = s.take(n);
    assert forall|i: int| 0 <= i < t.len() implies set.contains(#[trigger] t[i]) by {
        assert(t[i] == s[i]);
    }
    assert forall|x: Seq<char>| #[trigger] set.contains(x) && !t.contains(x) implies forall|i: int|
        0 <= i < t.len() ==> seq_lt(#[trigger] t[i], x) by {
        let m = choose|m: int| 0 <= m < s.len() && s[m] == x;
        if m < n {
            assert(t[m] == x);
        }
        assert forall|i: int| 0 <= i < t.len() implies seq_lt(#[trigger] t[i], x) by {
            assert(t[i] == s[i]);
        }
    }
}

proof fn lemma_take_pairs_list_first(
    s: Seq<(Seq<char>, Seq<char>)>,
    set: Set<(Seq<char>, Seq<char>)>,
    cap: nat,
)
    requires
        pairs_sorted(s),
        s.to_set() == set,
    ensures
        set.len() == s.len(),
        pairs_list_first(s.take(if s.len() <= cap { s.len() as int } else { cap as int }), set, cap),
{
    assert forall|i: int, j: int| 0 <= i < s.len() && 0 <= j < s.len() && i != j implies s[i]
        != s[j] by {
        if i < j {
            assert(pair_lt(s[i], s[j]));
        } else {
            assert(pair_lt(s[j], s[i]));
        }
        lemma_pair_lt_facts(s[i], s[j]);
    }
    s.unique_seq_to_set();
    let n = if s.len() <= cap {
        s.len() as int
    } else {
        cap as int
    };
    let t = s.take(n);
    assert forall|i: int| 0 <= i < t.len() implies set.contains(#[trigger] t[i]) by {
        assert(t[i] == s[i]);
    }
    assert forall|x: (Seq<char>, Seq<char>)| #[trigger] set.contains(x) && !t.contains(x) implies forall|
        i: int,
    | 0 <= i < t.len() ==> pair_lt(#[trigger] t[i], x) by {
        let m = choose|m: int| 0 <= m < s.len() && s[m] == x;
        if m < n {
            assert(t[m] == x);
        }
        assert forall|i: int| 0 <= i < t.len() implies pair_lt(#[trigger] t[i], x) by {
            assert(t[i] == s[i]);
        }
    }
}

spec fn ent_shown(o: FootprintDirectoryEntry, e: Ent) -> bool {
    &&& o.binary_path@ == e.path@
    &&& o.sha256@ == e.sha@
    &&& o.execution_count == e.count
    &&& o.job_names@ == e.jobs@
}

spec fn grp_shown(o: FootprintDirectoryGroup, g: Grp) -> bool {
    &&& o.directory@ == g.dir@
    &&& o.entries_truncated == (g.entries@.len() > FOOTPRINT_MAX_ENTRIES_PER_DIR)
    &&& o.entries@.len() == (if g.entries@.len() <= FOOTPRINT_MAX_ENTRIES_PER_DIR {
        g.entries@.len()
    } else {
        FOOTPRINT_MAX_ENTRIES_PER_DIR as nat
    })
    &&& forall|i: int| 0 <= i < o.entries@.len() ==> ent_shown(#[trigger] o.entries@[i], g.entries@[i])
}

/// The response form of a group: its first entries, and whether some were left out.
fn show_group(g: Grp) -> (o: FootprintDirectoryGroup)
    ensures
        grp_shown(o, g),
{
    let ghost g0 = g;
    let n = g.entries.len();
    let Grp { dir, entries } = g;
    let mut rest = entries;
    let ghost all = rest@;
    let mut shown: Vec<FootprintDirectoryEntry> = Vec::new();
    while shown.len() < FOOTPRINT_MAX_ENTRIES_PER_DIR && rest.len() > 0
        invariant
            all == g0.entries@,
            shown@.len() <= all.len(),
            shown@.len() <= FOOTPRINT_MAX_ENTRIES_PER_DIR,
            rest@ == all.subrange(shown@.len() as int, all.len() as int),
            forall|i: int| 0 <= i < shown@.len() ==> ent_shown(#[trigger] shown@[i], all[i]),
        decreases rest.len(),
    {
        let ghost k = shown@.len() as int;
        let e = rest.remove(0);
        assert(e == all[k]);
        shown.push(
            FootprintDirectoryEntry {
                binary_path: e.path,
                sha256: e.sha,
                execution_count: e.count,
                job_names: e.jobs,
            },
        );
        assert(rest@ =~= all.subrange(k + 1, all.len() as int));
    }
    FootprintDirectoryGroup {
        directory: dir,
        entries: shown,
        entries_truncated: n > FOOTPRINT_MAX_ENTRIES_PER_DIR,
    }
}

proof fn lemma_group_shown(o: FootprintDirectoryGroup, g: Grp, bs: Seq<FootprintBinaryRow>)
    requires
        grp_shown(o, g),
        ents_ok(g.entries@, bs, g.dir@),
    ensures
        group_ok(o, bs),
{
    let ks = ent_keys(g.entries@);
    let cap = FOOTPRINT_MAX_ENTRIES_PER_DIR as nat;
    lemma_take_pairs_list_first(ks, dir_keys(bs, g.dir@), cap);
    let n = if ks.len() <= cap {
        ks.len() as int
    } else {
        cap as int
    };
    assert(entry_keys(o.entries@) =~= ks.take(n)) by {
        assert forall|i: int| 0 <= i < n implies #[trigger] entry_keys(o.entries@)[i] == ks.take(
            n,
        )[i] by {
            assert(ent_shown(o.entries@[i], g.entries@[i]));
        }
    }
    assert forall|i: int| 0 <= i < o.entries@.len() implies entry_ok(#[trigger] o.entries@[i], bs) by {
        assert(ent_shown(o.entries@[i], g.entries@[i]));
        assert(ent_ok(g.entries@[i], bs));
    }
}

/// Groups the executed binaries of a run by parent directory (see [`format_footprint_parent_dir`]):
/// one entry per distinct path and digest, with the execution counts summed and the labels
/// of the job steps that ran it (blank ones left out), in order of path and digest. At most
/// [`FOOTPRINT_MAX_DIRS`] directories are shown, in ascending order, with at most
/// [`FOOTPRINT_MAX_ENTRIES_PER_DIR`] entries each. Also returns whether directories were left
/// out, and how many.
pub fn build_footprint_filesystem(binaries: &[FootprintBinaryRow]) -> (r: (
    Vec<FootprintDirectoryGroup>,
    bool,
    Option<u32>,
))
    requires
        totals_fit(binaries@),
    ensures
        lists_first(group_dirs(r.0@), dir_set(binaries@), FOOTPRINT_MAX_DIRS as nat),
        forall|i: int| 0 <= i < r.0@.len() ==> group_ok(#[trigger] r.0@[i], binaries@),
        r.1 == (dir_set(binaries@).len() > FOOTPRINT_MAX_DIRS),
        r.2 == (if dir_set(binaries@).len() > FOOTPRINT_MAX_DIRS {
            Some((dir_set(binaries@).len() - FOOTPRINT_MAX_DIRS) as u32)
        } else {
            None
        }),
{
    let mut gs: Vec<Grp> = Vec::new();
    let mut i: usize = 0;
    proof {
        assert(grp_dirs(gs@).to_set() =~= dir_set(binaries@.take(0)));
    }
    while i < binaries.len()
        invariant
            i <= binaries@.len(),
            totals_fit(binaries@),
            grps_ok(gs@, binaries@.take(i as int)),
        decreases binaries.len() - i,
    {
        proof {
            assert(binaries@.take(i + 1) =~= binaries@.take(i as int).push(binaries@[i as int]));
            assert(i64::MIN <= running_total(binaries@, i as int) <= i64::MAX);
        }
        add_to_groups(&mut gs, &binaries[i], Ghost(binaries@.take(i as int)));
        i = i + 1;
    }
    assert(binaries@.take(binaries@.len() as int) =~= binaries@);
    let total_dirs = gs.len();
    let dirs_truncated = total_dirs > FOOTPRINT_MAX_DIRS;
    let more: Option<u32> = if dirs_truncated {
        Some((total_dirs - FOOTPRINT_MAX_DIRS) as u32)
    } else {
        None
    };
    let ghost all = gs@;
    let mut groups: Vec<FootprintDirectoryGroup> = Vec::new();
    while groups.len() < FOOTPRINT_MAX_DIRS && gs.len() > 0
        invariant
            groups@.len() <= all.len(),
            groups@.len() <= FOOTPRINT_MAX_DIRS,
            gs@ == all.subrange(groups@.len() as int, all.len() as int),
            forall|k: int| 0 <= k < groups@.len() ==> grp_shown(#[trigger] groups@[k], all[k]),
        decreases gs.len(),
    {
        let ghost k = groups@.len() as int;
        let g = gs.remove(0);
        assert(g == all[k]);
        let o = show_group(g);
        groups.push(o);
        assert(gs@ =~= all.subrange(k + 1, all.len() as int));
    }
    proof {
        let cap = FOOTPRINT_MAX_DIRS as nat;
        let ds = grp_dirs(all);
        lemma_take_lists_first(ds, dir_set(binaries@), cap);
        let n = groups@.len() as int;
        assert(group_dirs(groups@) =~= ds.take(n)) by {
            assert forall|j: int| 0 <= j < n implies #[trigger] group_dirs(groups@)[j] == ds.take(
                n,
            )[j] by {
                assert(grp_shown(groups@[j], all[j]));
            }
        }
        assert forall|j: int| 0 <= j < groups@.len() implies group_ok(#[trigger] groups@[j], binaries@) by {
            assert(grp_shown(groups@[j], all[j]));
            assert(ents_ok(all[j].entries@, binaries@, all[j].dir@));
            lemma_group_shown(groups@[j], all[j], binaries@);
        }
    }
    (groups, dirs_truncated, more)
}

} // verus!
