//! Lexicographic order of strings (the order of `String`'s `Ord`: UTF-8 byte order, which
//! is the order of code points) and sorted string sets.
use vstd::prelude::*;
use crate::text::views;

verus! {

/// `a` sorts strictly before `b`, comparing code points left to right; a proper prefix sorts
/// first.
pub open spec fn seq_lt(a: Seq<char>, b: Seq<char>) -> bool
    decreases a.len(),
{
    if a.len() == 0 {
        b.len() > 0
    } else if b.len() == 0 {
        false
    } else if a[0] != b[0] {
        a[0] < b[0]
    } else {
        seq_lt(a.drop_first(), b.drop_first())
    }
}

pub proof fn lemma_lt_irreflexive(a: Seq<char>)
    ensures
        !seq_lt(a, a),
    decreases a.len(),
{
    if a.len() > 0 {
        lemma_lt_irreflexive(a.drop_first());
    }
}

pub proof fn lemma_lt_asymmetric(a: Seq<char>, b: Seq<char>)
    ensures
        seq_lt(a, b) ==> !seq_lt(b, a),
    decreases a.len(),
{
    if a.len() > 0 && b.len() > 0 && a[0] == b[0] {
        lemma_lt_asymmetric(a.drop_first(), b.drop_first());
    }
}

pub proof fn lemma_lt_total(a: Seq<char>, b: Seq<char>)
    ensures
        a != b ==> seq_lt(a, b) || seq_lt(b, a),
    decreases a.len(),
{
    if a.len() > 0 && b.len() > 0 && a[0] == b[0] {
        lemma_lt_total(a.drop_first(), b.drop_first());
        if a.drop_first() == b.drop_first() {
            assert(a =~= seq![a[0]] + a.drop_first());
            assert(b =~= seq![b[0]] + b.drop_first());
        }
    }
    if a.len() == 0 && b.len() == 0 {
        assert(a =~= b);
    }
}

pub proof fn lemma_lt_transitive(a: Seq<char>, b: Seq<char>, c: Seq<char>)
    requires
        seq_lt(a, b),
        seq_lt(b, c),
    ensures
        seq_lt(a, c),
    decreases a.len(),
{
    if a.len() > 0 && b.len() > 0 && c.len() > 0 {
        if a[0] == b[0] && b[0] == c[0] {
            lemma_lt_transitive(a.drop_first(), b.drop_first(), c.drop_first());
        }
    }
}

/// Executable [`seq_lt`] on string slices.
pub fn str_lt(a: &str, b: &str) -> (r: bool)
    ensures
        r == seq_lt(a@, b@),
{
    let n = a.unicode_len();
    let m = b.unicode_len();
    let mut i: usize = 0;
    assert(a@.subrange(0, n as int) =~= a@);
    assert(b@.subrange(0, m as int) =~= b@);
    while i < n && i < m
        invariant
            n == a@.len(),
            m == b@.len(),
            i <= n,
            i <= m,
            forall|j: int| 0 <= j < i ==> a@[j] == b@[j],
            seq_lt(a@, b@) == seq_lt(a@.subrange(i as int, n as int), b@.subrange(i as int, m as int)),
        decreases n - i,
    {
        let x = a.get_char(i);
        let y = b.get_char(i);
        let ghost sa = a@.subrange(i as int, n as int);
        let ghost sb = b@.subrange(i as int, m as int);
        assert(sa[0] == x && sb[0] == y);
        if x != y {
            return x < y;
        }
        assert(sa.drop_first() =~= a@.subrange(i + 1, n as int));
        assert(sb.drop_first() =~= b@.subrange(i + 1, m as int));
        i = i + 1;
    }
    let ghost sa = a@.subrange(i as int, n as int);
    let ghost sb = b@.subrange(i as int, m as int);
    i == n && i < m
}

/// Every element sorts strictly before every later one.
pub open spec fn strictly_sorted(s: Seq<Seq<char>>) -> bool {
    forall|i: int, j: int| 0 <= i < j < s.len() ==> seq_lt(#[trigger] s[i], #[trigger] s[j])
}

/// The sorted list of the distinct strings in `s`: strictly sorted, with exactly the
/// elements of `s`.
pub open spec fn is_sorted_set_of(r: Seq<Seq<char>>, s: Seq<Seq<char>>) -> bool {
    strictly_sorted(r) && r.to_set() == s.to_set()
}

/// A finite set of strings has exactly one strictly sorted listing.
pub proof fn lemma_sorted_listing_unique(a: Seq<Seq<char>>, b: Seq<Seq<char>>)
    requires
        strictly_sorted(a),
        strictly_sorted(b),
        a.to_set() == b.to_set(),
    ensures
        a == b,
    decreases a.len(),
{
    if a.len() == 0 {
        if b.len() > 0 {
            assert(b.to_set().contains(b[0]));
        }
        assert(a =~= b);
    } else if b.len() == 0 {
        assert(a.to_set().contains(a[0]));
    } else {
        assert(a.to_set().contains(a[0]));
        assert(b.to_set().contains(b[0]));
        if a[0] != b[0] {
            let k = choose|k: int| 0 <= k < b.len() && b[k] == a[0];
            let j = choose|j: int| 0 <= j < a.len() && a[j] == b[0];
            assert(seq_lt(b[0], b[k]));
            assert(seq_lt(a[0], a[j]));
            lemma_lt_asymmetric(a[0], b[0]);
        }
        let a1 = a.drop_first();
        let b1 = b.drop_first();
        assert forall|i: int, j: int| 0 <= i < j < a1.len() implies seq_lt(
            #[trigger] a1[i],
            #[trigger] a1[j],
        ) by {
            assert(a1[i] == a[i + 1] && a1[j] == a[j + 1]);
        }
        assert forall|i: int, j: int| 0 <= i < j < b1.len() implies seq_lt(
            #[trigger] b1[i],
            #[trigger] b1[j],
        ) by {
            assert(b1[i] == b[i + 1] && b1[j] == b[j + 1]);
        }
        assert forall|e: Seq<char>| a1.to_set().contains(e) implies b1.to_set().contains(e) by {
            let i = choose|i: int| 0 <= i < a1.len() && a1[i] == e;
            assert(a[i + 1] == e);
            assert(a.to_set().contains(e));
            let k = choose|k: int| 0 <= k < b.len() && b[k] == e;
            if k == 0 {
                assert(seq_lt(a[0], a[i + 1]));
                lemma_lt_irreflexive(a[0]);
            }
            assert(b1[k - 1] == e);
        }
        assert forall|e: Seq<char>| b1.to_set().contains(e) implies a1.to_set().contains(e) by {
            let i = choose|i: int| 0 <= i < b1.len() && b1[i] == e;
            assert(b[i + 1] == e);
            assert(b.to_set().contains(e));
            let k = choose|k: int| 0 <= k < a.len() && a[k] == e;
            if k == 0 {
                assert(seq_lt(b[0], b[i + 1]));
                lemma_lt_irreflexive(b[0]);
            }
            assert(a1[k - 1] == e);
        }
        assert(a1.to_set() =~= b1.to_set());
        lemma_sorted_listing_unique(a1, b1);
        assert(a =~= seq![a[0]] + a1);
        assert(b =~= seq![b[0]] + b1);
    }
}

/// Inserts `x` at its place in a strictly sorted vector, unless already present.
pub fn insert_sorted_unique(v: &mut Vec<String>, x: String)
    requires
        strictly_sorted(views(old(v)@)),
    ensures
        strictly_sorted(views(final(v)@)),
        views(final(v)@).to_set() == views(old(v)@).to_set().insert(x@),
{
    let ghost s0 = views(v@);
    let mut j: usize = 0;
    while j < v.len() && str_lt(v[j].as_str(), x.as_str())
        invariant
            j <= v@.len(),
            views(v@) == s0,
            strictly_sorted(s0),
            forall|k: int| 0 <= k < j ==> seq_lt(#[trigger] s0[k], x@),
        decreases v.len() - j,
    {
        j = j + 1;
    }
    if j < v.len() && crate::text::str_eq(v[j].as_str(), x.as_str()) {
        proof {
            assert(s0[j as int] == x@);
            assert(s0.to_set().insert(x@) =~= s0.to_set());
        }
        return;
    }
    proof {
        if j < s0.len() {
            assert(!seq_lt(s0[j as int], x@));
            assert(s0[j as int] != x@);
            lemma_lt_total(s0[j as int], x@);
            assert(seq_lt(x@, s0[j as int]));
            assert forall|k: int| j < k < s0.len() implies seq_lt(x@, #[trigger] s0[k]) by {
                lemma_lt_transitive(x@, s0[j as int], s0[k]);
            }
        }
    }
    v.insert(j, x);
    proof {
        let s1 = views(v@);
        assert(s1 =~= s0.insert(j as int, x@));
        assert forall|a: int, b: int| 0 <= a < b < s1.len() implies seq_lt(
            #[trigger] s1[a],
            #[trigger] s1[b],
        ) by {
            if a < j && b < j {
                assert(s1[a] == s0[a] && s1[b] == s0[b]);
            } else if a < j && b == j {
            } else if a < j {
                assert(s1[a] == s0[a] && s1[b] == s0[b - 1]);
                assert(seq_lt(s0[a], s0[b - 1]));
            } else if a == j {
                assert(s1[b] == s0[b - 1]);
            } else {
                assert(s1[a] == s0[a - 1] && s1[b] == s0[b - 1]);
            }
        }
        assert(s1.to_set() =~= s0.to_set().insert(x@)) by {
            assert forall|e: Seq<char>| s1.to_set().contains(e) implies s0.to_set().insert(
                x@,
            ).contains(e) by {
                let k = choose|k: int| 0 <= k < s1.len() && s1[k] == e;
                if k < j {
                    assert(s0[k] == e);
                } else if k > j {
                    assert(s0[k - 1] == e);
                }
            }
            assert forall|e: Seq<char>| s0.to_set().insert(x@).contains(e) implies s1.to_set().contains(
                e,
            ) by {
                if e == x@ {
                    assert(s1[j as int] == e);
                } else {
                    let k = choose|k: int| 0 <= k < s0.len() && s0[k] == e;
                    if k < j {
                        assert(s1[k] == e);
                    } else {
                        assert(s1[k + 1] == e);
                    }
                }
            }
        }
    }
}

/// The distinct strings of `items` in ascending order (`sort` then `dedup`).
pub fn sorted_unique(items: &Vec<String>) -> (r: Vec<String>)
    ensures
        is_sorted_set_of(views(r@), views(items@)),
{
    let mut r: Vec<String> = Vec::new();
    let mut i: usize = 0;
    assert(views(r@).to_set() =~= views(items@).subrange(0, 0).to_set());
    while i < items.len()
        invariant
            i <= items@.len(),
            strictly_sorted(views(r@)),
            views(r@).to_set() == views(items@).subrange(0, i as int).to_set(),
        decreases items.len() - i,
    {
        let ghost pre = views(items@).subrange(0, i as int);
        let ghost nxt = views(items@).subrange(0, i + 1);
        assert(nxt =~= pre.push(items@[i as int]@));
        assert(nxt.to_set() =~= pre.to_set().insert(items@[i as int]@)) by {
            assert forall|e: Seq<char>| nxt.to_set().contains(e) implies pre.to_set().insert(
                items@[i as int]@,
            ).contains(e) by {
                let k = choose|k: int| 0 <= k < nxt.len() && nxt[k] == e;
                if k < i {
                    assert(pre[k] == e);
                }
            }
            assert forall|e: Seq<char>| pre.to_set().insert(items@[i as int]@).contains(e) implies nxt.to_set().contains(
                e,
            ) by {
                if e == items@[i as int]@ {
                    assert(nxt[i as int] == e);
                } else {
                    let k = choose|k: int| 0 <= k < pre.len() && pre[k] == e;
                    assert(nxt[k] == e);
                }
            }
        }
        insert_sorted_unique(&mut r, items[i].clone());
        i = i + 1;
    }
    assert(views(items@).subrange(0, items@.len() as int) =~= views(items@));
    r
}

} // verus!
