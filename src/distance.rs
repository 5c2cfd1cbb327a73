//! Edit distance between names, and the closest names to a query.

use vstd::prelude::*;
use crate::text::chars_of;

verus! {

/// The least of three numbers.
pub open spec fn min3(x: nat, y: nat, z: nat) -> nat {
    if x <= y && x <= z {
        x
    } else if y <= z {
        y
    } else {
        z
    }
}

/// The Levenshtein distance: the fewest single-character insertions,
/// deletions and substitutions that turn `a` into `b`.
pub open spec fn lev(a: Seq<char>, b: Seq<char>) -> nat
    decreases a.len() + b.len(),
{
    if a.len() == 0 {
        b.len()
    } else if b.len() == 0 {
        a.len()
    } else {
        min3(
            lev(a.drop_last(), b) + 1,
            lev(a, b.drop_last()) + 1,
            lev(a.drop_last(), b.drop_last()) + if a.last() == b.last() { 0nat } else { 1nat },
        )
    }
}

/// The distance is at most the longer length.
pub proof fn lemma_lev_bound(a: Seq<char>, b: Seq<char>)
    ensures
        lev(a, b) <= if a.len() >= b.len() { a.len() } else { b.len() },
    decreases a.len() + b.len(),
{
    if a.len() > 0 && b.len() > 0 {
        lemma_lev_bound(a.drop_last(), b.drop_last());
    }
}

/// Levenshtein distance between two texts, counted in characters.
pub fn levenshtein_distance(s1: &str, s2: &str) -> (r: usize)
    requires
        s1@.len() < usize::MAX,
        s2@.len() < usize::MAX,
    ensures
        r == lev(s1@, s2@),
{
    let a = chars_of(s1);
    let b = chars_of(s2);
    let n = a.len();
    let m = b.len();
    let ghost sa = a@;
    let ghost sb = b@;
    let mut prev: Vec<usize> = Vec::new();
    let mut j: usize = 0;
    while j <= m
        invariant
            m == sb.len(),
            m < usize::MAX,
            j <= m + 1,
            prev@.len() == j,
            forall|k: int| 0 <= k < j ==> prev@[k] == lev(sa.take(0), sb.take(k)),
        decreases m + 1 - j,
    {
        proof {
            assert(sa.take(0).len() == 0);
        }
        prev.push(j);
        j = j + 1;
    }
    let mut i: usize = 1;
    while i <= n
        invariant
            a@ == sa,
            b@ == sb,
            n == sa.len(),
            m == sb.len(),
            n < usize::MAX,
            m < usize::MAX,
            1 <= i <= n + 1,
            prev@.len() == m + 1,
            forall|k: int| 0 <= k <= m ==> prev@[k] == lev(sa.take(i - 1), sb.take(k)),
        decreases n + 1 - i,
    {
        let mut cur: Vec<usize> = Vec::new();
        proof {
            assert(sb.take(0).len() == 0);
            assert(sa.take(i as int).len() == i);
        }
        cur.push(i);
        let mut j: usize = 1;
        while j <= m
            invariant
                a@ == sa,
                b@ == sb,
                n == sa.len(),
                m == sb.len(),
                n < usize::MAX,
                m < usize::MAX,
                1 <= i <= n,
                1 <= j <= m + 1,
                prev@.len() == m + 1,
                forall|k: int| 0 <= k <= m ==> prev@[k] == lev(sa.take(i - 1), sb.take(k)),
                cur@.len() == j,
                forall|k: int| 0 <= k < j ==> cur@[k] == lev(sa.take(i as int), sb.take(k)),
            decreases m + 1 - j,
        {
            let cost: usize = if a[i - 1] == b[j - 1] { 0 } else { 1 };
            proof {
                let ai = sa.take(i as int);
                let bj = sb.take(j as int);
                assert(ai.drop_last() =~= sa.take(i - 1));
                assert(bj.drop_last() =~= sb.take(j - 1));
                assert(ai.last() == sa[i - 1]);
                assert(bj.last() == sb[j - 1]);
                lemma_lev_bound(sa.take(i - 1), sb.take(j as int));
                lemma_lev_bound(ai, sb.take(j - 1));
                lemma_lev_bound(sa.take(i - 1), sb.take(j - 1));
            }
            let x = prev[j] + 1;
            let y = cur[j - 1] + 1;
            let z = prev[j - 1] + cost;
            let v = if x <= y && x <= z {
                x
            } else if y <= z {
                y
            } else {
                z
            };
            cur.push(v);
            j = j + 1;
        }
        prev = cur;
        i = i + 1;
    }
    proof {
        assert(sa.take(n as int) =~= sa);
        assert(sb.take(m as int) =~= sb);
    }
    prev[m]
}

/// Candidate `i` comes before candidate `j`: smaller distance first, then
/// earlier position.
pub open spec fn ranks_before(ds: Seq<nat>, i: int, j: int) -> bool {
    ds[i] < ds[j] || (ds[i] == ds[j] && i < j)
}

/// `idx` lists, best first, the (at most three) best-ranked positions among
/// those whose distance is at most `limit`.
pub open spec fn is_best_three(ds: Seq<nat>, limit: nat, idx: Seq<int>) -> bool {
    &&& idx.len() <= 3
    &&& forall|k: int| 0 <= k < idx.len() ==> 0 <= #[trigger] idx[k] < ds.len() && ds[idx[k]] <= limit
    &&& forall|k: int| 0 < k < idx.len() ==> ranks_before(ds, #[trigger] idx[k - 1], idx[k])
    &&& forall|i: int|
        0 <= i < ds.len() && ds[i] <= limit && !idx.contains(i) ==> idx.len() == 3 && ranks_before(
            ds,
            idx[2],
            i,
        )
}

/// Position `k` may still be picked: it is within the limit and, once a
/// position has been picked, ranks after the last one picked.
spec fn open_candidate(ds: Seq<nat>, limit: nat, picked: int, last: int, k: int) -> bool {
    0 <= k < ds.len() && ds[k] <= limit && (picked > 0 ==> ranks_before(ds, last, k))
}

/// The distances from `q` to each of `names`.
pub open spec fn distances(q: Seq<char>, names: Seq<String>) -> Seq<nat> {
    names.map_values(|s: String| lev(q, s@))
}

/// How far a name may be from the query and still be offered: the query's
/// length, but never less than three.
pub open spec fn suggestion_limit(q: Seq<char>) -> nat {
    if q.len() >= 3 { q.len() } else { 3 }
}

/// Up to three names of `available` closest to `query` in edit distance, best
/// first (ties kept in list order), among those no farther than
/// `suggestion_limit(query)`.
pub fn find_similar_scripts(query: &str, available: &Vec<String>) -> (r: Vec<String>)
    requires
        query@.len() < usize::MAX,
        forall|i: int| 0 <= i < available@.len() ==> (#[trigger] available@[i])@.len() < usize::MAX,
    ensures
        exists|idx: Seq<int>|
            {
                &&& is_best_three(distances(query@, available@), suggestion_limit(query@), idx)
                &&& r@.len() == idx.len()
                &&& forall|k: int| 0 <= k < idx.len() ==> (#[trigger] r@[k])@ == available@[idx[k]]@
            },
{
    let ghost ds = distances(query@, available@);
    let ql = query.unicode_len();
    let limit: usize = if ql >= 3 { ql } else { 3 };
    let mut dist: Vec<usize> = Vec::new();
    let mut i: usize = 0;
    while i < available.len()
        invariant
            query@.len() < usize::MAX,
            forall|i: int| 0 <= i < available@.len() ==> (#[trigger] available@[i])@.len() < usize::MAX,
            ds == distances(query@, available@),
            i <= available@.len(),
            dist@.len() == i,
            forall|k: int| 0 <= k < i ==> dist@[k] as nat == #[trigger] ds[k],
        decreases available@.len() - i,
    {
        let d = levenshtein_distance(query, available[i].as_str());
        dist.push(d);
        i = i + 1;
    }
    let mut r: Vec<String> = Vec::new();
    let ghost mut idx: Seq<int> = Seq::empty();
    let mut last: usize = 0;
    let mut round: usize = 0;
    while round < 3
        invariant
            ds == distances(query@, available@),
            ds.len() == available@.len(),
            dist@.len() == ds.len(),
            forall|k: int| 0 <= k < ds.len() ==> dist@[k] as nat == #[trigger] ds[k],
            limit as nat == suggestion_limit(query@),
            round <= 3,
            idx.len() == round,
            r@.len() == round,
            round > 0 ==> last as int == idx[round - 1],
            forall|k: int| 0 <= k < idx.len() ==> (#[trigger] r@[k])@ == available@[idx[k]]@,
            forall|k: int| 0 <= k < idx.len() ==> 0 <= #[trigger] idx[k] < ds.len() && ds[idx[k]] <= limit,
            forall|k: int| 0 < k < idx.len() ==> ranks_before(ds, #[trigger] idx[k - 1], idx[k]),
            round > 0 ==> forall|i: int|
                0 <= i < ds.len() && ds[i] <= limit && !idx.contains(i) ==> ranks_before(ds, idx[round - 1], i),
        decreases 3 - round,
    {
        let mut best: Option<usize> = None;
        let mut i: usize = 0;
        while i < dist.len()
            invariant
                dist@.len() == ds.len(),
                forall|k: int| 0 <= k < ds.len() ==> dist@[k] as nat == #[trigger] ds[k],
                i <= ds.len(),
                idx.len() == round,
                round > 0 ==> last as int == idx[round - 1],
                round > 0 ==> 0 <= last < ds.len(),
                best matches Some(b) ==> b < i && open_candidate(ds, limit as nat, round as int, last as int, b as int),
                best matches Some(b) ==> forall|k: int| 0 <= k < i && #[trigger] open_candidate(ds, limit as nat, round as int, last as int, k)
                    ==> k == b || ranks_before(ds, b as int, k),
                best is None ==> forall|k: int| 0 <= k < i ==> !#[trigger] open_candidate(ds, limit as nat, round as int, last as int, k),
            decreases ds.len() - i,
        {
            let di = dist[i];
            let after_last = round == 0 || di > dist[last] || (di == dist[last] && i > last);
            assert((di <= limit && after_last) == open_candidate(ds, limit as nat, round as int, last as int, i as int));
            if di <= limit && after_last {
                match best {
                    None => {
                        best = Some(i);
                    },
                    Some(b) => {
                        if di < dist[b] {
                            assert forall|k: int| 0 <= k < i + 1 && #[trigger] open_candidate(ds, limit as nat, round as int, last as int, k)
                                implies k == i || ranks_before(ds, i as int, k) by {
                                if k < i && k != b {
                                    assert(ranks_before(ds, b as int, k));
                                }
                            }
                            best = Some(i);
                        }
                    },
                }
            }
            i = i + 1;
        }
        match best {
            None => {
                proof {
                    assert forall|j: int| 0 <= j < ds.len() && ds[j] <= limit && !idx.contains(j)
                        implies idx.len() == 3 && ranks_before(ds, idx[2], j) by {
                        assert(!open_candidate(ds, limit as nat, round as int, last as int, j));
                        if round > 0 {
                            assert(ranks_before(ds, idx[round - 1], j));
                        }
                    }
                    assert(is_best_three(ds, limit as nat, idx));
                }
                return r;
            },
            Some(b) => {
                proof {
                    let nidx = idx.push(b as int);
                    assert(nidx[round as int] == b as int);
                    assert forall|j: int| 0 <= j < ds.len() && ds[j] <= limit && !nidx.contains(j)
                        implies ranks_before(ds, nidx[round as int], j) by {
                        assert(!idx.contains(j)) by {
                            if idx.contains(j) {
                                let k = choose|k: int| 0 <= k < idx.len() && idx[k] == j;
                                assert(nidx[k] == j);
                            }
                        }
                        assert(j != b);
                        if round > 0 {
                            assert(ranks_before(ds, idx[round - 1], j));
                        }
                        assert(open_candidate(ds, limit as nat, round as int, last as int, j));
                        assert(j == b || ranks_before(ds, b as int, j));
                    }
                    assert forall|k: int| 0 < k < nidx.len() implies ranks_before(ds, #[trigger] nidx[k - 1], nidx[k]) by {
                        if k < round { assert(nidx[k - 1] == idx[k - 1] && nidx[k] == idx[k]); }
                    }
                    idx = nidx;
                }
                r.push(available[b].clone());
                last = b;
                round = round + 1;
            },
        }
    }
    proof {
        assert forall|j: int| 0 <= j < ds.len() && ds[j] <= limit && !idx.contains(j)
            implies idx.len() == 3 && ranks_before(ds, idx[2], j) by {
            assert(ranks_before(ds, idx[round - 1], j));
        }
        assert(is_best_three(ds, limit as nat, idx));
    }
    r
}

} // verus!
