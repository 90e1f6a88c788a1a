use vstd::prelude::*;
use crate::models::{RepoView, Repository, repos_view};

verus! {

/// A repository's ranking key: stars gained today (0 when unknown), then the
/// trend score.  Larger keys rank first.
pub type RankKey = (u32, i64);

/// Whether key `a` ranks strictly before key `b`.
pub open spec fn ranks_before(a: RankKey, b: RankKey) -> bool {
    a.0 > b.0 || (a.0 == b.0 && a.1 > b.1)
}

/// Stars gained today, 0 when unknown.
pub open spec fn stars_today_or_zero(r: RepoView) -> u32 {
    match r.stars_today {
        Some(n) => n,
        None => 0,
    }
}

/// The ranking keys of `repos` with trend scores `scores`.
pub open spec fn rank_keys(repos: Seq<RepoView>, scores: Seq<i64>) -> Seq<RankKey> {
    Seq::new(repos.len(), |i: int| (stars_today_or_zero(repos[i]), scores[i]))
}

/// `perm` lists the positions of `keys` in ranking order: each position once,
/// keys never ranking before an earlier one, and positions with equal keys in
/// their original order (a stable sort).
pub open spec fn is_stable_ranking(keys: Seq<RankKey>, perm: Seq<usize>) -> bool {
    &&& perm.len() == keys.len()
    &&& forall|k: int| 0 <= k < perm.len() ==> #[trigger] perm[k] < keys.len()
    &&& forall|k1: int, k2: int|
        0 <= k1 < k2 < perm.len() ==> #[trigger] perm[k1] != #[trigger] perm[k2]
    &&& forall|k1: int, k2: int|
        0 <= k1 < k2 < perm.len() ==> !ranks_before(
            keys[#[trigger] perm[k2] as int],
            keys[#[trigger] perm[k1] as int],
        )
    &&& forall|k1: int, k2: int|
        0 <= k1 < k2 < perm.len() && keys[#[trigger] perm[k1] as int] == keys[#[trigger] perm[k2] as int]
            ==> perm[k1] < perm[k2]
}

/// The positions of `keys` in stable ranking order.
pub fn stable_ranking(keys: &Vec<RankKey>) -> (perm: Vec<usize>)
    ensures
        is_stable_ranking(keys@, perm@),
{
    let n = keys.len();
    let mut perm: Vec<usize> = Vec::new();
    let mut i: usize = 0;
    while i < n
        invariant
            n == keys.len(),
            i <= n,
            is_stable_ranking(keys@.take(i as int), perm@),
        decreases n - i,
    {
        let ki = keys[i];
        let mut q: usize = 0;
        while q < perm.len() && !(ki.0 > keys[perm[q]].0 || (ki.0 == keys[perm[q]].0 && ki.1 > keys[perm[q]].1))
            invariant
                n == keys.len(),
                i < n,
                ki == keys@[i as int],
                q <= perm.len(),
                is_stable_ranking(keys@.take(i as int), perm@),
                forall|k: int| 0 <= k < q ==> !ranks_before(ki, keys@[perm@[k] as int]),
            decreases perm.len() - q,
        {
            proof {
                assert(perm@[q as int] < i);
            }
            q = q + 1;
        }
        let ghost old_perm = perm@;
        let ghost tk = keys@.take(i as int);
        proof {
            assert forall|k: int| 0 <= k < old_perm.len() implies old_perm[k] < i by {
                assert(old_perm[k] < tk.len());
            }
        }
        perm.insert(q, i);
        proof {
            let np = perm@;
            let ks = keys@.take(i + 1);
            assert(np =~= old_perm.insert(q as int, i));
            assert forall|k: int| 0 <= k < old_perm.len() implies #[trigger] ks[old_perm[k] as int]
                == tk[old_perm[k] as int] by {
                assert(old_perm[k] < i);
            }
            assert(ks[i as int] == ki);
            // positions after q rank strictly after ki
            assert forall|j: int| q <= j < old_perm.len() implies ranks_before(
                ki,
                keys@[#[trigger] old_perm[j] as int],
            ) by {
                assert(ranks_before(ki, keys@[old_perm[q as int] as int]));
                if j > q {
                    assert(!ranks_before(tk[old_perm[j] as int], tk[old_perm[q as int] as int]));
                    assert(old_perm[j] < i && old_perm[q as int] < i);
                }
            }
            assert forall|k: int| 0 <= k < np.len() implies #[trigger] np[k] < ks.len() by {
                if k < q {
                    assert(np[k] == old_perm[k]);
                } else if k > q {
                    assert(np[k] == old_perm[k - 1]);
                }
            }
            assert forall|k1: int, k2: int| 0 <= k1 < k2 < np.len() implies #[trigger] np[k1]
                != #[trigger] np[k2] by {
                let a = if k1 < q { k1 } else { k1 - 1 };
                let b = if k2 < q { k2 } else { k2 - 1 };
                if k1 != q && k2 != q {
                    assert(np[k1] == old_perm[a] && np[k2] == old_perm[b]);
                } else if k1 == q {
                    assert(np[k2] == old_perm[b]);
                } else {
                    assert(np[k1] == old_perm[a]);
                }
            }
            assert forall|k1: int, k2: int| 0 <= k1 < k2 < np.len() implies !ranks_before(
                ks[#[trigger] np[k2] as int],
                ks[#[trigger] np[k1] as int],
            ) by {
                let a = if k1 < q { k1 } else { k1 - 1 };
                let b = if k2 < q { k2 } else { k2 - 1 };
                if k1 != q && k2 != q {
                    assert(np[k1] == old_perm[a] && np[k2] == old_perm[b]);
                    assert(!ranks_before(tk[old_perm[b] as int], tk[old_perm[a] as int]));
                } else if k1 == q {
                    assert(np[k2] == old_perm[b]);
                    assert(ranks_before(ki, keys@[old_perm[b] as int]));
                } else {
                    assert(np[k1] == old_perm[a]);
                }
            }
            assert forall|k1: int, k2: int|
                0 <= k1 < k2 < np.len() && ks[#[trigger] np[k1] as int] == ks[#[trigger] np[k2] as int]
                implies np[k1] < np[k2] by {
                let a = if k1 < q { k1 } else { k1 - 1 };
                let b = if k2 < q { k2 } else { k2 - 1 };
                if k1 != q && k2 != q {
                    assert(np[k1] == old_perm[a] && np[k2] == old_perm[b]);
                } else if k1 == q {
                    assert(np[k2] == old_perm[b]);
                    assert(ranks_before(ki, keys@[old_perm[b] as int]));
                } else {
                    assert(np[k1] == old_perm[a]);
                }
            }
        }
        i = i + 1;
    }
    assert(keys@.take(n as int) =~= keys@);
    perm
}

/// Puts `repos` in ranking order: most stars today first, then highest
/// trend score (`scores[i]` is the score of `repos[i]`), ties kept in their
/// original order.
pub fn rank_by_keys(repos: &mut Vec<Repository>, scores: &[i64])
    requires
        scores.len() == old(repos).len(),
    ensures
        exists|perm: Seq<usize>|
            is_stable_ranking(rank_keys(repos_view(old(repos)@), scores@), perm)
                && repos_view(final(repos)@) == perm.map_values(
                |p: usize| repos_view(old(repos)@)[p as int],
            ),
{
    let n = repos.len();
    let ghost rv = repos_view(repos@);
    let mut keys: Vec<RankKey> = Vec::new();
    let mut i: usize = 0;
    while i < n
        invariant
            n == repos.len(),
            n == scores.len(),
            rv == repos_view(repos@),
            i <= n,
            keys@ =~= rank_keys(rv, scores@).take(i as int),
        decreases n - i,
    {
        let st = match repos[i].stars_today {
            Some(v) => v,
            None => 0,
        };
        keys.push((st, scores[i]));
        i = i + 1;
    }
    assert(rank_keys(rv, scores@).take(n as int) =~= rank_keys(rv, scores@));
    let perm = stable_ranking(&keys);
    let mut out: Vec<Repository> = Vec::new();
    let mut k: usize = 0;
    while k < n
        invariant
            n == repos.len(),
            perm.len() == n,
            rv == repos_view(repos@),
            is_stable_ranking(keys@, perm@),
            k <= n,
            repos_view(out@) =~= perm@.map_values(|p: usize| rv[p as int]).take(k as int),
        decreases n - k,
    {
        assert(perm@[k as int] < n);
        let ghost old_out = out@;
        let r = repos[perm[k]].duplicate();
        out.push(r);
        proof {
            let m = perm@.map_values(|p: usize| rv[p as int]);
            assert(out@ == old_out.push(r));
            assert(repos_view(out@) =~= repos_view(old_out).push(r@));
            assert(m.take(k + 1) =~= m.take(k as int).push(m[k as int]));
            assert(rv[perm@[k as int] as int] == repos@[perm@[k as int] as int]@);
        }
        k = k + 1;
    }
    assert(perm@.map_values(|p: usize| rv[p as int]).take(n as int) =~= perm@.map_values(
        |p: usize| rv[p as int],
    ));
    *repos = out;
}


/// Ranking puts repositories in order of the stars they gained today, most
/// first.
pub proof fn law_ranked_by_stars_today(keys: Seq<RankKey>, perm: Seq<usize>)
    requires
        is_stable_ranking(keys, perm),
    ensures
        forall|k1: int, k2: int|
            0 <= k1 < k2 < perm.len() ==> keys[#[trigger] perm[k1] as int].0 >= keys[#[trigger] perm[k2] as int].0,
{
}

/// Whether position `j` appears in `perm`.
pub open spec fn appears(perm: Seq<usize>, j: int) -> bool {
    exists|k: int| 0 <= k < perm.len() && perm[k] == j
}

/// Ranking loses and duplicates nothing: every repository appears exactly
/// once in the ranked list.
pub proof fn law_ranking_is_permutation(keys: Seq<RankKey>, perm: Seq<usize>)
    requires
        is_stable_ranking(keys, perm),
    ensures
        forall|j: int| 0 <= j < keys.len() ==> #[trigger] appears(perm, j),
{
    let n = keys.len() as int;
    let pi = perm.map_values(|x: usize| x as int);
    assert(pi.no_duplicates()) by {
        assert forall|a: int, b: int| 0 <= a < pi.len() && 0 <= b < pi.len() && a != b implies pi[a]
            != pi[b] by {
            if a < b {
                assert(perm[a] != perm[b]);
            } else {
                assert(perm[b] != perm[a]);
            }
        }
    }
    pi.unique_seq_to_set();
    vstd::set_lib::lemma_int_range(0, n);
    let range = vstd::set_lib::set_int_range(0, n);
    assert(pi.to_set().subset_of(range)) by {
        assert forall|x: int| pi.to_set().contains(x) implies range.contains(x) by {
            let k = choose|k: int| 0 <= k < pi.len() && pi[k] == x;
            assert(perm[k] < keys.len());
        }
    }
    pi.lemma_cardinality_of_set();
    vstd::seq_lib::seq_to_set_is_finite(pi);
    vstd::set_lib::lemma_subset_equality(pi.to_set(), range);
    assert forall|j: int| 0 <= j < keys.len() implies #[trigger] appears(perm, j) by {
        assert(range.contains(j));
        assert(pi.to_set().contains(j));
        let k = choose|k: int| 0 <= k < pi.len() && pi[k] == j;
        assert(perm[k] == j);
    }
}

/// A stable ranking of keys that are already in ranking order leaves every
/// position where it is.
proof fn lemma_ranked_keys_keep_order(keys: Seq<RankKey>, perm: Seq<usize>)
    requires
        is_stable_ranking(keys, perm),
        forall|i: int, j: int| 0 <= i < j < keys.len() ==> !ranks_before(keys[j], keys[i]),
    ensures
        forall|k: int| 0 <= k < perm.len() ==> #[trigger] perm[k] == k,
{
    let n = perm.len() as int;
    assert forall|k1: int, k2: int| 0 <= k1 < k2 < n implies perm[k1] < perm[k2] by {
        let a = perm[k1] as int;
        let b = perm[k2] as int;
        assert(a != b);
        if a > b {
            assert(!ranks_before(keys[a], keys[b]));
            assert(!ranks_before(keys[b], keys[a]));
            assert(keys[a] == keys[b]);
        }
    }
    lemma_increasing_is_identity(perm, n);
}

/// A strictly increasing sequence of `n` positions below `n` is `0, 1, ...`.
proof fn lemma_increasing_is_identity(perm: Seq<usize>, n: int)
    requires
        perm.len() == n,
        forall|k: int| 0 <= k < n ==> #[trigger] perm[k] < n,
        forall|k1: int, k2: int| 0 <= k1 < k2 < n ==> perm[k1] < perm[k2],
    ensures
        forall|k: int| 0 <= k < n ==> #[trigger] perm[k] == k,
{
    assert forall|k: int| 0 <= k < n implies #[trigger] perm[k] >= k by {
        lemma_increasing_lower(perm, n, k);
    }
    assert forall|k: int| 0 <= k < n implies #[trigger] perm[k] <= k by {
        lemma_increasing_upper(perm, n, k);
    }
}

proof fn lemma_increasing_lower(perm: Seq<usize>, n: int, k: int)
    requires
        perm.len() == n,
        0 <= k < n,
        forall|k1: int, k2: int| 0 <= k1 < k2 < n ==> perm[k1] < perm[k2],
    ensures
        perm[k] >= k,
    decreases k,
{
    if k > 0 {
        lemma_increasing_lower(perm, n, k - 1);
        assert(perm[k - 1] < perm[k]);
    }
}

proof fn lemma_increasing_upper(perm: Seq<usize>, n: int, k: int)
    requires
        perm.len() == n,
        0 <= k < n,
        forall|k: int| 0 <= k < n ==> #[trigger] perm[k] < n,
        forall|k1: int, k2: int| 0 <= k1 < k2 < n ==> perm[k1] < perm[k2],
    ensures
        perm[k] <= k,
    decreases n - k,
{
    if k < n - 1 {
        lemma_increasing_upper(perm, n, k + 1);
        assert(perm[k] < perm[k + 1]);
    }
}

/// Ranking a ranked list again, each repository keeping its key, changes
/// nothing: `perm` ranks `keys`, `again` ranks the keys in that order, and
/// the list ranked first comes out as it went in.
pub proof fn law_ranking_again_changes_nothing(
    keys: Seq<RankKey>,
    perm: Seq<usize>,
    again: Seq<usize>,
    ranked: Seq<RepoView>,
)
    requires
        is_stable_ranking(keys, perm),
        is_stable_ranking(perm.map_values(|p: usize| keys[p as int]), again),
        ranked.len() == keys.len(),
    ensures
        again.map_values(|p: usize| ranked[p as int]) == ranked,
{
    let sorted = perm.map_values(|p: usize| keys[p as int]);
    assert forall|i: int, j: int| 0 <= i < j < sorted.len() implies !ranks_before(
        sorted[j],
        sorted[i],
    ) by {
        assert(sorted[i] == keys[perm[i] as int]);
        assert(sorted[j] == keys[perm[j] as int]);
    }
    lemma_ranked_keys_keep_order(sorted, again);
    assert(again.map_values(|p: usize| ranked[p as int]) =~= ranked);
}
} // verus!
