//! Ranking of recalled memory entries: by similarity score, best first (ties in
//! storage order), the first `top_k`, keeping only those above the threshold.
//! Scores are given as integer keys that order entries as their similarities do.
use vstd::prelude::*;

verus! {

/// `o` with entry `i` placed after every entry scoring at least as well.
pub open spec fn insert_by_score(o: Seq<usize>, s: Seq<i64>, i: usize) -> Seq<usize>
    decreases o.len(),
{
    if o.len() == 0 {
        seq![i]
    } else if s[o.last() as int] >= s[i as int] {
        o.push(i)
    } else {
        insert_by_score(o.drop_last(), s, i).push(o.last())
    }
}

/// Entries `0..k` in ranking order: a stable sort by descending score.
pub open spec fn ranking(s: Seq<i64>, k: nat) -> Seq<usize>
    decreases k,
{
    if k == 0 {
        seq![]
    } else {
        insert_by_score(ranking(s, (k - 1) as nat), s, (k - 1) as usize)
    }
}

/// The entries of `o[0..j]` whose score is above `threshold`, in order.
pub open spec fn above(o: Seq<usize>, s: Seq<i64>, threshold: i64, j: int) -> Seq<usize>
    decreases j,
{
    if j <= 0 {
        seq![]
    } else if s[o[j - 1] as int] > threshold {
        above(o, s, threshold, j - 1).push(o[j - 1])
    } else {
        above(o, s, threshold, j - 1)
    }
}

/// The recalled entries: the first `top_k` of the ranking whose score is above `threshold`.
pub open spec fn recalled(s: Seq<i64>, top_k: nat, threshold: i64) -> Seq<usize> {
    let o = ranking(s, s.len());
    let j = if top_k < o.len() {
        top_k as int
    } else {
        o.len() as int
    };
    above(o, s, threshold, j)
}

/// `o` lists entries in descending score.
pub open spec fn descending(o: Seq<usize>, s: Seq<i64>) -> bool {
    forall|a: int, b: int| 0 <= a < b < o.len() ==> s[o[a] as int] >= s[o[b] as int]
}

proof fn lemma_insert_at(o: Seq<usize>, s: Seq<i64>, i: usize, p: int)
    requires
        descending(o, s),
        0 <= p <= o.len(),
        forall|a: int| 0 <= a < p ==> s[o[a] as int] >= s[i as int],
        forall|a: int| p <= a < o.len() ==> s[o[a] as int] < s[i as int],
    ensures
        insert_by_score(o, s, i) == o.insert(p, i),
    decreases o.len(),
{
    if o.len() == 0 {
        assert(o.insert(p, i) =~= seq![i]);
    } else if s[o.last() as int] >= s[i as int] {
        assert(p == o.len());
        assert(o.insert(p, i) =~= o.push(i));
    } else {
        let d = o.drop_last();
        assert(p < o.len());
        lemma_insert_at(d, s, i, p);
        assert(d.insert(p, i).push(o.last()) =~= o.insert(p, i));
    }
}

/// Ranks `scores`: returns the indices of the recalled entries (see `recalled`).
pub fn rank_entries(scores: &Vec<i64>, top_k: usize, threshold: i64) -> (r: Vec<usize>)
    ensures
        r@ == recalled(scores@, top_k as nat, threshold),
{
    let ghost s = scores@;
    let n = scores.len();
    let mut order: Vec<usize> = Vec::new();
    let mut i: usize = 0;
    while i < n
        invariant
            n == s.len(),
            s == scores@,
            i <= n,
            order@ == ranking(s, i as nat),
            order@.len() == i,
            descending(order@, s),
            forall|a: int| 0 <= a < order@.len() ==> order@[a] < i,
        decreases n - i,
    {
        let mut p: usize = 0;
        while p < order.len() && scores[order[p]] >= scores[i]
            invariant
                n == s.len(),
                s == scores@,
                i < n,
                p <= order@.len(),
                forall|a: int| 0 <= a < order@.len() ==> order@[a] < i,
                forall|a: int| 0 <= a < p ==> s[order@[a] as int] >= s[i as int],
            decreases order@.len() - p,
        {
            p = p + 1;
        }
        proof {
            assert forall|a: int| p <= a < order@.len() implies s[order@[a] as int] < s[i as int] by {
                if s[order@[a] as int] >= s[i as int] {
                    assert(s[order@[p as int] as int] >= s[order@[a] as int]);
                }
            }
            lemma_insert_at(order@, s, i, p as int);
        }
        let ghost before = order@;
        order.insert(p, i);
        proof {
            assert(order@ == before.insert(p as int, i));
            assert(ranking(s, (i + 1) as nat) == insert_by_score(ranking(s, i as nat), s, i));
            assert forall|a: int, b: int| 0 <= a < b < order@.len() implies s[order@[a] as int]
                >= s[order@[b] as int] by {
                if a < p && b < p {
                    assert(order@[a] == before[a] && order@[b] == before[b]);
                } else if a < p && b == p {
                } else if a < p {
                    assert(order@[a] == before[a] && order@[b] == before[b - 1]);
                } else if a == p {
                    assert(order@[b] == before[b - 1]);
                } else {
                    assert(order@[a] == before[a - 1] && order@[b] == before[b - 1]);
                }
            }
            assert forall|a: int| 0 <= a < order@.len() implies order@[a] < i + 1 by {
                if a < p {
                    assert(order@[a] == before[a]);
                } else if a > p {
                    assert(order@[a] == before[a - 1]);
                }
            }
        }
        i = i + 1;
    }
    let j = if top_k < order.len() {
        top_k
    } else {
        order.len()
    };
    let mut r: Vec<usize> = Vec::new();
    let mut q: usize = 0;
    while q < j
        invariant
            j <= order@.len() == n == s.len(),
            s == scores@,
            forall|a: int| 0 <= a < order@.len() ==> order@[a] < n,
            r@ == above(order@, s, threshold, q as int),
            q <= j,
        decreases j - q,
    {
        if scores[order[q]] > threshold {
            r.push(order[q]);
        }
        q = q + 1;
    }
    r
}

proof fn lemma_insert_props(o: Seq<usize>, s: Seq<i64>, i: usize)
    requires
        descending(o, s),
        0 <= i < s.len(),
        forall|a: int| 0 <= a < o.len() ==> o[a] < s.len(),
    ensures
        insert_by_score(o, s, i).len() == o.len() + 1,
        descending(insert_by_score(o, s, i), s),
        forall|a: int|
            0 <= a < insert_by_score(o, s, i).len() ==> (#[trigger] insert_by_score(o, s, i)[a] == i
                || o.contains(insert_by_score(o, s, i)[a])),
    decreases o.len(),
{
    let r = insert_by_score(o, s, i);
    if o.len() == 0 {
    } else if s[o.last() as int] >= s[i as int] {
        assert forall|a: int| 0 <= a < r.len() implies (#[trigger] r[a] == i || o.contains(r[a])) by {
            if a < o.len() {
                assert(r[a] == o[a]);
            }
        }
    } else {
        let d = o.drop_last();
        assert forall|a: int, b: int| 0 <= a < b < d.len() implies s[d[a] as int] >= s[d[b] as int] by {
            assert(d[a] == o[a] && d[b] == o[b]);
        }
        lemma_insert_props(d, s, i);
        let r0 = insert_by_score(d, s, i);
        assert forall|a: int| 0 <= a < r0.len() implies s[r0[a] as int] >= s[o.last() as int] by {
            if r0[a] != i {
                assert(d.contains(r0[a]));
                let b = choose|b: int| 0 <= b < d.len() && d[b] == r0[a];
                assert(o[b] == d[b]);
            }
        }
        assert forall|a: int| 0 <= a < r.len() implies (#[trigger] r[a] == i || o.contains(r[a])) by {
            if a < r0.len() {
                assert(r[a] == r0[a]);
                if r0[a] != i {
                    let b = choose|b: int| 0 <= b < d.len() && d[b] == r0[a];
                    assert(o[b] == d[b]);
                }
            } else {
                assert(o[o.len() - 1] == o.last());
            }
        }
        assert forall|a: int, b: int| 0 <= a < b < r.len() implies s[r[a] as int] >= s[r[b] as int] by {
            if b < r0.len() {
                assert(r[a] == r0[a] && r[b] == r0[b]);
            } else {
                assert(r[a] == r0[a]);
            }
        }
    }
}

proof fn lemma_ranking_props(s: Seq<i64>, k: nat)
    requires
        k <= s.len(),
    ensures
        ranking(s, k).len() == k,
        descending(ranking(s, k), s),
        forall|a: int| 0 <= a < k ==> #[trigger] ranking(s, k)[a] < k,
    decreases k,
{
    if k > 0 {
        let o = ranking(s, (k - 1) as nat);
        lemma_ranking_props(s, (k - 1) as nat);
        lemma_insert_props(o, s, (k - 1) as usize);
        let r = ranking(s, k);
        assert forall|a: int| 0 <= a < k implies #[trigger] r[a] < k by {
            if r[a] != (k - 1) as usize {
                let b = choose|b: int| 0 <= b < o.len() && o[b] == r[a];
                assert(o[b] < k - 1);
            }
        }
    }
}

proof fn lemma_above_props(o: Seq<usize>, s: Seq<i64>, threshold: i64, j: int)
    requires
        0 <= j <= o.len(),
        descending(o, s),
        forall|a: int| 0 <= a < o.len() ==> o[a] < s.len(),
    ensures
        above(o, s, threshold, j).len() <= j,
        descending(above(o, s, threshold, j), s),
        forall|a: int|
            0 <= a < above(o, s, threshold, j).len() ==> s[above(o, s, threshold, j)[a] as int]
                > threshold && exists|b: int| 0 <= b < j && o[b] == #[trigger] above(o, s, threshold, j)[a],
    decreases j,
{
    if j > 0 {
        lemma_above_props(o, s, threshold, j - 1);
        let prev = above(o, s, threshold, j - 1);
        let r = above(o, s, threshold, j);
        if s[o[j - 1] as int] > threshold {
            assert forall|a: int| 0 <= a < prev.len() implies s[prev[a] as int] >= s[o[j - 1] as int] by {
                let b = choose|b: int| 0 <= b < j - 1 && o[b] == prev[a];
            }
            assert forall|a: int| 0 <= a < r.len() implies s[r[a] as int] > threshold && exists|b: int|
                0 <= b < j && o[b] == #[trigger] r[a] by {
                if a < prev.len() {
                    assert(r[a] == prev[a]);
                    let b = choose|b: int| 0 <= b < j - 1 && o[b] == prev[a];
                } else {
                    assert(o[j - 1] == r[a]);
                }
            }
            assert forall|a: int, b: int| 0 <= a < b < r.len() implies s[r[a] as int] >= s[r[b] as int] by {
                if b < prev.len() {
                    assert(r[a] == prev[a] && r[b] == prev[b]);
                } else {
                    assert(r[a] == prev[a]);
                }
            }
        } else {
            assert forall|a: int| 0 <= a < r.len() implies s[r[a] as int] > threshold && exists|b: int|
                0 <= b < j && o[b] == #[trigger] r[a] by {
                let b = choose|b: int| 0 <= b < j - 1 && o[b] == prev[a];
            }
        }
    }
}

proof fn lemma_insert_keeps(o: Seq<usize>, s: Seq<i64>, i: usize)
    ensures
        insert_by_score(o, s, i).contains(i),
        forall|x: usize| o.contains(x) ==> #[trigger] insert_by_score(o, s, i).contains(x),
    decreases o.len(),
{
    let r = insert_by_score(o, s, i);
    if o.len() == 0 {
        assert(r[0] == i);
    } else if s[o.last() as int] >= s[i as int] {
        assert(r[o.len() as int] == i);
        assert forall|x: usize| o.contains(x) implies #[trigger] r.contains(x) by {
            let b = choose|b: int| 0 <= b < o.len() && o[b] == x;
            assert(r[b] == x);
        }
    } else {
        let d = o.drop_last();
        lemma_insert_keeps(d, s, i);
        let r0 = insert_by_score(d, s, i);
        assert(r == r0.push(o.last()));
        let bi = choose|b: int| 0 <= b < r0.len() && r0[b] == i;
        assert(r0.push(o.last())[bi] == r0[bi]);
        assert(r[bi] == i);
        assert forall|x: usize| o.contains(x) implies #[trigger] r.contains(x) by {
            let b = choose|b: int| 0 <= b < o.len() && o[b] == x;
            if b == o.len() - 1 {
                assert(r0.push(o.last())[r0.len() as int] == x);
            } else {
                assert(d[b] == x);
                assert(d.contains(x));
                assert(r0.contains(x));
                let c = choose|c: int| 0 <= c < r0.len() && r0[c] == x;
                assert(r0.push(o.last())[c] == r0[c]);
                assert(r[c] == x);
            }
        }
    }
}

proof fn lemma_ranking_complete(s: Seq<i64>, k: nat)
    ensures
        forall|i: usize| i < k ==> #[trigger] ranking(s, k).contains(i),
    decreases k,
{
    if k > 0 {
        lemma_ranking_complete(s, (k - 1) as nat);
        lemma_insert_keeps(ranking(s, (k - 1) as nat), s, (k - 1) as usize);
    }
}

proof fn lemma_above_complete(o: Seq<usize>, s: Seq<i64>, threshold: i64, j: int)
    requires
        0 <= j <= o.len(),
    ensures
        forall|a: int|
            0 <= a < j && s[o[a] as int] > threshold ==> #[trigger] above(o, s, threshold, j).contains(
                o[a],
            ),
    decreases j,
{
    if j > 0 {
        lemma_above_complete(o, s, threshold, j - 1);
        let prev = above(o, s, threshold, j - 1);
        let r = above(o, s, threshold, j);
        assert forall|a: int| 0 <= a < j && s[o[a] as int] > threshold implies #[trigger] r.contains(o[a]) by {
            if a == j - 1 {
                assert(r[prev.len() as int] == o[a]);
            } else {
                assert(prev.contains(o[a]));
                if s[o[j - 1] as int] > threshold {
                    let c = choose|c: int| 0 <= c < prev.len() && prev[c] == o[a];
                    assert(r[c] == o[a]);
                }
            }
        }
    }
}

/// Ranking and recall are complete: every stored entry has its place in the ranking
/// (best first), and each entry among the first `top_k` of the ranking that scores
/// above the threshold is recalled.
pub proof fn law_recall_complete(s: Seq<i64>, top_k: nat, threshold: i64)
    ensures
        ranking(s, s.len()).len() == s.len(),
        descending(ranking(s, s.len()), s),
        forall|i: usize| i < s.len() ==> #[trigger] ranking(s, s.len()).contains(i),
        forall|a: int|
            0 <= a < top_k && 0 <= a < s.len() && s[ranking(s, s.len())[a] as int] > threshold
                ==> #[trigger] recalled(s, top_k, threshold).contains(ranking(s, s.len())[a]),
{
    lemma_ranking_props(s, s.len());
    lemma_ranking_complete(s, s.len());
    let o = ranking(s, s.len());
    let j = if top_k < o.len() {
        top_k as int
    } else {
        o.len() as int
    };
    lemma_above_complete(o, s, threshold, j);
}

/// What is recalled is at most `top_k` entries, each scoring above the threshold,
/// best first, each an entry of the store.
pub proof fn law_recall_bounded_and_ordered(s: Seq<i64>, top_k: nat, threshold: i64)
    ensures
        recalled(s, top_k, threshold).len() <= top_k,
        descending(recalled(s, top_k, threshold), s),
        forall|a: int|
            0 <= a < recalled(s, top_k, threshold).len() ==> #[trigger] recalled(s, top_k, threshold)[a]
                < s.len() && s[recalled(s, top_k, threshold)[a] as int] > threshold,
{
    let o = ranking(s, s.len());
    lemma_ranking_props(s, s.len());
    let j = if top_k < o.len() {
        top_k as int
    } else {
        o.len() as int
    };
    lemma_above_props(o, s, threshold, j);
    let r = recalled(s, top_k, threshold);
    assert forall|a: int| 0 <= a < r.len() implies #[trigger] r[a] < s.len() && s[r[a] as int] > threshold by {
        let b = choose|b: int| 0 <= b < j && o[b] == r[a];
    }
}

} // verus!
