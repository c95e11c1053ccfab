//! Top-N selection by count, used to rank files by how often they are
//! imported and by how many files they import.

use vstd::prelude::*;

verus! {

/// `ix` lists distinct positions of `counts` that hold a positive count, in
/// non-increasing order of count and, among equal counts, in position order;
/// it stops at `limit` entries or when every positive position is listed,
/// and no position left out holds a greater count than a listed one, nor an
/// equal count at an earlier position.
pub open spec fn is_top_ranking(counts: Seq<u32>, limit: nat, ix: Seq<usize>) -> bool {
    &&& ix.len() <= limit
    &&& forall|a: int| 0 <= a < ix.len() ==> (#[trigger] ix[a]) < counts.len() && counts[ix[a] as int] > 0
    &&& forall|a: int, b: int| 0 <= a < b < ix.len() ==> ix[a] != ix[b]
    &&& forall|a: int, b: int|
        0 <= a < b < ix.len() ==> counts[#[trigger] ix[a] as int] > counts[#[trigger] ix[b] as int] || (
        counts[ix[a] as int] == counts[ix[b] as int] && ix[a] < ix[b])
    &&& forall|i: int, a: int|
        #![trigger counts[i], ix[a]]
        0 <= i < counts.len() && counts[i] > 0 && !ix.contains(i as usize) && 0 <= a < ix.len()
            ==> counts[i] < counts[ix[a] as int] || (counts[i] == counts[ix[a] as int] && ix[a] < i)
    &&& ix.len() < limit ==> forall|i: int|
        0 <= i < counts.len() && #[trigger] counts[i] > 0 ==> ix.contains(i as usize)
}

/// The positions of the `limit` greatest positive counts, greatest first;
/// among equal counts the earlier position comes first.
pub fn top_ranked(counts: &Vec<u32>, limit: usize) -> (ix: Vec<usize>)
    ensures
        is_top_ranking(counts@, limit as nat, ix@),
{
    let n = counts.len();
    let mut chosen: Vec<bool> = Vec::new();
    let mut i: usize = 0;
    while i < n
        invariant
            n == counts@.len(),
            0 <= i <= n,
            chosen@.len() == i,
            forall|j: int| 0 <= j < i ==> !chosen@[j],
        decreases n - i,
    {
        chosen.push(false);
        i += 1;
    }
    let mut ix: Vec<usize> = Vec::new();
    while ix.len() < limit
        invariant
            n == counts@.len(),
            chosen@.len() == n,
            ix@.len() <= limit,
            forall|j: int| 0 <= j < n ==> (chosen@[j] <==> ix@.contains(j as usize)),
            forall|a: int| 0 <= a < ix@.len() ==> (#[trigger] ix@[a]) < n && counts@[ix@[a] as int] > 0,
            forall|a: int, b: int| 0 <= a < b < ix@.len() ==> ix@[a] != ix@[b],
            forall|a: int, b: int|
                0 <= a < b < ix@.len() ==> counts@[#[trigger] ix@[a] as int] > counts@[#[trigger] ix@[b] as int] || (
                counts@[ix@[a] as int] == counts@[ix@[b] as int] && ix@[a] < ix@[b]),
            forall|j: int, a: int|
                #![trigger counts@[j], ix@[a]]
                0 <= j < n && counts@[j] > 0 && !ix@.contains(j as usize) && 0 <= a < ix@.len()
                    ==> counts@[j] < counts@[ix@[a] as int] || (counts@[j] == counts@[ix@[a] as int] && ix@[a] < j),
        decreases limit - ix@.len(),
    {
        let mut best: usize = n;
        let mut j: usize = 0;
        while j < n
            invariant
                n == counts@.len(),
                chosen@.len() == n,
                0 <= j <= n,
                best == n || (best < j && !chosen@[best as int] && counts@[best as int] > 0),
                best == n ==> forall|m: int| 0 <= m < j ==> chosen@[m] || counts@[m] == 0,
                best < n ==> forall|m: int|
                    0 <= m < j && !chosen@[m] && counts@[m] > 0 ==> counts@[m] < counts@[best as int] || (counts@[m]
                        == counts@[best as int] && best as int <= m),
            decreases n - j,
        {
            if !chosen[j] && counts[j] > 0 && (best == n || counts[j] > counts[best]) {
                best = j;
            }
            j += 1;
        }
        if best == n {
            assert forall|m: int| 0 <= m < counts@.len() && #[trigger] counts@[m] > 0 implies ix@.contains(m as usize) by {
                assert(chosen@[m]);
            }
            assert(is_top_ranking(counts@, limit as nat, ix@));
            return ix;
        }
        let ghost old_ix = ix@;
        chosen.set(best, true);
        ix.push(best);
        assert forall|m: int| 0 <= m < n implies (chosen@[m] <==> ix@.contains(m as usize)) by {
            if m == best as int {
                assert(ix@[ix@.len() - 1] == best);
            } else {
                if old_ix.contains(m as usize) {
                    let a = choose|a: int| 0 <= a < old_ix.len() && old_ix[a] == m as usize;
                    assert(ix@[a] == m as usize);
                }
                if ix@.contains(m as usize) {
                    let a = choose|a: int| 0 <= a < ix@.len() && ix@[a] == m as usize;
                    assert(a < old_ix.len());
                    assert(old_ix[a] == m as usize);
                }
            }
        }
        assert forall|a: int, b: int| 0 <= a < b < ix@.len() implies ix@[a] != ix@[b] by {
            if b == ix@.len() - 1 {
                assert(old_ix[a] == ix@[a]);
                assert(old_ix.contains(ix@[a]));
            }
        }
        assert forall|a: int, b: int| 0 <= a < b < ix@.len() implies counts@[#[trigger] ix@[a] as int]
            > counts@[#[trigger] ix@[b] as int] || (counts@[ix@[a] as int] == counts@[ix@[b] as int] && ix@[a] < ix@[b]) by {
            if b == ix@.len() - 1 {
                assert(old_ix[a] == ix@[a]);
                assert(!old_ix.contains(best));
            } else {
                assert(old_ix[a] == ix@[a] && old_ix[b] == ix@[b]);
            }
        }
        assert forall|m: int, a: int|
            #![trigger counts@[m], ix@[a]]
            0 <= m < n && counts@[m] > 0 && !ix@.contains(m as usize) && 0 <= a < ix@.len()
            implies counts@[m] < counts@[ix@[a] as int] || (counts@[m] == counts@[ix@[a] as int] && ix@[a] < m) by {
            assert(!chosen@[m]);
            if a < ix@.len() - 1 {
                assert(old_ix[a] == ix@[a]);
                assert(!old_ix.contains(m as usize)) by {
                    if old_ix.contains(m as usize) {
                        let c = choose|c: int| 0 <= c < old_ix.len() && old_ix[c] == m as usize;
                        assert(ix@[c] == m as usize);
                    }
                }
            } else {
                assert(m != best as int);
            }
        }
    }
    ix
}

/// Ranking by count: a position with a greater count than a listed one is
/// listed too, and earlier.
pub proof fn lemma_greater_count_ranks_higher(
    counts: Seq<u32>,
    limit: nat,
    ix: Seq<usize>,
    x: usize,
    q: int,
)
    requires
        is_top_ranking(counts, limit, ix),
        x < counts.len(),
        0 <= q < ix.len(),
        counts[x as int] > counts[ix[q] as int],
    ensures
        exists|p: int| 0 <= p < q && ix[p] == x,
{
    let y = ix[q];
    assert(counts[y as int] > 0);
    if !ix.contains(x) {
        assert(counts[x as int] <= counts[ix[q] as int]);
    }
    let p = choose|p: int| 0 <= p < ix.len() && ix[p] == x;
    if p > q {
        assert(counts[ix[q] as int] >= counts[ix[p] as int]);
    }
    assert(p != q);
    assert(p < q);
}

/// `ix` lists the positions of `counts` in the order a stable sort by
/// decreasing count puts them, cut to at most `limit`: distinct positions,
/// counts non-increasing, equal counts in position order, and no position
/// left out that a stable sort would have put before a listed one.
pub open spec fn is_stable_top(counts: Seq<u32>, limit: nat, ix: Seq<usize>) -> bool {
    &&& ix.len() == if limit < counts.len() { limit } else { counts.len() }
    &&& forall|a: int| 0 <= a < ix.len() ==> (#[trigger] ix[a]) < counts.len()
    &&& forall|a: int, b: int| 0 <= a < b < ix.len() ==> ix[a] != ix[b]
    &&& forall|a: int, b: int|
        0 <= a < b < ix.len() ==> counts[#[trigger] ix[a] as int] > counts[#[trigger] ix[b] as int] || (
        counts[ix[a] as int] == counts[ix[b] as int] && ix[a] < ix[b])
    &&& forall|j: int, a: int|
        #![trigger counts[j], ix[a]]
        0 <= j < counts.len() && !ix.contains(j as usize) && 0 <= a < ix.len() ==> counts[j] < counts[ix[a] as int] || (
        counts[j] == counts[ix[a] as int] && ix[a] < j)
}

/// The positions of `counts` as a stable sort by decreasing count orders
/// them, at most `limit` of them.
pub fn stable_top(counts: &Vec<u32>, limit: usize) -> (ix: Vec<usize>)
    ensures
        is_stable_top(counts@, limit as nat, ix@),
{
    let n = counts.len();
    let mut chosen: Vec<bool> = Vec::new();
    let mut i: usize = 0;
    while i < n
        invariant
            n == counts@.len(),
            0 <= i <= n,
            chosen@.len() == i,
            forall|j: int| 0 <= j < i ==> !chosen@[j],
        decreases n - i,
    {
        chosen.push(false);
        i += 1;
    }
    let mut ix: Vec<usize> = Vec::new();
    while ix.len() < limit && ix.len() < n
        invariant
            n == counts@.len(),
            chosen@.len() == n,
            ix@.len() <= limit,
            ix@.len() <= n,
            forall|j: int| 0 <= j < n ==> (chosen@[j] <==> ix@.contains(j as usize)),
            forall|a: int| 0 <= a < ix@.len() ==> (#[trigger] ix@[a]) < n,
            forall|a: int, b: int| 0 <= a < b < ix@.len() ==> ix@[a] != ix@[b],
            forall|a: int, b: int|
                0 <= a < b < ix@.len() ==> counts@[#[trigger] ix@[a] as int] > counts@[#[trigger] ix@[b] as int] || (
                counts@[ix@[a] as int] == counts@[ix@[b] as int] && ix@[a] < ix@[b]),
            forall|j: int, a: int|
                #![trigger counts@[j], ix@[a]]
                0 <= j < n && !ix@.contains(j as usize) && 0 <= a < ix@.len() ==> counts@[j] < counts@[ix@[a] as int] || (
                counts@[j] == counts@[ix@[a] as int] && ix@[a] < j),
        decreases n - ix@.len(),
    {
        proof {
            // some position is still free, since the listed ones are distinct
            if forall|j: int| 0 <= j < n ==> chosen@[j] {
                let m = Seq::new(ix@.len(), |t: int| ix@[t] as int);
                let all = vstd::set_lib::set_int_range(0, n as int);
                vstd::set_lib::lemma_int_range(0, n as int);
                assert(m.no_duplicates());
                m.unique_seq_to_set();
                assert(all.subset_of(m.to_set())) by {
                    assert forall|x: int| all.contains(x) implies m.to_set().contains(x) by {
                        assert(chosen@[x]);
                        let t = choose|t: int| 0 <= t < ix@.len() && ix@[t] == x as usize;
                        assert(m[t] == x);
                    }
                }
                vstd::set_lib::lemma_len_subset(all, m.to_set());
            }
        }
        let mut best: usize = n;
        let mut j: usize = 0;
        while j < n
            invariant
                n == counts@.len(),
                chosen@.len() == n,
                0 <= j <= n,
                best == n || (best < j && !chosen@[best as int]),
                best == n ==> forall|m: int| 0 <= m < j ==> chosen@[m],
                best < n ==> forall|m: int|
                    0 <= m < j && !chosen@[m] ==> counts@[m] < counts@[best as int] || (counts@[m] == counts@[best as int]
                        && best as int <= m),
            decreases n - j,
        {
            if !chosen[j] && (best == n || counts[j] > counts[best]) {
                best = j;
            }
            j += 1;
        }
        assert(best < n);
        let ghost old_ix = ix@;
        chosen.set(best, true);
        ix.push(best);
        assert forall|m: int| 0 <= m < n implies (chosen@[m] <==> ix@.contains(m as usize)) by {
            if m == best as int {
                assert(ix@[ix@.len() - 1] == best);
            } else {
                if old_ix.contains(m as usize) {
                    let a = choose|a: int| 0 <= a < old_ix.len() && old_ix[a] == m as usize;
                    assert(ix@[a] == m as usize);
                }
                if ix@.contains(m as usize) {
                    let a = choose|a: int| 0 <= a < ix@.len() && ix@[a] == m as usize;
                    assert(a < old_ix.len());
                    assert(old_ix[a] == m as usize);
                }
            }
        }
        assert forall|a: int, b: int| 0 <= a < b < ix@.len() implies ix@[a] != ix@[b] by {
            if b == ix@.len() - 1 {
                assert(old_ix[a] == ix@[a]);
                assert(old_ix.contains(ix@[a]));
            }
        }
        assert forall|a: int, b: int| 0 <= a < b < ix@.len() implies counts@[#[trigger] ix@[a] as int]
            > counts@[#[trigger] ix@[b] as int] || (counts@[ix@[a] as int] == counts@[ix@[b] as int] && ix@[a] < ix@[b]) by {
            if b == ix@.len() - 1 {
                assert(old_ix[a] == ix@[a]);
                assert(!old_ix.contains(best));
            } else {
                assert(old_ix[a] == ix@[a] && old_ix[b] == ix@[b]);
            }
        }
        assert forall|m: int, a: int|
            #![trigger counts@[m], ix@[a]]
            0 <= m < n && !ix@.contains(m as usize) && 0 <= a < ix@.len()
            implies counts@[m] < counts@[ix@[a] as int] || (counts@[m] == counts@[ix@[a] as int] && ix@[a] < m) by {
            assert(!chosen@[m]);
            if a < ix@.len() - 1 {
                assert(old_ix[a] == ix@[a]);
                assert(!old_ix.contains(m as usize)) by {
                    if old_ix.contains(m as usize) {
                        let c = choose|c: int| 0 <= c < old_ix.len() && old_ix[c] == m as usize;
                        assert(ix@[c] == m as usize);
                    }
                }
            } else {
                assert(m != best as int);
            }
        }
    }
    ix
}

} // verus!
