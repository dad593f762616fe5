//! Ranking of list entries by a key, highest first, keeping the listing order
//! among entries with equal keys (what a stable sort by descending key gives).

use vstd::prelude::*;

verus! {

/// Entry `a` comes before entry `b`: it has the higher key, or the same key
/// and was listed earlier.
pub open spec fn ranks_before(keys: Seq<u32>, a: int, b: int) -> bool {
    keys[a] > keys[b] || (keys[a] == keys[b] && a < b)
}

/// Entry `a` appears in `order`.
pub open spec fn lists(order: Seq<usize>, a: int) -> bool {
    exists|i: int| 0 <= i < order.len() && #[trigger] order[i] == a
}

/// `order` lists the first `n` entries, each once, in ranking order.
pub open spec fn ranks_first(keys: Seq<u32>, order: Seq<usize>, n: nat) -> bool {
    &&& order.len() == n
    &&& forall|i: int| 0 <= i < order.len() ==> #[trigger] order[i] < n
    &&& forall|a: int| 0 <= a < n ==> #[trigger] lists(order, a)
    &&& forall|i: int, j: int|
        0 <= i < j < order.len() ==> ranks_before(keys, #[trigger] order[i] as int, #[trigger] order[j] as int)
}

/// `order` lists every entry once, in ranking order.
pub open spec fn is_ranking(keys: Seq<u32>, order: Seq<usize>) -> bool {
    ranks_first(keys, order, keys.len())
}

/// The entries' indices in ranking order: highest key first, and among equal
/// keys in the order the entries are listed.
pub fn ranking(keys: &Vec<u32>) -> (order: Vec<usize>)
    ensures
        is_ranking(keys@, order@),
{
    let n = keys.len();
    let mut order: Vec<usize> = Vec::new();
    let mut idx: usize = 0;
    while idx < n
        invariant
            n == keys@.len(),
            idx <= n,
            ranks_first(keys@, order@, idx as nat),
        decreases n - idx,
    {
        let k = keys[idx];
        let mut p: usize = 0;
        while p < order.len() && keys[order[p]] >= k
            invariant
                n == keys@.len(),
                idx < n,
                ranks_first(keys@, order@, idx as nat),
                p <= order.len(),
                forall|i: int| 0 <= i < p ==> keys@[#[trigger] order@[i] as int] >= k,
            decreases order.len() - p,
        {
            p = p + 1;
        }
        let ghost old_order = order@;
        proof {
            if p < old_order.len() {
                assert(keys@[old_order[p as int] as int] < k);
                assert forall|j: int| p <= j < old_order.len() implies keys@[#[trigger] old_order[j] as int] < k by {
                    if j > p {
                        assert(ranks_before(keys@, old_order[p as int] as int, old_order[j] as int));
                    }
                }
            }
        }
        order.insert(p, idx);
        proof {
            let new_order = order@;
            assert(new_order == old_order.insert(p as int, idx));
            assert forall|i: int| 0 <= i < new_order.len() implies #[trigger] new_order[i] < idx + 1 by {
                if i < p {
                    assert(new_order[i] == old_order[i]);
                } else if i > p {
                    assert(new_order[i] == old_order[i - 1]);
                }
            }
            assert forall|a: int| 0 <= a < idx + 1 implies #[trigger] lists(new_order, a) by {
                if a == idx {
                    assert(new_order[p as int] == a);
                } else {
                    assert(lists(old_order, a));
                    let i0 = choose|i: int| 0 <= i < old_order.len() && #[trigger] old_order[i] == a;
                    if i0 < p {
                        assert(new_order[i0] == a);
                    } else {
                        assert(new_order[i0 + 1] == a);
                    }
                }
            }
            assert forall|i: int, j: int| 0 <= i < j < new_order.len() implies ranks_before(
                keys@,
                #[trigger] new_order[i] as int,
                #[trigger] new_order[j] as int,
            ) by {
                if j < p {
                    assert(new_order[i] == old_order[i] && new_order[j] == old_order[j]);
                } else if j == p {
                    assert(new_order[i] == old_order[i]);
                    assert(keys@[old_order[i] as int] >= k);
                    assert(old_order[i] < idx);
                } else if i < p {
                    assert(new_order[i] == old_order[i] && new_order[j] == old_order[j - 1]);
                } else if i == p {
                    assert(new_order[j] == old_order[j - 1]);
                    assert(keys@[old_order[j - 1] as int] < k);
                } else {
                    assert(new_order[i] == old_order[i - 1] && new_order[j] == old_order[j - 1]);
                }
            }
        }
        idx = idx + 1;
    }
    order
}

/// There is exactly one ranking of a list of keys: any two agree at every
/// position.
pub proof fn lemma_ranking_unique(keys: Seq<u32>, o1: Seq<usize>, o2: Seq<usize>)
    requires
        is_ranking(keys, o1),
        is_ranking(keys, o2),
    ensures
        o1 == o2,
{
    lemma_rankings_agree_below(keys, o1, o2, o1.len() as int);
    assert(o1 =~= o2);
}

proof fn lemma_rankings_agree_below(keys: Seq<u32>, o1: Seq<usize>, o2: Seq<usize>, m: int)
    requires
        is_ranking(keys, o1),
        is_ranking(keys, o2),
        0 <= m <= o1.len(),
    ensures
        forall|k: int| 0 <= k < m ==> o1[k] == o2[k],
    decreases m,
{
    if m > 0 {
        let i = m - 1;
        lemma_rankings_agree_below(keys, o1, o2, i);
        let a = o1[i];
        let b = o2[i];
        if a != b {
            assert(lists(o1, b as int));
            assert(lists(o2, a as int));
            let p = choose|p: int| 0 <= p < o1.len() && #[trigger] o1[p] == b as int;
            let q = choose|q: int| 0 <= q < o2.len() && #[trigger] o2[q] == a as int;
            if p < i {
                assert(o2[p] == b);
                assert(ranks_before(keys, o2[p] as int, o2[i] as int));
            }
            if q < i {
                assert(o1[q] == a);
                assert(ranks_before(keys, o1[q] as int, o1[i] as int));
            }
            assert(p > i);
            assert(q > i);
            assert(ranks_before(keys, o1[i] as int, o1[p] as int));
            assert(ranks_before(keys, o2[i] as int, o2[q] as int));
        }
    }
}

} // verus!
