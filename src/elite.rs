use vstd::prelude::*;

verus! {

/// `order` lists each of the indices `0..n` exactly once.
pub open spec fn is_permutation(order: Seq<usize>, n: nat) -> bool {
    &&& order.len() == n
    &&& forall|p: int| 0 <= p < order.len() ==> order[p] < n
    &&& forall|p: int, q: int| 0 <= p < q < order.len() ==> order[p] != order[q]
    &&& forall|j: usize| j < n ==> #[trigger] order.contains(j)
}

/// `order` ranks a batch for elite selection: it is a permutation of the
/// batch's indices whose first `n_elite` entries are in non-increasing order
/// of key, and each of them has a key at least as large as every index
/// after them.
pub open spec fn is_elite_order(keys: Seq<i64>, order: Seq<usize>, n_elite: nat) -> bool {
    &&& is_permutation(order, keys.len())
    &&& n_elite <= keys.len()
    &&& forall|p: int, q: int|
        0 <= p < q < n_elite ==> keys[order[p] as int] >= keys[order[q] as int]
    &&& forall|p: int, q: int|
        0 <= p < n_elite <= q < order.len() ==> keys[order[p] as int] >= keys[order[q] as int]
}

/// Ranks a batch by key for elite selection: a permutation of
/// `0..keys.len()` whose first `n_elite` entries are the indices of the
/// `n_elite` largest keys, largest first. Which of two equal keys comes
/// first is left open.
pub fn elite_order(keys: &Vec<i64>, n_elite: usize) -> (order: Vec<usize>)
    requires
        n_elite <= keys@.len(),
    ensures
        is_elite_order(keys@, order@, n_elite as nat),
{
    let n = keys.len();
    let mut order: Vec<usize> = Vec::new();
    for j in 0..n
        invariant
            n == keys@.len(),
            order@.len() == j,
            forall|p: int| 0 <= p < j ==> order@[p] == p,
    {
        order.push(j);
    }
    assert forall|j: usize| j < n implies #[trigger] order@.contains(j) by {
        assert(order@[j as int] == j);
    }
    let mut k: usize = 0;
    while k < n_elite
        invariant
            n == keys@.len(),
            n_elite <= n,
            k <= n_elite,
            is_permutation(order@, n as nat),
            forall|p: int, q: int|
                0 <= p < q < k ==> keys@[order@[p] as int] >= keys@[order@[q] as int],
            forall|p: int, q: int|
                0 <= p < k <= q < n ==> keys@[order@[p] as int] >= keys@[order@[q] as int],
        decreases n_elite - k,
    {
        let mut best: usize = k;
        let mut j: usize = k + 1;
        while j < n
            invariant
                n == keys@.len(),
                order@.len() == n,
                k < n,
                k <= best < j <= n,
                forall|p: int| 0 <= p < n ==> order@[p] < n,
                forall|q: int|
                    k <= q < j ==> keys@[order@[q] as int] <= keys@[order@[best as int] as int],
            decreases n - j,
        {
            if keys[order[j]] > keys[order[best]] {
                best = j;
            }
            j = j + 1;
        }
        let ghost before = order@;
        let a = order[k];
        let b = order[best];
        order.set(k, b);
        order.set(best, a);
        proof {
            assert(order@ == before.update(k as int, b).update(best as int, a));
            assert forall|j: usize| j < n implies #[trigger] order@.contains(j) by {
                assert(before.contains(j));
                let p = choose|p: int| 0 <= p < before.len() && before[p] == j;
                if p == k {
                    assert(order@[best as int] == j);
                } else if p == best {
                    assert(order@[k as int] == j);
                } else {
                    assert(order@[p] == j);
                }
            }
            assert forall|p: int, q: int| 0 <= p < q < order@.len() implies order@[p]
                != order@[q] by {
                if p != k && p != best && q != k && q != best {
                    assert(before[p] != before[q]);
                }
            }
        }
        k = k + 1;
    }
    order
}

/// The elite set that an elite order selects: its first `n_elite` indices.
pub open spec fn elite_set(order: Seq<usize>, n_elite: nat) -> Set<usize> {
    order.subrange(0, n_elite as int).to_set()
}

/// Elite selection is exact: the elite set holds `n_elite` distinct indices
/// of the batch, and no index left out of it has a larger key than any index
/// in it.
pub proof fn lemma_elites_are_top(keys: Seq<i64>, order: Seq<usize>, n_elite: nat)
    requires
        is_elite_order(keys, order, n_elite),
    ensures
        elite_set(order, n_elite).len() == n_elite,
        forall|i: usize| #[trigger] elite_set(order, n_elite).contains(i) ==> i < keys.len(),
        forall|i: usize, j: usize|
            #[trigger] elite_set(order, n_elite).contains(i) && j < keys.len()
                && !#[trigger] elite_set(order, n_elite).contains(j) ==> keys[i as int]
                >= keys[j as int],
{
    let prefix = order.subrange(0, n_elite as int);
    assert(prefix.no_duplicates());
    prefix.unique_seq_to_set();
    assert forall|i: usize| #[trigger] elite_set(order, n_elite).contains(i) implies i
        < keys.len() by {
        assert(prefix.contains(i));
    }
    assert forall|i: usize, j: usize|
        #[trigger] elite_set(order, n_elite).contains(i) && j < keys.len()
            && !#[trigger] elite_set(order, n_elite).contains(j) implies keys[i as int]
        >= keys[j as int] by {
        assert(prefix.contains(i));
        let p = choose|p: int| 0 <= p < prefix.len() && prefix[p] == i;
        assert(order.contains(j));
        let q = choose|q: int| 0 <= q < order.len() && order[q] == j;
        if q < n_elite {
            assert(prefix[q] == j);
            assert(prefix.contains(j));
        }
        assert(order[p] == i);
    }
}

/// Two key vectors of one batch order its indices alike.
pub open spec fn same_order(k1: Seq<i64>, k2: Seq<i64>) -> bool {
    &&& k1.len() == k2.len()
    &&& forall|i: int, j: int|
        #![trigger k1[i], k1[j]]
        0 <= i < k1.len() && 0 <= j < k1.len() ==> (k1[i] >= k1[j] <==> k2[i] >= k2[j])
}

/// No two indices of the batch have equal keys.
pub open spec fn distinct_keys(keys: Seq<i64>) -> bool {
    forall|i: int, j: int| 0 <= i < j < keys.len() ==> keys[i] != keys[j]
}

/// Elite selection depends on the keys only through their order: an elite
/// order for one key vector is one for every key vector that orders the
/// batch alike (a strictly increasing function of the scores, say).
pub proof fn lemma_elite_order_depends_on_key_order(
    k1: Seq<i64>,
    k2: Seq<i64>,
    order: Seq<usize>,
    n_elite: nat,
)
    requires
        is_elite_order(k1, order, n_elite),
        same_order(k1, k2),
    ensures
        is_elite_order(k2, order, n_elite),
{
    assert forall|p: int, q: int| 0 <= p < q < n_elite implies k2[order[p] as int] >= k2[order[
        q
    ] as int] by {
        assert(k1[order[p] as int] >= k1[order[q] as int]);
    }
    assert forall|p: int, q: int| 0 <= p < n_elite <= q < order.len() implies k2[order[
        p
    ] as int] >= k2[order[q] as int] by {
        assert(k1[order[p] as int] >= k1[order[q] as int]);
    }
}

/// Where no two keys are equal, the elite part of an elite order is unique:
/// the same indices in the same places, whatever order the batch's scores
/// arrived in.
pub proof fn lemma_elite_prefix_unique(
    keys: Seq<i64>,
    o1: Seq<usize>,
    o2: Seq<usize>,
    n_elite: nat,
)
    requires
        distinct_keys(keys),
        is_elite_order(keys, o1, n_elite),
        is_elite_order(keys, o2, n_elite),
    ensures
        o1.subrange(0, n_elite as int) == o2.subrange(0, n_elite as int),
{
    if n_elite > 0 {
        lemma_elite_prefix_agrees(keys, o1, o2, n_elite, (n_elite - 1) as nat);
    }
    assert(o1.subrange(0, n_elite as int) =~= o2.subrange(0, n_elite as int));
}

proof fn lemma_elite_prefix_agrees(
    keys: Seq<i64>,
    o1: Seq<usize>,
    o2: Seq<usize>,
    n_elite: nat,
    p: nat,
)
    requires
        distinct_keys(keys),
        is_elite_order(keys, o1, n_elite),
        is_elite_order(keys, o2, n_elite),
        p < n_elite,
    ensures
        forall|i: int| 0 <= i <= p ==> o1[i] == o2[i],
    decreases p,
{
    if p > 0 {
        lemma_elite_prefix_agrees(keys, o1, o2, n_elite, (p - 1) as nat);
    }
    let a = o1[p as int];
    let b = o2[p as int];
    if a != b {
        assert(o2.contains(a));
        let q = choose|q: int| 0 <= q < o2.len() && o2[q] == a;
        assert(o1.contains(b));
        let r = choose|r: int| 0 <= r < o1.len() && o1[r] == b;
        if q < p {
            assert(o1[q] == a);
        }
        if r < p {
            assert(o2[r] == b);
        }
        assert(q != p && r != p);
        assert(keys[b as int] >= keys[a as int]);
        assert(keys[a as int] >= keys[b as int]);
        if a < b {
            assert(keys[a as int] != keys[b as int]);
        } else {
            assert(keys[b as int] != keys[a as int]);
        }
    }
}

} // verus!
