//! Stable ordering of chart data by time.
//!
//! Charts are sorted by time when they are loaded, keeping items with equal
//! times in their input order. Times are handed in as keys whose integer
//! order is the order of the times.
use vstd::prelude::*;

verus! {

/// Item `a` comes before item `b`: a smaller key, or an equal key and an earlier position.
pub open spec fn precedes(keys: Seq<u64>, a: usize, b: usize) -> bool {
    keys[a as int] < keys[b as int] || (keys[a as int] == keys[b as int] && a < b)
}

/// `order` lists every position of `keys` once, by nondecreasing key, keeping
/// positions with equal keys in their input order.
pub open spec fn is_stable_order(keys: Seq<u64>, order: Seq<usize>) -> bool {
    &&& order.len() == keys.len()
    &&& forall|i: int| 0 <= i < order.len() ==> #[trigger] order[i] < keys.len()
    &&& forall|i: int, j: int|
        0 <= i < j < order.len() ==> precedes(keys, #[trigger] order[i], #[trigger] order[j])
    &&& forall|v: usize| v < keys.len() ==> #[trigger] order.contains(v)
}

/// Computes the stable sorting order of `keys`: the positions of `keys`,
/// listed by nondecreasing key, equal keys in their input order.
pub fn stable_order(keys: &Vec<u64>) -> (order: Vec<usize>)
    ensures
        is_stable_order(keys@, order@),
{
    let n = keys.len();
    let mut order: Vec<usize> = Vec::new();
    let mut i: usize = 0;
    while i < n
        invariant
            n == keys.len(),
            i <= n,
            order@.len() == i,
            forall|x: int| 0 <= x < order@.len() ==> #[trigger] order@[x] < i,
            forall|x: int, y: int|
                0 <= x < y < order@.len() ==> precedes(keys@, #[trigger] order@[x], #[trigger] order@[y]),
            forall|v: usize| v < i ==> #[trigger] order@.contains(v),
        decreases n - i,
    {
        let mut p: usize = i;
        while p > 0 && keys[order[p - 1]] > keys[i]
            invariant
                n == keys.len(),
                i < n,
                p <= i,
                order@.len() == i,
                forall|x: int| 0 <= x < order@.len() ==> #[trigger] order@[x] < i,
                forall|x: int| p <= x < i ==> keys@[#[trigger] order@[x] as int] > keys@[i as int],
            decreases p,
        {
            p -= 1;
        }
        let ghost old_order = order@;
        proof {
            assert forall|x: int| 0 <= x < p implies precedes(keys@, #[trigger] old_order[x], i) by {
                if x < p - 1 {
                    assert(precedes(keys@, old_order[x], old_order[p - 1]));
                }
            }
        }
        order.insert(p, i);
        proof {
            old_order.insert_ensures(p as int, i);
            assert forall|x: int, y: int|
                0 <= x < y < order@.len() implies precedes(keys@, #[trigger] order@[x], #[trigger] order@[y]) by {
                if y < p {
                } else if y == p {
                } else if x < p {
                    assert(order@[y] == old_order[y - 1]);
                } else if x == p {
                    assert(order@[y] == old_order[y - 1]);
                } else {
                    assert(order@[x] == old_order[x - 1]);
                    assert(order@[y] == old_order[y - 1]);
                }
            }
            assert forall|v: usize| v < i + 1 implies #[trigger] order@.contains(v) by {
                if v == i {
                    assert(order@[p as int] == v);
                } else {
                    assert(old_order.contains(v));
                    let x = choose|x: int| 0 <= x < old_order.len() && old_order[x] == v;
                    if x < p {
                        assert(order@[x] == v);
                    } else {
                        assert(order@[x + 1] == v);
                    }
                }
            }
        }
        i += 1;
    }
    order
}

/// Keys that are already in nondecreasing order.
pub open spec fn keys_sorted(keys: Seq<u64>) -> bool {
    forall|i: int, j: int| 0 <= i < j < keys.len() ==> keys[i] <= keys[j]
}

proof fn lemma_increasing_is_identity(order: Seq<usize>, n: int)
    requires
        order.len() == n,
        forall|i: int| 0 <= i < n ==> #[trigger] order[i] < n,
        forall|i: int, j: int| 0 <= i < j < n ==> #[trigger] order[i] < #[trigger] order[j],
    ensures
        forall|i: int| 0 <= i < n ==> #[trigger] order[i] == i,
{
    assert forall|i: int| 0 <= i < n implies #[trigger] order[i] >= i by {
        lemma_at_least_index(order, n, i);
    }
    assert forall|i: int| 0 <= i < n implies #[trigger] order[i] <= i by {
        lemma_at_most_index(order, n, i);
    }
}

proof fn lemma_at_least_index(order: Seq<usize>, n: int, i: int)
    requires
        order.len() == n,
        0 <= i < n,
        forall|i: int, j: int| 0 <= i < j < n ==> #[trigger] order[i] < #[trigger] order[j],
    ensures
        order[i] >= i,
    decreases i,
{
    if i > 0 {
        lemma_at_least_index(order, n, i - 1);
        assert(order[i - 1] < order[i]);
    }
}

proof fn lemma_at_most_index(order: Seq<usize>, n: int, i: int)
    requires
        order.len() == n,
        0 <= i < n,
        forall|i: int| 0 <= i < n ==> #[trigger] order[i] < n,
        forall|i: int, j: int| 0 <= i < j < n ==> #[trigger] order[i] < #[trigger] order[j],
    ensures
        order[i] <= i,
    decreases n - i,
{
    if i < n - 1 {
        lemma_at_most_index(order, n, i + 1);
        assert(order[i] < order[i + 1]);
    }
}

/// Sorting data that is already in order leaves it as it is: the stable order
/// of sorted keys is the identity.
pub proof fn lemma_sorted_keys_keep_their_order(keys: Seq<u64>, order: Seq<usize>)
    requires
        keys_sorted(keys),
        is_stable_order(keys, order),
    ensures
        forall|i: int| 0 <= i < order.len() ==> #[trigger] order[i] == i,
{
    let n = order.len() as int;
    assert forall|i: int, j: int| 0 <= i < j < n implies #[trigger] order[i] < #[trigger] order[j] by {
        assert(precedes(keys, order[i], order[j]));
        if order[i] > order[j] {
            assert(keys[order[j] as int] <= keys[order[i] as int]);
        }
    }
    lemma_increasing_is_identity(order, n);
}

/// The stable order is fully determined by the keys: two orders that both
/// list every position once, by key and stably, are the same.
pub proof fn lemma_stable_order_unique(keys: Seq<u64>, a: Seq<usize>, b: Seq<usize>)
    requires
        is_stable_order(keys, a),
        is_stable_order(keys, b),
    ensures
        a == b,
{
    let n = keys.len() as int;
    assert forall|i: int| 0 <= i < n implies #[trigger] a[i] == b[i] by {
        lemma_rank(keys, a, i);
        assert(b.contains(a[i]));
        let j = choose|j: int| 0 <= j < b.len() && b[j] == a[i];
        lemma_rank(keys, b, j);
    }
    assert(a =~= b);
}

/// The item at position `i` of a stable order is preceded by exactly `i` items.
pub open spec fn rank_of(keys: Seq<u64>, v: usize) -> int {
    Set::new(|w: usize| w < keys.len() && precedes(keys, w, v)).len() as int
}

proof fn lemma_rank(keys: Seq<u64>, order: Seq<usize>, i: int)
    requires
        is_stable_order(keys, order),
        0 <= i < order.len(),
    ensures
        rank_of(keys, order[i]) == i,
{
    let v = order[i];
    let s = Set::new(|w: usize| w < keys.len() && precedes(keys, w, v));
    let t = order.take(i).to_set();
    assert forall|w: usize| s.contains(w) implies t.contains(w) by {
        assert(order.contains(w));
        let x = choose|x: int| 0 <= x < order.len() && order[x] == w;
        if x >= i {
            if x > i {
                assert(precedes(keys, order[i], order[x]));
            }
        }
        assert(order.take(i)[x] == w);
    }
    assert forall|w: usize| t.contains(w) implies s.contains(w) by {
        let x = choose|x: int| 0 <= x < i && order.take(i)[x] == w;
        assert(order[x] == w);
        assert(precedes(keys, order[x], order[i]));
    }
    assert(s =~= t);
    assert forall|x: int, y: int| 0 <= x < y < order.take(i).len() implies order.take(i)[x] != order.take(i)[y] by {
        assert(precedes(keys, order[x], order[y]));
    }
    order.take(i).unique_seq_to_set();
}

} // verus!
