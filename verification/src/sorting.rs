//! Stable sorting.

use vstd::prelude::*;

verus! {

/// A type whose values stand in a total preorder.
pub trait Ranked: Sized {
    /// `self` may stand before `other`.
    spec fn le(&self, other: &Self) -> bool;

    proof fn total(a: &Self, b: &Self)
        ensures
            a.le(b) || b.le(a),
    ;

    proof fn transitive(a: &Self, b: &Self, c: &Self)
        requires
            a.le(b),
            b.le(c),
        ensures
            a.le(c),
    ;

    /// Whether `self` may stand before `other`.
    fn not_above(&self, other: &Self) -> (r: bool)
        ensures
            r == self.le(other),
    ;
}

/// `perm` lists the positions of `items` in a stable order: by rank, and by
/// position where the ranks are equal.
pub open spec fn is_stable_order<T: Ranked>(items: Seq<T>, perm: Seq<int>) -> bool {
    &&& perm.len() == items.len()
    &&& forall|i: int| 0 <= i < perm.len() ==> 0 <= #[trigger] perm[i] < items.len()
    &&& forall|i: int, j: int|
        0 <= i < j < perm.len() ==> {
            &&& items[#[trigger] perm[i]].le(&items[#[trigger] perm[j]])
            &&& items[perm[j]].le(&items[perm[i]]) ==> perm[i] < perm[j]
            &&& perm[i] != perm[j]
        }
}

/// `sorted` holds the values of `items` in a stable order.
pub open spec fn is_stable_sort<T: Ranked>(items: Seq<T>, sorted: Seq<T>) -> bool {
    exists|perm: Seq<int>|
        {
            &&& #[trigger] is_stable_order(items, perm)
            &&& sorted == perm.map_values(|i: int| items[i])
        }
}

/// The positions from `from` on, in a stable order.
spec fn is_tail_order<T: Ranked>(items: Seq<T>, from: int, perm: Seq<int>) -> bool {
    &&& perm.len() == items.len() - from
    &&& forall|i: int| 0 <= i < perm.len() ==> from <= #[trigger] perm[i] < items.len()
    &&& forall|i: int, j: int|
        0 <= i < j < perm.len() ==> {
            &&& items[#[trigger] perm[i]].le(&items[#[trigger] perm[j]])
            &&& items[perm[j]].le(&items[perm[i]]) ==> perm[i] < perm[j]
            &&& perm[i] != perm[j]
        }
}

proof fn lemma_insert_keeps_order<T: Ranked>(items: Seq<T>, from: int, perm: Seq<int>, k: int)
    requires
        0 < from <= items.len(),
        is_tail_order(items, from, perm),
        0 <= k <= perm.len(),
        k < perm.len() ==> items[from - 1].le(&items[perm[k]]),
        forall|i: int| 0 <= i < k ==> !items[from - 1].le(&items[#[trigger] perm[i]]),
    ensures
        is_tail_order(items, from - 1, perm.insert(k, from - 1)),
{
    let x = from - 1;
    let next = perm.insert(k, x);
    assert forall|i: int, j: int| 0 <= i < j < next.len() implies {
        &&& items[#[trigger] next[i]].le(&items[#[trigger] next[j]])
        &&& items[next[j]].le(&items[next[i]]) ==> next[i] < next[j]
        &&& next[i] != next[j]
    } by {
        let a = if i < k {
            i
        } else {
            i - 1
        };
        let b = if j < k {
            j
        } else {
            j - 1
        };
        if i == k {
            assert(next[j] == perm[b]);
            if b > k {
                assert(items[perm[k]].le(&items[perm[b]]));
                T::transitive(&items[x], &items[perm[k]], &items[perm[b]]);
            }
        } else if j == k {
            assert(next[i] == perm[i]);
            T::total(&items[x], &items[perm[i]]);
        } else {
            assert(next[i] == perm[a] && next[j] == perm[b]);
        }
    }
    assert forall|i: int| 0 <= i < next.len() implies from - 1 <= #[trigger] next[i]
        < items.len() by {
        if i < k {
            assert(next[i] == perm[i]);
        } else if i > k {
            assert(next[i] == perm[i - 1]);
        }
    }
}

/// Sorts the values, keeping the order of those with equal rank.
pub fn stable_sort<T: Ranked>(items: Vec<T>) -> (sorted: Vec<T>)
    ensures
        is_stable_sort(items@, sorted@),
{
    let ghost all = items@;
    let mut items = items;
    let mut sorted: Vec<T> = Vec::new();
    let ghost mut perm: Seq<int> = Seq::empty();
    while items.len() > 0
        invariant
            items@.len() <= all.len(),
            items@ == all.take(items@.len() as int),
            is_tail_order(all, items@.len() as int, perm),
            sorted@.len() == perm.len(),
            forall|i: int| 0 <= i < perm.len() ==> sorted@[i] == all[#[trigger] perm[i]],
        decreases items@.len(),
    {
        let ghost from = items@.len() as int;
        match items.pop() {
            Some(x) => {
                assert(x == all[from - 1]);
                let n = sorted.len();
                let mut k: usize = 0;
                while k < n && !x.not_above(&sorted[k])
                    invariant
                        k <= n == sorted@.len() == perm.len(),
                        0 < from <= all.len(),
                        x == all[from - 1],
                        forall|i: int|
                            0 <= i < perm.len() ==> sorted@[i] == all[#[trigger] perm[i]],
                        forall|i: int|
                            0 <= i < k ==> !all[from - 1].le(&all[#[trigger] perm[i]]),
                    decreases n - k,
                {
                    assert(sorted@[k as int] == all[perm[k as int]]);
                    k = k + 1;
                }
                proof {
                    if k < n {
                        assert(sorted@[k as int] == all[perm[k as int]]);
                    }
                    lemma_insert_keeps_order(all, from, perm, k as int);
                }
                let ghost was = sorted@;
                sorted.insert(k, x);
                proof {
                    let next = perm.insert(k as int, from - 1);
                    assert forall|i: int| 0 <= i < next.len() implies sorted@[i]
                        == all[#[trigger] next[i]] by {
                        if i < k {
                            assert(next[i] == perm[i]);
                        } else if i > k {
                            assert(next[i] == perm[i - 1]);
                        }
                    }
                    perm = next;
                }
                assert(items@ =~= all.take(items@.len() as int));
            },
            None => {},
        }
    }
    proof {
        assert(is_stable_order(all, perm));
        assert(sorted@ =~= perm.map_values(|i: int| all[i]));
    }
    sorted
}

// ---------------------------------------------------------------------------
// Laws
// ---------------------------------------------------------------------------

/// What is sorted stands in order.
pub proof fn law_sorted_is_ordered<T: Ranked>(items: Seq<T>, sorted: Seq<T>)
    requires
        is_stable_sort(items, sorted),
    ensures
        sorted.len() == items.len(),
        forall|i: int, j: int| 0 <= i < j < sorted.len() ==> sorted[i].le(&sorted[j]),
{
    let perm = choose|perm: Seq<int>|
        {
            &&& #[trigger] is_stable_order(items, perm)
            &&& sorted == perm.map_values(|i: int| items[i])
        };
    assert forall|i: int, j: int| 0 <= i < j < sorted.len() implies sorted[i].le(&sorted[j]) by {
        assert(sorted[i] == items[perm[i]] && sorted[j] == items[perm[j]]);
    }
}

/// The positions as mathematical integers.
pub open spec fn positions(v: Seq<usize>) -> Seq<int> {
    Seq::new(v.len(), |i: int| v[i] as int)
}

/// A position below `n` that occurs in no list of fewer than `n` distinct
/// positions would make the list too short.
pub proof fn lemma_all_positions(perm: Seq<int>, n: nat, x: int)
    requires
        perm.len() == n,
        forall|i: int| 0 <= i < perm.len() ==> 0 <= #[trigger] perm[i] < n,
        forall|i: int, j: int|
            0 <= i < j < perm.len() ==> #[trigger] perm[i] != #[trigger] perm[j],
        0 <= x < n,
    ensures
        perm.contains(x),
{
    let all = vstd::set_lib::set_int_range(0, n as int);
    vstd::set_lib::lemma_int_range(0, n as int);
    assert(perm.no_duplicates());
    perm.unique_seq_to_set();
    assert(perm.to_set().subset_of(all));
    vstd::set_lib::lemma_subset_equality(perm.to_set(), all);
    assert(perm.to_set().contains(x));
}

/// Sorting loses nothing and adds nothing.
pub proof fn law_sort_keeps_values<T: Ranked>(items: Seq<T>, sorted: Seq<T>, x: T)
    requires
        is_stable_sort(items, sorted),
    ensures
        items.contains(x) <==> sorted.contains(x),
{
    let perm = choose|perm: Seq<int>|
        {
            &&& #[trigger] is_stable_order(items, perm)
            &&& sorted == perm.map_values(|i: int| items[i])
        };
    if items.contains(x) {
        let k = choose|k: int| 0 <= k < items.len() && items[k] == x;
        lemma_all_positions(perm, items.len(), k);
        let i = choose|i: int| 0 <= i < perm.len() && perm[i] == k;
        assert(sorted[i] == x);
    }
    if sorted.contains(x) {
        let i = choose|i: int| 0 <= i < sorted.len() && sorted[i] == x;
        assert(items[perm[i]] == x);
    }
}

/// Of two items with equal rank the one that stood first still stands first.
pub proof fn law_sort_is_stable<T: Ranked>(items: Seq<T>, sorted: Seq<T>, a: int, b: int)
    requires
        is_stable_sort(items, sorted),
        0 <= a < b < items.len(),
        items[a].le(&items[b]),
        items[b].le(&items[a]),
    ensures
        exists|i: int, j: int|
            0 <= i < j < sorted.len() && #[trigger] sorted[i] == items[a] && #[trigger] sorted[j]
                == items[b],
{
    let perm = choose|perm: Seq<int>|
        {
            &&& #[trigger] is_stable_order(items, perm)
            &&& sorted == perm.map_values(|i: int| items[i])
        };
    lemma_all_positions(perm, items.len(), a);
    lemma_all_positions(perm, items.len(), b);
    let i = choose|i: int| 0 <= i < perm.len() && perm[i] == a;
    let j = choose|j: int| 0 <= j < perm.len() && perm[j] == b;
    if j < i {
        assert(items[perm[i]].le(&items[perm[j]]));
    }
    assert(sorted[i] == items[a] && sorted[j] == items[b]);
}

} // verus!
