//! The displacement of the guide stars without outliers.
//!
//! Displacements are real numbers. What is decided here needs no more of them
//! than integers that stand in the same order, and which of them are close to
//! the median.

use crate::sorting::{is_stable_order, stable_sort, Ranked};
use vstd::prelude::*;

verus! {

/// A value and its position.
struct RankedValue {
    rank: i64,
    index: usize,
}

impl Ranked for RankedValue {
    closed spec fn le(&self, other: &Self) -> bool {
        self.rank <= other.rank
    }

    proof fn total(a: &Self, b: &Self) {
    }

    proof fn transitive(a: &Self, b: &Self, c: &Self) {
    }

    fn not_above(&self, other: &Self) -> (r: bool) {
        self.rank <= other.rank
    }
}

/// `perm` lists the positions of the ranks in their order, equal ones as they
/// stand.
pub open spec fn is_rank_order(ranks: Seq<i64>, perm: Seq<int>) -> bool {
    &&& perm.len() == ranks.len()
    &&& forall|i: int| 0 <= i < perm.len() ==> 0 <= #[trigger] perm[i] < ranks.len()
    &&& forall|i: int, j: int|
        0 <= i < j < perm.len() ==> {
            &&& ranks[#[trigger] perm[i]] <= ranks[#[trigger] perm[j]]
            &&& ranks[perm[i]] == ranks[perm[j]] ==> perm[i] < perm[j]
        }
}

/// The value at position `m` is the median: that in the middle of the order,
/// or the one behind the middle.
pub open spec fn is_median(ranks: Seq<i64>, m: int) -> bool {
    exists|perm: Seq<int>|
        #[trigger] is_rank_order(ranks, perm) && m == perm[ranks.len() as int / 2]
}

/// The position of the median.
pub fn median_position(ranks: &Vec<i64>) -> (m: usize)
    requires
        ranks@.len() > 0,
    ensures
        m < ranks@.len(),
        is_median(ranks@, m as int),
{
    let n = ranks.len();
    let mut values: Vec<RankedValue> = Vec::new();
    for i in 0..n
        invariant
            n == ranks@.len(),
            values@.len() == i,
            forall|k: int|
                0 <= k < i ==> (#[trigger] values@[k]).rank == ranks@[k] && values@[k].index == k,
    {
        values.push(RankedValue { rank: ranks[i], index: i });
    }
    let ghost all = values@;
    let sorted = stable_sort(values);
    let ghost perm = choose|perm: Seq<int>|
        {
            &&& #[trigger] is_stable_order(all, perm)
            &&& sorted@ == perm.map_values(|i: int| all[i])
        };
    proof {
        assert(is_stable_order(all, perm));
        assert forall|i: int, j: int| 0 <= i < j < perm.len() implies {
            &&& ranks@[#[trigger] perm[i]] <= ranks@[#[trigger] perm[j]]
            &&& ranks@[perm[i]] == ranks@[perm[j]] ==> perm[i] < perm[j]
        } by {
            assert(all[perm[i]].le(&all[perm[j]]));
        }
        assert(is_rank_order(ranks@, perm));
        assert(sorted@[n as int / 2] == all[perm[n as int / 2]]);
    }
    sorted[n / 2].index
}

/// Which displacement counts.
#[derive(Debug)]
pub enum Displacement {
    /// No star was found again.
    Nothing,
    /// That of the only star.
    Only,
    /// The average over these stars.
    Average(Vec<usize>),
    /// The median: all stars are outliers.
    Median,
}

/// The stars among the first `n` that are close to the median.
pub open spec fn close_stars(close: Seq<bool>, n: nat) -> Seq<usize>
    decreases n,
{
    if n == 0 {
        Seq::empty()
    } else {
        let before = close_stars(close, (n - 1) as nat);
        if close[n - 1] {
            before.push((n - 1) as usize)
        } else {
            before
        }
    }
}

/// Which displacement counts. `close` says of each star whether its displacement
/// is close to the median.
pub fn filter_outlier_displacements(close: &Vec<bool>) -> (r: Displacement)
    ensures
        match r {
            Displacement::Nothing => close@.len() == 0,
            Displacement::Only => close@.len() == 1,
            Displacement::Average(stars) => {
                &&& close@.len() >= 2
                &&& stars@ == close_stars(close@, close@.len())
                &&& stars@.len() > 0
            },
            Displacement::Median => {
                &&& close@.len() >= 2
                &&& close_stars(close@, close@.len()).len() == 0
            },
        },
{
    let n = close.len();
    if n == 0 {
        return Displacement::Nothing;
    }
    if n == 1 {
        return Displacement::Only;
    }
    let mut stars: Vec<usize> = Vec::new();
    for i in 0..n
        invariant
            n == close@.len(),
            stars@ == close_stars(close@, i as nat),
    {
        if close[i] {
            stars.push(i);
        }
    }
    if stars.len() > 0 {
        Displacement::Average(stars)
    } else {
        Displacement::Median
    }
}

/// A star far from the median has no part in the average, and every star close
/// to it has.
pub proof fn law_average_is_over_close_stars(close: Seq<bool>, n: nat, k: usize)
    requires
        n <= close.len() <= usize::MAX,
    ensures
        close_stars(close, n).contains(k) <==> k < n && close[k as int],
    decreases n,
{
    if n > 0 {
        law_average_is_over_close_stars(close, (n - 1) as nat, k);
        let all = close_stars(close, n);
        let before = close_stars(close, (n - 1) as nat);
        if close[n - 1] {
            assert(all.last() == n - 1);
            if before.contains(k) {
                let i = choose|i: int| 0 <= i < before.len() && before[i] == k;
                assert(all[i] == k);
            }
            if all.contains(k) && k != n - 1 {
                let i = choose|i: int| 0 <= i < all.len() && all[i] == k;
                assert(before[i] == k);
            }
        }
    }
}

/// At least half of the values, and one more, are not above the median, and at
/// least half of them are not below it.
pub proof fn law_median_is_in_the_middle(ranks: Seq<i64>, m: int)
    requires
        ranks.len() > 0,
        is_median(ranks, m),
    ensures
        0 <= m < ranks.len(),
        ({
            let n = ranks.len() as int;
            let low = Set::new(|i: int| 0 <= i < n && ranks[i] <= ranks[m]);
            let high = Set::new(|i: int| 0 <= i < n && ranks[i] >= ranks[m]);
            low.len() >= n / 2 + 1 && high.len() >= n - n / 2
        }),
{
    let n = ranks.len() as int;
    let perm = choose|perm: Seq<int>|
        #[trigger] is_rank_order(ranks, perm) && m == perm[ranks.len() as int / 2];
    let half = n / 2;
    let low = Set::new(|i: int| 0 <= i < n && ranks[i] <= ranks[m]);
    let high = Set::new(|i: int| 0 <= i < n && ranks[i] >= ranks[m]);
    lemma_places_are_finite(low, n);
    lemma_places_are_finite(high, n);
    let first = perm.take(half + 1);
    let last = perm.skip(half);
    assert forall|i: int, j: int| 0 <= i < perm.len() && 0 <= j < perm.len() && i != j implies perm[i]
        != perm[j] by {
        if i < j {
            assert(ranks[perm[i]] == ranks[perm[j]] ==> perm[i] < perm[j]);
        } else {
            assert(ranks[perm[j]] == ranks[perm[i]] ==> perm[j] < perm[i]);
        }
    }
    assert(first.no_duplicates());
    assert(last.no_duplicates());
    first.unique_seq_to_set();
    last.unique_seq_to_set();
    assert forall|p: int| first.to_set().contains(p) implies low.contains(p) by {
        let i = choose|i: int| 0 <= i < first.len() && first[i] == p;
        assert(perm[i] == p);
        if i < half {
            assert(ranks[perm[i]] <= ranks[perm[half]]);
        }
    }
    assert forall|p: int| last.to_set().contains(p) implies high.contains(p) by {
        let i = choose|i: int| 0 <= i < last.len() && last[i] == p;
        assert(perm[half + i] == p);
        if i > 0 {
            assert(ranks[perm[half]] <= ranks[perm[half + i]]);
        }
    }
    vstd::set_lib::lemma_len_subset(first.to_set(), low);
    vstd::set_lib::lemma_len_subset(last.to_set(), high);
}

proof fn lemma_places_are_finite(s: Set<int>, n: int)
    requires
        forall|i: int| s.contains(i) ==> 0 <= i < n,
    ensures
        s.finite(),
{
    vstd::set_lib::lemma_int_range(0, if n > 0 {
        n
    } else {
        0
    });
    let all = vstd::set_lib::set_int_range(0, if n > 0 {
        n
    } else {
        0
    });
    assert(s.subset_of(all));
    vstd::set_lib::lemma_set_subset_finite(all, s);
}

/// The stars of an average stand in their order, each once.
pub proof fn law_stars_stand_in_order(close: Seq<bool>, n: nat, i: int, j: int)
    requires
        n <= close.len() <= usize::MAX,
        0 <= i < j < close_stars(close, n).len(),
    ensures
        close_stars(close, n)[i] < close_stars(close, n)[j] < n,
    decreases n,
{
    if n > 0 {
        let before = close_stars(close, (n - 1) as nat);
        let all = close_stars(close, n);
        if j < before.len() {
            law_stars_stand_in_order(close, (n - 1) as nat, i, j);
            assert(all[i] == before[i] && all[j] == before[j]);
        } else {
            assert(all[i] == before[i]);
            assert(before.contains(before[i]));
            law_average_is_over_close_stars(close, (n - 1) as nat, before[i]);
        }
    }
}

} // verus!
