//! Which stars are used for guiding.

use crate::sorting::{is_stable_sort, stable_sort, Ranked};
use vstd::prelude::*;

verus! {

/// A star that may be used for guiding.
#[derive(Debug, Clone, Copy, PartialEq, Eq, Structural)]
pub struct Candidate {
    /// The brightness above the threshold.
    pub mass: u64,
    /// The star is far enough from the edges of the frame.
    pub inside: bool,
}

/// A star by its position in the list of candidates.
#[derive(Debug, Clone, Copy, PartialEq, Eq, Structural)]
pub struct Star {
    pub mass: u64,
    pub index: usize,
}

impl Ranked for Star {
    open spec fn le(&self, other: &Self) -> bool {
        self.mass >= other.mass
    }

    proof fn total(a: &Self, b: &Self) {
    }

    proof fn transitive(a: &Self, b: &Self, c: &Self) {
    }

    fn not_above(&self, other: &Self) -> (r: bool) {
        self.mass >= other.mass
    }
}

/// The table tells something of each two of `n` candidates.
pub open spec fn is_table(table: Seq<Vec<bool>>, n: int) -> bool {
    &&& table.len() == n
    &&& forall|i: int| 0 <= i < n ==> (#[trigger] table[i])@.len() == n
}

/// Another candidate is so close to the star that the two cannot be told
/// apart, wherever in the frame that candidate is. `close` tells of each two
/// candidates whether they are that close.
pub open spec fn is_crowded(close: Seq<Vec<bool>>, star: int) -> bool {
    exists|j: int| 0 <= j < close.len() && j != star && #[trigger] close[star]@[j]
}

/// The stars among the first `n` candidates that stand alone within the frame.
pub open spec fn isolated(
    candidates: Seq<Candidate>,
    close: Seq<Vec<bool>>,
    n: nat,
) -> Seq<Star>
    decreases n,
{
    if n == 0 {
        Seq::empty()
    } else {
        let before = isolated(candidates, close, (n - 1) as nat);
        let c = candidates[n - 1];
        if c.inside && !is_crowded(close, n - 1) {
            before.push(Star { mass: c.mass, index: (n - 1) as usize })
        } else {
            before
        }
    }
}

/// The star is too near to one that is used. `near` tells of each two
/// candidates whether they are too near to each other to be used together.
pub open spec fn too_close(near: Seq<Vec<bool>>, chosen: Seq<usize>, star: int) -> bool {
    exists|i: int| 0 <= i < chosen.len() && near[star]@[#[trigger] chosen[i] as int]
}

/// The stars that are used of the first `k` in the order of their brightness.
/// Each is used that is not too near to one that is used already, until there
/// are `wanted`.
pub open spec fn greedy(
    order: Seq<Star>,
    near: Seq<Vec<bool>>,
    wanted: nat,
    k: nat,
) -> Seq<usize>
    decreases k,
{
    if k == 0 {
        Seq::empty()
    } else {
        let before = greedy(order, near, wanted, (k - 1) as nat);
        if before.len() >= wanted {
            before
        } else if too_close(near, before, order[k - 1].index as int) {
            before
        } else {
            before.push(order[k - 1].index)
        }
    }
}

/// `chosen` are the stars that are used of the candidates.
pub open spec fn is_selection(
    candidates: Seq<Candidate>,
    close: Seq<Vec<bool>>,
    near: Seq<Vec<bool>>,
    wanted: nat,
    chosen: Seq<usize>,
) -> bool {
    exists|order: Seq<Star>|
        {
            &&& #[trigger] is_stable_sort(
                isolated(candidates, close, candidates.len()),
                order,
            )
            &&& chosen == greedy(order, near, wanted, order.len())
        }
}

/// Whether another candidate is so close to the star that the two cannot be
/// told apart.
pub fn crowded(close: &Vec<Vec<bool>>, star: usize) -> (r: bool)
    requires
        is_table(close@, close@.len() as int),
        star < close@.len(),
    ensures
        r == is_crowded(close@, star as int),
{
    assert(close@[star as int]@.len() == close@.len());
    for j in 0..close.len()
        invariant
            star < close@.len(),
            close@[star as int]@.len() == close@.len(),
            forall|k: int| 0 <= k < j && k != star ==> !#[trigger] close@[star as int]@[k],
    {
        if j != star && close[star][j] {
            return true;
        }
    }
    false
}

fn list_isolated(candidates: &Vec<Candidate>, close: &Vec<Vec<bool>>) -> (r: Vec<Star>)
    requires
        is_table(close@, candidates@.len() as int),
    ensures
        r@ == isolated(candidates@, close@, candidates@.len()),
{
    let mut out: Vec<Star> = Vec::new();
    for i in 0..candidates.len()
        invariant
            is_table(close@, candidates@.len() as int),
            out@ == isolated(candidates@, close@, i as nat),
    {
        let c = candidates[i];
        if c.inside && !crowded(close, i) {
            out.push(Star { mass: c.mass, index: i });
        }
    }
    out
}

proof fn lemma_isolated(candidates: Seq<Candidate>, close: Seq<Vec<bool>>, n: nat)
    requires
        n <= candidates.len() <= usize::MAX,
    ensures
        forall|i: int|
            0 <= i < isolated(candidates, close, n).len() ==> {
                let s = #[trigger] isolated(candidates, close, n)[i];
                &&& s.index < n
                &&& candidates[s.index as int].inside
                &&& !is_crowded(close, s.index as int)
                &&& candidates[s.index as int].mass == s.mass
            },
    decreases n,
{
    if n > 0 {
        lemma_isolated(candidates, close, (n - 1) as nat);
        let before = isolated(candidates, close, (n - 1) as nat);
        let now = isolated(candidates, close, n);
        assert forall|i: int| 0 <= i < now.len() implies {
            let s = #[trigger] now[i];
            &&& s.index < n
            &&& candidates[s.index as int].inside
            &&& !is_crowded(close, s.index as int)
            &&& candidates[s.index as int].mass == s.mass
        } by {
            if i < before.len() {
                assert(now[i] == before[i]);
            }
        }
    }
}

/// Sorting leaves the stars among the candidates.
proof fn lemma_order_in_range(
    candidates: Seq<Candidate>,
    close: Seq<Vec<bool>>,
    order: Seq<Star>,
)
    requires
        candidates.len() <= usize::MAX,
        is_stable_sort(
                isolated(candidates, close, candidates.len()),
                order,
            ),
    ensures
        forall|i: int|
            0 <= i < order.len() ==> {
                let s = #[trigger] order[i];
                &&& s.index < candidates.len()
                &&& candidates[s.index as int].inside
                &&& !is_crowded(close, s.index as int)
                &&& candidates[s.index as int].mass == s.mass
            },
{
    let all = isolated(candidates, close, candidates.len());
    lemma_isolated(candidates, close, candidates.len());
    let perm = choose|perm: Seq<int>|
        {
            &&& #[trigger] crate::sorting::is_stable_order(all, perm)
            &&& order == perm.map_values(|i: int| all[i])
        };
    assert forall|i: int| 0 <= i < order.len() implies {
        let s = #[trigger] order[i];
        &&& s.index < candidates.len()
        &&& candidates[s.index as int].inside
        &&& !is_crowded(close, s.index as int)
        &&& candidates[s.index as int].mass == s.mass
    } by {
        assert(order[i] == all[perm[i]]);
    }
}

/// The stars to guide with: those that stand alone, the brightest first, each
/// far enough from those before it. Of each two candidates `close` tells
/// whether they cannot be told apart, and `near` whether they are too near to
/// each other to be used together.
pub fn select_guide_stars(
    candidates: &Vec<Candidate>,
    close: &Vec<Vec<bool>>,
    near: &Vec<Vec<bool>>,
    wanted: usize,
) -> (chosen: Vec<usize>)
    requires
        is_table(close@, candidates@.len() as int),
        is_table(near@, candidates@.len() as int),
    ensures
        is_selection(candidates@, close@, near@, wanted as nat, chosen@),
{
    let n = candidates.len();
    let order = stable_sort(list_isolated(candidates, close));
    proof {
        lemma_order_in_range(candidates@, close@, order@);
    }
    let mut chosen: Vec<usize> = Vec::new();
    for k in 0..order.len()
        invariant
            n == candidates@.len(),
            is_table(near@, n as int),
            forall|i: int| 0 <= i < order@.len() ==> (#[trigger] order@[i]).index < n,
            forall|i: int| 0 <= i < chosen@.len() ==> #[trigger] chosen@[i] < n,
            chosen@ == greedy(order@, near@, wanted as nat, k as nat),
    {
        if chosen.len() < wanted {
            let star = order[k].index;
            assert(order@[k as int].index < n);
            let mut close = false;
            for i in 0..chosen.len()
                invariant
                    n == candidates@.len(),
                    is_table(near@, n as int),
                    star < n,
                    forall|j: int| 0 <= j < chosen@.len() ==> #[trigger] chosen@[j] < n,
                    close == exists|j: int|
                        0 <= j < i && near@[star as int]@[#[trigger] chosen@[j] as int],
            {
                assert(near@[star as int]@.len() == n);
                assert(chosen@[i as int] < n);
                if near[star][chosen[i]] {
                    close = true;
                }
            }
            if !close {
                chosen.push(star);
            }
        }
    }
    proof {
        assert(is_stable_sort(isolated(candidates@, close@, candidates@.len()), order@));
    }
    chosen
}

// ---------------------------------------------------------------------------
// Laws
// ---------------------------------------------------------------------------

proof fn lemma_greedy(order: Seq<Star>, near: Seq<Vec<bool>>, wanted: nat, k: nat)
    requires
        k <= order.len(),
    ensures
        ({
            let g = greedy(order, near, wanted, k);
            &&& g.len() <= wanted
            &&& forall|i: int, j: int|
                0 <= i < j < g.len() ==> !near[#[trigger] g[j] as int]@[#[trigger] g[i] as int]
            &&& forall|i: int|
                0 <= i < g.len() ==> exists|m: int|
                    0 <= m < k && order[m].index == #[trigger] g[i]
        }),
    decreases k,
{
    if k > 0 {
        lemma_greedy(order, near, wanted, (k - 1) as nat);
        let before = greedy(order, near, wanted, (k - 1) as nat);
        let g = greedy(order, near, wanted, k);
        assert forall|i: int, j: int| 0 <= i < j < g.len() implies !near[#[trigger] g[j] as int]@[
            #[trigger] g[i] as int
        ] by {
            if j < before.len() {
                assert(g[i] == before[i] && g[j] == before[j]);
            } else {
                assert(g[i] == before[i]);
                assert(g[j] == order[k - 1].index);
            }
        }
        assert forall|i: int| 0 <= i < g.len() implies exists|m: int|
            0 <= m < k && order[m].index == #[trigger] g[i] by {
            if i < before.len() {
                assert(g[i] == before[i]);
                let m = choose|m: int| 0 <= m < k - 1 && order[m].index == before[i];
                assert(order[m].index == g[i]);
            } else {
                assert(order[k - 1].index == g[i]);
            }
        }
    }
}

/// The stars that are used stand alone within the frame, no two of them are
/// too near to each other, and there are not more than wanted.
pub proof fn law_selected_stars_are_apart(
    candidates: Seq<Candidate>,
    close: Seq<Vec<bool>>,
    near: Seq<Vec<bool>>,
    wanted: nat,
    chosen: Seq<usize>,
)
    requires
        candidates.len() <= usize::MAX,
        is_selection(candidates, close, near, wanted, chosen),
    ensures
        chosen.len() <= wanted,
        forall|i: int, j: int|
            0 <= i < j < chosen.len() ==> !near[#[trigger] chosen[j] as int]@[
                #[trigger] chosen[i] as int
            ],
        forall|i: int|
            0 <= i < chosen.len() ==> #[trigger] chosen[i] < candidates.len()
                && candidates[chosen[i] as int].inside && !is_crowded(
                close,
                chosen[i] as int,
            ),
{
    let order = choose|order: Seq<Star>|
        {
            &&& #[trigger] is_stable_sort(
                isolated(candidates, close, candidates.len()),
                order,
            )
            &&& chosen == greedy(order, near, wanted, order.len())
        };
    lemma_order_in_range(candidates, close, order);
    lemma_greedy(order, near, wanted, order.len());
}

/// The star is far enough from the edges, and no other candidate is so close to
/// it that the two cannot be told apart.
pub open spec fn stands_alone(
    candidates: Seq<Candidate>,
    close: Seq<Vec<bool>>,
    star: int,
) -> bool {
    &&& candidates[star].inside
    &&& forall|j: int| 0 <= j < candidates.len() && j != star ==> !#[trigger] close[star]@[j]
}

proof fn lemma_alone_is_listed(
    candidates: Seq<Candidate>,
    close: Seq<Vec<bool>>,
    n: nat,
    star: int,
)
    requires
        n <= candidates.len() <= usize::MAX,
        close.len() == candidates.len(),
        0 <= star < n,
        stands_alone(candidates, close, star),
    ensures
        isolated(candidates, close, n).contains(
            Star { mass: candidates[star].mass, index: star as usize },
        ),
    decreases n,
{
    let s = Star { mass: candidates[star].mass, index: star as usize };
    let now = isolated(candidates, close, n);
    if star == n - 1 {
        assert(!is_crowded(close, star));
        assert(now[now.len() - 1] == s);
    } else {
        lemma_alone_is_listed(candidates, close, (n - 1) as nat, star);
        let before = isolated(candidates, close, (n - 1) as nat);
        let i = choose|i: int| 0 <= i < before.len() && before[i] == s;
        assert(now[i] == s);
    }
}

/// Once a star is used it stays among those that are used, in its place.
proof fn lemma_greedy_grows(
    order: Seq<Star>,
    near: Seq<Vec<bool>>,
    wanted: nat,
    k: nat,
    m: nat,
)
    requires
        k <= m <= order.len(),
    ensures
        greedy(order, near, wanted, k).len() <= greedy(order, near, wanted, m).len(),
        forall|i: int|
            0 <= i < greedy(order, near, wanted, k).len() ==> greedy(order, near, wanted, k)[i]
                == #[trigger] greedy(order, near, wanted, m)[i],
        greedy(order, near, wanted, k).len() >= wanted ==> greedy(order, near, wanted, m)
            == greedy(order, near, wanted, k),
    decreases m,
{
    if k < m {
        lemma_greedy_grows(order, near, wanted, k, (m - 1) as nat);
    }
}

/// Each star that is used stands in the order, those before it further ahead.
proof fn lemma_greedy_order(order: Seq<Star>, near: Seq<Vec<bool>>, wanted: nat, k: nat) -> (places:
    Seq<int>)
    requires
        k <= order.len(),
    ensures
        places.len() == greedy(order, near, wanted, k).len(),
        forall|i: int|
            0 <= i < places.len() ==> 0 <= #[trigger] places[i] < k && order[places[i]].index
                == greedy(order, near, wanted, k)[i],
        forall|i: int, j: int|
            0 <= i < j < places.len() ==> #[trigger] places[i] < #[trigger] places[j],
    decreases k,
{
    if k == 0 {
        Seq::empty()
    } else {
        let before = lemma_greedy_order(order, near, wanted, (k - 1) as nat);
        if greedy(order, near, wanted, k).len() == before.len() {
            before
        } else {
            before.push(k - 1)
        }
    }
}

/// The brightest stars are used first: those that are used come in the order of
/// their masses, none twice. A star that stands alone and is not used is near
/// to one of at least its mass that is, or as many stars as wanted are used,
/// each of at least its mass.
pub proof fn law_brightest_stars_are_used(
    candidates: Seq<Candidate>,
    close: Seq<Vec<bool>>,
    near: Seq<Vec<bool>>,
    wanted: nat,
    chosen: Seq<usize>,
)
    requires
        candidates.len() <= usize::MAX,
        is_table(close, candidates.len() as int),
        is_table(near, candidates.len() as int),
        is_selection(candidates, close, near, wanted, chosen),
    ensures
        chosen.len() <= wanted,
        forall|i: int|
            0 <= i < chosen.len() ==> #[trigger] chosen[i] < candidates.len() && stands_alone(
                candidates,
                close,
                chosen[i] as int,
            ),
        forall|i: int, j: int|
            0 <= i < j < chosen.len() ==> candidates[#[trigger] chosen[i] as int].mass
                >= candidates[#[trigger] chosen[j] as int].mass && chosen[i] != chosen[j]
                && !near[chosen[j] as int]@[chosen[i] as int],
        forall|star: int|
            #![trigger stands_alone(candidates, close, star)]
            0 <= star < candidates.len() && stands_alone(candidates, close, star)
                && !chosen.contains(star as usize) ==> {
                ||| exists|i: int|
                    0 <= i < chosen.len() && near[star]@[#[trigger] chosen[i] as int]
                        && candidates[chosen[i] as int].mass >= candidates[star].mass
                ||| chosen.len() == wanted && forall|i: int|
                    0 <= i < chosen.len() ==> candidates[#[trigger] chosen[i] as int].mass
                        >= candidates[star].mass
            },
{
    let all = isolated(candidates, close, candidates.len());
    let order = choose|order: Seq<Star>|
        {
            &&& #[trigger] is_stable_sort(all, order)
            &&& chosen == greedy(order, near, wanted, order.len())
        };
    lemma_order_in_range(candidates, close, order);
    lemma_greedy(order, near, wanted, order.len());
    law_selected_stars_are_apart(candidates, close, near, wanted, chosen);
    crate::sorting::law_sorted_is_ordered(all, order);
    lemma_no_twins(candidates, close, order);
    let places = lemma_greedy_order(order, near, wanted, order.len());
    assert forall|i: int| 0 <= i < chosen.len() implies #[trigger] chosen[i] < candidates.len()
        && stands_alone(candidates, close, chosen[i] as int) by {
        let s = chosen[i] as int;
        assert forall|j: int| 0 <= j < candidates.len() && j != s implies !#[trigger] close[s]@[j] by {
            if close[s]@[j] {
                assert(is_crowded(close, s));
            }
        }
    }
    assert forall|i: int, j: int| 0 <= i < j < chosen.len() implies candidates[
    #[trigger] chosen[i] as int].mass >= candidates[#[trigger] chosen[j] as int].mass && chosen[i]
        != chosen[j] && !near[chosen[j] as int]@[chosen[i] as int] by {
        let a = order[places[i]];
        let b = order[places[j]];
        assert(places[i] < places[j]);
        assert(a.le(&b));
        assert(candidates[a.index as int].mass == a.mass);
        assert(candidates[b.index as int].mass == b.mass);
    }
    assert forall|star: int|
        #![trigger stands_alone(candidates, close, star)]
        0 <= star < candidates.len() && stands_alone(candidates, close, star) && !chosen.contains(
            star as usize,
        ) implies {
        ||| exists|i: int|
            0 <= i < chosen.len() && near[star]@[#[trigger] chosen[i] as int]
                && candidates[chosen[i] as int].mass >= candidates[star].mass
        ||| chosen.len() == wanted && forall|i: int|
            0 <= i < chosen.len() ==> candidates[#[trigger] chosen[i] as int].mass
                >= candidates[star].mass
    } by {
        let s = Star { mass: candidates[star].mass, index: star as usize };
        lemma_alone_is_listed(candidates, close, candidates.len(), star);
        crate::sorting::law_sort_keeps_values(all, order, s);
        let k = choose|k: int| 0 <= k < order.len() && order[k] == s;
        let before = greedy(order, near, wanted, k as nat);
        lemma_greedy_grows(order, near, wanted, k as nat, order.len());
        lemma_greedy_grows(order, near, wanted, (k + 1) as nat, order.len());
        let ahead = lemma_greedy_order(order, near, wanted, k as nat);
        assert forall|i: int| 0 <= i < before.len() implies candidates[
        #[trigger] before[i] as int].mass >= candidates[star].mass by {
            let a = order[ahead[i]];
            assert(ahead[i] < k);
            assert(a.le(&order[k]));
            assert(candidates[a.index as int].mass == a.mass);
        }
        if before.len() >= wanted {
            assert(chosen == before);
        } else if too_close(near, before, star) {
            let i = choose|i: int|
                0 <= i < before.len() && near[star]@[#[trigger] before[i] as int];
            assert(chosen[i] == before[i]);
        } else {
            let now = greedy(order, near, wanted, (k + 1) as nat);
            assert(now == before.push(s.index));
            assert(chosen[before.len() as int] == now[before.len() as int]);
            assert(chosen.contains(star as usize));
        }
    }
}

/// No star stands twice in the order.
proof fn lemma_no_twins(candidates: Seq<Candidate>, close: Seq<Vec<bool>>, order: Seq<Star>)
    requires
        candidates.len() <= usize::MAX,
        is_stable_sort(isolated(candidates, close, candidates.len()), order),
    ensures
        forall|i: int, j: int|
            0 <= i < j < order.len() ==> (#[trigger] order[i]).index != (
            #[trigger] order[j]).index,
{
    let all = isolated(candidates, close, candidates.len());
    lemma_isolated_grows(candidates, close, candidates.len());
    let perm = choose|perm: Seq<int>|
        {
            &&& #[trigger] crate::sorting::is_stable_order(all, perm)
            &&& order == perm.map_values(|i: int| all[i])
        };
    assert forall|i: int, j: int| 0 <= i < j < order.len() implies (#[trigger] order[i]).index != (
    #[trigger] order[j]).index by {
        assert(order[i] == all[perm[i]] && order[j] == all[perm[j]]);
        assert(perm[i] != perm[j]);
    }
}

proof fn lemma_isolated_grows(candidates: Seq<Candidate>, close: Seq<Vec<bool>>, n: nat)
    requires
        n <= candidates.len() <= usize::MAX,
    ensures
        forall|i: int, j: int|
            0 <= i < j < isolated(candidates, close, n).len() ==> (#[trigger] isolated(
                candidates,
                close,
                n,
            )[i]).index < (#[trigger] isolated(candidates, close, n)[j]).index,
    decreases n,
{
    if n > 0 {
        lemma_isolated_grows(candidates, close, (n - 1) as nat);
        lemma_isolated(candidates, close, (n - 1) as nat);
        let before = isolated(candidates, close, (n - 1) as nat);
        let now = isolated(candidates, close, n);
        assert forall|i: int, j: int| 0 <= i < j < now.len() implies (#[trigger] now[i]).index < (
        #[trigger] now[j]).index by {
            assert(now[i] == before[i]);
            if j < before.len() {
                assert(now[j] == before[j]);
            }
        }
    }
}

/// Whatever stands close to a star crowds it, be it itself of use or not: of
/// two candidates that cannot be told apart none is used.
pub proof fn law_close_stars_are_not_used(
    candidates: Seq<Candidate>,
    close: Seq<Vec<bool>>,
    near: Seq<Vec<bool>>,
    wanted: nat,
    chosen: Seq<usize>,
    star: int,
    other: int,
)
    requires
        candidates.len() <= usize::MAX,
        is_table(close, candidates.len() as int),
        is_selection(candidates, close, near, wanted, chosen),
        0 <= star < candidates.len(),
        0 <= other < candidates.len(),
        star != other,
        close[star]@[other],
    ensures
        forall|i: int| 0 <= i < chosen.len() ==> #[trigger] chosen[i] != star,
{
    law_selected_stars_are_apart(candidates, close, near, wanted, chosen);
    assert(is_crowded(close, star));
}

/// Of stars with equal mass the one that is listed first is used first, and a
/// star that is left out for want of room is left out for stars that are
/// brighter or are listed before it.
pub proof fn law_equal_stars_keep_their_order(
    candidates: Seq<Candidate>,
    close: Seq<Vec<bool>>,
    near: Seq<Vec<bool>>,
    wanted: nat,
    chosen: Seq<usize>,
)
    requires
        candidates.len() <= usize::MAX,
        is_table(close, candidates.len() as int),
        is_table(near, candidates.len() as int),
        is_selection(candidates, close, near, wanted, chosen),
    ensures
        forall|i: int, j: int|
            0 <= i < j < chosen.len() && candidates[#[trigger] chosen[i] as int].mass
                == candidates[#[trigger] chosen[j] as int].mass ==> chosen[i] < chosen[j],
        forall|star: int, i: int|
            #![trigger stands_alone(candidates, close, star), chosen[i]]
            0 <= star < candidates.len() && stands_alone(candidates, close, star)
                && !chosen.contains(star as usize) && 0 <= i < chosen.len() && (forall|j: int|
                0 <= j < chosen.len() ==> !near[star]@[#[trigger] chosen[j] as int])
                && candidates[chosen[i] as int].mass == candidates[star].mass ==> chosen[i] < star,
{
    let all = isolated(candidates, close, candidates.len());
    let order = choose|order: Seq<Star>|
        {
            &&& #[trigger] is_stable_sort(all, order)
            &&& chosen == greedy(order, near, wanted, order.len())
        };
    lemma_order_in_range(candidates, close, order);
    lemma_isolated_grows(candidates, close, candidates.len());
    let perm = choose|perm: Seq<int>|
        {
            &&& #[trigger] crate::sorting::is_stable_order(all, perm)
            &&& order == perm.map_values(|i: int| all[i])
        };
    let places = lemma_greedy_order(order, near, wanted, order.len());
    assert forall|x: int, y: int|
        0 <= x < y < order.len() && (#[trigger] order[x]).mass == (
        #[trigger] order[y]).mass implies order[x].index < order[y].index by {
        assert(order[x] == all[perm[x]] && order[y] == all[perm[y]]);
        assert(all[perm[x]].le(&all[perm[y]]) && all[perm[y]].le(&all[perm[x]]));
        assert(perm[x] < perm[y]);
        assert(all[perm[x]].index < all[perm[y]].index);
    }
    assert forall|i: int, j: int|
        0 <= i < j < chosen.len() && candidates[#[trigger] chosen[i] as int].mass == candidates[
        #[trigger] chosen[j] as int].mass implies chosen[i] < chosen[j] by {
        assert(places[i] < places[j]);
        assert(order[places[i]].mass == order[places[j]].mass);
    }
    assert forall|star: int, i: int|
        #![trigger stands_alone(candidates, close, star), chosen[i]]
        0 <= star < candidates.len() && stands_alone(candidates, close, star) && !chosen.contains(
            star as usize,
        ) && 0 <= i < chosen.len() && (forall|j: int|
            0 <= j < chosen.len() ==> !near[star]@[#[trigger] chosen[j] as int])
            && candidates[chosen[i] as int].mass == candidates[star].mass implies chosen[i]
        < star by {
        let s = Star { mass: candidates[star].mass, index: star as usize };
        lemma_alone_is_listed(candidates, close, candidates.len(), star);
        crate::sorting::law_sort_keeps_values(all, order, s);
        let k = choose|k: int| 0 <= k < order.len() && order[k] == s;
        let before = greedy(order, near, wanted, k as nat);
        lemma_greedy_grows(order, near, wanted, k as nat, order.len());
        lemma_greedy_grows(order, near, wanted, (k + 1) as nat, order.len());
        let ahead = lemma_greedy_order(order, near, wanted, k as nat);
        if before.len() >= wanted {
            assert(chosen == before);
            assert(ahead[i] < k);
            assert(order[ahead[i]].index == chosen[i]);
        } else if too_close(near, before, star) {
            let j = choose|j: int|
                0 <= j < before.len() && near[star]@[#[trigger] before[j] as int];
            assert(chosen[j] == before[j]);
        } else {
            let now = greedy(order, near, wanted, (k + 1) as nat);
            assert(now == before.push(s.index));
            assert(chosen[before.len() as int] == now[before.len() as int]);
            assert(chosen.contains(star as usize));
        }
    }
}

} // verus!
