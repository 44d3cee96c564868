//! Stars as connected bright regions of a frame.
//!
//! A pixel is lit when it is above the threshold. Two lit pixels belong to the
//! same region when a chain of lit pixels, each a neighbour of the one before,
//! leads from one to the other. All eight pixels around a pixel are its
//! neighbours.

use crate::guiding::frame::{is_frame, lemma_column_and_row, lemma_pixel_at, pixel_at};
use crate::sorting::positions;
use vstd::prelude::*;

verus! {

/// The neighbour of pixel `p` in direction `k`, 0 to 8 for the rows above,
/// beside and below, from left to right; none for the pixel itself and outside
/// the frame.
pub open spec fn neighbour(width: int, height: int, p: int, k: int) -> Option<int> {
    let x = p % width + k % 3 - 1;
    let y = p / width + k / 3 - 1;
    if k != 4 && 0 <= x < width && 0 <= y < height {
        Some(pixel_at(width, x, y))
    } else {
        None
    }
}

/// `q` is a neighbour of `p`.
pub open spec fn adjacent(width: int, height: int, p: int, q: int) -> bool {
    exists|k: int| 0 <= k < 9 && #[trigger] neighbour(width, height, p, k) == Some(q)
}

/// Pixel `p` is lit.
pub open spec fn is_lit(pixels: Seq<u8>, threshold: int, p: int) -> bool {
    0 <= p < pixels.len() && pixels[p] > threshold
}

/// The pixels of `path` are lit, and each is a neighbour of the one before.
pub open spec fn is_path(width: int, height: int, pixels: Seq<u8>, threshold: int, path: Seq<int>) -> bool {
    &&& path.len() > 0
    &&& forall|i: int| 0 <= i < path.len() ==> is_lit(pixels, threshold, #[trigger] path[i])
    &&& forall|i: int|
        0 < i < path.len() ==> adjacent(width, height, path[i - 1], #[trigger] path[i])
}

/// A chain of lit pixels leads from `p` to `q`.
pub open spec fn connected(
    width: int,
    height: int,
    pixels: Seq<u8>,
    threshold: int,
    p: int,
    q: int,
) -> bool {
    exists|path: Seq<int>|
        {
            &&& #[trigger] is_path(width, height, pixels, threshold, path)
            &&& path.first() == p
            &&& path.last() == q
        }
}

/// The pixels `l` are, each once, those that are connected with `seed`.
pub open spec fn is_component(
    width: int,
    height: int,
    pixels: Seq<u8>,
    threshold: int,
    seed: int,
    l: Seq<int>,
) -> bool {
    &&& l.no_duplicates()
    &&& forall|p: int|
        l.contains(p) <==> #[trigger] connected(width, height, pixels, threshold, seed, p)
}

/// How much pixel `p` is above the threshold.
pub open spec fn excess(pixels: Seq<u8>, threshold: int, p: int) -> int {
    pixels[p] - threshold
}

/// The sum of the excesses of the pixels.
pub open spec fn mass_of(pixels: Seq<u8>, threshold: int, l: Seq<int>) -> int
    decreases l.len(),
{
    if l.len() == 0 {
        0
    } else {
        mass_of(pixels, threshold, l.drop_last()) + excess(pixels, threshold, l.last())
    }
}

/// The sum of the excesses of the pixels, each times its column.
pub open spec fn moment_x(width: int, pixels: Seq<u8>, threshold: int, l: Seq<int>) -> int
    decreases l.len(),
{
    if l.len() == 0 {
        0
    } else {
        moment_x(width, pixels, threshold, l.drop_last()) + (l.last() % width) * excess(
            pixels,
            threshold,
            l.last(),
        )
    }
}

/// The sum of the excesses of the pixels, each times its row.
pub open spec fn moment_y(width: int, pixels: Seq<u8>, threshold: int, l: Seq<int>) -> int
    decreases l.len(),
{
    if l.len() == 0 {
        0
    } else {
        moment_y(width, pixels, threshold, l.drop_last()) + (l.last() / width) * excess(
            pixels,
            threshold,
            l.last(),
        )
    }
}

/// A connected region. Its center is at (`mx` / `mass`, `my` / `mass`).
#[derive(Debug)]
pub struct Region {
    /// The first pixel of the region that is bright enough for a star.
    pub seed: usize,
    /// All pixels of the region.
    pub pixels: Vec<usize>,
    /// The brightness above the threshold.
    pub mass: u64,
    pub mx: u128,
    pub my: u128,
}

/// What is measured of a region belongs to its pixels.
pub open spec fn is_region(
    width: int,
    height: int,
    pixels: Seq<u8>,
    threshold: int,
    r: Region,
) -> bool {
    let l = positions(r.pixels@);
    &&& is_component(width, height, pixels, threshold, r.seed as int, l)
    &&& r.mass == mass_of(pixels, threshold, l)
    &&& r.mx == moment_x(width, pixels, threshold, l)
    &&& r.my == moment_y(width, pixels, threshold, l)
}

/// The brightness above the threshold that a star needs in one pixel.
pub const STAR_PEAK: u8 = 100;

/// The brightness above the threshold that a star needs in all.
pub const STAR_MASS: u64 = 500;

/// Pixel `p` is bright enough for a star.
pub open spec fn is_bright(pixels: Seq<u8>, threshold: int, p: int) -> bool {
    0 <= p < pixels.len() && pixels[p] >= threshold + STAR_PEAK
}

/// Pixel `p` is the first of its region that is bright enough for a star.
pub open spec fn is_seed(width: int, height: int, pixels: Seq<u8>, threshold: int, p: int) -> bool {
    &&& is_bright(pixels, threshold, p)
    &&& forall|q: int|
        0 <= q < p && is_bright(pixels, threshold, q) ==> !#[trigger] connected(
            width,
            height,
            pixels,
            threshold,
            p,
            q,
        )
}

/// The region of pixel `p` is too faint for a star.
pub open spec fn is_faint(width: int, height: int, pixels: Seq<u8>, threshold: int, p: int) -> bool {
    exists|l: Seq<int>|
        {
            &&& #[trigger] is_component(width, height, pixels, threshold, p, l)
            &&& mass_of(pixels, threshold, l) <= STAR_MASS
        }
}

// ---------------------------------------------------------------------------
// Neighbours
// ---------------------------------------------------------------------------

/// If `q` is a neighbour of `p`, then `p` is one of `q`.
proof fn lemma_adjacent_symmetric(width: int, height: int, p: int, q: int)
    requires
        0 <= width,
        0 <= height,
        0 <= p < width * height,
        adjacent(width, height, p, q),
    ensures
        adjacent(width, height, q, p),
        0 <= q < width * height,
{
    lemma_column_and_row(width, height, p);
    let k = choose|k: int| 0 <= k < 9 && #[trigger] neighbour(width, height, p, k) == Some(q);
    let x = p % width + k % 3 - 1;
    let y = p / width + k / 3 - 1;
    lemma_pixel_at(width, height, x, y);
    let b = 8 - k;
    assert(b % 3 == 2 - k % 3 && b / 3 == 2 - k / 3);
    assert(q % width + b % 3 - 1 == p % width);
    assert(q / width + b / 3 - 1 == p / width);
    assert(neighbour(width, height, q, b) == Some(p));
}

/// A chain can be made longer by a lit neighbour of its last pixel.
proof fn lemma_extend(
    width: int,
    height: int,
    pixels: Seq<u8>,
    threshold: int,
    p: int,
    q: int,
    r: int,
)
    requires
        connected(width, height, pixels, threshold, p, q),
        adjacent(width, height, q, r),
        is_lit(pixels, threshold, r),
    ensures
        connected(width, height, pixels, threshold, p, r),
{
    let path = choose|path: Seq<int>|
        {
            &&& #[trigger] is_path(width, height, pixels, threshold, path)
            &&& path.first() == p
            &&& path.last() == q
        };
    let longer = path.push(r);
    assert forall|i: int| 0 <= i < longer.len() implies is_lit(
        pixels,
        threshold,
        #[trigger] longer[i],
    ) by {
        if i < path.len() {
            assert(longer[i] == path[i]);
        }
    }
    assert forall|i: int| 0 < i < longer.len() implies adjacent(
        width,
        height,
        longer[i - 1],
        #[trigger] longer[i],
    ) by {
        if i < path.len() {
            assert(longer[i] == path[i]);
        }
    }
    assert(is_path(width, height, pixels, threshold, longer));
    assert(longer.first() == p && longer.last() == r);
}

/// A lit pixel is connected with itself.
proof fn lemma_connected_self(
    width: int,
    height: int,
    pixels: Seq<u8>,
    threshold: int,
    p: int,
)
    requires
        is_lit(pixels, threshold, p),
    ensures
        connected(width, height, pixels, threshold, p, p),
{
    let path = seq![p];
    assert(is_path(width, height, pixels, threshold, path));
    assert(path.first() == p && path.last() == p);
}

/// A set of pixels that holds the lit neighbours of each of its pixels holds
/// the end of every chain that begins in it.
proof fn lemma_closed_set_holds_path(
    width: int,
    height: int,
    pixels: Seq<u8>,
    threshold: int,
    set: Set<int>,
    path: Seq<int>,
)
    requires
        is_path(width, height, pixels, threshold, path),
        set.contains(path.first()),
        forall|p: int, q: int|
            set.contains(p) && #[trigger] adjacent(width, height, p, q) && is_lit(
                pixels,
                threshold,
                q,
            ) ==> set.contains(q),
    ensures
        set.contains(path.last()),
    decreases path.len(),
{
    if path.len() > 1 {
        let shorter = path.drop_last();
        assert forall|i: int| 0 <= i < shorter.len() implies is_lit(
            pixels,
            threshold,
            #[trigger] shorter[i],
        ) by {
            assert(shorter[i] == path[i]);
        }
        assert forall|i: int| 0 < i < shorter.len() implies adjacent(
            width,
            height,
            shorter[i - 1],
            #[trigger] shorter[i],
        ) by {
            assert(shorter[i] == path[i]);
        }
        lemma_closed_set_holds_path(width, height, pixels, threshold, set, shorter);
        let last = path.len() - 1;
        assert(adjacent(width, height, path[last - 1], path[last]));
    }
}

/// A chain can be walked backwards.
pub proof fn law_connected_symmetric(
    width: int,
    height: int,
    pixels: Seq<u8>,
    threshold: int,
    p: int,
    q: int,
)
    requires
        0 <= width,
        0 <= height,
        pixels.len() == width * height,
        connected(width, height, pixels, threshold, p, q),
    ensures
        connected(width, height, pixels, threshold, q, p),
{
    let path = choose|path: Seq<int>|
        {
            &&& #[trigger] is_path(width, height, pixels, threshold, path)
            &&& path.first() == p
            &&& path.last() == q
        };
    let back = path.reverse();
    assert forall|i: int| 0 <= i < back.len() implies is_lit(
        pixels,
        threshold,
        #[trigger] back[i],
    ) by {
        assert(back[i] == path[path.len() - 1 - i]);
    }
    assert forall|i: int| 0 < i < back.len() implies adjacent(
        width,
        height,
        back[i - 1],
        #[trigger] back[i],
    ) by {
        let j = path.len() - i;
        assert(back[i - 1] == path[j] && back[i] == path[j - 1]);
        assert(is_lit(pixels, threshold, path[j - 1]));
        assert(adjacent(width, height, path[j - 1], path[j]));
        lemma_adjacent_symmetric(width, height, path[j - 1], path[j]);
    }
    assert(is_path(width, height, pixels, threshold, back));
    assert(back.first() == q && back.last() == p);
}

/// Two chains can be joined.
pub proof fn law_connected_transitive(
    width: int,
    height: int,
    pixels: Seq<u8>,
    threshold: int,
    p: int,
    q: int,
    r: int,
)
    requires
        connected(width, height, pixels, threshold, p, q),
        connected(width, height, pixels, threshold, q, r),
    ensures
        connected(width, height, pixels, threshold, p, r),
{
    let reach = Set::new(|x: int| connected(width, height, pixels, threshold, p, x));
    let path = choose|path: Seq<int>|
        {
            &&& #[trigger] is_path(width, height, pixels, threshold, path)
            &&& path.first() == q
            &&& path.last() == r
        };
    assert forall|a: int, b: int|
        reach.contains(a) && #[trigger] adjacent(width, height, a, b) && is_lit(
            pixels,
            threshold,
            b,
        ) implies reach.contains(b) by {
        lemma_extend(width, height, pixels, threshold, p, a, b);
    }
    lemma_closed_set_holds_path(width, height, pixels, threshold, reach, path);
}

// ---------------------------------------------------------------------------
// Filling a region
// ---------------------------------------------------------------------------

/// The pixels that have been visited.
spec fn marked(visited: Seq<bool>) -> Set<int> {
    Set::new(|p: int| 0 <= p < visited.len() && visited[p])
}

/// The visited pixels hold the lit neighbours of each of them.
spec fn is_closed(
    width: int,
    height: int,
    pixels: Seq<u8>,
    threshold: int,
    set: Set<int>,
) -> bool {
    forall|p: int, q: int|
        set.contains(p) && #[trigger] adjacent(width, height, p, q) && is_lit(
            pixels,
            threshold,
            q,
        ) ==> set.contains(q)
}

/// Distinct positions below `n` are at most `n`.
proof fn lemma_at_most(l: Seq<int>, n: nat)
    requires
        l.no_duplicates(),
        forall|i: int| 0 <= i < l.len() ==> 0 <= #[trigger] l[i] < n,
    ensures
        l.len() <= n,
{
    let all = vstd::set_lib::set_int_range(0, n as int);
    vstd::set_lib::lemma_int_range(0, n as int);
    l.unique_seq_to_set();
    assert(l.to_set().subset_of(all));
    vstd::set_lib::lemma_len_subset(l.to_set(), all);
}

fn neighbour_of(width: u32, height: u32, p: usize, k: u32) -> (r: Option<usize>)
    requires
        width * height <= i32::MAX,
        p < width * height,
        k < 9,
    ensures
        match r {
            Some(q) => neighbour(width as int, height as int, p as int, k as int) == Some(q as int)
                && q < width * height,
            None => neighbour(width as int, height as int, p as int, k as int) is None,
        },
{
    proof {
        lemma_column_and_row(width as int, height as int, p as int);
    }
    let x: i64 = (p as u64 % width as u64) as i64 + (k % 3) as i64 - 1;
    let y: i64 = (p as u64 / width as u64) as i64 + (k / 3) as i64 - 1;
    if k != 4 && 0 <= x && x < width as i64 && 0 <= y && y < height as i64 {
        proof {
            lemma_pixel_at(width as int, height as int, x as int, y as int);
            assert(0 <= y * width <= y * width + x) by (nonlinear_arith)
                requires
                    0 <= x,
                    0 <= y,
                    0 <= width,
            ;
        }
        let q: i64 = y * width as i64 + x;
        Some(q as usize)
    } else {
        None
    }
}

/// Pushes the lit neighbours of `p` that were not visited.
fn push_neighbours(
    width: u32,
    height: u32,
    pixels: &[u8],
    threshold: u8,
    visited: &Vec<bool>,
    p: usize,
    stack: &mut Vec<usize>,
)
    requires
        is_frame(width, height, pixels@),
        visited@.len() == pixels@.len(),
        p < pixels@.len(),
    ensures
        old(stack)@.len() <= final(stack)@.len(),
        forall|i: int|
            0 <= i < old(stack)@.len() ==> #[trigger] final(stack)@[i] == old(stack)@[i],
        forall|i: int|
            old(stack)@.len() <= i < final(stack)@.len() ==> is_lit(
                pixels@,
                threshold as int,
                #[trigger] final(stack)@[i] as int,
            ) && adjacent(width as int, height as int, p as int, final(stack)@[i] as int),
        forall|q: int|
            #[trigger] adjacent(width as int, height as int, p as int, q) && is_lit(
                pixels@,
                threshold as int,
                q,
            ) ==> visited@[q] || positions(final(stack)@).contains(q),
{
    let ghost before = stack@;
    for k in 0..9u32
        invariant
            is_frame(width, height, pixels@),
            visited@.len() == pixels@.len(),
            p < pixels@.len(),
            before.len() <= stack@.len(),
            forall|i: int| 0 <= i < before.len() ==> #[trigger] stack@[i] == before[i],
            forall|i: int|
                before.len() <= i < stack@.len() ==> is_lit(
                    pixels@,
                    threshold as int,
                    #[trigger] stack@[i] as int,
                ) && adjacent(width as int, height as int, p as int, stack@[i] as int),
            forall|j: int|
                0 <= j < k ==> match #[trigger] neighbour(
                    width as int,
                    height as int,
                    p as int,
                    j,
                ) {
                    Some(q) => is_lit(pixels@, threshold as int, q) ==> visited@[q] || positions(
                        stack@,
                    ).contains(q),
                    None => true,
                },
    {
        let ghost was = stack@;
        match neighbour_of(width, height, p, k) {
            Some(q) => {
                if !visited[q] && pixels[q] > threshold {
                    stack.push(q);
                    proof {
                        assert(neighbour(width as int, height as int, p as int, k as int) == Some(
                            q as int,
                        ));
                        assert(adjacent(width as int, height as int, p as int, q as int));
                        let n = was.len() as int;
                        assert(positions(stack@)[n] == q);
                        assert forall|x: int| positions(was).contains(x) implies positions(
                            stack@,
                        ).contains(x) by {
                            let i = choose|i: int| 0 <= i < was.len() && positions(was)[i] == x;
                            assert(positions(stack@)[i] == x);
                        }
                        assert(positions(stack@).contains(q as int));
                    }
                }
            },
            None => {},
        }
    }
    proof {
        assert forall|q: int|
            #[trigger] adjacent(width as int, height as int, p as int, q) && is_lit(
                pixels@,
                threshold as int,
                q,
            ) implies visited@[q] || positions(stack@).contains(q) by {
            let j = choose|j: int|
                0 <= j < 9 && #[trigger] neighbour(width as int, height as int, p as int, j)
                    == Some(q);
        }
    }
}

/// Visits the region of the unvisited bright pixel `seed`.
#[verifier::rlimit(60)]
fn fill_region(
    width: u32,
    height: u32,
    pixels: &[u8],
    threshold: u8,
    visited: &mut Vec<bool>,
    seed: usize,
) -> (r: Region)
    requires
        is_frame(width, height, pixels@),
        old(visited)@.len() == pixels@.len(),
        seed < pixels@.len(),
        is_lit(pixels@, threshold as int, seed as int),
        !old(visited)@[seed as int],
        is_closed(
            width as int,
            height as int,
            pixels@,
            threshold as int,
            marked(old(visited)@),
        ),
    ensures
        r.seed == seed,
        is_region(width as int, height as int, pixels@, threshold as int, r),
        final(visited)@.len() == pixels@.len(),
        is_closed(
            width as int,
            height as int,
            pixels@,
            threshold as int,
            marked(final(visited)@),
        ),
        forall|p: int|
            0 <= p < pixels@.len() ==> (#[trigger] final(visited)@[p] <==> old(visited)@[p]
                || connected(
                width as int,
                height as int,
                pixels@,
                threshold as int,
                seed as int,
                p,
            )),
{
    let ghost w = width as int;
    let ghost h = height as int;
    let ghost t = threshold as int;
    let ghost px = pixels@;
    let ghost before = visited@;
    let n = pixels.len();
    let mut list: Vec<usize> = Vec::new();
    let mut mass: u64 = 0;
    let mut mx: u128 = 0;
    let mut my: u128 = 0;
    let mut stack: Vec<usize> = Vec::new();
    stack.push(seed);
    proof {
        lemma_connected_self(w, h, px, t, seed as int);
        lemma_column_and_row(w, h, seed as int);
        assert(positions(list@) =~= Seq::<int>::empty());
        assert(positions(stack@)[0] == seed);
    }
    while stack.len() > 0
        invariant
            w == width && h == height && t == threshold && px == pixels@,
            is_frame(width, height, px),
            n == px.len(),
            0 < width,
            before.len() == n,
            visited@.len() == n,
            !before[seed as int],
            seed < n,
            positions(list@).no_duplicates(),
            forall|i: int|
                0 <= i < list@.len() ==> #[trigger] list@[i] < n && connected(
                    w,
                    h,
                    px,
                    t,
                    seed as int,
                    list@[i] as int,
                ) && is_lit(px, t, list@[i] as int) && !before[list@[i] as int],
            forall|p: int|
                0 <= p < n ==> (#[trigger] visited@[p] <==> before[p] || positions(
                    list@,
                ).contains(p)),
            forall|i: int|
                0 <= i < stack@.len() ==> is_lit(px, t, #[trigger] stack@[i] as int) && connected(
                    w,
                    h,
                    px,
                    t,
                    seed as int,
                    stack@[i] as int,
                ),
            forall|p: int, q: int|
                positions(list@).contains(p) && #[trigger] adjacent(w, h, p, q) && is_lit(px, t, q)
                    ==> visited@[q] || positions(stack@).contains(q),
            positions(list@).contains(seed as int) || positions(stack@).contains(seed as int),
            is_closed(w, h, px, t, marked(before)),
            mass == mass_of(px, t, positions(list@)),
            mx == moment_x(w, px, t, positions(list@)),
            my == moment_y(w, px, t, positions(list@)),
            mass <= list@.len() * 255,
            mx <= list@.len() * 255 * width,
            my <= list@.len() * 255 * height,
            list@.len() <= n,
        decreases n - list@.len(), stack@.len(),
    {
        let ghost old_stack = stack@;
        let ghost old_list = list@;
        let ghost old_visited = visited@;
        let idx: usize = match stack.pop() {
            Some(i) => i,
            None => seed,
        };
        let ghost last = old_stack.len() - 1;
        assert(idx == old_stack[last]);
        assert(stack@ =~= old_stack.drop_last());
        proof {
            assert forall|x: int| positions(old_stack).contains(x) && x != idx implies positions(
                stack@,
            ).contains(x) by {
                let i = choose|i: int| 0 <= i < old_stack.len() && positions(old_stack)[i] == x;
                assert(i < last);
                assert(positions(stack@)[i] == x);
            }
        }
        if visited[idx] {
            proof {
                assert(!positions(list@).contains(seed as int) ==> idx != seed);
            }
            continue ;
        }
        visited.set(idx, true);
        let value = pixels[idx];
        let gain: u8 = value - threshold;
        proof {
            lemma_column_and_row(w, h, idx as int);
            lemma_at_most_next(px, t, list@, idx, n as nat);
        }
        let x: u64 = idx as u64 % width as u64;
        let y: u64 = idx as u64 / width as u64;
        proof {
            assert(x * gain <= 255 * width) by (nonlinear_arith)
                requires
                    0 <= x < width,
                    0 <= gain <= 255,
            ;
            assert(y * gain <= 255 * height) by (nonlinear_arith)
                requires
                    0 <= y < height,
                    0 <= gain <= 255,
            ;
            assert(list@.len() * 255 * width + 255 * width == (list@.len() + 1) * 255 * width)
                by (nonlinear_arith);
            assert(list@.len() * 255 * height + 255 * height == (list@.len() + 1) * 255 * height)
                by (nonlinear_arith);
            assert((list@.len() + 1) * 255 * width <= 0x7fff_ffff * 255 * 0xffff_ffff)
                by (nonlinear_arith)
                requires
                    list@.len() + 1 <= 0x7fff_ffff,
                    0 <= width <= 0xffff_ffff,
            ;
            assert((list@.len() + 1) * 255 * height <= 0x7fff_ffff * 255 * 0xffff_ffff)
                by (nonlinear_arith)
                requires
                    list@.len() + 1 <= 0x7fff_ffff,
                    0 <= height <= 0xffff_ffff,
            ;
            assert(0 <= x * gain && 0 <= y * gain) by (nonlinear_arith);
        }
        mass = mass + gain as u64;
        mx = mx + x as u128 * gain as u128;
        my = my + y as u128 * gain as u128;
        list.push(idx);
        push_neighbours(width, height, pixels, threshold, visited, idx, &mut stack);
        proof {
            let l = positions(list@);
            let k = positions(old_list);
            assert(l =~= k.push(idx as int));
            assert(l.drop_last() =~= k);
            assert forall|p: int| l.contains(p) <==> k.contains(p) || p == idx by {
                if l.contains(p) {
                    let i = choose|i: int| 0 <= i < l.len() && l[i] == p;
                    if i < k.len() {
                        assert(k[i] == p);
                    }
                }
                if k.contains(p) {
                    let i = choose|i: int| 0 <= i < k.len() && k[i] == p;
                    assert(l[i] == p);
                }
                assert(l[k.len() as int] == idx);
            }
            assert(!k.contains(idx as int)) by {
                assert(!old_visited[idx as int]);
            }
            assert(l.no_duplicates());
            let kept = old_stack.drop_last();
            assert forall|x: int| positions(kept).contains(x) implies positions(stack@).contains(
                x,
            ) by {
                let i = choose|i: int| 0 <= i < kept.len() && positions(kept)[i] == x;
                assert(stack@[i] == kept[i]);
                assert(positions(stack@)[i] == x);
            }
            assert forall|i: int| 0 <= i < stack@.len() implies is_lit(
                px,
                t,
                #[trigger] stack@[i] as int,
            ) && connected(w, h, px, t, seed as int, stack@[i] as int) by {
                if i < kept.len() {
                    assert(stack@[i] == kept[i]);
                    assert(kept[i] == old_stack[i]);
                } else {
                    lemma_extend(w, h, px, t, seed as int, idx as int, stack@[i] as int);
                }
            }
            assert forall|p: int, q: int|
                l.contains(p) && #[trigger] adjacent(w, h, p, q) && is_lit(
                    px,
                    t,
                    q,
                ) implies visited@[q] || positions(stack@).contains(q) by {
                if p != idx {
                    assert(k.contains(p));
                    assert(old_visited[q] || positions(old_stack).contains(q));
                    if !visited@[q] {
                        assert(q != idx);
                        assert(positions(kept).contains(q));
                    }
                }
            }
        }
    }
    proof {
        let l = positions(list@);
        assert(positions(stack@).len() == 0);
        assert(l.contains(seed as int));
        let set = l.to_set();
        assert forall|p: int, q: int|
            set.contains(p) && #[trigger] adjacent(w, h, p, q) && is_lit(
                px,
                t,
                q,
            ) implies set.contains(q) by {
            assert(l.contains(p));
            assert(visited@[q]);
            if before[q] {
                let i = choose|i: int| 0 <= i < l.len() && l[i] == p;
                assert(list@[i] == p);
                lemma_adjacent_symmetric(w, h, p, q);
                assert(marked(before).contains(q));
                assert(adjacent(w, h, q, p));
                assert(marked(before).contains(p));
            }
        }
        assert forall|p: int| l.contains(p) <==> #[trigger] connected(
            w,
            h,
            px,
            t,
            seed as int,
            p,
        ) by {
            if l.contains(p) {
                let i = choose|i: int| 0 <= i < l.len() && l[i] == p;
                assert(list@[i] == p);
            }
            if connected(w, h, px, t, seed as int, p) {
                let path = choose|path: Seq<int>|
                    {
                        &&& #[trigger] is_path(w, h, px, t, path)
                        &&& path.first() == seed as int
                        &&& path.last() == p
                    };
                lemma_closed_set_holds_path(w, h, px, t, set, path);
            }
        }
        assert(is_component(w, h, px, t, seed as int, l));
        assert forall|p: int, q: int|
            marked(visited@).contains(p) && #[trigger] adjacent(w, h, p, q) && is_lit(
                px,
                t,
                q,
            ) implies marked(visited@).contains(q) by {
            if before[p] {
                assert(marked(before).contains(p));
                assert(marked(before).contains(q));
            } else {
                assert(l.contains(p));
                assert(visited@[q]);
            }
        }
    }
    Region { seed, pixels: list, mass, mx, my }
}

/// A new pixel fits into the list.
proof fn lemma_at_most_next(px: Seq<u8>, t: int, list: Seq<usize>, idx: usize, n: nat)
    requires
        positions(list).no_duplicates(),
        forall|i: int| 0 <= i < list.len() ==> #[trigger] list[i] < n,
        idx < n,
        !positions(list).contains(idx as int),
    ensures
        list.len() + 1 <= n,
{
    let l = positions(list).push(idx as int);
    assert forall|i: int| 0 <= i < l.len() implies 0 <= #[trigger] l[i] < n by {
        if i < list.len() {
            assert(l[i] == list[i]);
        }
    }
    assert(l.no_duplicates());
    lemma_at_most(l, n);
}

// ---------------------------------------------------------------------------
// Finding all regions
// ---------------------------------------------------------------------------

/// The regions are those of stars, in the order of their seeds.
pub open spec fn are_star_regions(
    width: int,
    height: int,
    pixels: Seq<u8>,
    threshold: int,
    found: Seq<Region>,
) -> bool {
    &&& forall|k: int|
        0 <= k < found.len() ==> {
            &&& is_region(width, height, pixels, threshold, #[trigger] found[k])
            &&& is_seed(width, height, pixels, threshold, found[k].seed as int)
            &&& found[k].mass > STAR_MASS
        }
    &&& forall|j: int, k: int|
        0 <= j < k < found.len() ==> (#[trigger] found[j]).seed < (#[trigger] found[k]).seed
}

/// Some region begins at pixel `p`.
pub open spec fn begins_at(found: Seq<Region>, p: int) -> bool {
    exists|k: int| 0 <= k < found.len() && (#[trigger] found[k]).seed == p
}

/// The regions of a frame that hold a pixel far above the threshold and are
/// bright enough in all, in the order of their first such pixel.
pub fn find_regions(width: u32, height: u32, pixels: &[u8], threshold: u8) -> (found: Vec<Region>)
    requires
        is_frame(width, height, pixels@),
        threshold + STAR_PEAK <= u8::MAX,
    ensures
        are_star_regions(width as int, height as int, pixels@, threshold as int, found@),
        forall|p: int|
            #[trigger] is_seed(width as int, height as int, pixels@, threshold as int, p) ==> {
                ||| is_faint(width as int, height as int, pixels@, threshold as int, p)
                ||| begins_at(found@, p)
            },
{
    let ghost w = width as int;
    let ghost h = height as int;
    let ghost t = threshold as int;
    let ghost px = pixels@;
    let bright: u8 = threshold + STAR_PEAK;
    let n = pixels.len();
    let mut visited: Vec<bool> = Vec::new();
    for i in 0..n
        invariant
            visited@.len() == i,
            forall|p: int| 0 <= p < i ==> !#[trigger] visited@[p],
    {
        visited.push(false);
    }
    let mut found: Vec<Region> = Vec::new();
    let mut i: usize = 0;
    while i < n
        invariant
            w == width && h == height && t == threshold && px == pixels@,
            is_frame(width, height, px),
            bright == threshold + STAR_PEAK,
            i <= n == px.len(),
            visited@.len() == n,
            is_closed(w, h, px, t, marked(visited@)),
            forall|p: int|
                0 <= p < n ==> (#[trigger] visited@[p] <==> exists|q: int|
                    0 <= q < i && is_bright(px, t, q) && #[trigger] connected(w, h, px, t, q, p)),
            are_star_regions(w, h, px, t, found@),
            forall|k: int| 0 <= k < found@.len() ==> (#[trigger] found@[k]).seed < i,
            forall|p: int|
                0 <= p < i && #[trigger] is_seed(w, h, px, t, p) ==> is_faint(w, h, px, t, p)
                    || begins_at(found@, p),
        decreases n - i,
    {
        let ghost old_visited = visited@;
        let ghost old_found = found@;
        if visited[i] {
            proof {
                let q = choose|q: int|
                    0 <= q < i && is_bright(px, t, q) && #[trigger] connected(
                        w,
                        h,
                        px,
                        t,
                        q,
                        i as int,
                    );
                law_connected_symmetric(w, h, px, t, q, i as int);
                assert(!is_seed(w, h, px, t, i as int));
                if is_bright(px, t, i as int) {
                    assert forall|p: int|
                        0 <= p < n && connected(w, h, px, t, i as int, p) implies visited@[p] by {
                        law_connected_transitive(w, h, px, t, q, i as int, p);
                        assert(connected(w, h, px, t, q, p));
                    }
                }
            }
        } else if pixels[i] >= bright {
            proof {
                assert forall|q: int| 0 <= q < i && is_bright(px, t, q) implies !#[trigger] connected(
                    w,
                    h,
                    px,
                    t,
                    i as int,
                    q,
                ) by {
                    if connected(w, h, px, t, i as int, q) {
                        law_connected_symmetric(w, h, px, t, i as int, q);
                        assert(visited@[i as int]);
                    }
                }
                assert(is_seed(w, h, px, t, i as int));
            }
            let region = fill_region(width, height, pixels, threshold, &mut visited, i);
            let ghost r = region;
            if region.mass > STAR_MASS {
                found.push(region);
                proof {
                    let last = old_found.len() as int;
                    assert(found@[last] == r);
                    assert forall|k: int| 0 <= k < found@.len() implies {
                        &&& is_region(w, h, px, t, #[trigger] found@[k])
                        &&& is_seed(w, h, px, t, found@[k].seed as int)
                        &&& found@[k].mass > STAR_MASS
                    } by {
                        if k < last {
                            assert(found@[k] == old_found[k]);
                        }
                    }
                    assert forall|j: int, k: int| 0 <= j < k < found@.len() implies (
                    #[trigger] found@[j]).seed < (#[trigger] found@[k]).seed by {
                        assert(found@[j] == old_found[j]);
                        if k < last {
                            assert(found@[k] == old_found[k]);
                        }
                    }
                    assert forall|p: int| begins_at(old_found, p) implies begins_at(
                        found@,
                        p,
                    ) by {
                        let k = choose|k: int|
                            0 <= k < old_found.len() && (#[trigger] old_found[k]).seed == p;
                        assert(found@[k] == old_found[k]);
                    }
                    assert(begins_at(found@, i as int));
                }
            } else {
                proof {
                    let l = positions(region.pixels@);
                    assert(is_component(w, h, px, t, i as int, l));
                    assert(is_faint(w, h, px, t, i as int));
                }
            }
        } else {
            assert(!is_bright(px, t, i as int));
            assert(!is_seed(w, h, px, t, i as int));
        }
        proof {
            assert forall|p: int| 0 <= p < n implies (#[trigger] visited@[p] <==> exists|q: int|
                0 <= q < i + 1 && is_bright(px, t, q) && #[trigger] connected(
                    w,
                    h,
                    px,
                    t,
                    q,
                    p,
                )) by {
                if visited@[p] {
                    if old_visited[p] {
                        let q = choose|q: int|
                            0 <= q < i && is_bright(px, t, q) && #[trigger] connected(
                                w,
                                h,
                                px,
                                t,
                                q,
                                p,
                            );
                        assert(connected(w, h, px, t, q, p));
                    } else {
                        assert(connected(w, h, px, t, i as int, p));
                    }
                }
                if exists|q: int|
                    0 <= q < i + 1 && is_bright(px, t, q) && #[trigger] connected(
                        w,
                        h,
                        px,
                        t,
                        q,
                        p,
                    ) {
                    let q = choose|q: int|
                        0 <= q < i + 1 && is_bright(px, t, q) && #[trigger] connected(
                            w,
                            h,
                            px,
                            t,
                            q,
                            p,
                        );
                    if q < i {
                        assert(old_visited[p]);
                    } else {
                        assert(visited@[p]);
                    }
                }
            }
        }
        i = i + 1;
    }
    proof {
        assert forall|p: int| #[trigger] is_seed(w, h, px, t, p) implies is_faint(w, h, px, t, p)
            || begins_at(found@, p) by {
            assert(0 <= p < n);
        }
    }
    found
}

// ---------------------------------------------------------------------------
// Laws
// ---------------------------------------------------------------------------

/// Every bright pixel belongs to a region with a seed: the first bright pixel
/// that is connected with it.
proof fn lemma_has_seed(
    width: int,
    height: int,
    pixels: Seq<u8>,
    threshold: int,
    p: int,
    q: int,
) -> (s: int)
    requires
        0 <= width,
        0 <= height,
        0 <= threshold,
        pixels.len() == width * height,
        is_bright(pixels, threshold, p),
        is_bright(pixels, threshold, q),
        connected(width, height, pixels, threshold, q, p),
    ensures
        is_seed(width, height, pixels, threshold, s),
        connected(width, height, pixels, threshold, s, p),
    decreases q,
{
    if is_seed(width, height, pixels, threshold, q) {
        q
    } else {
        let r = choose|r: int|
            0 <= r < q && is_bright(pixels, threshold, r) && #[trigger] connected(
                width,
                height,
                pixels,
                threshold,
                q,
                r,
            );
        law_connected_symmetric(width, height, pixels, threshold, q, r);
        law_connected_transitive(width, height, pixels, threshold, r, q, p);
        lemma_has_seed(width, height, pixels, threshold, p, r)
    }
}

/// No star is lost: every pixel that is bright enough for a star lies in one
/// of the found regions, or its region is too faint.
pub proof fn law_no_star_is_lost(
    width: int,
    height: int,
    pixels: Seq<u8>,
    threshold: int,
    found: Seq<Region>,
    p: int,
)
    requires
        0 <= width,
        0 <= height,
        0 <= threshold,
        pixels.len() == width * height,
        are_star_regions(width, height, pixels, threshold, found),
        forall|s: int|
            #[trigger] is_seed(width, height, pixels, threshold, s) ==> is_faint(
                width,
                height,
                pixels,
                threshold,
                s,
            ) || begins_at(found, s),
        is_bright(pixels, threshold, p),
    ensures
        (exists|k: int|
            0 <= k < found.len() && positions((#[trigger] found[k]).pixels@).contains(p)) || (exists|
            s: int,
        |
            #[trigger] connected(width, height, pixels, threshold, s, p) && is_faint(
                width,
                height,
                pixels,
                threshold,
                s,
            )),
{
    lemma_connected_self(width, height, pixels, threshold, p);
    let s = lemma_has_seed(width, height, pixels, threshold, p, p);
    if begins_at(found, s) {
        let k = choose|k: int| 0 <= k < found.len() && (#[trigger] found[k]).seed == s;
        assert(is_region(width, height, pixels, threshold, found[k]));
        assert(connected(width, height, pixels, threshold, s, p));
        assert(positions(found[k].pixels@).contains(p));
    }
}

/// No pixel is counted twice: two found regions have no pixel in common.
pub proof fn law_regions_are_disjoint(
    width: int,
    height: int,
    pixels: Seq<u8>,
    threshold: int,
    found: Seq<Region>,
    j: int,
    k: int,
    p: int,
)
    requires
        0 <= width,
        0 <= height,
        pixels.len() == width * height,
        are_star_regions(width, height, pixels, threshold, found),
        0 <= j < k < found.len(),
        positions(found[j].pixels@).contains(p),
    ensures
        !positions(found[k].pixels@).contains(p),
{
    let a = found[j].seed as int;
    let b = found[k].seed as int;
    assert(is_region(width, height, pixels, threshold, found[j]));
    assert(is_region(width, height, pixels, threshold, found[k]));
    if positions(found[k].pixels@).contains(p) {
        assert(connected(width, height, pixels, threshold, a, p));
        assert(connected(width, height, pixels, threshold, b, p));
        law_connected_symmetric(width, height, pixels, threshold, a, p);
        law_connected_transitive(width, height, pixels, threshold, b, p, a);
        assert(is_seed(width, height, pixels, threshold, b));
        assert(is_seed(width, height, pixels, threshold, a));
    }
}

/// Two pixels of a frame are neighbours exactly where they differ and neither
/// their columns nor their rows are more than one apart.
pub proof fn law_neighbours(width: int, height: int, px: int, py: int, qx: int, qy: int)
    requires
        0 <= px < width,
        0 <= qx < width,
        0 <= py < height,
        0 <= qy < height,
    ensures
        adjacent(width, height, py * width + px, qy * width + qx) <==> (px != qx || py != qy) && -1
            <= px - qx <= 1 && -1 <= py - qy <= 1,
{
    let p = py * width + px;
    let q = qy * width + qx;
    lemma_pixel_at(width, height, px, py);
    lemma_pixel_at(width, height, qx, qy);
    assert(p == pixel_at(width, px, py) && q == pixel_at(width, qx, qy));
    if adjacent(width, height, p, q) {
        let k = choose|k: int| 0 <= k < 9 && #[trigger] neighbour(width, height, p, k) == Some(q);
        let x = p % width + k % 3 - 1;
        let y = p / width + k / 3 - 1;
        lemma_pixel_at(width, height, x, y);
        assert(qx == x && qy == y);
        assert(k != 4);
    }
    if (px != qx || py != qy) && -1 <= px - qx <= 1 && -1 <= py - qy <= 1 {
        let k = 3 * (qy - py + 1) + (qx - px + 1);
        assert(k % 3 == qx - px + 1 && k / 3 == qy - py + 1);
        assert(k != 4);
        assert(neighbour(width, height, p, k) == Some(q));
    }
}

/// Each pixel of a region adds what it is above the threshold to the mass, and
/// that times its column and its row to the moments.
pub proof fn law_pixels_make_up_a_region(
    width: int,
    pixels: Seq<u8>,
    threshold: int,
    l: Seq<int>,
    x: int,
    y: int,
)
    requires
        0 <= x < width,
        0 <= y,
    ensures
        ({
            let p = y * width + x;
            let light = pixels[p] - threshold;
            &&& mass_of(pixels, threshold, Seq::empty()) == 0
            &&& moment_x(width, pixels, threshold, Seq::empty()) == 0
            &&& moment_y(width, pixels, threshold, Seq::empty()) == 0
            &&& mass_of(pixels, threshold, l.push(p)) == mass_of(pixels, threshold, l) + light
            &&& moment_x(width, pixels, threshold, l.push(p)) == moment_x(
                width,
                pixels,
                threshold,
                l,
            ) + x * light
            &&& moment_y(width, pixels, threshold, l.push(p)) == moment_y(
                width,
                pixels,
                threshold,
                l,
            ) + y * light
        }),
{
    let p = y * width + x;
    lemma_pixel_at(width, y + 1, x, y);
    assert(p == pixel_at(width, x, y));
    assert(l.push(p).drop_last() =~= l);
}

/// A star has a pixel that is a hundred above the threshold, and its pixels
/// together are more than five hundred above it. It consists of the lit pixels
/// that are connected with that pixel, and of no others.
pub proof fn law_what_a_star_is(
    width: int,
    height: int,
    pixels: Seq<u8>,
    threshold: int,
    found: Seq<Region>,
    k: int,
    q: int,
)
    requires
        are_star_regions(width, height, pixels, threshold, found),
        0 <= k < found.len(),
    ensures
        ({
            let r = found[k];
            let l = positions(r.pixels@);
            &&& r.seed < pixels.len()
            &&& pixels[r.seed as int] >= threshold + 100
            &&& r.mass > 500
            &&& r.mass == mass_of(pixels, threshold, l)
            &&& l.contains(q) <==> connected(width, height, pixels, threshold, r.seed as int, q)
            &&& l.contains(q) ==> 0 <= q < pixels.len() && pixels[q] > threshold
        }),
{
    let r = found[k];
    assert(is_region(width, height, pixels, threshold, r));
    assert(is_seed(width, height, pixels, threshold, r.seed as int));
    let l = positions(r.pixels@);
    if l.contains(q) {
        assert(connected(width, height, pixels, threshold, r.seed as int, q));
        let path = choose|path: Seq<int>|
            {
                &&& #[trigger] is_path(width, height, pixels, threshold, path)
                &&& path.first() == r.seed as int
                &&& path.last() == q
            };
        assert(is_lit(pixels, threshold, path[path.len() - 1]));
    }
}

/// Every pixel that is a hundred above the threshold lies in one of the stars,
/// or the pixels that are connected with it are together no more than five
/// hundred above the threshold.
pub proof fn law_bright_pixel_is_in_a_star(
    width: int,
    height: int,
    pixels: Seq<u8>,
    threshold: int,
    found: Seq<Region>,
    p: int,
)
    requires
        0 <= width,
        0 <= height,
        0 <= threshold,
        pixels.len() == width * height,
        are_star_regions(width, height, pixels, threshold, found),
        forall|s: int|
            #[trigger] is_seed(width, height, pixels, threshold, s) ==> {
                ||| is_faint(width, height, pixels, threshold, s)
                ||| begins_at(found, s)
            },
        0 <= p < pixels.len(),
        pixels[p] >= threshold + 100,
    ensures
        (exists|k: int|
            0 <= k < found.len() && positions((#[trigger] found[k]).pixels@).contains(p)) || (
        exists|s: int, l: Seq<int>|
            {
                &&& connected(width, height, pixels, threshold, s, p)
                &&& #[trigger] is_component(width, height, pixels, threshold, s, l)
                &&& mass_of(pixels, threshold, l) <= 500
            }),
{
    law_no_star_is_lost(width, height, pixels, threshold, found, p);
}

} // verus!
