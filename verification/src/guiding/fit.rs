//! The sums from which the position of a star in a window is computed.
//!
//! All of them are sums of whole numbers. What is derived from them by
//! division and logarithms is left to the caller.

use crate::guiding::frame::is_window;
use crate::sorting::{is_stable_sort, law_sorted_is_ordered, stable_sort, Ranked};
use vstd::prelude::*;

verus! {

// ---------------------------------------------------------------------------
// Center of gravity
// ---------------------------------------------------------------------------

/// The side of the window for the center of gravity.
pub const CENTROID_WINDOW: u32 = 40;

/// What is summed up over a window.
#[derive(Debug)]
pub enum Weight {
    /// The brightness above the threshold.
    Mass,
    /// That brightness times the column.
    Column,
    /// That brightness times the row.
    Row,
}

/// The brightness above the threshold in column `x` of row `y`.
pub open spec fn above(window: Seq<Vec<u8>>, threshold: int, x: int, y: int) -> int {
    if window[y]@[x] > threshold {
        window[y]@[x] - threshold
    } else {
        0
    }
}

/// What one pixel adds to a sum.
pub open spec fn weighted(
    weight: Weight,
    window: Seq<Vec<u8>>,
    threshold: int,
    x: int,
    y: int,
) -> int {
    match weight {
        Weight::Mass => above(window, threshold, x, y),
        Weight::Column => x * above(window, threshold, x, y),
        Weight::Row => y * above(window, threshold, x, y),
    }
}

/// The sum over the first `n` columns of a row.
pub open spec fn row_sum(
    weight: Weight,
    window: Seq<Vec<u8>>,
    threshold: int,
    y: int,
    n: nat,
) -> int
    decreases n,
{
    if n == 0 {
        0
    } else {
        row_sum(weight, window, threshold, y, (n - 1) as nat) + weighted(
            weight,
            window,
            threshold,
            n - 1,
            y,
        )
    }
}

/// The sum over the first `n` rows of a window.
pub open spec fn window_sum(
    weight: Weight,
    window: Seq<Vec<u8>>,
    threshold: int,
    size: nat,
    n: nat,
) -> int
    decreases n,
{
    if n == 0 {
        0
    } else {
        window_sum(weight, window, threshold, size, (n - 1) as nat) + row_sum(
            weight,
            window,
            threshold,
            n - 1,
            size,
        )
    }
}

/// The sums of a window. The center of gravity is at (`column` / `mass`,
/// `row` / `mass`).
#[derive(Debug, Clone, Copy, PartialEq, Eq, Structural)]
pub struct CentroidSums {
    pub mass: u64,
    pub column: u64,
    pub row: u64,
}

/// The sums of a window.
pub fn centroid_sums(window: &Vec<Vec<u8>>, size: usize, threshold: u8) -> (r: CentroidSums)
    requires
        is_window(window@, size as int),
        size <= 0xffff,
    ensures
        r.mass == window_sum(Weight::Mass, window@, threshold as int, size as nat, size as nat),
        r.column == window_sum(
            Weight::Column,
            window@,
            threshold as int,
            size as nat,
            size as nat,
        ),
        r.row == window_sum(Weight::Row, window@, threshold as int, size as nat, size as nat),
        r.mass <= size * 0xff_ffff,
        r.column <= size * 0xff_ffff_ffff,
        r.row <= size * 0xff_ffff_ffff,
{
    let mut mass: u64 = 0;
    let mut column: u64 = 0;
    let mut row: u64 = 0;
    let ghost t = threshold as int;
    let ghost w = window@;
    let ghost s = size as nat;
    for y in 0..size
        invariant
            w == window@ && t == threshold && s == size,
            is_window(w, size as int),
            size <= 0xffff,
            mass == window_sum(Weight::Mass, w, t, s, y as nat),
            column == window_sum(Weight::Column, w, t, s, y as nat),
            row == window_sum(Weight::Row, w, t, s, y as nat),
            mass <= y * 0xff_ffff,
            column <= y * 0xff_ffff_ffff,
            row <= y * 0xff_ffff_ffff,
    {
        let mut row_mass: u64 = 0;
        let mut row_column: u64 = 0;
        let mut row_row: u64 = 0;
        for x in 0..size
            invariant
                w == window@ && t == threshold && s == size,
                is_window(w, size as int),
                y < size <= 0xffff,
                row_mass == row_sum(Weight::Mass, w, t, y as int, x as nat),
                row_column == row_sum(Weight::Column, w, t, y as int, x as nat),
                row_row == row_sum(Weight::Row, w, t, y as int, x as nat),
                row_mass <= x * 0xff,
                row_column <= x * 0xff_ffff,
                row_row <= x * 0xff_ffff,
        {
            assert(w[y as int]@.len() == size);
            let value = window[y][x];
            if value > threshold {
                let gain: u64 = (value - threshold) as u64;
                assert(0 <= x * gain <= 0xff_ffff && 0 <= y * gain <= 0xff_ffff)
                    by (nonlinear_arith)
                    requires
                        0 <= x <= 0xffff,
                        0 <= y <= 0xffff,
                        0 <= gain <= 0xff,
                ;
                row_mass = row_mass + gain;
                row_column = row_column + x as u64 * gain;
                row_row = row_row + y as u64 * gain;
            }
        }
        mass = mass + row_mass;
        column = column + row_column;
        row = row + row_row;
    }
    CentroidSums { mass, column, row }
}

/// What one pixel adds to a sum in the coordinates of the frame, where the
/// window begins in column `x0` and row `y0` of the frame.
pub open spec fn placed(
    weight: Weight,
    window: Seq<Vec<u8>>,
    threshold: int,
    x0: int,
    y0: int,
    x: int,
    y: int,
) -> int {
    match weight {
        Weight::Mass => above(window, threshold, x, y),
        Weight::Column => (x0 + x) * above(window, threshold, x, y),
        Weight::Row => (y0 + y) * above(window, threshold, x, y),
    }
}

/// The sum over the first `n` columns of a row, in the coordinates of the
/// frame.
pub open spec fn placed_row_sum(
    weight: Weight,
    window: Seq<Vec<u8>>,
    threshold: int,
    x0: int,
    y0: int,
    y: int,
    n: nat,
) -> int
    decreases n,
{
    if n == 0 {
        0
    } else {
        placed_row_sum(weight, window, threshold, x0, y0, y, (n - 1) as nat) + placed(
            weight,
            window,
            threshold,
            x0,
            y0,
            n - 1,
            y,
        )
    }
}

/// The sum over the first `n` rows of a window, in the coordinates of the
/// frame.
pub open spec fn placed_sum(
    weight: Weight,
    window: Seq<Vec<u8>>,
    threshold: int,
    x0: int,
    y0: int,
    size: nat,
    n: nat,
) -> int
    decreases n,
{
    if n == 0 {
        0
    } else {
        placed_sum(weight, window, threshold, x0, y0, size, (n - 1) as nat) + placed_row_sum(
            weight,
            window,
            threshold,
            x0,
            y0,
            n - 1,
            size,
        )
    }
}

/// The sums of a star in the coordinates of the frame. Its center of gravity is
/// at (`x` / `mass`, `y` / `mass`).
#[derive(Debug, Clone, Copy, PartialEq, Eq, Structural)]
pub struct StarSums {
    pub mass: u64,
    pub x: u64,
    pub y: u64,
}

/// The sums belong to the window, which begins in column `x0` and row `y0` of
/// the frame.
pub open spec fn is_centroid(
    window: Seq<Vec<u8>>,
    threshold: int,
    x0: int,
    y0: int,
    sums: StarSums,
) -> bool {
    &&& sums.mass == placed_sum(Weight::Mass, window, threshold, x0, y0, 40, 40)
    &&& sums.x == placed_sum(Weight::Column, window, threshold, x0, y0, 40, 40)
    &&& sums.y == placed_sum(Weight::Row, window, threshold, x0, y0, 40, 40)
}

proof fn lemma_placed_row(
    window: Seq<Vec<u8>>,
    threshold: int,
    x0: int,
    y0: int,
    y: int,
    n: nat,
)
    ensures
        ({
            let mass = row_sum(Weight::Mass, window, threshold, y, n);
            &&& placed_row_sum(Weight::Mass, window, threshold, x0, y0, y, n) == mass
            &&& placed_row_sum(Weight::Column, window, threshold, x0, y0, y, n) == row_sum(
                Weight::Column,
                window,
                threshold,
                y,
                n,
            ) + x0 * mass
            &&& placed_row_sum(Weight::Row, window, threshold, x0, y0, y, n) == row_sum(
                Weight::Row,
                window,
                threshold,
                y,
                n,
            ) + y0 * mass
        }),
    decreases n,
{
    if n == 0 {
        assert(x0 * 0 == 0 && y0 * 0 == 0) by (nonlinear_arith);
    } else {
        lemma_placed_row(window, threshold, x0, y0, y, (n - 1) as nat);
        let before = row_sum(Weight::Mass, window, threshold, y, (n - 1) as nat);
        let gain = above(window, threshold, n - 1, y);
        let x = n - 1;
        assert((x0 + x) * gain == x0 * gain + x * gain) by (nonlinear_arith);
        assert((y0 + y) * gain == y0 * gain + y * gain) by (nonlinear_arith);
        assert(x0 * (before + gain) == x0 * before + x0 * gain) by (nonlinear_arith);
        assert(y0 * (before + gain) == y0 * before + y0 * gain) by (nonlinear_arith);
    }
}

proof fn lemma_placed(
    window: Seq<Vec<u8>>,
    threshold: int,
    x0: int,
    y0: int,
    size: nat,
    n: nat,
)
    ensures
        ({
            let mass = window_sum(Weight::Mass, window, threshold, size, n);
            &&& placed_sum(Weight::Mass, window, threshold, x0, y0, size, n) == mass
            &&& placed_sum(Weight::Column, window, threshold, x0, y0, size, n) == window_sum(
                Weight::Column,
                window,
                threshold,
                size,
                n,
            ) + x0 * mass
            &&& placed_sum(Weight::Row, window, threshold, x0, y0, size, n) == window_sum(
                Weight::Row,
                window,
                threshold,
                size,
                n,
            ) + y0 * mass
        }),
    decreases n,
{
    if n == 0 {
        assert(x0 * 0 == 0 && y0 * 0 == 0) by (nonlinear_arith);
    } else {
        lemma_placed(window, threshold, x0, y0, size, (n - 1) as nat);
        lemma_placed_row(window, threshold, x0, y0, n - 1, size);
        let before = window_sum(Weight::Mass, window, threshold, size, (n - 1) as nat);
        let gain = row_sum(Weight::Mass, window, threshold, n - 1, size);
        assert(x0 * (before + gain) == x0 * before + x0 * gain) by (nonlinear_arith);
        assert(y0 * (before + gain) == y0 * before + y0 * gain) by (nonlinear_arith);
    }
}

/// The sums of a star, out of those of the window around it and of where that
/// window begins in the frame.
pub fn star_sums(window: &Vec<Vec<u8>>, threshold: u8, x0: u32, y0: u32) -> (r: StarSums)
    requires
        is_window(window@, CENTROID_WINDOW as int),
    ensures
        is_centroid(window@, threshold as int, x0 as int, y0 as int, r),
{
    let sums = centroid_sums(window, 40, threshold);
    proof {
        lemma_placed(window@, threshold as int, x0 as int, y0 as int, 40, 40);
        assert(0 <= x0 * sums.mass <= 0xffff_ffff * 0x2800_0000 && 0 <= y0 * sums.mass
            <= 0xffff_ffff * 0x2800_0000) by (nonlinear_arith)
            requires
                0 <= x0 <= 0xffff_ffff,
                0 <= y0 <= 0xffff_ffff,
                0 <= sums.mass <= 0x2800_0000,
        ;
    }
    StarSums {
        mass: sums.mass,
        x: sums.column + x0 as u64 * sums.mass,
        y: sums.row + y0 as u64 * sums.mass,
    }
}

/// The brightest value of the first `n` columns of a row.
pub open spec fn row_peak(row: Seq<u8>, n: nat) -> u8
    decreases n,
{
    if n == 0 {
        0
    } else {
        let before = row_peak(row, (n - 1) as nat);
        if row[n - 1] > before {
            row[n - 1]
        } else {
            before
        }
    }
}

/// The brightest value of the first `n` rows of a window.
pub open spec fn window_peak(window: Seq<Vec<u8>>, size: nat, n: nat) -> u8
    decreases n,
{
    if n == 0 {
        0
    } else {
        let before = window_peak(window, size, (n - 1) as nat);
        let row = row_peak(window[n - 1]@, size);
        if row > before {
            row
        } else {
            before
        }
    }
}

/// The brightest value of a window.
pub fn brightest(window: &Vec<Vec<u8>>, size: usize) -> (r: u8)
    requires
        is_window(window@, size as int),
    ensures
        r == window_peak(window@, size as nat, size as nat),
{
    let mut best: u8 = 0;
    for y in 0..size
        invariant
            is_window(window@, size as int),
            best == window_peak(window@, size as nat, y as nat),
    {
        assert(window@[y as int]@.len() == size);
        let mut in_row: u8 = 0;
        for x in 0..size
            invariant
                y < size,
                is_window(window@, size as int),
                window@[y as int]@.len() == size,
                in_row == row_peak(window@[y as int]@, x as nat),
        {
            if window[y][x] > in_row {
                in_row = window[y][x];
            }
        }
        if in_row > best {
            best = in_row;
        }
    }
    best
}

/// No value of a window is above its brightest.
pub proof fn law_brightest_bounds_window(window: Seq<Vec<u8>>, size: nat, n: nat, x: int, y: int)
    requires
        0 <= x < size,
        0 <= y < n,
    ensures
        window[y]@[x] <= window_peak(window, size, n),
    decreases n,
{
    if y < n - 1 {
        law_brightest_bounds_window(window, size, (n - 1) as nat, x, y);
    } else {
        lemma_row_peak(window[y]@, size, x);
    }
}

proof fn lemma_row_peak(row: Seq<u8>, n: nat, x: int)
    requires
        0 <= x < n,
    ensures
        row[x] <= row_peak(row, n),
    decreases n,
{
    if x < n - 1 {
        lemma_row_peak(row, (n - 1) as nat, x);
    }
}

// ---------------------------------------------------------------------------
// Gaussian fit
// ---------------------------------------------------------------------------

/// The side of the window for the Gaussian fit.
pub const FIT_WINDOW: u32 = 31;

/// The fewest pixels for a fit.
pub const FIT_MIN_PIXELS: usize = 10;

/// The most pixels for a first fit.
pub const FIT_MAX_PIXELS: usize = 50;

/// A pixel of a window with its brightness.
#[derive(Debug, Clone, Copy, PartialEq, Eq, Structural)]
pub struct BrightPixel {
    pub intensity: u8,
    pub x: usize,
    pub y: usize,
}

impl Ranked for BrightPixel {
    open spec fn le(&self, other: &Self) -> bool {
        self.intensity >= other.intensity
    }

    proof fn total(a: &Self, b: &Self) {
    }

    proof fn transitive(a: &Self, b: &Self, c: &Self) {
    }

    fn not_above(&self, other: &Self) -> (r: bool) {
        self.intensity >= other.intensity
    }
}

/// The pixels above the threshold among the first `n` of a row.
pub open spec fn bright_in_row(row: Seq<u8>, threshold: int, y: int, n: nat) -> Seq<BrightPixel>
    decreases n,
{
    if n == 0 {
        Seq::empty()
    } else {
        let before = bright_in_row(row, threshold, y, (n - 1) as nat);
        if row[n - 1] > threshold {
            before.push(
                BrightPixel { intensity: row[n - 1], x: (n - 1) as usize, y: y as usize },
            )
        } else {
            before
        }
    }
}

/// The pixels above the threshold in the first `n` rows of a window.
pub open spec fn bright_in_window(
    window: Seq<Vec<u8>>,
    threshold: int,
    size: nat,
    n: nat,
) -> Seq<BrightPixel>
    decreases n,
{
    if n == 0 {
        Seq::empty()
    } else {
        bright_in_window(window, threshold, size, (n - 1) as nat) + bright_in_row(
            window[n - 1]@,
            threshold,
            n - 1,
            size,
        )
    }
}

/// How many of `bright` pixels take part in the first fit: three in ten, but
/// at least ten and at most fifty.
pub open spec fn fit_count(bright: int) -> int {
    let part = bright * 30 / 100;
    if part < FIT_MIN_PIXELS {
        FIT_MIN_PIXELS as int
    } else if part > FIT_MAX_PIXELS {
        FIT_MAX_PIXELS as int
    } else {
        part
    }
}

/// The pixels of a window above the threshold, row by row.
pub fn bright_pixels(window: &Vec<Vec<u8>>, size: usize, threshold: u8) -> (r: Vec<BrightPixel>)
    requires
        is_window(window@, size as int),
    ensures
        r@ == bright_in_window(window@, threshold as int, size as nat, size as nat),
{
    let mut out: Vec<BrightPixel> = Vec::new();
    for y in 0..size
        invariant
            is_window(window@, size as int),
            out@ == bright_in_window(window@, threshold as int, size as nat, y as nat),
    {
        let ghost before = out@;
        assert(window@[y as int]@.len() == size);
        assert(before + bright_in_row(window@[y as int]@, threshold as int, y as int, 0)
            =~= before);
        for x in 0..size
            invariant
                y < size,
                is_window(window@, size as int),
                window@[y as int]@.len() == size,
                out@ == before + bright_in_row(
                    window@[y as int]@,
                    threshold as int,
                    y as int,
                    x as nat,
                ),
        {
            let ghost so_far = bright_in_row(
                window@[y as int]@,
                threshold as int,
                y as int,
                x as nat,
            );
            let value = window[y][x];
            if value > threshold {
                let p = BrightPixel { intensity: value, x, y };
                out.push(p);
                assert((before + so_far).push(p) =~= before + so_far.push(p));
            }
        }
    }
    out
}

/// The brightest pixels of a window, for the first fit; nothing where too few
/// pixels are above the threshold. Of equally bright pixels the one that comes
/// first, row by row, is taken first.
pub fn pixels_for_fit(window: &Vec<Vec<u8>>, size: usize, threshold: u8) -> (r: Option<
    Vec<BrightPixel>,
>)
    requires
        is_window(window@, size as int),
        size <= 0xffff,
    ensures
        ({
            let bright = bright_in_window(window@, threshold as int, size as nat, size as nat);
            match r {
                Some(taken) => {
                    &&& bright.len() >= FIT_MIN_PIXELS
                    &&& exists|sorted: Seq<BrightPixel>|
                        {
                            &&& #[trigger] is_stable_sort(bright, sorted)
                            &&& taken@ == sorted.take(fit_count(bright.len() as int))
                        }
                },
                None => bright.len() < FIT_MIN_PIXELS,
            }
        }),
{
    let bright = bright_pixels(window, size, threshold);
    let n = bright.len();
    proof {
        lemma_bright_count(window@, threshold as int, size as nat, size as nat);
        assert(size * size <= 0xfffe_0001) by (nonlinear_arith)
            requires
                size <= 0xffff,
        ;
    }
    if n < FIT_MIN_PIXELS {
        return None;
    }
    let part: u64 = n as u64 * 30 / 100;
    let count: usize = if part < FIT_MIN_PIXELS as u64 {
        FIT_MIN_PIXELS
    } else if part > FIT_MAX_PIXELS as u64 {
        FIT_MAX_PIXELS
    } else {
        part as usize
    };
    let ghost all = bright@;
    let mut sorted = stable_sort(bright);
    let ghost order = sorted@;
    proof {
        law_sorted_is_ordered(all, order);
        assert(is_stable_sort(all, order));
        assert(count == fit_count(n as int));
        assert(count <= n);
    }
    sorted.truncate(count);
    assert(sorted@ =~= order.take(count as int));
    Some(sorted)
}

proof fn lemma_bright_count(window: Seq<Vec<u8>>, threshold: int, size: nat, n: nat)
    ensures
        bright_in_window(window, threshold, size, n).len() <= size * n,
    decreases n,
{
    if n > 0 {
        lemma_bright_count(window, threshold, size, (n - 1) as nat);
        lemma_bright_row_count(window[n - 1]@, threshold, n - 1, size);
        assert(size * (n - 1) + size == size * n) by (nonlinear_arith)
            requires
                n > 0,
        ;
    }
}

proof fn lemma_bright_row_count(row: Seq<u8>, threshold: int, y: int, n: nat)
    ensures
        bright_in_row(row, threshold, y, n).len() <= n,
    decreases n,
{
    if n > 0 {
        lemma_bright_row_count(row, threshold, y, (n - 1) as nat);
    }
}

/// Whether the second fit is used: it took enough pixels, and its center lies
/// in the window.
pub fn uses_refined(pixels: usize, center_in_window: Option<bool>) -> (r: bool)
    ensures
        r == (pixels >= FIT_MIN_PIXELS && center_in_window == Some(true)),
        r == (pixels >= 10 && center_in_window == Some(true)),
{
    match center_in_window {
        Some(inside) => pixels >= FIT_MIN_PIXELS && inside,
        None => false,
    }
}

// ---------------------------------------------------------------------------
// The linear system of the fit
// ---------------------------------------------------------------------------

/// `x` to the power of `e`.
pub open spec fn power(x: int, e: nat) -> int
    decreases e,
{
    if e == 0 {
        1
    } else {
        x * power(x, (e - 1) as nat)
    }
}

/// What one pixel adds to a moment: the square of its brightness times powers
/// of its column and its row.
pub open spec fn moment_term(window: Seq<Vec<u8>>, p: (usize, usize), a: nat, b: nat) -> int {
    let i = window[p.1 as int]@[p.0 as int] as int;
    (i * i) * (power(p.0 as int, a) * power(p.1 as int, b))
}

/// The moment over the first `n` pixels of the list.
pub open spec fn moment(
    window: Seq<Vec<u8>>,
    list: Seq<(usize, usize)>,
    a: nat,
    b: nat,
    n: nat,
) -> int
    decreases n,
{
    if n == 0 {
        0
    } else {
        moment(window, list, a, b, (n - 1) as nat) + moment_term(window, list[n - 1], a, b)
    }
}

/// The power of the column in the unknown of this number.
pub open spec fn column_power(i: int) -> nat {
    if i == 0 {
        2
    } else if i == 2 {
        1
    } else {
        0
    }
}

/// The power of the row in the unknown of this number.
pub open spec fn row_power(i: int) -> nat {
    if i == 1 {
        2
    } else if i == 3 {
        1
    } else {
        0
    }
}

/// The pixels lie in the window.
pub open spec fn in_window(list: Seq<(usize, usize)>, size: int) -> bool {
    forall|i: int|
        0 <= i < list.len() ==> (#[trigger] list[i]).0 < size && list[i].1 < size
}

proof fn lemma_power_bound(x: int, e: nat)
    requires
        0 <= x <= 31,
        e <= 4,
    ensures
        0 <= power(x, e) <= power(31, e),
        power(31, e) <= 923_521,
    decreases e,
{
    reveal_with_fuel(power, 5);
    if e > 0 {
        lemma_power_bound(x, (e - 1) as nat);
        let small = power(x, (e - 1) as nat);
        let large = power(31, (e - 1) as nat);
        assert(0 <= x * small <= 31 * large) by (nonlinear_arith)
            requires
                0 <= x <= 31,
                0 <= small <= large,
        ;
    }
    assert(power(31, 4) == 923_521);
    assert(power(31, 3) == 29_791);
    assert(power(31, 2) == 961);
    assert(power(31, 1) == 31);
}

proof fn lemma_powers_bound(x: int, y: int, a: nat, b: nat)
    requires
        0 <= x <= 31,
        0 <= y <= 31,
        a + b <= 4,
    ensures
        0 <= power(x, a) * power(y, b) <= 923_521,
{
    lemma_power_bound(x, a);
    lemma_power_bound(y, b);
    let p = power(x, a);
    let q = power(y, b);
    reveal_with_fuel(power, 5);
    let s = power(31, a);
    let t = power(31, b);
    assert(s * t <= 923_521) by {
        assert(power(31, 4) == 923_521);
        assert(power(31, 3) == 29_791);
        assert(power(31, 2) == 961);
        assert(power(31, 1) == 31);
        assert(power(31, 0) == 1);
        if a == 0 {
            assert(s * t == t) by (nonlinear_arith)
                requires
                    s == 1,
            ;
        } else if a == 1 {
            assert(s * t <= 31 * 29_791) by (nonlinear_arith)
                requires
                    s == 31,
                    t <= 29_791,
            ;
        } else if a == 2 {
            assert(s * t <= 961 * 961) by (nonlinear_arith)
                requires
                    s == 961,
                    t <= 961,
            ;
        } else if a == 3 {
            assert(s * t <= 29_791 * 31) by (nonlinear_arith)
                requires
                    s == 29_791,
                    t <= 31,
            ;
        } else {
            assert(s * t == s) by (nonlinear_arith)
                requires
                    t == 1,
            ;
        }
    }
    assert(0 <= p * q <= s * t) by (nonlinear_arith)
        requires
            0 <= p <= s,
            0 <= q <= t,
    ;
}

fn raised(x: u64, e: u32) -> (r: u64)
    requires
        x <= 31,
        e <= 4,
    ensures
        r == power(x as int, e as nat),
{
    let mut out: u64 = 1;
    for i in 0..e
        invariant
            x <= 31,
            e <= 4,
            out == power(x as int, i as nat),
    {
        proof {
            lemma_power_bound(x as int, i as nat);
            lemma_power_bound(x as int, (i + 1) as nat);
            assert(x * out == out * x) by (nonlinear_arith);
        }
        out = out * x;
    }
    out
}

/// The moment over the pixels of the list.
fn moment_sum(window: &Vec<Vec<u8>>, list: &Vec<(usize, usize)>, a: u32, b: u32) -> (r: u64)
    requires
        is_window(window@, FIT_WINDOW as int),
        in_window(list@, FIT_WINDOW as int),
        list@.len() <= 0x1_0000,
        a + b <= 4,
    ensures
        r == moment(window@, list@, a as nat, b as nat, list@.len()),
{
    let mut sum: u64 = 0;
    let n = list.len();
    for k in 0..n
        invariant
            n == list@.len(),
            is_window(window@, FIT_WINDOW as int),
            in_window(list@, FIT_WINDOW as int),
            n <= 0x1_0000,
            a + b <= 4,
            sum == moment(window@, list@, a as nat, b as nat, k as nat),
            sum <= k * 60_051_953_025,
    {
        let (x, y) = list[k];
        assert(list@[k as int].0 < FIT_WINDOW && list@[k as int].1 < FIT_WINDOW);
        assert(window@[y as int]@.len() == FIT_WINDOW);
        let i: u64 = window[y][x] as u64;
        let px = raised(x as u64, a);
        let py = raised(y as u64, b);
        proof {
            lemma_powers_bound(x as int, y as int, a as nat, b as nat);
            assert(0 <= i * i <= 65_025) by (nonlinear_arith)
                requires
                    0 <= i <= 255,
            ;
            let s = i * i;
            let p = power(x as int, a as nat) * power(y as int, b as nat);
            assert(0 <= s * p <= 60_051_953_025) by (nonlinear_arith)
                requires
                    0 <= s <= 65_025,
                    0 <= p <= 923_521,
            ;
        }
        let term: u64 = (i * i) * (px * py);
        sum = sum + term;
    }
    sum
}

/// The matrix of the linear system of the fit over the pixels of the list.
pub open spec fn is_fit_matrix(
    window: Seq<Vec<u8>>,
    list: Seq<(usize, usize)>,
    m: Seq<Vec<u64>>,
) -> bool {
    &&& m.len() == 5
    &&& forall|i: int| 0 <= i < 5 ==> (#[trigger] m[i])@.len() == 5
    &&& forall|i: int, j: int|
        0 <= i < 5 && 0 <= j < 5 ==> #[trigger] m[i]@[j] == moment(
            window,
            list,
            column_power(i) + column_power(j),
            row_power(i) + row_power(j),
            list.len(),
        )
}

fn column_exponent(i: usize) -> (r: u32)
    ensures
        r == column_power(i as int),
        r <= 2,
{
    if i == 0 {
        2
    } else if i == 2 {
        1
    } else {
        0
    }
}

fn row_exponent(i: usize) -> (r: u32)
    ensures
        r == row_power(i as int),
        r <= 2,
{
    if i == 1 {
        2
    } else if i == 3 {
        1
    } else {
        0
    }
}

/// The matrix of the linear system of the fit. The unknowns are the factors of
/// the squared column, the squared row, the column, the row, and one.
pub fn fit_matrix(window: &Vec<Vec<u8>>, list: &Vec<(usize, usize)>) -> (m: Vec<Vec<u64>>)
    requires
        is_window(window@, FIT_WINDOW as int),
        in_window(list@, FIT_WINDOW as int),
        list@.len() <= 0x1_0000,
    ensures
        is_fit_matrix(window@, list@, m@),
{
    let mut m: Vec<Vec<u64>> = Vec::new();
    for i in 0..5usize
        invariant
            is_window(window@, FIT_WINDOW as int),
            in_window(list@, FIT_WINDOW as int),
            list@.len() <= 0x1_0000,
            m@.len() == i,
            forall|a: int| 0 <= a < i ==> (#[trigger] m@[a])@.len() == 5,
            forall|a: int, b: int|
                0 <= a < i && 0 <= b < 5 ==> #[trigger] m@[a]@[b] == moment(
                    window@,
                    list@,
                    column_power(a) + column_power(b),
                    row_power(a) + row_power(b),
                    list@.len(),
                ),
    {
        let mut row: Vec<u64> = Vec::new();
        for j in 0..5usize
            invariant
                is_window(window@, FIT_WINDOW as int),
                in_window(list@, FIT_WINDOW as int),
                list@.len() <= 0x1_0000,
                row@.len() == j,
                forall|b: int|
                    0 <= b < j ==> #[trigger] row@[b] == moment(
                        window@,
                        list@,
                        column_power(i as int) + column_power(b),
                        row_power(i as int) + row_power(b),
                        list@.len(),
                    ),
        {
            row.push(
                moment_sum(
                    window,
                    list,
                    column_exponent(i) + column_exponent(j),
                    row_exponent(i) + row_exponent(j),
                ),
            );
        }
        m.push(row);
    }
    m
}

/// The matrix of the fit is symmetric.
pub proof fn law_fit_matrix_is_symmetric(
    window: Seq<Vec<u8>>,
    list: Seq<(usize, usize)>,
    m: Seq<Vec<u64>>,
    i: int,
    j: int,
)
    requires
        is_fit_matrix(window, list, m),
        0 <= i < 5,
        0 <= j < 5,
    ensures
        m[i]@[j] == m[j]@[i],
{
}

/// No pixel that takes part in the first fit is fainter than one above the
/// threshold that does not.
pub proof fn law_fit_takes_the_brightest(
    bright: Seq<BrightPixel>,
    sorted: Seq<BrightPixel>,
    i: int,
    j: int,
)
    requires
        is_stable_sort(bright, sorted),
        0 <= i < fit_count(bright.len() as int) <= j < bright.len(),
    ensures
        sorted[i].intensity >= sorted[j].intensity,
{
    law_sorted_is_ordered(bright, sorted);
    assert(sorted[i].le(&sorted[j]));
}

// ---------------------------------------------------------------------------
// Laws
// ---------------------------------------------------------------------------

/// The windows show the same but in column `x` of row `y`.
pub open spec fn same_but_at(
    one: Seq<Vec<u8>>,
    other: Seq<Vec<u8>>,
    size: int,
    x: int,
    y: int,
) -> bool {
    forall|a: int, b: int|
        0 <= a < size && 0 <= b < size && (a != x || b != y) ==> #[trigger] one[b]@[a]
            == other[b]@[a]
}

proof fn lemma_row_change(
    weight: Weight,
    one: Seq<Vec<u8>>,
    other: Seq<Vec<u8>>,
    threshold: int,
    x0: int,
    y0: int,
    row: int,
    n: nat,
    size: int,
    x: int,
    y: int,
)
    requires
        n <= size,
        0 <= row < size,
        0 <= x < size,
        same_but_at(one, other, size, x, y),
    ensures
        placed_row_sum(weight, other, threshold, x0, y0, row, n) == placed_row_sum(
            weight,
            one,
            threshold,
            x0,
            y0,
            row,
            n,
        ) + if row == y && x < n {
            placed(weight, other, threshold, x0, y0, x, y) - placed(
                weight,
                one,
                threshold,
                x0,
                y0,
                x,
                y,
            )
        } else {
            0
        },
    decreases n,
{
    if n > 0 {
        lemma_row_change(
            weight,
            one,
            other,
            threshold,
            x0,
            y0,
            row,
            (n - 1) as nat,
            size,
            x,
            y,
        );
        if n - 1 != x || row != y {
            assert(one[row]@[n - 1] == other[row]@[n - 1]);
        }
    }
}

proof fn lemma_window_change(
    weight: Weight,
    one: Seq<Vec<u8>>,
    other: Seq<Vec<u8>>,
    threshold: int,
    x0: int,
    y0: int,
    size: nat,
    n: nat,
    x: int,
    y: int,
)
    requires
        n <= size,
        0 <= x < size,
        same_but_at(one, other, size as int, x, y),
    ensures
        placed_sum(weight, other, threshold, x0, y0, size, n) == placed_sum(
            weight,
            one,
            threshold,
            x0,
            y0,
            size,
            n,
        ) + if 0 <= y < n {
            placed(weight, other, threshold, x0, y0, x, y) - placed(
                weight,
                one,
                threshold,
                x0,
                y0,
                x,
                y,
            )
        } else {
            0
        },
    decreases n,
{
    if n > 0 {
        lemma_window_change(
            weight,
            one,
            other,
            threshold,
            x0,
            y0,
            size,
            (n - 1) as nat,
            x,
            y,
        );
        lemma_row_change(
            weight,
            one,
            other,
            threshold,
            x0,
            y0,
            n - 1,
            size,
            size as int,
            x,
            y,
        );
    }
}

/// A pixel that becomes brighter than the threshold adds what it is above the
/// threshold to the mass, and that times its column and its row in the frame to
/// the sums of the columns and the rows.
pub proof fn law_every_pixel_counts(
    one: Seq<Vec<u8>>,
    other: Seq<Vec<u8>>,
    threshold: int,
    x0: int,
    y0: int,
    x: int,
    y: int,
    before: StarSums,
    behind: StarSums,
)
    requires
        is_centroid(one, threshold, x0, y0, before),
        is_centroid(other, threshold, x0, y0, behind),
        0 <= x < 40,
        0 <= y < 40,
        same_but_at(one, other, 40, x, y),
        one[y]@[x] <= threshold < other[y]@[x],
    ensures
        behind.mass == before.mass + (other[y]@[x] - threshold),
        behind.x == before.x + (x0 + x) * (other[y]@[x] - threshold),
        behind.y == before.y + (y0 + y) * (other[y]@[x] - threshold),
{
    lemma_window_change(Weight::Mass, one, other, threshold, x0, y0, 40, 40, x, y);
    lemma_window_change(Weight::Column, one, other, threshold, x0, y0, 40, 40, x, y);
    lemma_window_change(Weight::Row, one, other, threshold, x0, y0, 40, 40, x, y);
    assert((x0 + x) * 0 == 0 && (y0 + y) * 0 == 0) by (nonlinear_arith);
}

/// No pixel of the window is above the threshold, but for the one in column `x`
/// of row `y`.
pub open spec fn dark_but_at(
    window: Seq<Vec<u8>>,
    threshold: int,
    size: int,
    x: int,
    y: int,
) -> bool {
    forall|a: int, b: int|
        0 <= a < size && 0 <= b < size && (a != x || b != y) ==> #[trigger] window[b]@[a]
            <= threshold
}

proof fn lemma_row_of_one(
    weight: Weight,
    window: Seq<Vec<u8>>,
    threshold: int,
    x0: int,
    y0: int,
    row: int,
    n: nat,
    size: int,
    x: int,
    y: int,
)
    requires
        n <= size,
        0 <= row < size,
        dark_but_at(window, threshold, size, x, y),
    ensures
        placed_row_sum(weight, window, threshold, x0, y0, row, n) == if row == y && 0 <= x < n {
            placed(weight, window, threshold, x0, y0, x, y)
        } else {
            0
        },
    decreases n,
{
    if n > 0 {
        lemma_row_of_one(weight, window, threshold, x0, y0, row, (n - 1) as nat, size, x, y);
        if n - 1 != x || row != y {
            assert(window[row]@[n - 1] <= threshold);
            assert((x0 + (n - 1)) * 0 == 0 && (y0 + row) * 0 == 0) by (nonlinear_arith);
        }
    }
}

proof fn lemma_window_of_one(
    weight: Weight,
    window: Seq<Vec<u8>>,
    threshold: int,
    x0: int,
    y0: int,
    size: nat,
    n: nat,
    x: int,
    y: int,
)
    requires
        n <= size,
        dark_but_at(window, threshold, size as int, x, y),
    ensures
        placed_sum(weight, window, threshold, x0, y0, size, n) == if 0 <= y < n && 0 <= x < size {
            placed(weight, window, threshold, x0, y0, x, y)
        } else {
            0
        },
    decreases n,
{
    if n > 0 {
        lemma_window_of_one(weight, window, threshold, x0, y0, size, (n - 1) as nat, x, y);
        lemma_row_of_one(
            weight,
            window,
            threshold,
            x0,
            y0,
            n - 1,
            size,
            size as int,
            x,
            y,
        );
    }
}

/// The center of gravity of a window in which one pixel alone is above the
/// threshold is that pixel. A window in which none is has no mass.
pub proof fn law_centroid_of_one_pixel(
    window: Seq<Vec<u8>>,
    threshold: int,
    x0: int,
    y0: int,
    x: int,
    y: int,
    sums: StarSums,
)
    requires
        is_centroid(window, threshold, x0, y0, sums),
        dark_but_at(window, threshold, 40, x, y),
    ensures
        0 <= x < 40 && 0 <= y < 40 && window[y]@[x] > threshold ==> {
            &&& sums.mass == window[y]@[x] - threshold
            &&& sums.x == (x0 + x) * sums.mass
            &&& sums.y == (y0 + y) * sums.mass
        },
        !(0 <= x < 40 && 0 <= y < 40) || window[y]@[x] <= threshold ==> {
            &&& sums.mass == 0
            &&& sums.x == 0
            &&& sums.y == 0
        },
{
    lemma_window_of_one(Weight::Mass, window, threshold, x0, y0, 40, 40, x, y);
    lemma_window_of_one(Weight::Column, window, threshold, x0, y0, 40, 40, x, y);
    lemma_window_of_one(Weight::Row, window, threshold, x0, y0, 40, 40, x, y);
    assert((x0 + x) * 0 == 0 && (y0 + y) * 0 == 0) by (nonlinear_arith);
}

/// The brightest value of a window is that of one of its pixels, or zero.
pub proof fn law_brightest_is_in_window(window: Seq<Vec<u8>>, size: nat, n: nat)
    ensures
        window_peak(window, size, n) == 0 || exists|x: int, y: int|
            0 <= x < size && 0 <= y < n && #[trigger] window[y]@[x] == window_peak(
                window,
                size,
                n,
            ),
    decreases n,
{
    if n > 0 {
        let m = (n - 1) as nat;
        law_brightest_is_in_window(window, size, m);
        lemma_row_peak_is_in_row(window[n - 1]@, size);
        let row = row_peak(window[n - 1]@, size);
        let before = window_peak(window, size, m);
        if row > before {
            let x = choose|x: int| 0 <= x < size && #[trigger] window[n - 1]@[x] == row;
            assert(window[n - 1]@[x] == window_peak(window, size, n));
        } else if before != 0 {
            let (x, y) = choose|x: int, y: int|
                0 <= x < size && 0 <= y < m && #[trigger] window[y]@[x] == before;
            assert(window[y]@[x] == window_peak(window, size, n));
        }
    }
}

proof fn lemma_row_peak_is_in_row(row: Seq<u8>, n: nat)
    ensures
        row_peak(row, n) == 0 || exists|x: int|
            0 <= x < n && #[trigger] row[x] == row_peak(row, n),
    decreases n,
{
    if n > 0 {
        lemma_row_peak_is_in_row(row, (n - 1) as nat);
        let before = row_peak(row, (n - 1) as nat);
        if row[n - 1] > before {
            assert(row[n - 1] == row_peak(row, n));
        } else if before != 0 {
            let x = choose|x: int| 0 <= x < n - 1 && #[trigger] row[x] == before;
            assert(row[x] == row_peak(row, n));
        }
    }
}

/// A pixel is among the bright ones of a window exactly where it is above the
/// threshold, with its brightness.
pub proof fn law_bright_pixels(
    window: Seq<Vec<u8>>,
    threshold: int,
    size: nat,
    n: nat,
    p: BrightPixel,
)
    requires
        n <= size <= usize::MAX,
    ensures
        bright_in_window(window, threshold, size, n).contains(p) <==> p.x < size && p.y < n
            && window[p.y as int]@[p.x as int] == p.intensity && p.intensity > threshold,
    decreases n,
{
    if n > 0 {
        let m = (n - 1) as nat;
        let all = bright_in_window(window, threshold, size, n);
        let before = bright_in_window(window, threshold, size, m);
        let row = bright_in_row(window[n - 1]@, threshold, n - 1, size);
        law_bright_pixels(window, threshold, size, m, p);
        lemma_bright_in_row(window[n - 1]@, threshold, n - 1, size, p);
        if before.contains(p) {
            let i = choose|i: int| 0 <= i < before.len() && before[i] == p;
            assert(all[i] == p);
        }
        if row.contains(p) {
            let i = choose|i: int| 0 <= i < row.len() && row[i] == p;
            assert(all[before.len() + i] == p);
        }
        if all.contains(p) {
            let i = choose|i: int| 0 <= i < all.len() && all[i] == p;
            if i < before.len() {
                assert(before[i] == p);
            } else {
                assert(row[i - before.len()] == p);
            }
        }
    }
}

proof fn lemma_bright_in_row(row: Seq<u8>, threshold: int, y: int, n: nat, p: BrightPixel)
    requires
        n <= usize::MAX,
        0 <= y <= usize::MAX,
    ensures
        bright_in_row(row, threshold, y, n).contains(p) <==> p.x < n && p.y == y && row[p.x as int]
            == p.intensity && p.intensity > threshold,
    decreases n,
{
    if n > 0 {
        lemma_bright_in_row(row, threshold, y, (n - 1) as nat, p);
        let all = bright_in_row(row, threshold, y, n);
        let before = bright_in_row(row, threshold, y, (n - 1) as nat);
        if row[n - 1] > threshold {
            let new = BrightPixel {
                intensity: row[n - 1],
                x: (n - 1) as usize,
                y: y as usize,
            };
            assert(all.last() == new);
            if before.contains(p) {
                let i = choose|i: int| 0 <= i < before.len() && before[i] == p;
                assert(all[i] == p);
            }
            if all.contains(p) && p != new {
                let i = choose|i: int| 0 <= i < all.len() && all[i] == p;
                assert(before[i] == p);
            }
        }
    }
}

/// At least ten pixels and at most fifty take part in the first fit, and between
/// these limits three in ten of the bright ones, rounded down.
pub proof fn law_size_of_a_fit(bright: int)
    requires
        0 <= bright,
    ensures
        10 <= fit_count(bright) <= 50,
        10 < fit_count(bright) < 50 ==> 10 * fit_count(bright) <= 3 * bright < 10 * fit_count(
            bright,
        ) + 10,
        fit_count(bright) == 10 ==> 3 * bright < 110,
        fit_count(bright) == 50 ==> 3 * bright >= 500,
{
}

/// A pixel adds the square of its brightness, times powers of its column and its
/// row, to a moment; a list without pixels has none.
pub proof fn law_moments_add_up(
    window: Seq<Vec<u8>>,
    list: Seq<(usize, usize)>,
    x: usize,
    y: usize,
    a: nat,
    b: nat,
)
    ensures
        moment(window, Seq::empty(), a, b, 0) == 0,
        ({
            let i = window[y as int]@[x as int] as int;
            moment(window, list.push((x, y)), a, b, list.len() + 1) == moment(
                window,
                list,
                a,
                b,
                list.len(),
            ) + (i * i) * (power(x as int, a) * power(y as int, b))
        }),
{
    lemma_same_moment(window, list, list.push((x, y)), a, b, list.len());
}

proof fn lemma_same_moment(
    window: Seq<Vec<u8>>,
    one: Seq<(usize, usize)>,
    other: Seq<(usize, usize)>,
    a: nat,
    b: nat,
    n: nat,
)
    requires
        n <= one.len(),
        n <= other.len(),
        forall|i: int| 0 <= i < n ==> one[i] == other[i],
    ensures
        moment(window, one, a, b, n) == moment(window, other, a, b, n),
    decreases n,
{
    if n > 0 {
        lemma_same_moment(window, one, other, a, b, (n - 1) as nat);
    }
}

/// The matrix of one pixel is the square of its brightness times the products of
/// its unknowns: the squared column, the squared row, the column, the row, and
/// one.
pub proof fn law_matrix_of_one_pixel(
    window: Seq<Vec<u8>>,
    x: usize,
    y: usize,
    m: Seq<Vec<u64>>,
)
    requires
        is_fit_matrix(window, seq![(x, y)], m),
    ensures
        ({
            let i = window[y as int]@[x as int] as int;
            let s = i * i;
            &&& m[4]@[4] == s
            &&& m[2]@[4] == s * x && m[3]@[4] == s * y
            &&& m[0]@[4] == s * (x * x) && m[1]@[4] == s * (y * y)
            &&& m[2]@[2] == s * (x * x) && m[3]@[3] == s * (y * y)
            &&& m[2]@[3] == s * (x * y)
            &&& m[0]@[2] == s * (x * (x * x)) && m[1]@[3] == s * (y * (y * y))
            &&& m[0]@[0] == s * (x * (x * (x * x))) && m[1]@[1] == s * (y * (y * (y * y)))
            &&& m[0]@[1] == s * ((x * x) * (y * y))
        }),
{
    let list = seq![(x, y)];
    let a = x as int;
    let b = y as int;
    let i = window[y as int]@[x as int] as int;
    let s = i * i;
    reveal_with_fuel(power, 6);
    reveal_with_fuel(moment, 2);
    assert(power(a, 0) == 1 && power(b, 0) == 1);
    assert(a * 1 == a && b * 1 == b) by (nonlinear_arith);
    assert(power(a, 1) == a && power(b, 1) == b);
    assert(power(a, 2) == a * a && power(b, 2) == b * b);
    assert(power(a, 3) == a * (a * a) && power(b, 3) == b * (b * b));
    assert(power(a, 4) == a * (a * (a * a)) && power(b, 4) == b * (b * (b * b)));
    assert(m[4]@[4] == moment(window, list, 0, 0, 1));
    assert(m[2]@[4] == moment(window, list, 1, 0, 1));
    assert(m[3]@[4] == moment(window, list, 0, 1, 1));
    assert(m[0]@[4] == moment(window, list, 2, 0, 1));
    assert(m[1]@[4] == moment(window, list, 0, 2, 1));
    assert(m[2]@[2] == moment(window, list, 2, 0, 1));
    assert(m[3]@[3] == moment(window, list, 0, 2, 1));
    assert(m[2]@[3] == moment(window, list, 1, 1, 1));
    assert(m[0]@[2] == moment(window, list, 3, 0, 1));
    assert(m[1]@[3] == moment(window, list, 0, 3, 1));
    assert(m[0]@[0] == moment(window, list, 4, 0, 1));
    assert(m[1]@[1] == moment(window, list, 0, 4, 1));
    assert(m[0]@[1] == moment(window, list, 2, 2, 1));
    assert forall|c: nat, d: nat|
        #[trigger] moment(window, list, c, d, 1) == s * (power(a, c) * power(b, d)) by {
        assert(moment(window, list, c, d, 0) == 0);
        assert(moment(window, list, c, d, 1) == moment_term(window, list[0], c, d));
    }
    assert(forall|k: int| #[trigger] (k * 1) == k) by (nonlinear_arith);
    assert(forall|k: int| #[trigger] (1 * k) == k) by (nonlinear_arith);
}

} // verus!
