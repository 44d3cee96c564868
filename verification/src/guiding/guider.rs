//! The guider: where a frame shows its stars.

use crate::guiding::fit::{
    bright_in_row, bright_in_window, brightest, fit_count, in_window, is_centroid,
    law_centroid_of_one_pixel, pixels_for_fit, placed_sum, star_sums, window_peak, BrightPixel,
    StarSums, Weight, CENTROID_WINDOW, FIT_MIN_PIXELS, FIT_WINDOW,
};
use crate::guiding::frame::{
    get_window, is_frame, is_origin, is_window, origin_of, pixel_at, window_pixel, window_start,
    Origin,
};
use crate::guiding::region::{
    are_star_regions, begins_at, find_regions, is_faint, is_seed, Region, STAR_PEAK,
};
use crate::sorting::{is_stable_order, is_stable_sort};
use vstd::prelude::*;

verus! {

/// A guider that takes pixels above the threshold for light.
#[derive(Debug, Clone, Copy, PartialEq, Eq, Structural)]
pub struct Guider {
    pub threshold: u8,
}

/// The window is the part of the frame around a center.
pub open spec fn shows(
    width: u32,
    height: u32,
    pixels: Seq<u8>,
    center_x: i32,
    center_y: i32,
    size: u32,
    window: Seq<Vec<u8>>,
) -> bool {
    &&& is_window(window, size as int)
    &&& forall|y: int, x: int|
        0 <= y < size && 0 <= x < size ==> #[trigger] window[y]@[x] == window_pixel(
            width as int,
            height as int,
            pixels,
            size as int,
            center_x as int,
            center_y as int,
            x,
            y,
        )
}

/// A window of this size around a center can be cut out.
pub open spec fn can_center(center: i32, size: u32) -> bool {
    center - size / 2 >= i32::MIN
}

/// What a Gaussian fit starts with.
#[derive(Debug)]
pub struct GaussStart {
    pub window: Vec<Vec<u8>>,
    /// Where the window begins in the frame.
    pub origin: Origin,
    /// The brightest value of the window.
    pub peak: u8,
}

/// What a fast Gaussian fit starts with.
#[derive(Debug)]
pub struct FitStart {
    pub window: Vec<Vec<u8>>,
    /// Where the window begins in the frame.
    pub origin: Origin,
    /// The pixels of the first fit, as columns and rows of the window.
    pub pixels: Vec<(usize, usize)>,
}

/// The columns and rows of pixels.
pub open spec fn places(pixels: Seq<BrightPixel>) -> Seq<(usize, usize)> {
    Seq::new(pixels.len(), |i: int| (pixels[i].x, pixels[i].y))
}

/// The pixels are the brightest of the window.
pub open spec fn is_first_fit(
    window: Seq<Vec<u8>>,
    threshold: int,
    size: nat,
    pixels: Seq<(usize, usize)>,
) -> bool {
    let bright = bright_in_window(window, threshold, size, size);
    exists|sorted: Seq<BrightPixel>|
        {
            &&& #[trigger] is_stable_sort(bright, sorted)
            &&& pixels == places(sorted.take(fit_count(bright.len() as int)))
        }
}

proof fn lemma_bright_places(window: Seq<Vec<u8>>, threshold: int, size: nat, n: nat)
    requires
        n <= size <= usize::MAX,
    ensures
        forall|i: int|
            0 <= i < bright_in_window(window, threshold, size, n).len() ==> {
                let p = #[trigger] bright_in_window(window, threshold, size, n)[i];
                p.x < size && p.y < n
            },
    decreases n,
{
    if n > 0 {
        lemma_bright_places(window, threshold, size, (n - 1) as nat);
        let before = bright_in_window(window, threshold, size, (n - 1) as nat);
        let row = bright_in_row(window[n - 1]@, threshold, n - 1, size);
        lemma_row_places(window[n - 1]@, threshold, n - 1, size);
        assert forall|i: int|
            0 <= i < bright_in_window(window, threshold, size, n).len() implies {
            let p = #[trigger] bright_in_window(window, threshold, size, n)[i];
            p.x < size && p.y < n
        } by {
            let all = bright_in_window(window, threshold, size, n);
            if i < before.len() {
                assert(all[i] == before[i]);
            } else {
                assert(all[i] == row[i - before.len()]);
            }
        }
    }
}

proof fn lemma_row_places(row: Seq<u8>, threshold: int, y: int, n: nat)
    requires
        n <= usize::MAX,
        0 <= y <= usize::MAX,
    ensures
        forall|i: int|
            0 <= i < bright_in_row(row, threshold, y, n).len() ==> {
                let p = #[trigger] bright_in_row(row, threshold, y, n)[i];
                p.x < n && p.y == y
            },
    decreases n,
{
    if n > 0 {
        lemma_row_places(row, threshold, y, (n - 1) as nat);
        let before = bright_in_row(row, threshold, y, (n - 1) as nat);
        let now = bright_in_row(row, threshold, y, n);
        assert forall|i: int| 0 <= i < now.len() implies {
            let p = #[trigger] now[i];
            p.x < n && p.y == y
        } by {
            if i < before.len() {
                assert(now[i] == before[i]);
            }
        }
    }
}

impl Guider {
    /// A guider with the usual threshold.
    pub fn new() -> (r: Guider)
        ensures
            r.threshold == 50,
    {
        Guider { threshold: 50 }
    }

    /// The sums of the light around a position, in the coordinates of the frame;
    /// nothing where no pixel there is above the threshold.
    #[allow(non_snake_case)]
    pub fn find_star_CG(
        &self,
        width: u32,
        height: u32,
        pixels: &[u8],
        center_x: i32,
        center_y: i32,
    ) -> (r: Option<StarSums>)
        requires
            is_frame(width, height, pixels@),
            can_center(center_x, CENTROID_WINDOW),
            can_center(center_y, CENTROID_WINDOW),
        ensures
            exists|window: Seq<Vec<u8>>|
                {
                    &&& #[trigger] shows(
                        width,
                        height,
                        pixels@,
                        center_x,
                        center_y,
                        CENTROID_WINDOW,
                        window,
                    )
                    &&& match r {
                        Some(sums) => is_centroid(
                            window,
                            self.threshold as int,
                            window_start(center_x as int, CENTROID_WINDOW as int),
                            window_start(center_y as int, CENTROID_WINDOW as int),
                            sums,
                        ) && sums.mass > 0,
                        None => placed_sum(
                            Weight::Mass,
                            window,
                            self.threshold as int,
                            window_start(center_x as int, CENTROID_WINDOW as int),
                            window_start(center_y as int, CENTROID_WINDOW as int),
                            40,
                            40,
                        ) == 0,
                    }
                },
    {
        let window = get_window(width, height, pixels, CENTROID_WINDOW, center_x, center_y);
        let origin = origin_of(center_x, center_y, CENTROID_WINDOW);
        let sums = star_sums(&window, self.threshold, origin.x, origin.y);
        assert(shows(width, height, pixels@, center_x, center_y, CENTROID_WINDOW, window@));
        if sums.mass == 0 {
            None
        } else {
            Some(sums)
        }
    }

    /// The window around a position, where it begins, and its brightest value.
    #[allow(non_snake_case)]
    pub fn find_star_GF(
        &self,
        width: u32,
        height: u32,
        pixels: &[u8],
        center_x: i32,
        center_y: i32,
    ) -> (r: GaussStart)
        requires
            is_frame(width, height, pixels@),
            can_center(center_x, CENTROID_WINDOW),
            can_center(center_y, CENTROID_WINDOW),
        ensures
            shows(width, height, pixels@, center_x, center_y, CENTROID_WINDOW, r.window@),
            is_origin(r.origin, center_x, center_y, CENTROID_WINDOW),
            r.peak == window_peak(r.window@, 40, 40),
    {
        let window = get_window(width, height, pixels, CENTROID_WINDOW, center_x, center_y);
        let peak = brightest(&window, 40);
        let origin = origin_of(center_x, center_y, CENTROID_WINDOW);
        GaussStart { window, origin, peak }
    }

    /// The window around a position, where it begins, and its brightest pixels;
    /// nothing where too few pixels are above the threshold.
    #[allow(non_snake_case)]
    pub fn find_star_FGF(
        &self,
        width: u32,
        height: u32,
        pixels: &[u8],
        center_x: i32,
        center_y: i32,
    ) -> (r: Option<FitStart>)
        requires
            is_frame(width, height, pixels@),
            can_center(center_x, FIT_WINDOW),
            can_center(center_y, FIT_WINDOW),
        ensures
            match r {
                Some(start) => {
                    &&& shows(
                        width,
                        height,
                        pixels@,
                        center_x,
                        center_y,
                        FIT_WINDOW,
                        start.window@,
                    )
                    &&& is_origin(start.origin, center_x, center_y, FIT_WINDOW)
                    &&& is_first_fit(start.window@, self.threshold as int, 31, start.pixels@)
                    &&& in_window(start.pixels@, FIT_WINDOW as int)
                    &&& FIT_MIN_PIXELS <= start.pixels@.len() <= 50
                },
                None => exists|window: Seq<Vec<u8>>|
                    {
                        &&& #[trigger] shows(
                            width,
                            height,
                            pixels@,
                            center_x,
                            center_y,
                            FIT_WINDOW,
                            window,
                        )
                        &&& bright_in_window(window, self.threshold as int, 31, 31).len()
                            < FIT_MIN_PIXELS
                    },
            },
    {
        let window = get_window(width, height, pixels, FIT_WINDOW, center_x, center_y);
        assert(shows(width, height, pixels@, center_x, center_y, FIT_WINDOW, window@));
        match pixels_for_fit(&window, 31, self.threshold) {
            Some(taken) => {
                let ghost bright = bright_in_window(window@, self.threshold as int, 31, 31);
                let ghost sorted = choose|sorted: Seq<BrightPixel>|
                    {
                        &&& #[trigger] is_stable_sort(bright, sorted)
                        &&& taken@ == sorted.take(fit_count(bright.len() as int))
                    };
                proof {
                    lemma_bright_places(window@, self.threshold as int, 31, 31);
                    let perm = choose|perm: Seq<int>|
                        {
                            &&& #[trigger] is_stable_order(bright, perm)
                            &&& sorted == perm.map_values(|i: int| bright[i])
                        };
                    assert forall|i: int| 0 <= i < taken@.len() implies (
                    #[trigger] taken@[i]).x < 31 && taken@[i].y < 31 by {
                        assert(taken@[i] == sorted[i]);
                        assert(sorted[i] == bright[perm[i]]);
                    }
                }
                let mut list: Vec<(usize, usize)> = Vec::new();
                for i in 0..taken.len()
                    invariant
                        list@.len() == i,
                        forall|k: int|
                            0 <= k < i ==> #[trigger] list@[k] == (taken@[k].x, taken@[k].y),
                {
                    list.push((taken[i].x, taken[i].y));
                }
                assert(list@ =~= places(taken@));
                assert(is_first_fit(window@, self.threshold as int, 31, list@));
                let origin = origin_of(center_x, center_y, FIT_WINDOW);
                Some(FitStart { window, origin, pixels: list })
            },
            None => None,
        }
    }

    /// The stars of a frame: its bright regions.
    pub fn select_guide_star(&self, width: u32, height: u32, pixels: &[u8]) -> (r: Vec<Region>)
        requires
            is_frame(width, height, pixels@),
            self.threshold + STAR_PEAK <= u8::MAX,
        ensures
            are_star_regions(width as int, height as int, pixels@, self.threshold as int, r@),
            forall|p: int|
                #[trigger] is_seed(
                    width as int,
                    height as int,
                    pixels@,
                    self.threshold as int,
                    p,
                ) ==> {
                    ||| is_faint(width as int, height as int, pixels@, self.threshold as int, p)
                    ||| begins_at(r@, p)
                },
    {
        find_regions(width, height, pixels, self.threshold)
    }
}

/// A star of one pixel in a frame that is dark elsewhere is found where it is,
/// wherever in the window around the center that is.
pub proof fn law_lonely_star_is_found(
    width: u32,
    height: u32,
    pixels: Seq<u8>,
    threshold: int,
    center_x: i32,
    center_y: i32,
    x: int,
    y: int,
    window: Seq<Vec<u8>>,
    sums: StarSums,
)
    requires
        0 <= threshold,
        shows(width, height, pixels, center_x, center_y, 40, window),
        is_centroid(
            window,
            threshold,
            window_start(center_x as int, 40),
            window_start(center_y as int, 40),
            sums,
        ),
        0 <= x < width,
        0 <= y < height,
        forall|a: int, b: int|
            0 <= a < width && 0 <= b < height && (a != x || b != y) ==> #[trigger] pixels[pixel_at(
                width as int,
                a,
                b,
            )] <= threshold,
        pixels[pixel_at(width as int, x, y)] > threshold,
        20 <= center_x && 20 <= center_y,
        center_x - 20 <= x < center_x + 20,
        center_y - 20 <= y < center_y + 20,
    ensures
        sums.mass == pixels[pixel_at(width as int, x, y)] - threshold,
        sums.x == x * sums.mass,
        sums.y == y * sums.mass,
{
    let x0 = window_start(center_x as int, 40);
    let y0 = window_start(center_y as int, 40);
    assert(x0 == center_x - 20 && y0 == center_y - 20);
    assert forall|a: int, b: int|
        0 <= a < 40 && 0 <= b < 40 && (a != x - x0 || b != y - y0) implies #[trigger] window[b]@[a]
        <= threshold by {
        if x0 + a < width && y0 + b < height {
            assert(pixels[pixel_at(width as int, x0 + a, y0 + b)] <= threshold);
        }
    }
    assert(window[y - y0]@[x - x0] == pixels[pixel_at(width as int, x, y)]);
    law_centroid_of_one_pixel(window, threshold, x0, y0, x - x0, y - y0, sums);
}

} // verus!
