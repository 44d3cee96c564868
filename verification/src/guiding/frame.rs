//! Grey frames and square windows of them.

use vstd::arithmetic::div_mod::{lemma_fundamental_div_mod, lemma_fundamental_div_mod_converse};
use vstd::prelude::*;

verus! {

/// The pixels make up a frame of this size, row by row.
pub open spec fn is_frame(width: u32, height: u32, pixels: Seq<u8>) -> bool {
    &&& pixels.len() == width * height
    &&& pixels.len() <= i32::MAX
}

/// The position of the pixel in column `x` of row `y`.
pub open spec fn pixel_at(width: int, x: int, y: int) -> int {
    y * width + x
}

/// A pixel in a column and a row of the frame lies within the frame, and the
/// column and the row can be told from its position.
pub proof fn lemma_pixel_at(width: int, height: int, x: int, y: int)
    requires
        0 <= x < width,
        0 <= y < height,
    ensures
        0 <= pixel_at(width, x, y) < width * height,
        pixel_at(width, x, y) % width == x,
        pixel_at(width, x, y) / width == y,
{
    assert(0 <= y * width + x < width * height) by (nonlinear_arith)
        requires
            0 <= x < width,
            0 <= y < height,
    ;
    assert(pixel_at(width, x, y) == y * width + x);
    lemma_fundamental_div_mod_converse(pixel_at(width, x, y), width, y, x);
}

/// Every pixel of the frame has a column and a row.
pub proof fn lemma_column_and_row(width: int, height: int, p: int)
    requires
        0 <= p < width * height,
        0 <= width,
        0 <= height,
    ensures
        0 < width,
        0 <= p % width < width,
        0 <= p / width < height,
        pixel_at(width, p % width, p / width) == p,
{
    assert(0 < width) by (nonlinear_arith)
        requires
            0 <= p < width * height,
            0 <= width,
            0 <= height,
    ;
    lemma_fundamental_div_mod(p, width);
    let y = p / width;
    let x = p % width;
    assert(p == width * y + x);
    assert(width * y == y * width) by (nonlinear_arith);
    assert(0 <= y < height) by (nonlinear_arith)
        requires
            p == width * y + x,
            0 <= x < width,
            0 <= p < width * height,
    ;
}

/// Where a window of this size begins along an axis when it is centered on
/// `center`. It never begins before the frame.
pub open spec fn window_start(center: int, size: int) -> int {
    if center - size / 2 > 0 {
        center - size / 2
    } else {
        0
    }
}

/// The value in column `x` of row `y` of the window around a center; zero
/// outside the frame.
pub open spec fn window_pixel(
    width: int,
    height: int,
    pixels: Seq<u8>,
    size: int,
    center_x: int,
    center_y: int,
    x: int,
    y: int,
) -> u8 {
    let fx = window_start(center_x, size) + x;
    let fy = window_start(center_y, size) + y;
    if fx < width && fy < height {
        pixels[pixel_at(width, fx, fy)]
    } else {
        0
    }
}

/// A square window: rows of values.
pub open spec fn is_window(window: Seq<Vec<u8>>, size: int) -> bool {
    &&& window.len() == size
    &&& forall|y: int| 0 <= y < size ==> (#[trigger] window[y])@.len() == size
}

/// Where a window begins along an axis.
pub fn window_origin(center: i32, size: u32) -> (r: u32)
    requires
        size <= i32::MAX,
        center - size / 2 >= i32::MIN,
    ensures
        r == window_start(center as int, size as int),
        r <= i32::MAX,
{
    let start: i32 = center - (size / 2) as i32;
    if start > 0 {
        start as u32
    } else {
        0
    }
}

/// Where a window begins in the frame.
#[derive(Debug, Clone, Copy, PartialEq, Eq, Structural)]
pub struct Origin {
    pub x: u32,
    pub y: u32,
}

/// The window of this size around a center begins there.
pub open spec fn is_origin(origin: Origin, center_x: i32, center_y: i32, size: u32) -> bool {
    &&& origin.x == window_start(center_x as int, size as int)
    &&& origin.y == window_start(center_y as int, size as int)
}

/// Where the window of this size around a center begins.
pub fn origin_of(center_x: i32, center_y: i32, size: u32) -> (r: Origin)
    requires
        size <= i32::MAX,
        center_x - size / 2 >= i32::MIN,
        center_y - size / 2 >= i32::MIN,
    ensures
        is_origin(r, center_x, center_y, size),
{
    Origin { x: window_origin(center_x, size), y: window_origin(center_y, size) }
}

/// The window of this size around a center.
pub fn get_window(
    width: u32,
    height: u32,
    pixels: &[u8],
    window_size: u32,
    center_x: i32,
    center_y: i32,
) -> (r: Vec<Vec<u8>>)
    requires
        is_frame(width, height, pixels@),
        window_size <= i32::MAX,
        center_x - window_size / 2 >= i32::MIN,
        center_y - window_size / 2 >= i32::MIN,
    ensures
        is_window(r@, window_size as int),
        forall|y: int, x: int|
            0 <= y < window_size && 0 <= x < window_size ==> #[trigger] r@[y]@[x] == window_pixel(
                width as int,
                height as int,
                pixels@,
                window_size as int,
                center_x as int,
                center_y as int,
                x,
                y,
            ),
{
    let x0 = window_origin(center_x, window_size);
    let y0 = window_origin(center_y, window_size);
    let mut matrix: Vec<Vec<u8>> = Vec::new();
    for j in 0..window_size
        invariant
            is_frame(width, height, pixels@),
            window_size <= i32::MAX,
            x0 <= i32::MAX,
            y0 <= i32::MAX,
            x0 == window_start(center_x as int, window_size as int),
            y0 == window_start(center_y as int, window_size as int),
            matrix@.len() == j,
            forall|y: int| 0 <= y < j ==> (#[trigger] matrix@[y])@.len() == window_size,
            forall|y: int, x: int|
                0 <= y < j && 0 <= x < window_size ==> #[trigger] matrix@[y]@[x] == window_pixel(
                    width as int,
                    height as int,
                    pixels@,
                    window_size as int,
                    center_x as int,
                    center_y as int,
                    x,
                    y,
                ),
    {
        let y: u32 = y0 + j;
        let mut row: Vec<u8> = Vec::new();
        for i in 0..window_size
            invariant
                is_frame(width, height, pixels@),
                window_size <= i32::MAX,
                x0 <= i32::MAX,
                y0 <= i32::MAX,
                x0 == window_start(center_x as int, window_size as int),
                y0 == window_start(center_y as int, window_size as int),
                j < window_size,
                y == y0 + j,
                row@.len() == i,
                forall|x: int|
                    0 <= x < i ==> #[trigger] row@[x] == window_pixel(
                        width as int,
                        height as int,
                        pixels@,
                        window_size as int,
                        center_x as int,
                        center_y as int,
                        x,
                        j as int,
                    ),
        {
            let x: u32 = x0 + i;
            if x >= width || y >= height {
                row.push(0);
            } else {
                proof {
                    lemma_pixel_at(width as int, height as int, x as int, y as int);
                    assert(y * width <= y * width + x) by (nonlinear_arith)
                        requires
                            0 <= x,
                    ;
                }
                let value = pixels[(y * width + x) as usize];
                row.push(value);
            }
        }
        matrix.push(row);
    }
    matrix
}

/// A window around a center shows that center in its middle, where it does not
/// reach beyond the beginning of the frame; there it begins with the frame. What
/// lies beyond the end of the frame is dark.
pub proof fn law_window_shows_its_center(
    width: int,
    height: int,
    pixels: Seq<u8>,
    size: int,
    center_x: int,
    center_y: int,
    x: int,
    y: int,
)
    requires
        0 <= x < size,
        0 <= y < size,
    ensures
        ({
            let shown = |a: int, b: int|
                window_pixel(width, height, pixels, size, center_x, center_y, a, b);
            let half = size / 2;
            &&& half <= center_x < width && half <= center_y < height ==> shown(half, half)
                == pixels[center_y * width + center_x]
            &&& half <= center_x && half <= center_y && center_x - half + x < width && center_y
                - half + y < height ==> shown(x, y) == pixels[(center_y - half + y) * width + (
            center_x - half + x)]
            &&& half >= center_x && half >= center_y && x < width && y < height ==> shown(x, y)
                == pixels[y * width + x]
            &&& center_x - half + x >= width || center_y - half + y >= height ==> shown(x, y) == 0
            &&& window_start(center_x, size) >= 0
        }),
{
}

} // verus!
