//! Edge extraction: the thresholded Sobel gradient magnitude of a luminance
//! field.

use vstd::prelude::*;
use crate::fixed::round_div;
use crate::grid::lemma_cell_position;

verus! {

/// Whether and how edges are extracted before glyphs are chosen.
#[derive(Clone, Copy, Debug)]
pub enum EdgeMode {
    /// Glyphs follow the luminance itself.
    Off,
    /// Glyphs follow the Sobel magnitude where it reaches `threshold`.
    Sobel { threshold: u16 },
}

/// One sample of an orientation field. `angle_decidegrees` is the direction
/// of the gradient in tenths of a degree.
#[derive(Clone, Copy, Debug)]
pub struct EdgeSample {
    pub active: bool,
    pub magnitude: u16,
    pub angle_decidegrees: i32,
}

/// What edge extraction hands to the glyph mapper.
#[derive(Clone, Debug)]
pub enum EdgeResult {
    Intensity(Vec<u16>),
    Orientation(Vec<EdgeSample>),
}

/// `root` is the largest integer whose square does not exceed `n`.
pub open spec fn is_floor_sqrt(n: int, root: int) -> bool {
    0 <= root && root * root <= n < (root + 1) * (root + 1)
}

/// The largest integer whose square does not exceed `n`.
pub open spec fn floor_sqrt(n: int) -> int {
    choose|root: int| is_floor_sqrt(n, root)
}

/// There is only one floor of a square root.
pub proof fn lemma_floor_sqrt_unique(n: int, root: int)
    requires
        is_floor_sqrt(n, root),
    ensures
        floor_sqrt(n) == root,
{
    let other = floor_sqrt(n);
    assert(is_floor_sqrt(n, other));
    assert(other == root) by (nonlinear_arith)
        requires
            0 <= root,
            root * root <= n,
            n < (root + 1) * (root + 1),
            0 <= other,
            other * other <= n,
            n < (other + 1) * (other + 1),
    ;
}

/// The sample of in a field of width `width` at column `x` and row `y`.
pub open spec fn sample_at(values: Seq<u16>, width: int, x: int, y: int) -> int {
    values[y * width + x] as int
}

/// The horizontal Sobel gradient at an interior sample.
pub open spec fn sobel_gx(values: Seq<u16>, width: int, x: int, y: int) -> int {
    -sample_at(values, width, x - 1, y - 1) + sample_at(values, width, x + 1, y - 1) - 2
        * sample_at(values, width, x - 1, y) + 2 * sample_at(values, width, x + 1, y) - sample_at(
        values,
        width,
        x - 1,
        y + 1,
    ) + sample_at(values, width, x + 1, y + 1)
}

/// The vertical Sobel gradient at an interior sample.
pub open spec fn sobel_gy(values: Seq<u16>, width: int, x: int, y: int) -> int {
    -sample_at(values, width, x - 1, y - 1) - 2 * sample_at(values, width, x, y - 1) - sample_at(
        values,
        width,
        x + 1,
        y - 1,
    ) + sample_at(values, width, x - 1, y + 1) + 2 * sample_at(values, width, x, y + 1)
        + sample_at(values, width, x + 1, y + 1)
}

/// The normalized magnitude for the two gradients: the root of the sum of
/// their squares, divided by four, rounded to the nearest step and limited to
/// the full scale.
pub open spec fn normalized_magnitude(gx: int, gy: int) -> int {
    let quarter = round_div(floor_sqrt(gx * gx + gy * gy), 4);
    if quarter > 65535 {
        65535
    } else {
        quarter
    }
}

/// Whether column `x` of row `y` lies off the one-sample border.
pub open spec fn is_interior(width: int, height: int, x: int, y: int) -> bool {
    1 <= x < width - 1 && 1 <= y < height - 1
}

/// The output of the Sobel map at column `x` of row `y`: zero on the border,
/// zero where the normalized magnitude is below the threshold, else the
/// normalized magnitude.
pub open spec fn sobel_value(
    values: Seq<u16>,
    width: int,
    height: int,
    threshold: u16,
    x: int,
    y: int,
) -> int {
    if is_interior(width, height, x, y) {
        let magnitude = normalized_magnitude(
            sobel_gx(values, width, x, y),
            sobel_gy(values, width, x, y),
        );
        if magnitude >= threshold {
            magnitude
        } else {
            0
        }
    } else {
        0
    }
}

/// The thresholded Sobel magnitude of a field of `width` by `height` samples
/// in row-major order.
pub fn sobel_map(values: &[u16], width: u16, height: u16, threshold: u16) -> (out: Vec<u16>)
    requires
        values@.len() == width * height,
    ensures
        out@.len() == values@.len(),
        forall|x: int, y: int|
            0 <= x < width && 0 <= y < height ==> #[trigger] out@[y * width + x] == sobel_value(
                values@,
                width as int,
                height as int,
                threshold,
                x,
                y,
            ),
{
    let w: usize = width as usize;
    let h: usize = height as usize;
    let total: usize = values.len();
    let mut output: Vec<u16> = Vec::new();
    let mut y: usize = 0;
    while y < h
        invariant
            w == width,
            h == height,
            total == values@.len(),
            total == w * h,
            y <= h,
            output@.len() == y * w,
            forall|cx: int, cy: int|
                0 <= cx < w && 0 <= cy < y ==> #[trigger] output@[cy * w + cx] == sobel_value(
                    values@,
                    w as int,
                    h as int,
                    threshold,
                    cx,
                    cy,
                ),
        decreases h - y,
    {
        let mut x: usize = 0;
        let ghost before = output@;
        while x < w
            invariant
                w == width,
                h == height,
                total == values@.len(),
                total == w * h,
                y < h,
                x <= w,
                before.len() == y * w,
                output@.len() == y * w + x,
                output@.subrange(0, y * w) == before,
                forall|cx: int|
                    0 <= cx < x ==> #[trigger] output@[y * w + cx] == sobel_value(
                        values@,
                        w as int,
                        h as int,
                        threshold,
                        cx,
                        y as int,
                    ),
            decreases w - x,
        {
            let interior = 1 <= x && x + 1 < w && 1 <= y && y + 1 < h;
            let value: u16 = if interior {
                sobel_at(values, w, h, x, y, threshold)
            } else {
                0
            };
            let ghost prior = output@;
            output.push(value);
            proof {
                assert(output@.subrange(0, y * w) =~= prior.subrange(0, y * w));
                assert forall|cx: int| 0 <= cx < x + 1 implies #[trigger] output@[y * w + cx]
                    == sobel_value(values@, w as int, h as int, threshold, cx, y as int) by {
                    if cx < x {
                        assert(output@[y * w + cx] == prior[y * w + cx]);
                    }
                }
            }
            x += 1;
        }
        proof {
            assert((y + 1) * w == y * w + w) by (nonlinear_arith);
            assert forall|cx: int, cy: int| 0 <= cx < w && 0 <= cy < y + 1 implies #[trigger] output@[cy
                * w + cx] == sobel_value(values@, w as int, h as int, threshold, cx, cy) by {
                if cy < y {
                    lemma_cell_position(cy, cx, w as int, y as int);
                    assert(output@[cy * w + cx] == output@.subrange(0, y * w)[cy * w + cx]);
                    assert(before[cy * w + cx] == sobel_value(
                        values@,
                        w as int,
                        h as int,
                        threshold,
                        cx,
                        cy,
                    ));
                }
            }
        }
        y += 1;
    }
    assert(h * w == w * h) by (nonlinear_arith);
    output
}

/// The thresholded magnitude at one interior sample.
fn sobel_at(values: &[u16], w: usize, h: usize, x: usize, y: usize, threshold: u16) -> (out: u16)
    requires
        values@.len() == w * h,
        w <= 0xffff,
        h <= 0xffff,
        is_interior(w as int, h as int, x as int, y as int),
    ensures
        out == sobel_value(values@, w as int, h as int, threshold, x as int, y as int),
{
    proof {
        lemma_cell_position(y - 1, x - 1, w as int, h as int);
        lemma_cell_position(y - 1, x + 1, w as int, h as int);
        lemma_cell_position(y as int, x - 1, w as int, h as int);
        lemma_cell_position(y as int, x + 1, w as int, h as int);
        lemma_cell_position(y + 1, x - 1, w as int, h as int);
        lemma_cell_position(y + 1, x + 1, w as int, h as int);
    }
    let total = values.len();
    let above: usize = (y - 1) * w;
    let level: usize = y * w;
    let below: usize = (y + 1) * w;
    let a: i32 = values[above + (x - 1)] as i32;
    let b: i32 = values[above + x] as i32;
    let c: i32 = values[above + (x + 1)] as i32;
    let d: i32 = values[level + (x - 1)] as i32;
    let f: i32 = values[level + (x + 1)] as i32;
    let g: i32 = values[below + (x - 1)] as i32;
    let hh: i32 = values[below + x] as i32;
    let i: i32 = values[below + (x + 1)] as i32;
    let gx: i32 = -a + c - 2 * d + 2 * f - g + i;
    let gy: i32 = -a - 2 * b - c + g + 2 * hh + i;
    assert(gx == sobel_gx(values@, w as int, x as int, y as int));
    assert(gy == sobel_gy(values@, w as int, x as int, y as int));
    let magnitude = magnitude_of(gx, gy);
    if magnitude >= threshold {
        magnitude
    } else {
        0
    }
}

/// Computes [`normalized_magnitude`].
pub fn magnitude_of(gx: i32, gy: i32) -> (out: u16)
    ensures
        out == normalized_magnitude(gx as int, gy as int),
{
    assert(0 <= gx * gx <= 0x8000_0000 * 0x8000_0000) by (nonlinear_arith)
        requires
            -0x8000_0000 <= gx <= 0x8000_0000,
    ;
    assert(0 <= gy * gy <= 0x8000_0000 * 0x8000_0000) by (nonlinear_arith)
        requires
            -0x8000_0000 <= gy <= 0x8000_0000,
    ;
    let wide_x: i64 = gx as i64;
    let wide_y: i64 = gy as i64;
    let squares: u64 = (wide_x * wide_x) as u64 + (wide_y * wide_y) as u64;
    let root = integer_sqrt(squares);
    let quarter: u64 = (2 * root + 4) / 8;
    if quarter > 65535 {
        65535
    } else {
        quarter as u16
    }
}

/// The largest integer whose square does not exceed `n`.
pub fn integer_sqrt(n: u64) -> (out: u64)
    ensures
        out == floor_sqrt(n as int),
        is_floor_sqrt(n as int, out as int),
        out < 0x1_0000_0000,
{
    let mut low: u64 = 0;
    let mut high: u64 = 0x1_0000_0000;
    while high - low > 1
        invariant
            low < high <= 0x1_0000_0000,
            low * low <= n < high * high,
        decreases high - low,
    {
        let middle: u64 = low + (high - low) / 2;
        assert(middle * middle <= 0xffff_ffff * 0xffff_ffff) by (nonlinear_arith)
            requires
                0 <= middle <= 0xffff_ffff,
        ;
        if middle * middle <= n {
            low = middle;
        } else {
            high = middle;
        }
    }
    proof {
        lemma_floor_sqrt_unique(n as int, low as int);
    }
    low
}

/// On a field whose samples are all equal, both gradients vanish and so does
/// the Sobel map, everywhere.
pub proof fn lemma_sobel_uniform_is_zero(
    values: Seq<u16>,
    width: int,
    height: int,
    threshold: u16,
    x: int,
    y: int,
)
    requires
        values.len() == width * height,
        0 <= x < width,
        0 <= y < height,
        forall|i: int, j: int| 0 <= i < values.len() && 0 <= j < values.len() ==> values[i] == values[j],
    ensures
        is_interior(width, height, x, y) ==> sobel_gx(values, width, x, y) == 0 && sobel_gy(
            values,
            width,
            x,
            y,
        ) == 0 && normalized_magnitude(
            sobel_gx(values, width, x, y),
            sobel_gy(values, width, x, y),
        ) == 0,
        sobel_value(values, width, height, threshold, x, y) == 0,
{
    if is_interior(width, height, x, y) {
        lemma_cell_position(y - 1, x - 1, width, height);
        lemma_cell_position(y - 1, x, width, height);
        lemma_cell_position(y - 1, x + 1, width, height);
        lemma_cell_position(y, x - 1, width, height);
        lemma_cell_position(y, x + 1, width, height);
        lemma_cell_position(y + 1, x - 1, width, height);
        lemma_cell_position(y + 1, x, width, height);
        lemma_cell_position(y + 1, x + 1, width, height);
        let v = values[0] as int;
        assert(sample_at(values, width, x - 1, y - 1) == v);
        assert(sample_at(values, width, x, y - 1) == v);
        assert(sample_at(values, width, x + 1, y - 1) == v);
        assert(sample_at(values, width, x - 1, y) == v);
        assert(sample_at(values, width, x + 1, y) == v);
        assert(sample_at(values, width, x - 1, y + 1) == v);
        assert(sample_at(values, width, x, y + 1) == v);
        assert(sample_at(values, width, x + 1, y + 1) == v);
        let gx = sobel_gx(values, width, x, y);
        let gy = sobel_gy(values, width, x, y);
        assert(gx == 0 && gy == 0);
        assert(gx * gx + gy * gy == 0) by (nonlinear_arith)
            requires
                gx == 0,
                gy == 0,
        ;
        assert(is_floor_sqrt(0, 0));
        lemma_floor_sqrt_unique(0, 0);
    }
}

} // verus!
