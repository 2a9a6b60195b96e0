//! Luminance extraction and the contrast and brightness adjustment.

use vstd::prelude::*;
use crate::fixed::{clamp_int, lemma_round_div_exact, round_div};
use crate::raster::{luma_field, Raster};

verus! {

/// Numerator of the contrast factor for a contrast offset.
pub open spec fn contrast_numerator(contrast: int) -> int {
    259 * (contrast + 255)
}

/// Denominator of the contrast factor for a contrast offset.
pub open spec fn contrast_denominator(contrast: int) -> int {
    255 * (259 - contrast)
}

/// A sample after the adjustment. With `c` the contrast and `b` the
/// brightness, each limited to the range from -255 to 255, with the factor
/// `f = 259 (c + 255) / (255 (259 - c))` and with `v` the sample as a fraction
/// of the full scale, the result is `f (v - 1/2) + 1/2 + b / 255`, rounded to
/// the nearest step of the scale and limited to it.
pub open spec fn adjusted(value: u16, contrast: int, brightness: int) -> int {
    let c = clamp_int(contrast, -255, 255);
    let b = clamp_int(brightness, -255, 255);
    let numer = contrast_numerator(c) * (2 * value - 65535) + contrast_denominator(c) * (65535
        + 514 * b);
    clamp_int(round_div(numer, 2 * contrast_denominator(c)), 0, 65535)
}

/// A luminance sample, inverted on request.
pub open spec fn oriented(level: u16, invert: bool) -> int {
    if invert {
        65535 - level
    } else {
        level as int
    }
}

/// The luminance of each pixel of `image` in row-major order, as a fraction
/// of the full scale; with `invert`, one minus it.
pub fn extract_luma(image: &Raster, invert: bool) -> (out: Vec<u16>)
    requires
        image.wf(),
    ensures
        out@.len() == image.width * image.height,
        out@.len() == luma_field(image.pixels@).len(),
        forall|i: int|
            0 <= i < out@.len() ==> #[trigger] out@[i] == oriented(
                luma_field(image.pixels@)[i],
                invert,
            ),
{
    let mut data = image.to_luma16();
    if !invert {
        return data;
    }
    let ghost levels = data@;
    let count = data.len();
    let mut i: usize = 0;
    while i < count
        invariant
            count == levels.len(),
            data@.len() == count,
            i <= count,
            forall|k: int| 0 <= k < i ==> #[trigger] data@[k] == 65535 - levels[k],
            forall|k: int| i <= k < count ==> #[trigger] data@[k] == levels[k],
        decreases count - i,
    {
        let level = data[i];
        data.set(i, 65535 - level);
        i += 1;
    }
    data
}

/// Applies the contrast and brightness adjustment to every sample. With both
/// offsets zero nothing changes.
pub fn apply_contrast_and_brightness(values: &mut Vec<u16>, contrast: i32, brightness: i32)
    ensures
        final(values)@.len() == old(values)@.len(),
        forall|i: int|
            0 <= i < old(values)@.len() ==> #[trigger] final(values)@[i] == adjusted(
                old(values)@[i],
                contrast as int,
                brightness as int,
            ),
        contrast == 0 && brightness == 0 ==> final(values)@ == old(values)@,
{
    if contrast == 0 && brightness == 0 {
        assert forall|i: int| 0 <= i < values@.len() implies #[trigger] values@[i] == adjusted(
            values@[i],
            0,
            0,
        ) by {
            lemma_adjust_identity(values@[i]);
        }
        return;
    }
    let count = values.len();
    let mut i: usize = 0;
    while i < count
        invariant
            count == old(values)@.len(),
            values@.len() == count,
            i <= count,
            forall|k: int|
                0 <= k < i ==> #[trigger] values@[k] == adjusted(
                    old(values)@[k],
                    contrast as int,
                    brightness as int,
                ),
            forall|k: int| i <= k < count ==> #[trigger] values@[k] == old(values)@[k],
        decreases count - i,
    {
        let value = values[i];
        values.set(i, adjust_sample(value, contrast, brightness));
        i += 1;
    }
}

/// Computes [`adjusted`].
pub fn adjust_sample(value: u16, contrast: i32, brightness: i32) -> (out: u16)
    ensures
        out == adjusted(value, contrast as int, brightness as int),
{
    let c: i64 = if contrast < -255 {
        -255
    } else if contrast > 255 {
        255
    } else {
        contrast as i64
    };
    let b: i64 = if brightness < -255 {
        -255
    } else if brightness > 255 {
        255
    } else {
        brightness as i64
    };
    let factor_numer: i64 = 259 * (c + 255);
    let factor_denom: i64 = 255 * (259 - c);
    let centered: i64 = 2 * (value as i64) - 65535;
    let offset: i64 = 65535 + 514 * b;
    assert(-132090 * 65535 <= factor_numer * centered <= 132090 * 65535) by (nonlinear_arith)
        requires
            0 <= factor_numer <= 132090,
            -65535 <= centered <= 65535,
    ;
    assert(-131070 * 196605 <= factor_denom * offset <= 131070 * 196605) by (nonlinear_arith)
        requires
            0 <= factor_denom <= 131070,
            -196605 <= offset <= 196605,
    ;
    let numer: i64 = factor_numer * centered + factor_denom * offset;
    let denom: i64 = 2 * factor_denom;
    proof {
        let ghost exact = round_div(numer as int, denom as int);
        if numer <= 0 {
            crate::fixed::lemma_round_div_monotonic(numer as int, 0, denom as int);
            lemma_round_div_exact(0, denom as int);
            assert(0 * denom == 0);
        }
    }
    if numer <= 0 {
        0
    } else {
        let rounded: i64 = (2 * numer + denom) / (2 * denom);
        if rounded > 65535 {
            65535
        } else {
            rounded as u16
        }
    }
}

/// With both offsets zero the adjustment leaves every sample as it is.
pub proof fn lemma_adjust_identity(value: u16)
    ensures
        adjusted(value, 0, 0) == value,
{
    assert(contrast_numerator(0) == 66045 && contrast_denominator(0) == 66045);
    let numer = 66045 * (2 * value - 65535) + 66045 * (65535 + 514 * 0);
    assert(numer == value * 132090);
    lemma_round_div_exact(value as int, 2 * contrast_denominator(0));
}

} // verus!
