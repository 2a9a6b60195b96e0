//! Maps a field of features to glyph cells through a gradient.

use vstd::prelude::*;
use crate::edges::{EdgeResult, EdgeSample};
use crate::gradient::{level_index, Gradient};
use crate::grid::{CellGlyph, GlyphGrid};

verus! {

/// The glyph that stands for a gradient direction, given in tenths of a
/// degree and taken modulo a half turn: a dash within 22.5 degrees of the
/// horizontal, a bar within 22.5 degrees of the vertical, and a slash or a
/// backslash between them.
pub open spec fn orientation_char(angle_decidegrees: int) -> char {
    let angle = angle_decidegrees % 1800;
    if angle < 225 || angle >= 1575 {
        '-'
    } else if angle < 675 {
        '/'
    } else if angle < 1125 {
        '|'
    } else {
        '\\'
    }
}

/// The cell for one orientation sample: blank and black where the sample is
/// inactive, else the direction's glyph in the gray of the magnitude.
pub open spec fn orientation_cell(sample: EdgeSample) -> CellGlyph {
    if sample.active {
        CellGlyph::shaded(orientation_char(sample.angle_decidegrees as int), sample.magnitude)
    } else {
        CellGlyph::shaded(' ', 0)
    }
}

/// The cell for one intensity: the palette's glyph at the intensity's
/// position, in the gray of the intensity.
pub open spec fn intensity_cell(palette: Seq<char>, intensity: u16) -> CellGlyph {
    CellGlyph::shaded(palette[level_index(intensity, palette.len())], intensity)
}

/// The number of cells that a field of features stands for.
pub open spec fn feature_count(features: EdgeResult) -> nat {
    match features {
        EdgeResult::Intensity(intensities) => intensities@.len(),
        EdgeResult::Orientation(samples) => samples@.len(),
    }
}

/// The cell for feature `i` of a field: by intensity or by orientation, as
/// the field has it.
pub open spec fn feature_cell(palette: Seq<char>, features: EdgeResult, i: int) -> CellGlyph {
    match features {
        EdgeResult::Intensity(intensities) => intensity_cell(palette, intensities@[i]),
        EdgeResult::Orientation(samples) => orientation_cell(samples@[i]),
    }
}

/// Computes [`orientation_char`].
pub fn orientation_glyph(angle_decidegrees: i32) -> (out: char)
    ensures
        out == orientation_char(angle_decidegrees as int),
{
    let shifted: i64 = angle_decidegrees as i64 + 2147484600;
    let angle: i64 = shifted % 1800;
    proof {
        assert(2147484600int == 1800 * 1193047);
        vstd::arithmetic::div_mod::lemma_mod_multiples_vanish(
            1193047,
            angle_decidegrees as int,
            1800,
        );
    }
    if angle < 225 || angle >= 1575 {
        '-'
    } else if angle < 675 {
        '/'
    } else if angle < 1125 {
        '|'
    } else {
        '\\'
    }
}

/// Chooses glyphs from one gradient.
pub struct GlyphMapper {
    gradient: Gradient,
}

impl GlyphMapper {
    /// The glyphs of the mapper's gradient.
    pub closed spec fn palette(&self) -> Seq<char> {
        self.gradient@
    }

    /// The gradient holds at least two glyphs.
    pub open spec fn wf(&self) -> bool {
        self.palette().len() >= 2
    }

    pub fn new(gradient: Gradient) -> (out: Self)
        ensures
            out.palette() == gradient@,
    {
        GlyphMapper { gradient }
    }

    /// The grid of `width` by `height` cells for a field of intensities.
    pub fn map_intensity(&mut self, intensities: &[u16], width: u16, height: u16) -> (out:
        GlyphGrid)
        requires
            old(self).wf(),
            intensities@.len() == width * height,
        ensures
            final(self).palette() == old(self).palette(),
            out.width == width,
            out.height == height,
            out.wf(),
            forall|i: int|
                0 <= i < out.cells@.len() ==> #[trigger] out.cells@[i] == intensity_cell(
                    old(self).palette(),
                    intensities@[i],
                ),
    {
        let count = intensities.len();
        let mut cells: Vec<CellGlyph> = Vec::new();
        let mut i: usize = 0;
        while i < count
            invariant
                self.wf(),
                self.palette() == old(self).palette(),
                count == intensities@.len(),
                i <= count,
                cells@.len() == i,
                forall|k: int|
                    0 <= k < i ==> #[trigger] cells@[k] == intensity_cell(
                        self.palette(),
                        intensities@[k],
                    ),
            decreases count - i,
        {
            let value = intensities[i];
            let index = self.gradient.clamp_index(value);
            let ch = self.gradient.char_at(index);
            cells.push(CellGlyph::new(ch, value));
            i += 1;
        }
        GlyphGrid::new(width, height, cells)
    }

    /// The grid of `width` by `height` cells for a field of features of
    /// either kind.
    pub fn map_features(&mut self, features: &EdgeResult, width: u16, height: u16) -> (out:
        GlyphGrid)
        requires
            old(self).wf(),
            feature_count(*features) == width * height,
        ensures
            final(self).palette() == old(self).palette(),
            out.width == width,
            out.height == height,
            out.wf(),
            forall|i: int|
                0 <= i < out.cells@.len() ==> #[trigger] out.cells@[i] == feature_cell(
                    old(self).palette(),
                    *features,
                    i,
                ),
    {
        match features {
            EdgeResult::Intensity(intensities) => self.map_intensity(
                intensities.as_slice(),
                width,
                height,
            ),
            EdgeResult::Orientation(samples) => self.map_orientation(
                samples.as_slice(),
                width,
                height,
            ),
        }
    }

    /// The grid of `width` by `height` cells for a field of orientation
    /// samples.
    pub fn map_orientation(&mut self, samples: &[EdgeSample], width: u16, height: u16) -> (out:
        GlyphGrid)
        requires
            samples@.len() == width * height,
        ensures
            final(self).palette() == old(self).palette(),
            out.width == width,
            out.height == height,
            out.wf(),
            forall|i: int|
                0 <= i < out.cells@.len() ==> #[trigger] out.cells@[i] == orientation_cell(
                    samples@[i],
                ),
    {
        let count = samples.len();
        let mut cells: Vec<CellGlyph> = Vec::new();
        let mut i: usize = 0;
        while i < count
            invariant
                count == samples@.len(),
                i <= count,
                cells@.len() == i,
                forall|k: int| 0 <= k < i ==> #[trigger] cells@[k] == orientation_cell(samples@[k]),
            decreases count - i,
        {
            let sample = samples[i];
            if !sample.active {
                cells.push(CellGlyph::new(' ', 0));
            } else {
                let ch = orientation_glyph(sample.angle_decidegrees);
                cells.push(CellGlyph::new(ch, sample.magnitude));
            }
            i += 1;
        }
        GlyphGrid::new(width, height, cells)
    }
}

} // verus!
