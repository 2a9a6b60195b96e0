//! Sources of decoded frames.

use vstd::prelude::*;
use crate::raster::Raster;

verus! {

/// Something that hands out decoded frames of one size.
pub trait FrameSource {
    /// Width and height of the frames, in pixels.
    fn dimensions(&self) -> (u32, u32);

    /// The next frame, or nothing where the source is exhausted.
    fn next_frame(&mut self) -> Option<Raster>;
}

/// A still image: a source that hands out the same frame every time.
pub struct StaticFrame {
    image: Raster,
}

impl StaticFrame {
    /// The image that the source hands out.
    pub closed spec fn image(&self) -> Raster {
        self.image
    }

    pub fn new(image: Raster) -> (out: Self)
        ensures
            out.image() == image,
    {
        StaticFrame { image }
    }
}

impl FrameSource for StaticFrame {
    fn dimensions(&self) -> (out: (u32, u32))
        ensures
            out == (self.image().width, self.image().height),
    {
        (self.image.width, self.image.height)
    }

    fn next_frame(&mut self) -> (out: Option<Raster>)
        ensures
            final(self).image() == old(self).image(),
            out is Some,
            out->0.width == old(self).image().width,
            out->0.height == old(self).image().height,
            out->0.pixels@ == old(self).image().pixels@,
    {
        Some(self.image.clone())
    }
}

} // verus!
