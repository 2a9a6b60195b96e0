//! Decoded rasters, and the two operations on them that the image codec
//! library performs: resampling and luminance extraction.

use vstd::prelude::*;

verus! {

/// A decoded image: four bytes per pixel (red, green, blue, alpha), rows from
/// top to bottom.
#[derive(Debug)]
pub struct Raster {
    pub width: u32,
    pub height: u32,
    pub pixels: Vec<u8>,
}

impl Clone for Raster {
    fn clone(&self) -> (out: Self)
        ensures
            out.width == self.width,
            out.height == self.height,
            out.pixels@ == self.pixels@,
    {
        let pixels = self.pixels.clone();
        assert(pixels@ =~= self.pixels@);
        Raster { width: self.width, height: self.height, pixels }
    }
}

/// A raster and the time for which it is shown, in nanoseconds.
#[derive(Clone, Debug)]
pub struct SourceFrame {
    pub image: Raster,
    pub delay: u64,
}

/// The pixels of a `width` by `height` raster resampled to `columns` by `rows`
/// pixels with the Catmull-Rom filter.
pub uninterp spec fn resampled(
    pixels: Seq<u8>,
    width: nat,
    height: nat,
    columns: nat,
    rows: nat,
) -> Seq<u8>;

/// The sixteen-bit luminance of one pixel: the weighted sum of red, green and
/// blue on the eight-bit scale, widened to sixteen bits.
pub open spec fn luma_level(red: u8, green: u8, blue: u8) -> int {
    257 * ((2126 * red + 7152 * green + 722 * blue) / 10000)
}

/// The luminance of each pixel of a raster, in row-major order.
pub open spec fn luma_field(pixels: Seq<u8>) -> Seq<u16> {
    Seq::new(
        pixels.len() / 4,
        |i: int| luma_level(pixels[4 * i], pixels[4 * i + 1], pixels[4 * i + 2]) as u16,
    )
}

/// Whether a raster of the given size can be resampled to `columns` by `rows`
/// pixels: neither is empty, and the two buffers that resampling allocates,
/// one of four single-precision channels for each source column and target
/// row and one of four bytes for each target pixel, can be addressed.
pub open spec fn can_resample(width: u32, height: u32, columns: u16, rows: u16) -> bool {
    &&& width > 0
    &&& height > 0
    &&& columns > 0
    &&& rows > 0
    &&& 16 * width * rows <= isize::MAX
    &&& 4 * columns * rows <= isize::MAX
}

impl Raster {
    /// There are exactly four bytes for each pixel.
    pub open spec fn wf(&self) -> bool {
        self.pixels@.len() == 4 * self.width * self.height
    }

    /// A raster of the given size over `pixels`, where their number fits it.
    pub fn new(width: u32, height: u32, pixels: Vec<u8>) -> (out: Option<Self>)
        ensures
            out is Some <==> pixels@.len() == 4 * width * height,
            out is Some ==> out->0.width == width && out->0.height == height && out->0.pixels
                == pixels && out->0.wf(),
    {
        assert(4 * width * height <= 4 * 0xffff_ffff * 0xffff_ffff) by (nonlinear_arith)
            requires
                0 <= width <= 0xffff_ffff,
                0 <= height <= 0xffff_ffff,
        ;
        let needed: u128 = 4 * (width as u128) * (height as u128);
        if pixels.len() as u128 == needed {
            Some(Raster { width, height, pixels })
        } else {
            None
        }
    }

    /// Whether [`can_resample`] holds of this raster and the given size.
    pub fn resamples_to(&self, columns: u16, rows: u16) -> (out: bool)
        ensures
            out == can_resample(self.width, self.height, columns, rows),
    {
        if self.width == 0 || self.height == 0 || columns == 0 || rows == 0 {
            return false;
        }
        assert(16 * self.width * rows <= 16 * 0xffff_ffff * 0xffff) by (nonlinear_arith)
            requires
                0 <= self.width <= 0xffff_ffff,
                0 <= rows <= 0xffff,
        ;
        assert(4 * columns * rows <= 4 * 0xffff * 0xffff) by (nonlinear_arith)
            requires
                0 <= columns <= 0xffff,
                0 <= rows <= 0xffff,
        ;
        let scratch: u64 = 16 * (self.width as u64) * (rows as u64);
        let target: u64 = 4 * (columns as u64) * (rows as u64);
        let limit: u64 = isize::MAX as u64;
        scratch <= limit && target <= limit
    }

    /// The raster resampled to `columns` by `rows` pixels.
    pub fn resize_exact(&self, columns: u16, rows: u16) -> (out: Raster)
        requires
            self.wf(),
            can_resample(self.width, self.height, columns, rows),
        ensures
            out.width == columns,
            out.height == rows,
            out.wf(),
            out.pixels@ == resampled(
                self.pixels@,
                self.width as nat,
                self.height as nat,
                columns as nat,
                rows as nat,
            ),
            columns == self.width && rows == self.height ==> out.pixels@ == self.pixels@,
    {
        let pixels = resample(&self.pixels, self.width, self.height, columns as u32, rows as u32);
        Raster { width: columns as u32, height: rows as u32, pixels }
    }

    /// The luminance of each pixel on the sixteen-bit scale.
    pub fn to_luma16(&self) -> (out: Vec<u16>)
        requires
            self.wf(),
        ensures
            out@ == luma_field(self.pixels@),
            out@.len() == self.width * self.height,
    {
        let levels = luma_levels(&self.pixels, self.width, self.height);
        assert(4 * self.width * self.height == 4 * (self.width * self.height)) by (nonlinear_arith);
        assert(levels@ =~= luma_field(self.pixels@));
        levels
    }
}

/// Calls `image::DynamicImage::resize_exact` with the Catmull-Rom filter on an
/// eight-bit RGBA image built from `pixels`, and hands out the result's raw
/// buffer. The result is a function of the arguments; its buffer holds four
/// bytes for each of `columns` times `rows` pixels; and where the size does
/// not change, the image is copied.
#[verifier::external_body]
fn resample(pixels: &Vec<u8>, width: u32, height: u32, columns: u32, rows: u32) -> (out: Vec<u8>)
    requires
        pixels@.len() == 4 * width * height,
        width > 0,
        height > 0,
        0 < columns <= 0xffff,
        0 < rows <= 0xffff,
        16 * width * rows <= isize::MAX,
        4 * columns * rows <= isize::MAX,
    ensures
        out@ == resampled(pixels@, width as nat, height as nat, columns as nat, rows as nat),
        out@.len() == 4 * columns * rows,
        columns == width && rows == height ==> out@ == pixels@,
{
    let source = image::RgbaImage::from_raw(width, height, pixels.clone()).unwrap();
    image::DynamicImage::ImageRgba8(source)
        .resize_exact(columns, rows, image::imageops::FilterType::CatmullRom)
        .into_rgba8()
        .into_raw()
}

/// Calls `image::DynamicImage::to_luma16` on an eight-bit RGBA image built
/// from `pixels`, and hands out the result's raw buffer: for each pixel the
/// luminance that [`luma_level`] states.
#[verifier::external_body]
fn luma_levels(pixels: &Vec<u8>, width: u32, height: u32) -> (out: Vec<u16>)
    requires
        pixels@.len() == 4 * width * height,
    ensures
        out@.len() == width * height,
        forall|i: int|
            0 <= i < out@.len() ==> #[trigger] out@[i] == luma_level(
                pixels@[4 * i],
                pixels@[4 * i + 1],
                pixels@[4 * i + 2],
            ),
{
    let source = image::RgbaImage::from_raw(width, height, pixels.clone()).unwrap();
    image::DynamicImage::ImageRgba8(source).to_luma16().into_raw()
}

} // verus!
