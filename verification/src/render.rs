//! The renderer: from a raster, a layout policy and options to a glyph grid.

use vstd::prelude::*;
use crate::adjust::{adjusted, apply_contrast_and_brightness, extract_luma, oriented};
use crate::edges::{sobel_map, sobel_value, EdgeMode, EdgeResult};
use crate::gradient::Gradient;
use crate::grid::{lemma_stride_fits, CellGlyph, GlyphGrid};
use crate::layout::{CellAspect, LayoutPolicy, TargetGeometry};
use crate::mapping::{intensity_cell, GlyphMapper};
use crate::raster::{can_resample, luma_field, resampled, Raster};

verus! {

/// Opacity at or below which a cell shows no glyph: a thousandth of the full
/// scale.
pub const TRANSPARENT_ALPHA_THRESHOLD: u16 = 65;

/// What decides the color of a cell.
#[derive(Copy, Clone, Debug, PartialEq, Eq, Structural)]
pub enum ColorMode {
    /// The gray of the cell's intensity.
    Luminance,
    /// The color and opacity of the raster at the cell.
    ColorAlpha,
}

/// Why a raster could not be rendered.
#[derive(Copy, Clone, Debug, PartialEq, Eq, Structural)]
pub enum AsciiError {
    /// The source has no pixels, the layout asks for no cells, or the grid
    /// derived for it cannot be addressed.
    InvalidLayout,
}

/// What the renderer does besides the layout.
#[derive(Clone, Debug)]
pub struct AsciiOptions {
    pub gradient: Gradient,
    pub invert: bool,
    /// Brightness offset in the range from -255 to 255.
    pub brightness: i32,
    /// Contrast offset in the range from -255 to 255.
    pub contrast: i32,
    /// Height over width of one cell, assumed where the layout carries none.
    pub font_aspect: CellAspect,
    pub edge_mode: EdgeMode,
    pub color_mode: ColorMode,
}

/// The options as plain values, with the gradient as its glyphs.
pub struct OptionsView {
    pub palette: Seq<char>,
    pub invert: bool,
    pub brightness: i32,
    pub contrast: i32,
    pub font_aspect: CellAspect,
    pub edge_mode: EdgeMode,
    pub color_mode: ColorMode,
}

impl View for AsciiOptions {
    type V = OptionsView;

    open spec fn view(&self) -> OptionsView {
        OptionsView {
            palette: self.gradient@,
            invert: self.invert,
            brightness: self.brightness,
            contrast: self.contrast,
            font_aspect: self.font_aspect,
            edge_mode: self.edge_mode,
            color_mode: self.color_mode,
        }
    }
}

impl AsciiOptions {
    /// The gradient holds two glyphs or more and the font aspect is positive.
    pub open spec fn wf(&self) -> bool {
        self.gradient.wf() && self.font_aspect.is_positive()
    }

    /// The options that [`AsciiOptions::default`] gives.
    pub open spec fn default_view() -> OptionsView {
        OptionsView {
            palette: Gradient::blocks_spec(),
            invert: false,
            brightness: 0,
            contrast: 0,
            font_aspect: CellAspect { numerator: 11, denominator: 20 },
            edge_mode: EdgeMode::Off,
            color_mode: ColorMode::Luminance,
        }
    }
}

impl Default for AsciiOptions {
    fn default() -> (out: Self)
        ensures
            out@ == Self::default_view(),
            out.wf(),
    {
        AsciiOptions {
            gradient: Gradient::blocks(),
            invert: false,
            brightness: 0,
            contrast: 0,
            font_aspect: CellAspect::new(11, 20),
            edge_mode: EdgeMode::Off,
            color_mode: ColorMode::Luminance,
        }
    }
}

/// A rendered grid and the geometry it was rendered at.
#[derive(Clone, Debug)]
pub struct RenderOutput {
    pub grid: GlyphGrid,
    pub geometry: TargetGeometry,
    /// The font aspect of the options that the grid was rendered with.
    pub assumed_font_aspect: CellAspect,
}

/// The luminance field of a raster after inversion and adjustment.
pub open spec fn tone_field(pixels: Seq<u8>, options: OptionsView) -> Seq<u16> {
    Seq::new(
        luma_field(pixels).len(),
        |i: int|
            adjusted(
                oriented(luma_field(pixels)[i], options.invert) as u16,
                options.contrast as int,
                options.brightness as int,
            ) as u16,
    )
}

/// The field that glyphs are chosen from: the tone field itself, or its
/// thresholded Sobel magnitude.
pub open spec fn feature_field(
    pixels: Seq<u8>,
    columns: int,
    rows: int,
    options: OptionsView,
) -> Seq<u16> {
    match options.edge_mode {
        EdgeMode::Off => tone_field(pixels, options),
        EdgeMode::Sobel { threshold } => Seq::new(
            tone_field(pixels, options).len(),
            |i: int|
                sobel_value(
                    tone_field(pixels, options),
                    columns,
                    rows,
                    threshold,
                    i % columns,
                    i / columns,
                ) as u16,
        ),
    }
}

/// A cell recolored from one pixel: the pixel's color and opacity, and a
/// blank glyph where the opacity is at or below the transparency threshold.
pub open spec fn tinted(cell: CellGlyph, red: u8, green: u8, blue: u8, alpha: u8) -> CellGlyph {
    CellGlyph {
        ch: if alpha * 257 <= TRANSPARENT_ALPHA_THRESHOLD {
            ' '
        } else {
            cell.ch
        },
        fg: [red, green, blue],
        bg: cell.bg,
        alpha: (alpha * 257) as u16,
    }
}

/// Cell `i` of the grid rendered from the pixels of a raster that already
/// has the grid's size.
pub open spec fn rendered_cell(
    pixels: Seq<u8>,
    columns: int,
    rows: int,
    options: OptionsView,
    i: int,
) -> CellGlyph {
    let base = intensity_cell(options.palette, feature_field(pixels, columns, rows, options)[i]);
    match options.color_mode {
        ColorMode::Luminance => base,
        ColorMode::ColorAlpha => tinted(
            base,
            pixels[4 * i],
            pixels[4 * i + 1],
            pixels[4 * i + 2],
            pixels[4 * i + 3],
        ),
    }
}

/// The cells of the grid rendered from the pixels of a raster that already
/// has the grid's size.
pub open spec fn rendered_cells(
    pixels: Seq<u8>,
    columns: int,
    rows: int,
    options: OptionsView,
) -> Seq<CellGlyph> {
    Seq::new((columns * rows) as nat, |i: int| rendered_cell(pixels, columns, rows, options, i))
}

/// Renders a raster at the size it has: one cell for each pixel.
pub fn compose(resized: &Raster, options: &AsciiOptions) -> (out: GlyphGrid)
    requires
        resized.wf(),
        resized.width <= 0xffff,
        resized.height <= 0xffff,
        options.wf(),
    ensures
        out.width == resized.width,
        out.height == resized.height,
        out.wf(),
        out.cells@ == rendered_cells(
            resized.pixels@,
            resized.width as int,
            resized.height as int,
            options@,
        ),
{
    let columns: u16 = resized.width as u16;
    let rows: u16 = resized.height as u16;
    let ghost pixels = resized.pixels@;
    let ghost tones = tone_field(pixels, options@);
    let ghost features = feature_field(pixels, columns as int, rows as int, options@);
    proof {
        lemma_stride_fits(columns, rows);
        assert(4 * resized.width * resized.height == 4 * (columns * rows)) by (nonlinear_arith)
            requires
                resized.width == columns,
                resized.height == rows,
        ;
    }
    let mut luminance = extract_luma(resized, options.invert);
    apply_contrast_and_brightness(&mut luminance, options.contrast, options.brightness);
    assert(luminance@ =~= tones);
    let map = match options.edge_mode {
        EdgeMode::Off => EdgeResult::Intensity(luminance),
        EdgeMode::Sobel { threshold } => {
            let edges = sobel_map(luminance.as_slice(), columns, rows, threshold);
            proof {
                assert forall|i: int| 0 <= i < edges@.len() implies edges@[i] == features[i] by {
                    lemma_position_of_index(i, columns as int, rows as int);
                    let x = i % (columns as int);
                    let y = i / (columns as int);
                    assert(edges@[y * columns + x] == sobel_value(
                        luminance@,
                        columns as int,
                        rows as int,
                        threshold,
                        x,
                        y,
                    ));
                }
                assert(edges@ =~= features);
            }
            EdgeResult::Intensity(edges)
        },
    };
    assert(map is Intensity && map->Intensity_0@ =~= features);
    let mut mapper = GlyphMapper::new(options.gradient.clone());
    let mut grid = mapper.map_features(&map, columns, rows);
    match options.color_mode {
        ColorMode::Luminance => {},
        ColorMode::ColorAlpha => {
            let count = grid.cells.len();
            let total = resized.pixels.len();
            let ghost plain = grid.cells@;
            let mut i: usize = 0;
            while i < count
                invariant
                    resized.pixels@ == pixels,
                    pixels.len() == 4 * count,
                    pixels.len() == total,
                    grid.width == columns,
                    grid.height == rows,
                    grid.cells@.len() == count,
                    plain.len() == count,
                    i <= count,
                    forall|k: int|
                        0 <= k < i ==> #[trigger] grid.cells@[k] == tinted(
                            plain[k],
                            pixels[4 * k],
                            pixels[4 * k + 1],
                            pixels[4 * k + 2],
                            pixels[4 * k + 3],
                        ),
                    forall|k: int| i <= k < count ==> #[trigger] grid.cells@[k] == plain[k],
                decreases count - i,
            {
                let start: usize = i * 4;
                let red = resized.pixels[start];
                let green = resized.pixels[start + 1];
                let blue = resized.pixels[start + 2];
                let alpha: u16 = resized.pixels[start + 3] as u16 * 257;
                let mut cell = grid.cells[i];
                cell.fg = [red, green, blue];
                cell.alpha = alpha;
                if alpha <= TRANSPARENT_ALPHA_THRESHOLD {
                    cell.ch = ' ';
                }
                grid.cells.set(i, cell);
                i += 1;
            }
        },
    }
    assert(grid.cells@ =~= rendered_cells(pixels, columns as int, rows as int, options@));
    grid
}

/// An index into a row-major field names the column that is its remainder
/// and the row that is its quotient by the width.
pub proof fn lemma_position_of_index(i: int, width: int, height: int)
    requires
        0 <= i < width * height,
        width > 0,
    ensures
        0 <= i % width < width,
        0 <= i / width < height,
        (i / width) * width + i % width == i,
{
    vstd::arithmetic::div_mod::lemma_fundamental_div_mod(i, width);
    vstd::arithmetic::div_mod::lemma_mod_bound(i, width);
    let q = i / width;
    assert(q * width == width * q) by (nonlinear_arith);
    assert(0 <= q < height) by (nonlinear_arith)
        requires
            0 <= i < width * height,
            width > 0,
            i == width * q + i % width,
            0 <= i % width < width,
    ;
}

/// The geometry that a raster of the given size is rendered at: the one the
/// layout derives, where the raster can be resampled to it.
pub open spec fn render_geometry(
    width: u32,
    height: u32,
    layout: LayoutPolicy,
    options: OptionsView,
) -> Option<TargetGeometry> {
    match layout.derive_spec(width, height, options.font_aspect) {
        Some(geometry) => if can_resample(width, height, geometry.columns, geometry.rows) {
            Some(geometry)
        } else {
            None
        },
        None => None,
    }
}

/// The cells that a raster is rendered to at `geometry`.
pub open spec fn rendered_at(
    image: Raster,
    geometry: TargetGeometry,
    options: OptionsView,
) -> Seq<CellGlyph> {
    rendered_cells(
        resampled(
            image.pixels@,
            image.width as nat,
            image.height as nat,
            geometry.columns as nat,
            geometry.rows as nat,
        ),
        geometry.columns as int,
        geometry.rows as int,
        options,
    )
}

/// What [`AsciiRenderer::render_image`] returns for the given arguments.
pub open spec fn is_render_of(
    result: Result<RenderOutput, AsciiError>,
    image: Raster,
    layout: LayoutPolicy,
    options: OptionsView,
) -> bool {
    match render_geometry(image.width, image.height, layout, options) {
        Some(geometry) => {
            &&& result is Ok
            &&& result->Ok_0.geometry == geometry
            &&& result->Ok_0.assumed_font_aspect == options.font_aspect
            &&& result->Ok_0.grid.width == geometry.columns
            &&& result->Ok_0.grid.height == geometry.rows
            &&& result->Ok_0.grid.cells@ == rendered_at(image, geometry, options)
        },
        None => result == Err::<RenderOutput, AsciiError>(AsciiError::InvalidLayout),
    }
}

/// The renderer. It keeps no state between calls.
#[derive(Default)]
pub struct AsciiRenderer;

impl AsciiRenderer {
    /// Renders `image`: derives the geometry, resamples the raster to it and
    /// composes the grid. Fails where the source has no pixels, where the
    /// layout asks for no columns or no rows, and where the buffers for the
    /// derived grid cannot be addressed on this machine.
    pub fn render_image(&self, image: &Raster, layout: LayoutPolicy, options: &AsciiOptions) -> (out:
        Result<RenderOutput, AsciiError>)
        requires
            image.wf(),
            layout.wf(),
            options.wf(),
        ensures
            is_render_of(out, *image, layout, options@),
            out is Ok ==> out->Ok_0.grid.wf() && out->Ok_0.geometry.is_present(),
    {
        let geometry = match layout.derive(image.width, image.height, options.font_aspect) {
            Some(geometry) => geometry,
            None => {
                return Err(AsciiError::InvalidLayout);
            },
        };
        if !image.resamples_to(geometry.columns, geometry.rows) {
            return Err(AsciiError::InvalidLayout);
        }
        let resized = image.resize_exact(geometry.columns, geometry.rows);
        let grid = compose(&resized, options);
        Ok(RenderOutput { grid, geometry, assumed_font_aspect: options.font_aspect })
    }
}

/// Where addresses have sixty-four bits, every source with pixels is
/// rendered under every layout that asks for cells: rendering fails exactly
/// for a source without pixels or a layout without cells.
pub proof fn lemma_render_fails_only_without_cells(
    width: u32,
    height: u32,
    layout: LayoutPolicy,
    options: OptionsView,
)
    requires
        isize::MAX >= 0x7fff_ffff_ffff_ffff,
    ensures
        render_geometry(width, height, layout, options) is Some <==> width > 0 && height > 0
            && layout.has_cells(),
{
    let derived = layout.derive_spec(width, height, options.font_aspect);
    if derived is Some {
        let geometry = derived->0;
        assert(geometry.columns > 0 && geometry.rows > 0);
        assert(16 * width * geometry.rows <= 16 * 0xffff_ffff * 0xffff) by (nonlinear_arith)
            requires
                0 <= width <= 0xffff_ffff,
                0 <= geometry.rows <= 0xffff,
        ;
        assert(4 * geometry.columns * geometry.rows <= 4 * 0xffff * 0xffff) by (nonlinear_arith)
            requires
                0 <= geometry.columns <= 0xffff,
                0 <= geometry.rows <= 0xffff,
        ;
    }
}

/// Rendering is a function of its arguments: two results for the same
/// raster, layout and options show the same grid at the same geometry.
pub proof fn lemma_render_is_deterministic(
    first: Result<RenderOutput, AsciiError>,
    second: Result<RenderOutput, AsciiError>,
    image: Raster,
    layout: LayoutPolicy,
    options: OptionsView,
)
    requires
        is_render_of(first, image, layout, options),
        is_render_of(second, image, layout, options),
    ensures
        first is Ok <==> second is Ok,
        first is Ok ==> {
            &&& first->Ok_0.geometry == second->Ok_0.geometry
            &&& first->Ok_0.grid.width == second->Ok_0.grid.width
            &&& first->Ok_0.grid.height == second->Ok_0.grid.height
            &&& first->Ok_0.grid.cells@ == second->Ok_0.grid.cells@
        },
        first is Err ==> first->Err_0 == second->Err_0,
{
}

} // verus!
