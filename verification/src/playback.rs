//! The playback controller: renders the source frames for a viewport, keeps
//! the clock of the animation and hands the visible cells to the host.

use vstd::prelude::*;
use vstd::slice::slice_subrange;
use crate::grid::{lemma_cell_position, lemma_stride_fits, CellGlyph, GlyphFrameSeries, GlyphGrid};
use crate::layout::{CellAspect, LayoutPolicy};
use crate::raster::{Raster, SourceFrame};
use crate::render::{
    render_geometry,
    rendered_at,
    AsciiOptions,
    AsciiRenderer,
    ColorMode,
    OptionsView,
};

verus! {

/// The delay, in nanoseconds, of a frame that names none: 120 milliseconds.
pub const ADVANCE_INTERVAL: u64 = 120_000_000;

/// The host's text surface: its size in cells and the size of one cell in
/// pixels.
#[derive(Clone, Copy, Debug)]
pub struct Viewport {
    pub columns: usize,
    pub screen_lines: usize,
    pub cell_width: u32,
    pub cell_height: u32,
}

/// Where the animation comes from and how its cells are colored.
#[derive(Clone, Debug)]
pub struct BackgroundAnimationConfig {
    pub path: String,
    pub color_mode: ColorMode,
}

/// One cell as the host displays it.
#[derive(Clone, Copy, Debug)]
pub struct HostCell {
    pub character: char,
    pub line: usize,
    pub column: usize,
    pub fg: [u8; 3],
    pub bg: [u8; 3],
    /// Opacity of the background: the full scale or zero.
    pub bg_alpha: u16,
    pub underline: [u8; 3],
    pub dim: bool,
}

/// The size and the cells of a grid.
pub struct GridShape {
    pub width: u16,
    pub height: u16,
    pub cells: Seq<CellGlyph>,
}

/// The size of a grid in cells.
#[derive(Clone, Copy, Debug)]
pub struct GridSize {
    pub width: u16,
    pub height: u16,
}

/// The series of a rendered volume.
pub open spec fn series_of(pair: (GlyphFrameSeries, Vec<u64>)) -> GlyphFrameSeries {
    pair.0
}

/// The delays of a rendered volume.
pub open spec fn timing_of(pair: (GlyphFrameSeries, Vec<u64>)) -> Seq<u64> {
    pair.1@
}

/// `value` limited to the largest dimension of a grid.
pub open spec fn limit_of(value: usize) -> u16 {
    if value > 65535 {
        65535u16
    } else {
        value as u16
    }
}

impl Viewport {
    /// The width over the height of one cell, or one where either is zero.
    pub open spec fn cell_aspect_spec(&self) -> CellAspect {
        if self.cell_width > 0 && self.cell_height > 0 {
            CellAspect { numerator: self.cell_width, denominator: self.cell_height }
        } else {
            CellAspect { numerator: 1, denominator: 1 }
        }
    }

    /// The layout that fits a grid into the viewport.
    pub open spec fn layout_spec(&self) -> LayoutPolicy {
        LayoutPolicy::FitViewport {
            columns: limit_of(self.columns),
            rows: limit_of(self.screen_lines),
            cell_aspect: self.cell_aspect_spec(),
        }
    }

    pub fn cell_aspect(&self) -> (out: CellAspect)
        ensures
            out == self.cell_aspect_spec(),
            out.is_positive(),
    {
        if self.cell_width > 0 && self.cell_height > 0 {
            CellAspect::new(self.cell_width, self.cell_height)
        } else {
            CellAspect::square()
        }
    }
}

/// The options that the controller renders with.
pub open spec fn playback_options(color_mode: ColorMode) -> OptionsView {
    OptionsView { color_mode, ..AsciiOptions::default_view() }
}

/// The size and the cells of a rendered grid, if there is one.
pub open spec fn shape_of(candidate: Option<GlyphGrid>) -> Option<GridShape> {
    match candidate {
        Some(grid) => Some(GridShape { width: grid.width, height: grid.height, cells: grid.cells@ }),
        None => None,
    }
}

/// The shapes of a sequence of rendered grids.
pub open spec fn shapes_of(candidates: Seq<Option<GlyphGrid>>) -> Seq<Option<GridShape>> {
    Seq::new(candidates.len(), |i: int| shape_of(candidates[i]))
}

/// What rendering `image` gives: nothing where it has no geometry, else the
/// grid at that geometry.
pub open spec fn rendered_shape(
    image: Raster,
    layout: LayoutPolicy,
    options: OptionsView,
) -> Option<GridShape> {
    match render_geometry(image.width, image.height, layout, options) {
        Some(geometry) => Some(
            GridShape {
                width: geometry.columns,
                height: geometry.rows,
                cells: rendered_at(image, geometry, options),
            },
        ),
        None => None,
    }
}

/// What rendering each source frame for `viewport` gives.
pub open spec fn viewport_shapes(
    viewport: Viewport,
    frames: Seq<SourceFrame>,
    color_mode: ColorMode,
) -> Seq<Option<GridShape>> {
    Seq::new(
        frames.len(),
        |i: int|
            rendered_shape(frames[i].image, viewport.layout_spec(), playback_options(color_mode)),
    )
}

/// Every frame's raster is well formed.
pub open spec fn frames_wf(frames: Seq<SourceFrame>) -> bool {
    forall|i: int| 0 <= i < frames.len() ==> (#[trigger] frames[i]).image.wf()
}

/// The delays of a sequence of source frames.
pub open spec fn delays_of(frames: Seq<SourceFrame>) -> Seq<u64> {
    Seq::new(frames.len(), |i: int| frames[i].delay)
}

/// A frame was rendered and its grid has cells.
pub open spec fn is_usable(shape: Option<GridShape>) -> bool {
    shape is Some && shape->0.width > 0 && shape->0.height > 0
}

/// The size of the first usable frame among the first `upto`.
pub open spec fn anchor(shapes: Seq<Option<GridShape>>, upto: int) -> Option<GridSize>
    decreases upto,
{
    if upto <= 0 {
        None
    } else {
        match anchor(shapes, upto - 1) {
            Some(size) => Some(size),
            None => if is_usable(shapes[upto - 1]) {
                Some(GridSize { width: shapes[upto - 1]->0.width, height: shapes[upto - 1]->0.height })
            } else {
                None
            },
        }
    }
}

/// Frame `index` is kept: it is usable and has the size of the first usable
/// frame.
pub open spec fn keeps(shapes: Seq<Option<GridShape>>, index: int) -> bool {
    is_usable(shapes[index]) && anchor(shapes, index + 1) == Some(
        GridSize { width: shapes[index]->0.width, height: shapes[index]->0.height },
    )
}

/// The cells of the kept frames among the first `upto`, frame after frame.
pub open spec fn kept_cells(shapes: Seq<Option<GridShape>>, upto: int) -> Seq<CellGlyph>
    decreases upto,
{
    if upto <= 0 {
        Seq::empty()
    } else if keeps(shapes, upto - 1) {
        kept_cells(shapes, upto - 1) + shapes[upto - 1]->0.cells
    } else {
        kept_cells(shapes, upto - 1)
    }
}

/// The delays of the kept frames among the first `upto`.
pub open spec fn kept_delays(shapes: Seq<Option<GridShape>>, delays: Seq<u64>, upto: int) -> Seq<
    u64,
>
    decreases upto,
{
    if upto <= 0 {
        Seq::empty()
    } else if keeps(shapes, upto - 1) {
        kept_delays(shapes, delays, upto - 1).push(delays[upto - 1])
    } else {
        kept_delays(shapes, delays, upto - 1)
    }
}

/// `volume` and `kept` hold exactly the kept frames of `shapes` and their
/// delays, at the size of the first usable frame.
pub open spec fn is_volume_of(
    volume: GlyphFrameSeries,
    kept: Seq<u64>,
    shapes: Seq<Option<GridShape>>,
    delays: Seq<u64>,
) -> bool {
    let count = shapes.len() as int;
    &&& anchor(shapes, count) == Some(GridSize { width: volume.width, height: volume.height })
    &&& volume.cells@ == kept_cells(shapes, count)
    &&& kept == kept_delays(shapes, delays, count)
    &&& volume.frame_count == kept.len()
}

/// Appends the items of `more` to `cells`.
fn append_cells(cells: &mut Vec<CellGlyph>, more: &Vec<CellGlyph>)
    ensures
        final(cells)@ == old(cells)@ + more@,
{
    let count = more.len();
    let mut i: usize = 0;
    while i < count
        invariant
            count == more@.len(),
            i <= count,
            cells@ == old(cells)@ + more@.subrange(0, i as int),
        decreases count - i,
    {
        cells.push(more[i]);
        assert(cells@ =~= old(cells)@ + more@.subrange(0, i + 1));
        i += 1;
    }
    assert(more@.subrange(0, count as int) =~= more@);
}

/// Stacks the rendered frames into one series. The first frame that was
/// rendered and has cells sets the size; frames that were not rendered, have
/// no cells or have another size are dropped with their delays. Nothing is
/// returned where no frame is kept.
pub fn assemble(candidates: &Vec<Option<GlyphGrid>>, delays: &Vec<u64>) -> (out: Option<
    (GlyphFrameSeries, Vec<u64>),
>)
    requires
        candidates@.len() == delays@.len(),
        forall|i: int|
            0 <= i < candidates@.len() && (#[trigger] candidates@[i]) is Some
                ==> candidates@[i]->0.wf(),
    ensures
        out is Some <==> anchor(shapes_of(candidates@), candidates@.len() as int) is Some,
        out is Some ==> is_volume_of(
            series_of(out->0),
            timing_of(out->0),
            shapes_of(candidates@),
            delays@,
        ),
        out is Some ==> series_of(out->0).wf() && series_of(out->0).frame_count > 0 && series_of(
            out->0,
        ).width > 0 && series_of(out->0).height > 0 && series_of(out->0).cells@.len() > 0,
{
    let ghost shapes = shapes_of(candidates@);
    let count = candidates.len();
    let mut size: Option<GridSize> = None;
    let mut kept: Vec<u64> = Vec::new();
    let mut cells: Vec<CellGlyph> = Vec::new();
    let mut i: usize = 0;
    while i < count
        invariant
            shapes == shapes_of(candidates@),
            count == candidates@.len(),
            count == delays@.len(),
            forall|k: int|
                0 <= k < candidates@.len() && (#[trigger] candidates@[k]) is Some
                    ==> candidates@[k]->0.wf(),
            i <= count,
            size == anchor(shapes, i as int),
            cells@ == kept_cells(shapes, i as int),
            kept@ == kept_delays(shapes, delays@, i as int),
            size is None ==> cells@.len() == 0 && kept@.len() == 0,
            size is Some ==> size->0.width > 0 && size->0.height > 0 && kept@.len() > 0
                && cells@.len() == size->0.width * size->0.height * kept@.len(),
        decreases count - i,
    {
        assert(shapes[i as int] == shape_of(candidates@[i as int]));
        match &candidates[i] {
            Some(grid) => {
                if grid.width > 0 && grid.height > 0 {
                    let fits = match size {
                        Some(anchored) => anchored.width == grid.width && anchored.height
                            == grid.height,
                        None => true,
                    };
                    if fits {
                        let ghost before = cells@.len();
                        let ghost frames = kept@.len();
                        size = Some(GridSize { width: grid.width, height: grid.height });
                        kept.push(delays[i]);
                        append_cells(&mut cells, &grid.cells);
                        assert(grid.width * grid.height * (frames + 1) == grid.width * grid.height
                            * frames + grid.width * grid.height) by (nonlinear_arith);
                        assert(grid.width * grid.height * 0 == 0) by (nonlinear_arith);
                    }
                }
            },
            None => {},
        }
        i += 1;
    }
    match size {
        Some(anchored) => {
            let width = anchored.width;
            let height = anchored.height;
            let frame_count = kept.len();
            assert(width * height > 0) by (nonlinear_arith)
                requires
                    width > 0,
                    height > 0,
            ;
            assert(cells@.len() >= width * height) by (nonlinear_arith)
                requires
                    cells@.len() == width * height * frame_count,
                    frame_count > 0,
                    width * height > 0,
            ;
            Some((GlyphFrameSeries::new(width, height, frame_count, cells), kept))
        },
        None => None,
    }
}

/// The host cell for a glyph cell at a position: the glyph's character and
/// color, the glyph's background at full opacity or the host's at none, the
/// underline in the glyph's color, and dimmed.
pub open spec fn host_cell(
    cell: CellGlyph,
    line: int,
    column: int,
    default_background: [u8; 3],
) -> HostCell {
    HostCell {
        character: cell.ch,
        line: line as usize,
        column: column as usize,
        fg: cell.fg,
        bg: match cell.bg {
            Some(color) => color,
            None => default_background,
        },
        bg_alpha: if cell.bg is Some {
            65535
        } else {
            0
        },
        underline: cell.fg,
        dim: true,
    }
}

/// `lower` where it is the smaller of the two.
pub open spec fn min_of(lower: int, upper: int) -> int {
    if lower < upper {
        lower
    } else {
        upper
    }
}

/// An animated glyph grid behind the host's text.
#[derive(Debug)]
pub struct BackgroundAnimation {
    volume: GlyphFrameSeries,
    current_frame_index: usize,
    last_update: u64,
    needs_full_redraw: bool,
    source_frames: Vec<SourceFrame>,
    frame_delays: Vec<u64>,
    color_mode: ColorMode,
}

impl BackgroundAnimation {
    /// The rendered frames.
    pub closed spec fn volume(&self) -> GlyphFrameSeries {
        self.volume
    }

    /// The index of the frame on display.
    pub closed spec fn current_index(&self) -> usize {
        self.current_frame_index
    }

    /// When the frame on display was first shown.
    pub closed spec fn last_advance(&self) -> u64 {
        self.last_update
    }

    /// Whether the host has to repaint everything.
    pub closed spec fn redraw_pending(&self) -> bool {
        self.needs_full_redraw
    }

    /// The decoded frames that every geometry is rendered from.
    pub closed spec fn sources(&self) -> Seq<SourceFrame> {
        self.source_frames@
    }

    /// The delay of each rendered frame.
    pub closed spec fn delays(&self) -> Seq<u64> {
        self.frame_delays@
    }

    /// How cells are colored.
    pub closed spec fn mode(&self) -> ColorMode {
        self.color_mode
    }

    /// The rendered frames are well formed, each has its delay, the cursor
    /// points at one of them, and the source frames are well formed.
    pub open spec fn wf(&self) -> bool {
        &&& self.volume().wf()
        &&& self.delays().len() == self.volume().frame_count
        &&& (self.current_index() < self.volume().frame_count || self.current_index() == 0)
        &&& frames_wf(self.sources())
    }

    /// There is something to draw: the viewport and the rendered frames both
    /// have cells.
    pub open spec fn is_active_spec(&self, viewport: Viewport) -> bool {
        &&& viewport.columns > 0
        &&& viewport.screen_lines > 0
        &&& self.volume().width > 0
        &&& self.volume().height > 0
        &&& self.volume().frame_count > 0
        &&& self.volume().cells@.len() > 0
    }

    /// The delay of the frame on display: 120 milliseconds where no delay is
    /// kept or the frame's own is zero.
    pub open spec fn current_delay_spec(&self) -> u64 {
        if self.delays().len() == 0 {
            ADVANCE_INTERVAL
        } else {
            let delay = self.delays()[min_of(
                self.current_index() as int,
                self.delays().len() - 1,
            )];
            if delay == 0 {
                ADVANCE_INTERVAL
            } else {
                delay
            }
        }
    }

    /// The frame after the one on display, looping; the same where there is
    /// at most one frame.
    pub open spec fn next_index_spec(&self) -> int {
        if self.volume().frame_count <= 1 {
            self.current_index() as int
        } else {
            (self.current_index() + 1) % (self.volume().frame_count as int)
        }
    }

    /// The cells of the frame on display, or none where there is no frame.
    pub open spec fn current_cells_spec(&self) -> Seq<CellGlyph> {
        if self.current_index() < self.volume().frame_count {
            self.volume().frame_cells(self.current_index() as int)
        } else {
            Seq::empty()
        }
    }

    /// The rendered frames and delays are those of the source frames at
    /// `viewport`, or empty where there are none.
    pub open spec fn shows(&self, viewport: Viewport) -> bool {
        let shapes = viewport_shapes(viewport, self.sources(), self.mode());
        if viewport.columns > 0 && viewport.screen_lines > 0 && anchor(
            shapes,
            shapes.len() as int,
        ) is Some {
            is_volume_of(self.volume(), self.delays(), shapes, delays_of(self.sources()))
        } else {
            &&& self.volume().width == 0
            &&& self.volume().height == 0
            &&& self.volume().frame_count == 0
            &&& self.volume().cells@.len() == 0
            &&& self.delays().len() == 0
        }
    }

    /// A controller over `frames` at `viewport`, created at time `now`.
    /// Nothing is returned where no frame can be rendered.
    pub fn new(
        viewport: &Viewport,
        config: &BackgroundAnimationConfig,
        frames: Vec<SourceFrame>,
        now: u64,
    ) -> (out: Option<Self>)
        requires
            frames_wf(frames@),
        ensures
            out is Some <==> viewport.columns > 0 && viewport.screen_lines > 0 && anchor(
                viewport_shapes(*viewport, frames@, config.color_mode),
                frames@.len() as int,
            ) is Some,
            out is Some ==> {
                &&& out->0.wf()
                &&& out->0.sources() == frames@
                &&& out->0.mode() == config.color_mode
                &&& out->0.shows(*viewport)
                &&& out->0.current_index() == 0
                &&& out->0.last_advance() == now
                &&& out->0.redraw_pending()
                &&& out->0.is_active_spec(*viewport)
            },
    {
        if frames.len() == 0 {
            return None;
        }
        match Self::create_volume(viewport, &frames, config.color_mode) {
            Some((volume, frame_delays)) => Some(
                BackgroundAnimation {
                    volume,
                    current_frame_index: 0,
                    last_update: now,
                    needs_full_redraw: true,
                    source_frames: frames,
                    frame_delays,
                    color_mode: config.color_mode,
                },
            ),
            None => None,
        }
    }

    /// Renders the source frames again for `viewport`, at time `now`. The
    /// cursor returns to the first frame and a full repaint is requested,
    /// whatever the result.
    pub fn on_resize(&mut self, viewport: &Viewport, now: u64)
        requires
            old(self).wf(),
        ensures
            final(self).wf(),
            final(self).sources() == old(self).sources(),
            final(self).mode() == old(self).mode(),
            final(self).shows(*viewport),
            final(self).current_index() == 0,
            final(self).last_advance() == now,
            final(self).redraw_pending(),
            viewport.columns == 0 || viewport.screen_lines == 0 ==> !final(self).is_active_spec(
                *viewport,
            ),
    {
        match Self::create_volume(viewport, &self.source_frames, self.color_mode) {
            Some((volume, frame_delays)) => {
                self.volume = volume;
                self.frame_delays = frame_delays;
            },
            None => {
                self.volume = GlyphFrameSeries::new(0, 0, 0, Vec::new());
                self.frame_delays.clear();
            },
        }
        self.current_frame_index = 0;
        self.last_update = now;
        self.needs_full_redraw = true;
    }

    /// One tick of the host at time `now`. Reports whether the host has to
    /// repaint. Nothing happens while there is nothing to draw. A pending
    /// full repaint is served first and starts the current frame's time.
    /// Otherwise the next frame is shown once the current frame's delay has
    /// passed.
    pub fn update(&mut self, now: u64, viewport: &Viewport) -> (out: bool)
        requires
            old(self).wf(),
        ensures
            final(self).wf(),
            final(self).volume() == old(self).volume(),
            final(self).delays() == old(self).delays(),
            final(self).sources() == old(self).sources(),
            final(self).mode() == old(self).mode(),
            !old(self).is_active_spec(*viewport) ==> {
                &&& !out
                &&& final(self).current_index() == old(self).current_index()
                &&& final(self).last_advance() == old(self).last_advance()
                &&& final(self).redraw_pending() == old(self).redraw_pending()
            },
            old(self).is_active_spec(*viewport) && old(self).redraw_pending() ==> {
                &&& out
                &&& final(self).current_index() == old(self).current_index()
                &&& final(self).last_advance() == now
                &&& !final(self).redraw_pending()
            },
            old(self).is_active_spec(*viewport) && !old(self).redraw_pending() && now - old(
                self,
            ).last_advance() < old(self).current_delay_spec() ==> {
                &&& !out
                &&& final(self).current_index() == old(self).current_index()
                &&& final(self).last_advance() == old(self).last_advance()
                &&& !final(self).redraw_pending()
            },
            old(self).is_active_spec(*viewport) && !old(self).redraw_pending() && now - old(
                self,
            ).last_advance() >= old(self).current_delay_spec() ==> {
                &&& out
                &&& final(self).current_index() == old(self).next_index_spec()
                &&& final(self).last_advance() == now
                &&& !final(self).redraw_pending()
            },
    {
        if !self.is_active(viewport) {
            return false;
        }
        if self.needs_full_redraw {
            self.needs_full_redraw = false;
            self.last_update = now;
            return true;
        }
        let elapsed: u64 = if now >= self.last_update {
            now - self.last_update
        } else {
            0
        };
        if elapsed < self.current_frame_delay() {
            return false;
        }
        self.last_update = now;
        self.advance_frame();
        true
    }

    /// Appends to `out` the cells of the frame on display that lie inside the
    /// viewport, line by line. Nothing is appended while there is nothing to
    /// draw.
    pub fn render_cells(
        &self,
        default_background: [u8; 3],
        viewport: &Viewport,
        out: &mut Vec<HostCell>,
    )
        requires
            self.wf(),
        ensures
            final(out)@.len() >= old(out)@.len(),
            final(out)@.subrange(0, old(out)@.len() as int) == old(out)@,
            !self.is_active_spec(*viewport) || self.current_cells_spec().len() == 0 ==> final(out)@
                == old(out)@,
            self.is_active_spec(*viewport) && self.current_cells_spec().len() > 0 ==> {
                let columns = min_of(viewport.columns as int, self.volume().width as int);
                let lines = min_of(viewport.screen_lines as int, self.volume().height as int);
                &&& final(out)@.len() == old(out)@.len() + lines * columns
                &&& forall|line: int, column: int|
                    0 <= line < lines && 0 <= column < columns ==> #[trigger] final(out)@[old(
                        out,
                    )@.len() + line * columns + column] == host_cell(
                        self.current_cells_spec()[line * self.volume().width + column],
                        line,
                        column,
                        default_background,
                    )
            },
    {
        if !self.is_active(viewport) {
            assert(out@.subrange(0, out@.len() as int) =~= out@);
            return;
        }
        let width: usize = self.volume.width as usize;
        let height: usize = self.volume.height as usize;
        let visible_columns: usize = if viewport.columns < width {
            viewport.columns
        } else {
            width
        };
        let visible_lines: usize = if viewport.screen_lines < height {
            viewport.screen_lines
        } else {
            height
        };
        let frame_cells = self.current_frame_cells();
        if frame_cells.len() == 0 {
            assert(out@.subrange(0, out@.len() as int) =~= out@);
            return;
        }
        proof {
            lemma_stride_fits(self.volume.width, self.volume.height);
            let index = self.current_frame_index as int;
            let stride = self.volume.stride();
            assert(0 <= index * stride && index * stride + stride <= stride
                * self.volume.frame_count) by (nonlinear_arith)
                requires
                    0 <= index < self.volume.frame_count,
                    0 <= stride,
            ;
            assert(frame_cells@.len() == width * height);
        }
        let ghost start = out@.len();
        let ghost initial = out@;
        let mut line: usize = 0;
        while line < visible_lines
            invariant
                frame_cells@ == self.current_cells_spec(),
                frame_cells@.len() == width * height,
                width == self.volume().width,
                0 < visible_columns <= width,
                visible_lines <= height,
                line <= visible_lines,
                initial == old(out)@,
                start == initial.len(),
                out@.len() == start + line * visible_columns,
                out@.subrange(0, start as int) == initial,
                forall|l: int, c: int|
                    0 <= l < line && 0 <= c < visible_columns ==> #[trigger] out@[start + l
                        * visible_columns + c] == host_cell(
                        frame_cells@[l * width + c],
                        l,
                        c,
                        default_background,
                    ),
            decreases visible_lines - line,
        {
            let ghost before = out@;
            let mut column: usize = 0;
            while column < visible_columns
                invariant
                    frame_cells@.len() == width * height,
                    0 < visible_columns <= width,
                    visible_lines <= height,
                    line < visible_lines,
                    column <= visible_columns,
                    before.len() == start + line * visible_columns,
                    out@.len() == before.len() + column,
                    out@.subrange(0, before.len() as int) == before,
                    forall|c: int|
                        0 <= c < column ==> #[trigger] out@[before.len() + c] == host_cell(
                            frame_cells@[line * width + c],
                            line as int,
                            c,
                            default_background,
                        ),
                decreases visible_columns - column,
            {
                proof {
                    lemma_cell_position(line as int, column as int, width as int, height as int);
                }
                let total = frame_cells.len();
                let cell = frame_cells[line * width + column];
                let (bg, bg_alpha): ([u8; 3], u16) = match cell.bg {
                    Some(color) => (color, 65535),
                    None => (default_background, 0),
                };
                let ghost prior = out@;
                out.push(
                    HostCell {
                        character: cell.ch,
                        line,
                        column,
                        fg: cell.fg,
                        bg,
                        bg_alpha,
                        underline: cell.fg,
                        dim: true,
                    },
                );
                proof {
                    assert(out@.subrange(0, before.len() as int) =~= prior.subrange(
                        0,
                        before.len() as int,
                    ));
                    assert forall|c: int| 0 <= c < column + 1 implies #[trigger] out@[before.len()
                        + c] == host_cell(
                        frame_cells@[line * width + c],
                        line as int,
                        c,
                        default_background,
                    ) by {
                        if c < column {
                            assert(out@[before.len() + c] == prior[before.len() + c]);
                        }
                    }
                }
                column += 1;
            }
            proof {
                assert((line + 1) * visible_columns == line * visible_columns + visible_columns)
                    by (nonlinear_arith);
                assert(out@.subrange(0, start as int) =~= before.subrange(0, start as int));
                assert forall|l: int, c: int|
                    0 <= l < line + 1 && 0 <= c < visible_columns implies #[trigger] out@[start + l
                    * visible_columns + c] == host_cell(
                    frame_cells@[l * width + c],
                    l,
                    c,
                    default_background,
                ) by {
                    if l < line {
                        lemma_cell_position(l, c, visible_columns as int, line as int);
                        assert(out@[start + l * visible_columns + c] == out@.subrange(
                            0,
                            before.len() as int,
                        )[start + l * visible_columns + c]);
                    } else {
                        assert(out@[before.len() + c] == host_cell(
                            frame_cells@[line * width + c],
                            line as int,
                            c,
                            default_background,
                        ));
                    }
                }
            }
            line += 1;
        }
    }

    /// Whether there is something to draw at `viewport`.
    pub fn is_active(&self, viewport: &Viewport) -> (out: bool)
        ensures
            out == self.is_active_spec(*viewport),
    {
        viewport.columns > 0 && viewport.screen_lines > 0 && self.volume.width > 0
            && self.volume.height > 0 && self.volume.frame_count() > 0 && !self.volume.is_empty()
    }

    /// Moves the cursor to the next frame, looping.
    fn advance_frame(&mut self)
        requires
            old(self).wf(),
        ensures
            final(self).wf(),
            final(self).current_index() == old(self).next_index_spec(),
            final(self).volume() == old(self).volume(),
            final(self).delays() == old(self).delays(),
            final(self).sources() == old(self).sources(),
            final(self).mode() == old(self).mode(),
            final(self).last_advance() == old(self).last_advance(),
            final(self).redraw_pending() == old(self).redraw_pending(),
    {
        let count = self.volume.frame_count();
        if count <= 1 {
            return;
        }
        let next: usize = if self.current_frame_index + 1 >= count {
            proof {
                vstd::arithmetic::div_mod::lemma_mod_self_0(count as int);
            }
            0
        } else {
            proof {
                vstd::arithmetic::div_mod::lemma_small_mod(
                    (self.current_frame_index + 1) as nat,
                    count as nat,
                );
            }
            self.current_frame_index + 1
        };
        self.current_frame_index = next;
    }

    /// The cells of the frame on display, or none where there is no frame.
    pub fn current_frame_cells(&self) -> (out: &[CellGlyph])
        requires
            self.wf(),
        ensures
            out@ == self.current_cells_spec(),
    {
        match self.volume.frame(self.current_frame_index) {
            Some(cells) => cells,
            None => {
                let nothing = slice_subrange(self.volume.cells.as_slice(), 0, 0);
                assert(nothing@ =~= Seq::<CellGlyph>::empty());
                nothing
            },
        }
    }

    /// Renders every source frame for `viewport` and stacks the results.
    /// Nothing is returned where the viewport has no cells or no frame is
    /// kept.
    pub fn create_volume(viewport: &Viewport, frames: &Vec<SourceFrame>, color_mode: ColorMode) -> (out:
        Option<(GlyphFrameSeries, Vec<u64>)>)
        requires
            frames_wf(frames@),
        ensures
            out is Some <==> viewport.columns > 0 && viewport.screen_lines > 0 && anchor(
                viewport_shapes(*viewport, frames@, color_mode),
                frames@.len() as int,
            ) is Some,
            out is Some ==> is_volume_of(
                series_of(out->0),
                timing_of(out->0),
                viewport_shapes(*viewport, frames@, color_mode),
                delays_of(frames@),
            ),
            out is Some ==> series_of(out->0).wf() && series_of(out->0).frame_count > 0
                && series_of(out->0).width > 0 && series_of(out->0).height > 0 && series_of(
                out->0,
            ).cells@.len() > 0,
    {
        let count = frames.len();
        if count == 0 {
            return None;
        }
        let columns_limit: u16 = if viewport.columns > 65535 {
            65535
        } else {
            viewport.columns as u16
        };
        let rows_limit: u16 = if viewport.screen_lines > 65535 {
            65535
        } else {
            viewport.screen_lines as u16
        };
        if columns_limit == 0 || rows_limit == 0 {
            return None;
        }
        let layout = LayoutPolicy::FitViewport {
            columns: columns_limit,
            rows: rows_limit,
            cell_aspect: viewport.cell_aspect(),
        };
        let renderer = AsciiRenderer;
        let mut options = AsciiOptions::default();
        options.color_mode = color_mode;
        let ghost shapes = viewport_shapes(*viewport, frames@, color_mode);
        let mut candidates: Vec<Option<GlyphGrid>> = Vec::new();
        let mut delays: Vec<u64> = Vec::new();
        let mut i: usize = 0;
        while i < count
            invariant
                count == frames@.len(),
                frames_wf(frames@),
                layout == viewport.layout_spec(),
                layout.wf(),
                options.wf(),
                options@ == playback_options(color_mode),
                shapes == viewport_shapes(*viewport, frames@, color_mode),
                i <= count,
                candidates@.len() == i,
                delays@.len() == i,
                forall|k: int| 0 <= k < i ==> shape_of(#[trigger] candidates@[k]) == shapes[k],
                forall|k: int|
                    0 <= k < i && (#[trigger] candidates@[k]) is Some ==> candidates@[k]->0.wf(),
                forall|k: int| 0 <= k < i ==> #[trigger] delays@[k] == frames@[k].delay,
            decreases count - i,
        {
            let frame = &frames[i];
            let candidate = match renderer.render_image(&frame.image, layout, &options) {
                Ok(output) => Some(output.grid),
                Err(_) => None,
            };
            candidates.push(candidate);
            delays.push(frame.delay);
            i += 1;
        }
        assert(shapes_of(candidates@) =~= shapes);
        assert(delays@ =~= delays_of(frames@));
        assemble(&candidates, &delays)
    }

    /// The delay of the frame on display: 120 milliseconds where no delay is
    /// kept or the frame's own is zero.
    pub fn current_frame_delay(&self) -> (out: u64)
        requires
            self.wf(),
        ensures
            out == self.current_delay_spec(),
            out > 0,
            self.delays().len() == 0 ==> out == ADVANCE_INTERVAL,
            self.current_index() < self.delays().len() ==> out == if self.delays()[self.current_index() as int]
                == 0 {
                ADVANCE_INTERVAL
            } else {
                self.delays()[self.current_index() as int]
            },
    {
        if self.frame_delays.len() == 0 {
            return ADVANCE_INTERVAL;
        }
        let last = self.frame_delays.len() - 1;
        let index = if self.current_frame_index < last {
            self.current_frame_index
        } else {
            last
        };
        let delay = self.frame_delays[index];
        if delay == 0 {
            ADVANCE_INTERVAL
        } else {
            delay
        }
    }
}

/// A frame whose own delay is zero is shown for 120 milliseconds.
pub proof fn lemma_zero_delay_falls_back(animation: BackgroundAnimation)
    requires
        animation.wf(),
        animation.current_index() < animation.delays().len(),
        animation.delays()[animation.current_index() as int] == 0,
    ensures
        animation.current_delay_spec() == ADVANCE_INTERVAL,
{
}

} // verus!
