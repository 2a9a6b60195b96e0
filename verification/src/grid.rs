//! Glyph cells, the grid of one rendered frame, and a stack of such grids.

use vstd::prelude::*;
use vstd::slice::slice_subrange;
use crate::fixed::round_div;

verus! {

/// `String::push` appends one character to the string.
pub assume_specification[ String::push ](text: &mut String, ch: char)
    ensures
        final(text)@ == old(text)@.push(ch),
;

/// The eight-bit gray level nearest to a normalized value.
pub open spec fn gray_level(intensity: u16) -> int {
    round_div(intensity as int * 255, 65535)
}

/// One styled character cell. `alpha` is a fraction of the full scale.
#[derive(Clone, Copy, Debug)]
pub struct CellGlyph {
    pub ch: char,
    /// Foreground color as red, green and blue.
    pub fg: [u8; 3],
    /// Background color as red, green and blue, where the cell has one.
    pub bg: Option<[u8; 3]>,
    /// Opacity of the glyph's color: the full scale is fully opaque.
    pub alpha: u16,
}

impl CellGlyph {
    /// The opaque cell that shows `ch` in the gray of `intensity`, with no
    /// background.
    pub open spec fn shaded(ch: char, intensity: u16) -> CellGlyph {
        let level = gray_level(intensity) as u8;
        CellGlyph { ch, fg: [level, level, level], bg: None, alpha: 65535 }
    }

    pub fn new(ch: char, intensity: u16) -> (out: Self)
        ensures
            out == Self::shaded(ch, intensity),
            0 <= gray_level(intensity) <= 255,
    {
        let scaled: u32 = intensity as u32 * 255;
        let level: u8 = ((2 * scaled + 65535) / 131070) as u8;
        CellGlyph { ch, fg: [level, level, level], bg: None, alpha: 65535 }
    }
}

/// The cells of one frame in row-major order.
#[derive(Clone, Debug)]
pub struct GlyphGrid {
    pub width: u16,
    pub height: u16,
    pub cells: Vec<CellGlyph>,
}

impl GlyphGrid {
    /// There is exactly one cell for each position.
    pub open spec fn wf(&self) -> bool {
        self.cells@.len() == self.width * self.height
    }

    /// The characters of row `row`, in column order.
    pub open spec fn row_text(&self, row: int) -> Seq<char> {
        Seq::new(self.width as nat, |column: int| self.cells@[row * self.width + column].ch)
    }

    /// The rows of the grid as text: none where the grid has no columns.
    pub open spec fn text(&self) -> Seq<Seq<char>> {
        if self.width == 0 {
            Seq::empty()
        } else {
            Seq::new(self.height as nat, |row: int| self.row_text(row))
        }
    }

    pub fn new(width: u16, height: u16, cells: Vec<CellGlyph>) -> (out: Self)
        requires
            cells@.len() == width * height,
        ensures
            out.width == width,
            out.height == height,
            out.cells == cells,
            out.wf(),
    {
        GlyphGrid { width, height, cells }
    }

    /// Each row of the grid as one line of its characters, top to bottom.
    pub fn rows(&self) -> (out: Vec<String>)
        requires
            self.wf(),
        ensures
            out@.len() == self.text().len(),
            forall|row: int| 0 <= row < out@.len() ==> (#[trigger] out@[row])@ == self.text()[row],
    {
        let mut lines: Vec<String> = Vec::new();
        if self.width == 0 {
            return lines;
        }
        let width: usize = self.width as usize;
        let height: usize = self.height as usize;
        let total: usize = self.cells.len();
        let mut row: usize = 0;
        while row < height
            invariant
                self.wf(),
                total == self.cells@.len(),
                width == self.width,
                height == self.height,
                width > 0,
                row <= height,
                lines@.len() == row,
                forall|r: int| 0 <= r < row ==> (#[trigger] lines@[r])@ == self.row_text(r),
            decreases height - row,
        {
            let mut line = String::new();
            let mut column: usize = 0;
            while column < width
                invariant
                    self.wf(),
                    total == self.cells@.len(),
                    width == self.width,
                    height == self.height,
                    row < height,
                    column <= width,
                    line@.len() == column,
                    forall|c: int| 0 <= c < column ==> line@[c] == self.cells@[row * width + c].ch,
                decreases width - column,
            {
                proof {
                    lemma_cell_position(row as int, column as int, width as int, height as int);
                }
                line.push(self.cells[row * width + column].ch);
                column += 1;
            }
            assert(line@ =~= self.row_text(row as int));
            lines.push(line);
            row += 1;
        }
        lines
    }
}

/// The row-major position of a cell lies inside the grid.
pub proof fn lemma_cell_position(row: int, column: int, width: int, height: int)
    requires
        0 <= row < height,
        0 <= column < width,
    ensures
        0 <= row * width <= row * width + column < width * height,
        row * width + width <= width * height,
{
    assert(0 <= row * width && row * width + width <= width * height) by (nonlinear_arith)
        requires
            0 <= row < height,
            0 < width,
    ;
}

/// The grids of a run of frames of one size, stored back to back.
#[derive(Clone, Debug)]
pub struct GlyphFrameSeries {
    pub width: u16,
    pub height: u16,
    pub frame_count: usize,
    pub cells: Vec<CellGlyph>,
}

impl GlyphFrameSeries {
    /// The number of cells in one frame.
    pub open spec fn stride(&self) -> int {
        self.width * self.height
    }

    /// There is exactly one cell for each position of each frame.
    pub open spec fn wf(&self) -> bool {
        self.cells@.len() == self.stride() * self.frame_count
    }

    /// The cells of frame `index`.
    pub open spec fn frame_cells(&self, index: int) -> Seq<CellGlyph> {
        self.cells@.subrange(index * self.stride(), index * self.stride() + self.stride())
    }

    pub fn new(width: u16, height: u16, frame_count: usize, cells: Vec<CellGlyph>) -> (out: Self)
        requires
            cells@.len() == width * height * frame_count,
        ensures
            out.width == width,
            out.height == height,
            out.frame_count == frame_count,
            out.cells == cells,
            out.wf(),
    {
        GlyphFrameSeries { width, height, frame_count, cells }
    }

    pub fn frame_count(&self) -> (out: usize)
        ensures
            out == self.frame_count,
    {
        self.frame_count
    }

    /// Whether the series holds no cell at all.
    pub fn is_empty(&self) -> (out: bool)
        ensures
            out == (self.cells@.len() == 0),
    {
        self.cells.len() == 0
    }

    /// The cells of frame `index`, or nothing where there is no such frame.
    pub fn frame(&self, index: usize) -> (out: Option<&[CellGlyph]>)
        requires
            self.wf(),
        ensures
            out is Some <==> index < self.frame_count,
            out is Some ==> out->0@ == self.frame_cells(index as int),
    {
        if index >= self.frame_count {
            return None;
        }
        proof {
            lemma_stride_fits(self.width, self.height);
        }
        let stride: usize = self.width as usize * self.height as usize;
        let total: usize = self.cells.len();
        assert(0 <= index * stride && index * stride + stride <= stride * self.frame_count)
            by (nonlinear_arith)
            requires
                0 <= index < self.frame_count,
                0 <= stride,
        ;
        let start: usize = index * stride;
        Some(slice_subrange(self.cells.as_slice(), start, start + stride))
    }
}

/// The cell count of one frame fits a machine word.
pub proof fn lemma_stride_fits(width: u16, height: u16)
    ensures
        0 <= width * height <= 0xfffe_0001,
        width * height <= usize::MAX,
{
    assert(0 <= width * height <= 65535 * 65535) by (nonlinear_arith)
        requires
            0 <= width <= 65535,
            0 <= height <= 65535,
    ;
}

} // verus!
