//! Derives the column and row count of a glyph grid from the size of the
//! source raster, a layout policy and the aspect ratio of one cell.

use vstd::prelude::*;
use crate::fixed::{div_round, round_div};

verus! {

/// The aspect ratio of one cell, as the fraction `numerator / denominator`.
#[derive(Clone, Copy, Debug)]
pub struct CellAspect {
    pub numerator: u32,
    pub denominator: u32,
}

impl CellAspect {
    /// The ratio is a positive number.
    pub open spec fn is_positive(&self) -> bool {
        self.numerator > 0 && self.denominator > 0
    }

    /// Two ratios stand for the same number.
    pub open spec fn same_ratio(&self, other: &CellAspect) -> bool {
        self.numerator * other.denominator == other.numerator * self.denominator
    }

    pub fn new(numerator: u32, denominator: u32) -> (out: Self)
        ensures
            out.numerator == numerator,
            out.denominator == denominator,
    {
        CellAspect { numerator, denominator }
    }

    /// The ratio one.
    pub fn square() -> (out: Self)
        ensures
            out.numerator == 1,
            out.denominator == 1,
    {
        CellAspect { numerator: 1, denominator: 1 }
    }

    /// Whether two ratios stand for the same number.
    pub fn equals(&self, other: &CellAspect) -> (out: bool)
        ensures
            out == self.same_ratio(other),
    {
        assert(self.numerator * other.denominator <= 0xffff_ffff * 0xffff_ffff) by (nonlinear_arith)
            requires
                self.numerator <= 0xffff_ffff,
                other.denominator <= 0xffff_ffff,
        ;
        assert(other.numerator * self.denominator <= 0xffff_ffff * 0xffff_ffff) by (nonlinear_arith)
            requires
                other.numerator <= 0xffff_ffff,
                self.denominator <= 0xffff_ffff,
        ;
        let left: u64 = self.numerator as u64 * other.denominator as u64;
        let right: u64 = other.numerator as u64 * self.denominator as u64;
        left == right
    }
}

/// The size of a glyph grid in cells, and the cell aspect it was derived for.
#[derive(Clone, Copy, Debug)]
pub struct TargetGeometry {
    pub columns: u16,
    pub rows: u16,
    pub cell_aspect: CellAspect,
}

impl TargetGeometry {
    /// Both dimensions and the cell aspect are strictly positive.
    pub open spec fn is_present(&self) -> bool {
        self.columns > 0 && self.rows > 0 && self.cell_aspect.is_positive()
    }
}

/// How the grid size follows from the source size.
#[derive(Clone, Copy, Debug)]
pub enum LayoutPolicy {
    /// A fixed number of columns; the rows follow from the source's shape.
    FixedColumns(u16),
    /// The largest grid of the source's shape inside the given caps.
    FitViewport { columns: u16, rows: u16, cell_aspect: CellAspect },
    /// A fixed number of rows; the columns follow from the source's shape.
    ScaleToHeight { rows: u16, cell_aspect: CellAspect },
}

/// `value` raised to one where it is zero.
pub open spec fn at_least_one(value: int) -> int {
    if value < 1 {
        1
    } else {
        value
    }
}

/// `value` lowered to the largest dimension a grid can have.
pub open spec fn saturate(value: int) -> int {
    if value > 65535 {
        65535
    } else {
        value
    }
}

/// The rows that `columns` columns need: the source's height over its width,
/// times the columns, times the cell aspect, rounded to the nearest integer,
/// saturated and raised to one.
pub open spec fn rows_for(width: int, height: int, columns: int, aspect: CellAspect) -> int {
    at_least_one(
        saturate(
            round_div(height * columns * aspect.numerator, width * aspect.denominator),
        ),
    )
}

/// The columns that `rows` rows allow: the rows over the product of the
/// source's height over its width and the cell aspect, rounded to the nearest
/// integer and saturated.
pub open spec fn columns_for(width: int, height: int, rows: int, aspect: CellAspect) -> int {
    saturate(round_div(rows * width * aspect.denominator, height * aspect.numerator))
}

impl LayoutPolicy {
    /// The cell aspect that the policy itself carries, if any, is positive.
    pub open spec fn wf(&self) -> bool {
        match *self {
            LayoutPolicy::FixedColumns(_) => true,
            LayoutPolicy::FitViewport { cell_aspect, .. } => cell_aspect.is_positive(),
            LayoutPolicy::ScaleToHeight { cell_aspect, .. } => cell_aspect.is_positive(),
        }
    }

    /// Whether the policy's own dimensions are all at least one.
    pub open spec fn has_cells(&self) -> bool {
        match *self {
            LayoutPolicy::FixedColumns(columns) => columns > 0,
            LayoutPolicy::FitViewport { columns, rows, .. } => columns > 0 && rows > 0,
            LayoutPolicy::ScaleToHeight { rows, .. } => rows > 0,
        }
    }

    /// The geometry that the policy gives a source of the given size: none
    /// where the source has no pixels or a dimension of the policy is zero.
    pub open spec fn derive_spec(
        &self,
        source_width: u32,
        source_height: u32,
        default_aspect: CellAspect,
    ) -> Option<TargetGeometry> {
        let w = source_width as int;
        let h = source_height as int;
        if source_width == 0 || source_height == 0 || !self.has_cells() {
            None
        } else {
            match *self {
                LayoutPolicy::FixedColumns(columns) => Some(
                    TargetGeometry {
                        columns,
                        rows: rows_for(w, h, columns as int, default_aspect) as u16,
                        cell_aspect: default_aspect,
                    },
                ),
                LayoutPolicy::FitViewport { columns, rows, cell_aspect } => {
                    let natural = rows_for(w, h, columns as int, cell_aspect);
                    if natural > rows {
                        let narrowed = at_least_one(columns_for(w, h, rows as int, cell_aspect));
                        Some(
                            TargetGeometry {
                                columns: (if narrowed < columns {
                                    narrowed
                                } else {
                                    columns as int
                                }) as u16,
                                rows,
                                cell_aspect,
                            },
                        )
                    } else {
                        Some(TargetGeometry { columns, rows: natural as u16, cell_aspect })
                    }
                },
                LayoutPolicy::ScaleToHeight { rows, cell_aspect } => Some(
                    TargetGeometry {
                        columns: at_least_one(columns_for(w, h, rows as int, cell_aspect)) as u16,
                        rows,
                        cell_aspect,
                    },
                ),
            }
        }
    }

    /// Derives the grid size for a source of `source_width` by `source_height`
    /// pixels. `default_aspect` is used by the policy that carries no aspect of
    /// its own. There is no geometry for a source without pixels, nor for a
    /// policy that asks for no columns or no rows.
    pub fn derive(
        &self,
        source_width: u32,
        source_height: u32,
        default_aspect: CellAspect,
    ) -> (out: Option<TargetGeometry>)
        requires
            self.wf(),
            default_aspect.is_positive(),
        ensures
            out == self.derive_spec(source_width, source_height, default_aspect),
            out is Some <==> source_width > 0 && source_height > 0 && self.has_cells(),
            out is Some ==> out->0.is_present(),
    {
        if source_width == 0 || source_height == 0 {
            return None;
        }
        match *self {
            LayoutPolicy::FixedColumns(columns) => {
                if columns == 0 {
                    return None;
                }
                let rows = scaled_rows(source_width, source_height, columns, default_aspect);
                Some(TargetGeometry { columns, rows, cell_aspect: default_aspect })
            },
            LayoutPolicy::FitViewport { columns, rows, cell_aspect } => {
                if columns == 0 || rows == 0 {
                    return None;
                }
                let natural = scaled_rows(source_width, source_height, columns, cell_aspect);
                if natural > rows {
                    let derived = scaled_columns(source_width, source_height, rows, cell_aspect);
                    let narrowed: u16 = if derived < 1 { 1 } else { derived };
                    let columns: u16 = if narrowed < columns { narrowed } else { columns };
                    Some(TargetGeometry { columns, rows, cell_aspect })
                } else {
                    Some(TargetGeometry { columns, rows: natural, cell_aspect })
                }
            },
            LayoutPolicy::ScaleToHeight { rows, cell_aspect } => {
                if rows == 0 {
                    return None;
                }
                let derived = scaled_columns(source_width, source_height, rows, cell_aspect);
                let columns: u16 = if derived < 1 { 1 } else { derived };
                Some(TargetGeometry { columns, rows, cell_aspect })
            },
        }
    }
}

/// Computes [`rows_for`].
fn scaled_rows(width: u32, height: u32, columns: u16, aspect: CellAspect) -> (out: u16)
    requires
        width > 0,
        aspect.is_positive(),
    ensures
        out == rows_for(width as int, height as int, columns as int, aspect),
        out >= 1,
{
    proof {
        lemma_product_bound(
            height as int,
            columns as int,
            aspect.numerator as int,
            0xffff_ffff,
            0xffff,
            0xffff_ffff,
        );
        lemma_product_bound(width as int, aspect.denominator as int, 1, 0xffff_ffff, 0xffff_ffff, 1);
        assert(width * aspect.denominator >= 1) by (nonlinear_arith)
            requires
                width >= 1,
                aspect.denominator >= 1,
        ;
    }
    let numer: u128 = height as u128 * columns as u128 * aspect.numerator as u128;
    let denom: u128 = width as u128 * aspect.denominator as u128;
    let rounded = div_round(numer, denom);
    let capped: u16 = if rounded > 65535 { 65535 } else { rounded as u16 };
    if capped < 1 {
        1
    } else {
        capped
    }
}

/// Computes [`columns_for`].
fn scaled_columns(width: u32, height: u32, rows: u16, aspect: CellAspect) -> (out: u16)
    requires
        height > 0,
        aspect.is_positive(),
    ensures
        out == columns_for(width as int, height as int, rows as int, aspect),
{
    proof {
        lemma_product_bound(
            rows as int,
            width as int,
            aspect.denominator as int,
            0xffff,
            0xffff_ffff,
            0xffff_ffff,
        );
        lemma_product_bound(height as int, aspect.numerator as int, 1, 0xffff_ffff, 0xffff_ffff, 1);
        assert(height * aspect.numerator >= 1) by (nonlinear_arith)
            requires
                height >= 1,
                aspect.numerator >= 1,
        ;
    }
    let numer: u128 = rows as u128 * width as u128 * aspect.denominator as u128;
    let denom: u128 = height as u128 * aspect.numerator as u128;
    let rounded = div_round(numer, denom);
    if rounded > 65535 {
        65535
    } else {
        rounded as u16
    }
}

/// A product of three bounded nonnegative factors is bounded by the product
/// of the bounds.
proof fn lemma_product_bound(a: int, b: int, c: int, a_max: int, b_max: int, c_max: int)
    requires
        0 <= a <= a_max,
        0 <= b <= b_max,
        0 <= c <= c_max,
    ensures
        0 <= a * b <= a_max * b_max,
        0 <= a * b * c <= a_max * b_max * c_max,
{
    assert(0 <= a * b <= a_max * b_max) by (nonlinear_arith)
        requires
            0 <= a <= a_max,
            0 <= b <= b_max,
    ;
    let ab = a * b;
    let ab_max = a_max * b_max;
    assert(0 <= ab * c <= ab_max * c_max) by (nonlinear_arith)
        requires
            0 <= ab <= ab_max,
            0 <= c <= c_max,
    ;
}

/// A grid fitted to a viewport never exceeds the viewport's caps on either
/// axis, whatever the caps, the source's shape and the cell aspect; and there
/// is such a grid exactly where the source has pixels and the viewport cells.
pub proof fn lemma_fit_viewport_within_caps(
    columns: u16,
    rows: u16,
    cell_aspect: CellAspect,
    source_width: u32,
    source_height: u32,
    default_aspect: CellAspect,
)
    ensures
        ({
            let policy = LayoutPolicy::FitViewport { columns, rows, cell_aspect };
            let fitted = policy.derive_spec(source_width, source_height, default_aspect);
            &&& fitted is Some <==> source_width > 0 && source_height > 0 && columns > 0 && rows
                > 0
            &&& fitted is Some ==> 1 <= fitted->0.columns <= columns && 1 <= fitted->0.rows
                <= rows
        }),
{
}

/// With a fixed number of columns the grid has exactly that many.
pub proof fn lemma_fixed_columns_are_kept(
    columns: u16,
    source_width: u32,
    source_height: u32,
    default_aspect: CellAspect,
)
    ensures
        ({
            let fixed = LayoutPolicy::FixedColumns(columns).derive_spec(
                source_width,
                source_height,
                default_aspect,
            );
            fixed is Some ==> fixed->0.columns == columns && fixed->0.rows >= 1
        }),
{
}

} // verus!
