//! Renders rasters as grids of styled glyphs and plays such grids back as a
//! timed animation.
//!
//! Every normalized quantity (luminance, edge magnitude, opacity) is a `u16`
//! fraction of [`fixed::FULL_SCALE`], so the whole pipeline is exact integer
//! arithmetic with a stated rounding rule. Ratios such as the cell aspect are
//! kept as pairs of integers. Durations and timestamps are nanoseconds.

pub mod adjust;
pub mod edges;
pub mod fixed;
pub mod gradient;
pub mod grid;
pub mod layout;
pub mod loader;
pub mod mapping;
pub mod playback;
pub mod raster;
pub mod render;
pub mod series;
pub mod settings;
pub mod text;

pub use edges::{EdgeMode, EdgeSample};
pub use gradient::Gradient;
pub use grid::{CellGlyph, GlyphFrameSeries, GlyphGrid};
pub use layout::{CellAspect, LayoutPolicy, TargetGeometry};
pub use mapping::GlyphMapper;
pub use raster::{Raster, SourceFrame};
pub use render::{AsciiError, AsciiOptions, AsciiRenderer, ColorMode, RenderOutput};
pub use series::{GlyphGridFrame, GlyphGridSeries};
