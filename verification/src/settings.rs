//! Rendering settings as a command line names them, and the options that
//! they stand for.

use vstd::prelude::*;
use crate::edges::EdgeMode;
use crate::gradient::Gradient;
use crate::layout::CellAspect;
use crate::render::{AsciiOptions, ColorMode, OptionsView};

verus! {

/// The gradients that can be chosen by name.
#[derive(Copy, Clone, Debug)]
pub enum GradientPreset {
    Detailed,
    Standard,
    Blocks,
    Binary,
}

/// The edge extraction that can be chosen by name.
#[derive(Copy, Clone, Debug)]
pub enum EdgeChoice {
    Off,
    Sobel,
}

/// The settings of one rendering run.
#[derive(Copy, Clone, Debug)]
pub struct RenderSettings {
    pub gradient: GradientPreset,
    /// Brightness offset in the range from -255 to 255.
    pub brightness: i32,
    /// Contrast offset in the range from -255 to 255.
    pub contrast: i32,
    pub invert: bool,
    /// Height over width of the font's cell.
    pub font_aspect: CellAspect,
    pub edge: EdgeChoice,
    /// Threshold of the Sobel magnitude, as a fraction of the full scale.
    pub sobel_threshold: u16,
}

impl GradientPreset {
    /// The glyphs of the preset.
    pub open spec fn glyphs(self) -> Seq<char> {
        match self {
            GradientPreset::Detailed => "$@B%8&WM#*oahkbdpqwmZO0QLCJUYXzcvunxrjft/\\|()1{}[]?-_+~<>i!lI;:,\"^`'. "@,
            GradientPreset::Standard => "@%#*+=-:. "@,
            GradientPreset::Blocks => Gradient::blocks_spec(),
            GradientPreset::Binary => "01"@,
        }
    }

    pub fn to_gradient(self) -> (out: Gradient)
        ensures
            out@ == self.glyphs(),
            out.wf(),
    {
        match self {
            GradientPreset::Detailed => Gradient::detailed(),
            GradientPreset::Standard => Gradient::standard(),
            GradientPreset::Blocks => Gradient::blocks(),
            GradientPreset::Binary => Gradient::binary(),
        }
    }
}

impl EdgeChoice {
    /// The edge mode of the choice, with the threshold of `settings`.
    pub open spec fn mode(self, settings: RenderSettings) -> EdgeMode {
        match self {
            EdgeChoice::Off => EdgeMode::Off,
            EdgeChoice::Sobel => EdgeMode::Sobel { threshold: settings.sobel_threshold },
        }
    }

    pub fn to_mode(self, settings: &RenderSettings) -> (out: EdgeMode)
        ensures
            out == self.mode(*settings),
    {
        match self {
            EdgeChoice::Off => EdgeMode::Off,
            EdgeChoice::Sobel => EdgeMode::Sobel { threshold: settings.sobel_threshold },
        }
    }
}

/// The smallest font aspect that is rendered with: a tenth.
pub open spec fn least_font_aspect() -> CellAspect {
    CellAspect { numerator: 1, denominator: 10 }
}

/// `aspect`, or a tenth where `aspect` is less or is no number.
pub open spec fn font_aspect_floor(aspect: CellAspect) -> CellAspect {
    if aspect.denominator == 0 || aspect.numerator * 10 < aspect.denominator {
        least_font_aspect()
    } else {
        aspect
    }
}

impl RenderSettings {
    /// The options that the settings stand for.
    pub open spec fn options(&self) -> OptionsView {
        OptionsView {
            palette: self.gradient.glyphs(),
            invert: self.invert,
            brightness: self.brightness,
            contrast: self.contrast,
            font_aspect: font_aspect_floor(self.font_aspect),
            edge_mode: self.edge.mode(*self),
            color_mode: ColorMode::Luminance,
        }
    }

    pub fn to_options(&self) -> (out: AsciiOptions)
        ensures
            out@ == self.options(),
            out.wf(),
    {
        let mut options = AsciiOptions::default();
        options.gradient = self.gradient.to_gradient();
        options.brightness = self.brightness;
        options.contrast = self.contrast;
        options.invert = self.invert;
        let aspect = self.font_aspect;
        let too_small = aspect.denominator == 0 || (aspect.numerator as u64) * 10 < (
        aspect.denominator as u64);
        options.font_aspect = if too_small {
            CellAspect::new(1, 10)
        } else {
            aspect
        };
        options.edge_mode = self.edge.to_mode(self);
        options
    }
}

} // verus!
