use ascii_render::render::compose;
use ascii_render::{
    AsciiError, AsciiOptions, AsciiRenderer, CellAspect, ColorMode, EdgeMode, Gradient, LayoutPolicy,
    Raster, RenderOutput,
};

fn solid(width: u32, height: u32, pixel: [u8; 4]) -> Raster {
    let mut pixels = Vec::new();
    for _ in 0..(width * height) {
        pixels.extend_from_slice(&pixel);
    }
    Raster::new(width, height, pixels).unwrap()
}

fn options(gradient: Gradient, color_mode: ColorMode) -> AsciiOptions {
    let mut options = AsciiOptions::default();
    options.gradient = gradient;
    options.font_aspect = CellAspect::new(1, 1);
    options.color_mode = color_mode;
    options
}

fn same_output(left: &RenderOutput, right: &RenderOutput) -> bool {
    left.geometry.columns == right.geometry.columns
        && left.geometry.rows == right.geometry.rows
        && left.grid.width == right.grid.width
        && left.grid.height == right.grid.height
        && left.grid.cells.len() == right.grid.cells.len()
        && left.grid.cells.iter().zip(right.grid.cells.iter()).all(|(a, b)| {
            a.ch == b.ch && a.fg == b.fg && a.bg == b.bg && a.alpha == b.alpha
        })
}

#[test]
fn default_options() {
    let options = AsciiOptions::default();
    let glyphs: String = options.gradient.chars().iter().collect();
    assert_eq!(glyphs, "\u{2588}\u{2593}\u{2592}\u{2591} ");
    assert!(!options.invert);
    assert_eq!(options.brightness, 0);
    assert_eq!(options.contrast, 0);
    assert_eq!((options.font_aspect.numerator, options.font_aspect.denominator), (11, 20));
    assert!(matches!(options.edge_mode, EdgeMode::Off));
    assert_eq!(options.color_mode, ColorMode::Luminance);
}

#[test]
fn solid_red_two_by_two_with_binary_gradient() {
    let image = solid(2, 2, [255, 0, 0, 255]);
    let renderer = AsciiRenderer::default();
    let output = renderer
        .render_image(&image, LayoutPolicy::FixedColumns(2), &options(Gradient::binary(), ColorMode::ColorAlpha))
        .unwrap();
    assert_eq!((output.geometry.columns, output.geometry.rows), (2, 2));
    assert_eq!((output.grid.width, output.grid.height), (2, 2));
    assert_eq!(output.grid.cells.len(), 4);
    assert_eq!((output.assumed_font_aspect.numerator, output.assumed_font_aspect.denominator), (1, 1));
    for cell in output.grid.cells.iter() {
        // the luminance of pure red is 54 / 255, which lies in the first
        // half of the scale and selects the first glyph
        assert_eq!(cell.ch, '0');
        assert_eq!(cell.fg, [255, 0, 0]);
        assert_eq!(cell.alpha, 65535);
        assert_eq!(cell.bg, None);
    }
    assert_eq!(output.grid.rows(), vec!["00".to_string(), "00".to_string()]);
}

#[test]
fn solid_red_in_luminance_mode_is_gray() {
    let image = solid(2, 2, [255, 0, 0, 255]);
    let renderer = AsciiRenderer::default();
    let output = renderer
        .render_image(&image, LayoutPolicy::FixedColumns(2), &options(Gradient::binary(), ColorMode::Luminance))
        .unwrap();
    for cell in output.grid.cells.iter() {
        assert_eq!(cell.ch, '0');
        assert_eq!(cell.fg, [54, 54, 54]);
        assert_eq!(cell.alpha, 65535);
    }
}

#[test]
fn inverted_red_selects_the_other_glyph() {
    let image = solid(2, 2, [255, 0, 0, 255]);
    let mut inverted = options(Gradient::binary(), ColorMode::Luminance);
    inverted.invert = true;
    let output = AsciiRenderer::default().render_image(&image, LayoutPolicy::FixedColumns(2), &inverted).unwrap();
    for cell in output.grid.cells.iter() {
        assert_eq!(cell.ch, '1');
        assert_eq!(cell.fg, [201, 201, 201]);
    }
}

#[test]
fn transparent_pixels_render_as_blank() {
    let pixels = vec![255, 255, 255, 0, 255, 255, 255, 1, 10, 20, 30, 255, 0, 0, 0, 128];
    let image = Raster::new(2, 2, pixels).unwrap();
    let output = AsciiRenderer::default()
        .render_image(&image, LayoutPolicy::FixedColumns(2), &options(Gradient::binary(), ColorMode::ColorAlpha))
        .unwrap();
    let cells = &output.grid.cells;
    assert_eq!(cells[0].ch, ' ');
    assert_eq!(cells[0].alpha, 0);
    assert_eq!(cells[0].fg, [255, 255, 255]);
    assert_eq!(cells[1].ch, '1');
    assert_eq!(cells[1].alpha, 257);
    assert_eq!(cells[2].ch, '0');
    assert_eq!(cells[2].fg, [10, 20, 30]);
    assert_eq!(cells[2].alpha, 65535);
    assert_eq!(cells[3].ch, '0');
    assert_eq!(cells[3].alpha, 128 * 257);
}

#[test]
fn luminance_mode_ignores_transparency() {
    let image = solid(2, 2, [255, 255, 255, 0]);
    let output = AsciiRenderer::default()
        .render_image(&image, LayoutPolicy::FixedColumns(2), &options(Gradient::binary(), ColorMode::Luminance))
        .unwrap();
    for cell in output.grid.cells.iter() {
        assert_eq!(cell.ch, '1');
        assert_eq!(cell.fg, [255, 255, 255]);
        assert_eq!(cell.alpha, 65535);
    }
}

#[test]
fn source_without_pixels_is_an_invalid_layout() {
    let image = Raster::new(0, 0, Vec::new()).unwrap();
    let result = AsciiRenderer::default().render_image(
        &image,
        LayoutPolicy::FixedColumns(10),
        &AsciiOptions::default(),
    );
    assert_eq!(result.err(), Some(AsciiError::InvalidLayout));
    let image = Raster::new(0, 3, Vec::new()).unwrap();
    let fit = LayoutPolicy::FitViewport { columns: 80, rows: 24, cell_aspect: CellAspect::new(1, 2) };
    let result = AsciiRenderer::default().render_image(&image, fit, &AsciiOptions::default());
    assert_eq!(result.err(), Some(AsciiError::InvalidLayout));
}

#[test]
fn downscaling_gives_one_cell_per_target_pixel() {
    let image = solid(8, 8, [200, 200, 200, 255]);
    let output = AsciiRenderer::default()
        .render_image(&image, LayoutPolicy::FixedColumns(4), &options(Gradient::standard(), ColorMode::ColorAlpha))
        .unwrap();
    assert_eq!((output.geometry.columns, output.geometry.rows), (4, 4));
    assert_eq!(output.grid.cells.len(), 16);
    for cell in output.grid.cells.iter() {
        assert_eq!(cell.fg, [200, 200, 200]);
        assert_eq!(cell.alpha, 65535);
        // 200 / 255 * 9 = 7.06
        assert_eq!(cell.ch, ':');
    }
}

#[test]
fn resizing_changes_the_pixel_count() {
    let image = solid(4, 4, [9, 9, 9, 255]);
    assert!(image.resamples_to(2, 3));
    let resized = image.resize_exact(2, 3);
    assert_eq!((resized.width, resized.height), (2, 3));
    assert_eq!(resized.pixels.len(), 24);
    let same = image.resize_exact(4, 4);
    assert_eq!(same.pixels, image.pixels);
}

#[test]
fn resampling_is_refused_for_empty_sizes() {
    let image = solid(4, 4, [9, 9, 9, 255]);
    assert!(!image.resamples_to(0, 3));
    assert!(!image.resamples_to(3, 0));
    let empty = Raster::new(0, 0, Vec::new()).unwrap();
    assert!(!empty.resamples_to(3, 3));
}

#[test]
fn rendering_twice_gives_the_same_grid() {
    let mut pixels = Vec::new();
    for i in 0..(12 * 9) {
        let v = (i * 37 % 256) as u8;
        pixels.extend_from_slice(&[v, v.wrapping_mul(3), v.wrapping_add(91), 255 - v / 2]);
    }
    let image = Raster::new(12, 9, pixels).unwrap();
    let mut settings = options(Gradient::detailed(), ColorMode::ColorAlpha);
    settings.contrast = 40;
    settings.brightness = -15;
    settings.edge_mode = EdgeMode::Sobel { threshold: 2000 };
    let renderer = AsciiRenderer::default();
    let first = renderer.render_image(&image, LayoutPolicy::FixedColumns(7), &settings).unwrap();
    let second = renderer.render_image(&image, LayoutPolicy::FixedColumns(7), &settings).unwrap();
    assert!(same_output(&first, &second));
    assert_eq!((first.geometry.columns, first.geometry.rows), (7, 5));
}

#[test]
fn sobel_mode_on_a_flat_image_is_all_zero() {
    let image = solid(5, 5, [120, 130, 140, 255]);
    let mut settings = options(Gradient::binary(), ColorMode::Luminance);
    settings.edge_mode = EdgeMode::Sobel { threshold: 0 };
    let output = AsciiRenderer::default().render_image(&image, LayoutPolicy::FixedColumns(5), &settings).unwrap();
    for cell in output.grid.cells.iter() {
        assert_eq!(cell.ch, '0');
        assert_eq!(cell.fg, [0, 0, 0]);
    }
}

#[test]
fn sobel_mode_marks_an_edge() {
    let mut pixels = Vec::new();
    for _y in 0..3 {
        for x in 0..4 {
            let v = if x < 2 { 0 } else { 255 };
            pixels.extend_from_slice(&[v, v, v, 255]);
        }
    }
    let image = Raster::new(4, 3, pixels).unwrap();
    let mut settings = options(Gradient::binary(), ColorMode::Luminance);
    settings.edge_mode = EdgeMode::Sobel { threshold: 1000 };
    let grid = compose(&image, &settings);
    assert_eq!(grid.rows(), vec!["0000".to_string(), "0110".to_string(), "0000".to_string()]);
    assert_eq!(grid.cells[5].fg, [255, 255, 255]);
}

#[test]
fn contrast_and_brightness_reach_the_grid() {
    let image = solid(1, 1, [128, 128, 128, 255]);
    let mut settings = options(Gradient::binary(), ColorMode::Luminance);
    let plain = compose(&image, &settings);
    assert_eq!(plain.cells[0].fg, [128, 128, 128]);
    assert_eq!(plain.cells[0].ch, '1');
    settings.brightness = -64;
    let darker = compose(&image, &settings);
    assert_eq!(darker.cells[0].fg, [64, 64, 64]);
    assert_eq!(darker.cells[0].ch, '0');
    settings.brightness = 0;
    settings.contrast = -255;
    let flat = compose(&image, &settings);
    assert_eq!(flat.cells[0].fg, [128, 128, 128]);
}

#[test]
fn a_zero_column_policy_is_an_invalid_layout() {
    let image = solid(4, 4, [1, 2, 3, 255]);
    let renderer = AsciiRenderer::default();
    let result = renderer.render_image(&image, LayoutPolicy::FixedColumns(0), &AsciiOptions::default());
    assert_eq!(result.err(), Some(AsciiError::InvalidLayout));
    let fit = LayoutPolicy::FitViewport { columns: 0, rows: 24, cell_aspect: CellAspect::new(1, 1) };
    let result = renderer.render_image(&image, fit, &AsciiOptions::default());
    assert_eq!(result.err(), Some(AsciiError::InvalidLayout));
}

#[test]
fn a_very_wide_source_can_be_resampled() {
    let width: u32 = 0x100_0001;
    let image = Raster::new(width, 1, vec![77; 4 * width as usize]).unwrap();
    assert!(image.resamples_to(10, 1));
    assert!(image.resamples_to(65535, 65535));
}
