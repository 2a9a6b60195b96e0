use ascii_render::playback::{
    assemble, BackgroundAnimation, BackgroundAnimationConfig, HostCell, Viewport, ADVANCE_INTERVAL,
};
use ascii_render::{CellGlyph, ColorMode, GlyphGrid, Raster, SourceFrame};

const MS: u64 = 1_000_000;

fn solid(width: u32, height: u32, pixel: [u8; 4]) -> Raster {
    let mut pixels = Vec::new();
    for _ in 0..(width * height) {
        pixels.extend_from_slice(&pixel);
    }
    Raster::new(width, height, pixels).unwrap()
}

fn viewport(columns: usize, screen_lines: usize) -> Viewport {
    Viewport { columns, screen_lines, cell_width: 10, cell_height: 10 }
}

fn config() -> BackgroundAnimationConfig {
    BackgroundAnimationConfig { path: "animation.gif".to_string(), color_mode: ColorMode::ColorAlpha }
}

fn three_frames(delays: [u64; 3]) -> Vec<SourceFrame> {
    vec![
        SourceFrame { image: solid(4, 4, [255, 0, 0, 255]), delay: delays[0] },
        SourceFrame { image: solid(4, 4, [0, 255, 0, 255]), delay: delays[1] },
        SourceFrame { image: solid(4, 4, [0, 0, 255, 255]), delay: delays[2] },
    ]
}

fn shown(animation: &BackgroundAnimation) -> [u8; 3] {
    animation.current_frame_cells()[0].fg
}

#[test]
fn fallback_delay_is_120_milliseconds() {
    assert_eq!(ADVANCE_INTERVAL, 120 * MS);
}

#[test]
fn viewport_cell_aspect() {
    let aspect = Viewport { columns: 1, screen_lines: 1, cell_width: 9, cell_height: 18 }.cell_aspect();
    assert_eq!((aspect.numerator, aspect.denominator), (9, 18));
    let aspect = Viewport { columns: 1, screen_lines: 1, cell_width: 0, cell_height: 18 }.cell_aspect();
    assert_eq!((aspect.numerator, aspect.denominator), (1, 1));
    let aspect = Viewport { columns: 1, screen_lines: 1, cell_width: 9, cell_height: 0 }.cell_aspect();
    assert_eq!((aspect.numerator, aspect.denominator), (1, 1));
}

#[test]
fn construction_renders_every_frame_at_one_geometry() {
    let view = viewport(4, 4);
    let animation = BackgroundAnimation::new(&view, &config(), three_frames([MS, MS, MS]), 0).unwrap();
    assert!(animation.is_active(&view));
    assert_eq!(animation.current_frame_cells().len(), 16);
    assert_eq!(shown(&animation), [255, 0, 0]);
}

#[test]
fn construction_without_frames_gives_nothing() {
    assert!(BackgroundAnimation::new(&viewport(4, 4), &config(), Vec::new(), 0).is_none());
}

#[test]
fn construction_without_viewport_cells_gives_nothing() {
    assert!(BackgroundAnimation::new(&viewport(0, 4), &config(), three_frames([MS; 3]), 0).is_none());
    assert!(BackgroundAnimation::new(&viewport(4, 0), &config(), three_frames([MS; 3]), 0).is_none());
}

#[test]
fn construction_without_renderable_frames_gives_nothing() {
    let frames = vec![SourceFrame { image: Raster::new(0, 0, Vec::new()).unwrap(), delay: MS }];
    assert!(BackgroundAnimation::new(&viewport(4, 4), &config(), frames, 0).is_none());
}

#[test]
fn frames_of_another_shape_are_dropped() {
    let view = viewport(8, 8);
    let frames = vec![
        SourceFrame { image: Raster::new(0, 0, Vec::new()).unwrap(), delay: 10 * MS },
        SourceFrame { image: solid(4, 4, [255, 0, 0, 255]), delay: 20 * MS },
        SourceFrame { image: solid(8, 2, [0, 255, 0, 255]), delay: 30 * MS },
        SourceFrame { image: solid(2, 2, [0, 0, 255, 255]), delay: 40 * MS },
    ];
    let (volume, delays) = BackgroundAnimation::create_volume(&view, &frames, ColorMode::ColorAlpha).unwrap();
    assert_eq!((volume.width, volume.height), (8, 8));
    assert_eq!(volume.frame_count(), 2);
    assert_eq!(delays, vec![20 * MS, 40 * MS]);
    assert_eq!(volume.frame(0).unwrap()[0].fg, [255, 0, 0]);
    assert_eq!(volume.frame(1).unwrap()[63].fg, [0, 0, 255]);
}

#[test]
fn assemble_keeps_frames_of_the_first_usable_size() {
    let grid = |width: u16, height: u16, ch: char| {
        Some(GlyphGrid::new(width, height, vec![CellGlyph::new(ch, 0); width as usize * height as usize]))
    };
    let candidates = vec![None, grid(0, 3, 'z'), grid(2, 1, 'a'), grid(1, 2, 'b'), None, grid(2, 1, 'c')];
    let delays = vec![1, 2, 3, 4, 5, 6];
    let (volume, kept) = assemble(&candidates, &delays).unwrap();
    assert_eq!((volume.width, volume.height, volume.frame_count()), (2, 1, 2));
    assert_eq!(kept, vec![3, 6]);
    let glyphs: String = volume.cells.iter().map(|cell| cell.ch).collect();
    assert_eq!(glyphs, "aacc");
    assert!(assemble(&vec![None, grid(0, 0, 'z')], &vec![1, 2]).is_none());
    assert!(assemble(&Vec::new(), &Vec::new()).is_none());
}

#[test]
fn zero_delays_fall_back_to_the_default() {
    let view = viewport(4, 4);
    let start = 1_000 * MS;
    let mut animation =
        BackgroundAnimation::new(&view, &config(), three_frames([0, 50 * MS, 0]), start).unwrap();
    // the first tick serves the pending repaint and shows frame 0 as it is
    assert!(animation.update(start + 500 * MS, &view));
    assert_eq!(shown(&animation), [255, 0, 0]);
    let shown_at = start + 500 * MS;
    // frame 0 names no delay: it stays for 120 ms
    assert!(!animation.update(shown_at, &view));
    assert!(!animation.update(shown_at + 1, &view));
    assert!(!animation.update(shown_at + 119 * MS, &view));
    assert!(!animation.update(shown_at + 120 * MS - 1, &view));
    assert_eq!(shown(&animation), [255, 0, 0]);
    assert!(animation.update(shown_at + 120 * MS, &view));
    assert_eq!(shown(&animation), [0, 255, 0]);
    // frame 1 stays for its own 50 ms
    let second_at = shown_at + 120 * MS;
    assert!(!animation.update(second_at + 50 * MS - 1, &view));
    assert!(animation.update(second_at + 50 * MS, &view));
    assert_eq!(shown(&animation), [0, 0, 255]);
    // frame 2 names no delay either
    let third_at = second_at + 50 * MS;
    assert!(!animation.update(third_at + 119 * MS, &view));
    assert!(animation.update(third_at + 300 * MS, &view));
    assert_eq!(shown(&animation), [255, 0, 0]);
}

#[test]
fn the_delay_of_the_frame_on_display() {
    let view = viewport(4, 4);
    let mut animation =
        BackgroundAnimation::new(&view, &config(), three_frames([0, 50 * MS, 0]), 0).unwrap();
    assert_eq!(animation.current_frame_delay(), 120 * MS);
    assert!(animation.update(0, &view));
    assert_eq!(animation.current_frame_delay(), 120 * MS);
    assert!(animation.update(120 * MS, &view));
    assert_eq!(animation.current_frame_delay(), 50 * MS);
    assert!(animation.update(170 * MS, &view));
    assert_eq!(animation.current_frame_delay(), 120 * MS);
    animation.on_resize(&viewport(0, 0), 200 * MS);
    assert_eq!(animation.current_frame_delay(), 120 * MS);
}

#[test]
fn a_clock_that_runs_backwards_does_not_advance() {
    let view = viewport(4, 4);
    let mut animation =
        BackgroundAnimation::new(&view, &config(), three_frames([MS, MS, MS]), 500 * MS).unwrap();
    assert!(animation.update(500 * MS, &view));
    assert!(!animation.update(0, &view));
    assert!(!animation.update(499 * MS, &view));
    assert_eq!(shown(&animation), [255, 0, 0]);
}

#[test]
fn a_single_frame_never_changes() {
    let view = viewport(4, 4);
    let frames = vec![SourceFrame { image: solid(4, 4, [7, 8, 9, 255]), delay: 10 * MS }];
    let mut animation = BackgroundAnimation::new(&view, &config(), frames, 0).unwrap();
    assert!(animation.update(0, &view));
    assert!(!animation.update(5 * MS, &view));
    assert!(animation.update(10 * MS, &view));
    assert_eq!(shown(&animation), [7, 8, 9]);
    assert!(animation.update(1_000 * MS, &view));
    assert_eq!(shown(&animation), [7, 8, 9]);
}

#[test]
fn resizing_to_no_columns_deactivates() {
    let view = viewport(4, 4);
    let mut animation = BackgroundAnimation::new(&view, &config(), three_frames([MS; 3]), 0).unwrap();
    assert!(animation.is_active(&view));
    assert!(animation.update(0, &view));
    let gone = viewport(0, 4);
    animation.on_resize(&gone, 10 * MS);
    assert!(!animation.is_active(&gone));
    assert!(!animation.is_active(&view));
    assert!(!animation.update(20 * MS, &gone));
    assert!(!animation.update(2_000 * MS, &gone));
    assert!(!animation.update(2_000 * MS, &view));
    let mut out: Vec<HostCell> = Vec::new();
    animation.render_cells([1, 2, 3], &gone, &mut out);
    assert!(out.is_empty());
    animation.render_cells([1, 2, 3], &view, &mut out);
    assert!(out.is_empty());
    assert!(animation.current_frame_cells().is_empty());
}

#[test]
fn resizing_restarts_at_the_first_frame_with_a_full_repaint() {
    let view = viewport(4, 4);
    let mut animation =
        BackgroundAnimation::new(&view, &config(), three_frames([10 * MS; 3]), 0).unwrap();
    assert!(animation.update(0, &view));
    assert!(animation.update(10 * MS, &view));
    assert_eq!(shown(&animation), [0, 255, 0]);
    let larger = viewport(6, 6);
    animation.on_resize(&larger, 12 * MS);
    assert!(animation.is_active(&larger));
    assert_eq!(animation.current_frame_cells().len(), 36);
    assert_eq!(shown(&animation), [255, 0, 0]);
    // the repaint comes first, whatever the time, and does not advance
    assert!(animation.update(500 * MS, &larger));
    assert_eq!(shown(&animation), [255, 0, 0]);
    assert!(!animation.update(500 * MS + 1, &larger));
    // a resize back from nothing reactivates
    animation.on_resize(&viewport(0, 0), 600 * MS);
    assert!(!animation.is_active(&larger));
    animation.on_resize(&view, 700 * MS);
    assert!(animation.is_active(&view));
    assert!(animation.update(700 * MS, &view));
}

#[test]
fn visible_cells_are_clipped_to_the_viewport() {
    let view = viewport(4, 4);
    let pixels: Vec<u8> = (0..16u8).flat_map(|i| [i, 100 + i, 200 + i, 255]).collect();
    let frames = vec![SourceFrame { image: Raster::new(4, 4, pixels).unwrap(), delay: MS }];
    let animation = BackgroundAnimation::new(&view, &config(), frames, 0).unwrap();
    let smaller = viewport(3, 2);
    let marker = HostCell {
        character: '#',
        line: 9,
        column: 9,
        fg: [0; 3],
        bg: [0; 3],
        bg_alpha: 0,
        underline: [0; 3],
        dim: false,
    };
    let mut out = vec![marker];
    animation.render_cells([40, 50, 60], &smaller, &mut out);
    assert_eq!(out.len(), 1 + 6);
    assert_eq!(out[0].character, '#');
    let mut next = 1;
    for line in 0..2usize {
        for column in 0..3usize {
            let cell = out[next];
            let source = (line * 4 + column) as u8;
            assert_eq!((cell.line, cell.column), (line, column));
            assert_eq!(cell.fg, [source, 100 + source, 200 + source]);
            assert_eq!(cell.underline, cell.fg);
            assert_eq!(cell.bg, [40, 50, 60]);
            assert_eq!(cell.bg_alpha, 0);
            assert!(cell.dim);
            assert_eq!(cell.character, animation.current_frame_cells()[line * 4 + column].ch);
            next += 1;
        }
    }
    // a viewport larger than the grid shows the whole grid
    let mut all = Vec::new();
    animation.render_cells([0, 0, 0], &viewport(10, 10), &mut all);
    assert_eq!(all.len(), 16);
    assert_eq!((all[15].line, all[15].column), (3, 3));
}

#[test]
fn luminance_mode_colors_cells_gray() {
    let view = viewport(2, 2);
    let frames = vec![SourceFrame { image: solid(2, 2, [255, 0, 0, 255]), delay: MS }];
    let config =
        BackgroundAnimationConfig { path: "still.png".to_string(), color_mode: ColorMode::Luminance };
    let animation = BackgroundAnimation::new(&view, &config, frames, 0).unwrap();
    assert_eq!(shown(&animation), [54, 54, 54]);
}
