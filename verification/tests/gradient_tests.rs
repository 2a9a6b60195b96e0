use ascii_render::{CellGlyph, Gradient, GlyphFrameSeries, GlyphGrid};

#[test]
fn presets_have_their_glyphs() {
    assert_eq!(Gradient::detailed().len(), 70);
    assert_eq!(Gradient::detailed().char_at(0), '$');
    assert_eq!(Gradient::detailed().char_at(69), ' ');
    let standard: String = Gradient::standard().chars().iter().collect();
    assert_eq!(standard, "@%#*+=-:. ");
    let blocks: String = Gradient::blocks().chars().iter().collect();
    assert_eq!(blocks, "\u{2588}\u{2593}\u{2592}\u{2591} ");
    assert_eq!(Gradient::binary().chars(), &['0', '1']);
}

#[test]
fn new_keeps_the_characters_in_order() {
    let gradient = Gradient::new("abc");
    assert_eq!(gradient.len(), 3);
    assert_eq!(gradient.chars(), &['a', 'b', 'c']);
    assert_eq!(gradient.clone(), gradient);
}

#[test]
fn char_at_saturates_at_the_last_glyph() {
    let gradient = Gradient::new("abc");
    assert_eq!(gradient.char_at(0), 'a');
    assert_eq!(gradient.char_at(1), 'b');
    assert_eq!(gradient.char_at(2), 'c');
    assert_eq!(gradient.char_at(3), 'c');
    assert_eq!(gradient.char_at(usize::MAX), 'c');
}

#[test]
fn char_at_is_monotonic_in_index() {
    let gradient = Gradient::standard();
    let glyphs = gradient.chars().to_vec();
    let mut previous = 0;
    for index in 0..20 {
        let position = glyphs.iter().position(|&ch| ch == gradient.char_at(index)).unwrap();
        assert!(position >= previous);
        previous = position;
    }
}

#[test]
fn clamp_index_maps_the_ends_to_the_ends() {
    for gradient in [Gradient::detailed(), Gradient::standard(), Gradient::blocks(), Gradient::binary()] {
        assert_eq!(gradient.clamp_index(0), 0);
        assert_eq!(gradient.clamp_index(65535), gradient.len() - 1);
    }
}

#[test]
fn clamp_index_is_idempotent() {
    for gradient in [Gradient::detailed(), Gradient::standard(), Gradient::blocks(), Gradient::binary()] {
        let last = gradient.len() as u64 - 1;
        for position in 0..=last {
            // the value that stands for the position selects it again
            let value = ((2 * position * 65535 + last) / (2 * last)) as u16;
            assert_eq!(gradient.clamp_index(value), position as usize);
        }
        let mut value: u32 = 0;
        while value <= 65535 {
            let position = gradient.clamp_index(value as u16) as u64;
            let back = ((2 * position * 65535 + last) / (2 * last)) as u16;
            assert_eq!(gradient.clamp_index(back), position as usize);
            value += 131;
        }
    }
}

#[test]
fn clamp_index_rounds_to_nearest() {
    assert_eq!(Gradient::binary().clamp_index(32767), 0);
    assert_eq!(Gradient::binary().clamp_index(32768), 1);
    assert_eq!(Gradient::binary().clamp_index(13878), 0);
    assert_eq!(Gradient::standard().clamp_index(30000), 4);
    assert_eq!(Gradient::blocks().clamp_index(40000), 2);
}

#[test]
fn clamp_index_is_monotonic_and_stable() {
    let gradient = Gradient::detailed();
    let mut previous = 0;
    let mut value: u32 = 0;
    while value <= 65535 {
        let index = gradient.clamp_index(value as u16);
        assert!(index >= previous);
        assert!(index < gradient.len());
        assert_eq!(gradient.char_at(index), gradient.chars()[index]);
        previous = index;
        value += 97;
    }
}

#[test]
fn cell_gray_is_the_nearest_level() {
    assert_eq!(CellGlyph::new('x', 0).fg, [0, 0, 0]);
    assert_eq!(CellGlyph::new('x', 65535).fg, [255, 255, 255]);
    assert_eq!(CellGlyph::new('x', 32768).fg, [128, 128, 128]);
    assert_eq!(CellGlyph::new('x', 13878).fg, [54, 54, 54]);
    assert_eq!(CellGlyph::new('x', 128).fg, [0, 0, 0]);
    assert_eq!(CellGlyph::new('x', 129).fg, [1, 1, 1]);
    let cell = CellGlyph::new('x', 1000);
    assert_eq!(cell.ch, 'x');
    assert_eq!(cell.bg, None);
    assert_eq!(cell.alpha, 65535);
}

#[test]
fn grid_rows_are_lines_of_characters() {
    let cells: Vec<CellGlyph> = "abcdef".chars().map(|ch| CellGlyph::new(ch, 0)).collect();
    let grid = GlyphGrid::new(3, 2, cells);
    assert_eq!(grid.rows(), vec!["abc".to_string(), "def".to_string()]);
}

#[test]
fn grid_without_columns_has_no_rows() {
    let grid = GlyphGrid::new(0, 5, Vec::new());
    assert!(grid.rows().is_empty());
    let grid = GlyphGrid::new(4, 0, Vec::new());
    assert!(grid.rows().is_empty());
}

#[test]
fn frame_series_hands_out_frames_by_index() {
    let cells: Vec<CellGlyph> = "abcdefgh".chars().map(|ch| CellGlyph::new(ch, 0)).collect();
    let series = GlyphFrameSeries::new(2, 2, 2, cells);
    assert_eq!(series.frame_count(), 2);
    assert!(!series.is_empty());
    let first: String = series.frame(0).unwrap().iter().map(|cell| cell.ch).collect();
    let second: String = series.frame(1).unwrap().iter().map(|cell| cell.ch).collect();
    assert_eq!(first, "abcd");
    assert_eq!(second, "efgh");
    assert!(series.frame(2).is_none());
    let empty = GlyphFrameSeries::new(0, 0, 0, Vec::new());
    assert!(empty.is_empty());
    assert!(empty.frame(0).is_none());
}
