use ascii_render::{CellAspect, LayoutPolicy};

fn square() -> CellAspect {
    CellAspect::new(1, 1)
}

#[test]
fn fixed_columns_rounds_rows_to_nearest() {
    // 480 / 640 * 100 * 11 / 20 = 41.25
    let geometry = LayoutPolicy::FixedColumns(100).derive(640, 480, CellAspect::new(11, 20)).unwrap();
    assert_eq!(geometry.columns, 100);
    assert_eq!(geometry.rows, 41);
    assert_eq!(geometry.cell_aspect.numerator, 11);
    assert_eq!(geometry.cell_aspect.denominator, 20);
}

#[test]
fn fixed_columns_on_wide_source() {
    // 1080 / 1920 * 120 * 11 / 20 = 37.125
    let geometry = LayoutPolicy::FixedColumns(120).derive(1920, 1080, CellAspect::new(11, 20)).unwrap();
    assert_eq!((geometry.columns, geometry.rows), (120, 37));
}

#[test]
fn fixed_columns_square_source_square_cells() {
    let geometry = LayoutPolicy::FixedColumns(2).derive(2, 2, square()).unwrap();
    assert_eq!((geometry.columns, geometry.rows), (2, 2));
}

#[test]
fn fixed_columns_rounds_half_up() {
    // 1 / 2 * 1 * 1 = 0.5 rounds to 1; 3 / 2 * 1 = 1.5 rounds to 2
    let geometry = LayoutPolicy::FixedColumns(1).derive(2, 1, square()).unwrap();
    assert_eq!(geometry.rows, 1);
    let geometry = LayoutPolicy::FixedColumns(1).derive(2, 3, square()).unwrap();
    assert_eq!(geometry.rows, 2);
}

#[test]
fn rows_are_at_least_one() {
    let geometry = LayoutPolicy::FixedColumns(1).derive(100, 1, square()).unwrap();
    assert_eq!((geometry.columns, geometry.rows), (1, 1));
}

#[test]
fn a_policy_without_cells_has_no_geometry() {
    assert!(LayoutPolicy::FixedColumns(0).derive(10, 10, square()).is_none());
    let fit = LayoutPolicy::FitViewport { columns: 0, rows: 24, cell_aspect: square() };
    assert!(fit.derive(100, 100, square()).is_none());
    let fit = LayoutPolicy::FitViewport { columns: 80, rows: 0, cell_aspect: square() };
    assert!(fit.derive(100, 100, square()).is_none());
    let fit = LayoutPolicy::FitViewport { columns: 0, rows: 0, cell_aspect: square() };
    assert!(fit.derive(100, 100, square()).is_none());
    let scale = LayoutPolicy::ScaleToHeight { rows: 0, cell_aspect: square() };
    assert!(scale.derive(10, 10, square()).is_none());
}

#[test]
fn fixed_columns_are_kept() {
    for columns in [1u16, 2, 80, 65535] {
        let geometry = LayoutPolicy::FixedColumns(columns).derive(640, 480, square()).unwrap();
        assert_eq!(geometry.columns, columns);
        assert!(geometry.rows >= 1);
    }
}

#[test]
fn rows_saturate_at_the_largest_dimension() {
    let geometry = LayoutPolicy::FixedColumns(65535).derive(1, 4_000_000, square()).unwrap();
    assert_eq!((geometry.columns, geometry.rows), (65535, 65535));
}

#[test]
fn source_without_pixels_has_no_geometry() {
    assert!(LayoutPolicy::FixedColumns(10).derive(0, 10, square()).is_none());
    assert!(LayoutPolicy::FixedColumns(10).derive(10, 0, square()).is_none());
    let fit = LayoutPolicy::FitViewport { columns: 80, rows: 24, cell_aspect: square() };
    assert!(fit.derive(0, 0, square()).is_none());
    let scale = LayoutPolicy::ScaleToHeight { rows: 24, cell_aspect: square() };
    assert!(scale.derive(0, 5, square()).is_none());
}

#[test]
fn fit_viewport_narrows_columns_when_rows_overflow() {
    // natural rows for 80 columns: 0.75 * 80 * 0.5 = 30 > 24;
    // columns for 24 rows: 24 / (0.75 * 0.5) = 64
    let fit = LayoutPolicy::FitViewport { columns: 80, rows: 24, cell_aspect: CellAspect::new(1, 2) };
    let geometry = fit.derive(640, 480, square()).unwrap();
    assert_eq!((geometry.columns, geometry.rows), (64, 24));
    assert_eq!(geometry.cell_aspect.numerator, 1);
    assert_eq!(geometry.cell_aspect.denominator, 2);
}

#[test]
fn fit_viewport_keeps_columns_when_rows_fit() {
    let fit = LayoutPolicy::FitViewport { columns: 80, rows: 40, cell_aspect: CellAspect::new(1, 2) };
    let geometry = fit.derive(640, 480, square()).unwrap();
    assert_eq!((geometry.columns, geometry.rows), (80, 30));
}

#[test]
fn fit_viewport_never_exceeds_caps() {
    let aspects = [(1u32, 1u32), (1, 2), (11, 20), (3, 1), (1, 1000), (1000, 1)];
    let sizes = [(1u32, 1u32), (640, 480), (480, 640), (1, 5000), (5000, 1), (4_000_000, 3)];
    let caps = [(1u16, 1u16), (80, 24), (24, 80), (65535, 1), (1, 65535), (200, 200)];
    for &(numerator, denominator) in aspects.iter() {
        for &(width, height) in sizes.iter() {
            for &(columns, rows) in caps.iter() {
                let cell_aspect = CellAspect::new(numerator, denominator);
                let fit = LayoutPolicy::FitViewport { columns, rows, cell_aspect };
                let geometry = fit.derive(width, height, square()).unwrap();
                assert!(geometry.columns >= 1 && geometry.columns <= columns);
                assert!(geometry.rows >= 1 && geometry.rows <= rows);
            }
        }
    }
}

#[test]
fn fit_viewport_with_very_tall_source_keeps_one_column() {
    let fit = LayoutPolicy::FitViewport { columns: 80, rows: 24, cell_aspect: square() };
    let geometry = fit.derive(1, 1000, square()).unwrap();
    assert_eq!((geometry.columns, geometry.rows), (1, 24));
}

#[test]
fn scale_to_height_derives_columns() {
    // 24 / (0.75 * 0.5) = 64
    let scale = LayoutPolicy::ScaleToHeight { rows: 24, cell_aspect: CellAspect::new(1, 2) };
    let geometry = scale.derive(640, 480, square()).unwrap();
    assert_eq!((geometry.columns, geometry.rows), (64, 24));
}

#[test]
fn scale_to_height_columns_are_at_least_one() {
    // 10 / 1000 = 0.01 rounds to 0 and is raised to 1
    let scale = LayoutPolicy::ScaleToHeight { rows: 10, cell_aspect: square() };
    let geometry = scale.derive(1, 1000, square()).unwrap();
    assert_eq!((geometry.columns, geometry.rows), (1, 10));
    let scale = LayoutPolicy::ScaleToHeight { rows: 1, cell_aspect: square() };
    let geometry = scale.derive(10, 10, square()).unwrap();
    assert_eq!((geometry.columns, geometry.rows), (1, 1));
}

#[test]
fn cell_aspects_compare_by_value() {
    assert!(CellAspect::new(1, 2).equals(&CellAspect::new(2, 4)));
    assert!(!CellAspect::new(1, 2).equals(&CellAspect::new(2, 3)));
    assert!(CellAspect::square().equals(&CellAspect::new(7, 7)));
}
