use termsprite::grid::{PixelGrid, Sample};
use termsprite::palette::calculate_legacy_color;
use termsprite::pixel::Pixel;

fn sample(x: usize, y: usize, r: u8, g: u8, b: u8) -> Sample {
    Sample { x, y, r, g, b }
}

#[test]
fn row_major_samples_round_trip() {
    let (w, h) = (3usize, 2usize);
    let mut samples = Vec::new();
    for y in 0..h {
        for x in 0..w {
            samples.push(sample(x, y, (10 * x) as u8, (100 + y) as u8, (x + y) as u8));
        }
    }
    let grid = PixelGrid::from_samples(&samples);
    assert_eq!(grid.rows.len(), h);
    for y in 0..h {
        assert_eq!(grid.rows[y].len(), w);
        for x in 0..w {
            let p = grid.rows[y][x];
            assert_eq!((p.r, p.g, p.b), ((10 * x) as u8, (100 + y) as u8, (x + y) as u8));
            assert_eq!(p.legacy_col, calculate_legacy_color(p.r, p.g, p.b));
        }
    }
}

#[test]
fn no_samples_give_no_rows() {
    let grid = PixelGrid::from_samples(&Vec::new());
    assert!(grid.rows.is_empty());
}

#[test]
fn out_of_order_samples_are_dropped() {
    let samples = vec![
        sample(0, 1, 1, 1, 1), // row 1 before row 0: dropped
        sample(1, 0, 2, 2, 2), // opens row 0, but column 1 before column 0: dropped
        sample(0, 0, 3, 3, 3),
        sample(0, 0, 4, 4, 4), // the same cell again: dropped
        sample(0, 2, 5, 5, 5), // skips row 1: dropped
        sample(1, 0, 6, 6, 6),
        sample(0, 1, 7, 7, 7),
    ];
    let grid = PixelGrid::from_samples(&samples);
    assert_eq!(grid.rows.len(), 2);
    assert_eq!(grid.rows[0].len(), 2);
    assert_eq!(grid.rows[1].len(), 1);
    assert_eq!((grid.rows[0][0].r, grid.rows[0][1].r, grid.rows[1][0].r), (3, 6, 7));
}

#[test]
fn push_sample_appends_in_place() {
    let mut grid = PixelGrid::new();
    grid.push_sample(sample(0, 0, 0, 255, 0));
    grid.push_sample(sample(0, 1, 9, 9, 9));
    grid.push_sample(sample(1, 0, 7, 7, 7));
    assert_eq!(grid.rows.len(), 2);
    assert_eq!(grid.rows[0].len(), 2);
    assert_eq!(grid.rows[1].len(), 1);
    assert_eq!(
        grid.rows[0][0],
        Pixel { r: 0, g: 255, b: 0, legacy_col: calculate_legacy_color(0, 255, 0) }
    );
    assert_eq!(grid.rows[0][1].r, 7);
}
