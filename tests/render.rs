use termsprite::grid::PixelGrid;
use termsprite::palette::calculate_legacy_color;
use termsprite::pixel::{LegacyColor, Pixel};
use termsprite::render::{output, render_plan, RenderOp, TermColor, LOWER_HALF_BLOCK};

fn px(r: u8, g: u8, b: u8) -> Pixel {
    Pixel { r, g, b, legacy_col: calculate_legacy_color(r, g, b) }
}

fn uniform(w: usize, h: usize) -> PixelGrid {
    PixelGrid { rows: (0..h).map(|y| (0..w).map(|x| px(x as u8, y as u8, 0)).collect()).collect() }
}

fn counts(ops: &[RenderOp]) -> (usize, usize) {
    let breaks = ops.iter().filter(|o| **o == RenderOp::LineBreak).count();
    (breaks, ops.len() - breaks)
}

#[test]
fn single_row_draws_nothing() {
    assert!(render_plan(&uniform(5, 1), false).is_empty());
    assert!(render_plan(&uniform(5, 0), true).is_empty());
}

#[test]
fn four_rows_of_three_draw_two_lines_of_three() {
    let ops = render_plan(&uniform(3, 4), false);
    assert_eq!(counts(&ops), (2, 6));
    assert_eq!(ops[3], RenderOp::LineBreak);
    assert_eq!(ops[7], RenderOp::LineBreak);
}

#[test]
fn line_breaks_are_half_the_rows() {
    for h in 0..9 {
        let ops = render_plan(&uniform(2, h), true);
        assert_eq!(counts(&ops), (h / 2, (h / 2) * 2));
    }
}

#[test]
fn odd_last_row_is_not_drawn() {
    let ops = render_plan(&uniform(1, 3), false);
    assert_eq!(
        ops,
        vec![
            RenderOp::Glyph {
                foreground: TermColor::Rgb { r: 0, g: 1, b: 0 },
                background: TermColor::Rgb { r: 0, g: 0, b: 0 },
            },
            RenderOp::LineBreak,
        ]
    );
}

#[test]
fn true_color_passes_colors_through() {
    let grid = PixelGrid { rows: vec![vec![px(10, 20, 30)], vec![px(40, 50, 60)]] };
    let ops = render_plan(&grid, false);
    assert_eq!(
        ops,
        vec![
            RenderOp::Glyph {
                foreground: TermColor::Rgb { r: 40, g: 50, b: 60 },
                background: TermColor::Rgb { r: 10, g: 20, b: 30 },
            },
            RenderOp::LineBreak,
        ]
    );
}

#[test]
fn legacy_mode_quantizes_both_colors() {
    let grid = PixelGrid { rows: vec![vec![px(10, 20, 30)], vec![px(40, 50, 60)]] };
    let ops = render_plan(&grid, true);
    assert_eq!(
        ops,
        vec![
            RenderOp::Glyph {
                foreground: TermColor::Legacy(calculate_legacy_color(40, 50, 60)),
                background: TermColor::Legacy(calculate_legacy_color(10, 20, 30)),
            },
            RenderOp::LineBreak,
        ]
    );
    assert_eq!(calculate_legacy_color(40, 50, 60), LegacyColor::Grey);
    assert_eq!(calculate_legacy_color(10, 20, 30), LegacyColor::Black);
}

#[test]
fn shorter_upper_row_reads_as_black() {
    let grid = PixelGrid { rows: vec![vec![px(1, 2, 3)], vec![px(4, 5, 6), px(7, 8, 9)]] };
    let ops = render_plan(&grid, false);
    assert_eq!(ops.len(), 3);
    assert_eq!(
        ops[1],
        RenderOp::Glyph {
            foreground: TermColor::Rgb { r: 7, g: 8, b: 9 },
            background: TermColor::Rgb { r: 0, g: 0, b: 0 },
        }
    );
}

#[test]
fn longer_upper_row_is_cut_to_the_lower() {
    let grid = PixelGrid { rows: vec![vec![px(1, 2, 3), px(4, 5, 6)], vec![px(7, 8, 9)]] };
    assert_eq!(counts(&render_plan(&grid, false)), (1, 1));
}

#[test]
fn output_takes_foreground_from_lower_pixel() {
    let upper = px(255, 255, 255);
    let lower = px(0, 0, 0);
    assert_eq!(
        output(&upper, &lower, true),
        RenderOp::Glyph {
            foreground: TermColor::Legacy(LegacyColor::Black),
            background: TermColor::Legacy(LegacyColor::White),
        }
    );
    assert_eq!(LOWER_HALF_BLOCK, '\u{2584}');
}
