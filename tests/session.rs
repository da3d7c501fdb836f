use termsprite::grid::PixelGrid;
use termsprite::palette::calculate_legacy_color;
use termsprite::pixel::Pixel;
use termsprite::render::{render_plan, RenderOp};
use termsprite::session::{RenderSession, WriteOutcome};

fn px(r: u8) -> Pixel {
    Pixel { r, g: 0, b: 0, legacy_col: calculate_legacy_color(r, 0, 0) }
}

fn grid() -> PixelGrid {
    PixelGrid { rows: (0..4u8).map(|y| (0..2u8).map(|x| px(10 * y + x)).collect()).collect() }
}

#[test]
fn failed_writes_do_not_stop_later_writes() {
    let plan = render_plan(&grid(), false);
    let mut session = RenderSession::new(&grid(), false);
    let mut attempted = Vec::new();
    let mut reported = Vec::new();
    let mut i = 0;
    while let Some(op) = session.next_action() {
        attempted.push(op);
        // Every other write fails, the first glyph among them.
        let outcome = if i % 2 == 0 { WriteOutcome::Failed } else { WriteOutcome::Written };
        if let Some(failed) = session.record(outcome) {
            reported.push(failed);
        }
        i += 1;
    }
    assert_eq!(attempted, plan);
    assert_eq!(attempted.len(), 6);
    assert_eq!(reported, vec![plan[0], plan[2], plan[4]]);
    assert_eq!(session.failures(), 3);
    assert!(session.is_finished());
}

#[test]
fn all_writes_failing_still_attempts_everything() {
    let mut session = RenderSession::new(&grid(), true);
    let mut breaks = 0;
    let mut glyphs = 0;
    while let Some(op) = session.next_action() {
        match op {
            RenderOp::LineBreak => breaks += 1,
            RenderOp::Glyph { .. } => glyphs += 1,
        }
        assert_eq!(session.record(WriteOutcome::Failed), Some(op));
    }
    assert_eq!((breaks, glyphs), (2, 4));
    assert_eq!(session.failures(), 6);
}

#[test]
fn successful_writes_are_not_reported() {
    let mut session = RenderSession::new(&grid(), false);
    assert!(!session.is_finished());
    while session.next_action().is_some() {
        assert_eq!(session.record(WriteOutcome::Written), None);
    }
    assert_eq!(session.failures(), 0);
    assert!(session.is_finished());
}
