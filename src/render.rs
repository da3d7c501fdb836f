//! The block renderer: turns vertical pairs of grid rows into colored glyphs.
use vstd::prelude::*;
use crate::grid::PixelGrid;
use crate::palette::{calculate_legacy_color, legacy_color_of};
use crate::pixel::{LegacyColor, Pixel};

verus! {

/// The lower half block, whose foreground paints the lower half of a cell
/// and whose background the upper half.
pub const LOWER_HALF_BLOCK: char = '\u{2584}';

/// A terminal color: a true color, or one of the sixteen legacy colors.
#[derive(Clone, Copy, Debug, PartialEq, Eq, Structural)]
pub enum TermColor {
    Rgb { r: u8, g: u8, b: u8 },
    Legacy(LegacyColor),
}

/// One write to the terminal.
#[derive(Clone, Copy, Debug, PartialEq, Eq, Structural)]
pub enum RenderOp {
    /// A lower half block in these colors, with the styling reset after it.
    Glyph { foreground: TermColor, background: TermColor },
    /// The end of a row pair.
    LineBreak,
}

/// The color in which a pixel is drawn: quantized in legacy mode, else its
/// own color.
pub open spec fn term_color_of(p: Pixel, legacy: bool) -> TermColor {
    if legacy {
        TermColor::Legacy(legacy_color_of(p.r, p.g, p.b))
    } else {
        TermColor::Rgb { r: p.r, g: p.g, b: p.b }
    }
}

/// The glyph for an upper and a lower pixel.
pub open spec fn glyph_of(upper: Pixel, lower: Pixel, legacy: bool) -> RenderOp {
    RenderOp::Glyph {
        foreground: term_color_of(lower, legacy),
        background: term_color_of(upper, legacy),
    }
}

/// Column `x` of the upper row, or a black pixel where that row is shorter.
pub open spec fn upper_at(upper: Seq<Pixel>, x: int) -> Pixel {
    if 0 <= x < upper.len() {
        upper[x]
    } else {
        Pixel { r: 0, g: 0, b: 0, legacy_col: LegacyColor::Red }
    }
}

/// The glyphs of the first `n` columns of a row pair.
pub open spec fn pair_glyphs(upper: Seq<Pixel>, lower: Seq<Pixel>, legacy: bool, n: nat) -> Seq<
    RenderOp,
> {
    Seq::new(n, |x: int| glyph_of(upper_at(upper, x), lower[x], legacy))
}

/// A row pair: one glyph per column of the lower row, then a line break.
pub open spec fn pair_ops(upper: Seq<Pixel>, lower: Seq<Pixel>, legacy: bool) -> Seq<RenderOp> {
    pair_glyphs(upper, lower, legacy, lower.len()).push(RenderOp::LineBreak)
}

/// The writes for the first `n` row pairs; pair `k` is rows `2k` and `2k + 1`.
pub open spec fn pairs_ops(g: Seq<Seq<Pixel>>, legacy: bool, n: nat) -> Seq<RenderOp>
    decreases n,
{
    if n == 0 {
        Seq::empty()
    } else {
        pairs_ops(g, legacy, (n - 1) as nat) + pair_ops(
            g[2 * n - 2],
            g[2 * n - 1],
            legacy,
        )
    }
}

/// The writes for a whole grid. A last row without a partner is not drawn.
pub open spec fn render_ops(g: Seq<Seq<Pixel>>, legacy: bool) -> Seq<RenderOp> {
    pairs_ops(g, legacy, g.len() / 2)
}

/// Number of line breaks among the writes.
pub open spec fn line_breaks(ops: Seq<RenderOp>) -> nat
    decreases ops.len(),
{
    if ops.len() == 0 {
        0
    } else {
        line_breaks(ops.drop_last()) + if ops.last() is LineBreak { 1nat } else { 0nat }
    }
}

/// Number of glyphs among the writes.
pub open spec fn glyphs(ops: Seq<RenderOp>) -> nat
    decreases ops.len(),
{
    if ops.len() == 0 {
        0
    } else {
        glyphs(ops.drop_last()) + if ops.last() is Glyph { 1nat } else { 0nat }
    }
}

/// Total length of the lower rows of the first `n` row pairs.
pub open spec fn lower_columns(g: Seq<Seq<Pixel>>, n: nat) -> nat
    decreases n,
{
    if n == 0 {
        0
    } else {
        lower_columns(g, (n - 1) as nat) + g[2 * n - 1].len()
    }
}

proof fn lemma_counts_add(a: Seq<RenderOp>, b: Seq<RenderOp>)
    ensures
        line_breaks(a + b) == line_breaks(a) + line_breaks(b),
        glyphs(a + b) == glyphs(a) + glyphs(b),
    decreases b.len(),
{
    if b.len() > 0 {
        assert((a + b).drop_last() =~= a + b.drop_last());
        lemma_counts_add(a, b.drop_last());
    } else {
        assert(a + b =~= a);
    }
}

proof fn lemma_pair_glyphs_counts(upper: Seq<Pixel>, lower: Seq<Pixel>, legacy: bool, n: nat)
    requires
        n <= lower.len(),
    ensures
        line_breaks(pair_glyphs(upper, lower, legacy, n)) == 0,
        glyphs(pair_glyphs(upper, lower, legacy, n)) == n,
    decreases n,
{
    if n > 0 {
        assert(pair_glyphs(upper, lower, legacy, n).drop_last() =~= pair_glyphs(
            upper,
            lower,
            legacy,
            (n - 1) as nat,
        ));
        lemma_pair_glyphs_counts(upper, lower, legacy, (n - 1) as nat);
    }
}

proof fn lemma_pairs_counts(g: Seq<Seq<Pixel>>, legacy: bool, n: nat)
    requires
        2 * n <= g.len(),
    ensures
        line_breaks(pairs_ops(g, legacy, n)) == n,
        glyphs(pairs_ops(g, legacy, n)) == lower_columns(g, n),
    decreases n,
{
    if n > 0 {
        lemma_pairs_counts(g, legacy, (n - 1) as nat);
        let upper = g[2 * n - 2];
        let lower = g[2 * n - 1];
        lemma_pair_glyphs_counts(upper, lower, legacy, lower.len());
        let p = pair_ops(upper, lower, legacy);
        assert(p.drop_last() =~= pair_glyphs(upper, lower, legacy, lower.len()));
        lemma_counts_add(pairs_ops(g, legacy, (n - 1) as nat), p);
    }
}

proof fn lemma_lower_columns_rectangular(g: Seq<Seq<Pixel>>, w: nat, n: nat)
    requires
        2 * n <= g.len(),
        forall|r: int| 0 <= r < g.len() ==> (#[trigger] g[r]).len() == w,
    ensures
        lower_columns(g, n) == n * w,
    decreases n,
{
    if n > 0 {
        let m = (n - 1) as nat;
        lemma_lower_columns_rectangular(g, w, m);
        assert(lower_columns(g, n) == m * w + w);
        assert(m * w + w == n * w) by (nonlinear_arith)
            requires
                m + 1 == n,
        ;
    } else {
        assert(n * w == 0) by (nonlinear_arith)
            requires
                n == 0,
        ;
    }
}

/// A grid of `h` rows is drawn with `h / 2` line breaks, and with as many
/// glyphs as the lower rows of its row pairs have columns.
pub proof fn lemma_row_pairing(g: Seq<Seq<Pixel>>, legacy: bool)
    ensures
        line_breaks(render_ops(g, legacy)) == g.len() / 2,
        glyphs(render_ops(g, legacy)) == lower_columns(g, g.len() / 2),
{
    lemma_pairs_counts(g, legacy, g.len() / 2);
}

/// A grid of `h` rows of `w` pixels each is drawn with `(h / 2) * w` glyphs.
pub proof fn lemma_rectangular_glyph_count(g: Seq<Seq<Pixel>>, legacy: bool, w: nat)
    requires
        forall|r: int| 0 <= r < g.len() ==> (#[trigger] g[r]).len() == w,
    ensures
        glyphs(render_ops(g, legacy)) == (g.len() / 2) * w,
{
    lemma_pairs_counts(g, legacy, g.len() / 2);
    lemma_lower_columns_rectangular(g, w, g.len() / 2);
}

/// The color in which a pixel is drawn.
pub fn term_color(p: &Pixel, legacy: bool) -> (c: TermColor)
    ensures
        c == term_color_of(*p, legacy),
{
    if legacy {
        TermColor::Legacy(calculate_legacy_color(p.r, p.g, p.b))
    } else {
        TermColor::Rgb { r: p.r, g: p.g, b: p.b }
    }
}

/// The glyph that stands for `upper` above `lower`: the lower pixel gives
/// the foreground, the upper one the background.
pub fn output(upper_pixel: &Pixel, lower_pixel: &Pixel, legacy: bool) -> (op: RenderOp)
    ensures
        op == glyph_of(*upper_pixel, *lower_pixel, legacy),
{
    let foreground = term_color(lower_pixel, legacy);
    let background = term_color(upper_pixel, legacy);
    RenderOp::Glyph { foreground, background }
}

/// Every write for the grid, in order: for each row pair, a glyph for each
/// column of its lower row, then a line break.
pub fn render_plan(grid: &PixelGrid, legacy: bool) -> (ops: Vec<RenderOp>)
    ensures
        ops@ == render_ops(grid@, legacy),
{
    let ghost g = grid@;
    let mut ops: Vec<RenderOp> = Vec::new();
    let pairs: usize = grid.rows.len() / 2;
    let mut k: usize = 0;
    while k < pairs
        invariant
            g == grid@,
            pairs == g.len() / 2,
            0 <= k <= pairs,
            ops@ == pairs_ops(g, legacy, k as nat),
        decreases pairs - k,
    {
        let upper = &grid.rows[2 * k];
        let lower = &grid.rows[2 * k + 1];
        assert(upper@ == g[2 * k as int] && lower@ == g[2 * k + 1]);
        let ghost before = ops@;
        let mut x: usize = 0;
        while x < lower.len()
            invariant
                0 <= x <= lower.len(),
                ops@ == before + pair_glyphs(upper@, lower@, legacy, x as nat),
            decreases lower.len() - x,
        {
            let op = if x < upper.len() {
                output(&upper[x], &lower[x], legacy)
            } else {
                output(&Pixel::default(), &lower[x], legacy)
            };
            ops.push(op);
            assert(pair_glyphs(upper@, lower@, legacy, (x + 1) as nat) =~= pair_glyphs(
                upper@,
                lower@,
                legacy,
                x as nat,
            ).push(op));
            x = x + 1;
        }
        ops.push(RenderOp::LineBreak);
        assert(ops@ =~= pairs_ops(g, legacy, (k + 1) as nat));
        k = k + 1;
    }
    ops
}

} // verus!
