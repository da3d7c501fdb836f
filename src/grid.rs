//! The pixel grid, built from the samples that an image decoder hands out.
use vstd::prelude::*;
use vstd::arithmetic::div_mod::lemma_fundamental_div_mod_converse;
use crate::palette::{calculate_legacy_color, legacy_color_of};
use crate::pixel::Pixel;

verus! {

/// One decoded sample: the color at column `x` of row `y`.
#[derive(Clone, Copy, Debug, PartialEq, Eq, Structural)]
pub struct Sample {
    pub x: usize,
    pub y: usize,
    pub r: u8,
    pub g: u8,
    pub b: u8,
}

/// Rows of pixels, row 0 at the top, column 0 at the left.
pub struct PixelGrid {
    pub rows: Vec<Vec<Pixel>>,
}

impl View for PixelGrid {
    type V = Seq<Seq<Pixel>>;

    open spec fn view(&self) -> Seq<Seq<Pixel>> {
        Seq::new(self.rows.len() as nat, |i: int| self.rows[i]@)
    }
}

/// The pixel that a sample becomes: its color, tagged with its legacy color.
pub open spec fn cell_of(s: Sample) -> Pixel {
    Pixel { r: s.r, g: s.g, b: s.b, legacy_col: legacy_color_of(s.r, s.g, s.b) }
}

/// The grid after one more sample. A sample for the row just past the last
/// one opens that row; a sample for the column just past the end of its row
/// is appended to it. Any other sample is dropped.
pub open spec fn grid_push(g: Seq<Seq<Pixel>>, s: Sample) -> Seq<Seq<Pixel>> {
    let g1 = if s.y == g.len() { g.push(Seq::empty()) } else { g };
    if s.y < g1.len() && s.x == g1[s.y as int].len() {
        g1.update(s.y as int, g1[s.y as int].push(cell_of(s)))
    } else {
        g1
    }
}

/// The grid built from a sequence of samples, taken in order.
pub open spec fn grid_of(samples: Seq<Sample>) -> Seq<Seq<Pixel>>
    decreases samples.len(),
{
    if samples.len() == 0 {
        Seq::empty()
    } else {
        grid_push(grid_of(samples.drop_last()), samples.last())
    }
}

/// Sample `i` lies at column `i mod w` of row `i div w`.
pub open spec fn is_row_major(samples: Seq<Sample>, w: int) -> bool {
    forall|i: int|
        0 <= i < samples.len() ==> (#[trigger] samples[i]).x < w && samples[i].y * w
            + samples[i].x == i
}

/// After `q * w + rem` samples in row-major order: `q` full rows, then a
/// row of `rem` pixels if `rem` is not zero, each pixel from its sample.
pub open spec fn is_row_major_prefix(
    g: Seq<Seq<Pixel>>,
    samples: Seq<Sample>,
    w: int,
    q: int,
    rem: int,
) -> bool {
    &&& g.len() == q + if rem > 0 { 1int } else { 0int }
    &&& forall|r: int| 0 <= r < q ==> (#[trigger] g[r]).len() == w
    &&& rem > 0 ==> g[q].len() == rem
    &&& forall|r: int, c: int|
        0 <= r < g.len() && 0 <= c < g[r].len() ==> #[trigger] g[r][c] == cell_of(
            samples[r * w + c],
        )
}

proof fn lemma_row_major_prefix(samples: Seq<Sample>, w: int, q: int, rem: int)
    requires
        w > 0,
        q >= 0,
        0 <= rem < w,
        q * w + rem <= samples.len(),
        is_row_major(samples, w),
    ensures
        is_row_major_prefix(grid_of(samples.subrange(0, q * w + rem)), samples, w, q, rem),
    decreases q * w + rem,
{
    let k = q * w + rem;
    if k == 0 {
        assert(q == 0) by (nonlinear_arith)
            requires
                q * w + rem == 0,
                q >= 0,
                rem >= 0,
                w > 0,
        ;
        assert(samples.subrange(0, 0) =~= Seq::<Sample>::empty());
    } else {
        let (pq, prem) = if rem > 0 { (q, rem - 1) } else { (q - 1, w - 1) };
        assert(pq >= 0 && pq * w + prem == k - 1) by (nonlinear_arith)
            requires
                k == q * w + rem,
                k > 0,
                w > 0,
                q >= 0,
                0 <= rem,
                rem > 0 ==> pq == q && prem == rem - 1,
                rem == 0 ==> pq == q - 1 && prem == w - 1,
        ;
        lemma_row_major_prefix(samples, w, pq, prem);
        let prefix = samples.subrange(0, k);
        assert(prefix.drop_last() =~= samples.subrange(0, k - 1));
        let s = samples[k - 1];
        assert(s.x < w && s.y * w + s.x == k - 1);
        lemma_fundamental_div_mod_converse(k - 1, w, s.y as int, s.x as int);
        lemma_fundamental_div_mod_converse(k - 1, w, pq, prem);
        let g0 = grid_of(samples.subrange(0, k - 1));
        let g = grid_of(prefix);
        assert(g == grid_push(g0, s));
        assert(s.y == pq && s.x == prem);
        assert(forall|r: int, c: int|
            0 <= r < g.len() && 0 <= c < g[r].len() ==> #[trigger] g[r][c] == cell_of(
                samples[r * w + c],
            )) by {
            assert forall|r: int, c: int|
                0 <= r < g.len() && 0 <= c < g[r].len() implies #[trigger] g[r][c] == cell_of(
                samples[r * w + c],
            ) by {
                if r == pq && c == prem {
                    assert(g[r][c] == cell_of(s));
                } else {
                    assert(g[r][c] == g0[r][c]);
                }
            }
        }
    }
}

/// Samples of a `w` by `h` image, fed row by row with columns ascending,
/// build a grid of `h` rows of `w` pixels, each cell holding the color of the
/// sample at its coordinates.
pub proof fn lemma_row_major_round_trip(samples: Seq<Sample>, w: int, h: int)
    requires
        w > 0,
        h >= 0,
        samples.len() == w * h,
        is_row_major(samples, w),
    ensures
        grid_of(samples).len() == h,
        forall|r: int| 0 <= r < h ==> (#[trigger] grid_of(samples)[r]).len() == w,
        forall|r: int, c: int|
            0 <= r < h && 0 <= c < w ==> {
                let p = #[trigger] grid_of(samples)[r][c];
                let s = samples[r * w + c];
                &&& s.x == c && s.y == r
                &&& p.r == s.r && p.g == s.g && p.b == s.b
                &&& p.legacy_col == legacy_color_of(s.r, s.g, s.b)
            },
{
    assert(h * w + 0 == samples.len()) by (nonlinear_arith)
        requires
            samples.len() == w * h,
    ;
    lemma_row_major_prefix(samples, w, h, 0);
    assert(samples.subrange(0, h * w + 0) =~= samples);
    let g = grid_of(samples);
    assert forall|r: int, c: int| 0 <= r < h && 0 <= c < w implies #[trigger] g[r][c] == g[r][c]
        && samples[r * w + c].x == c && samples[r * w + c].y == r by {
        assert(0 <= r * w + c < h * w) by (nonlinear_arith)
            requires
                0 <= r < h,
                0 <= c < w,
        ;
        let s = samples[r * w + c];
        lemma_fundamental_div_mod_converse(r * w + c, w, r, c);
        lemma_fundamental_div_mod_converse(r * w + c, w, s.y as int, s.x as int);
    }
}

impl PixelGrid {
    /// A grid with no rows.
    pub fn new() -> (g: PixelGrid)
        ensures
            g@ == Seq::<Seq<Pixel>>::empty(),
    {
        let g = PixelGrid { rows: Vec::new() };
        assert(g@ =~= Seq::<Seq<Pixel>>::empty());
        g
    }

    /// Adds one sample, as `grid_push` describes.
    pub fn push_sample(&mut self, s: Sample)
        ensures
            final(self)@ == grid_push(old(self)@, s),
    {
        let ghost g0 = self@;
        if self.rows.len() == s.y {
            self.rows.push(Vec::new());
        }
        let ghost g1 = self@;
        assert(g1 =~= (if s.y == g0.len() { g0.push(Seq::empty()) } else { g0 }));
        if s.y < self.rows.len() && s.x == self.rows[s.y].len() {
            let legacy_col = calculate_legacy_color(s.r, s.g, s.b);
            self.rows[s.y].push(Pixel { r: s.r, g: s.g, b: s.b, legacy_col });
            assert(self@ =~= g1.update(s.y as int, g1[s.y as int].push(cell_of(s))));
        }
    }

    /// Builds a grid from samples taken in order, as `grid_of` describes.
    pub fn from_samples(samples: &Vec<Sample>) -> (g: PixelGrid)
        ensures
            g@ == grid_of(samples@),
    {
        let mut g = PixelGrid::new();
        let mut i: usize = 0;
        while i < samples.len()
            invariant
                0 <= i <= samples.len(),
                g@ == grid_of(samples@.subrange(0, i as int)),
            decreases samples.len() - i,
        {
            assert(samples@.subrange(0, i + 1).drop_last() =~= samples@.subrange(0, i as int));
            g.push_sample(samples[i]);
            i = i + 1;
        }
        assert(samples@.subrange(0, i as int) =~= samples@);
        g
    }
}

} // verus!
