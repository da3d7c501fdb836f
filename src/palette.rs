//! The sixteen-color legacy palette and the quantizer onto it.
use vstd::prelude::*;
use crate::pixel::{LegacyColor, Pixel};

verus! {

/// Number of entries of the legacy palette.
pub const PALETTE_LEN: usize = 16;

/// The legacy palette, in the fixed order in which the quantizer tries it.
pub open spec fn palette() -> Seq<Pixel> {
    seq![
        Pixel { r: 0, g: 0, b: 0, legacy_col: LegacyColor::Black },
        Pixel { r: 128, g: 128, b: 128, legacy_col: LegacyColor::DarkGrey },
        Pixel { r: 255, g: 0, b: 0, legacy_col: LegacyColor::Red },
        Pixel { r: 128, g: 0, b: 0, legacy_col: LegacyColor::DarkRed },
        Pixel { r: 0, g: 255, b: 0, legacy_col: LegacyColor::Green },
        Pixel { r: 0, g: 128, b: 0, legacy_col: LegacyColor::DarkGreen },
        Pixel { r: 255, g: 255, b: 0, legacy_col: LegacyColor::Yellow },
        Pixel { r: 128, g: 128, b: 0, legacy_col: LegacyColor::DarkYellow },
        Pixel { r: 0, g: 0, b: 255, legacy_col: LegacyColor::Blue },
        Pixel { r: 0, g: 0, b: 128, legacy_col: LegacyColor::DarkBlue },
        Pixel { r: 255, g: 0, b: 255, legacy_col: LegacyColor::Magenta },
        Pixel { r: 128, g: 0, b: 128, legacy_col: LegacyColor::DarkMagenta },
        Pixel { r: 0, g: 255, b: 255, legacy_col: LegacyColor::Cyan },
        Pixel { r: 0, g: 128, b: 128, legacy_col: LegacyColor::DarkCyan },
        Pixel { r: 255, g: 255, b: 255, legacy_col: LegacyColor::White },
        Pixel { r: 50, g: 50, b: 50, legacy_col: LegacyColor::Grey },
    ]
}

/// The sum of the three channels.
pub open spec fn channel_sum(r: u8, g: u8, b: u8) -> int {
    r as int + g as int + b as int
}

/// Cost of rendering the color (r, g, b) as palette entry `i`: the square of
/// the difference of the channel sums.
pub open spec fn cost(i: int, r: u8, g: u8, b: u8) -> int {
    let e = palette()[i];
    let d = channel_sum(e.r, e.g, e.b) - channel_sum(r, g, b);
    d * d
}

/// Index of the first entry of lowest cost among the first `n` entries.
pub open spec fn first_min_index(r: u8, g: u8, b: u8, n: nat) -> int
    decreases n,
{
    if n <= 1 {
        0
    } else {
        let prev = first_min_index(r, g, b, (n - 1) as nat);
        if cost(n - 1, r, g, b) < cost(prev, r, g, b) {
            n - 1
        } else {
            prev
        }
    }
}

/// Index of the palette entry that the quantizer picks for (r, g, b).
pub open spec fn nearest_index(r: u8, g: u8, b: u8) -> int {
    first_min_index(r, g, b, 16)
}

/// The legacy color that the quantizer picks for (r, g, b).
pub open spec fn legacy_color_of(r: u8, g: u8, b: u8) -> LegacyColor {
    palette()[nearest_index(r, g, b)].legacy_col
}

/// Entry `i` is the one chosen among the first `n`: no entry costs less, and
/// every earlier entry costs more.
pub open spec fn is_first_min(i: int, r: u8, g: u8, b: u8, n: int) -> bool {
    &&& 0 <= i < n
    &&& forall|j: int| 0 <= j < n ==> cost(i, r, g, b) <= #[trigger] cost(j, r, g, b)
    &&& forall|j: int| 0 <= j < i ==> cost(i, r, g, b) < #[trigger] cost(j, r, g, b)
}

proof fn lemma_first_min_index(r: u8, g: u8, b: u8, n: nat)
    requires
        1 <= n <= 16,
    ensures
        is_first_min(first_min_index(r, g, b, n), r, g, b, n as int),
    decreases n,
{
    if n > 1 {
        lemma_first_min_index(r, g, b, (n - 1) as nat);
    }
}

/// The quantizer's pick costs no more than any palette entry, and every entry
/// before it in palette order costs strictly more.
pub proof fn lemma_nearest_is_minimal(r: u8, g: u8, b: u8)
    ensures
        is_first_min(nearest_index(r, g, b), r, g, b, 16),
{
    lemma_first_min_index(r, g, b, 16);
}

/// A color that equals a palette entry is quantized to that entry's color,
/// provided no earlier entry has the same channel sum.
pub proof fn lemma_exact_entry(i: int)
    requires
        0 <= i < 16,
        forall|j: int|
            0 <= j < i ==> channel_sum(palette()[j].r, palette()[j].g, palette()[j].b)
                != channel_sum(palette()[i].r, palette()[i].g, palette()[i].b),
    ensures
        legacy_color_of(palette()[i].r, palette()[i].g, palette()[i].b) == palette()[i].legacy_col,
{
    let p = palette()[i];
    lemma_nearest_is_minimal(p.r, p.g, p.b);
    let k = nearest_index(p.r, p.g, p.b);
    assert(cost(i, p.r, p.g, p.b) == 0);
    assert(cost(k, p.r, p.g, p.b) == 0) by (nonlinear_arith)
        requires
            cost(k, p.r, p.g, p.b) <= cost(i, p.r, p.g, p.b),
            cost(k, p.r, p.g, p.b) == (channel_sum(palette()[k].r, palette()[k].g, palette()[k].b)
                - channel_sum(p.r, p.g, p.b)) * (channel_sum(palette()[k].r, palette()[k].g, palette()[k].b)
                - channel_sum(p.r, p.g, p.b)),
            cost(i, p.r, p.g, p.b) == 0,
    ;
    if k != i {
        if k < i {
            assert(channel_sum(palette()[k].r, palette()[k].g, palette()[k].b)
                == channel_sum(p.r, p.g, p.b)) by (nonlinear_arith)
                requires
                    cost(k, p.r, p.g, p.b) == 0,
                    cost(k, p.r, p.g, p.b) == (channel_sum(palette()[k].r, palette()[k].g, palette()[k].b)
                        - channel_sum(p.r, p.g, p.b)) * (channel_sum(palette()[k].r, palette()[k].g, palette()[k].b)
                        - channel_sum(p.r, p.g, p.b)),
            ;
        } else {
            assert(cost(k, p.r, p.g, p.b) < cost(i, p.r, p.g, p.b));
        }
    }
}

/// The legacy palette as a vector, in palette order.
pub fn legacy_palette() -> (v: Vec<Pixel>)
    ensures
        v@ == palette(),
{
    let mut v: Vec<Pixel> = Vec::new();
    v.push(Pixel { r: 0, g: 0, b: 0, legacy_col: LegacyColor::Black });
    v.push(Pixel { r: 128, g: 128, b: 128, legacy_col: LegacyColor::DarkGrey });
    v.push(Pixel { r: 255, g: 0, b: 0, legacy_col: LegacyColor::Red });
    v.push(Pixel { r: 128, g: 0, b: 0, legacy_col: LegacyColor::DarkRed });
    v.push(Pixel { r: 0, g: 255, b: 0, legacy_col: LegacyColor::Green });
    v.push(Pixel { r: 0, g: 128, b: 0, legacy_col: LegacyColor::DarkGreen });
    v.push(Pixel { r: 255, g: 255, b: 0, legacy_col: LegacyColor::Yellow });
    v.push(Pixel { r: 128, g: 128, b: 0, legacy_col: LegacyColor::DarkYellow });
    v.push(Pixel { r: 0, g: 0, b: 255, legacy_col: LegacyColor::Blue });
    v.push(Pixel { r: 0, g: 0, b: 128, legacy_col: LegacyColor::DarkBlue });
    v.push(Pixel { r: 255, g: 0, b: 255, legacy_col: LegacyColor::Magenta });
    v.push(Pixel { r: 128, g: 0, b: 128, legacy_col: LegacyColor::DarkMagenta });
    v.push(Pixel { r: 0, g: 255, b: 255, legacy_col: LegacyColor::Cyan });
    v.push(Pixel { r: 0, g: 128, b: 128, legacy_col: LegacyColor::DarkCyan });
    v.push(Pixel { r: 255, g: 255, b: 255, legacy_col: LegacyColor::White });
    v.push(Pixel { r: 50, g: 50, b: 50, legacy_col: LegacyColor::Grey });
    assert(v@ =~= palette());
    v
}

/// The square of the difference of two channel sums.
fn square_diff(a: u64, b: u64) -> (d: u64)
    requires
        a <= 765,
        b <= 765,
    ensures
        d == (a - b) * (a - b),
{
    let diff: u64 = if a >= b { a - b } else { b - a };
    assert(diff * diff <= 765 * 765) by (nonlinear_arith)
        requires
            diff <= 765,
    ;
    assert(diff * diff == (a - b) * (a - b)) by (nonlinear_arith)
        requires
            diff == a - b || diff == b - a,
    ;
    diff * diff
}

/// Quantizes (r, g, b) to the legacy color whose channel sum is nearest to
/// its own; among equally near entries the earliest in palette order wins.
pub fn calculate_legacy_color(r: u8, g: u8, b: u8) -> (col: LegacyColor)
    ensures
        col == legacy_color_of(r, g, b),
{
    let colors = legacy_palette();
    let pixel_sum: u64 = (r as u64) + (g as u64) + (b as u64);
    let first = colors[0];
    let first_sum: u64 = (first.r as u64) + (first.g as u64) + (first.b as u64);
    let mut best: usize = 0;
    let mut low_cost: u64 = square_diff(first_sum, pixel_sum);
    let mut i: usize = 1;
    while i < PALETTE_LEN
        invariant
            1 <= i <= PALETTE_LEN,
            colors@ == palette(),
            pixel_sum == channel_sum(r, g, b),
            best == first_min_index(r, g, b, i as nat),
            0 <= best < i,
            low_cost == cost(best as int, r, g, b),
        decreases PALETTE_LEN - i,
    {
        let color = colors[i];
        let color_sum: u64 = (color.r as u64) + (color.g as u64) + (color.b as u64);
        let c: u64 = square_diff(color_sum, pixel_sum);
        if c < low_cost {
            low_cost = c;
            best = i;
        }
        i = i + 1;
    }
    colors[best].legacy_col
}

} // verus!
