pub mod queue;
pub mod render;
pub mod session;
pub mod sink;
pub mod stage;

use vstd::prelude::*;
use vstd::arithmetic::div_mod::lemma_div_is_ordered;
use vstd::arithmetic::div_mod::lemma_div_pos_is_pos;
use vstd::arithmetic::div_mod::lemma_fundamental_div_mod_converse;

verus! {

/// Number of glyphs in the palette.
pub const PALETTE_LEN: usize = 14;

/// The fixed glyph palette, in increasing visual density.
pub open spec fn palette() -> Seq<char> {
    seq![' ', '.', ':', '-', '~', '=', '+', '*', 'o', '%', '&', '8', '#', '@']
}

/// Palette index chosen for a lightness percentage: 100 maps to the densest
/// glyph, every other value to the highest index whose threshold it reaches.
pub open spec fn symbol_index(l: u8) -> int {
    if l == 100 {
        13
    } else if l as int / 8 >= 12 {
        12
    } else {
        l as int / 8
    }
}

/// The palette glyph at the given index.
pub fn palette_char(i: usize) -> (c: char)
    requires
        i < PALETTE_LEN,
    ensures
        c == palette()[i as int],
{
    match i {
        0 => ' ',
        1 => '.',
        2 => ':',
        3 => '-',
        4 => '~',
        5 => '=',
        6 => '+',
        7 => '*',
        8 => 'o',
        9 => '%',
        10 => '&',
        11 => '8',
        12 => '#',
        _ => '@',
    }
}

/// Get the symbol matching the lightness.
pub fn symbol(lightness: u8) -> (c: char)
    ensures
        c == palette()[symbol_index(lightness)],
{
    if lightness == 100 {
        palette_char(PALETTE_LEN - 1)
    } else if lightness == 0 {
        palette_char(0)
    } else {
        let step: usize = 100 / (PALETTE_LEN - 2);
        assert(step == 100int / 12 == 8);
        let mut i: usize = PALETTE_LEN - 2;
        while i >= 1
            invariant
                i <= 12,
                1 <= lightness,
                lightness != 100,
                step == 8,
                forall|j: int| i < j <= 12 ==> (lightness as int) < #[trigger] (j * 8),
            decreases i,
        {
            if lightness as usize >= i * step {
                proof {
                    let l = lightness as int;
                    if i == 12 {
                        lemma_div_is_ordered(96, l, 8);
                        assert(96int / 8 == 12);
                        assert(symbol_index(lightness) == 12);
                    } else {
                        assert(i * 8 <= l < (i + 1) * 8);
                        assert(l / 8 == i as int) by (nonlinear_arith)
                            requires
                                i * 8 <= l < (i + 1) * 8,
                                0 <= i < 12,
                        ;
                        assert(symbol_index(lightness) == i as int);
                    }
                }
                return palette_char(i);
            }
            i -= 1;
        }
        proof {
            let l = lightness as int;
            assert(l < 1 * 8);
            assert(l / 8 == 0);
            assert(symbol_index(lightness) == 0);
        }
        palette_char(0)
    }
}

/// Law: the glyph chosen for a lightness never gets less dense as the
/// lightness grows; the palette index is a monotonic step function on the
/// lightness range `[0, 100]`.
pub proof fn lemma_symbol_monotonic(l1: u8, l2: u8)
    requires
        l1 <= l2,
        l2 <= 100,
    ensures
        symbol_index(l1) <= symbol_index(l2),
{
    lemma_div_is_ordered(l1 as int, l2 as int, 8);
    assert(l1 as int / 8 >= 0);
}

/// The larger of two integers.
pub open spec fn max2(a: int, b: int) -> int {
    if a >= b { a } else { b }
}

/// The smaller of two integers.
pub open spec fn min2(a: int, b: int) -> int {
    if a <= b { a } else { b }
}

/// The largest of three integers.
pub open spec fn max3(a: int, b: int, c: int) -> int {
    max2(a, max2(b, c))
}

/// The smallest of three integers.
pub open spec fn min3(a: int, b: int, c: int) -> int {
    min2(a, min2(b, c))
}

/// `n / d` rounded to the nearest integer, halves rounded up,
/// for `n >= 0` and `d > 0`.
pub open spec fn round_div(n: int, d: int) -> int {
    (2 * n + d) / (2 * d)
}

/// Lightness percentage of an RGB pixel, from the sum of the largest and
/// smallest channel: `round(100 * (max + min) / 510)`.
pub open spec fn lightness_of_sum(s: int) -> int {
    round_div(100 * s, 510)
}

/// Lightness percentage of an RGB pixel.
pub open spec fn lightness_of(r: u8, g: u8, b: u8) -> int {
    lightness_of_sum(max3(r as int, g as int, b as int) + min3(r as int, g as int, b as int))
}

/// Get the lightness of the given `RGB` values, as a percentage in `[0, 100]`.
pub fn get_lightness(r: u8, g: u8, b: u8) -> (l: u8)
    ensures
        l == lightness_of(r, g, b),
        l <= 100,
{
    let max: u8 = if r >= g && r >= b { r } else if g >= b { g } else { b };
    let min: u8 = if r <= g && r <= b { r } else if g <= b { g } else { b };
    let sum: u32 = max as u32 + min as u32;
    let l: u32 = (200 * sum + 510) / 1020;
    l as u8
}

/// `round_div(n, d)` is at most `k` whenever `n` is at most `k * d`.
pub(crate) proof fn lemma_round_div_le(n: int, d: int, k: int)
    requires
        0 <= n,
        0 < d,
        n <= k * d,
    ensures
        0 <= round_div(n, d) <= k,
{
    lemma_div_pos_is_pos(2 * n + d, 2 * d);
    lemma_div_is_ordered(2 * n + d, 2 * (k * d) + d, 2 * d);
    assert(2 * (k * d) + d == k * (2 * d) + d) by (nonlinear_arith);
    lemma_fundamental_div_mod_converse(k * (2 * d) + d, 2 * d, k, d);
}

/// Hue of an RGB pixel in degrees, the angle rounded to the nearest integer:
/// `0` for a grey pixel, otherwise measured from the dominant channel.
pub open spec fn hue_of(r: u8, g: u8, b: u8) -> int {
    let mx = max3(r as int, g as int, b as int);
    let mn = min3(r as int, g as int, b as int);
    let d = mx - mn;
    if d == 0 {
        0
    } else if r as int == mx {
        if g >= b {
            round_div(60 * (g as int - b as int), d)
        } else {
            round_div(360 * d - 60 * (b as int - g as int), d)
        }
    } else if g as int == mx {
        round_div(120 * d + 60 * (b as int - r as int), d)
    } else {
        round_div(240 * d + 60 * (r as int - g as int), d)
    }
}

/// Saturation percentage of an RGB pixel, rounded to the nearest integer:
/// the channel spread relative to how far the lightness sits from the
/// nearer of black and white.
pub open spec fn saturation_of(r: u8, g: u8, b: u8) -> int {
    let mx = max3(r as int, g as int, b as int);
    let mn = min3(r as int, g as int, b as int);
    let d = mx - mn;
    let s = mx + mn;
    if d == 0 {
        0
    } else if s > 255 {
        round_div(100 * d, 510 - s)
    } else {
        round_div(100 * d, s)
    }
}

/// `n / d` rounded to the nearest integer, halves up.
fn round_div_u32(n: u32, d: u32) -> (q: u32)
    requires
        0 < d,
        2 * n + d <= u32::MAX,
        2 * d <= u32::MAX,
    ensures
        q == round_div(n as int, d as int),
{
    (2 * n + d) / (2 * d)
}

/// Convert given `RGB` value into `HSL`: hue in `[0, 360]`, saturation and
/// lightness as percentages in `[0, 100]`.
pub fn rgb_to_hsl(r: u8, g: u8, b: u8) -> (hsl: (u16, u8, u8))
    ensures
        hsl.0 == hue_of(r, g, b),
        hsl.1 == saturation_of(r, g, b),
        hsl.2 == lightness_of(r, g, b),
        hsl.0 <= 360,
        hsl.1 <= 100,
        hsl.2 <= 100,
{
    let max: u8 = if r >= g && r >= b { r } else if g >= b { g } else { b };
    let min: u8 = if r <= g && r <= b { r } else if g <= b { g } else { b };
    let d: u32 = (max - min) as u32;
    let sum: u32 = max as u32 + min as u32;

    let h: u32 = if d == 0 {
        0
    } else if max == r {
        if g >= b {
            proof { lemma_round_div_le(60 * (g - b), d as int, 60); }
            round_div_u32(60 * (g as u32 - b as u32), d)
        } else {
            proof { lemma_round_div_le(360 * d - 60 * (b - g), d as int, 360); }
            round_div_u32(360 * d - 60 * (b as u32 - g as u32), d)
        }
    } else if max == g {
        proof { lemma_round_div_le(120 * d + 60 * b - 60 * r, d as int, 180); }
        round_div_u32(120 * d + 60 * (b as u32) - 60 * (r as u32), d)
    } else {
        proof { lemma_round_div_le(240 * d + 60 * r - 60 * g, d as int, 300); }
        round_div_u32(240 * d + 60 * (r as u32) - 60 * (g as u32), d)
    };

    let s: u32 = if d == 0 {
        0
    } else if sum > 255 {
        proof { lemma_round_div_le(100 * d, 510 - sum, 100); }
        round_div_u32(100 * d, 510 - sum)
    } else {
        proof { lemma_round_div_le(100 * d, sum as int, 100); }
        round_div_u32(100 * d, sum)
    };

    let l: u8 = get_lightness(r, g, b);
    (h as u16, s as u8, l)
}

/// Law: lightness is monotonic in the sum of the largest and smallest
/// channel: a pixel whose `max + min` is no larger never gets a higher
/// lightness.
pub proof fn lemma_lightness_monotonic(r1: u8, g1: u8, b1: u8, r2: u8, g2: u8, b2: u8)
    requires
        max3(r1 as int, g1 as int, b1 as int) + min3(r1 as int, g1 as int, b1 as int)
            <= max3(r2 as int, g2 as int, b2 as int) + min3(r2 as int, g2 as int, b2 as int),
    ensures
        lightness_of(r1, g1, b1) <= lightness_of(r2, g2, b2),
{
    let s1 = max3(r1 as int, g1 as int, b1 as int) + min3(r1 as int, g1 as int, b1 as int);
    let s2 = max3(r2 as int, g2 as int, b2 as int) + min3(r2 as int, g2 as int, b2 as int);
    lemma_div_is_ordered(2 * (100 * s1) + 510, 2 * (100 * s2) + 510, 1020);
}

/// A pixel grid: rows of `(r, g, b)` triples, all rows of one length.
pub type Pixels = Vec<Vec<(u8, u8, u8)>>;

/// Error signalled on a corrupt frame buffer.
#[derive(Debug, Clone, Copy, PartialEq, Eq, Structural)]
pub enum FrameError {
    /// The buffer length is not a whole number of rows of whole pixels.
    Malformed,
}

/// The pixel triple starting at byte `3 * k` of a flat interleaved buffer.
pub open spec fn pixel_at(bytes: Seq<u8>, k: int) -> (u8, u8, u8) {
    (bytes[3 * k], bytes[3 * k + 1], bytes[3 * k + 2])
}

/// Row `i` of the grid that a flat buffer of `width`-pixel rows denotes.
pub open spec fn row_of(bytes: Seq<u8>, width: int, i: int) -> Seq<(u8, u8, u8)> {
    Seq::new(width as nat, |j: int| pixel_at(bytes, i * width + j))
}

/// The row-major grid of pixel triples that a flat buffer denotes.
pub open spec fn grid_of(bytes: Seq<u8>, width: int) -> Seq<Seq<(u8, u8, u8)>> {
    Seq::new((bytes.len() as int / (3 * width)) as nat, |i: int| row_of(bytes, width, i))
}

/// The bytes of one row of pixel triples, in interleaved order.
pub open spec fn flatten_row(row: Seq<(u8, u8, u8)>) -> Seq<u8>
    decreases row.len(),
{
    if row.len() == 0 {
        Seq::empty()
    } else {
        flatten_row(row.drop_last()) + seq![row.last().0, row.last().1, row.last().2]
    }
}

/// The bytes of a whole grid, rows in order.
pub open spec fn flatten_grid(grid: Seq<Seq<(u8, u8, u8)>>) -> Seq<u8>
    decreases grid.len(),
{
    if grid.len() == 0 {
        Seq::empty()
    } else {
        flatten_grid(grid.drop_last()) + flatten_row(grid.last())
    }
}

/// Formats the given pixels (not structured) into a structured form: a
/// row-major grid of `(r, g, b)` triples, `width` to a row.  A buffer whose
/// length is not a whole number of rows of whole pixels is malformed and is
/// rejected, never truncated.
pub fn format_pixels(pixels: &[u8], width: u16) -> (res: Result<Pixels, FrameError>)
    requires
        width >= 1,
    ensures
        match res {
            Ok(grid) => {
                &&& pixels@.len() as int % (3 * width as int) == 0
                &&& grid@.len() == grid_of(pixels@, width as int).len()
                &&& forall|i: int|
                    0 <= i < grid@.len() ==> #[trigger] grid@[i]@ == grid_of(
                        pixels@,
                        width as int,
                    )[i]
            },
            Err(e) => {
                &&& e == FrameError::Malformed
                &&& pixels@.len() as int % (3 * width as int) != 0
            },
        },
{
    let row_stride: usize = width as usize * 3;
    if pixels.len() % row_stride != 0 {
        proof {
            assert(pixels@.len() as int % (3 * width as int) != 0) by {
                assert(row_stride == 3 * width as int);
            };
        }
        return Err(FrameError::Malformed);
    }
    let n_rows: usize = pixels.len() / row_stride;
    proof {
        vstd::arithmetic::div_mod::lemma_fundamental_div_mod(
            pixels@.len() as int,
            row_stride as int,
        );
        assert(pixels@.len() == row_stride * n_rows);
        assert(pixels@.len() == n_rows * row_stride) by (nonlinear_arith)
            requires
                pixels@.len() == row_stride * n_rows,
        ;
    }
    let mut grid: Pixels = Vec::new();
    let mut i: usize = 0;
    while i < n_rows
        invariant
            width >= 1,
            row_stride == 3 * width,
            i <= n_rows,
            pixels@.len() <= usize::MAX,
            pixels@.len() == n_rows * row_stride,
            grid@.len() == i,
            forall|k: int|
                0 <= k < i ==> #[trigger] grid@[k]@ == row_of(pixels@, width as int, k),
        decreases n_rows - i,
    {
        proof {
            assert((i + 1) * row_stride <= n_rows * row_stride) by (nonlinear_arith)
                requires
                    i < n_rows,
                    row_stride >= 0,
            ;
            assert((i + 1) * row_stride == i * row_stride + row_stride) by (nonlinear_arith);
        }
        let base: usize = i * row_stride;
        let mut row: Vec<(u8, u8, u8)> = Vec::new();
        let mut j: usize = 0;
        while j < width as usize
            invariant
                width >= 1,
                row_stride == 3 * width,
                j <= width,
                base == i * row_stride,
                base + row_stride <= pixels@.len(),
                pixels@.len() <= usize::MAX,
                row@.len() == j,
                forall|m: int|
                    0 <= m < j ==> #[trigger] row@[m] == pixel_at(
                        pixels@,
                        i as int * width as int + m,
                    ),
            decreases width - j,
        {
            proof {
                assert(base + 3 * j == 3 * (i as int * width as int + j as int))
                    by (nonlinear_arith)
                    requires
                        base == i * row_stride,
                        row_stride == 3 * width,
                ;
                assert(3 * j + 3 <= row_stride);
            }
            let off: usize = base + 3 * j;
            let pix: (u8, u8, u8) = (pixels[off], pixels[off + 1], pixels[off + 2]);
            row.push(pix);
            j += 1;
        }
        proof {
            assert(row@ =~= row_of(pixels@, width as int, i as int));
        }
        grid.push(row);
        i += 1;
    }
    proof {
        assert(pixels@.len() as int / (3 * width as int) == n_rows) by {
            vstd::arithmetic::div_mod::lemma_fundamental_div_mod_converse(
                pixels@.len() as int,
                row_stride as int,
                n_rows as int,
                0,
            );
        };
    }
    Ok(grid)
}

/// Law: building a grid from a whole buffer and flattening it back
/// reproduces the original byte sequence, and the grid has exactly
/// `len / (3 * width)` rows of exactly `width` triples each.
pub proof fn lemma_grid_roundtrip(bytes: Seq<u8>, width: int)
    requires
        1 <= width,
        bytes.len() as int % (3 * width) == 0,
    ensures
        grid_of(bytes, width).len() == bytes.len() as int / (3 * width),
        forall|i: int|
            0 <= i < grid_of(bytes, width).len() ==> (#[trigger] grid_of(bytes, width)[i]).len()
                == width,
        flatten_grid(grid_of(bytes, width)) == bytes,
{
    let n = bytes.len() as int / (3 * width);
    vstd::arithmetic::div_mod::lemma_fundamental_div_mod(bytes.len() as int, 3 * width);
    assert(bytes.len() == n * (3 * width));
    assert(3 * (n * width) == n * (3 * width)) by (nonlinear_arith);
    lemma_flatten_grid_prefix(bytes, width, n);
    assert(grid_of(bytes, width).take(n) =~= grid_of(bytes, width));
    assert(bytes.subrange(0, 3 * (n * width)) =~= bytes);
}

/// Flattening the first `n` rows of the grid of `bytes` yields the first
/// `3 * n * width` bytes.
proof fn lemma_flatten_grid_prefix(bytes: Seq<u8>, width: int, n: int)
    requires
        1 <= width,
        0 <= n,
        3 * (n * width) <= bytes.len(),
        n <= bytes.len() as int / (3 * width),
    ensures
        flatten_grid(grid_of(bytes, width).take(n)) =~= bytes.subrange(0, 3 * (n * width)),
    decreases n,
{
    let grid = grid_of(bytes, width);
    if n == 0 {
        assert(grid.take(0) =~= Seq::<Seq<(u8, u8, u8)>>::empty());
        assert(3 * (n * width) == 0) by (nonlinear_arith)
            requires
                n == 0,
        ;
        assert(bytes.subrange(0, 0) =~= Seq::<u8>::empty());
    } else {
        assert(3 * ((n - 1) * width) + 3 * width == 3 * (n * width)) by (nonlinear_arith);
        lemma_flatten_grid_prefix(bytes, width, n - 1);
        assert(grid.take(n).drop_last() =~= grid.take(n - 1));
        assert(grid.take(n).last() == row_of(bytes, width, n - 1));
        lemma_flatten_row_prefix(bytes, width, n - 1, width);
        assert(row_of(bytes, width, n - 1).take(width) =~= row_of(bytes, width, n - 1));
        assert(flatten_grid(grid.take(n)) =~= bytes.subrange(0, 3 * (n * width)));
    }
}

/// Flattening the first `j` pixels of row `i` yields the matching bytes.
proof fn lemma_flatten_row_prefix(bytes: Seq<u8>, width: int, i: int, j: int)
    requires
        1 <= width,
        0 <= i,
        0 <= j <= width,
        3 * (i * width + width) <= bytes.len(),
    ensures
        flatten_row(row_of(bytes, width, i).take(j)) =~= bytes.subrange(
            3 * (i * width),
            3 * (i * width) + 3 * j,
        ),
    decreases j,
{
    let row = row_of(bytes, width, i);
    if j == 0 {
        assert(row.take(0) =~= Seq::<(u8, u8, u8)>::empty());
    } else {
        lemma_flatten_row_prefix(bytes, width, i, j - 1);
        assert(row.take(j).drop_last() =~= row.take(j - 1));
        assert(row.take(j).last() == pixel_at(bytes, i * width + (j - 1)));
        assert(flatten_row(row.take(j)) =~= bytes.subrange(
            3 * (i * width),
            3 * (i * width) + 3 * j,
        ));
    }
}

} // verus!
