//! Terminal renderer: builds the exact character stream one frame draws.
//!
//! A frame hides the cursor, sets the background, then for every pixel
//! emits a foreground-color escape followed by its glyph doubled (terminal
//! cells are taller than wide), a line break per row, and finally resets
//! the attributes and shows the cursor again.  The caller prints the
//! stream and, between frames, the cursor-up sequence that rewinds over
//! the grid so the next frame overwrites it in place.

use vstd::prelude::*;
use vstd::string::StringExecFns;
use crate::lightness_of;
use crate::palette;
use crate::symbol_index;
use crate::get_lightness;
use crate::symbol;
use crate::Pixels;

verus! {

/// The decimal digit character for a value below ten.
pub open spec fn digit_char(d: int) -> char {
    if d == 0 {
        '0'
    } else if d == 1 {
        '1'
    } else if d == 2 {
        '2'
    } else if d == 3 {
        '3'
    } else if d == 4 {
        '4'
    } else if d == 5 {
        '5'
    } else if d == 6 {
        '6'
    } else if d == 7 {
        '7'
    } else if d == 8 {
        '8'
    } else {
        '9'
    }
}

/// The decimal digits of `n`, most significant first, no leading zeros.
pub open spec fn dec_digits(n: int) -> Seq<char>
    decreases n,
{
    if n < 10 {
        seq![digit_char(n)]
    } else {
        dec_digits(n / 10) + seq![digit_char(n % 10)]
    }
}

/// Relies on String::push: appends exactly the given character.
#[verifier::external_body]
fn push_char(out: &mut String, c: char)
    ensures
        final(out)@ == old(out)@ + seq![c],
{
    out.push(c);
}

/// Append one decimal digit.
fn push_digit(out: &mut String, d: u64)
    requires
        d < 10,
    ensures
        final(out)@ == old(out)@ + seq![digit_char(d as int)],
{
    let c: char = match d {
        0 => '0',
        1 => '1',
        2 => '2',
        3 => '3',
        4 => '4',
        5 => '5',
        6 => '6',
        7 => '7',
        8 => '8',
        _ => '9',
    };
    push_char(out, c);
}

/// Append the decimal form of `n`.
pub fn push_decimal(out: &mut String, n: u64)
    ensures
        final(out)@ == old(out)@ + dec_digits(n as int),
    decreases n,
{
    if n >= 10 {
        push_decimal(out, n / 10);
        push_digit(out, n % 10);
        proof {
            assert(out@ =~= old(out)@ + dec_digits(n as int));
        }
    } else {
        push_digit(out, n);
    }
}

/// Everything one cell draws: the foreground color of its pixel, then its
/// glyph twice.
pub open spec fn cell_chars(r: u8, g: u8, b: u8) -> Seq<char> {
    let sym = palette()[symbol_index(lightness_of(r, g, b) as u8)];
    "\x1b[38;2;"@ + dec_digits(r as int) + ";"@ + dec_digits(g as int) + ";"@ + dec_digits(
        b as int,
    ) + "m"@ + seq![sym, sym]
}

/// Everything the cells of one row draw, left to right.
pub open spec fn cells_chars(row: Seq<(u8, u8, u8)>) -> Seq<char>
    decreases row.len(),
{
    if row.len() == 0 {
        Seq::empty()
    } else {
        cells_chars(row.drop_last()) + cell_chars(row.last().0, row.last().1, row.last().2)
    }
}

/// One row: its cells, then a line break.
pub open spec fn row_chars(row: Seq<(u8, u8, u8)>) -> Seq<char> {
    cells_chars(row) + "\n"@
}

/// Every row of the grid, top to bottom.
pub open spec fn rows_chars(grid: Seq<Seq<(u8, u8, u8)>>) -> Seq<char>
    decreases grid.len(),
{
    if grid.len() == 0 {
        Seq::empty()
    } else {
        rows_chars(grid.drop_last()) + row_chars(grid.last())
    }
}

/// Everything one frame draws: hide the cursor, set the background, the
/// rows, reset the attributes, show the cursor.
pub open spec fn frame_chars(grid: Seq<Seq<(u8, u8, u8)>>) -> Seq<char> {
    "\x1b[?25l"@ + "\x1b[40;2;0;0;0m"@ + rows_chars(grid) + "\x1b[0m"@ + "\x1b[?25h"@
}

/// The rows of a grid, as plain sequences.
pub open spec fn grid_view(grid: &Pixels) -> Seq<Seq<(u8, u8, u8)>> {
    Seq::new(grid@.len(), |i: int| grid@[i]@)
}

/// Append one cell: color escape, then the glyph of the pixel's lightness,
/// doubled.
fn render_cell(out: &mut String, r: u8, g: u8, b: u8)
    ensures
        final(out)@ == old(out)@ + cell_chars(r, g, b),
{
    out.append("\x1b[38;2;");
    push_decimal(out, r as u64);
    out.append(";");
    push_decimal(out, g as u64);
    out.append(";");
    push_decimal(out, b as u64);
    out.append("m");
    let l: u8 = get_lightness(r, g, b);
    let s: char = symbol(l);
    push_char(out, s);
    push_char(out, s);
    proof {
        assert(out@ =~= old(out)@ + cell_chars(r, g, b));
    }
}

/// Append one row of cells and its line break.
fn render_row(out: &mut String, row: &Vec<(u8, u8, u8)>)
    ensures
        final(out)@ == old(out)@ + row_chars(row@),
{
    let mut j: usize = 0;
    while j < row.len()
        invariant
            j <= row@.len(),
            out@ == old(out)@ + cells_chars(row@.take(j as int)),
        decreases row@.len() - j,
    {
        let pix: (u8, u8, u8) = row[j];
        render_cell(out, pix.0, pix.1, pix.2);
        proof {
            assert(row@.take(j + 1).drop_last() =~= row@.take(j as int));
            assert(out@ =~= old(out)@ + cells_chars(row@.take(j + 1)));
        }
        j += 1;
    }
    proof {
        assert(row@.take(row@.len() as int) =~= row@);
    }
    out.append("\n");
}

/// Prints the given `Pixels` to a character stream: the exact frame the
/// terminal sink writes out for one grid.
pub fn render_frame(pixels: &Pixels) -> (out: String)
    ensures
        out@ == frame_chars(grid_view(pixels)),
{
    let mut out = String::new();
    out.append("\x1b[?25l");
    out.append("\x1b[40;2;0;0;0m");
    let ghost head = out@;
    let mut i: usize = 0;
    while i < pixels.len()
        invariant
            i <= pixels@.len(),
            out@ == head + rows_chars(grid_view(pixels).take(i as int)),
        decreases pixels@.len() - i,
    {
        let row: &Vec<(u8, u8, u8)> = &pixels[i];
        render_row(&mut out, row);
        proof {
            assert(grid_view(pixels).take(i + 1).drop_last() =~= grid_view(pixels).take(i as int));
            assert(grid_view(pixels).take(i + 1).last() =~= row@);
            assert(out@ =~= head + rows_chars(grid_view(pixels).take(i + 1)));
        }
        i += 1;
    }
    proof {
        assert(grid_view(pixels).take(pixels@.len() as int) =~= grid_view(pixels));
    }
    out.append("\x1b[0m");
    out.append("\x1b[?25h");
    proof {
        assert(out@ =~= frame_chars(grid_view(pixels)));
    }
    out
}

/// The control sequence that moves the cursor up `n` lines, rewinding over
/// a grid of `n` rows so the next frame overwrites it in place.
pub open spec fn cursor_up_chars(n: int) -> Seq<char> {
    "\x1b["@ + dec_digits(n) + "A"@
}

/// The cursor-up-by-`n`-lines control sequence.
pub fn cursor_up(n: u64) -> (out: String)
    ensures
        out@ == cursor_up_chars(n as int),
{
    let mut out = String::new();
    out.append("\x1b[");
    push_decimal(&mut out, n);
    out.append("A");
    proof {
        assert(out@ =~= cursor_up_chars(n as int));
    }
    out
}

} // verus!
