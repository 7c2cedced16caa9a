//! File sink support: the glyph raster layout the export encoder draws,
//! the name of the silent intermediate container, and the argument list of
//! the external audio-merge step that produces the final deliverable.
//!
//! The raster itself is painted by an outside text-rendering collaborator;
//! what is verified here is every placement decision: which glyph, in
//! which color, at which pixel of a raster of which size.

use vstd::prelude::*;
use vstd::string::StringExecFns;
use vstd::arithmetic::div_mod::lemma_fundamental_div_mod_converse;
use crate::lightness_of;
use crate::palette;
use crate::symbol_index;
use crate::get_lightness;
use crate::symbol;
use crate::Pixels;
use crate::render::dec_digits;
use crate::render::push_decimal;

verus! {

/// Font size of the export raster, in pixels.
pub const FONT_SIZE: u32 = 12;

/// Kerning subtracted from the font size between neighbouring glyphs.
pub const KERNING: u32 = 4;

/// Distance between the origins of neighbouring glyphs, in pixels.
pub const CELL_PITCH: u32 = FONT_SIZE - KERNING;

/// One glyph of the export raster: where it is drawn, what it is, and in
/// which color.
#[derive(Debug, Clone, Copy, PartialEq, Eq)]
pub struct GlyphCell {
    /// Horizontal pixel position of the glyph's origin.
    pub x: u32,
    /// Vertical pixel position of the glyph's origin.
    pub y: u32,
    /// The palette glyph for the pixel's lightness.
    pub glyph: char,
    /// The source pixel's color.
    pub color: (u8, u8, u8),
}

/// The glyph drawn for flat cell index `k` of a grid `width` pixels wide.
pub open spec fn glyph_cell_of(grid: Seq<Seq<(u8, u8, u8)>>, width: int, k: int) -> GlyphCell {
    let i = k / width;
    let j = k % width;
    let pix = grid[i][j];
    GlyphCell {
        x: (j * CELL_PITCH) as u32,
        y: (i * CELL_PITCH) as u32,
        glyph: palette()[symbol_index(lightness_of(pix.0, pix.1, pix.2) as u8)],
        color: pix,
    }
}

/// Lay out the export raster for one grid: every cell's glyph, color and
/// position, row-major, and the raster's width and height in pixels.
pub fn glyph_cells(pixels: &Pixels) -> (r: (Vec<GlyphCell>, u32, u32))
    requires
        pixels@.len() >= 1,
        pixels@[0]@.len() >= 1,
        forall|i: int| 0 <= i < pixels@.len() ==> #[trigger] pixels@[i]@.len() == pixels@[0]@.len(),
        pixels@.len() * CELL_PITCH <= u32::MAX,
        pixels@[0]@.len() * CELL_PITCH <= u32::MAX,
    ensures
        r.1 == pixels@[0]@.len() * CELL_PITCH,
        r.2 == pixels@.len() * CELL_PITCH,
        r.0@.len() == pixels@.len() * pixels@[0]@.len(),
        forall|k: int|
            0 <= k < r.0@.len() ==> #[trigger] r.0@[k] == glyph_cell_of(
                crate::render::grid_view(pixels),
                pixels@[0]@.len() as int,
                k,
            ),
{
    let rows: usize = pixels.len();
    let cols: usize = pixels[0].len();
    proof {
        assert(FONT_SIZE == 12);
        assert(KERNING == 4);
        assert(CELL_PITCH == 8);
    }
    let ghost grid = crate::render::grid_view(pixels);
    let mut out: Vec<GlyphCell> = Vec::new();
    let mut i: usize = 0;
    while i < rows
        invariant
            rows == pixels@.len(),
            cols == pixels@[0]@.len(),
            cols >= 1,
            forall|a: int| 0 <= a < rows ==> #[trigger] pixels@[a]@.len() == cols,
            rows * CELL_PITCH <= u32::MAX,
            cols * CELL_PITCH <= u32::MAX,
            grid == crate::render::grid_view(pixels),
            CELL_PITCH == 8,
            i <= rows,
            out@.len() == i * cols,
            forall|k: int|
                0 <= k < out@.len() ==> #[trigger] out@[k] == glyph_cell_of(grid, cols as int, k),
        decreases rows - i,
    {
        let mut j: usize = 0;
        while j < cols
            invariant
                rows == pixels@.len(),
                cols == pixels@[0]@.len(),
                cols >= 1,
                forall|a: int| 0 <= a < rows ==> #[trigger] pixels@[a]@.len() == cols,
                rows * CELL_PITCH <= u32::MAX,
                cols * CELL_PITCH <= u32::MAX,
                grid == crate::render::grid_view(pixels),
                CELL_PITCH == 8,
                i < rows,
                j <= cols,
                out@.len() == i * cols + j,
                forall|k: int|
                    0 <= k < out@.len() ==> #[trigger] out@[k] == glyph_cell_of(
                        grid,
                        cols as int,
                        k,
                    ),
            decreases cols - j,
        {
            let pix: (u8, u8, u8) = pixels[i][j];
            let l: u8 = get_lightness(pix.0, pix.1, pix.2);
            let cell = GlyphCell {
                x: j as u32 * CELL_PITCH,
                y: i as u32 * CELL_PITCH,
                glyph: symbol(l),
                color: pix,
            };
            out.push(cell);
            proof {
                let n = i * cols + j;
                lemma_fundamental_div_mod_converse(n as int, cols as int, i as int, j as int);
                assert(out@[n as int] == glyph_cell_of(grid, cols as int, n as int));
            }
            j += 1;
        }
        proof {
            assert((i + 1) * cols == i * cols + cols) by (nonlinear_arith);
        }
        i += 1;
    }
    proof {
        assert(out@.len() == rows * cols);
    }
    let raster_w: u32 = cols as u32 * CELL_PITCH;
    let raster_h: u32 = rows as u32 * CELL_PITCH;
    (out, raster_w, raster_h)
}

/// Relies on rand::random: draws a value from the thread-local generator;
/// nothing can be promised of the result.
pub assume_specification<T>[ rand::random::<T> ]() -> (r: T)
    where
        rand::distributions::Standard: rand::distributions::Distribution<T>,
;

/// The name of the silent intermediate container for a session id.
pub open spec fn intermediate_path_chars(id: int) -> Seq<char> {
    "tmp/"@ + dec_digits(id) + ".video.mp4"@
}

/// The intermediate container path for the given session id.
pub fn intermediate_path_for(id: u32) -> (p: String)
    ensures
        p@ == intermediate_path_chars(id as int),
{
    let mut p = String::new();
    p.append("tmp/");
    push_decimal(&mut p, id as u64);
    p.append(".video.mp4");
    proof {
        assert(p@ =~= intermediate_path_chars(id as int));
    }
    p
}

/// Pick a fresh random session id and the intermediate container path it
/// names; whatever id was drawn, the path is exactly the one for that id.
pub fn fresh_intermediate_path() -> (r: (u32, String))
    ensures
        r.1@ == intermediate_path_chars(r.0 as int),
{
    let id: u32 = rand::random::<u32>();
    let path = intermediate_path_for(id);
    (id, path)
}

/// The argument list of the external audio-merge step: silence the video
/// of the original source (keeping its audio), silence the audio of the
/// intermediate (keeping its glyph video), and write the target container.
pub fn merge_command_args(original: &str, intermediate: &str, target: &str) -> (args: Vec<String>)
    ensures
        args@.len() == 10,
        args@[0]@ == "-v"@,
        args@[1]@ == "error"@,
        args@[2]@ == "-stats"@,
        args@[3]@ == "-vn"@,
        args@[4]@ == "-i"@,
        args@[5]@ == original@,
        args@[6]@ == "-an"@,
        args@[7]@ == "-i"@,
        args@[8]@ == intermediate@,
        args@[9]@ == target@,
{
    let mut args: Vec<String> = Vec::new();
    args.push(String::from_str("-v"));
    args.push(String::from_str("error"));
    args.push(String::from_str("-stats"));
    args.push(String::from_str("-vn"));
    args.push(String::from_str("-i"));
    args.push(String::from_str(original));
    args.push(String::from_str("-an"));
    args.push(String::from_str("-i"));
    args.push(String::from_str(intermediate));
    args.push(String::from_str(target));
    args
}

} // verus!
