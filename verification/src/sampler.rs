//! Sampling the texture map at integer grid coordinates.
//!
//! A sample point arrives as a pair of integers: `x`, the column, and `y`, the
//! latitude scaled to the map's height. Rows are stored top-down and sampled
//! bottom-up: `y` addresses row `height - y`, so `y == height` is the first
//! row of the map and `y == 0` is one row past its last.

use crate::texture::{grid_width, is_grid, TextureMap, BLANK};
use vstd::prelude::*;

verus! {

/// Where a sample falls on the grid, before the rows are turned over.
#[derive(Clone, Copy, Debug, PartialEq, Eq, Structural)]
pub struct GridCoords {
    /// Column, counted from the left edge.
    pub x: i64,
    /// Scaled latitude: the row is `height - y`.
    pub y: i64,
}

/// The row of a grid of `height` rows that `y` addresses.
pub open spec fn sampled_row(height: int, y: int) -> int {
    height - y
}

/// `x` and `y` address a cell of the grid.
pub open spec fn in_bounds(grid: Seq<Seq<char>>, x: int, y: int) -> bool {
    &&& 0 <= sampled_row(grid.len() as int, y) < grid.len()
    &&& 0 <= x < grid_width(grid)
}

/// The glyph at `x` and `y`: the character of the cell they address, and a
/// blank where they address none.
pub open spec fn texel(grid: Seq<Seq<char>>, x: int, y: int) -> char {
    if in_bounds(grid, x, y) {
        grid[sampled_row(grid.len() as int, y)][x]
    } else {
        BLANK
    }
}

/// The glyph of a pixel: a blank where its ray meets nothing, else the glyph
/// at the grid coordinates of the point it meets.
pub open spec fn glyph_of(grid: Seq<Seq<char>>, cell: Option<GridCoords>) -> char {
    match cell {
        None => BLANK,
        Some(at) => texel(grid, at.x as int, at.y as int),
    }
}

/// The cell of `map` that `at` addresses, where it addresses one.
fn lookup(at: GridCoords, map: &TextureMap) -> (cell: Option<char>)
    ensures
        map.wf(),
        cell == (if in_bounds(map@, at.x as int, at.y as int) {
            Some(map@[sampled_row(map@.len() as int, at.y as int)][at.x as int])
        } else {
            None
        }),
{
    let height: u64 = map.height() as u64;
    if at.x < 0 || at.y < 1 {
        return None;
    }
    let x: u64 = at.x as u64;
    let y: u64 = at.y as u64;
    if y > height || x >= map.width() as u64 {
        return None;
    }
    map.get((height - y) as usize, x as usize)
}

/// Picks the glyph of a pixel from `map`. A pixel without a sample point is
/// blank, and so is one whose point falls outside the map; `y == 0` is always
/// outside, one row past the last.
pub fn sample(cell: Option<GridCoords>, map: &TextureMap) -> (glyph: char)
    ensures
        glyph == glyph_of(map@, cell),
        cell is None ==> glyph == BLANK,
        cell matches Some(at) && at.y == 0 ==> glyph == BLANK,
        glyph != BLANK ==> (cell matches Some(at) && in_bounds(map@, at.x as int, at.y as int)),
{
    match cell {
        None => BLANK,
        Some(at) => match lookup(at, map) {
            Some(glyph) => glyph,
            None => BLANK,
        },
    }
}

/// How densely a synthesized glyph is filled, from 0 (empty) to 4 (full): the
/// fifth of the map's height that `y` falls into. Below the first fifth is
/// empty, and from the last fifth on is full.
pub open spec fn density_tier(y: int, height: int) -> nat {
    if 5 * y < height {
        0
    } else if 5 * y < 2 * height {
        1
    } else if 5 * y < 3 * height {
        2
    } else if 5 * y < 4 * height {
        3
    } else {
        4
    }
}

/// The dots raised in the eight-dot Braille cell of a tier, as the low eight
/// bits of its code point.
pub open spec fn tier_dots(tier: nat) -> nat {
    if tier == 0 {
        0b0000_0000
    } else if tier == 1 {
        0b0000_1001
    } else if tier == 2 {
        0b0001_1011
    } else if tier == 3 {
        0b0011_1111
    } else {
        0b1111_1111
    }
}

/// The Braille pattern with the given dots raised.
pub open spec fn braille(dots: nat) -> char {
    (0x2800 + dots) as char
}

/// Synthesizes a glyph from `y` alone: the Braille cell of its density tier.
pub fn braille_fill(y: i64, height: usize) -> (glyph: char)
    ensures
        glyph == braille(tier_dots(density_tier(y as int, height as int))),
{
    let y5: i128 = 5 * (y as i128);
    let h: i128 = height as i128;
    if y5 < h {
        '\u{2800}'
    } else if y5 < 2 * h {
        '\u{2809}'
    } else if y5 < 3 * h {
        '\u{281b}'
    } else if y5 < 4 * h {
        '\u{283f}'
    } else {
        '\u{28ff}'
    }
}

/// The glyph of a pixel where synthesized glyphs stand in for the blanks of a
/// miss of the map: the cell's character where the point addresses one, and
/// else the Braille cell of its density tier. A pixel without a sample point
/// stays blank.
pub open spec fn glyph_or_fill(grid: Seq<Seq<char>>, cell: Option<GridCoords>) -> char {
    match cell {
        None => BLANK,
        Some(at) => if in_bounds(grid, at.x as int, at.y as int) {
            texel(grid, at.x as int, at.y as int)
        } else {
            braille(tier_dots(density_tier(at.y as int, grid.len() as int)))
        },
    }
}

/// As `sample`, with a synthesized glyph in place of the blank for a point
/// outside the map.
pub fn sample_or_fill(cell: Option<GridCoords>, map: &TextureMap) -> (glyph: char)
    ensures
        glyph == glyph_or_fill(map@, cell),
{
    match cell {
        None => BLANK,
        Some(at) => match lookup(at, map) {
            Some(glyph) => glyph,
            None => braille_fill(at.y, map.height()),
        },
    }
}

/// The rows are turned over with an offset of one: `y == 0` addresses the row
/// with the index `height`, one past the last, and so gives a blank in every
/// column, while `y == height` addresses row 0.
pub proof fn lemma_row_inversion(grid: Seq<Seq<char>>, x: int)
    ensures
        sampled_row(grid.len() as int, 0) == grid.len(),
        sampled_row(grid.len() as int, grid.len() as int) == 0,
        !in_bounds(grid, x, 0),
        texel(grid, x, 0) == BLANK,
{
}

/// On a map of a single cell every sample point within bounds is the same
/// one, and gives the character of that cell.
pub proof fn lemma_single_cell(glyph: char, x: int, y: int)
    requires
        in_bounds(seq![seq![glyph]], x, y),
    ensures
        x == 0,
        y == 1,
        texel(seq![seq![glyph]], x, y) == glyph,
{
}

/// `glyph` is the character of some cell of the grid.
pub open spec fn occurs_in(grid: Seq<Seq<char>>, glyph: char) -> bool {
    exists|r: int, c: int|
        0 <= r < grid.len() && 0 <= c < grid[r].len() && #[trigger] grid[r][c] == glyph
}

/// A glyph picked from a grid is a blank or a character of the grid.
pub proof fn lemma_glyph_from_grid(grid: Seq<Seq<char>>, cell: Option<GridCoords>)
    requires
        is_grid(grid),
    ensures
        glyph_of(grid, cell) == BLANK || occurs_in(grid, glyph_of(grid, cell)),
{
    if let Some(at) = cell {
        if in_bounds(grid, at.x as int, at.y as int) {
            let r = sampled_row(grid.len() as int, at.y as int);
            assert(grid[r].len() == grid[0].len());
            assert(grid[r][at.x as int] == glyph_of(grid, cell));
        }
    }
}

} // verus!
