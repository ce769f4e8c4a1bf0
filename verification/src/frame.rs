//! Frames: the glyphs of every pixel, row by row, as text.
//!
//! A frame is as wide as the texture map and a quarter as high, which makes up
//! for glyph cells that are about twice as tall as they are wide. Its pixels
//! are numbered row by row from the top left; each pixel's sample point, where
//! its ray meets the sphere, is handed in under the pixel's number.

use crate::lines::{
    joined, lemma_lines_of_joined, line_breaks, lines_of, unbroken, LINE_BREAK,
};
use crate::sampler::{glyph_of, lemma_glyph_from_grid, occurs_in, sample, GridCoords};
use crate::texture::{grid_width, is_grid, TextureMap, BLANK};
use vstd::prelude::*;

verus! {

/// A pixel of a frame: its column, counted from the left, and its row, counted
/// from the top.
#[derive(Clone, Copy, Debug, PartialEq, Eq, Structural)]
pub struct Pixel {
    pub x: usize,
    pub y: usize,
}

/// Number of pixel columns in a frame of a grid.
pub open spec fn frame_width(grid: Seq<Seq<char>>) -> nat {
    grid_width(grid)
}

/// Number of pixel rows in a frame of a grid: a quarter of its columns,
/// rounded down.
pub open spec fn frame_height(grid: Seq<Seq<char>>) -> nat {
    grid_width(grid) / 4
}

/// Number of pixels in a frame of a grid.
pub open spec fn pixel_count(grid: Seq<Seq<char>>) -> nat {
    frame_width(grid) * frame_height(grid)
}

/// The number of the pixel in row `y` and column `x`.
pub open spec fn pixel_index(grid: Seq<Seq<char>>, x: int, y: int) -> int {
    y * frame_width(grid) + x
}

/// The glyphs of pixel row `y`, left to right.
pub open spec fn frame_row(grid: Seq<Seq<char>>, cells: Seq<Option<GridCoords>>, y: int) -> Seq<
    char,
> {
    Seq::new(frame_width(grid), |x: int| glyph_of(grid, cells[pixel_index(grid, x, y)]))
}

/// The pixel rows of a frame, top to bottom.
pub open spec fn frame_rows(grid: Seq<Seq<char>>, cells: Seq<Option<GridCoords>>) -> Seq<
    Seq<char>,
> {
    Seq::new(frame_height(grid), |y: int| frame_row(grid, cells, y))
}

/// The frame as text: each pixel row followed by a line break.
pub open spec fn frame_text(grid: Seq<Seq<char>>, cells: Seq<Option<GridCoords>>) -> Seq<char> {
    joined(frame_rows(grid, cells))
}

/// Width and height of the frames of `map`, in pixels.
pub fn frame_size(map: &TextureMap) -> (size: (usize, usize))
    ensures
        map.wf(),
        size.0 == frame_width(map@),
        size.1 == frame_height(map@),
        size.1 == size.0 / 4,
{
    let width: usize = map.width();
    (width, width / 4)
}

/// A pixel in a row stands before every pixel of a later row, and before the
/// end of its own.
proof fn lemma_rows_in_order(x: int, y: int, later: int, width: int)
    requires
        0 <= x < width,
        0 <= y < later,
    ensures
        0 <= y * width + x < y * width + width <= later * width,
{
    assert(y * width + width <= later * width) by (nonlinear_arith)
        requires
            0 <= y < later,
            0 <= width,
    ;
    assert(0 <= y * width) by (nonlinear_arith)
        requires
            0 <= y,
            0 <= width,
    ;
}

/// `pixels` holds, under the number of each pixel in the first `rows` rows of
/// a frame of `width` columns, that pixel.
pub open spec fn pixels_in_order(pixels: Seq<Pixel>, width: int, rows: int) -> bool {
    forall|x: int, y: int|
        0 <= x < width && 0 <= y < rows ==> {
            &&& 0 <= #[trigger] (y * width + x) < pixels.len()
            &&& pixels[y * width + x] == (Pixel { x: x as usize, y: y as usize })
        }
}

/// The pixels of a frame of `map` in the order of their numbers: row by row
/// from the top, each row from the left.
pub fn frame_pixels(map: &TextureMap) -> (pixels: Vec<Pixel>)
    ensures
        map.wf(),
        pixels@.len() == pixel_count(map@),
        pixels_in_order(pixels@, frame_width(map@) as int, frame_height(map@) as int),
{
    let (width, height) = frame_size(map);
    let mut pixels: Vec<Pixel> = Vec::new();
    let mut y: usize = 0;
    while y < height
        invariant
            y <= height,
            pixels@.len() == y * width,
            pixels_in_order(pixels@, width as int, y as int),
        decreases height - y,
    {
        let mut x: usize = 0;
        while x < width
            invariant
                x <= width,
                y < height,
                pixels@.len() == y * width + x,
                pixels_in_order(pixels@, width as int, y as int),
                forall|px: int|
                    0 <= px < x ==> #[trigger] pixels@[y * width + px] == (Pixel {
                        x: px as usize,
                        y,
                    }),
            decreases width - x,
        {
            pixels.push(Pixel { x, y });
            x += 1;
        }
        proof {
            assert((y + 1) * width == y * width + width) by (nonlinear_arith);
            assert forall|px: int, py: int| 0 <= px < width && 0 <= py < y + 1 implies {
                &&& 0 <= #[trigger] (py * width + px) < pixels@.len()
                &&& pixels@[py * width + px] == (Pixel { x: px as usize, y: py as usize })
            } by {
                if py == y {
                    lemma_rows_in_order(px, py, y + 1, width as int);
                }
            }
        }
        y += 1;
    }
    proof {
        assert(height * width == width * height) by (nonlinear_arith);
    }
    pixels
}

/// Assembles a frame from the sample points of its pixels, which `cells` holds
/// row by row. There must be one entry for each pixel.
pub fn render_frame(map: &TextureMap, cells: &Vec<Option<GridCoords>>) -> (frame: Option<
    Vec<char>,
>)
    ensures
        map.wf(),
        frame is Some <==> cells@.len() == pixel_count(map@),
        frame matches Some(text) ==> {
            &&& text@ == frame_text(map@, cells@)
            &&& line_breaks(text@) == grid_width(map@) / 4
        },
{
    let (width, height) = frame_size(map);
    let ghost grid = map@;
    let ghost rows = frame_rows(grid, cells@);
    let count: usize = cells.len();
    if width.checked_mul(height) != Some(count) {
        return None;
    }
    let mut text: Vec<char> = Vec::new();
    let mut y: usize = 0;
    while y < height
        invariant
            y <= height,
            map.wf(),
            grid == map@,
            width == frame_width(grid),
            height == frame_height(grid),
            count == cells@.len() == width * height,
            rows == frame_rows(grid, cells@),
            text@ == joined(rows.take(y as int)),
        decreases height - y,
    {
        assert(y * width + width <= width * height) by (nonlinear_arith)
            requires
                y < height,
        ;
        let first: usize = y * width;
        let mut x: usize = 0;
        while x < width
            invariant
                x <= width,
                y < height,
                grid == map@,
                width == frame_width(grid),
                first == y * width,
                first + width <= cells@.len() == count,
                height == frame_height(grid),
                rows == frame_rows(grid, cells@),
                text@ == joined(rows.take(y as int)) + rows[y as int].take(x as int),
            decreases width - x,
        {
            let glyph: char = sample(cells[first + x], map);
            text.push(glyph);
            proof {
                let row = rows[y as int];
                assert(row[x as int] == glyph);
                assert(row.take(x + 1) == row.take(x as int).push(glyph));
            }
            x += 1;
        }
        text.push(LINE_BREAK);
        proof {
            let row = rows[y as int];
            let above = rows.take(y + 1);
            assert(row.take(width as int) == row);
            assert(above.drop_last() == rows.take(y as int));
            assert(above.last() == row);
        }
        y += 1;
    }
    proof {
        assert(rows.take(height as int) == rows);
        lemma_frame_reads_back(grid, cells@);
    }
    Some(text)
}

/// No glyph of a frame is a line break, so reading the frame's text back by
/// lines gives its pixel rows: a quarter as many as the map has columns, each
/// as long as the map is wide.
pub proof fn lemma_frame_reads_back(grid: Seq<Seq<char>>, cells: Seq<Option<GridCoords>>)
    requires
        is_grid(grid),
    ensures
        lines_of(frame_text(grid, cells)) == frame_rows(grid, cells),
        line_breaks(frame_text(grid, cells)) == grid_width(grid) / 4,
        forall|y: int|
            0 <= y < frame_height(grid) ==> (#[trigger] lines_of(frame_text(grid, cells))[y]).len()
                == grid_width(grid),
{
    let rows = frame_rows(grid, cells);
    assert forall|y: int| 0 <= y < rows.len() implies unbroken(#[trigger] rows[y]) by {
        assert forall|x: int| 0 <= x < rows[y].len() implies #[trigger] rows[y][x] != LINE_BREAK by {
            lemma_glyph_is_no_break(grid, cells[pixel_index(grid, x, y)]);
        }
    }
    lemma_lines_of_joined(rows);
}

/// A glyph picked from a grid is no line break.
pub proof fn lemma_glyph_is_no_break(grid: Seq<Seq<char>>, cell: Option<GridCoords>)
    requires
        is_grid(grid),
    ensures
        glyph_of(grid, cell) != LINE_BREAK,
{
    lemma_glyph_from_grid(grid, cell);
    if glyph_of(grid, cell) != BLANK {
        let (r, c) = choose|r: int, c: int|
            0 <= r < grid.len() && 0 <= c < grid[r].len() && #[trigger] grid[r][c] == glyph_of(
                grid,
                cell,
            );
        assert(unbroken(grid[r]));
    }
}

/// Every cell of the grid holds `glyph`.
pub open spec fn filled_with(grid: Seq<Seq<char>>, glyph: char) -> bool {
    forall|r: int, c: int| 0 <= r < grid.len() && 0 <= c < grid[r].len() ==> #[trigger] grid[r][c] == glyph
}

/// A frame of a map of one distinct character shows that character and
/// blanks and nothing else, whatever the sample points are, and so whatever
/// the rotation is.
pub proof fn lemma_frame_of_one_character(
    grid: Seq<Seq<char>>,
    cells: Seq<Option<GridCoords>>,
    glyph: char,
    x: int,
    y: int,
)
    requires
        is_grid(grid),
        filled_with(grid, glyph),
        0 <= y < frame_height(grid),
        0 <= x < frame_width(grid),
    ensures
        lines_of(frame_text(grid, cells)).len() == grid_width(grid) / 4,
        lines_of(frame_text(grid, cells))[y].len() == grid_width(grid),
        lines_of(frame_text(grid, cells))[y][x] == BLANK || lines_of(frame_text(grid, cells))[y][x]
            == glyph,
{
    lemma_frame_reads_back(grid, cells);
    lemma_frame_glyphs_from_map(grid, cells, x, y);
}

/// Every glyph of a frame is a blank or a character of the map.
pub proof fn lemma_frame_glyphs_from_map(
    grid: Seq<Seq<char>>,
    cells: Seq<Option<GridCoords>>,
    x: int,
    y: int,
)
    requires
        is_grid(grid),
        0 <= y < frame_height(grid),
        0 <= x < frame_width(grid),
    ensures
        lines_of(frame_text(grid, cells))[y][x] == BLANK || occurs_in(
            grid,
            lines_of(frame_text(grid, cells))[y][x],
        ),
{
    lemma_frame_reads_back(grid, cells);
    lemma_glyph_from_grid(grid, cells[pixel_index(grid, x, y)]);
}

} // verus!
