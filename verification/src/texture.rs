//! The texture map: a rectangular grid of characters read from text.
//!
//! The first line of the text sets the width of the map, and every line
//! break ends a row. A line that is shorter than the first is filled up with
//! blanks and a longer one is cut, so that a cell the text does not give shows
//! as a blank and the grid is rectangular whatever the text looks like.

use crate::lines::{
    first_line_break, lemma_first_line_length, lemma_line_count, lemma_lines_hold_no_break,
    line_breaks, lines_of, open_line, unbroken, LINE_BREAK,
};
use vstd::prelude::*;

verus! {

/// The glyph shown where nothing is sampled, and the character of a cell that
/// the text does not give.
pub const BLANK: char = ' ';

/// A grid has at least one row, its rows are equally long, and no cell holds a
/// line break.
pub open spec fn is_grid(rows: Seq<Seq<char>>) -> bool {
    &&& rows.len() > 0
    &&& forall|r: int| 0 <= r < rows.len() ==> (#[trigger] rows[r]).len() == rows[0].len()
    &&& forall|r: int| 0 <= r < rows.len() ==> unbroken(#[trigger] rows[r])
}

/// Number of columns of a grid.
pub open spec fn grid_width(rows: Seq<Seq<char>>) -> nat {
    if rows.len() > 0 {
        rows[0].len()
    } else {
        0
    }
}

/// `line` at the given width: cut where it is longer, and filled up with
/// blanks where it is shorter.
pub open spec fn fitted(line: Seq<char>, width: nat) -> Seq<char> {
    Seq::new(
        width,
        |c: int|
            if c < line.len() {
                line[c]
            } else {
                BLANK
            },
    )
}

/// The rows that `lines` give: each line at the width of the first.
pub open spec fn rows_of(lines: Seq<Seq<char>>) -> Seq<Seq<char>> {
    Seq::new(lines.len(), |r: int| fitted(lines[r], grid_width(lines)))
}

/// Why a text is no texture map.
#[derive(Clone, Copy, Debug, PartialEq, Eq, Structural)]
pub enum MapError {
    /// The text holds no character at all.
    Empty,
    /// The text holds characters but no line break.
    NoLineBreak,
}

/// An immutable rectangular grid of characters, row 0 being the first line
/// of the text it was read from.
#[derive(Debug)]
pub struct TextureMap {
    rows: Vec<Vec<char>>,
}

/// The view of a vector of rows.
spec fn rows_view(rows: Seq<Vec<char>>) -> Seq<Seq<char>> {
    Seq::new(rows.len(), |r: int| rows[r]@)
}

impl View for TextureMap {
    type V = Seq<Seq<char>>;

    closed spec fn view(&self) -> Seq<Seq<char>> {
        rows_view(self.rows@)
    }
}

/// The lines of a text, one vector each.
fn split_lines(text: &str) -> (lines: Vec<Vec<char>>)
    ensures
        rows_view(lines@) == lines_of(text@),
{
    let mut lines: Vec<Vec<char>> = Vec::new();
    let mut line: Vec<char> = Vec::new();
    for c in it: text.chars()
        invariant
            it.seq() == text@,
            rows_view(lines@) == lines_of(text@.take(it.index())),
            line@ == open_line(text@.take(it.index())),
    {
        proof {
            let seen = text@.take(it.index() + 1);
            assert(seen.drop_last() == text@.take(it.index()));
            assert(seen.last() == c);
        }
        if c == LINE_BREAK {
            lines.push(line);
            line = Vec::new();
        } else {
            line.push(c);
        }
    }
    assert(text@.take(text@.len() as int) == text@);
    lines
}

/// `line` at the given width.
fn fit(line: &Vec<char>, width: usize) -> (row: Vec<char>)
    ensures
        row@ == fitted(line@, width as nat),
{
    let mut row: Vec<char> = Vec::new();
    let mut col: usize = 0;
    while col < width
        invariant
            col <= width,
            row@ == fitted(line@, col as nat),
        decreases width - col,
    {
        if col < line.len() {
            row.push(line[col]);
        } else {
            row.push(BLANK);
        }
        col += 1;
    }
    row
}

impl TextureMap {
    #[verifier::type_invariant]
    spec fn inv(&self) -> bool {
        is_grid(self@)
    }

    /// Every map that exists at run time is well formed: its view is a grid.
    pub open spec fn wf(&self) -> bool {
        is_grid(self@)
    }

    /// Reads a texture map from `text`, which must hold a line break. The map
    /// has a row for each line of the text, and characters after the last
    /// line break belong to no row. It is as wide as the text is up to its
    /// first line break; every line is brought to that width.
    pub fn parse(text: &str) -> (result: Result<TextureMap, MapError>)
        ensures
            result is Ok <==> line_breaks(text@) > 0,
            match result {
                Ok(map) => {
                    &&& map.wf()
                    &&& map@ == rows_of(lines_of(text@))
                    &&& grid_width(map@) == first_line_break(text@)
                    &&& map@.len() == line_breaks(text@)
                },
                Err(MapError::Empty) => text@.len() == 0,
                Err(MapError::NoLineBreak) => text@.len() > 0 && line_breaks(text@) == 0,
            },
    {
        let lines: Vec<Vec<char>> = split_lines(text);
        proof {
            lemma_line_count(text@);
        }
        if text.is_empty() {
            return Err(MapError::Empty);
        }
        if lines.len() == 0 {
            return Err(MapError::NoLineBreak);
        }
        let width: usize = lines[0].len();
        let mut rows: Vec<Vec<char>> = Vec::new();
        let mut r: usize = 0;
        while r < lines.len()
            invariant
                r <= lines.len(),
                lines.len() > 0,
                width == lines[0]@.len(),
                rows_view(lines@) == lines_of(text@),
                rows_view(rows@) == rows_of(lines_of(text@)).take(r as int),
            decreases lines.len() - r,
        {
            let row: Vec<char> = fit(&lines[r], width);
            proof {
                let all = rows_of(lines_of(text@));
                assert(rows_view(lines@)[0] == lines[0]@);
                assert(rows_view(lines@)[r as int] == lines[r as int]@);
                assert(all.take(r + 1) == all.take(r as int).push(row@));
            }
            rows.push(row);
            r += 1;
        }
        proof {
            let all = rows_of(lines_of(text@));
            assert(all.take(lines.len() as int) == all);
            lemma_rows_are_a_grid(lines_of(text@));
            lemma_lines_hold_no_break(text@);
            lemma_first_line_length(text@);
        }
        Ok(TextureMap { rows })
    }

    /// Number of rows.
    pub fn height(&self) -> (h: usize)
        ensures
            self.wf(),
            h == self@.len(),
    {
        proof {
            use_type_invariant(self);
        }
        self.rows.len()
    }

    /// Number of columns.
    pub fn width(&self) -> (w: usize)
        ensures
            self.wf(),
            w == grid_width(self@),
    {
        proof {
            use_type_invariant(self);
        }
        self.rows[0].len()
    }

    /// The character at `row` and `col`, where the grid has such a cell.
    pub fn get(&self, row: usize, col: usize) -> (cell: Option<char>)
        ensures
            self.wf(),
            cell == (if row < self@.len() && col < grid_width(self@) {
                Some(self@[row as int][col as int])
            } else {
                None
            }),
    {
        proof {
            use_type_invariant(self);
        }
        if row < self.rows.len() {
            assert(self@[row as int].len() == self@[0].len());
            if col < self.rows[row].len() {
                Some(self.rows[row][col])
            } else {
                None
            }
        } else {
            None
        }
    }
}

/// The rows that lines give are as many as the lines and as wide as the first
/// line; they make a grid where no line holds a line break.
pub proof fn lemma_rows_are_a_grid(lines: Seq<Seq<char>>)
    requires
        lines.len() > 0,
    ensures
        rows_of(lines).len() == lines.len(),
        grid_width(rows_of(lines)) == grid_width(lines),
        (forall|r: int| 0 <= r < lines.len() ==> unbroken(#[trigger] lines[r])) ==> is_grid(
            rows_of(lines),
        ),
{
    let rows = rows_of(lines);
    assert(rows[0].len() == grid_width(lines));
    if forall|r: int| 0 <= r < lines.len() ==> unbroken(#[trigger] lines[r]) {
        assert forall|r: int| 0 <= r < rows.len() implies unbroken(#[trigger] rows[r]) by {
            assert(unbroken(lines[r]));
        }
    }
}

/// Lines that are equally long are the rows they give: a text whose lines
/// make a rectangle is read as it stands.
pub proof fn lemma_rectangle_is_kept(lines: Seq<Seq<char>>)
    requires
        forall|r: int| 0 <= r < lines.len() ==> (#[trigger] lines[r]).len() == grid_width(lines),
    ensures
        rows_of(lines) == lines,
{
    assert forall|r: int| 0 <= r < lines.len() implies #[trigger] rows_of(lines)[r] == lines[r] by {
        assert(lines[r].len() == grid_width(lines));
        assert(fitted(lines[r], grid_width(lines)) =~= lines[r]);
    }
    assert(rows_of(lines) =~= lines);
}

/// The text of one character and a line break is read as a map of that one
/// cell: one column wide and one row high.
pub proof fn lemma_single_cell_text(glyph: char)
    requires
        glyph != LINE_BREAK,
    ensures
        line_breaks(seq![glyph, LINE_BREAK]) == 1,
        first_line_break(seq![glyph, LINE_BREAK]) == 1,
        rows_of(lines_of(seq![glyph, LINE_BREAK])) == seq![seq![glyph]],
{
    let text = seq![glyph, LINE_BREAK];
    let front = text.drop_last();
    reveal_with_fuel(open_line, 2);
    reveal_with_fuel(lines_of, 2);
    assert(front == seq![glyph]);
    assert(front.drop_last() == Seq::<char>::empty());
    assert(open_line(front) == seq![glyph]);
    assert(lines_of(front) == Seq::<Seq<char>>::empty());
    assert(lines_of(text) == seq![seq![glyph]]);
    lemma_rectangle_is_kept(lines_of(text));
    lemma_line_count(text);
    lemma_first_line_length(text);
}

/// A cell of a row that the text gives holds the text's character, and a cell
/// that it does not give holds a blank.
pub proof fn lemma_cell_of_rows(lines: Seq<Seq<char>>, r: int, c: int)
    requires
        0 <= r < lines.len(),
        0 <= c < grid_width(lines),
    ensures
        rows_of(lines)[r][c] == (if c < lines[r].len() {
            lines[r][c]
        } else {
            BLANK
        }),
{
}

} // verus!
