use globe::sampler::{braille_fill, sample, sample_or_fill, GridCoords};
use globe::texture::{TextureMap, BLANK};

fn map(text: &str) -> TextureMap {
    match TextureMap::parse(text) {
        Ok(map) => map,
        Err(error) => panic!("no texture map: {:?}", error),
    }
}

fn at(x: i64, y: i64) -> Option<GridCoords> {
    Some(GridCoords { x, y })
}

#[test]
fn blank_is_a_space() {
    assert_eq!(BLANK, ' ');
}

#[test]
fn no_sample_point_is_blank_on_any_map() {
    for text in ["X\n", "\n", "ab\ncd\n", "####\n####\n####\n", "\u{28ff}\n"] {
        assert_eq!(sample(None, &map(text)), ' ');
    }
}

#[test]
fn single_cell_map_gives_its_character_within_bounds() {
    let one = map("X\n");
    assert_eq!(one.width(), 1);
    assert_eq!(one.height(), 1);
    assert_eq!(sample(at(0, 1), &one), 'X');
}

#[test]
fn single_cell_map_is_blank_out_of_bounds() {
    let one = map("X\n");
    assert_eq!(sample(at(0, 0), &one), ' ');
    assert_eq!(sample(at(0, 2), &one), ' ');
    assert_eq!(sample(at(1, 1), &one), ' ');
    assert_eq!(sample(at(-1, 1), &one), ' ');
    assert_eq!(sample(at(0, -1), &one), ' ');
}

#[test]
fn rows_are_sampled_bottom_up() {
    let grid = map("abc\ndef\nghi\n");
    assert_eq!(sample(at(0, 3), &grid), 'a');
    assert_eq!(sample(at(1, 3), &grid), 'b');
    assert_eq!(sample(at(2, 3), &grid), 'c');
    assert_eq!(sample(at(0, 2), &grid), 'd');
    assert_eq!(sample(at(1, 2), &grid), 'e');
    assert_eq!(sample(at(2, 2), &grid), 'f');
    assert_eq!(sample(at(0, 1), &grid), 'g');
    assert_eq!(sample(at(1, 1), &grid), 'h');
    assert_eq!(sample(at(2, 1), &grid), 'i');
}

#[test]
fn y_zero_is_one_row_past_the_last_and_blank() {
    let grid = map("abc\ndef\nghi\n");
    for x in 0..3 {
        assert_eq!(sample(at(x, 0), &grid), ' ');
    }
    let tall = map("#\n#\n#\n#\n#\n#\n#\n#\n#\n#\n#\n#\n#\n#\n#\n#\n");
    assert_eq!(tall.height(), 16);
    assert_eq!(sample(at(0, 0), &tall), ' ');
    assert_eq!(sample(at(0, 1), &tall), '#');
    assert_eq!(sample(at(0, 16), &tall), '#');
    assert_eq!(sample(at(0, 17), &tall), ' ');
}

#[test]
fn columns_and_rows_outside_the_map_are_blank() {
    let grid = map("abc\ndef\n");
    assert_eq!(sample(at(3, 1), &grid), ' ');
    assert_eq!(sample(at(-1, 1), &grid), ' ');
    assert_eq!(sample(at(0, 3), &grid), ' ');
    assert_eq!(sample(at(0, -1), &grid), ' ');
    assert_eq!(sample(at(i64::MAX, 1), &grid), ' ');
    assert_eq!(sample(at(i64::MIN, 1), &grid), ' ');
    assert_eq!(sample(at(0, i64::MAX), &grid), ' ');
    assert_eq!(sample(at(0, i64::MIN), &grid), ' ');
    assert_eq!(sample(at(i64::MIN, i64::MIN), &grid), ' ');
    assert_eq!(sample(at(i64::MAX, i64::MAX), &grid), ' ');
}

#[test]
fn cells_that_the_text_does_not_give_are_blank() {
    let grid = map("abc\nd\n");
    assert_eq!(sample(at(0, 2), &grid), 'a');
    assert_eq!(sample(at(2, 2), &grid), 'c');
    assert_eq!(sample(at(0, 1), &grid), 'd');
    assert_eq!(sample(at(1, 1), &grid), ' ');
    assert_eq!(sample(at(2, 1), &grid), ' ');
    let cut = map("ab\ncdef\n");
    assert_eq!(sample(at(1, 1), &cut), 'd');
    assert_eq!(sample(at(2, 1), &cut), ' ');
    assert_eq!(sample(at(3, 1), &cut), ' ');
}

#[test]
fn map_without_columns_is_blank_everywhere() {
    let empty = map("\n\n");
    for y in -1..4 {
        for x in -1..2 {
            assert_eq!(sample(at(x, y), &empty), ' ');
        }
    }
}

#[test]
fn braille_tiers_follow_the_fifths_of_the_height() {
    assert_eq!(braille_fill(0, 10), '\u{2800}');
    assert_eq!(braille_fill(1, 10), '\u{2800}');
    assert_eq!(braille_fill(2, 10), '\u{2809}');
    assert_eq!(braille_fill(3, 10), '\u{2809}');
    assert_eq!(braille_fill(4, 10), '\u{281b}');
    assert_eq!(braille_fill(5, 10), '\u{281b}');
    assert_eq!(braille_fill(6, 10), '\u{283f}');
    assert_eq!(braille_fill(7, 10), '\u{283f}');
    assert_eq!(braille_fill(8, 10), '\u{28ff}');
    assert_eq!(braille_fill(9, 10), '\u{28ff}');
    assert_eq!(braille_fill(10, 10), '\u{28ff}');
}

#[test]
fn braille_glyphs_are_the_dot_patterns_behind_the_braille_base() {
    let glyphs = [
        braille_fill(0, 5),
        braille_fill(1, 5),
        braille_fill(2, 5),
        braille_fill(3, 5),
        braille_fill(4, 5),
    ];
    let dots: [u32; 5] = [0b0000_0000, 0b0000_1001, 0b0001_1011, 0b0011_1111, 0b1111_1111];
    for tier in 0..5 {
        assert_eq!(glyphs[tier] as u32, 0x2800 + dots[tier]);
    }
}

#[test]
fn braille_tiers_outside_the_height() {
    assert_eq!(braille_fill(-1, 10), '\u{2800}');
    assert_eq!(braille_fill(i64::MIN, 10), '\u{2800}');
    assert_eq!(braille_fill(11, 10), '\u{28ff}');
    assert_eq!(braille_fill(i64::MAX, 10), '\u{28ff}');
    assert_eq!(braille_fill(i64::MAX, usize::MAX), '\u{281b}');
    assert_eq!(braille_fill(0, 0), '\u{28ff}');
    assert_eq!(braille_fill(-1, 0), '\u{2800}');
    assert_eq!(braille_fill(0, usize::MAX), '\u{2800}');
}

#[test]
fn braille_tier_boundaries_are_exact() {
    assert_eq!(braille_fill(19, 100), '\u{2800}');
    assert_eq!(braille_fill(20, 100), '\u{2809}');
    assert_eq!(braille_fill(39, 100), '\u{2809}');
    assert_eq!(braille_fill(40, 100), '\u{281b}');
    assert_eq!(braille_fill(59, 100), '\u{281b}');
    assert_eq!(braille_fill(60, 100), '\u{283f}');
    assert_eq!(braille_fill(79, 100), '\u{283f}');
    assert_eq!(braille_fill(80, 100), '\u{28ff}');
    assert_eq!(braille_fill(1, 7), '\u{2800}');
    assert_eq!(braille_fill(2, 7), '\u{2809}');
}

#[test]
fn fill_stands_in_where_the_map_is_missed() {
    let grid = map("abc\ndef\nghi\njkl\nmno\n");
    assert_eq!(sample_or_fill(at(1, 5), &grid), 'b');
    assert_eq!(sample_or_fill(at(2, 1), &grid), 'o');
    assert_eq!(sample_or_fill(at(0, 0), &grid), '\u{2800}');
    assert_eq!(sample_or_fill(at(3, 1), &grid), '\u{2809}');
    assert_eq!(sample_or_fill(at(-1, 2), &grid), '\u{281b}');
    assert_eq!(sample_or_fill(at(3, 3), &grid), '\u{283f}');
    assert_eq!(sample_or_fill(at(3, 4), &grid), '\u{28ff}');
    assert_eq!(sample_or_fill(at(0, 6), &grid), '\u{28ff}');
    assert_eq!(sample_or_fill(None, &grid), ' ');
}
