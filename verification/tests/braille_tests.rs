use crabcrust::BrailleGrid;
use crabcrust::Color;

#[test]
fn test_set_dot_glyph_bits() {
    // Setting one dot yields the Braille glyph with exactly that bit.
    let mut grid = BrailleGrid::new(4, 4);
    grid.set_dot(0, 0);
    assert_eq!(grid.get_char(0, 0) as u32, 0x2801);
    // A second dot in the same cell ORs its bit in.
    grid.set_dot(1, 0);
    assert_eq!(grid.get_char(0, 0) as u32, 0x2800 | 0b0000_1001);
    // The full block convention, one dot per bit, in a fresh cell each time.
    let offsets = [
        (0usize, 0usize, 0u32),
        (0, 1, 1),
        (0, 2, 2),
        (1, 0, 3),
        (1, 1, 4),
        (1, 2, 5),
        (0, 3, 6),
        (1, 3, 7),
    ];
    for (dx, dy, bit) in offsets {
        let mut g = BrailleGrid::new(1, 1);
        g.set_dot(dx, dy);
        assert_eq!(g.get_char(0, 0) as u32, 0x2800 | (1u32 << bit));
    }
}

#[test]
fn test_set_dot_out_of_range_is_ignored() {
    let mut grid = BrailleGrid::new(2, 2);
    grid.set_dot(4, 0);
    grid.set_dot(0, 8);
    for y in 0..2 {
        for x in 0..2 {
            assert!(grid.is_empty(x, y));
        }
    }
}

#[test]
fn test_clear_empties_every_query() {
    let mut grid = BrailleGrid::new(3, 2);
    grid.set_dot_with_color(0, 0, Color::new(10, 20, 30));
    grid.set_dot_with_color(5, 7, Color::new(1, 2, 3));
    grid.clear();
    for y in 0..2 {
        for x in 0..3 {
            assert!(grid.is_empty(x, y));
            assert_eq!(grid.get_color(x, y), None);
            assert_eq!(grid.get_char(x, y) as u32, 0x2800);
        }
    }
}

#[test]
fn test_cell_color_last_write_wins() {
    let mut grid = BrailleGrid::new(4, 4);
    let a = Color::new(255, 0, 0);
    let b = Color::new(0, 0, 255);
    // Two dots of the same cell, colored A then B: the cell keeps B.
    grid.set_dot_with_color(0, 0, a);
    grid.set_dot_with_color(1, 1, b);
    assert_eq!(grid.get_color(0, 0), Some(b));
    // Both dots are still set.
    assert_eq!(grid.get_char(0, 0) as u32, 0x2800 | 0b0001_0001);
}

#[test]
fn test_horizontal_line_contiguous_run() {
    // A line from (0,0) to (10,0) sets exactly 11 dots in one row, all in
    // the given color.
    let mut grid = BrailleGrid::new(8, 2);
    let c = Color::new(7, 8, 9);
    grid.draw_line_with_color(0, 0, 10, 0, c);
    let mut dots = 0u32;
    for cy in 0..2usize {
        for cx in 0..8usize {
            let pattern = grid.get_char(cx, cy) as u32 - 0x2800;
            dots += pattern.count_ones();
        }
    }
    assert_eq!(dots, 11);
    // The run is contiguous: dots 0..=10 of row 0, so cells 0..=5 of row 0
    // carry patterns with exactly the top-left dots of that row.
    for cx in 0..5usize {
        // bits 0 and 3: dots (0,0) and (1,0) of each fully covered cell
        assert_eq!(grid.get_char(cx, 0) as u32, 0x2800 | 0b0000_1001);
        assert_eq!(grid.get_color(cx, 0), Some(c));
    }
    // Cell 5 holds only dot 10, the left dot of its top row.
    assert_eq!(grid.get_char(5, 0) as u32, 0x2800 | 0b0000_0001);
    assert_eq!(grid.get_color(5, 0), Some(c));
    // Untouched cells have no color.
    assert_eq!(grid.get_color(6, 0), None);
}

#[test]
fn test_diagonal_line_connected() {
    let mut grid = BrailleGrid::new(4, 2);
    let c = Color::new(1, 1, 1);
    grid.draw_line_with_color(0, 0, 7, 7, c);
    // 8 steps along each axis: exactly the diagonal dots are set.
    let mut dots = 0u32;
    for cy in 0..2usize {
        for cx in 0..4usize {
            let pattern = grid.get_char(cx, cy) as u32 - 0x2800;
            dots += pattern.count_ones();
        }
    }
    assert_eq!(dots, 8);
}

#[test]
fn test_vertical_line() {
    let mut grid = BrailleGrid::new(2, 2);
    let c = Color::new(3, 3, 3);
    grid.draw_line_with_color(1, 0, 1, 7, c);
    // Dots (1,0)..(1,7): cell (0,0) gets its right column, cell (0,1) too.
    assert_eq!(grid.get_char(0, 0) as u32, 0x2800 | 0b1011_1000);
    assert_eq!(grid.get_char(0, 1) as u32, 0x2800 | 0b1011_1000);
    assert_eq!(grid.get_color(0, 0), Some(c));
    assert_eq!(grid.get_color(0, 1), Some(c));
    assert!(grid.is_empty(1, 0));
    assert!(grid.is_empty(1, 1));
}

#[test]
fn test_dimensions() {
    let grid = BrailleGrid::new(64, 16);
    assert_eq!(grid.width(), 64);
    assert_eq!(grid.height(), 16);
    assert_eq!(grid.dot_width(), 128);
    assert_eq!(grid.dot_height(), 64);
}
