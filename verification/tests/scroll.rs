use grid_window::{scroll_cells, CharacterGrid, GridCell};

fn plain(text: &str) -> GridCell {
    GridCell { text: text.to_owned(), style: None }
}

/// A grid whose cell in column `x` of row `y` holds the text `"x,y"`.
fn numbered(width: u64, height: u64) -> CharacterGrid {
    let mut grid = CharacterGrid::new((width, height));
    for y in 0..height {
        for x in 0..width {
            *grid.get_cell_mut(x, y).unwrap() = plain(&format!("{},{}", x, y));
        }
    }
    grid
}

/// The texts of the grid, row by row.
fn texts(grid: &CharacterGrid) -> Vec<Vec<String>> {
    (0..grid.height())
        .map(|y| grid.row(y).unwrap().iter().map(|cell| cell.text.clone()).collect())
        .collect()
}

fn rows(expected: &[&[&str]]) -> Vec<Vec<String>> {
    expected.iter().map(|row| row.iter().map(|text| text.to_string()).collect()).collect()
}

#[test]
fn scroll_up_moves_rows_towards_the_top() {
    let mut grid = numbered(2, 4);
    scroll_cells(&mut grid, 0, 4, 0, 2, 1, 0);
    assert_eq!(
        texts(&grid),
        rows(&[&["0,1", "1,1"], &["0,2", "1,2"], &["0,3", "1,3"], &["0,3", "1,3"]])
    );
}

#[test]
fn scroll_up_by_two_in_place() {
    let mut grid = numbered(1, 5);
    scroll_cells(&mut grid, 0, 5, 0, 1, 2, 0);
    assert_eq!(texts(&grid), rows(&[&["0,2"], &["0,3"], &["0,4"], &["0,3"], &["0,4"]]));
}

#[test]
fn scroll_down_moves_rows_towards_the_bottom() {
    let mut grid = numbered(2, 4);
    scroll_cells(&mut grid, 0, 4, 0, 2, -1, 0);
    assert_eq!(
        texts(&grid),
        rows(&[&["0,0", "1,0"], &["0,0", "1,0"], &["0,1", "1,1"], &["0,2", "1,2"]])
    );
}

#[test]
fn scroll_down_by_two_in_place() {
    let mut grid = numbered(1, 5);
    scroll_cells(&mut grid, 0, 5, 0, 1, -2, 0);
    assert_eq!(texts(&grid), rows(&[&["0,0"], &["0,1"], &["0,0"], &["0,1"], &["0,2"]]));
}

#[test]
fn scroll_left_and_right_move_columns() {
    let mut grid = numbered(4, 1);
    scroll_cells(&mut grid, 0, 1, 0, 4, 0, 1);
    assert_eq!(texts(&grid), rows(&[&["1,0", "2,0", "3,0", "3,0"]]));
    let mut grid = numbered(4, 1);
    scroll_cells(&mut grid, 0, 1, 0, 4, 0, -1);
    assert_eq!(texts(&grid), rows(&[&["0,0", "0,0", "1,0", "2,0"]]));
    let mut grid = numbered(5, 1);
    scroll_cells(&mut grid, 0, 1, 0, 5, 0, -3);
    assert_eq!(texts(&grid), rows(&[&["0,0", "1,0", "2,0", "0,0", "1,0"]]));
}

#[test]
fn scroll_on_both_axes() {
    let mut grid = numbered(3, 3);
    scroll_cells(&mut grid, 0, 3, 0, 3, 1, 1);
    assert_eq!(
        texts(&grid),
        rows(&[&["1,1", "2,1", "2,0"], &["1,2", "2,2", "2,1"], &["0,2", "1,2", "2,2"]])
    );
    let mut grid = numbered(3, 3);
    scroll_cells(&mut grid, 0, 3, 0, 3, -1, 1);
    assert_eq!(
        texts(&grid),
        rows(&[&["0,0", "1,0", "2,0"], &["1,0", "2,0", "2,1"], &["1,1", "2,1", "2,2"]])
    );
    let mut grid = numbered(3, 3);
    scroll_cells(&mut grid, 0, 3, 0, 3, 1, -1);
    assert_eq!(
        texts(&grid),
        rows(&[&["0,0", "0,1", "1,1"], &["0,1", "0,2", "1,2"], &["0,2", "1,2", "2,2"]])
    );
    let mut grid = numbered(3, 3);
    scroll_cells(&mut grid, 0, 3, 0, 3, -1, -1);
    assert_eq!(
        texts(&grid),
        rows(&[&["0,0", "1,0", "2,0"], &["0,1", "0,0", "1,0"], &["0,2", "0,1", "1,1"]])
    );
}

#[test]
fn scroll_touches_the_region_only() {
    let mut grid = numbered(4, 4);
    scroll_cells(&mut grid, 1, 3, 1, 3, 1, 0);
    assert_eq!(
        texts(&grid),
        rows(&[
            &["0,0", "1,0", "2,0", "3,0"],
            &["0,1", "1,2", "2,2", "3,1"],
            &["0,2", "1,2", "2,2", "3,2"],
            &["0,3", "1,3", "2,3", "3,3"],
        ])
    );
}

#[test]
fn scroll_keeps_text_and_style_together() {
    let style = std::sync::Arc::new(grid_window::Style {
        foreground: None,
        background: Some(0x0000_00ff),
        special: None,
        reverse: true,
        italic: false,
        bold: false,
        strikethrough: false,
        underline: false,
        undercurl: false,
        blend: 20,
    });
    let mut grid = CharacterGrid::new((1, 2));
    *grid.get_cell_mut(0, 1).unwrap() = GridCell { text: "s".to_owned(), style: Some(style.clone()) };
    scroll_cells(&mut grid, 0, 2, 0, 1, 1, 0);
    assert_eq!(grid.get_cell(0, 0), Some(&GridCell { text: "s".to_owned(), style: Some(style.clone()) }));
    assert_eq!(grid.get_cell(0, 1), Some(&GridCell { text: "s".to_owned(), style: Some(style) }));
}

#[test]
fn scroll_by_nothing_changes_nothing() {
    let mut grid = numbered(3, 3);
    scroll_cells(&mut grid, 0, 3, 0, 3, 0, 0);
    assert_eq!(texts(&grid), texts(&numbered(3, 3)));
}

#[test]
fn scroll_by_the_height_of_the_region_or_more_changes_nothing() {
    for delta in [3, 4, 100, i64::MAX, -3, -4, -100, i64::MIN] {
        let mut grid = numbered(2, 3);
        scroll_cells(&mut grid, 0, 3, 0, 2, delta, 0);
        assert_eq!(texts(&grid), texts(&numbered(2, 3)));
        let mut grid = numbered(3, 2);
        scroll_cells(&mut grid, 0, 2, 0, 3, 0, delta);
        assert_eq!(texts(&grid), texts(&numbered(3, 2)));
    }
}

#[test]
fn scroll_of_an_empty_or_reversed_region_changes_nothing() {
    let mut grid = numbered(3, 3);
    scroll_cells(&mut grid, 2, 2, 0, 3, 1, 0);
    scroll_cells(&mut grid, 3, 1, 0, 3, 1, 0);
    scroll_cells(&mut grid, 0, 3, 2, 1, 0, 1);
    scroll_cells(&mut grid, 5, 9, 5, 9, 1, 1);
    assert_eq!(texts(&grid), texts(&numbered(3, 3)));
}

#[test]
fn scroll_of_a_region_larger_than_the_grid_moves_what_is_on_the_grid() {
    let mut grid = numbered(2, 3);
    scroll_cells(&mut grid, 0, u64::MAX, 0, u64::MAX, 1, 0);
    assert_eq!(texts(&grid), rows(&[&["0,1", "1,1"], &["0,2", "1,2"], &["0,2", "1,2"]]));
    let mut grid = numbered(2, 3);
    scroll_cells(&mut grid, 1, 10, 0, 10, -1, 0);
    assert_eq!(texts(&grid), rows(&[&["0,0", "1,0"], &["0,1", "1,1"], &["0,1", "1,1"]]));
}

#[test]
fn scroll_on_an_empty_grid_does_nothing() {
    let mut grid = CharacterGrid::new((0, 0));
    scroll_cells(&mut grid, 0, 10, 0, 10, 1, 1);
    assert_eq!(grid.width(), 0);
    assert_eq!(grid.height(), 0);
}

#[test]
fn scroll_there_and_back_restores_the_cells_that_stayed_in_the_region() {
    for (row_delta, col_delta) in [(1, 0), (-1, 0), (0, 2), (0, -1), (1, 1), (-2, 1), (2, -1), (-1, -1)] {
        let (top, bottom, left, right) = (1u64, 5u64, 1u64, 6u64);
        let mut grid = numbered(7, 6);
        scroll_cells(&mut grid, top, bottom, left, right, row_delta, col_delta);
        scroll_cells(&mut grid, top, bottom, left, right, -row_delta, -col_delta);
        let first = numbered(7, 6);
        for y in top..bottom {
            for x in left..right {
                let moved_x = x as i64 - col_delta;
                let moved_y = y as i64 - row_delta;
                let stayed = (left as i64..right as i64).contains(&moved_x)
                    && (top as i64..bottom as i64).contains(&moved_y);
                if stayed {
                    assert_eq!(grid.get_cell(x, y), first.get_cell(x, y));
                }
            }
        }
        for y in 0..6 {
            for x in 0..7 {
                let inside = (left..right).contains(&x) && (top..bottom).contains(&y);
                if !inside {
                    assert_eq!(grid.get_cell(x, y), first.get_cell(x, y));
                }
            }
        }
    }
}
