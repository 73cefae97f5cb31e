use std::sync::Arc;

use grid_window::{CharacterGrid, GridCell, Style};

fn plain(text: &str) -> GridCell {
    GridCell { text: text.to_owned(), style: None }
}

fn red() -> Arc<Style> {
    Arc::new(Style {
        foreground: Some(0xff00_00ff),
        background: None,
        special: None,
        reverse: false,
        italic: false,
        bold: true,
        strikethrough: false,
        underline: false,
        undercurl: false,
        blend: 0,
    })
}

fn put(grid: &mut CharacterGrid, x: u64, y: u64, cell: GridCell) {
    *grid.get_cell_mut(x, y).expect("position on the grid") = cell;
}

/// A grid whose cell in column `x` of row `y` holds the text `"x,y"`.
fn numbered(width: u64, height: u64) -> CharacterGrid {
    let mut grid = CharacterGrid::new((width, height));
    for y in 0..height {
        for x in 0..width {
            put(&mut grid, x, y, plain(&format!("{},{}", x, y)));
        }
    }
    grid
}

#[test]
fn new_grid_is_blank() {
    let grid = CharacterGrid::new((3, 2));
    assert_eq!(grid.width(), 3);
    assert_eq!(grid.height(), 2);
    for y in 0..2 {
        for x in 0..3 {
            assert_eq!(grid.get_cell(x, y), Some(&plain("")));
        }
    }
}

#[test]
fn get_cell_outside_the_grid_is_none() {
    let mut grid = numbered(3, 2);
    assert_eq!(grid.get_cell(3, 0), None);
    assert_eq!(grid.get_cell(0, 2), None);
    assert_eq!(grid.get_cell(3, 2), None);
    assert_eq!(grid.get_cell(u64::MAX, 0), None);
    assert_eq!(grid.get_cell(0, u64::MAX), None);
    assert_eq!(grid.get_cell(u64::MAX, u64::MAX), None);
    assert!(grid.get_cell_mut(3, 0).is_none());
    assert!(grid.get_cell_mut(0, 2).is_none());
    assert!(grid.get_cell_mut(u64::MAX, u64::MAX).is_none());
    assert_eq!(grid.get_cell(2, 1), Some(&plain("2,1")));
}

#[test]
fn get_cell_is_row_major() {
    let grid = numbered(4, 3);
    assert_eq!(grid.get_cell(0, 0), Some(&plain("0,0")));
    assert_eq!(grid.get_cell(3, 0), Some(&plain("3,0")));
    assert_eq!(grid.get_cell(0, 1), Some(&plain("0,1")));
    assert_eq!(grid.get_cell(1, 2), Some(&plain("1,2")));
    assert_eq!(grid.get_cell(3, 2), Some(&plain("3,2")));
}

#[test]
fn get_cell_mut_changes_one_cell_only() {
    let mut grid = numbered(3, 3);
    put(&mut grid, 1, 1, GridCell { text: "x".to_owned(), style: Some(red()) });
    for y in 0..3 {
        for x in 0..3 {
            let expected = if (x, y) == (1, 1) {
                GridCell { text: "x".to_owned(), style: Some(red()) }
            } else {
                plain(&format!("{},{}", x, y))
            };
            assert_eq!(grid.get_cell(x, y), Some(&expected));
        }
    }
}

#[test]
fn row_gives_the_cells_left_to_right() {
    let grid = numbered(3, 2);
    let row = grid.row(1).expect("row on the grid");
    assert_eq!(row, &[plain("0,1"), plain("1,1"), plain("2,1")][..]);
    let row = grid.row(0).expect("row on the grid");
    assert_eq!(row, &[plain("0,0"), plain("1,0"), plain("2,0")][..]);
    assert!(grid.row(2).is_none());
    assert!(grid.row(u64::MAX).is_none());
}

#[test]
fn empty_grids_hold_nothing() {
    let no_columns = CharacterGrid::new((0, 5));
    assert_eq!(no_columns.width(), 0);
    assert_eq!(no_columns.height(), 5);
    assert_eq!(no_columns.get_cell(0, 0), None);
    assert_eq!(no_columns.row(4).map(|row| row.len()), Some(0));
    assert!(no_columns.row(5).is_none());

    let no_rows = CharacterGrid::new((5, 0));
    assert_eq!(no_rows.get_cell(0, 0), None);
    assert!(no_rows.row(0).is_none());

    let mut nothing = CharacterGrid::new((0, 0));
    assert_eq!(nothing.get_cell(0, 0), None);
    nothing.clear();
    nothing.resize((0, 0));
    assert_eq!(nothing.width(), 0);
    assert_eq!(nothing.height(), 0);
}

#[test]
fn clear_blanks_every_cell_and_keeps_the_size() {
    let mut grid = numbered(3, 2);
    grid.clear();
    assert_eq!(grid.width(), 3);
    assert_eq!(grid.height(), 2);
    for y in 0..2 {
        for x in 0..3 {
            assert_eq!(grid.get_cell(x, y), Some(&plain("")));
        }
    }
}

#[test]
fn resize_keeps_the_overlap_and_blanks_the_rest() {
    let mut grid = numbered(3, 2);
    grid.resize((2, 4));
    assert_eq!(grid.width(), 2);
    assert_eq!(grid.height(), 4);
    for y in 0..4 {
        for x in 0..2 {
            let expected = if y < 2 { plain(&format!("{},{}", x, y)) } else { plain("") };
            assert_eq!(grid.get_cell(x, y), Some(&expected));
        }
    }
    assert_eq!(grid.get_cell(2, 0), None);
}

#[test]
fn resize_smaller_and_back_keeps_the_inner_cells() {
    let mut grid = numbered(4, 3);
    put(&mut grid, 1, 1, GridCell { text: "s".to_owned(), style: Some(red()) });
    grid.resize((2, 2));
    assert_eq!(grid.get_cell(2, 0), None);
    grid.resize((4, 3));
    assert_eq!(grid.width(), 4);
    assert_eq!(grid.height(), 3);
    for y in 0..3 {
        for x in 0..4 {
            let expected = if (x, y) == (1, 1) {
                GridCell { text: "s".to_owned(), style: Some(red()) }
            } else if x < 2 && y < 2 {
                plain(&format!("{},{}", x, y))
            } else {
                plain("")
            };
            assert_eq!(grid.get_cell(x, y), Some(&expected));
        }
    }
}

#[test]
fn resize_to_nothing_and_back_is_blank() {
    let mut grid = numbered(2, 2);
    grid.resize((0, 2));
    assert_eq!(grid.get_cell(0, 0), None);
    grid.resize((2, 2));
    for y in 0..2 {
        for x in 0..2 {
            assert_eq!(grid.get_cell(x, y), Some(&plain("")));
        }
    }
}

#[test]
fn cloned_cell_is_equal() {
    let cell = GridCell { text: "q".to_owned(), style: Some(red()) };
    assert_eq!(cell.clone(), cell);
    assert_eq!(GridCell::blank(), plain(""));
}
