//! Scrolling a region of the grid: the cells move in place, in the order that
//! keeps every source cell intact until it has been read.

use vstd::prelude::*;

use crate::grid::{lemma_grids_equal, CharacterGrid, GridView};

verus! {

/// A scroll: the region `[top, bottom) x [left, right)` and the number of
/// rows and columns by which its content moves towards the origin. Negative
/// numbers move it away.
pub struct ScrollView {
    pub top: int,
    pub bottom: int,
    pub left: int,
    pub right: int,
    pub rows: int,
    pub cols: int,
}

/// The scroll with the given region and displacement.
pub open spec fn scroll_view(
    top: int,
    bottom: int,
    left: int,
    right: int,
    rows: int,
    cols: int,
) -> ScrollView {
    ScrollView { top, bottom, left, right, rows, cols }
}

/// Whether, on one axis, the content at coordinate `source` moves: both
/// `source` and its destination `source - delta` lie inside `[low, high)` and
/// inside `[0, limit)`.
pub open spec fn moves(low: int, high: int, delta: int, limit: int, source: int) -> bool {
    &&& low <= source < high
    &&& low <= source - delta < high
    &&& 0 <= source < limit
    &&& 0 <= source - delta < limit
}

/// Whether the scroll writes the cell in column `x` of row `y`: it does where
/// that cell and the cell `rows` rows below and `cols` columns to the right
/// of it, its source, both lie in the region and on the grid.
pub open spec fn receives(grid: GridView, scroll: ScrollView, x: int, y: int) -> bool {
    &&& moves(scroll.top, scroll.bottom, scroll.rows, grid.height as int, y + scroll.rows)
    &&& moves(scroll.left, scroll.right, scroll.cols, grid.width as int, x + scroll.cols)
}

/// The grid after the scroll: every cell that the scroll writes holds what
/// its source held before, and every other cell is as it was.
pub open spec fn scrolled(grid: GridView, scroll: ScrollView) -> GridView {
    GridView::from_fn(
        grid.width,
        grid.height,
        |x: int, y: int|
            if receives(grid, scroll, x, y) {
                grid.cell(x + scroll.cols, y + scroll.rows)
            } else {
                grid.cell(x, y)
            },
    )
}

/// The place of a source coordinate in the order in which one axis is
/// walked: upwards from `low` for a positive displacement, downwards from
/// `high - 1` otherwise.
spec fn rank(delta: int, low: int, high: int, source: int) -> int {
    if delta > 0 {
        source - low
    } else {
        high - 1 - source
    }
}

/// The sources of one axis that move, as a range.
struct SourceRange {
    low: u64,
    high: u64,
}

/// The sources between `low` and `high` that move by `delta` on an axis of
/// length `limit`.
fn source_range(low: u64, high: u64, delta: i64, limit: u64) -> (range: SourceRange)
    ensures
        range.low <= range.high <= limit,
        forall|source: int|
            range.low <= source < range.high <==> #[trigger] moves(
                low as int,
                high as int,
                delta as int,
                limit as int,
                source,
            ),
{
    let shifted_low: i128 = low as i128 + delta as i128;
    let shifted_high: i128 = high as i128 + delta as i128;
    let shifted_limit: i128 = limit as i128 + delta as i128;
    let mut first: i128 = low as i128;
    if shifted_low > first {
        first = shifted_low;
    }
    let mut end: i128 = high as i128;
    if shifted_high < end {
        end = shifted_high;
    }
    if end > limit as i128 {
        end = limit as i128;
    }
    if shifted_limit < end {
        end = shifted_limit;
    }
    if end <= first {
        SourceRange { low: 0, high: 0 }
    } else {
        SourceRange { low: first as u64, high: end as u64 }
    }
}

/// The grid while a scroll is under way: `rows_done` source rows have been
/// moved completely, and `cols_done` cells of the next one.
spec fn partly_scrolled(
    grid: GridView,
    scroll: ScrollView,
    ys: (int, int),
    xs: (int, int),
    rows_done: int,
    cols_done: int,
) -> GridView {
    GridView::from_fn(
        grid.width,
        grid.height,
        |x: int, y: int|
            if written(grid, scroll, ys, xs, rows_done, cols_done, x, y) {
                grid.cell(x + scroll.cols, y + scroll.rows)
            } else {
                grid.cell(x, y)
            },
    )
}

/// Whether the cell in column `x` of row `y` has been written by the time
/// that `rows_done` source rows and `cols_done` cells of the next have moved.
spec fn written(
    grid: GridView,
    scroll: ScrollView,
    ys: (int, int),
    xs: (int, int),
    rows_done: int,
    cols_done: int,
    x: int,
    y: int,
) -> bool {
    &&& receives(grid, scroll, x, y)
    &&& {
        ||| rank(scroll.rows, ys.0, ys.1, y + scroll.rows) < rows_done
        ||| rank(scroll.rows, ys.0, ys.1, y + scroll.rows) == rows_done && rank(
            scroll.cols,
            xs.0,
            xs.1,
            x + scroll.cols,
        ) < cols_done
    }
}

/// The source ranges of a scroll on a grid.
spec fn ranges_of(grid: GridView, scroll: ScrollView, ys: (int, int), xs: (int, int)) -> bool {
    &&& ys.0 <= ys.1
    &&& xs.0 <= xs.1
    &&& forall|source: int|
        ys.0 <= source < ys.1 <==> #[trigger] moves(
            scroll.top,
            scroll.bottom,
            scroll.rows,
            grid.height as int,
            source,
        )
    &&& forall|source: int|
        xs.0 <= source < xs.1 <==> #[trigger] moves(
            scroll.left,
            scroll.right,
            scroll.cols,
            grid.width as int,
            source,
        )
}

/// Before any cell has moved the grid is as it was.
proof fn lemma_scroll_start(grid: GridView, scroll: ScrollView, ys: (int, int), xs: (int, int))
    requires
        grid.well_formed(),
        ranges_of(grid, scroll, ys, xs),
    ensures
        partly_scrolled(grid, scroll, ys, xs, 0, 0) == grid,
{
    let start = partly_scrolled(grid, scroll, ys, xs, 0, 0);
    assert forall|x: int, y: int| start.contains(x, y) implies start.cell(x, y) == grid.cell(
        x,
        y,
    ) by {
        if receives(grid, scroll, x, y) {
            assert(ys.0 <= y + scroll.rows < ys.1);
        }
    }
    lemma_grids_equal(start, grid);
}

/// Moving one cell: the source still holds what it held at first, and the
/// grid after the move is the grid with one cell more written.
proof fn lemma_scroll_step(
    grid: GridView,
    scroll: ScrollView,
    ys: (int, int),
    xs: (int, int),
    rows_done: int,
    cols_done: int,
    x: int,
    y: int,
)
    requires
        grid.well_formed(),
        ranges_of(grid, scroll, ys, xs),
        ys.0 <= y < ys.1,
        xs.0 <= x < xs.1,
        rows_done == rank(scroll.rows, ys.0, ys.1, y),
        cols_done == rank(scroll.cols, xs.0, xs.1, x),
    ensures
        grid.contains(x, y),
        grid.contains(x - scroll.cols, y - scroll.rows),
        partly_scrolled(grid, scroll, ys, xs, rows_done, cols_done).cell(x, y) == grid.cell(x, y),
        partly_scrolled(grid, scroll, ys, xs, rows_done, cols_done + 1) == partly_scrolled(
            grid,
            scroll,
            ys,
            xs,
            rows_done,
            cols_done,
        ).set(x - scroll.cols, y - scroll.rows, grid.cell(x, y)),
{
    let before = partly_scrolled(grid, scroll, ys, xs, rows_done, cols_done);
    let after = partly_scrolled(grid, scroll, ys, xs, rows_done, cols_done + 1);
    let target_x = x - scroll.cols;
    let target_y = y - scroll.rows;
    assert(moves(scroll.top, scroll.bottom, scroll.rows, grid.height as int, y));
    assert(moves(scroll.left, scroll.right, scroll.cols, grid.width as int, x));
    if receives(grid, scroll, x, y) {
        assert(ys.0 <= y + scroll.rows < ys.1);
        assert(xs.0 <= x + scroll.cols < xs.1);
    }
    assert(!written(grid, scroll, ys, xs, rows_done, cols_done, x, y));
    let stepped = before.set(target_x, target_y, grid.cell(x, y));
    assert forall|i: int, j: int| after.contains(i, j) implies after.cell(i, j) == stepped.cell(
        i,
        j,
    ) by {
        if receives(grid, scroll, i, j) {
            assert(ys.0 <= j + scroll.rows < ys.1);
            assert(xs.0 <= i + scroll.cols < xs.1);
        }
        if i == target_x && j == target_y {
            assert(receives(grid, scroll, i, j));
            assert(written(grid, scroll, ys, xs, rows_done, cols_done + 1, i, j));
        } else {
            assert(written(grid, scroll, ys, xs, rows_done, cols_done + 1, i, j) == written(
                grid,
                scroll,
                ys,
                xs,
                rows_done,
                cols_done,
                i,
                j,
            ));
            assert(stepped.cell(i, j) == before.cell(i, j));
        }
    }
    lemma_grids_equal(after, stepped);
}

/// A source row that has moved completely is as good as a row done.
proof fn lemma_scroll_row_done(
    grid: GridView,
    scroll: ScrollView,
    ys: (int, int),
    xs: (int, int),
    rows_done: int,
)
    requires
        grid.well_formed(),
        ranges_of(grid, scroll, ys, xs),
    ensures
        partly_scrolled(grid, scroll, ys, xs, rows_done, xs.1 - xs.0) == partly_scrolled(
            grid,
            scroll,
            ys,
            xs,
            rows_done + 1,
            0,
        ),
{
    let a = partly_scrolled(grid, scroll, ys, xs, rows_done, xs.1 - xs.0);
    let b = partly_scrolled(grid, scroll, ys, xs, rows_done + 1, 0);
    assert forall|x: int, y: int| a.contains(x, y) implies a.cell(x, y) == b.cell(x, y) by {
        if receives(grid, scroll, x, y) {
            assert(xs.0 <= x + scroll.cols < xs.1);
        }
    }
    lemma_grids_equal(a, b);
}

/// Once every source row has moved the scroll is complete.
proof fn lemma_scroll_end(grid: GridView, scroll: ScrollView, ys: (int, int), xs: (int, int))
    requires
        grid.well_formed(),
        ranges_of(grid, scroll, ys, xs),
    ensures
        partly_scrolled(grid, scroll, ys, xs, ys.1 - ys.0, 0) == scrolled(grid, scroll),
{
    let a = partly_scrolled(grid, scroll, ys, xs, ys.1 - ys.0, 0);
    let b = scrolled(grid, scroll);
    assert forall|x: int, y: int| a.contains(x, y) implies a.cell(x, y) == b.cell(x, y) by {
        if receives(grid, scroll, x, y) {
            assert(ys.0 <= y + scroll.rows < ys.1);
        }
    }
    lemma_grids_equal(a, b);
}

/// Moves the content of the region `[top, bottom) x [left, right)` by `rows`
/// rows and `cols` columns towards the origin, in place.
///
/// A cell is written where it and its source both lie in the region and on
/// the grid; it then holds what its source held before the scroll. No other
/// cell changes: content that would leave the region is dropped, and the
/// cells it leaves behind keep what they held.
pub fn scroll_cells(
    grid: &mut CharacterGrid,
    top: u64,
    bottom: u64,
    left: u64,
    right: u64,
    rows: i64,
    cols: i64,
)
    requires
        old(grid).wf(),
    ensures
        final(grid).wf(),
        final(grid)@ == scrolled(
            old(grid)@,
            scroll_view(
                top as int,
                bottom as int,
                left as int,
                right as int,
                rows as int,
                cols as int,
            ),
        ),
        rows == 0 && cols == 0 ==> final(grid)@ == old(grid)@,
{
    let ghost before = grid@;
    let ghost scroll = scroll_view(
        top as int,
        bottom as int,
        left as int,
        right as int,
        rows as int,
        cols as int,
    );
    let y_range = source_range(top, bottom, rows, grid.height());
    let x_range = source_range(left, right, cols, grid.width());
    let ghost ys = (y_range.low as int, y_range.high as int);
    let ghost xs = (x_range.low as int, x_range.high as int);
    let y_count = y_range.high - y_range.low;
    let x_count = x_range.high - x_range.low;
    proof {
        lemma_scroll_start(before, scroll, ys, xs);
    }
    let mut rows_done: u64 = 0;
    while rows_done < y_count
        invariant
            grid.wf(),
            before.well_formed(),
            before.width == grid@.width,
            before.height == grid@.height,
            ranges_of(before, scroll, ys, xs),
            scroll == scroll_view(
                top as int,
                bottom as int,
                left as int,
                right as int,
                rows as int,
                cols as int,
            ),
            ys == (y_range.low as int, y_range.high as int),
            xs == (x_range.low as int, x_range.high as int),
            y_count == y_range.high - y_range.low,
            x_count == x_range.high - x_range.low,
            rows_done <= y_count,
            grid@ == partly_scrolled(before, scroll, ys, xs, rows_done as int, 0),
        decreases y_count - rows_done,
    {
        let y = if rows > 0 {
            y_range.low + rows_done
        } else {
            y_range.high - 1 - rows_done
        };
        let mut cols_done: u64 = 0;
        while cols_done < x_count
            invariant
                grid.wf(),
                before.well_formed(),
                before.width == grid@.width,
                before.height == grid@.height,
                ranges_of(before, scroll, ys, xs),
                scroll == scroll_view(
                    top as int,
                    bottom as int,
                    left as int,
                    right as int,
                    rows as int,
                    cols as int,
                ),
                ys == (y_range.low as int, y_range.high as int),
                xs == (x_range.low as int, x_range.high as int),
                x_count == x_range.high - x_range.low,
                y_range.low <= y < y_range.high,
                rows_done == rank(rows as int, ys.0, ys.1, y as int),
                cols_done <= x_count,
                grid@ == partly_scrolled(before, scroll, ys, xs, rows_done as int, cols_done as int),
            decreases x_count - cols_done,
        {
            let x = if cols > 0 {
                x_range.low + cols_done
            } else {
                x_range.high - 1 - cols_done
            };
            proof {
                lemma_scroll_step(
                    before,
                    scroll,
                    ys,
                    xs,
                    rows_done as int,
                    cols_done as int,
                    x as int,
                    y as int,
                );
            }
            let dest_x = (x as i128 - cols as i128) as u64;
            let dest_y = (y as i128 - rows as i128) as u64;
            let cell_data = match grid.get_cell(x, y) {
                Some(cell) => Some(cell.clone()),
                None => None,
            };
            if let Some(cell_data) = cell_data {
                if let Some(dest_cell) = grid.get_cell_mut(dest_x, dest_y) {
                    *dest_cell = cell_data;
                }
            }
            cols_done = cols_done + 1;
        }
        proof {
            lemma_scroll_row_done(before, scroll, ys, xs, rows_done as int);
        }
        rows_done = rows_done + 1;
    }
    proof {
        lemma_scroll_end(before, scroll, ys, xs);
        if rows == 0 && cols == 0 {
            lemma_scroll_nowhere(before, scroll);
        }
    }
}

/// The scroll of the same region by the opposite displacement.
pub open spec fn reversed(scroll: ScrollView) -> ScrollView {
    ScrollView {
        top: scroll.top,
        bottom: scroll.bottom,
        left: scroll.left,
        right: scroll.right,
        rows: -scroll.rows,
        cols: -scroll.cols,
    }
}

/// Scrolling a region and then scrolling it back by the same amount restores
/// every cell whose content the first scroll moved to another cell of the
/// region: such content stayed inside the region during both moves.
pub proof fn lemma_scroll_round_trip(grid: GridView, scroll: ScrollView)
    requires
        grid.well_formed(),
    ensures
        forall|x: int, y: int| #[trigger]
            receives(grid, scroll, x - scroll.cols, y - scroll.rows) ==> scrolled(
                scrolled(grid, scroll),
                reversed(scroll),
            ).cell(x, y) == grid.cell(x, y),
{
    let there = scrolled(grid, scroll);
    let back = scrolled(there, reversed(scroll));
    assert forall|x: int, y: int| #[trigger]
        receives(grid, scroll, x - scroll.cols, y - scroll.rows) implies back.cell(x, y)
        == grid.cell(x, y) by {
        let mid_x = x - scroll.cols;
        let mid_y = y - scroll.rows;
        assert(grid.contains(x, y));
        assert(grid.contains(mid_x, mid_y));
        assert(there.cell(mid_x, mid_y) == grid.cell(x, y));
        assert(receives(there, reversed(scroll), x, y));
        assert(back.cell(x, y) == there.cell(mid_x, mid_y));
    }
}

/// A scroll by no rows and no columns leaves the grid as it is.
pub proof fn lemma_scroll_nowhere(grid: GridView, scroll: ScrollView)
    requires
        grid.well_formed(),
        scroll.rows == 0,
        scroll.cols == 0,
    ensures
        scrolled(grid, scroll) == grid,
{
    lemma_grids_equal(scrolled(grid, scroll), grid);
}

} // verus!
