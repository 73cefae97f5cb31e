//! The window: one grid, its place on the screen, and the operations that
//! change the grid and tell the renderer what to draw.

use std::collections::HashMap;
use std::sync::Arc;
use vstd::prelude::*;
use vstd::string::StringExecFns;

use crate::command::{
    tagged, DrawCommand, DrawCommandBatcher, DrawCommandView, Real, WindowDrawCommand,
    WindowDrawCommandView,
};
use crate::fragment::{line_fragments, row_fragments};
use crate::grid::{share_style, style_view, CharacterGrid, GridView};
use crate::scroll::{scroll_cells, scroll_view, scrolled};
use crate::style::Style;
use crate::update::{
    apply_updates, draw_state, lemma_apply_update_capped, lemma_apply_update_keeps_size,
    modify_grid, saturated, updates_view, GridLineCell, GridLineCellView,
};

verus! {

/// What a window shows.
#[derive(Clone, Copy, Debug, PartialEq, Eq, Structural)]
pub enum WindowType {
    Editor,
    Message,
}

/// The corner by which a floating window is anchored.
#[derive(Clone, Copy, Debug, PartialEq, Eq, Structural)]
pub enum WindowAnchor {
    NorthWest,
    NorthEast,
    SouthWest,
    SouthEast,
}

/// Where a floating window is anchored, and its place in the floating order.
#[derive(Clone, Copy, Debug, PartialEq, Eq)]
pub struct AnchorInfo {
    pub anchor_grid_id: u64,
    pub anchor_type: WindowAnchor,
    pub anchor_left: Real,
    pub anchor_top: Real,
    pub sort_order: u64,
}

/// A window: a grid of cells with an identity and a position on the screen.
///
/// Every operation that the renderer has to learn of appends its commands to
/// the queue it is given, tagged with the window's id.
pub struct Window {
    grid_id: u64,
    grid: CharacterGrid,
    pub window_type: WindowType,
    pub anchor_info: Option<AnchorInfo>,
    grid_position: (Real, Real),
}

/// What a window holds, as mathematical values.
pub struct WindowView {
    pub grid_id: u64,
    pub grid: GridView,
    pub window_type: WindowType,
    pub anchor_info: Option<AnchorInfo>,
    pub grid_position: (Real, Real),
}

impl View for Window {
    type V = WindowView;

    closed spec fn view(&self) -> WindowView {
        WindowView {
            grid_id: self.grid_id,
            grid: self.grid@,
            window_type: self.window_type,
            anchor_info: self.anchor_info,
            grid_position: self.grid_position,
        }
    }
}

/// The place in the floating order that the anchor gives, if there is one.
pub open spec fn floating_order(anchor_info: Option<AnchorInfo>) -> Option<u64> {
    match anchor_info {
        Some(anchor) => Some(anchor.sort_order),
        None => None,
    }
}

/// The command that tells the renderer where a window is and how large.
pub open spec fn position_command(window: WindowView) -> DrawCommandView {
    tagged(
        window.grid_id,
        WindowDrawCommandView::Position {
            grid_position: window.grid_position,
            grid_size: (window.grid.width as u64, window.grid.height as u64),
            floating_order: floating_order(window.anchor_info),
        },
    )
}

/// The command that draws row `row` of the grid: its fragments, left to
/// right.
pub open spec fn draw_line_command(grid_id: u64, grid: GridView, row: int) -> DrawCommandView {
    tagged(grid_id, WindowDrawCommandView::DrawLine(row_fragments(grid.rows[row], row as nat)))
}

/// The commands of a full redraw: a clear, then every row from the last up
/// to the first.
pub open spec fn redraw_commands(grid_id: u64, grid: GridView) -> Seq<DrawCommandView> {
    seq![tagged(grid_id, WindowDrawCommandView::Clear)] + Seq::new(
        grid.height,
        |k: int| draw_line_command(grid_id, grid, grid.height - 1 - k),
    )
}

/// The commands that follow a change to row `row`: the row below it, if
/// there is one, the row itself, and the row above it, if there is one.
pub open spec fn neighbour_lines(grid_id: u64, grid: GridView, row: int) -> Seq<DrawCommandView> {
    (if row + 1 < grid.height {
        seq![draw_line_command(grid_id, grid, row + 1)]
    } else {
        Seq::empty()
    }) + seq![draw_line_command(grid_id, grid, row)] + (if row > 0 {
        seq![draw_line_command(grid_id, grid, row - 1)]
    } else {
        Seq::empty()
    })
}

/// The grid after a row update: the updates applied in order to row `row`
/// from column `column_start` on, the first of them inheriting no style. A
/// row off the grid leaves the grid as it is.
pub open spec fn drawn(
    grid: GridView,
    row: int,
    column_start: int,
    updates: Seq<GridLineCellView>,
    defined_styles: Map<u64, Arc<Style>>,
) -> GridView {
    if 0 <= row < grid.height {
        apply_updates(draw_state(grid, column_start, None), row, updates, defined_styles).grid
    } else {
        grid
    }
}

impl Window {
    /// The window's grid is valid.
    pub closed spec fn grid_wf(&self) -> bool {
        self.grid.wf()
    }

    /// The window is valid: its grid is, and the grid's size is one that the
    /// machine can count.
    pub open spec fn wf(&self) -> bool {
        &&& self.grid_wf()
        &&& self@.grid.well_formed()
        &&& self@.grid.width <= u64::MAX
        &&& self@.grid.height <= u64::MAX
    }

    /// Whether two windows agree in everything but their grids.
    pub open spec fn same_frame(&self, other: &Window) -> bool {
        &&& self@.grid_id == other@.grid_id
        &&& self@.grid_position == other@.grid_position
        &&& self@.window_type == other@.window_type
        &&& self@.anchor_info == other@.anchor_info
    }

    /// A window with a blank grid of the given size. The renderer is told at
    /// once where the window is and how large.
    pub fn new(
        grid_id: u64,
        window_type: WindowType,
        anchor_info: Option<AnchorInfo>,
        grid_position: (Real, Real),
        grid_size: (u64, u64),
        draw_command_batcher: &mut DrawCommandBatcher,
    ) -> (window: Window)
        requires
            grid_size.0 * grid_size.1 <= usize::MAX,
        ensures
            window.wf(),
            window@.grid_id == grid_id,
            window@.grid_position == grid_position,
            window@.grid == GridView::blank(grid_size.0 as nat, grid_size.1 as nat),
            window@.window_type == window_type,
            window@.anchor_info == anchor_info,
            final(draw_command_batcher)@ == old(draw_command_batcher)@.push(
                position_command(window@),
            ),
    {
        let window = Window {
            grid_id,
            grid: CharacterGrid::new(grid_size),
            window_type,
            anchor_info,
            grid_position,
        };
        window.send_updated_position(draw_command_batcher);
        window
    }

    /// Appends a command about this window to the queue.
    fn send_command(&self, command: WindowDrawCommand, draw_command_batcher: &mut DrawCommandBatcher)
        ensures
            final(draw_command_batcher)@ == old(draw_command_batcher)@.push(
                tagged(self@.grid_id, command@),
            ),
    {
        draw_command_batcher.queue(DrawCommand::Window { grid_id: self.grid_id, command });
    }

    /// Tells the renderer where the window is and how large.
    fn send_updated_position(&self, draw_command_batcher: &mut DrawCommandBatcher)
        requires
            self.wf(),
        ensures
            final(draw_command_batcher)@ == old(draw_command_batcher)@.push(
                position_command(self@),
            ),
    {
        let floating_order = match &self.anchor_info {
            Some(anchor) => Some(anchor.sort_order),
            None => None,
        };
        self.send_command(
            WindowDrawCommand::Position {
                grid_position: self.grid_position,
                grid_size: (self.grid.width(), self.grid.height()),
                floating_order,
            },
            draw_command_batcher,
        );
    }

    /// The window's grid, for reading.
    pub fn grid(&self) -> (grid: &CharacterGrid)
        requires
            self.wf(),
        ensures
            grid.wf(),
            grid@ == self@.grid,
    {
        &self.grid
    }

    /// What the cursor covers in column `window_left` of row `window_top`:
    /// the cell's text and style, and whether the glyph there is double-width,
    /// which it is where the cell to its right is on the grid and has no
    /// text. Off the grid the cursor covers a space without style.
    pub fn get_cursor_grid_cell(&self, window_left: u64, window_top: u64) -> (cell: (
        String,
        Option<Arc<Style>>,
        bool,
    ))
        requires
            self.wf(),
        ensures
            self@.grid.contains(window_left as int, window_top as int) ==> {
                &&& cell.0@ == self@.grid.cell(window_left as int, window_top as int).text
                &&& style_view(cell.1) == self@.grid.cell(
                    window_left as int,
                    window_top as int,
                ).style
            },
            !self@.grid.contains(window_left as int, window_top as int) ==> {
                &&& cell.0@ == " "@
                &&& cell.1 is None
            },
            cell.2 == (self@.grid.contains(window_left + 1, window_top as int) && self@.grid.cell(
                window_left + 1,
                window_top as int,
            ).text.len() == 0),
    {
        let (text, style) = match self.grid.get_cell(window_left, window_top) {
            Some(grid_cell) => (grid_cell.text.clone(), share_style(&grid_cell.style)),
            None => (String::from_str(" "), None),
        };
        let double_width = if window_left < u64::MAX {
            match self.grid.get_cell(window_left + 1, window_top) {
                Some(right) => right.text.as_str().is_empty(),
                None => false,
            }
        } else {
            false
        };
        (text, style, double_width)
    }

    /// The number of columns of the grid.
    pub fn get_width(&self) -> (width: u64)
        requires
            self.wf(),
        ensures
            width == self@.grid.width,
    {
        self.grid.width()
    }

    /// The number of rows of the grid.
    pub fn get_height(&self) -> (height: u64)
        requires
            self.wf(),
        ensures
            height == self@.grid.height,
    {
        self.grid.height()
    }

    /// The position of the window on the screen.
    pub fn get_grid_position(&self) -> (position: (Real, Real))
        ensures
            position == self@.grid_position,
    {
        self.grid_position
    }

    /// Moves the window: the grid takes the new size, keeping the cells that
    /// lie on both sizes, the anchor and the position are replaced, the
    /// renderer is told the new place and size, and everything is redrawn.
    pub fn position(
        &mut self,
        anchor_info: Option<AnchorInfo>,
        grid_size: (u64, u64),
        grid_position: (Real, Real),
        draw_command_batcher: &mut DrawCommandBatcher,
    )
        requires
            old(self).wf(),
            grid_size.0 * grid_size.1 <= usize::MAX,
        ensures
            final(self).wf(),
            final(self)@.grid_id == old(self)@.grid_id,
            final(self)@.window_type == old(self)@.window_type,
            final(self)@.anchor_info == anchor_info,
            final(self)@.grid_position == grid_position,
            final(self)@.grid == old(self)@.grid.resized(grid_size.0 as nat, grid_size.1 as nat),
            final(draw_command_batcher)@ == old(draw_command_batcher)@.push(
                position_command(final(self)@),
            ) + redraw_commands(final(self)@.grid_id, final(self)@.grid),
    {
        self.grid.resize(grid_size);
        self.anchor_info = anchor_info;
        self.grid_position = grid_position;
        self.send_updated_position(draw_command_batcher);
        self.redraw(draw_command_batcher);
    }

    /// Resizes the window: the grid takes the new size, keeping the cells
    /// that lie on both sizes, the renderer is told the new size, and
    /// everything is redrawn.
    pub fn resize(&mut self, new_size: (u64, u64), draw_command_batcher: &mut DrawCommandBatcher)
        requires
            old(self).wf(),
            new_size.0 * new_size.1 <= usize::MAX,
        ensures
            final(self).wf(),
            final(self).same_frame(old(self)),
            final(self)@.grid == old(self)@.grid.resized(new_size.0 as nat, new_size.1 as nat),
            final(draw_command_batcher)@ == old(draw_command_batcher)@.push(
                position_command(final(self)@),
            ) + redraw_commands(final(self)@.grid_id, final(self)@.grid),
    {
        self.grid.resize(new_size);
        self.send_updated_position(draw_command_batcher);
        self.redraw(draw_command_batcher);
    }

    /// Tells the renderer to draw row `row` anew.
    fn redraw_line(&self, row: u64, draw_command_batcher: &mut DrawCommandBatcher)
        requires
            self.wf(),
            row < self@.grid.height,
        ensures
            final(draw_command_batcher)@ == old(draw_command_batcher)@.push(
                draw_line_command(self@.grid_id, self@.grid, row as int),
            ),
    {
        let cells = self.grid.row(row).unwrap();
        let line_fragments = line_fragments(cells, row);
        self.send_command(WindowDrawCommand::DrawLine(line_fragments), draw_command_batcher);
    }

    /// Applies a row update to row `row`, from column `column_start` on, and
    /// tells the renderer to draw anew the row below, the row itself and the
    /// row above, in that order. A row off the grid changes nothing and
    /// draws nothing.
    pub fn draw_grid_line(
        &mut self,
        row: u64,
        column_start: u64,
        cells: Vec<GridLineCell>,
        defined_styles: &HashMap<u64, Arc<Style>>,
        draw_command_batcher: &mut DrawCommandBatcher,
    )
        requires
            old(self).wf(),
        ensures
            final(self).wf(),
            final(self).same_frame(old(self)),
            final(self)@.grid == drawn(
                old(self)@.grid,
                row as int,
                column_start as int,
                updates_view(cells@),
                defined_styles@,
            ),
            final(self)@.grid.width == old(self)@.grid.width,
            final(self)@.grid.height == old(self)@.grid.height,
            row < old(self)@.grid.height ==> final(draw_command_batcher)@ == old(
                draw_command_batcher,
            )@ + neighbour_lines(final(self)@.grid_id, final(self)@.grid, row as int),
            row >= old(self)@.grid.height ==> final(draw_command_batcher)@ == old(
                draw_command_batcher,
            )@,
    {
        let mut previous_style: Option<Arc<Style>> = None;
        if row < self.grid.height() {
            let ghost updates = updates_view(cells@);
            let ghost start = draw_state(self@.grid, column_start as int, None);
            let ghost queued = draw_command_batcher@;
            let mut column_pos = column_start;
            assert(updates.take(0) =~= Seq::<GridLineCellView>::empty());
            for cell in it: cells
                invariant
                    self.wf(),
                    self.same_frame(old(self)),
                    row < self@.grid.height,
                    self@.grid.width == start.grid.width,
                    self@.grid.height == start.grid.height,
                    updates.len() == it.seq().len(),
                    forall|k: int| 0 <= k < updates.len() ==> #[trigger] updates[k] == it.seq()[k]@,
                    self@.grid == apply_updates(
                        start,
                        row as int,
                        updates.take(it.index() as int),
                        defined_styles@,
                    ).grid,
                    column_pos == saturated(
                        apply_updates(
                            start,
                            row as int,
                            updates.take(it.index() as int),
                            defined_styles@,
                        ).column,
                    ),
                    apply_updates(
                        start,
                        row as int,
                        updates.take(it.index() as int),
                        defined_styles@,
                    ).column >= 0,
                    style_view(previous_style) == apply_updates(
                        start,
                        row as int,
                        updates.take(it.index() as int),
                        defined_styles@,
                    ).carry,
            {
                proof {
                    let done = it.index() as int;
                    let state = apply_updates(start, row as int, updates.take(done), defined_styles@);
                    assert(updates.take(done + 1).drop_last() =~= updates.take(done));
                    assert(updates.take(done + 1).last() == updates[done]);
                    lemma_apply_update_capped(state, row as int, updates[done], defined_styles@);
                    lemma_apply_update_keeps_size(state, row as int, updates[done], defined_styles@);
                }
                modify_grid(
                    &mut self.grid,
                    row,
                    &mut column_pos,
                    cell,
                    defined_styles,
                    &mut previous_style,
                );
            }
            assert(updates.take(updates.len() as int) =~= updates);
            if row < self.grid.height() - 1 {
                self.redraw_line(row + 1, draw_command_batcher);
            }
            self.redraw_line(row, draw_command_batcher);
            if row > 0 {
                self.redraw_line(row - 1, draw_command_batcher);
            }
            assert(draw_command_batcher@ =~= queued + neighbour_lines(
                self@.grid_id,
                self@.grid,
                row as int,
            ));
        }
    }

    /// Scrolls the region `[top, bottom) x [left, right)` by `rows` rows and
    /// `cols` columns: the renderer is told of the scroll as given, and the
    /// grid's cells move accordingly. No row is drawn anew.
    pub fn scroll_region(
        &mut self,
        top: u64,
        bottom: u64,
        left: u64,
        right: u64,
        rows: i64,
        cols: i64,
        draw_command_batcher: &mut DrawCommandBatcher,
    )
        requires
            old(self).wf(),
        ensures
            final(self).wf(),
            final(self).same_frame(old(self)),
            final(self)@.grid == scrolled(
                old(self)@.grid,
                scroll_view(
                    top as int,
                    bottom as int,
                    left as int,
                    right as int,
                    rows as int,
                    cols as int,
                ),
            ),
            rows == 0 && cols == 0 ==> final(self)@.grid == old(self)@.grid,
            final(draw_command_batcher)@ == old(draw_command_batcher)@.push(
                tagged(
                    old(self)@.grid_id,
                    WindowDrawCommandView::Scroll { top, bottom, left, right, rows, cols },
                ),
            ),
    {
        self.send_command(
            WindowDrawCommand::Scroll { top, bottom, left, right, rows, cols },
            draw_command_batcher,
        );
        scroll_cells(&mut self.grid, top, bottom, left, right, rows, cols);
    }

    /// Blanks the grid and tells the renderer to clear the window.
    pub fn clear(&mut self, draw_command_batcher: &mut DrawCommandBatcher)
        requires
            old(self).wf(),
        ensures
            final(self).wf(),
            final(self).same_frame(old(self)),
            final(self)@.grid == GridView::blank(old(self)@.grid.width, old(self)@.grid.height),
            final(draw_command_batcher)@ == old(draw_command_batcher)@.push(
                tagged(old(self)@.grid_id, WindowDrawCommandView::Clear),
            ),
    {
        self.grid.clear();
        self.send_command(WindowDrawCommand::Clear, draw_command_batcher);
    }

    /// Tells the renderer to clear the window and to draw every row anew,
    /// from the last row up to the first.
    pub fn redraw(&self, draw_command_batcher: &mut DrawCommandBatcher)
        requires
            self.wf(),
        ensures
            final(draw_command_batcher)@ == old(draw_command_batcher)@ + redraw_commands(
                self@.grid_id,
                self@.grid,
            ),
    {
        let ghost queued = draw_command_batcher@;
        self.send_command(WindowDrawCommand::Clear, draw_command_batcher);
        let height = self.grid.height();
        let mut row = height;
        assert(draw_command_batcher@ =~= queued + seq![
            tagged(self@.grid_id, WindowDrawCommandView::Clear),
        ] + Seq::new(
            0,
            |k: int| draw_line_command(self@.grid_id, self@.grid, self@.grid.height - 1 - k),
        ));
        while row > 0
            invariant
                self.wf(),
                height == self@.grid.height,
                row <= height,
                draw_command_batcher@ == queued + seq![
                    tagged(self@.grid_id, WindowDrawCommandView::Clear),
                ] + Seq::new(
                    (height - row) as nat,
                    |k: int| draw_line_command(self@.grid_id, self@.grid, self@.grid.height - 1 - k),
                ),
            decreases row,
        {
            row = row - 1;
            let ghost before = draw_command_batcher@;
            self.redraw_line(row, draw_command_batcher);
            assert(draw_command_batcher@ =~= queued + seq![
                tagged(self@.grid_id, WindowDrawCommandView::Clear),
            ] + Seq::new(
                (height - row) as nat,
                |k: int| draw_line_command(self@.grid_id, self@.grid, self@.grid.height - 1 - k),
            ));
        }
        assert(draw_command_batcher@ =~= queued + redraw_commands(self@.grid_id, self@.grid));
    }

    /// Tells the renderer to hide the window.
    pub fn hide_window(&self, draw_command_batcher: &mut DrawCommandBatcher)
        ensures
            final(draw_command_batcher)@ == old(draw_command_batcher)@.push(
                tagged(self@.grid_id, WindowDrawCommandView::Hide),
            ),
    {
        self.send_command(WindowDrawCommand::Hide, draw_command_batcher);
    }

    /// Tells the renderer to show the window.
    pub fn show(&self, draw_command_batcher: &mut DrawCommandBatcher)
        ensures
            final(draw_command_batcher)@ == old(draw_command_batcher)@.push(
                tagged(self@.grid_id, WindowDrawCommandView::Show),
            ),
    {
        self.send_command(WindowDrawCommand::Show, draw_command_batcher);
    }

    /// Tells the renderer that the window is closed.
    pub fn close(&self, draw_command_batcher: &mut DrawCommandBatcher)
        ensures
            final(draw_command_batcher)@ == old(draw_command_batcher)@.push(
                tagged(self@.grid_id, WindowDrawCommandView::Close),
            ),
    {
        self.send_command(WindowDrawCommand::Close, draw_command_batcher);
    }

    /// Tells the renderer by how much the window's viewport has scrolled.
    pub fn update_viewport(&self, scroll_delta: Real, draw_command_batcher: &mut DrawCommandBatcher)
        ensures
            final(draw_command_batcher)@ == old(draw_command_batcher)@.push(
                tagged(self@.grid_id, WindowDrawCommandView::Viewport { scroll_delta }),
            ),
    {
        self.send_command(WindowDrawCommand::Viewport { scroll_delta }, draw_command_batcher);
    }
}

} // verus!
