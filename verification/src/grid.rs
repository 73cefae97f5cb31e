//! The character grid: a dense, row-major buffer of cells.

use std::sync::Arc;
use vstd::prelude::*;
use vstd::slice::slice_subrange;

use crate::style::Style;

verus! {

/// One position of the grid: a grapheme cluster and the style it is drawn in.
///
/// A cell whose text is empty is the right half of the double-width glyph in
/// the column to its left.
#[derive(Debug, PartialEq, Eq)]
pub struct GridCell {
    pub text: String,
    pub style: Option<Arc<Style>>,
}

/// What a cell holds, as mathematical values.
pub struct CellView {
    pub text: Seq<char>,
    pub style: Option<Style>,
}

/// The style behind an optional shared handle.
pub open spec fn style_view(style: Option<Arc<Style>>) -> Option<Style> {
    match style {
        Some(handle) => Some(*handle),
        None => None,
    }
}

impl CellView {
    /// The blank cell: no text and no style.
    pub open spec fn blank() -> CellView {
        CellView { text: Seq::empty(), style: None }
    }
}

impl View for GridCell {
    type V = CellView;

    open spec fn view(&self) -> CellView {
        CellView { text: self.text@, style: style_view(self.style) }
    }
}

impl Clone for GridCell {
    fn clone(&self) -> (copy: Self)
        ensures
            copy == *self,
    {
        GridCell { text: self.text.clone(), style: share_style(&self.style) }
    }
}

impl GridCell {
    /// A blank cell.
    pub fn blank() -> (cell: GridCell)
        ensures
            cell@ == CellView::blank(),
    {
        GridCell { text: String::new(), style: None }
    }
}

/// Another handle to the same style, if there is one.
pub fn share_style(style: &Option<Arc<Style>>) -> (shared: Option<Arc<Style>>)
    ensures
        shared == *style,
{
    match style {
        Some(handle) => Some(Arc::clone(handle)),
        None => None,
    }
}

/// Whether two optional handles stand for the same style.
pub fn same_style(a: &Option<Arc<Style>>, b: &Option<Arc<Style>>) -> (same: bool)
    ensures
        same == (style_view(*a) == style_view(*b)),
{
    match (a, b) {
        (Some(x), Some(y)) => **x == **y,
        (None, None) => true,
        _ => false,
    }
}

/// What a grid holds, as mathematical values: its size and its rows, top to
/// bottom, each row left to right.
pub struct GridView {
    pub width: nat,
    pub height: nat,
    pub rows: Seq<Seq<CellView>>,
}

impl GridView {
    /// There are `height` rows of `width` cells each.
    pub open spec fn well_formed(self) -> bool {
        &&& self.rows.len() == self.height
        &&& forall|y: int| 0 <= y < self.height ==> (#[trigger] self.rows[y]).len() == self.width
    }

    /// Whether column `x` of row `y` lies on the grid.
    pub open spec fn contains(self, x: int, y: int) -> bool {
        0 <= x < self.width && 0 <= y < self.height
    }

    /// The cell in column `x` of row `y`.
    pub open spec fn cell(self, x: int, y: int) -> CellView {
        self.rows[y][x]
    }

    /// The grid of the given size whose cell in column `x` of row `y` is `f(x, y)`.
    pub open spec fn from_fn(width: nat, height: nat, f: spec_fn(int, int) -> CellView) -> GridView {
        GridView {
            width,
            height,
            rows: Seq::new(height, |y: int| Seq::new(width, |x: int| f(x, y))),
        }
    }

    /// The grid of the given size in which every cell is blank.
    pub open spec fn blank(width: nat, height: nat) -> GridView {
        GridView::from_fn(width, height, |x: int, y: int| CellView::blank())
    }

    /// This grid with the cell in column `x` of row `y` replaced; unchanged
    /// where that position is off the grid.
    pub open spec fn set(self, x: int, y: int, cell: CellView) -> GridView {
        if self.contains(x, y) {
            GridView {
                width: self.width,
                height: self.height,
                rows: self.rows.update(y, self.rows[y].update(x, cell)),
            }
        } else {
            self
        }
    }

    /// The grid of the given size that keeps this grid's cells where the two
    /// overlap and is blank elsewhere.
    pub open spec fn resized(self, width: nat, height: nat) -> GridView {
        GridView::from_fn(
            width,
            height,
            |x: int, y: int|
                if self.contains(x, y) {
                    self.cell(x, y)
                } else {
                    CellView::blank()
                },
        )
    }
}

/// What a run of cells holds, cell by cell.
pub open spec fn row_view(cells: Seq<GridCell>) -> Seq<CellView> {
    Seq::new(cells.len(), |i: int| cells[i]@)
}

/// Two grids of one size that hold the same cell at every position are the
/// same grid.
pub proof fn lemma_grids_equal(a: GridView, b: GridView)
    requires
        a.well_formed(),
        b.well_formed(),
        a.width == b.width,
        a.height == b.height,
        forall|x: int, y: int| a.contains(x, y) ==> a.cell(x, y) == b.cell(x, y),
    ensures
        a == b,
{
    assert forall|y: int| 0 <= y < a.height implies #[trigger] a.rows[y] =~= b.rows[y] by {
        assert forall|x: int| 0 <= x < a.width implies a.rows[y][x] == b.rows[y][x] by {
            assert(a.contains(x, y));
            assert(a.cell(x, y) == b.cell(x, y));
        }
    }
    assert(a.rows =~= b.rows);
}

/// Resizing a grid and then resizing it back to its former size keeps every
/// cell that lies on both sizes: where the size in between is smaller, the
/// cells inside it survive the round trip.
pub proof fn lemma_resize_round_trip(grid: GridView, width: nat, height: nat)
    requires
        grid.well_formed(),
    ensures
        grid.resized(width, height).resized(grid.width, grid.height).well_formed(),
        grid.resized(width, height).resized(grid.width, grid.height).width == grid.width,
        grid.resized(width, height).resized(grid.width, grid.height).height == grid.height,
        forall|x: int, y: int|
            0 <= x < width && 0 <= y < height && grid.contains(x, y) ==> #[trigger] grid.resized(
                width,
                height,
            ).resized(grid.width, grid.height).cell(x, y) == grid.cell(x, y),
{
    let smaller = grid.resized(width, height);
    let back = smaller.resized(grid.width, grid.height);
    assert forall|x: int, y: int|
        0 <= x < width && 0 <= y < height && grid.contains(x, y) implies #[trigger] back.cell(x, y)
        == grid.cell(x, y) by {
        assert(smaller.contains(x, y));
        assert(smaller.cell(x, y) == grid.cell(x, y));
    }
}

/// A resizable grid of cells, stored row by row in one vector.
pub struct CharacterGrid {
    width: u64,
    height: u64,
    cells: Vec<GridCell>,
}

/// Position `(x, y)` of a grid `width` wide lies below `width * height` in
/// row-major order.
proof fn lemma_flat_index_bound(width: int, height: int, x: int, y: int)
    requires
        0 <= x < width,
        0 <= y < height,
    ensures
        0 <= y * width <= y * width + x < width * height,
        width * height == height * width,
{
    assert(y * width >= 0) by (nonlinear_arith)
        requires
            y >= 0,
            width >= 0,
    ;
    assert((y + 1) * width <= height * width) by (nonlinear_arith)
        requires
            y + 1 <= height,
            width >= 0,
    ;
    assert((y + 1) * width == y * width + width) by (nonlinear_arith);
    assert(height * width == width * height) by (nonlinear_arith);
}

/// Two positions with the same row-major index are the same position.
proof fn lemma_flat_index_injective(width: int, x1: int, y1: int, x2: int, y2: int)
    requires
        0 <= x1 < width,
        0 <= x2 < width,
        y1 * width + x1 == y2 * width + x2,
    ensures
        x1 == x2,
        y1 == y2,
{
    if y1 < y2 {
        assert((y2 - y1) * width >= width) by (nonlinear_arith)
            requires
                y2 - y1 >= 1,
                width >= 0,
        ;
        assert((y2 - y1) * width == y2 * width - y1 * width) by (nonlinear_arith);
    } else if y2 < y1 {
        assert((y1 - y2) * width >= width) by (nonlinear_arith)
            requires
                y1 - y2 >= 1,
                width >= 0,
        ;
        assert((y1 - y2) * width == y1 * width - y2 * width) by (nonlinear_arith);
    }
}

impl View for CharacterGrid {
    type V = GridView;

    closed spec fn view(&self) -> GridView {
        stored_grid(self.width as nat, self.height as nat, self.cells@)
    }
}

/// The grid that a row-major sequence of cells stands for.
spec fn stored_grid(width: nat, height: nat, cells: Seq<GridCell>) -> GridView {
    GridView::from_fn(width, height, |x: int, y: int| cells[y * width + x]@)
}

/// Storage in which every cell is blank stands for the blank grid.
proof fn lemma_blank_storage(width: nat, height: nat, cells: Seq<GridCell>)
    requires
        cells.len() == width * height,
        forall|k: int| 0 <= k < cells.len() ==> (#[trigger] cells[k])@ == CellView::blank(),
    ensures
        stored_grid(width, height, cells) == GridView::blank(width, height),
        stored_grid(width, height, cells).well_formed(),
{
    let stored = stored_grid(width, height, cells);
    let blank = GridView::blank(width, height);
    assert forall|j: int| 0 <= j < height implies #[trigger] stored.rows[j] =~= blank.rows[j] by {
        assert forall|i: int| 0 <= i < width implies stored.rows[j][i] == blank.rows[j][i] by {
            lemma_flat_index_bound(width as int, height as int, i, j);
        }
    }
    assert(stored.rows =~= blank.rows);
}

/// Storage for a blank grid of the given size.
fn blank_cells(width: u64, height: u64) -> (cells: Vec<GridCell>)
    requires
        width * height <= usize::MAX,
    ensures
        cells@.len() == width * height,
        forall|k: int| 0 <= k < cells@.len() ==> (#[trigger] cells@[k])@ == CellView::blank(),
{
    let count = (width * height) as usize;
    let mut cells: Vec<GridCell> = Vec::new();
    let mut filled: usize = 0;
    while filled < count
        invariant
            filled <= count,
            cells@.len() == filled,
            forall|k: int| 0 <= k < cells@.len() ==> (#[trigger] cells@[k])@ == CellView::blank(),
        decreases count - filled,
    {
        cells.push(GridCell::blank());
        filled = filled + 1;
    }
    cells
}

/// Replacing the stored cell of a position replaces that position's cell in
/// the grid and no other.
proof fn lemma_store_is_set(
    width: nat,
    height: nat,
    cells: Seq<GridCell>,
    x: int,
    y: int,
    cell: GridCell,
)
    requires
        cells.len() == width * height,
        0 <= x < width,
        0 <= y < height,
    ensures
        stored_grid(width, height, cells.update(y * width + x, cell)) == stored_grid(
            width,
            height,
            cells,
        ).set(x, y, cell@),
{
    let before = stored_grid(width, height, cells);
    let after = stored_grid(width, height, cells.update(y * width + x, cell));
    lemma_flat_index_bound(width as int, height as int, x, y);
    assert forall|j: int| 0 <= j < height implies #[trigger] after.rows[j] =~= before.set(
        x,
        y,
        cell@,
    ).rows[j] by {
        assert forall|i: int| 0 <= i < width implies after.rows[j][i] == before.set(
            x,
            y,
            cell@,
        ).rows[j][i] by {
            lemma_flat_index_bound(width as int, height as int, i, j);
            if j * width + i == y * width + x {
                lemma_flat_index_injective(width as int, i, j, x, y);
            }
        }
    }
    assert(after.rows =~= before.set(x, y, cell@).rows);
}

impl CharacterGrid {
    /// The storage holds exactly one cell for each position.
    pub closed spec fn storage_inv(&self) -> bool {
        &&& self.cells@.len() == self.width * self.height
        &&& self.width * self.height <= usize::MAX
    }

    /// The grid is valid: its storage matches its size, and its size is one
    /// that the machine can count.
    pub open spec fn wf(&self) -> bool {
        &&& self.storage_inv()
        &&& self@.well_formed()
        &&& self@.width <= u64::MAX
        &&& self@.height <= u64::MAX
    }

    /// A grid of `size.0` columns and `size.1` rows in which every cell is
    /// blank.
    pub fn new(size: (u64, u64)) -> (grid: CharacterGrid)
        requires
            size.0 * size.1 <= usize::MAX,
        ensures
            grid.wf(),
            grid@ == GridView::blank(size.0 as nat, size.1 as nat),
    {
        let (width, height) = size;
        let cells = blank_cells(width, height);
        let grid = CharacterGrid { width, height, cells };
        proof {
            lemma_blank_storage(width as nat, height as nat, grid.cells@);
        }
        grid
    }

    /// Changes the size to `size.0` columns and `size.1` rows. A cell that
    /// lies on both the old and the new grid keeps what it held; every other
    /// cell of the new grid is blank.
    pub fn resize(&mut self, size: (u64, u64))
        requires
            old(self).wf(),
            size.0 * size.1 <= usize::MAX,
        ensures
            final(self).wf(),
            final(self)@ == old(self)@.resized(size.0 as nat, size.1 as nat),
    {
        let (width, height) = size;
        let ghost target = self@.resized(width as nat, height as nat);
        let mut cells: Vec<GridCell> = Vec::new();
        let mut y: u64 = 0;
        while y < height
            invariant
                self.wf(),
                width * height <= usize::MAX,
                y <= height,
                target == self@.resized(width as nat, height as nat),
                cells@.len() == y * width,
                forall|i: int, j: int|
                    0 <= i < width && 0 <= j < y ==> (#[trigger] cells@[j * width + i])@
                        == target.cell(i, j),
            decreases height - y,
        {
            let mut x: u64 = 0;
            while x < width
                invariant
                    self.wf(),
                    width * height <= usize::MAX,
                    y < height,
                    x <= width,
                    target == self@.resized(width as nat, height as nat),
                    cells@.len() == y * width + x,
                    forall|i: int, j: int|
                        0 <= i < width && 0 <= j < y ==> (#[trigger] cells@[j * width + i])@
                            == target.cell(i, j),
                    forall|i: int| 0 <= i < x ==> (#[trigger] cells@[y * width + i])@ == target.cell(i, y as int),
                decreases width - x,
            {
                let cell = match self.get_cell(x, y) {
                    Some(kept) => kept.clone(),
                    None => GridCell::blank(),
                };
                let ghost filled = cells@;
                cells.push(cell);
                proof {
                    assert forall|i: int, j: int| 0 <= i < width && 0 <= j < y implies (
                    #[trigger] cells@[j * width + i])@ == target.cell(i, j) by {
                        lemma_flat_index_bound(width as int, y as int, i, j);
                        assert(cells@[j * width + i] == filled[j * width + i]);
                    }
                    assert forall|i: int| 0 <= i < x + 1 implies (#[trigger] cells@[y * width + i])@
                        == target.cell(i, y as int) by {
                        if i < x {
                            assert(cells@[y * width + i] == filled[y * width + i]);
                        }
                    }
                }
                x = x + 1;
            }
            proof {
                assert((y + 1) * width == y * width + width) by (nonlinear_arith);
                assert forall|i: int, j: int| 0 <= i < width && 0 <= j < y + 1 implies (
                #[trigger] cells@[j * width + i])@ == target.cell(i, j) by {
                    if j == y {
                    }
                }
            }
            y = y + 1;
        }
        self.width = width;
        self.height = height;
        self.cells = cells;
        proof {
            assert(height * width == width * height) by (nonlinear_arith);
            assert forall|j: int| 0 <= j < height implies #[trigger] self@.rows[j] =~= target.rows[j] by {
                assert forall|i: int| 0 <= i < width implies self@.rows[j][i] == target.rows[j][i] by {
                    assert(self@.rows[j][i] == self.cells@[j * width + i]@);
                    assert(target.rows[j][i] == target.cell(i, j));
                }
            }
            assert(self@.rows =~= target.rows);
        }
    }

    /// Makes every cell blank; the size stays.
    pub fn clear(&mut self)
        requires
            old(self).wf(),
        ensures
            final(self).wf(),
            final(self)@ == GridView::blank(old(self)@.width, old(self)@.height),
    {
        self.cells = blank_cells(self.width, self.height);
        proof {
            lemma_blank_storage(self.width as nat, self.height as nat, self.cells@);
        }
    }

    /// The cells of row `y`, left to right, or `None` where there is no such
    /// row.
    pub fn row(&self, y: u64) -> (row: Option<&[GridCell]>)
        requires
            self.wf(),
        ensures
            row is Some <==> y < self@.height,
            row is Some ==> row_view(row.unwrap()@) == self@.rows[y as int],
    {
        if y < self.height {
            proof {
                assert((y + 1) * self.width == y * self.width + self.width) by (nonlinear_arith);
                assert((y + 1) * self.width <= self.height * self.width) by (nonlinear_arith)
                    requires
                        y + 1 <= self.height,
                        self.width >= 0,
                ;
                assert(self.height * self.width == self.width * self.height) by (nonlinear_arith);
                assert(y * self.width >= 0) by (nonlinear_arith)
                    requires
                        y >= 0,
                        self.width >= 0,
                ;
            }
            let start = (y * self.width) as usize;
            let end = ((y + 1) * self.width) as usize;
            let cells = slice_subrange(self.cells.as_slice(), start, end);
            proof {
                assert(row_view(cells@) =~= self@.rows[y as int]);
            }
            Some(cells)
        } else {
            None
        }
    }

    /// The number of columns.
    pub fn width(&self) -> (width: u64)
        ensures
            width == self@.width,
    {
        self.width
    }

    /// The number of rows.
    pub fn height(&self) -> (height: u64)
        ensures
            height == self@.height,
    {
        self.height
    }

    /// The place of position `(x, y)` in the storage, or `None` off the grid.
    fn cell_index(&self, x: u64, y: u64) -> (index: Option<usize>)
        requires
            self.wf(),
        ensures
            index is Some <==> self@.contains(x as int, y as int),
            index is Some ==> index.unwrap() == y * self.width + x && index.unwrap()
                < self.cells@.len(),
    {
        if x >= self.width || y >= self.height {
            None
        } else {
            proof {
                lemma_flat_index_bound(self.width as int, self.height as int, x as int, y as int);
            }
            Some((x + y * self.width) as usize)
        }
    }

    /// The cell in column `x` of row `y`, or `None` where that is off the grid.
    pub fn get_cell(&self, x: u64, y: u64) -> (cell: Option<&GridCell>)
        requires
            self.wf(),
        ensures
            cell is Some <==> self@.contains(x as int, y as int),
            cell is Some ==> cell.unwrap()@ == self@.cell(x as int, y as int),
    {
        match self.cell_index(x, y) {
            Some(index) => Some(&self.cells[index]),
            None => None,
        }
    }

    /// The cell in column `x` of row `y`, for writing, or `None` where that is
    /// off the grid. What the caller leaves in the cell is what the grid then
    /// holds there; no other cell changes.
    pub fn get_cell_mut(&mut self, x: u64, y: u64) -> (cell: Option<&mut GridCell>)
        requires
            old(self).wf(),
        ensures
            cell is Some <==> old(self)@.contains(x as int, y as int),
            match cell {
                Some(slot) => {
                    &&& (*slot)@ == old(self)@.cell(x as int, y as int)
                    &&& final(self).wf()
                    &&& final(self)@ == old(self)@.set(x as int, y as int, (*final(slot))@)
                },
                None => *final(self) == *old(self),
            },
    {
        match self.cell_index(x, y) {
            Some(index) => {
                let slot = &mut self.cells[index];
                proof {
                    lemma_store_is_set(
                        old(self).width as nat,
                        old(self).height as nat,
                        old(self).cells@,
                        x as int,
                        y as int,
                        *final(slot),
                    );
                }
                Some(slot)
            },
            None => None,
        }
    }
}

} // verus!
