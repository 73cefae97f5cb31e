//! Applying row updates to the grid: style resolution, run-length repeats and
//! the layout of grapheme clusters over columns.

use std::collections::HashMap;
use std::sync::Arc;
use unicode_segmentation::UnicodeSegmentation;
use vstd::prelude::*;
use vstd::string::StringExecFns;

use crate::grid::{
    lemma_grids_equal, share_style, style_view, CellView, CharacterGrid, GridCell, GridView,
};
use crate::style::Style;

verus! {

broadcast use vstd::std_specs::hash::group_hash_axioms;

/// One item of a row update: a text, the highlight it is drawn with, and how
/// often the text is repeated.
///
/// A highlight id of `Some(0)` asks for no style; `None` asks for the style of
/// the update before it. A repeat of `Some(0)` makes the update a no-op.
#[derive(Debug, PartialEq, Eq)]
pub struct GridLineCell {
    pub text: String,
    pub highlight_id: Option<u64>,
    pub repeat: Option<u64>,
}

/// What an update holds, as mathematical values.
pub struct GridLineCellView {
    pub text: Seq<char>,
    pub highlight_id: Option<u64>,
    pub repeat: Option<u64>,
}

impl View for GridLineCell {
    type V = GridLineCellView;

    open spec fn view(&self) -> GridLineCellView {
        GridLineCellView { text: self.text@, highlight_id: self.highlight_id, repeat: self.repeat }
    }
}

/// The extended grapheme clusters of a text, in order, as the Unicode text
/// segmentation rules delimit them.
pub uninterp spec fn extended_grapheme_clusters(text: Seq<char>) -> Seq<Seq<char>>;

/// Splits a text into its extended grapheme clusters.
///
/// Calls `UnicodeSegmentation::graphemes` with `is_extended = true` and copies
/// each cluster into a string of its own. Trusted: the clusters returned are
/// `extended_grapheme_clusters` of the text, which depends on the text alone.
#[verifier::external_body]
fn split_graphemes(text: &str) -> (clusters: Vec<String>)
    ensures
        clusters.deep_view() == extended_grapheme_clusters(text@),
{
    text.graphemes(true).map(String::from).collect()
}

/// The style that an update is drawn with: none for id 0, the table's style
/// for another id (none where the table lacks it), and the carried style where
/// the update names no id.
pub open spec fn resolved_style(
    highlight_id: Option<u64>,
    defined_styles: Map<u64, Arc<Style>>,
    carry: Option<Style>,
) -> Option<Style> {
    match highlight_id {
        Some(id) => if id != 0 && defined_styles.contains_key(id) {
            Some(*defined_styles[id])
        } else {
            None
        },
        None => carry,
    }
}

/// `text` written `times` times in a row.
pub open spec fn repeated(text: Seq<char>, times: nat) -> Seq<char>
    decreases times,
{
    if times == 0 {
        Seq::empty()
    } else {
        repeated(text, (times - 1) as nat) + text
    }
}

/// The text that an update lays out: its text, repeated where it says so.
pub open spec fn effective_text(update: GridLineCellView) -> Seq<char> {
    match update.repeat {
        Some(times) => repeated(update.text, times as nat),
        None => update.text,
    }
}

/// The texts of the cells that a text fills, one per column: its grapheme
/// clusters, or a single empty text where the text is empty.
pub open spec fn laid_out(text: Seq<char>) -> Seq<Seq<char>> {
    if text.len() == 0 {
        seq![Seq::<char>::empty()]
    } else {
        extended_grapheme_clusters(text)
    }
}

/// The grid after `texts` are written into row `row`, one per column from
/// column `start` on, each with `style`. Columns and rows off the grid are
/// dropped.
pub open spec fn write_run(
    grid: GridView,
    row: int,
    start: int,
    texts: Seq<Seq<char>>,
    style: Option<Style>,
) -> GridView {
    GridView::from_fn(
        grid.width,
        grid.height,
        |x: int, y: int|
            if y == row && start <= x < start + texts.len() {
                CellView { text: texts[x - start], style }
            } else {
                grid.cell(x, y)
            },
    )
}

/// Writing one text more is writing one cell more.
proof fn lemma_write_run_step(
    grid: GridView,
    row: int,
    start: int,
    texts: Seq<Seq<char>>,
    style: Option<Style>,
    done: int,
)
    requires
        grid.well_formed(),
        0 <= done < texts.len(),
    ensures
        write_run(grid, row, start, texts.take(done + 1), style) == write_run(
            grid,
            row,
            start,
            texts.take(done),
            style,
        ).set(start + done, row, CellView { text: texts[done], style }),
{
    let before = write_run(grid, row, start, texts.take(done), style);
    let cell = CellView { text: texts[done], style };
    let stepped = before.set(start + done, row, cell);
    let after = write_run(grid, row, start, texts.take(done + 1), style);
    assert forall|y: int| 0 <= y < grid.height implies #[trigger] after.rows[y] =~= stepped.rows[y] by {
        assert forall|x: int| 0 <= x < grid.width implies after.rows[y][x] == stepped.rows[y][x] by {
            assert(before.rows[y][x] == before.cell(x, y));
        }
    }
    assert(after.rows =~= stepped.rows);
}

/// Writing no text changes nothing.
proof fn lemma_write_run_nothing(grid: GridView, row: int, start: int, style: Option<Style>)
    requires
        grid.well_formed(),
    ensures
        write_run(grid, row, start, Seq::empty(), style) == grid,
{
    let after = write_run(grid, row, start, Seq::empty(), style);
    assert forall|y: int| 0 <= y < grid.height implies #[trigger] after.rows[y] =~= grid.rows[y] by {
    }
    assert(after.rows =~= grid.rows);
}

/// The smaller of a column count and the largest column a cursor can hold.
pub open spec fn saturated(column: int) -> int {
    if column < u64::MAX {
        column
    } else {
        u64::MAX as int
    }
}

/// Writes `clusters` into row `row_index`, one per column from the cursor on,
/// each with `style`, and moves the cursor past them. A cluster whose column
/// is off the grid is dropped. The cursor stops at the largest value it can
/// hold.
pub fn lay_out_clusters(
    grid: &mut CharacterGrid,
    row_index: u64,
    column_pos: &mut u64,
    clusters: Vec<String>,
    style: &Option<Arc<Style>>,
)
    requires
        old(grid).wf(),
    ensures
        final(grid).wf(),
        final(grid)@ == write_run(
            old(grid)@,
            row_index as int,
            *old(column_pos) as int,
            clusters.deep_view(),
            style_view(*style),
        ),
        *final(column_pos) == saturated(*old(column_pos) + clusters.len()),
{
    let ghost before = grid@;
    let ghost start = *column_pos as int;
    let ghost texts = clusters.deep_view();
    proof {
        lemma_write_run_nothing(before, row_index as int, start, style_view(*style));
        assert(texts.take(0) =~= Seq::empty());
    }
    for cluster in it: clusters
        invariant
            grid.wf(),
            before.well_formed(),
            texts.len() == it.seq().len(),
            forall|k: int| 0 <= k < texts.len() ==> #[trigger] texts[k] == it.seq()[k]@,
            grid@ == write_run(
                before,
                row_index as int,
                start,
                texts.take(it.index() as int),
                style_view(*style),
            ),
            *column_pos == saturated(start + it.index()),
    {
        proof {
            lemma_write_run_step(
                before,
                row_index as int,
                start,
                texts,
                style_view(*style),
                it.index() as int,
            );
        }
        if let Some(slot) = grid.get_cell_mut(*column_pos, row_index) {
            *slot = GridCell { text: cluster, style: share_style(style) };
        }
        if *column_pos < u64::MAX {
            *column_pos = *column_pos + 1;
        }
    }
    proof {
        assert(texts.take(texts.len() as int) =~= texts);
    }
}

/// Where a row update stands between two of its items: the grid so far, the
/// column of the next cell, and the style that the next item inherits if it
/// names none. The column is not bounded by the grid's width.
pub struct DrawState {
    pub grid: GridView,
    pub column: int,
    pub carry: Option<Style>,
}

/// The state made of the three given parts.
pub open spec fn draw_state(grid: GridView, column: int, carry: Option<Style>) -> DrawState {
    DrawState { grid, column, carry }
}

/// The state after one update is applied to row `row`.
///
/// An update that repeats zero times leaves the state as it is. Any other
/// update resolves its style, writes one cell for each cluster of its text
/// from the current column on (one empty cell where the text is empty), moves
/// the column past what it wrote, and hands its style on.
pub open spec fn apply_update(
    state: DrawState,
    row: int,
    update: GridLineCellView,
    defined_styles: Map<u64, Arc<Style>>,
) -> DrawState {
    if update.repeat == Some(0u64) {
        state
    } else {
        let style = resolved_style(update.highlight_id, defined_styles, state.carry);
        let texts = laid_out(effective_text(update));
        DrawState {
            grid: write_run(state.grid, row, state.column, texts, style),
            column: state.column + texts.len(),
            carry: style,
        }
    }
}

/// The state after the updates are applied to row `row` in order.
pub open spec fn apply_updates(
    state: DrawState,
    row: int,
    updates: Seq<GridLineCellView>,
    defined_styles: Map<u64, Arc<Style>>,
) -> DrawState
    decreases updates.len(),
{
    if updates.len() == 0 {
        state
    } else {
        apply_update(
            apply_updates(state, row, updates.drop_last(), defined_styles),
            row,
            updates.last(),
            defined_styles,
        )
    }
}

/// Repeating the empty text gives the empty text.
pub proof fn lemma_repeated_empty(text: Seq<char>, times: nat)
    requires
        text.len() == 0,
    ensures
        repeated(text, times) =~= Seq::<char>::empty(),
    decreases times,
{
    if times > 0 {
        lemma_repeated_empty(text, (times - 1) as nat);
    }
}

/// Writing a single text is replacing a single cell.
pub proof fn lemma_write_run_single(
    grid: GridView,
    row: int,
    start: int,
    text: Seq<char>,
    style: Option<Style>,
)
    requires
        grid.well_formed(),
    ensures
        write_run(grid, row, start, seq![text], style) == grid.set(
            start,
            row,
            CellView { text, style },
        ),
{
    let texts = seq![text];
    lemma_write_run_step(grid, row, start, texts, style, 0);
    lemma_write_run_nothing(grid, row, start, style);
    assert(texts.take(0) =~= Seq::empty());
    assert(texts.take(1) =~= texts);
}

/// `text` written `times` times in a row.
fn repeat_text(text: &str, times: u64) -> (result: String)
    ensures
        result@ == repeated(text@, times as nat),
{
    let mut result = String::new();
    if text.is_empty() {
        proof {
            lemma_repeated_empty(text@, times as nat);
        }
        return result;
    }
    let mut written: u64 = 0;
    while written < times
        invariant
            written <= times,
            result@ == repeated(text@, written as nat),
        decreases times - written,
    {
        result.append(text);
        written = written + 1;
    }
    result
}

/// The style that an update names, as a handle.
fn resolve_style(
    highlight_id: Option<u64>,
    defined_styles: &HashMap<u64, Arc<Style>>,
    previous_style: &Option<Arc<Style>>,
) -> (style: Option<Arc<Style>>)
    ensures
        style_view(style) == resolved_style(
            highlight_id,
            defined_styles@,
            style_view(*previous_style),
        ),
{
    match highlight_id {
        Some(0) => None,
        Some(style_id) => match defined_styles.get(&style_id) {
            Some(handle) => Some(Arc::clone(handle)),
            None => None,
        },
        None => share_style(previous_style),
    }
}

/// Applies one update to row `row_index` of the grid, from the cursor on.
///
/// The update's style is resolved against `defined_styles` and
/// `previous_style`; its text, repeated as it says, is split into extended
/// grapheme clusters, which are written one per column; an empty text writes
/// one empty cell. The cursor moves past what was written and
/// `previous_style` becomes the style used. An update that repeats zero times
/// changes nothing at all. Cells off the grid are dropped, and the cursor
/// stops at the largest value it can hold.
pub fn modify_grid(
    grid: &mut CharacterGrid,
    row_index: u64,
    column_pos: &mut u64,
    cell: GridLineCell,
    defined_styles: &HashMap<u64, Arc<Style>>,
    previous_style: &mut Option<Arc<Style>>,
)
    requires
        old(grid).wf(),
    ensures
        final(grid).wf(),
        final(grid)@ == apply_update(
            draw_state(old(grid)@, *old(column_pos) as int, style_view(*old(previous_style))),
            row_index as int,
            cell@,
            defined_styles@,
        ).grid,
        *final(column_pos) == saturated(
            apply_update(
                draw_state(old(grid)@, *old(column_pos) as int, style_view(*old(previous_style))),
                row_index as int,
                cell@,
                defined_styles@,
            ).column,
        ),
        style_view(*final(previous_style)) == apply_update(
            draw_state(old(grid)@, *old(column_pos) as int, style_view(*old(previous_style))),
            row_index as int,
            cell@,
            defined_styles@,
        ).carry,
        cell.repeat == Some(0u64) ==> {
            &&& final(grid)@ == old(grid)@
            &&& *final(column_pos) == *old(column_pos)
            &&& *final(previous_style) == *old(previous_style)
        },
        cell.text@.len() == 0 && cell.repeat != Some(0u64) ==> {
            &&& final(grid)@ == old(grid)@.set(
                *old(column_pos) as int,
                row_index as int,
                CellView {
                    text: Seq::empty(),
                    style: resolved_style(
                        cell.highlight_id,
                        defined_styles@,
                        style_view(*old(previous_style)),
                    ),
                },
            )
            &&& *final(column_pos) == saturated(*old(column_pos) + 1)
        },
{
    let ghost update = cell@;
    let style = resolve_style(cell.highlight_id, defined_styles, previous_style);
    let mut text = cell.text;
    if let Some(times) = cell.repeat {
        if times == 0 {
            return ;
        }
        text = repeat_text(text.as_str(), times);
        proof {
            if update.text.len() == 0 {
                lemma_repeated_empty(update.text, times as nat);
            }
        }
    }
    assert(text@ == effective_text(update));
    if text.as_str().is_empty() {
        proof {
            lemma_write_run_single(
                grid@,
                row_index as int,
                *column_pos as int,
                Seq::empty(),
                style_view(style),
            );
        }
        assert(text@ =~= Seq::<char>::empty());
        let mut clusters: Vec<String> = Vec::new();
        clusters.push(text);
        assert(clusters.deep_view() =~= seq![Seq::<char>::empty()]) by {
            assert(clusters@.len() == 1);
            assert(clusters@[0]@ == Seq::<char>::empty());
        }
        lay_out_clusters(grid, row_index, column_pos, clusters, &style);
    } else {
        let clusters = split_graphemes(text.as_str());
        lay_out_clusters(grid, row_index, column_pos, clusters, &style);
    }
    *previous_style = style;
}

/// What a list of updates holds, update by update.
pub open spec fn updates_view(updates: Seq<GridLineCell>) -> Seq<GridLineCellView> {
    Seq::new(updates.len(), |i: int| updates[i]@)
}

/// An update leaves the size of the grid as it is and never moves the column
/// back.
pub proof fn lemma_apply_update_keeps_size(
    state: DrawState,
    row: int,
    update: GridLineCellView,
    defined_styles: Map<u64, Arc<Style>>,
)
    requires
        state.grid.well_formed(),
    ensures
        apply_update(state, row, update, defined_styles).grid.well_formed(),
        apply_update(state, row, update, defined_styles).grid.width == state.grid.width,
        apply_update(state, row, update, defined_styles).grid.height == state.grid.height,
        apply_update(state, row, update, defined_styles).column >= state.column,
{
}

/// Past the largest column a cursor can hold no cell is on the grid, so an
/// update applied from the capped column does to the grid and to the carried
/// style what it does from the true column, and leaves the capped cursor
/// where the true column, capped, would be.
pub proof fn lemma_apply_update_capped(
    state: DrawState,
    row: int,
    update: GridLineCellView,
    defined_styles: Map<u64, Arc<Style>>,
)
    requires
        state.grid.well_formed(),
        state.grid.width <= u64::MAX,
        state.column >= 0,
    ensures
        apply_update(
            draw_state(state.grid, saturated(state.column), state.carry),
            row,
            update,
            defined_styles,
        ).grid == apply_update(state, row, update, defined_styles).grid,
        saturated(
            apply_update(
                draw_state(state.grid, saturated(state.column), state.carry),
                row,
                update,
                defined_styles,
            ).column,
        ) == saturated(apply_update(state, row, update, defined_styles).column),
        apply_update(
            draw_state(state.grid, saturated(state.column), state.carry),
            row,
            update,
            defined_styles,
        ).carry == apply_update(state, row, update, defined_styles).carry,
{
    let capped = draw_state(state.grid, saturated(state.column), state.carry);
    if state.column >= u64::MAX && update.repeat != Some(0u64) {
        lemma_grids_equal(
            apply_update(capped, row, update, defined_styles).grid,
            apply_update(state, row, update, defined_styles).grid,
        );
    }
}

} // verus!
