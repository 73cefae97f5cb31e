//! Line fragments: the runs of one style into which a row is split for
//! drawing.

use std::sync::Arc;
use vstd::prelude::*;
use vstd::string::StringExecFns;

use crate::grid::{row_view, same_style, share_style, style_view, CellView, GridCell};
use crate::style::Style;

verus! {

/// A run of cells of one row that share a style: the unit handed to the
/// renderer.
#[derive(Debug, PartialEq, Eq)]
pub struct LineFragment {
    pub text: String,
    pub window_left: u64,
    pub window_top: u64,
    pub width: u64,
    pub style: Option<Arc<Style>>,
}

/// What a fragment holds, as mathematical values.
pub struct LineFragmentView {
    pub text: Seq<char>,
    pub window_left: nat,
    pub window_top: nat,
    pub width: nat,
    pub style: Option<Style>,
}

impl View for LineFragment {
    type V = LineFragmentView;

    open spec fn view(&self) -> LineFragmentView {
        LineFragmentView {
            text: self.text@,
            window_left: self.window_left as nat,
            window_top: self.window_top as nat,
            width: self.width as nat,
            style: style_view(self.style),
        }
    }
}

/// What a list of fragments holds, fragment by fragment.
pub open spec fn fragments_view(fragments: Seq<LineFragment>) -> Seq<LineFragmentView> {
    Seq::new(fragments.len(), |i: int| fragments[i]@)
}

/// Whether one fragment ends and another begins between columns `x - 1` and
/// `x`: the style changes there, or the cell in column `x - 1` is the empty
/// continuation of a wide glyph. Both ends of the row are boundaries.
pub open spec fn is_boundary(row: Seq<CellView>, x: int) -> bool {
    ||| x <= 0
    ||| x >= row.len()
    ||| row[x - 1].text.len() == 0
    ||| row[x].style != row[x - 1].style
}

/// The first boundary at or after column `at`.
pub open spec fn first_boundary_from(row: Seq<CellView>, at: int) -> int
    decreases row.len() - at,
{
    if is_boundary(row, at) {
        at
    } else {
        first_boundary_from(row, at + 1)
    }
}

/// The column just past the fragment that starts in column `start`.
pub open spec fn fragment_end(row: Seq<CellView>, start: int) -> int {
    first_boundary_from(row, start + 1)
}

/// The texts of the cells in columns `from` up to `to`, joined.
pub open spec fn joined_text(row: Seq<CellView>, from: int, to: int) -> Seq<char>
    decreases to - from,
{
    if to <= from {
        Seq::empty()
    } else {
        joined_text(row, from, to - 1) + row[to - 1].text
    }
}

/// The fragment of row `row_index` that starts in column `start`: it runs up
/// to the next boundary, has the style of its first cell and the joined text
/// of its cells.
pub open spec fn fragment_at(row: Seq<CellView>, row_index: nat, start: int) -> LineFragmentView {
    LineFragmentView {
        text: joined_text(row, start, fragment_end(row, start)),
        window_left: start as nat,
        window_top: row_index,
        width: (fragment_end(row, start) - start) as nat,
        style: row[start].style,
    }
}

/// The first boundary at or after a column is a boundary, lies at or after
/// that column, and no boundary lies between the two.
pub proof fn lemma_first_boundary(row: Seq<CellView>, at: int)
    ensures
        at <= first_boundary_from(row, at),
        is_boundary(row, first_boundary_from(row, at)),
        at >= 0 ==> first_boundary_from(row, at) <= row.len() || first_boundary_from(row, at) == at,
        forall|x: int| at <= x < first_boundary_from(row, at) ==> !is_boundary(row, x),
    decreases row.len() - at,
{
    if !is_boundary(row, at) {
        lemma_first_boundary(row, at + 1);
    }
}

/// The fragments of row `row_index` from column `start` on, left to right.
pub open spec fn fragments_from(row: Seq<CellView>, row_index: nat, start: int) -> Seq<
    LineFragmentView,
>
    decreases row.len() - start,
    via fragments_from_decreases
{
    if start < 0 || start >= row.len() {
        Seq::empty()
    } else {
        seq![fragment_at(row, row_index, start)] + fragments_from(
            row,
            row_index,
            fragment_end(row, start),
        )
    }
}

#[via_fn]
proof fn fragments_from_decreases(row: Seq<CellView>, row_index: nat, start: int) {
    lemma_first_boundary(row, start + 1);
}

/// The fragments of row `row_index`, left to right.
pub open spec fn row_fragments(row: Seq<CellView>, row_index: nat) -> Seq<LineFragmentView> {
    fragments_from(row, row_index, 0)
}

/// Joining the texts of a run and of one cell more.
proof fn lemma_joined_text_step(row: Seq<CellView>, from: int, to: int)
    requires
        from <= to,
    ensures
        joined_text(row, from, to + 1) == joined_text(row, from, to) + row[to].text,
{
}

/// Builds the fragment of row `row_index` that starts in column `start`, and
/// returns with it the column at which the next fragment starts.
///
/// The fragment takes in the cells from `start` on for as long as they have
/// the style of the first. It ends before the first cell of another style, or
/// right after a cell whose text is empty, which is counted in its width and
/// adds nothing to its text.
pub fn build_line_fragment(row: &[GridCell], row_index: u64, start: u64) -> (result: (
    u64,
    LineFragment,
))
    requires
        start < row@.len(),
    ensures
        result.0 == fragment_end(row_view(row@), start as int),
        start < result.0 <= row@.len(),
        result.1@ == fragment_at(row_view(row@), row_index as nat, start as int),
{
    let ghost cells = row_view(row@);
    let length = row.len();
    let first = &row[start as usize];
    let mut text = String::new();
    text.append(first.text.as_str());
    let mut closed = first.text.as_str().is_empty();
    let mut at: usize = start as usize + 1;
    proof {
        assert(joined_text(cells, start as int, start as int) =~= Seq::<char>::empty());
        lemma_joined_text_step(cells, start as int, start as int);
        assert(text@ =~= joined_text(cells, start as int, at as int));
    }
    while !closed && at < length
        invariant
            cells == row_view(row@),
            length == row@.len(),
            start < at <= length,
            first == row@[start as int],
            closed ==> is_boundary(cells, at as int),
            !closed ==> cells[at - 1].text.len() > 0 && cells[at - 1].style == cells[start as int].style,
            fragment_end(cells, start as int) == first_boundary_from(cells, at as int),
            text@ == joined_text(cells, start as int, at as int),
        decreases length - at + (if closed { 0int } else { 1int }),
    {
        let cell = &row[at];
        if same_style(&first.style, &cell.style) {
            proof {
                lemma_joined_text_step(cells, start as int, at as int);
            }
            text.append(cell.text.as_str());
            closed = cell.text.as_str().is_empty();
            at = at + 1;
        } else {
            closed = true;
        }
    }
    let fragment = LineFragment {
        text,
        window_left: start,
        window_top: row_index,
        width: at as u64 - start,
        style: share_style(&first.style),
    };
    (at as u64, fragment)
}

/// Splits row `row_index` into its fragments, left to right.
///
/// Each fragment is a longest run of cells of one style; a cell whose text is
/// empty closes the fragment it lies in. The fragments cover the row without
/// gap or overlap; a row without cells has none.
pub fn line_fragments(row: &[GridCell], row_index: u64) -> (fragments: Vec<LineFragment>)
    ensures
        fragments_view(fragments@) == row_fragments(row_view(row@), row_index as nat),
{
    let ghost cells = row_view(row@);
    let width = row.len() as u64;
    let mut current_start: u64 = 0;
    let mut fragments: Vec<LineFragment> = Vec::new();
    while current_start < width
        invariant
            cells == row_view(row@),
            width == row@.len(),
            current_start <= width,
            row_fragments(cells, row_index as nat) == fragments_view(fragments@) + fragments_from(
                cells,
                row_index as nat,
                current_start as int,
            ),
        decreases width - current_start,
    {
        let ghost collected = fragments_view(fragments@);
        let (next_start, fragment) = build_line_fragment(row, row_index, current_start);
        fragments.push(fragment);
        proof {
            assert(fragments_view(fragments@) =~= collected + seq![
                fragment_at(cells, row_index as nat, current_start as int),
            ]);
        }
        current_start = next_start;
    }
    proof {
        assert(fragments_view(fragments@) + Seq::<LineFragmentView>::empty() =~= fragments_view(
            fragments@,
        ));
    }
    fragments
}

/// The widths of the fragments, added up.
pub open spec fn total_width(fragments: Seq<LineFragmentView>) -> nat
    decreases fragments.len(),
{
    if fragments.len() == 0 {
        0
    } else {
        fragments[0].width + total_width(fragments.drop_first())
    }
}

/// The fragments from a column on cover the rest of the row: none is empty,
/// the first starts in that column, each next one starts where the one before
/// it ends, and the last ends with the row.
proof fn lemma_fragments_tile_from(row: Seq<CellView>, row_index: nat, start: int)
    requires
        0 <= start <= row.len(),
    ensures
        fragments_from(row, row_index, start).len() == 0 <==> start == row.len(),
        start < row.len() ==> fragments_from(row, row_index, start)[0].window_left == start,
        forall|k: int|
            0 <= k < fragments_from(row, row_index, start).len() ==> (#[trigger] fragments_from(
                row,
                row_index,
                start,
            )[k]).width > 0,
        forall|k: int|
            0 < k < fragments_from(row, row_index, start).len() ==> (#[trigger] fragments_from(
                row,
                row_index,
                start,
            )[k]).window_left == fragments_from(row, row_index, start)[k - 1].window_left
                + fragments_from(row, row_index, start)[k - 1].width,
        start < row.len() ==> fragments_from(row, row_index, start).last().window_left
            + fragments_from(row, row_index, start).last().width == row.len(),
        total_width(fragments_from(row, row_index, start)) == row.len() - start,
    decreases row.len() - start,
{
    if start < row.len() {
        let end = fragment_end(row, start);
        lemma_first_boundary(row, start + 1);
        lemma_fragments_tile_from(row, row_index, end);
        let head = fragment_at(row, row_index, start);
        let tail = fragments_from(row, row_index, end);
        let all = fragments_from(row, row_index, start);
        assert(all == seq![head] + tail);
        assert(all.drop_first() =~= tail);
        assert forall|k: int| 0 < k < all.len() implies (#[trigger] all[k]).window_left == all[k
            - 1].window_left + all[k - 1].width by {
            if k > 1 {
                assert(all[k] == tail[k - 1]);
                assert(all[k - 1] == tail[k - 2]);
            } else {
                assert(all[k] == tail[0]);
            }
        }
        assert forall|k: int| 0 <= k < all.len() implies (#[trigger] all[k]).width > 0 by {
            if k > 0 {
                assert(all[k] == tail[k - 1]);
            }
        }
        if tail.len() > 0 {
            assert(all.last() == tail.last());
        }
    }
}

/// The fragments of a row cover it without gap or overlap: no fragment has
/// width 0, the first starts in column 0, each next one starts where the one
/// before it ends, the last ends with the row, and the widths add up to the
/// width of the row. A row without cells has no fragments.
pub proof fn lemma_fragments_tile_row(row: Seq<CellView>, row_index: nat)
    ensures
        row_fragments(row, row_index).len() == 0 <==> row.len() == 0,
        forall|k: int|
            0 <= k < row_fragments(row, row_index).len() ==> (#[trigger] row_fragments(
                row,
                row_index,
            )[k]).width > 0,
        row.len() > 0 ==> row_fragments(row, row_index)[0].window_left == 0,
        forall|k: int|
            0 < k < row_fragments(row, row_index).len() ==> (#[trigger] row_fragments(
                row,
                row_index,
            )[k]).window_left == row_fragments(row, row_index)[k - 1].window_left + row_fragments(
                row,
                row_index,
            )[k - 1].width,
        row.len() > 0 ==> row_fragments(row, row_index).last().window_left + row_fragments(
            row,
            row_index,
        ).last().width == row.len(),
        total_width(row_fragments(row, row_index)) == row.len(),
{
    lemma_fragments_tile_from(row, row_index, 0);
}

/// Among the fragments from `start` on, one ends right after the
/// continuation cell in column `column + 1` and takes in the glyph before it.
proof fn lemma_continuation_closes_from(
    row: Seq<CellView>,
    row_index: nat,
    column: int,
    start: int,
)
    requires
        0 <= start <= column,
        column + 1 < row.len(),
        row[column].text.len() > 0,
        row[column + 1].text.len() == 0,
        row[column].style == row[column + 1].style,
    ensures
        exists|k: int|
            0 <= k < fragments_from(row, row_index, start).len() && (#[trigger] fragments_from(
                row,
                row_index,
                start,
            )[k]).window_left <= column && fragments_from(row, row_index, start)[k].window_left
                + fragments_from(row, row_index, start)[k].width == column + 2,
    decreases row.len() - start,
{
    let end = fragment_end(row, start);
    let all = fragments_from(row, row_index, start);
    let tail = fragments_from(row, row_index, end);
    lemma_first_boundary(row, start + 1);
    assert(is_boundary(row, column + 2));
    assert(!is_boundary(row, column + 1));
    assert(all == seq![fragment_at(row, row_index, start)] + tail);
    if end <= column {
        lemma_continuation_closes_from(row, row_index, column, end);
        let k = choose|k: int|
            0 <= k < tail.len() && (#[trigger] tail[k]).window_left <= column
                && tail[k].window_left + tail[k].width == column + 2;
        assert(all[k + 1] == tail[k]);
    } else {
        assert(end == column + 2);
        assert(all[0].window_left == start);
    }
}

/// A double-width glyph and the continuation cell after it lie in one
/// fragment, which ends right after the continuation cell: where the cell in
/// column `column` has text, the cell after it has none and both have one
/// style, some fragment starts at or before `column` and ends at `column + 2`.
pub proof fn lemma_continuation_closes_fragment(row: Seq<CellView>, row_index: nat, column: int)
    requires
        0 <= column,
        column + 1 < row.len(),
        row[column].text.len() > 0,
        row[column + 1].text.len() == 0,
        row[column].style == row[column + 1].style,
    ensures
        exists|k: int|
            0 <= k < row_fragments(row, row_index).len() && (#[trigger] row_fragments(
                row,
                row_index,
            )[k]).window_left <= column && row_fragments(row, row_index)[k].window_left
                + row_fragments(row, row_index)[k].width == column + 2,
{
    lemma_continuation_closes_from(row, row_index, column, 0);
    let from_start = fragments_from(row, row_index, 0);
    let k = choose|k: int|
        0 <= k < from_start.len() && (#[trigger] from_start[k]).window_left <= column
            && from_start[k].window_left + from_start[k].width == column + 2;
    assert(row_fragments(row, row_index)[k] == from_start[k]);
}

/// The texts of blank cells, joined, are empty.
proof fn lemma_joined_text_blank(row: Seq<CellView>, from: int, to: int)
    requires
        0 <= from <= to <= row.len(),
        forall|x: int| 0 <= x < row.len() ==> #[trigger] row[x] == CellView::blank(),
    ensures
        joined_text(row, from, to) =~= Seq::<char>::empty(),
    decreases to - from,
{
    if from < to {
        lemma_joined_text_blank(row, from, to - 1);
    }
}

/// The fragment of width 1 in column `column` of row `row_index` that has no
/// text and no style.
pub open spec fn blank_fragment(row_index: nat, column: nat) -> LineFragmentView {
    LineFragmentView {
        text: Seq::empty(),
        window_left: column,
        window_top: row_index,
        width: 1,
        style: None,
    }
}

/// From any column on, a row of blank cells has one blank fragment per cell.
proof fn lemma_blank_row_from(row: Seq<CellView>, row_index: nat, start: int)
    requires
        0 <= start <= row.len(),
        forall|x: int| 0 <= x < row.len() ==> #[trigger] row[x] == CellView::blank(),
    ensures
        fragments_from(row, row_index, start) == Seq::new(
            (row.len() - start) as nat,
            |k: int| blank_fragment(row_index, (start + k) as nat),
        ),
    decreases row.len() - start,
{
    let expected = Seq::new(
        (row.len() - start) as nat,
        |k: int| blank_fragment(row_index, (start + k) as nat),
    );
    if start < row.len() {
        assert(row[start] == CellView::blank());
        assert(is_boundary(row, start + 1));
        lemma_joined_text_blank(row, start, start + 1);
        lemma_blank_row_from(row, row_index, start + 1);
        assert(fragments_from(row, row_index, start) =~= expected);
    } else {
        assert(fragments_from(row, row_index, start) =~= expected);
    }
}

/// A row of blank cells has one fragment per cell: a blank cell has no text,
/// so each one closes the fragment it lies in.
pub proof fn lemma_blank_row_fragments(row: Seq<CellView>, row_index: nat)
    requires
        forall|x: int| 0 <= x < row.len() ==> #[trigger] row[x] == CellView::blank(),
    ensures
        row_fragments(row, row_index) == Seq::new(
            row.len(),
            |k: int| blank_fragment(row_index, k as nat),
        ),
{
    lemma_blank_row_from(row, row_index, 0);
    assert(Seq::new(row.len(), |k: int| blank_fragment(row_index, (0 + k) as nat)) =~= Seq::new(
        row.len(),
        |k: int| blank_fragment(row_index, k as nat),
    ));
}

/// A row that is a single blank cell has exactly one fragment, which spans
/// it.
pub proof fn lemma_blank_cell_row_is_one_fragment(row: Seq<CellView>, row_index: nat)
    requires
        row.len() == 1,
        row[0] == CellView::blank(),
    ensures
        row_fragments(row, row_index).len() == 1,
        row_fragments(row, row_index)[0].window_left == 0,
        row_fragments(row, row_index)[0].width == row.len(),
{
    lemma_blank_row_fragments(row, row_index);
}

/// A row whose cells all have one style, and of which none but the last may
/// be without text, is a single fragment: it spans the row and holds the
/// joined text of its cells.
pub proof fn lemma_one_run_row_is_one_fragment(row: Seq<CellView>, row_index: nat)
    requires
        row.len() > 0,
        forall|x: int| 0 <= x < row.len() ==> (#[trigger] row[x]).style == row[0].style,
        forall|x: int| 0 <= x < row.len() - 1 ==> (#[trigger] row[x]).text.len() > 0,
    ensures
        row_fragments(row, row_index) == seq![
            LineFragmentView {
                text: joined_text(row, 0, row.len() as int),
                window_left: 0,
                window_top: row_index,
                width: row.len(),
                style: row[0].style,
            },
        ],
{
    lemma_first_boundary(row, 1);
    let end = fragment_end(row, 0);
    if end < row.len() {
        assert(is_boundary(row, end));
        assert(row[end - 1].text.len() > 0);
        assert(row[end].style == row[0].style);
        assert(row[end - 1].style == row[0].style);
    }
    assert(fragments_from(row, row_index, end) =~= Seq::<LineFragmentView>::empty());
    assert(row_fragments(row, row_index) =~= seq![fragment_at(row, row_index, 0)]);
}

} // verus!
