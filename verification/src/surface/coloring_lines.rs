//! Splitting a row of cells into coloring lines (runs of cells with the same
//! background color), and keeping a cached row of lines in sync.

use vstd::prelude::*;

use super::{Cell, DespawnResource, DisplayColor, EntityId, SpawnGroups, SurfaceCoords};
use super::spawn_queue::{add_all_to_groups, add_to_groups};

verus! {

/// A coloring line: a run of cells of one background color on a row.
#[derive(Debug)]
pub struct ColoringLineDescription {
    pub color: DisplayColor,
    pub row: usize,
    pub column: usize,
    pub line_index: usize,
    pub cached_row_index: usize,
    pub length: usize,
    pub entity: Option<EntityId>,
    pub surface_name: String,
    pub is_editor: bool,
}

impl Default for ColoringLineDescription {
    /// An empty cyan line at row and column 0, not spawned, on no surface.
    fn default() -> (l: Self)
        ensures
            l.color == (DisplayColor { r: 0, g: 0x3F80_0000, b: 0x3F80_0000, a: 0x3F80_0000 }),
            l.row == 0 && l.column == 0 && l.line_index == 0 && l.cached_row_index == 0 && l.length == 0,
            l.entity is None,
            l.surface_name@ == Seq::<char>::empty(),
            !l.is_editor,
    {
        ColoringLineDescription {
            color: DisplayColor { r: 0, g: 0x3F80_0000, b: 0x3F80_0000, a: 0x3F80_0000 },
            row: 0,
            column: 0,
            line_index: 0,
            cached_row_index: 0,
            length: 0,
            entity: None,
            surface_name: String::new(),
            is_editor: false,
        }
    }
}

impl ColoringLineDescription {
    /// An equal copy.
    pub fn copy_of(&self) -> (r: Self)
        ensures
            r == *self,
    {
        ColoringLineDescription {
            color: self.color,
            row: self.row,
            column: self.column,
            line_index: self.line_index,
            cached_row_index: self.cached_row_index,
            length: self.length,
            entity: self.entity,
            surface_name: self.surface_name.clone(),
            is_editor: self.is_editor,
        }
    }
}

/// The coloring lines of one row.
pub type ColoringLineRow = Vec<ColoringLineDescription>;

/// Coloring lines waiting to be spawned, per surface.
pub type ColoringLinesToSpawn = SpawnGroups<ColoringLineDescription>;

/// State of a row while its cells are being split into coloring lines.
#[derive(Debug)]
pub struct RowState {
    pub line_started: bool,
    pub synced: bool,
    pub ended: bool,
}

impl RowState {
    /// No line started.
    pub fn new() -> (r: Self)
        ensures
            !r.line_started,
            !r.synced,
            !r.ended,
    {
        RowState { line_started: false, synced: false, ended: false }
    }
}

/// A cell whose background is the surface background (or the default color)
/// belongs to no coloring line.
pub open spec fn is_background(cell: Cell, background_color: DisplayColor) -> bool {
    cell.bg == background_color || cell.bg_is_reset
}

/// `cell` extends the last line of `row`.
pub open spec fn continues_line(row: Seq<ColoringLineDescription>, state: RowState, cell: Cell, background_color: DisplayColor) -> bool {
    &&& state.line_started
    &&& !is_background(cell, background_color)
    &&& cell.bg == row.last().color
}

/// `cell` starts a new line.
pub open spec fn starts_line(row: Seq<ColoringLineDescription>, state: RowState, cell: Cell, background_color: DisplayColor) -> bool {
    !is_background(cell, background_color) && !continues_line(row, state, cell, background_color)
}

/// `l` is the line of length 1 started by `cell` at `coords`, as line number `index` of its row.
pub open spec fn new_line_from(
    l: ColoringLineDescription,
    surface_name: String,
    surface_is_editor: bool,
    coords: SurfaceCoords,
    cell: Cell,
    index: int,
) -> bool {
    &&& l.color == cell.bg
    &&& l.row == coords.row_global()
    &&& l.column == coords.column
    &&& l.line_index == index
    &&& l.cached_row_index == coords.row_wcache()
    &&& l.length == 1
    &&& l.entity is None
    &&& l.surface_name == surface_name
    &&& l.is_editor == surface_is_editor
}

/// Adds one cell to the row of coloring lines being built: it lengthens the
/// last line, starts a new one, or (a background cell) ends the last line.
pub fn append_cell(
    surface_name: &String,
    surface_is_editor: bool,
    background_color: &DisplayColor,
    surface_coords: &SurfaceCoords,
    cell: &Cell,
    new_row: &mut ColoringLineRow,
    row_state: &mut RowState,
)
    requires
        old(row_state).line_started ==> old(new_row)@.len() > 0 && old(new_row)@.last().length < usize::MAX,
        surface_coords.scroll_offset >= 0,
        surface_coords.cache_offset >= 0,
        surface_coords.row_global() <= usize::MAX,
        surface_coords.row_wcache() <= usize::MAX,
    ensures
        continues_line(old(new_row)@, *old(row_state), *cell, *background_color) ==> {
            &&& final(new_row)@.len() == old(new_row)@.len()
            &&& final(new_row)@.drop_last() == old(new_row)@.drop_last()
            &&& final(new_row)@.last() == (ColoringLineDescription { length: (old(new_row)@.last().length + 1) as usize, ..old(new_row)@.last() })
        },
        starts_line(old(new_row)@, *old(row_state), *cell, *background_color) ==> {
            &&& final(new_row)@.len() == old(new_row)@.len() + 1
            &&& final(new_row)@.drop_last() == old(new_row)@
            &&& new_line_from(final(new_row)@.last(), *surface_name, surface_is_editor, *surface_coords, *cell, old(new_row)@.len() as int)
        },
        is_background(*cell, *background_color) ==> final(new_row)@ == old(new_row)@,
        final(row_state).line_started == !is_background(*cell, *background_color),
        final(row_state).synced == old(row_state).synced,
        final(row_state).ended == old(row_state).ended,
{
    let ghost row0 = new_row@;
    let ghost state0 = *row_state;
    let line_color = cell.bg;
    let is_space = line_color == *background_color || cell.bg_is_reset;

    if row_state.line_started {
        let mut last_line = new_row.pop().unwrap();
        let different_color = line_color != last_line.color;
        let line_ended = is_space || different_color;
        if !line_ended {
            last_line.length = last_line.length + 1;
        } else {
            row_state.line_started = false;
        }
        new_row.push(last_line);
        proof {
            assert(new_row@.drop_last() =~= row0.drop_last());
            if line_ended {
                assert(new_row@ =~= row0);
            }
        }
    }

    if !is_space && !row_state.line_started {
        row_state.line_started = true;
        let new_line = ColoringLineDescription {
            color: line_color,
            row: surface_coords.row_index_global(),
            column: surface_coords.column,
            line_index: new_row.len(),
            cached_row_index: surface_coords.row_index_wcache(),
            length: 1,
            entity: None,
            surface_name: surface_name.clone(),
            is_editor: surface_is_editor,
        };
        new_row.push(new_line);
        assert(new_row@.drop_last() =~= row0);
    }
}

/// A coloring line as the segmentation of a row sees it.
pub struct LineSpan {
    pub color: DisplayColor,
    pub column: int,
    pub length: int,
}

/// The coloring lines of a row so far, and whether the last one is open.
pub struct LineSegmentation {
    pub spans: Seq<LineSpan>,
    pub started: bool,
}

/// One step of line segmentation with a cell of background `bg`.
pub open spec fn line_step(st: LineSegmentation, bg: DisplayColor, bg_is_reset: bool, background_color: DisplayColor, column: int) -> LineSegmentation {
    let is_space = bg == background_color || bg_is_reset;
    let cont = st.started && !is_space && bg == st.spans.last().color;
    let spans1 = if cont {
        st.spans.update(st.spans.len() - 1, LineSpan { length: st.spans.last().length + 1, ..st.spans.last() })
    } else {
        st.spans
    };
    let spans2 = if !is_space && !cont {
        spans1.push(LineSpan { color: bg, column, length: 1 })
    } else {
        spans1
    };
    LineSegmentation { spans: spans2, started: !is_space }
}

/// Line segmentation of the first `n` cells of a row.
pub open spec fn segment_lines(cells: Seq<Cell>, background_color: DisplayColor, n: int) -> LineSegmentation
    decreases n,
{
    if n <= 0 {
        LineSegmentation { spans: Seq::empty(), started: false }
    } else {
        line_step(segment_lines(cells, background_color, n - 1), cells[n - 1].bg, cells[n - 1].bg_is_reset, background_color, n - 1)
    }
}

/// `row` holds exactly the lines of `spans`.
pub open spec fn row_matches_lines(
    row: Seq<ColoringLineDescription>,
    spans: Seq<LineSpan>,
    surface_name: String,
    surface_is_editor: bool,
    row_global: int,
    row_wcache: int,
) -> bool {
    &&& row.len() == spans.len()
    &&& forall|i: int| 0 <= i < row.len() ==> {
        &&& (#[trigger] row[i]).color == spans[i].color
        &&& row[i].column == spans[i].column
        &&& row[i].length == spans[i].length
        &&& row[i].row == row_global
        &&& row[i].line_index == i
        &&& row[i].cached_row_index == row_wcache
        &&& row[i].entity is None
        &&& row[i].surface_name == surface_name
        &&& row[i].is_editor == surface_is_editor
    }
}

/// Appending a cell moves a row that matches a line segmentation to the row
/// that matches the next step.
pub proof fn lemma_append_cell_step(
    row0: Seq<ColoringLineDescription>,
    state0: RowState,
    row1: Seq<ColoringLineDescription>,
    state1: RowState,
    seg: LineSegmentation,
    surface_name: String,
    surface_is_editor: bool,
    background_color: DisplayColor,
    coords: SurfaceCoords,
    cell: Cell,
)
    requires
        row_matches_lines(row0, seg.spans, surface_name, surface_is_editor, coords.row_global(), coords.row_wcache()),
        state0.line_started == seg.started,
        seg.started ==> seg.spans.len() > 0,
        continues_line(row0, state0, cell, background_color) ==> {
            &&& row1.len() == row0.len()
            &&& row1.drop_last() == row0.drop_last()
            &&& row1.last() == (ColoringLineDescription { length: (row0.last().length + 1) as usize, ..row0.last() })
        },
        starts_line(row0, state0, cell, background_color) ==> {
            &&& row1.len() == row0.len() + 1
            &&& row1.drop_last() == row0
            &&& new_line_from(row1.last(), surface_name, surface_is_editor, coords, cell, row0.len() as int)
        },
        is_background(cell, background_color) ==> row1 == row0,
        state1.line_started == !is_background(cell, background_color),
        seg.started ==> row0.last().length < usize::MAX,
    ensures
        row_matches_lines(row1, line_step(seg, cell.bg, cell.bg_is_reset, background_color, coords.column as int).spans,
            surface_name, surface_is_editor, coords.row_global(), coords.row_wcache()),
        state1.line_started == line_step(seg, cell.bg, cell.bg_is_reset, background_color, coords.column as int).started,
{
    let next = line_step(seg, cell.bg, cell.bg_is_reset, background_color, coords.column as int);
    if seg.started {
        let k = row0.len() - 1;
        assert(row0[k].color == seg.spans[k].color);
    }
    assert forall|i: int| 0 <= i < row1.len() implies {
        &&& (#[trigger] row1[i]).color == next.spans[i].color
        &&& row1[i].column == next.spans[i].column
        &&& row1[i].length == next.spans[i].length
        &&& row1[i].row == coords.row_global()
        &&& row1[i].line_index == i
        &&& row1[i].cached_row_index == coords.row_wcache()
        &&& row1[i].entity is None
        &&& row1[i].surface_name == surface_name
        &&& row1[i].is_editor == surface_is_editor
    } by {
        if i < row1.len() - 1 {
            assert(row1[i] == row1.drop_last()[i]);
            if i < row0.len() - 1 {
                assert(row0[i] == row0.drop_last()[i]);
            }
        }
    }
}

/// How many of the first `n` cells draw a coloring line: those whose
/// background is neither the surface's nor the default one.
pub open spec fn line_cell_count(cells: Seq<Cell>, background_color: DisplayColor, n: int) -> nat
    decreases n,
{
    if n <= 0 {
        0
    } else {
        line_cell_count(cells, background_color, n - 1) + if is_background(cells[n - 1], background_color) { 0nat } else { 1nat }
    }
}

/// The total length of the lines of a row.
pub open spec fn lines_length(row: Seq<ColoringLineDescription>) -> nat
    decreases row.len(),
{
    if row.len() == 0 {
        0
    } else {
        lines_length(row.drop_last()) + row.last().length as nat
    }
}

/// The total length of the spans.
pub open spec fn spans_length(spans: Seq<LineSpan>) -> int
    decreases spans.len(),
{
    if spans.len() == 0 {
        0
    } else {
        spans_length(spans.drop_last()) + spans.last().length
    }
}

/// Span `s` covers the cells from its column on, as many as its length, all
/// drawing a line of its color, among the first `n` cells.
pub open spec fn span_covers(cells: Seq<Cell>, background_color: DisplayColor, s: LineSpan, n: int) -> bool {
    &&& s.length >= 1
    &&& 0 <= s.column
    &&& s.column + s.length <= n
    &&& forall|t: int| s.column <= t < s.column + s.length ==> !is_background(#[trigger] cells[t], background_color)
        && cells[t].bg == s.color
}

proof fn lemma_spans_length_update(spans: Seq<LineSpan>, s: LineSpan)
    requires
        spans.len() > 0,
    ensures
        spans_length(spans.update(spans.len() - 1, s)) == spans_length(spans) - spans.last().length + s.length,
{
    assert(spans.update(spans.len() - 1, s).drop_last() =~= spans.drop_last());
}

proof fn lemma_segment_lines_cover(cells: Seq<Cell>, background_color: DisplayColor, n: int)
    requires
        0 <= n <= cells.len(),
    ensures
        ({
            let seg = segment_lines(cells, background_color, n);
            &&& spans_length(seg.spans) == line_cell_count(cells, background_color, n)
            &&& forall|i: int| 0 <= i < seg.spans.len() ==> span_covers(cells, background_color, #[trigger] seg.spans[i], n)
            &&& forall|i: int, j: int| 0 <= i < j < seg.spans.len() ==> (#[trigger] seg.spans[i]).column + seg.spans[i].length
                <= (#[trigger] seg.spans[j]).column
            &&& seg.started ==> seg.spans.len() > 0 && seg.spans.last().column + seg.spans.last().length == n
        }),
    decreases n,
{
    if n > 0 {
        lemma_segment_lines_cover(cells, background_color, n - 1);
        let prev = segment_lines(cells, background_color, n - 1);
        let seg = segment_lines(cells, background_color, n);
        let c = cells[n - 1];
        let is_space = c.bg == background_color || c.bg_is_reset;
        let cont = prev.started && !is_space && c.bg == prev.spans.last().color;
        if cont {
            let last = prev.spans.last();
            let nl = LineSpan { length: last.length + 1, ..last };
            lemma_spans_length_update(prev.spans, nl);
            assert(seg.spans == prev.spans.update(prev.spans.len() - 1, nl));
            assert forall|i: int| 0 <= i < seg.spans.len() implies span_covers(cells, background_color, #[trigger] seg.spans[i], n) by {
                if i < seg.spans.len() - 1 {
                    assert(span_covers(cells, background_color, prev.spans[i], n - 1));
                } else {
                    assert(span_covers(cells, background_color, last, n - 1));
                    assert forall|t: int| nl.column <= t < nl.column + nl.length implies !is_background(#[trigger] cells[t], background_color)
                        && cells[t].bg == nl.color by {
                        if t < n - 1 {
                        }
                    }
                }
            }
            assert forall|i: int, j: int| 0 <= i < j < seg.spans.len() implies (#[trigger] seg.spans[i]).column + seg.spans[i].length
                <= (#[trigger] seg.spans[j]).column by {
                assert(prev.spans[i].column + prev.spans[i].length <= prev.spans[j].column);
            }
        } else if !is_space {
            let ns = LineSpan { color: c.bg, column: n - 1, length: 1 };
            assert(seg.spans == prev.spans.push(ns));
            assert(seg.spans.drop_last() =~= prev.spans);
            assert forall|i: int| 0 <= i < seg.spans.len() implies span_covers(cells, background_color, #[trigger] seg.spans[i], n) by {
                if i < seg.spans.len() - 1 {
                    assert(span_covers(cells, background_color, prev.spans[i], n - 1));
                }
            }
            assert forall|i: int, j: int| 0 <= i < j < seg.spans.len() implies (#[trigger] seg.spans[i]).column + seg.spans[i].length
                <= (#[trigger] seg.spans[j]).column by {
                if j < seg.spans.len() - 1 {
                    assert(prev.spans[i].column + prev.spans[i].length <= prev.spans[j].column);
                } else {
                    assert(span_covers(cells, background_color, prev.spans[i], n - 1));
                }
            }
        } else {
            assert forall|i: int| 0 <= i < seg.spans.len() implies span_covers(cells, background_color, #[trigger] seg.spans[i], n) by {
                assert(span_covers(cells, background_color, prev.spans[i], n - 1));
            }
        }
    }
}

/// The coloring lines of one row of cells, built as the surface builds
/// them: from an empty row, each cell appended in turn with `append_cell`
/// (at successive columns from `coords`, which starts the row). The row is
/// the segmentation of the cells, and the laws of
/// `lemma_row_lines_cover_cells` hold of it.
pub fn lines_of_row(
    surface_name: &String,
    surface_is_editor: bool,
    background_color: &DisplayColor,
    coords: &SurfaceCoords,
    cells: &Vec<Cell>,
) -> (row: Vec<ColoringLineDescription>)
    requires
        coords.column == 0,
        coords.scroll_offset >= 0,
        coords.cache_offset >= 0,
        coords.row_global() <= usize::MAX,
        coords.row_wcache() <= usize::MAX,
    ensures
        row_matches_lines(row@, segment_lines(cells@, *background_color, cells@.len() as int).spans, *surface_name,
            surface_is_editor, coords.row_global(), coords.row_wcache()),
        lines_length(row@) == line_cell_count(cells@, *background_color, cells@.len() as int),
        forall|i: int| 0 <= i < row@.len() ==> (#[trigger] row@[i]).line_index == i,
        forall|i: int| 0 <= i < row@.len() ==> {
            &&& (#[trigger] row@[i]).length >= 1
            &&& row@[i].column + row@[i].length <= cells@.len()
            &&& forall|t: int| row@[i].column <= t < row@[i].column + row@[i].length ==> !is_background(
                #[trigger] cells@[t],
                *background_color,
            ) && cells@[t].bg == row@[i].color
        },
        forall|i: int, j: int| 0 <= i < j < row@.len() ==> (#[trigger] row@[i]).column + row@[i].length <= (#[trigger] row@[j]).column,
{
    let mut row: Vec<ColoringLineDescription> = Vec::new();
    let mut state = RowState::new();
    let mut c = *coords;
    let n = cells.len();
    let mut i: usize = 0;
    while i < n
        invariant
            n == cells@.len(),
            i <= n,
            c.column == i,
            c.row == coords.row,
            c.scroll_offset == coords.scroll_offset,
            c.cache_offset == coords.cache_offset,
            coords.scroll_offset >= 0,
            coords.cache_offset >= 0,
            coords.row_global() <= usize::MAX,
            coords.row_wcache() <= usize::MAX,
            row_matches_lines(row@, segment_lines(cells@, *background_color, i as int).spans, *surface_name, surface_is_editor,
                coords.row_global(), coords.row_wcache()),
            state.line_started == segment_lines(cells@, *background_color, i as int).started,
            segment_lines(cells@, *background_color, i as int).started ==> row@.len() > 0,
            forall|k: int| 0 <= k < row@.len() ==> (#[trigger] row@[k]).length <= i,
        decreases n - i,
    {
        let ghost row0 = row@;
        let ghost state0 = state;
        append_cell(surface_name, surface_is_editor, background_color, &c, &cells[i], &mut row, &mut state);
        proof {
            lemma_append_cell_step(row0, state0, row@, state, segment_lines(cells@, *background_color, i as int), *surface_name,
                surface_is_editor, *background_color, c, cells@[i as int]);
            assert forall|k: int| 0 <= k < row@.len() implies (#[trigger] row@[k]).length <= i + 1 by {
                if k < row@.len() - 1 {
                    assert(row@[k] == row@.drop_last()[k]);
                    if k < row0.len() - 1 {
                        assert(row0[k] == row0.drop_last()[k]);
                    }
                }
            }
        }
        c.next_column();
        i = i + 1;
    }
    proof {
        lemma_row_lines_cover_cells(row@, cells@, *background_color, n as int, *surface_name, surface_is_editor,
            coords.row_global(), coords.row_wcache());
    }
    row
}

proof fn lemma_lines_length_matches(row: Seq<ColoringLineDescription>, spans: Seq<LineSpan>)
    requires
        row.len() == spans.len(),
        forall|i: int| 0 <= i < row.len() ==> (#[trigger] row[i]).length == spans[i].length,
    ensures
        lines_length(row) == spans_length(spans),
    decreases row.len(),
{
    if row.len() > 0 {
        lemma_lines_length_matches(row.drop_last(), spans.drop_last());
        assert(row.last().length == spans.last().length);
    }
}

/// The coloring lines of a row are its runs of drawn cells: a row built by
/// appending the first `n` cells one by one (see `segment_lines`) numbers its
/// lines in order, their lengths add up to the number of cells that draw a
/// line, and each line covers consecutive cells from its column on, all of
/// its color and none of them background, the lines following each other
/// left to right.
pub proof fn lemma_row_lines_cover_cells(
    row: Seq<ColoringLineDescription>,
    cells: Seq<Cell>,
    background_color: DisplayColor,
    n: int,
    surface_name: String,
    surface_is_editor: bool,
    row_global: int,
    row_wcache: int,
)
    requires
        0 <= n <= cells.len(),
        row_matches_lines(row, segment_lines(cells, background_color, n).spans, surface_name, surface_is_editor, row_global, row_wcache),
    ensures
        lines_length(row) == line_cell_count(cells, background_color, n),
        forall|i: int| 0 <= i < row.len() ==> (#[trigger] row[i]).line_index == i,
        forall|i: int| 0 <= i < row.len() ==> {
            &&& (#[trigger] row[i]).length >= 1
            &&& row[i].column + row[i].length <= n
            &&& forall|t: int| row[i].column <= t < row[i].column + row[i].length ==> !is_background(#[trigger] cells[t], background_color)
                && cells[t].bg == row[i].color
        },
        forall|i: int, j: int| 0 <= i < j < row.len() ==> (#[trigger] row[i]).column + row[i].length <= (#[trigger] row[j]).column,
{
    let seg = segment_lines(cells, background_color, n);
    lemma_segment_lines_cover(cells, background_color, n);
    lemma_lines_length_matches(row, seg.spans);
    assert forall|i: int| 0 <= i < row.len() implies {
        &&& (#[trigger] row[i]).length >= 1
        &&& row[i].column + row[i].length <= n
        &&& forall|t: int| row[i].column <= t < row[i].column + row[i].length ==> !is_background(#[trigger] cells[t], background_color)
            && cells[t].bg == row[i].color
    } by {
        assert(span_covers(cells, background_color, seg.spans[i], n));
    }
    assert forall|i: int, j: int| 0 <= i < j < row.len() implies (#[trigger] row[i]).column + row[i].length <= (#[trigger] row[j]).column by {
        assert(seg.spans[i].column + seg.spans[i].length <= seg.spans[j].column);
    }
}

/// The new line differs from the cached one in length, column or color.
pub open spec fn line_changed(new_line: ColoringLineDescription, cached_line: ColoringLineDescription) -> bool {
    !(cached_line.length == new_line.length && cached_line.column == new_line.column
        && cached_line.color == new_line.color)
}

/// The cached line stays: it has not changed and it is spawned.
pub open spec fn line_kept(cached_line: ColoringLineDescription, new_line: ColoringLineDescription) -> bool {
    !line_changed(new_line, cached_line) && cached_line.entity is Some
}

/// Whether line `i` of `new_row` replaces (or extends) the cached row.
pub open spec fn line_respawned(cached: Seq<ColoringLineDescription>, new_row: Seq<ColoringLineDescription>, i: int) -> bool {
    !(i < cached.len() && line_kept(cached[i], new_row[i]))
}

/// The cached row after syncing: each kept line stays, every other position
/// takes the new line; the row has as many lines as the new one.
pub open spec fn synced_lines(cached: Seq<ColoringLineDescription>, new_row: Seq<ColoringLineDescription>) -> Seq<ColoringLineDescription> {
    Seq::new(new_row.len(), |i: int| if line_respawned(cached, new_row, i) { new_row[i] } else { cached[i] })
}

/// The first `n` lines of the new row that must be spawned, in order, with
/// their surface names.
pub open spec fn lines_to_spawn_upto(cached: Seq<ColoringLineDescription>, new_row: Seq<ColoringLineDescription>, n: int) -> Seq<(Seq<char>, ColoringLineDescription)>
    decreases n,
{
    if n <= 0 {
        Seq::empty()
    } else if line_respawned(cached, new_row, n - 1) {
        lines_to_spawn_upto(cached, new_row, n - 1).push((new_row[n - 1].surface_name@, new_row[n - 1]))
    } else {
        lines_to_spawn_upto(cached, new_row, n - 1)
    }
}

/// Entities of replaced cached lines among the first `n` positions, in order.
pub open spec fn replaced_line_entities(cached: Seq<ColoringLineDescription>, new_row: Seq<ColoringLineDescription>, n: int) -> Seq<EntityId>
    decreases n,
{
    if n <= 0 {
        Seq::empty()
    } else if n - 1 < cached.len() && line_respawned(cached, new_row, n - 1) && cached[n - 1].entity is Some {
        replaced_line_entities(cached, new_row, n - 1).push(cached[n - 1].entity->0)
    } else {
        replaced_line_entities(cached, new_row, n - 1)
    }
}

/// Entities of the cached lines at positions `from .. to`, in order.
pub open spec fn line_entities_between(cached: Seq<ColoringLineDescription>, from: int, to: int) -> Seq<EntityId>
    decreases to - from,
{
    if to <= from {
        Seq::empty()
    } else if cached[to - 1].entity is Some {
        line_entities_between(cached, from, to - 1).push(cached[to - 1].entity->0)
    } else {
        line_entities_between(cached, from, to - 1)
    }
}

/// Everything despawned when `cached` is synced with `new_row`: replaced
/// lines first, then the lines past the end of the new row.
pub open spec fn despawned_lines(cached: Seq<ColoringLineDescription>, new_row: Seq<ColoringLineDescription>) -> Seq<EntityId> {
    replaced_line_entities(cached, new_row, new_row.len() as int) + line_entities_between(cached, new_row.len() as int, cached.len() as int)
}

/// Queues `new_line` for spawning on its surface.
fn add_line_to_spawn(new_line: &ColoringLineDescription, lines_to_spawn: &mut ColoringLinesToSpawn)
    ensures
        final(lines_to_spawn).groups() == add_to_groups(old(lines_to_spawn).groups(), new_line.surface_name@, *new_line),
{
    lines_to_spawn.add(&new_line.surface_name, new_line.copy_of());
}

/// Whether the new line differs from the cached one in length, column or color.
fn line_has_changed(new_line: &ColoringLineDescription, cached_line: &ColoringLineDescription) -> (r: bool)
    ensures
        r == line_changed(*new_line, *cached_line),
{
    let same_line = cached_line.length == new_line.length && cached_line.column == new_line.column
        && cached_line.color == new_line.color;
    !same_line
}

/// Replaces cached line `new_line_index` by `new_line`: despawns the old line
/// if it was spawned and queues the new one.
fn update_cached_line(
    new_line_index: usize,
    new_line: &ColoringLineDescription,
    cached_row: &mut ColoringLineRow,
    to_spawn: &mut ColoringLinesToSpawn,
    to_despawn: &mut DespawnResource,
)
    requires
        new_line_index < old(cached_row)@.len(),
    ensures
        final(cached_row)@ == old(cached_row)@.update(new_line_index as int, *new_line),
        final(to_spawn).groups() == add_to_groups(old(to_spawn).groups(), new_line.surface_name@, *new_line),
        final(to_despawn).recursive@ == if old(cached_row)@[new_line_index as int].entity is Some {
            old(to_despawn).recursive@.push(old(cached_row)@[new_line_index as int].entity->0)
        } else {
            old(to_despawn).recursive@
        },
        final(to_despawn).children_only@ == old(to_despawn).children_only@,
{
    let line_was_despawned = cached_row[new_line_index].entity.is_none();
    if !line_was_despawned {
        let outdated = cached_row[new_line_index].entity.unwrap();
        to_despawn.recursive.push(outdated);
    }
    cached_row.set(new_line_index, new_line.copy_of());
    add_line_to_spawn(new_line, to_spawn);
}

/// Despawns the cached lines from `cleanup_index_from` on and drops them from the row.
fn cleanup_cached_row_from(cleanup_index_from: usize, cached_row: &mut ColoringLineRow, to_despawn: &mut DespawnResource)
    ensures
        final(cached_row)@ == if cleanup_index_from >= old(cached_row)@.len() {
            old(cached_row)@
        } else {
            old(cached_row)@.take(cleanup_index_from as int)
        },
        final(to_despawn).recursive@ == old(to_despawn).recursive@
            + line_entities_between(old(cached_row)@, cleanup_index_from as int, old(cached_row)@.len() as int),
        final(to_despawn).children_only@ == old(to_despawn).children_only@,
{
    let ghost row0 = cached_row@;
    let ghost despawn0 = to_despawn.recursive@;
    let cached_row_len = cached_row.len();
    if cleanup_index_from >= cached_row_len {
        assert(line_entities_between(row0, cleanup_index_from as int, row0.len() as int) =~= Seq::<EntityId>::empty());
        return;
    }
    let mut i: usize = cleanup_index_from;
    while i < cached_row_len
        invariant
            cached_row_len == row0.len(),
            cleanup_index_from <= i <= cached_row_len,
            cached_row@.len() == cached_row_len,
            forall|j: int| 0 <= j < cleanup_index_from ==> #[trigger] cached_row@[j] == row0[j],
            forall|j: int| i <= j < cached_row_len ==> #[trigger] cached_row@[j] == row0[j],
            to_despawn.recursive@ == despawn0 + line_entities_between(row0, cleanup_index_from as int, i as int),
            to_despawn.children_only@ == old(to_despawn).children_only@,
        decreases cached_row_len - i,
    {
        let mut cached_line = cached_row.remove(i);
        if let Some(entity) = cached_line.entity {
            to_despawn.recursive.push(entity);
            cached_line.entity = None;
        }
        cached_row.insert(i, cached_line);
        assert(to_despawn.recursive@ =~= despawn0 + line_entities_between(row0, cleanup_index_from as int, i + 1));
        i = i + 1;
    }
    cached_row.truncate(cleanup_index_from);
    assert(cached_row@ =~= row0.take(cleanup_index_from as int));
}

/// Syncing against the synced row itself queues and despawns what syncing
/// against the new row did.
pub proof fn lemma_synced_lines_stable(cached: Seq<ColoringLineDescription>, new_row: Seq<ColoringLineDescription>)
    ensures
        ({
            let synced = synced_lines(cached, new_row);
            &&& lines_to_spawn_upto(cached, synced, synced.len() as int) == lines_to_spawn_upto(cached, new_row, new_row.len() as int)
            &&& despawned_lines(cached, synced) == despawned_lines(cached, new_row)
        }),
{
    let synced = synced_lines(cached, new_row);
    assert forall|i: int| 0 <= i < new_row.len() implies line_respawned(cached, synced, i) == line_respawned(cached, new_row, i)
        && (line_respawned(cached, new_row, i) ==> synced[i] == new_row[i]) by {}
    lemma_upto_agree(cached, synced, new_row, new_row.len() as int);
}

proof fn lemma_upto_agree(cached: Seq<ColoringLineDescription>, a: Seq<ColoringLineDescription>, b: Seq<ColoringLineDescription>, n: int)
    requires
        0 <= n <= a.len(),
        n <= b.len(),
        forall|i: int| 0 <= i < n ==> line_respawned(cached, a, i) == line_respawned(cached, b, i)
            && (line_respawned(cached, b, i) ==> a[i] == b[i]),
    ensures
        lines_to_spawn_upto(cached, a, n) == lines_to_spawn_upto(cached, b, n),
        replaced_line_entities(cached, a, n) == replaced_line_entities(cached, b, n),
    decreases n,
{
    if n > 0 {
        lemma_upto_agree(cached, a, b, n - 1);
    }
}

/// The line description of `span`, line number `index` of its row.
pub open spec fn line_of_span(span: LineSpan, index: int, surface_name: String, surface_is_editor: bool, row_global: int, row_wcache: int) -> ColoringLineDescription {
    ColoringLineDescription {
        color: span.color,
        row: row_global as usize,
        column: span.column as usize,
        line_index: index as usize,
        cached_row_index: row_wcache as usize,
        length: span.length as usize,
        entity: None,
        surface_name,
        is_editor: surface_is_editor,
    }
}

/// The line descriptions of `spans`.
pub open spec fn lines_of_spans(spans: Seq<LineSpan>, surface_name: String, surface_is_editor: bool, row_global: int, row_wcache: int) -> Seq<ColoringLineDescription> {
    Seq::new(spans.len(), |i: int| line_of_span(spans[i], i, surface_name, surface_is_editor, row_global, row_wcache))
}

/// A row holding exactly the lines of `spans` is their line descriptions.
pub proof fn lemma_row_is_lines_of_spans(
    row: Seq<ColoringLineDescription>,
    spans: Seq<LineSpan>,
    surface_name: String,
    surface_is_editor: bool,
    row_global: int,
    row_wcache: int,
)
    requires
        row_matches_lines(row, spans, surface_name, surface_is_editor, row_global, row_wcache),
        0 <= row_global <= usize::MAX,
        0 <= row_wcache <= usize::MAX,
    ensures
        row == lines_of_spans(spans, surface_name, surface_is_editor, row_global, row_wcache),
{
    assert forall|i: int| 0 <= i < row.len() implies #[trigger] row[i] == lines_of_spans(spans, surface_name, surface_is_editor, row_global, row_wcache)[i] by {
        assert(row[i].row == row_global);
    }
    assert(row =~= lines_of_spans(spans, surface_name, surface_is_editor, row_global, row_wcache));
}

proof fn lemma_replaced_past_cached(cached: Seq<ColoringLineDescription>, new_row: Seq<ColoringLineDescription>, n: int)
    requires
        n >= cached.len(),
    ensures
        replaced_line_entities(cached, new_row, n) == replaced_line_entities(cached, new_row, cached.len() as int),
    decreases n,
{
    if n > cached.len() {
        lemma_replaced_past_cached(cached, new_row, n - 1);
    }
}

/// Syncs the cached row of lines with a newly built row: unchanged spawned
/// lines stay, every other line is replaced and queued for spawning, lines
/// past the end of the new row are despawned and dropped.
pub fn update_cached_row(
    cached_row: &mut ColoringLineRow,
    new_row: &ColoringLineRow,
    to_spawn: &mut ColoringLinesToSpawn,
    to_despawn: &mut DespawnResource,

)
    ensures
        final(cached_row)@ == synced_lines(old(cached_row)@, new_row@),
        final(to_spawn).groups() == add_all_to_groups(old(to_spawn).groups(), lines_to_spawn_upto(old(cached_row)@, new_row@, new_row@.len() as int)),
        final(to_despawn).recursive@ == old(to_despawn).recursive@ + despawned_lines(old(cached_row)@, new_row@),
        final(to_despawn).children_only@ == old(to_despawn).children_only@,
{
    let ghost cached0 = cached_row@;
    let ghost spawn0 = to_spawn.groups();
    let ghost despawn0 = to_despawn.recursive@;
    let cached_row_len = cached_row.len();
    let new_row_len = new_row.len();
    let mut new_line_index: usize = 0;
    while new_line_index < new_row_len
        invariant
            cached_row_len == cached0.len(),
            new_row_len == new_row@.len(),
            new_line_index <= new_row_len,
            cached_row@.len() == if new_line_index > cached_row_len { new_line_index as int } else { cached_row_len as int },
            forall|j: int| 0 <= j < new_line_index ==> #[trigger] cached_row@[j] == synced_lines(cached0, new_row@)[j],
            forall|j: int| new_line_index <= j < cached_row_len ==> #[trigger] cached_row@[j] == cached0[j],
            to_spawn.groups() == add_all_to_groups(spawn0, lines_to_spawn_upto(cached0, new_row@, new_line_index as int)),
            to_despawn.recursive@ == despawn0 + replaced_line_entities(cached0, new_row@, new_line_index as int),
            to_despawn.children_only@ == old(to_despawn).children_only@,
        decreases new_row_len - new_line_index,
    {
        let ghost i = new_line_index as int;
        let ghost pending = lines_to_spawn_upto(cached0, new_row@, i);
        let new_line = &new_row[new_line_index];
        if new_line_index >= cached_row_len {
            cached_row.push(new_line.copy_of());
            add_line_to_spawn(new_line, to_spawn);
            proof {
                assert(lines_to_spawn_upto(cached0, new_row@, i + 1) == pending.push((new_line.surface_name@, *new_line)));
                assert(lines_to_spawn_upto(cached0, new_row@, i + 1).drop_last() =~= pending);
            }
        } else {
            let changed = line_has_changed(new_line, &cached_row[new_line_index]);
            if changed || cached_row[new_line_index].entity.is_none() {
                update_cached_line(new_line_index, new_line, cached_row, to_spawn, to_despawn);
                proof {
                    assert(lines_to_spawn_upto(cached0, new_row@, i + 1).drop_last() =~= pending);
                }
            }
        }
        proof {
            assert(to_despawn.recursive@ =~= despawn0 + replaced_line_entities(cached0, new_row@, i + 1));
        }
        new_line_index = new_line_index + 1;
    }
    let ghost before_cleanup = cached_row@;
    let ghost despawn_mid = to_despawn.recursive@;
    if new_row_len == 0 || new_row_len < cached_row_len {
        cleanup_cached_row_from(new_row_len, cached_row, to_despawn);
    }
    proof {
        if new_row_len >= cached_row_len {
            lemma_replaced_past_cached(cached0, new_row@, new_row_len as int);
            assert(line_entities_between(cached0, new_row_len as int, cached_row_len as int) =~= Seq::<EntityId>::empty());
        } else {
            assert forall|j: int| new_row_len <= j < cached_row_len implies #[trigger] before_cleanup[j] == cached0[j] by {}
            lemma_entities_between_agree(before_cleanup, cached0, new_row_len as int, cached_row_len as int);
        }
        assert(to_despawn.recursive@ =~= despawn0 + despawned_lines(cached0, new_row@));
        assert(cached_row@ =~= synced_lines(cached0, new_row@));
    }
}

proof fn lemma_entities_between_agree(a: Seq<ColoringLineDescription>, b: Seq<ColoringLineDescription>, from: int, to: int)
    requires
        0 <= from,
        to <= a.len(),
        to <= b.len(),
        forall|j: int| from <= j < to ==> #[trigger] a[j] == b[j],
    ensures
        line_entities_between(a, from, to) == line_entities_between(b, from, to),
    decreases to - from,
{
    if to > from {
        lemma_entities_between_agree(a, b, from, to - 1);
    }
}

} // verus!
