//! The cache kept for one text surface: its rows, area and scrolling.

use vstd::prelude::*;

use crate::fonts::{class_of, ABGlyphFonts};
use crate::glyph_class::GlyphClass;
use crate::strings::{decimal, push_char, push_decimal, push_str};
use super::{Cell, DespawnResource, DisplayColor, EntityId, RowOffsetDirection, SurfaceCoords};
use super::coloring_lines::{self, despawned_lines, lines_of_spans, lines_to_spawn_upto, segment_lines, synced_lines,
    ColoringLineDescription, ColoringLineRow, ColoringLinesToSpawn};
use super::rows::{despawn_row, despawn_rows, row_is_empty, rows_entities, SurfaceRow};
use super::spawn_queue::{add_all_to_groups, lemma_add_all_concat};
use super::words::{self, despawned_words, segment_words, synced_with_spans, words_to_spawn_upto, WordDescription, WordRow,
    WordsToSpawn};

verus! {

/// Scrolling of a surface: when enabled, by `offset` rows.
#[derive(Debug, Clone, Copy, PartialEq, Eq, Structural)]
pub struct SurfaceBevyScrollInfo {
    pub enabled: bool,
    pub offset: i32,
}

impl SurfaceBevyScrollInfo {
    /// The offset in effect: `offset` when enabled, else 0.
    pub fn offset(&self) -> (r: i32)
        ensures
            r == if self.enabled { self.offset } else { 0 },
    {
        if self.enabled { self.offset } else { 0 }
    }
}

/// Caching of rows around the viewport: when enabled, by `offset` rows.
#[derive(Debug, Clone, Copy, PartialEq, Eq, Structural)]
pub struct SurfaceBevyCacheInfo {
    pub enabled: bool,
    pub offset: i32,
    pub rows_cached: usize,
    pub rows_in_viewport: usize,
}

impl SurfaceBevyCacheInfo {
    /// The offset in effect: `offset` when enabled, else 0.
    pub fn offset(&self) -> (r: i32)
        ensures
            r == if self.enabled { self.offset } else { 0 },
    {
        if self.enabled { self.offset } else { 0 }
    }
}

/// The cached state of one surface.
#[derive(Debug)]
pub struct SurfaceBevy {
    pub name: String,
    pub entity: EntityId,
    pub rows: Vec<SurfaceRow>,
    pub area_width: u16,
    pub area_height: u16,
    pub scroll_info: SurfaceBevyScrollInfo,
    pub cursor_entities: Vec<EntityId>,
    pub is_editor: bool,
    pub update: bool,
}

/// The cells a surface renders, row by row, and how the surface is placed.
#[derive(Debug)]
pub struct SurfaceHelix {
    pub area_width: u16,
    pub area_height: u16,
    pub content: Vec<Cell>,
    /// The surface grows upwards from its bottom edge.
    pub anchor_bottom: bool,
    pub frozen: bool,
    /// The last render filled the surface in; one left untouched is no
    /// longer in use.
    pub dirty: bool,
}

/// Row of the content shown on screen row `k` of `rows`: rows run upwards
/// (the last content row first) when `reverse`.
pub open spec fn content_row(k: int, rows: int, reverse: bool) -> int {
    if reverse { rows - 1 - k } else { k }
}

/// Row `r` of a row-major grid with `cols` columns.
pub open spec fn grid_row<T>(s: Seq<T>, r: int, cols: int) -> Seq<T> {
    s.subrange(r * cols, r * cols + cols)
}

/// Row `new_r` is row `old_r` synced with the words and coloring lines of
/// `cells` (drawn with `classes`) on document row `row_global`.
pub open spec fn row_refreshed(
    new_r: SurfaceRow,
    old_r: SurfaceRow,
    cells: Seq<Cell>,
    classes: Seq<GlyphClass>,
    background_color: DisplayColor,
    surface_name: String,
    surface_is_editor: bool,
    row_global: int,
    row_wcache: int,
) -> bool {
    &&& synced_with_spans(new_r.words@, old_r.words@, segment_words(cells, classes, cells.len() as int).spans,
        surface_name@, surface_is_editor, row_global, row_wcache)
    &&& new_r.lines@ == synced_lines(old_r.lines@,
        lines_of_spans(segment_lines(cells, background_color, cells.len() as int).spans, surface_name, surface_is_editor, row_global, row_wcache))
}

/// Words queued by refreshing the first `n` rows, row by row.
pub open spec fn rows_spawned_words(old_rows: Seq<SurfaceRow>, new_rows: Seq<SurfaceRow>, n: int) -> Seq<(Seq<char>, WordDescription)>
    decreases n,
{
    if n <= 0 {
        Seq::empty()
    } else {
        rows_spawned_words(old_rows, new_rows, n - 1)
            + words_to_spawn_upto(old_rows[n - 1].words@, new_rows[n - 1].words@, new_rows[n - 1].words@.len() as int)
    }
}

/// Lines queued by refreshing the first `n` rows, row by row.
pub open spec fn rows_spawned_lines(old_rows: Seq<SurfaceRow>, new_rows: Seq<SurfaceRow>, n: int) -> Seq<(Seq<char>, ColoringLineDescription)>
    decreases n,
{
    if n <= 0 {
        Seq::empty()
    } else {
        rows_spawned_lines(old_rows, new_rows, n - 1)
            + lines_to_spawn_upto(old_rows[n - 1].lines@, new_rows[n - 1].lines@, new_rows[n - 1].lines@.len() as int)
    }
}

/// Entities despawned by refreshing the first `n` rows: per row, its words then its lines.
pub open spec fn rows_despawned(old_rows: Seq<SurfaceRow>, new_rows: Seq<SurfaceRow>, n: int) -> Seq<EntityId>
    decreases n,
{
    if n <= 0 {
        Seq::empty()
    } else {
        rows_despawned(old_rows, new_rows, n - 1) + despawned_words(old_rows[n - 1].words@, new_rows[n - 1].words@)
            + despawned_lines(old_rows[n - 1].lines@, new_rows[n - 1].lines@)
    }
}

/// `new_rows` (and the despawned entities `despawned`) result from scrolling
/// `old_rows` by `d` rows in a viewport of `viewport` rows.
pub open spec fn scroll_result(old_rows: Seq<SurfaceRow>, new_rows: Seq<SurfaceRow>, despawned: Seq<EntityId>, d: int, viewport: int) -> bool {
    if abs(d) >= viewport {
        &&& new_rows.len() == old_rows.len()
        &&& all_empty(new_rows)
        &&& despawned == rows_entities(old_rows, 0, old_rows.len() as int)
    } else if d == 0 {
        &&& new_rows == old_rows
        &&& despawned == Seq::<EntityId>::empty()
    } else if d > 0 {
        &&& scrolled_down(old_rows, new_rows, d, viewport)
        &&& despawned == rows_entities(old_rows, 0, d)
    } else {
        &&& scrolled_up(old_rows, new_rows, -d, viewport)
        &&& despawned == rows_entities(old_rows, viewport + d, viewport)
    }
}

/// `new_rows` (and the despawned entities `despawned`) result from resizing
/// `old_rows` to `n` rows.
pub open spec fn resize_result(old_rows: Seq<SurfaceRow>, new_rows: Seq<SurfaceRow>, despawned: Seq<EntityId>, n: int) -> bool {
    &&& new_rows.len() == n
    &&& forall|j: int| 0 <= j < n ==> if j < old_rows.len() {
        #[trigger] new_rows[j] == old_rows[j]
    } else {
        row_is_empty(new_rows[j])
    }
    &&& despawned == if n >= old_rows.len() { Seq::<EntityId>::empty() } else { rows_entities(old_rows, n, old_rows.len() as int) }
}

/// The result of refreshing the rows in view of `old_s` from the cells of
/// `helix` (whose symbols have the glyph classes `classes`): every row in
/// view is refreshed from its row of cells, the rows past the view are kept,
/// and the words and lines to spawn and the entities to despawn are queued.
pub open spec fn rows_update_result(
    old_s: SurfaceBevy,
    new_s: SurfaceBevy,
    helix: SurfaceHelix,
    classes: Seq<GlyphClass>,
    background_color: DisplayColor,
    ws0: Seq<(Seq<char>, Seq<WordDescription>)>,
    ws1: Seq<(Seq<char>, Seq<WordDescription>)>,
    ls0: Seq<(Seq<char>, Seq<ColoringLineDescription>)>,
    ls1: Seq<(Seq<char>, Seq<ColoringLineDescription>)>,
    d0: Seq<EntityId>,
    d1: Seq<EntityId>,
) -> bool {
    let rows = old_s.area_height as int;
    let cols = old_s.area_width as int;
    let scroll = if old_s.scroll_info.enabled { old_s.scroll_info.offset as int } else { 0 };
    &&& new_s.rows@.len() == old_s.rows@.len()
    &&& forall|k: int| 0 <= k < rows ==> row_refreshed(#[trigger] new_s.rows@[k], old_s.rows@[k],
        grid_row(helix.content@, content_row(k, rows, helix.anchor_bottom), cols),
        grid_row(classes, content_row(k, rows, helix.anchor_bottom), cols),
        background_color, old_s.name, old_s.is_editor, k + scroll, k)
    &&& forall|k: int| rows <= k < old_s.rows@.len() ==> #[trigger] new_s.rows@[k] == old_s.rows@[k]
    &&& ws1 == add_all_to_groups(ws0, rows_spawned_words(old_s.rows@, new_s.rows@, rows))
    &&& ls1 == add_all_to_groups(ls0, rows_spawned_lines(old_s.rows@, new_s.rows@, rows))
    &&& d1 == d0 + rows_despawned(old_s.rows@, new_s.rows@, rows)
}

/// The result of a surface update that was not skipped: `new_s` is `old_s`
/// scrolled to `scroll_offset` (when scrolling is on and the offset changed),
/// resized to the rendered area, and refreshed from its cells; `ws`, `ls` and
/// `d` are the word queue, line queue and despawn list before and after.
pub open spec fn surface_update_result(
    old_s: SurfaceBevy,
    new_s: SurfaceBevy,
    helix: SurfaceHelix,
    scroll_offset: i32,
    classes: Seq<GlyphClass>,
    background_color: DisplayColor,
    ws0: Seq<(Seq<char>, Seq<WordDescription>)>,
    ws1: Seq<(Seq<char>, Seq<WordDescription>)>,
    ls0: Seq<(Seq<char>, Seq<ColoringLineDescription>)>,
    ls1: Seq<(Seq<char>, Seq<ColoringLineDescription>)>,
    d0: Seq<EntityId>,
    d1: Seq<EntityId>,
) -> bool {
    let scrolls = old_s.scroll_info.enabled && scroll_offset != old_s.scroll_info.offset;
    &&& new_s.area_width == helix.area_width
    &&& new_s.area_height == helix.area_height
    &&& new_s.scroll_info == if scrolls {
        SurfaceBevyScrollInfo { offset: scroll_offset, ..old_s.scroll_info }
    } else {
        old_s.scroll_info
    }
    &&& new_s.rows@.len() == helix.area_height
    &&& exists|scrolled: Seq<SurfaceRow>, d_scroll: Seq<EntityId>, resized: Seq<SurfaceRow>, d_resize: Seq<EntityId>|
        #[trigger] surface_update_steps(old_s, new_s, helix, scroll_offset, classes, background_color,
            ws0, ws1, ls0, ls1, d0, d1, scrolled, d_scroll, resized, d_resize)
}

/// The steps of a surface update: the rows `scrolled` after the scroll (with
/// the entities `d_scroll` it despawned), the rows `resized` after the resize
/// (with `d_resize`), then the refresh of every row in view.
pub open spec fn surface_update_steps(
    old_s: SurfaceBevy,
    new_s: SurfaceBevy,
    helix: SurfaceHelix,
    scroll_offset: i32,
    classes: Seq<GlyphClass>,
    background_color: DisplayColor,
    ws0: Seq<(Seq<char>, Seq<WordDescription>)>,
    ws1: Seq<(Seq<char>, Seq<WordDescription>)>,
    ls0: Seq<(Seq<char>, Seq<ColoringLineDescription>)>,
    ls1: Seq<(Seq<char>, Seq<ColoringLineDescription>)>,
    d0: Seq<EntityId>,
    d1: Seq<EntityId>,
    scrolled: Seq<SurfaceRow>,
    d_scroll: Seq<EntityId>,
    resized: Seq<SurfaceRow>,
    d_resize: Seq<EntityId>,
) -> bool {
    let scrolls = old_s.scroll_info.enabled && scroll_offset != old_s.scroll_info.offset;
    let rows = helix.area_height as int;
    let cols = helix.area_width as int;
    let scroll = if old_s.scroll_info.enabled { scroll_offset as int } else { 0 };
    &&& if scrolls {
        scroll_result(old_s.rows@, scrolled, d_scroll, scroll_offset - old_s.scroll_info.offset, old_s.area_height as int)
    } else {
        scrolled == old_s.rows@ && d_scroll == Seq::<EntityId>::empty()
    }
    &&& resize_result(scrolled, resized, d_resize, rows)
    &&& forall|k: int| 0 <= k < rows ==> row_refreshed(#[trigger] new_s.rows@[k], resized[k],
        grid_row(helix.content@, content_row(k, rows, helix.anchor_bottom), cols),
        grid_row(classes, content_row(k, rows, helix.anchor_bottom), cols),
        background_color, old_s.name, old_s.is_editor, k + scroll, k)
    &&& ws1 == add_all_to_groups(ws0, rows_spawned_words(resized, new_s.rows@, rows))
    &&& ls1 == add_all_to_groups(ls0, rows_spawned_lines(resized, new_s.rows@, rows))
    &&& d1 == d0 + d_scroll + d_resize + rows_despawned(resized, new_s.rows@, rows)
}

/// `n` empty rows.
pub open spec fn all_empty(rows: Seq<SurfaceRow>) -> bool {
    forall|j: int| 0 <= j < rows.len() ==> row_is_empty(#[trigger] rows[j])
}

/// Rows after scrolling down by `d` rows in a viewport of `viewport` rows:
/// the rows move up by `d`, and the rows that come in at the bottom are empty.
pub open spec fn scrolled_down(old_rows: Seq<SurfaceRow>, new_rows: Seq<SurfaceRow>, d: int, viewport: int) -> bool {
    &&& new_rows.len() == viewport
    &&& forall|j: int| 0 <= j < viewport ==> if j + d < old_rows.len() {
        #[trigger] new_rows[j] == old_rows[j + d]
    } else {
        row_is_empty(new_rows[j])
    }
}

/// Rows after scrolling up by `d` rows in a viewport of `viewport` rows: the
/// rows move down by `d`, and the rows that come in at the top are empty.
pub open spec fn scrolled_up(old_rows: Seq<SurfaceRow>, new_rows: Seq<SurfaceRow>, d: int, viewport: int) -> bool {
    &&& new_rows.len() == viewport
    &&& forall|j: int| 0 <= j < viewport ==> if j < d {
        row_is_empty(#[trigger] new_rows[j])
    } else {
        new_rows[j] == old_rows[j - d]
    }
}

/// Absolute value as an integer.
pub open spec fn abs(x: int) -> int {
    if x < 0 { -x } else { x }
}

impl SurfaceBevy {
    /// A surface with no rows yet.
    pub fn new(name: &String, editor: bool, scroll_enabled: bool, area_width: u16, area_height: u16, entity: EntityId) -> (r: Self)
        ensures
            r.name@ == name@,
            r.entity == entity,
            r.rows@.len() == 0,
            r.area_width == area_width,
            r.area_height == area_height,
            r.scroll_info == (SurfaceBevyScrollInfo { enabled: scroll_enabled, offset: 0 }),
            r.cursor_entities@.len() == 0,
            r.is_editor == editor,
            r.update,
    {
        SurfaceBevy {
            name: name.clone(),
            entity,
            rows: Vec::new(),
            area_width,
            area_height,
            scroll_info: SurfaceBevyScrollInfo { enabled: scroll_enabled, offset: 0 },
            cursor_entities: Vec::new(),
            is_editor: editor,
            update: true,
        }
    }

    /// Number of columns of the surface's area.
    pub fn columns_in_viewport(&self) -> (r: usize)
        ensures
            r == self.area_width,
    {
        self.area_width as usize
    }

    /// Number of rows of the surface's area.
    pub fn rows_in_viewport(&self) -> (r: usize)
        ensures
            r == self.area_height,
    {
        self.area_height as usize
    }

    /// Despawns the contents of every row, keeping the (now empty) rows.
    pub fn clear_all_rows(&mut self, despawn: &mut DespawnResource)
        ensures
            final(self).rows@.len() == old(self).rows@.len(),
            all_empty(final(self).rows@),
            final(despawn).recursive@ == old(despawn).recursive@ + rows_entities(old(self).rows@, 0, old(self).rows@.len() as int),
            final(despawn).children_only@ == old(despawn).children_only@,
            final(self).name == old(self).name,
            final(self).area_width == old(self).area_width,
            final(self).area_height == old(self).area_height,
            final(self).scroll_info == old(self).scroll_info,
            final(self).cursor_entities == old(self).cursor_entities,
            final(self).is_editor == old(self).is_editor,
            final(self).update == old(self).update,
    {
        let n = self.rows.len();
        despawn_rows(&mut self.rows, 0, n, despawn);
    }

    /// Moves the cached rows by the change of scroll offset: rows that scroll
    /// out are despawned; the rows that scroll in are empty. A jump of a whole
    /// viewport or more clears every row.
    #[verifier::loop_isolation(false)]
    pub fn shift_rows_on_scroll(&mut self, scroll_offset: i32, despawn: &mut DespawnResource)
        requires
            i32::MIN < scroll_offset - old(self).scroll_info.offset <= i32::MAX,
            ({
                let d = scroll_offset - old(self).scroll_info.offset;
                let viewport = old(self).area_height as int;
                &&& (0 < d < viewport ==> d <= old(self).rows@.len())
                &&& (0 < -d < viewport ==> viewport <= old(self).rows@.len())
            }),
        ensures
            ({
                let d = scroll_offset - old(self).scroll_info.offset;
                let viewport = old(self).area_height as int;
                let old_rows = old(self).rows@;
                let new_rows = final(self).rows@;
                if abs(d) >= viewport {
                    &&& new_rows.len() == old_rows.len()
                    &&& all_empty(new_rows)
                    &&& final(despawn).recursive@ == old(despawn).recursive@ + rows_entities(old_rows, 0, old_rows.len() as int)
                } else if d == 0 {
                    &&& new_rows == old_rows
                    &&& final(despawn).recursive@ == old(despawn).recursive@
                } else if d > 0 {
                    &&& scrolled_down(old_rows, new_rows, d, viewport)
                    &&& final(despawn).recursive@ == old(despawn).recursive@ + rows_entities(old_rows, 0, d)
                } else {
                    &&& scrolled_up(old_rows, new_rows, -d, viewport)
                    &&& final(despawn).recursive@ == old(despawn).recursive@ + rows_entities(old_rows, viewport + d, viewport)
                }
            }),
            final(despawn).children_only@ == old(despawn).children_only@,
            final(self).name == old(self).name,
            final(self).area_width == old(self).area_width,
            final(self).area_height == old(self).area_height,
            final(self).scroll_info == old(self).scroll_info,
            final(self).cursor_entities == old(self).cursor_entities,
            final(self).is_editor == old(self).is_editor,
            final(self).update == old(self).update,
    {
        let rows_in_viewport = self.rows_in_viewport();
        let scroll_offset_prev = self.scroll_info.offset;
        let scroll_offset_delta = scroll_offset - scroll_offset_prev;
        let scroll_delta_abs = if scroll_offset_delta < 0 { (-scroll_offset_delta) as usize } else { scroll_offset_delta as usize };

        let scroll_down = scroll_offset_delta > 0;
        let scroll_up = scroll_offset_delta < 0;

        let overscroll = scroll_delta_abs >= rows_in_viewport;
        let underscroll = !scroll_down && !scroll_up;

        let rows_to_despawn = scroll_delta_abs;
        let rows_to_keep = if rows_in_viewport >= rows_to_despawn { rows_in_viewport - rows_to_despawn } else { 0 };

        if overscroll {
            self.clear_all_rows(despawn);
            return;
        }
        if underscroll {
            return;
        }
        let ghost old_rows = self.rows@;
        let mut rows: Vec<SurfaceRow> = Vec::new();
        std::mem::swap(&mut rows, &mut self.rows);
        if scroll_offset_delta > 0 {
            despawn_rows(&mut rows, 0, rows_to_despawn, despawn);
            let ghost mid = rows@;
            let n = rows.len();
            // drop the rows that scrolled out at the top
            let mut i: usize = 0;
            while i < scroll_delta_abs
                invariant
                    i <= scroll_delta_abs,
                    scroll_delta_abs <= n,
                    n == old_rows.len(),
                    rows@.len() == n - i,
                    forall|j: int| 0 <= j < n - i ==> #[trigger] rows@[j] == mid[j + i],
                decreases scroll_delta_abs - i,
            {
                rows.remove(0);
                i = i + 1;
            }
            assert forall|j: int| 0 <= j < rows@.len() implies #[trigger] rows@[j] == old_rows[j + scroll_delta_abs] by {
                assert(mid[j + scroll_delta_abs] == old_rows[j + scroll_delta_abs]);
            }
            // resize to the viewport, with empty rows coming in at the bottom
            if rows.len() > rows_in_viewport {
                rows.truncate(rows_in_viewport);
            }
            while rows.len() < rows_in_viewport
                invariant
                    rows@.len() <= rows_in_viewport,
                    rows@.len() + scroll_delta_abs >= n || rows@.len() >= rows_in_viewport,
                    forall|j: int| 0 <= j < rows@.len() ==> if j + scroll_delta_abs < n {
                        #[trigger] rows@[j] == old_rows[j + scroll_delta_abs]
                    } else {
                        row_is_empty(rows@[j])
                    },
                    n == old_rows.len(),
                decreases rows_in_viewport - rows@.len(),
            {
                rows.push(SurfaceRow::new());
            }
        } else {
            let despawn_till = rows_in_viewport;
            let despawn_from = rows_in_viewport - rows_to_despawn;
            despawn_rows(&mut rows, despawn_from, despawn_till, despawn);
            rows.truncate(rows_to_keep);
            let mut i: usize = 0;
            while i < rows_to_despawn
                invariant
                    i <= rows_to_despawn,
                    rows_to_keep + rows_to_despawn == rows_in_viewport,
                    rows_in_viewport <= old_rows.len(),
                    rows@.len() == rows_to_keep + i,
                    forall|j: int| 0 <= j < i ==> row_is_empty(#[trigger] rows@[j]),
                    forall|j: int| i <= j < rows_to_keep + i ==> #[trigger] rows@[j] == old_rows[j - i],
                decreases rows_to_despawn - i,
            {
                rows.insert(0, SurfaceRow::new());
                i = i + 1;
            }
        }
        self.rows = rows;
    }

    /// Shifts the cached rows to a new scroll offset and records it.
    pub fn on_scroll(&mut self, scroll_offset: i32, despawn: &mut DespawnResource)
        requires
            i32::MIN < scroll_offset - old(self).scroll_info.offset <= i32::MAX,
            ({
                let d = scroll_offset - old(self).scroll_info.offset;
                let viewport = old(self).area_height as int;
                &&& (0 < d < viewport ==> d <= old(self).rows@.len())
                &&& (0 < -d < viewport ==> viewport <= old(self).rows@.len())
            }),
        ensures
            ({
                let d = scroll_offset - old(self).scroll_info.offset;
                let viewport = old(self).area_height as int;
                let old_rows = old(self).rows@;
                let new_rows = final(self).rows@;
                if abs(d) >= viewport {
                    &&& new_rows.len() == old_rows.len()
                    &&& all_empty(new_rows)
                    &&& final(despawn).recursive@ == old(despawn).recursive@ + rows_entities(old_rows, 0, old_rows.len() as int)
                } else if d == 0 {
                    &&& new_rows == old_rows
                    &&& final(despawn).recursive@ == old(despawn).recursive@
                } else if d > 0 {
                    &&& scrolled_down(old_rows, new_rows, d, viewport)
                    &&& final(despawn).recursive@ == old(despawn).recursive@ + rows_entities(old_rows, 0, d)
                } else {
                    &&& scrolled_up(old_rows, new_rows, -d, viewport)
                    &&& final(despawn).recursive@ == old(despawn).recursive@ + rows_entities(old_rows, viewport + d, viewport)
                }
            }),
            final(self).scroll_info == (SurfaceBevyScrollInfo { offset: scroll_offset, ..old(self).scroll_info }),
            final(despawn).children_only@ == old(despawn).children_only@,
            final(self).name == old(self).name,
            final(self).area_width == old(self).area_width,
            final(self).area_height == old(self).area_height,
            final(self).cursor_entities == old(self).cursor_entities,
            final(self).is_editor == old(self).is_editor,
            final(self).update == old(self).update,
    {
        self.shift_rows_on_scroll(scroll_offset, despawn);
        self.scroll_info.offset = scroll_offset;
    }

    /// Records a new scroll offset without touching the rows.
    pub fn on_scroll_forced(&mut self, scroll_offset: i32)
        ensures
            *final(self) == (SurfaceBevy { scroll_info: SurfaceBevyScrollInfo { offset: scroll_offset, ..old(self).scroll_info }, ..*old(self) }),
    {
        self.scroll_info.offset = scroll_offset;
    }

    /// Despawns the rows from `new_rows_cnt` on, when there are more.
    pub fn despawn_unused_rows(&mut self, new_rows_cnt: usize, despawn: &mut DespawnResource)
        ensures
            final(self).rows@.len() == old(self).rows@.len(),
            forall|j: int| new_rows_cnt <= j < old(self).rows@.len() ==> row_is_empty(#[trigger] final(self).rows@[j]),
            forall|j: int| 0 <= j < old(self).rows@.len() && j < new_rows_cnt ==> #[trigger] final(self).rows@[j] == old(self).rows@[j],
            final(despawn).recursive@ == if new_rows_cnt >= old(self).rows@.len() {
                old(despawn).recursive@
            } else {
                old(despawn).recursive@ + rows_entities(old(self).rows@, new_rows_cnt as int, old(self).rows@.len() as int)
            },
            final(despawn).children_only@ == old(despawn).children_only@,
            final(self).name == old(self).name,
            final(self).area_width == old(self).area_width,
            final(self).area_height == old(self).area_height,
            final(self).scroll_info == old(self).scroll_info,
            final(self).cursor_entities == old(self).cursor_entities,
            final(self).is_editor == old(self).is_editor,
            final(self).update == old(self).update,
    {
        let old_rows_cnt = self.rows.len();
        if new_rows_cnt >= old_rows_cnt {
            return;
        }
        despawn_rows(&mut self.rows, new_rows_cnt, old_rows_cnt, despawn);
    }

    /// Resizes the cache to `new_rows_cnt` rows: rows past the new end are
    /// despawned and dropped, missing rows are added empty.
    pub fn on_resize(&mut self, new_rows_cnt: usize, despawn: &mut DespawnResource)
        ensures
            final(self).rows@.len() == new_rows_cnt,
            forall|j: int| 0 <= j < new_rows_cnt ==> if j < old(self).rows@.len() {
                #[trigger] final(self).rows@[j] == old(self).rows@[j]
            } else {
                row_is_empty(final(self).rows@[j])
            },
            final(despawn).recursive@ == if new_rows_cnt >= old(self).rows@.len() {
                old(despawn).recursive@
            } else {
                old(despawn).recursive@ + rows_entities(old(self).rows@, new_rows_cnt as int, old(self).rows@.len() as int)
            },
            final(despawn).children_only@ == old(despawn).children_only@,
            final(self).name == old(self).name,
            final(self).area_width == old(self).area_width,
            final(self).area_height == old(self).area_height,
            final(self).scroll_info == old(self).scroll_info,
            final(self).cursor_entities == old(self).cursor_entities,
            final(self).is_editor == old(self).is_editor,
            final(self).update == old(self).update,
    {
        let ghost old_rows = self.rows@;
        self.despawn_unused_rows(new_rows_cnt, despawn);
        let mut rows: Vec<SurfaceRow> = Vec::new();
        std::mem::swap(&mut rows, &mut self.rows);
        if rows.len() > new_rows_cnt {
            rows.truncate(new_rows_cnt);
        }
        while rows.len() < new_rows_cnt
            invariant
                rows@.len() <= new_rows_cnt || rows@.len() == old_rows.len(),
                rows@.len() <= new_rows_cnt,
                rows@.len() >= old_rows.len() || rows@.len() >= new_rows_cnt,
                forall|j: int| 0 <= j < rows@.len() ==> if j < old_rows.len() {
                    #[trigger] rows@[j] == old_rows[j]
                } else {
                    row_is_empty(rows@[j])
                },
            decreases new_rows_cnt - rows@.len(),
        {
            rows.push(SurfaceRow::new());
        }
        self.rows = rows;
    }

    /// Rebuilds the rows in view from the cells of `surface_helix`, choosing
    /// the font of every cell's symbol from `fonts`; see
    /// `update_rows_classified`.
    pub fn update_rows(
        &mut self,
        surface_helix: &SurfaceHelix,
        background_color: &DisplayColor,
        fonts: &ABGlyphFonts,
        words_to_spawn: &mut WordsToSpawn,
        lines_to_spawn: &mut ColoringLinesToSpawn,
        entities_to_despawn: &mut DespawnResource,
    )
        requires
            old(self).rows@.len() >= old(self).area_height,
            surface_helix.content@.len() >= old(self).area_height * old(self).area_width,
            old(self).scroll_info.enabled ==> old(self).scroll_info.offset >= 0,
            forall|i: int| 0 <= i < surface_helix.content@.len() ==> (#[trigger] surface_helix.content@[i]).symbol@.len() > 0,
        ensures
            exists|classes: Seq<GlyphClass>| {
                &&& classes.len() == surface_helix.content@.len()
                &&& forall|i: int| 0 <= i < classes.len() ==> class_of(*fonts, surface_helix.content@[i].symbol@[0], #[trigger] classes[i])
                &&& rows_update_result(*old(self), *final(self), *surface_helix, classes, *background_color,
                    old(words_to_spawn).groups(), final(words_to_spawn).groups(), old(lines_to_spawn).groups(),
                    final(lines_to_spawn).groups(), old(entities_to_despawn).recursive@, final(entities_to_despawn).recursive@)
            },
            final(entities_to_despawn).children_only@ == old(entities_to_despawn).children_only@,
            final(self).name == old(self).name,
            final(self).area_width == old(self).area_width,
            final(self).area_height == old(self).area_height,
            final(self).scroll_info == old(self).scroll_info,
            final(self).cursor_entities == old(self).cursor_entities,
            final(self).is_editor == old(self).is_editor,
            final(self).update == old(self).update,
    {
        let classes = classify_cells(&surface_helix.content, fonts);
        self.update_rows_classified(surface_helix, &classes, background_color, words_to_spawn, lines_to_spawn,
            entities_to_despawn);
    }

    /// Rebuilds the words and coloring lines of every row in view from the
    /// cells of `surface_helix` (whose symbols are drawn with `classes`, cell
    /// by cell) and syncs the cached rows with them, queueing what must be
    /// spawned and despawned. A surface anchored at the bottom is walked from
    /// its last row up.
    pub fn update_rows_classified(
        &mut self,
        surface_helix: &SurfaceHelix,
        classes: &Vec<GlyphClass>,
        background_color: &DisplayColor,
        words_to_spawn: &mut WordsToSpawn,
        lines_to_spawn: &mut ColoringLinesToSpawn,
        entities_to_despawn: &mut DespawnResource,
    )
        requires
            old(self).rows@.len() >= old(self).area_height,
            surface_helix.content@.len() >= old(self).area_height * old(self).area_width,
            classes@.len() == surface_helix.content@.len(),
            old(self).scroll_info.enabled ==> old(self).scroll_info.offset >= 0,
        ensures
            rows_update_result(*old(self), *final(self), *surface_helix, classes@, *background_color,
                old(words_to_spawn).groups(), final(words_to_spawn).groups(), old(lines_to_spawn).groups(),
                final(lines_to_spawn).groups(), old(entities_to_despawn).recursive@, final(entities_to_despawn).recursive@),
            final(entities_to_despawn).children_only@ == old(entities_to_despawn).children_only@,
            final(self).name == old(self).name,
            final(self).area_width == old(self).area_width,
            final(self).area_height == old(self).area_height,
            final(self).scroll_info == old(self).scroll_info,
            final(self).cursor_entities == old(self).cursor_entities,
            final(self).is_editor == old(self).is_editor,
            final(self).update == old(self).update,
    {
        let ghost old_rows = self.rows@;
        let ghost ws0 = words_to_spawn.groups();
        let ghost ls0 = lines_to_spawn.groups();
        let ghost d0 = entities_to_despawn.recursive@;
        let rows_in_page = self.rows_in_viewport();
        let columns_in_page = self.columns_in_viewport();
        let scroll_offset = self.scroll_info.offset();
        let cells_helix = &surface_helix.content;
        let row_offset_dir = if surface_helix.anchor_bottom { RowOffsetDirection::Up } else { RowOffsetDirection::Down };
        let mut surface_coords = SurfaceCoords::new(row_offset_dir, scroll_offset);
        let reverse_range = surface_helix.anchor_bottom;
        let ghost cols = columns_in_page as int;
        let ghost nrows = rows_in_page as int;

        let mut rows: Vec<SurfaceRow> = Vec::new();
        std::mem::swap(&mut rows, &mut self.rows);

        let mut k: usize = 0;
        while k < rows_in_page
            invariant
                rows_in_page == nrows,
                columns_in_page == cols,
                rows_in_page <= 65535,
                nrows <= old_rows.len(),
                surface_helix.content@.len() >= nrows * cols,
                classes@.len() == surface_helix.content@.len(),
                cells_helix == &surface_helix.content,
                scroll_offset >= 0,
                reverse_range == surface_helix.anchor_bottom,
                k <= rows_in_page,
                surface_coords.row == k,
                surface_coords.column == 0,
                surface_coords.scroll_offset == scroll_offset,
                surface_coords.cache_offset == 0,
                rows@.len() == old_rows.len(),
                forall|j: int| 0 <= j < k ==> row_refreshed(#[trigger] rows@[j], old_rows[j],
                    grid_row(surface_helix.content@, content_row(j, nrows, reverse_range), cols),
                    grid_row(classes@, content_row(j, nrows, reverse_range), cols),
                    *background_color, self.name, self.is_editor, j + scroll_offset, j),
                forall|j: int| k <= j < old_rows.len() ==> #[trigger] rows@[j] == old_rows[j],
                words_to_spawn.groups() == add_all_to_groups(ws0, rows_spawned_words(old_rows, rows@, k as int)),
                lines_to_spawn.groups() == add_all_to_groups(ls0, rows_spawned_lines(old_rows, rows@, k as int)),
                entities_to_despawn.recursive@ == d0 + rows_despawned(old_rows, rows@, k as int),
                entities_to_despawn.children_only@ == old(entities_to_despawn).children_only@,
            decreases rows_in_page - k,
        {
            let row_index = if reverse_range { rows_in_page - 1 - k } else { k };
            let cached_row_index = surface_coords.row_index_wcache();
            let ghost cells_row = grid_row(surface_helix.content@, row_index as int, cols);
            let ghost classes_row = grid_row(classes@, row_index as int, cols);
            proof {
                assert(row_index * cols + cols <= nrows * cols) by (nonlinear_arith)
                    requires row_index < nrows, cols >= 0;
            }

            let mut new_words_state = words::RowState::new();
            let mut new_words_row: WordRow = Vec::new();
            let mut new_lines_state = coloring_lines::RowState::new();
            let mut new_lines_row: ColoringLineRow = Vec::new();

            let mut column_index: usize = 0;
            while column_index < columns_in_page
                invariant
                    columns_in_page == cols,
                    rows_in_page == nrows,
                    rows_in_page <= 65535,
                    row_index < nrows,
                    row_index * cols + cols <= surface_helix.content@.len(),
                    classes@.len() == surface_helix.content@.len(),
                    cells_helix == &surface_helix.content,
                    cells_row == grid_row(surface_helix.content@, row_index as int, cols),
                    classes_row == grid_row(classes@, row_index as int, cols),
                    scroll_offset >= 0,
                    column_index <= columns_in_page,
                    surface_coords.row == k,
                    k < nrows,
                    surface_coords.column == column_index,
                    surface_coords.scroll_offset == scroll_offset,
                    surface_coords.cache_offset == 0,
                    words::row_matches_spans(new_words_row@, segment_words(cells_row, classes_row, column_index as int).spans,
                        self.name@, self.is_editor, k + scroll_offset, k as int),
                    words::state_matches(new_words_state, segment_words(cells_row, classes_row, column_index as int)),
                    coloring_lines::row_matches_lines(new_lines_row@, segment_lines(cells_row, *background_color, column_index as int).spans,
                        self.name, self.is_editor, k + scroll_offset, k as int),
                    new_lines_state.line_started == segment_lines(cells_row, *background_color, column_index as int).started,
                    segment_lines(cells_row, *background_color, column_index as int).started ==> new_lines_row@.len() > 0,
                    forall|i: int| 0 <= i < new_lines_row@.len() ==> (#[trigger] new_lines_row@[i]).length <= column_index,
                decreases columns_in_page - column_index,
            {
                proof {
                    assert(row_index * columns_in_page + column_index < row_index * columns_in_page + columns_in_page) by (nonlinear_arith)
                        requires column_index < columns_in_page;
                    assert(row_index * columns_in_page + columns_in_page <= surface_helix.content@.len());
                }
                let content_len = cells_helix.len();
                let content_index = row_index * columns_in_page + column_index;
                let cell_helix = &cells_helix[content_index];
                let class = &classes[content_index];
                proof {
                    assert(cells_row[column_index as int] == surface_helix.content@[content_index as int]);
                    assert(classes_row[column_index as int] == classes@[content_index as int]);
                }
                new_words_state.ended = column_index == columns_in_page - 1;
                new_lines_state.ended = new_words_state.ended;
                let ghost wrow0 = new_words_row@;
                let ghost wstate0 = new_words_state;
                let ghost lrow0 = new_lines_row@;
                let ghost lstate0 = new_lines_state;
                words::append_symbol(&self.name, self.is_editor, &surface_coords, cell_helix, class, &mut new_words_row, &mut new_words_state);
                coloring_lines::append_cell(&self.name, self.is_editor, background_color, &surface_coords, cell_helix, &mut new_lines_row, &mut new_lines_state);
                proof {
                    words::lemma_append_symbol_step(wrow0, wstate0, new_words_row@, new_words_state,
                        segment_words(cells_row, classes_row, column_index as int), self.name@, self.is_editor, surface_coords, *cell_helix, *class);
                    coloring_lines::lemma_append_cell_step(lrow0, lstate0, new_lines_row@, new_lines_state,
                        segment_lines(cells_row, *background_color, column_index as int), self.name, self.is_editor, *background_color,
                        surface_coords, *cell_helix);
                    assert forall|i: int| 0 <= i < new_lines_row@.len() implies (#[trigger] new_lines_row@[i]).length <= column_index + 1 by {
                        if i < new_lines_row@.len() - 1 {
                            assert(new_lines_row@[i] == new_lines_row@.drop_last()[i]);
                            if i < lrow0.len() - 1 {
                                assert(lrow0[i] == lrow0.drop_last()[i]);
                            }
                        }
                    }
                }
                surface_coords.next_column();
                column_index = column_index + 1;
            }
            proof {
                assert(cells_row.len() == cols);
                assert(classes_row.len() == cols);
            }

            let ghost rows_before = rows@;
            let ghost despawn_before = entities_to_despawn.recursive@;
            let mut cached = rows.remove(cached_row_index);
            let ghost old_cached = cached;
            words::update_cached_row(&mut cached.words, &new_words_row, words_to_spawn, entities_to_despawn, &surface_coords);
            coloring_lines::update_cached_row(&mut cached.lines, &new_lines_row, lines_to_spawn, entities_to_despawn);
            rows.insert(cached_row_index, cached);
            proof {
                words::lemma_synced_with_spans(old_cached.words@, new_words_row@, segment_words(cells_row, classes_row, cols).spans,
                    self.name@, self.is_editor, k + scroll_offset, k as int);
                words::lemma_synced_words_stable(old_cached.words@, new_words_row@);
                coloring_lines::lemma_synced_lines_stable(old_cached.lines@, new_lines_row@);
                assert(scroll_offset >= 0);
                assert(0 <= k + scroll_offset <= usize::MAX);
                coloring_lines::lemma_row_is_lines_of_spans(new_lines_row@, segment_lines(cells_row, *background_color, cols).spans,
                    self.name, self.is_editor, k + scroll_offset, k as int);
                assert(old_cached == old_rows[k as int]);
                let rs = rows@;
                assert(rs[k as int] == cached);
                assert forall|j: int| 0 <= j <= k implies #[trigger] rs[j] == rows@[j] by {}
                assert(rows_spawned_words(old_rows, rows@, k as int + 1) == rows_spawned_words(old_rows, rows@, k as int)
                    + words_to_spawn_upto(old_rows[k as int].words@, cached.words@, cached.words@.len() as int));
                lemma_rows_specs_prefix(old_rows, rows_before, rows@, k as int);
                assert(despawn_before == d0 + rows_despawned(old_rows, rows_before, k as int));
                lemma_add_all_concat(ws0, rows_spawned_words(old_rows, rows@, k as int),
                    words_to_spawn_upto(old_rows[k as int].words@, cached.words@, cached.words@.len() as int));
                lemma_add_all_concat(ls0, rows_spawned_lines(old_rows, rows@, k as int),
                    lines_to_spawn_upto(old_rows[k as int].lines@, cached.lines@, cached.lines@.len() as int));
                assert(entities_to_despawn.recursive@ =~= d0 + rows_despawned(old_rows, rows@, k as int + 1));
            }
            surface_coords.next_row();
            k = k + 1;
        }
        self.rows = rows;
    }

    /// Brings the surface up to date with the cells that the editor rendered
    /// for it: follows a change of scroll offset, takes the new area, resizes
    /// the cache to the rows in view, then refreshes every row. Nothing
    /// happens when updates are off or the rendered surface is frozen.
    pub fn update_classified(
        &mut self,
        surface_helix: &SurfaceHelix,
        scroll_offset: i32,
        classes: &Vec<GlyphClass>,
        background_color: &DisplayColor,
        words_to_spawn: &mut WordsToSpawn,
        lines_to_spawn: &mut ColoringLinesToSpawn,
        despawn: &mut DespawnResource,
    )
        requires
            old(self).update && !surface_helix.frozen && old(self).scroll_info.enabled && scroll_offset != old(self).scroll_info.offset ==> {
                let d = scroll_offset - old(self).scroll_info.offset;
                let viewport = old(self).area_height as int;
                &&& i32::MIN < d <= i32::MAX
                &&& (0 < d < viewport ==> d <= old(self).rows@.len())
                &&& (0 < -d < viewport ==> viewport <= old(self).rows@.len())
            },
            old(self).update && !surface_helix.frozen ==> {
                &&& surface_helix.content@.len() >= surface_helix.area_height * surface_helix.area_width
                &&& classes@.len() == surface_helix.content@.len()
                &&& (old(self).scroll_info.enabled ==> scroll_offset >= 0 && old(self).scroll_info.offset >= 0)
            },
        ensures
            !old(self).update || surface_helix.frozen ==> {
                &&& *final(self) == *old(self)
                &&& final(words_to_spawn).groups() == old(words_to_spawn).groups()
                &&& final(lines_to_spawn).groups() == old(lines_to_spawn).groups()
                &&& final(despawn).recursive@ == old(despawn).recursive@
            },
            old(self).update && !surface_helix.frozen ==> surface_update_result(*old(self), *final(self), *surface_helix, scroll_offset,
                classes@, *background_color, old(words_to_spawn).groups(), final(words_to_spawn).groups(),
                old(lines_to_spawn).groups(), final(lines_to_spawn).groups(), old(despawn).recursive@, final(despawn).recursive@),
            final(despawn).children_only@ == old(despawn).children_only@,
            final(self).name == old(self).name,
            final(self).cursor_entities == old(self).cursor_entities,
            final(self).is_editor == old(self).is_editor,
            final(self).update == old(self).update,
    {
        if !self.update || surface_helix.frozen {
            return;
        }
        let ghost rows0 = self.rows@;
        let ghost despawn0 = despawn.recursive@;
        if self.scroll_info.enabled && scroll_offset != self.scroll_info.offset {
            self.on_scroll(scroll_offset, despawn);
        }
        let ghost scrolled = self.rows@;
        let ghost despawn1 = despawn.recursive@;
        let ghost d_scroll = despawn1.subrange(despawn0.len() as int, despawn1.len() as int);
        proof {
            assert(despawn1 =~= despawn0 + d_scroll);
            if old(self).scroll_info.enabled && scroll_offset != old(self).scroll_info.offset {
                let d = scroll_offset - old(self).scroll_info.offset;
                let viewport = old(self).area_height as int;
                if abs(d) >= viewport {
                    assert(d_scroll =~= rows_entities(rows0, 0, rows0.len() as int));
                } else if d > 0 {
                    assert(d_scroll =~= rows_entities(rows0, 0, d));
                } else {
                    assert(d_scroll =~= rows_entities(rows0, viewport + d, viewport));
                }
            } else {
                assert(d_scroll =~= Seq::<EntityId>::empty());
            }
        }
        self.area_width = surface_helix.area_width;
        self.area_height = surface_helix.area_height;
        let rows_in_viewport = self.rows_in_viewport();
        if rows_in_viewport != self.rows.len() {
            self.on_resize(rows_in_viewport, despawn);
        }
        let ghost resized = self.rows@;
        let ghost despawn2 = despawn.recursive@;
        let ghost d_resize = despawn2.subrange(despawn1.len() as int, despawn2.len() as int);
        proof {
            assert(despawn2 =~= despawn1 + d_resize);
            if rows_in_viewport == scrolled.len() {
                assert(d_resize =~= Seq::<EntityId>::empty());
                assert(resized == scrolled);
            } else if rows_in_viewport >= scrolled.len() {
                assert(d_resize =~= Seq::<EntityId>::empty());
            } else {
                assert(d_resize =~= rows_entities(scrolled, rows_in_viewport as int, scrolled.len() as int));
            }
            assert(resize_result(scrolled, resized, d_resize, rows_in_viewport as int));
        }
        self.update_rows_classified(surface_helix, classes, background_color, words_to_spawn, lines_to_spawn, despawn);
        proof {
            assert(despawn.recursive@ =~= despawn0 + d_scroll + d_resize + rows_despawned(resized, self.rows@, rows_in_viewport as int));
            assert(surface_update_steps(*old(self), *self, *surface_helix, scroll_offset, classes@, *background_color,
                old(words_to_spawn).groups(), words_to_spawn.groups(), old(lines_to_spawn).groups(), lines_to_spawn.groups(),
                old(despawn).recursive@, despawn.recursive@, scrolled, d_scroll, resized, d_resize));
        }
    }

    /// Brings the surface up to date with the cells that the editor rendered
    /// for it, choosing the font of every cell's symbol from `fonts`; see
    /// `update_classified`.
    pub fn update(
        &mut self,
        surface_helix: &SurfaceHelix,
        scroll_offset: i32,
        fonts: &ABGlyphFonts,
        background_color: &DisplayColor,
        words_to_spawn: &mut WordsToSpawn,
        lines_to_spawn: &mut ColoringLinesToSpawn,
        despawn: &mut DespawnResource,
    )
        requires
            old(self).update && !surface_helix.frozen && old(self).scroll_info.enabled && scroll_offset != old(self).scroll_info.offset ==> {
                let d = scroll_offset - old(self).scroll_info.offset;
                let viewport = old(self).area_height as int;
                &&& i32::MIN < d <= i32::MAX
                &&& (0 < d < viewport ==> d <= old(self).rows@.len())
                &&& (0 < -d < viewport ==> viewport <= old(self).rows@.len())
            },
            old(self).update && !surface_helix.frozen ==> {
                &&& surface_helix.content@.len() >= surface_helix.area_height * surface_helix.area_width
                &&& (old(self).scroll_info.enabled ==> scroll_offset >= 0 && old(self).scroll_info.offset >= 0)
                &&& forall|i: int| 0 <= i < surface_helix.content@.len() ==> (#[trigger] surface_helix.content@[i]).symbol@.len() > 0
            },
        ensures
            !old(self).update || surface_helix.frozen ==> {
                &&& *final(self) == *old(self)
                &&& final(words_to_spawn).groups() == old(words_to_spawn).groups()
                &&& final(lines_to_spawn).groups() == old(lines_to_spawn).groups()
                &&& final(despawn).recursive@ == old(despawn).recursive@
            },
            old(self).update && !surface_helix.frozen ==> exists|classes: Seq<GlyphClass>| {
                &&& classes.len() == surface_helix.content@.len()
                &&& forall|i: int| 0 <= i < classes.len() ==> class_of(*fonts, surface_helix.content@[i].symbol@[0], #[trigger] classes[i])
                &&& surface_update_result(*old(self), *final(self), *surface_helix, scroll_offset,
                    classes, *background_color, old(words_to_spawn).groups(), final(words_to_spawn).groups(),
                    old(lines_to_spawn).groups(), final(lines_to_spawn).groups(), old(despawn).recursive@, final(despawn).recursive@)
            },
            final(despawn).children_only@ == old(despawn).children_only@,
            final(self).name == old(self).name,
            final(self).cursor_entities == old(self).cursor_entities,
            final(self).is_editor == old(self).is_editor,
            final(self).update == old(self).update,
    {
        if !self.update || surface_helix.frozen {
            return;
        }
        let classes = classify_cells(&surface_helix.content, fonts);
        self.update_classified(surface_helix, scroll_offset, &classes, background_color, words_to_spawn, lines_to_spawn, despawn);
    }
}

/// The class of every cell's symbol, in order.
pub fn classify_cells(cells: &Vec<Cell>, fonts: &ABGlyphFonts) -> (classes: Vec<GlyphClass>)
    requires
        forall|i: int| 0 <= i < cells@.len() ==> (#[trigger] cells@[i]).symbol@.len() > 0,
    ensures
        classes@.len() == cells@.len(),
        forall|i: int| 0 <= i < cells@.len() ==> class_of(*fonts, cells@[i].symbol@[0], #[trigger] classes@[i]),
{
    let n = cells.len();
    let mut classes: Vec<GlyphClass> = Vec::with_capacity(n);
    let mut i: usize = 0;
    while i < n
        invariant
            n == cells@.len(),
            i <= n,
            forall|j: int| 0 <= j < n ==> (#[trigger] cells@[j]).symbol@.len() > 0,
            classes@.len() == i,
            forall|j: int| 0 <= j < i ==> class_of(*fonts, cells@[j].symbol@[0], #[trigger] classes@[j]),
        decreases n - i,
    {
        let class = fonts.classify(&cells[i].symbol);
        classes.push(class);
        i = i + 1;
    }
    classes
}

/// What refreshing the first `k` rows queues and despawns depends only on those rows.
proof fn lemma_rows_specs_prefix(old_rows: Seq<SurfaceRow>, a: Seq<SurfaceRow>, b: Seq<SurfaceRow>, k: int)
    requires
        k <= a.len(),
        k <= b.len(),
        forall|j: int| 0 <= j < k ==> a[j] == b[j],
    ensures
        rows_spawned_words(old_rows, a, k) == rows_spawned_words(old_rows, b, k),
        rows_spawned_lines(old_rows, a, k) == rows_spawned_lines(old_rows, b, k),
        rows_despawned(old_rows, a, k) == rows_despawned(old_rows, b, k),
    decreases k,
{
    if k > 0 {
        lemma_rows_specs_prefix(old_rows, a, b, k - 1);
        assert(a[k - 1] == b[k - 1]);
    }
}

/// How many of `len` cursor entities stay when the editor shows `cnt`
/// cursors: surplus cursors are removed one by one from the end, stopping
/// when one is left (so one cursor of several stays even when the editor
/// shows none).
pub open spec fn cursors_kept(len: nat, cnt: nat) -> nat {
    if len <= cnt {
        len
    } else if cnt >= 1 {
        cnt
    } else if len == 1 {
        0
    } else {
        1
    }
}

impl SurfaceBevy {
    /// How many cursor entities to spawn for `cursors_cnt` cursors.
    pub fn cursors_to_spawn(&self, cursors_cnt: usize) -> (r: usize)
        ensures
            r == if self.cursor_entities@.len() < cursors_cnt { cursors_cnt - self.cursor_entities@.len() } else { 0 },
    {
        if self.cursor_entities.len() < cursors_cnt {
            cursors_cnt - self.cursor_entities.len()
        } else {
            0
        }
    }

    /// Matches the cursor entities to `cursors_cnt` cursors: the newly
    /// spawned entities `spawned` are added; surplus ones are queued for
    /// despawning, last first (see `cursors_kept`).
    pub fn manage_cursors(&mut self, cursors_cnt: usize, spawned: Vec<EntityId>, despawn: &mut DespawnResource)
        requires
            spawned@.len() == if old(self).cursor_entities@.len() < cursors_cnt {
                cursors_cnt - old(self).cursor_entities@.len()
            } else {
                0
            },
        ensures
            ({
                let old_cursors = old(self).cursor_entities@ + spawned@;
                let kept = cursors_kept(old_cursors.len(), cursors_cnt as nat);
                &&& final(self).cursor_entities@ == old_cursors.take(kept as int)
                &&& final(despawn).recursive@ == old(despawn).recursive@ + old_cursors.subrange(kept as int,
                    old_cursors.len() as int).reverse()
            }),
            final(despawn).children_only@ == old(despawn).children_only@,
            final(self).rows@ == old(self).rows@,
            final(self).name == old(self).name,
            final(self).area_width == old(self).area_width,
            final(self).area_height == old(self).area_height,
            final(self).scroll_info == old(self).scroll_info,
            final(self).is_editor == old(self).is_editor,
            final(self).update == old(self).update,
    {
        let ghost before = self.cursor_entities@;
        let mut spawned = spawned;
        self.cursor_entities.append(&mut spawned);
        let ghost all = self.cursor_entities@;
        let ghost despawn0 = despawn.recursive@;
        proof {
            assert(all =~= before + old(self).cursor_entities@.subrange(0, 0) + all.subrange(before.len() as int, all.len() as int));
        }
        let ghost kept = cursors_kept(all.len(), cursors_cnt as nat);
        while self.cursor_entities.len() > cursors_cnt
            invariant_except_break
                self.cursor_entities@ == all.take(self.cursor_entities@.len() as int),
                self.cursor_entities@.len() <= all.len(),
                despawn.recursive@ == despawn0 + all.subrange(self.cursor_entities@.len() as int, all.len() as int).reverse(),
                despawn.children_only@ == old(despawn).children_only@,
                self.cursor_entities@.len() == all.len() || self.cursor_entities@.len() >= cursors_cnt,
                self.cursor_entities@.len() == all.len() || self.cursor_entities@.len() >= 2
                    || (self.cursor_entities@.len() == 0 && all.len() == 1),
                kept == cursors_kept(all.len(), cursors_cnt as nat),
                self.rows@ == old(self).rows@,
                self.name == old(self).name,
                self.area_width == old(self).area_width,
                self.area_height == old(self).area_height,
                self.scroll_info == old(self).scroll_info,
                self.is_editor == old(self).is_editor,
                self.update == old(self).update,
            ensures
                self.cursor_entities@ == all.take(kept as int),
                despawn.recursive@ == despawn0 + all.subrange(kept as int, all.len() as int).reverse(),
                despawn.children_only@ == old(despawn).children_only@,
                self.rows@ == old(self).rows@,
                self.name == old(self).name,
                self.area_width == old(self).area_width,
                self.area_height == old(self).area_height,
                self.scroll_info == old(self).scroll_info,
                self.is_editor == old(self).is_editor,
                self.update == old(self).update,
            decreases self.cursor_entities@.len(),
        {
            let ghost len0 = self.cursor_entities@.len();
            let e = self.cursor_entities.pop().unwrap();
            proof {
                assert(all.subrange(len0 - 1, all.len() as int).reverse() =~=
                    all.subrange(len0 as int, all.len() as int).reverse().push(e)) by {
                    assert(all[len0 - 1] == e);
                }
                assert(self.cursor_entities@ =~= all.take(len0 - 1));
            }
            despawn.recursive.push(e);
            proof {
                assert(despawn.recursive@ =~= despawn0 + all.subrange(len0 - 1, all.len() as int).reverse());
            }
            if self.cursor_entities.len() == 1 {
                break;
            }
        }
        proof {
            if all.len() <= cursors_cnt {
                assert(all.take(all.len() as int) =~= all);
                assert(all.subrange(all.len() as int, all.len() as int).reverse() =~= Seq::<EntityId>::empty());
            }
        }
    }
}

/// Refreshing a row again from the same cells, once all its words and lines
/// are spawned, keeps it: the row stays as it is, and nothing is queued for
/// spawning or despawned.
pub proof fn lemma_refresh_spawned_row_stable(
    r1: SurfaceRow,
    r0: SurfaceRow,
    r2: SurfaceRow,
    cells: Seq<Cell>,
    classes: Seq<GlyphClass>,
    background_color: DisplayColor,
    surface_name: String,
    surface_is_editor: bool,
    row_global: int,
    row_wcache: int,
)
    requires
        row_refreshed(r1, r0, cells, classes, background_color, surface_name, surface_is_editor, row_global, row_wcache),
        forall|i: int| 0 <= i < r1.words@.len() ==> (#[trigger] r1.words@[i]).entity is Some,
        forall|i: int| 0 <= i < r1.lines@.len() ==> (#[trigger] r1.lines@[i]).entity is Some,
        row_refreshed(r2, r1, cells, classes, background_color, surface_name, surface_is_editor, row_global, row_wcache),
    ensures
        r2.words@ == r1.words@,
        r2.lines@ == r1.lines@,
        words_to_spawn_upto(r1.words@, r2.words@, r2.words@.len() as int) == Seq::<(Seq<char>, WordDescription)>::empty(),
        lines_to_spawn_upto(r1.lines@, r2.lines@, r2.lines@.len() as int)
            == Seq::<(Seq<char>, ColoringLineDescription)>::empty(),
        despawned_words(r1.words@, r2.words@) == Seq::<EntityId>::empty(),
        despawned_lines(r1.lines@, r2.lines@) == Seq::<EntityId>::empty(),
{
    let spans = segment_words(cells, classes, cells.len() as int).spans;
    let w0 = r0.words@;
    let w1 = r1.words@;
    let w2 = r2.words@;
    assert forall|i: int| 0 <= i < spans.len() implies #[trigger] w2[i] == w1[i] by {
        assert(words::span_kept(w1[i], spans[i], row_global));
    }
    assert(w2 =~= w1);
    let lspans = lines_of_spans(segment_lines(cells, background_color, cells.len() as int).spans, surface_name,
        surface_is_editor, row_global, row_wcache);
    let l0 = r0.lines@;
    let l1 = r1.lines@;
    let l2 = r2.lines@;
    assert forall|i: int| 0 <= i < lspans.len() implies #[trigger] l2[i] == l1[i] by {
        assert(l1[i] == synced_lines(l0, lspans)[i]);
        assert(coloring_lines::line_kept(l1[i], lspans[i]));
    }
    assert(l2 =~= l1);
    lemma_nothing_respawned(w1, w1.len() as int);
    lemma_no_line_respawned(l1, l1.len() as int);
}

proof fn lemma_nothing_respawned(w: Seq<WordDescription>, n: int)
    requires
        0 <= n <= w.len(),
        forall|i: int| 0 <= i < w.len() ==> (#[trigger] w[i]).entity is Some,
    ensures
        words_to_spawn_upto(w, w, n) == Seq::<(Seq<char>, WordDescription)>::empty(),
        words::replaced_word_entities(w, w, n) == Seq::<EntityId>::empty(),
        words::word_entities_between(w, n, n) == Seq::<EntityId>::empty(),
        n == w.len() ==> despawned_words(w, w) == Seq::<EntityId>::empty(),
    decreases n,
{
    if n > 0 {
        lemma_nothing_respawned(w, n - 1);
        assert(words::word_kept(w[n - 1], w[n - 1]));
    }
    if n == w.len() {
        assert(Seq::<EntityId>::empty() + Seq::<EntityId>::empty() =~= Seq::<EntityId>::empty());
    }
}

proof fn lemma_no_line_respawned(l: Seq<ColoringLineDescription>, n: int)
    requires
        0 <= n <= l.len(),
        forall|i: int| 0 <= i < l.len() ==> (#[trigger] l[i]).entity is Some,
    ensures
        lines_to_spawn_upto(l, l, n) == Seq::<(Seq<char>, ColoringLineDescription)>::empty(),
        coloring_lines::replaced_line_entities(l, l, n) == Seq::<EntityId>::empty(),
        coloring_lines::line_entities_between(l, n, n) == Seq::<EntityId>::empty(),
        n == l.len() ==> despawned_lines(l, l) == Seq::<EntityId>::empty(),
    decreases n,
{
    if n > 0 {
        lemma_no_line_respawned(l, n - 1);
        assert(coloring_lines::line_kept(l[n - 1], l[n - 1]));
    }
    if n == l.len() {
        assert(Seq::<EntityId>::empty() + Seq::<EntityId>::empty() =~= Seq::<EntityId>::empty());
    }
}

/// Scrolling down by `d` rows and back up by `d` rows brings the rows below
/// the first `d` back where they were; the first `d` rows come back empty
/// (their cache was dropped on the way).
pub proof fn lemma_scroll_down_then_up(old_rows: Seq<SurfaceRow>, mid: Seq<SurfaceRow>, new_rows: Seq<SurfaceRow>, d: int,
    viewport: int)
    requires
        0 < d < viewport,
        old_rows.len() == viewport,
        scrolled_down(old_rows, mid, d, viewport),
        scrolled_up(mid, new_rows, d, viewport),
    ensures
        new_rows.len() == viewport,
        forall|j: int| d <= j < viewport ==> #[trigger] new_rows[j] == old_rows[j],
        forall|j: int| 0 <= j < d ==> row_is_empty(#[trigger] new_rows[j]),
{
    assert forall|j: int| d <= j < viewport implies #[trigger] new_rows[j] == old_rows[j] by {
        assert(new_rows[j] == mid[j - d]);
        assert(mid[j - d] == old_rows[j]);
    }
}

/// Scrolling up by `d` rows and back down by `d` rows brings the rows above
/// the last `d` back where they were; the last `d` rows come back empty.
pub proof fn lemma_scroll_up_then_down(old_rows: Seq<SurfaceRow>, mid: Seq<SurfaceRow>, new_rows: Seq<SurfaceRow>, d: int,
    viewport: int)
    requires
        0 < d < viewport,
        old_rows.len() == viewport,
        scrolled_up(old_rows, mid, d, viewport),
        scrolled_down(mid, new_rows, d, viewport),
    ensures
        new_rows.len() == viewport,
        forall|j: int| 0 <= j < viewport - d ==> #[trigger] new_rows[j] == old_rows[j],
        forall|j: int| viewport - d <= j < viewport ==> row_is_empty(#[trigger] new_rows[j]),
{
    assert forall|j: int| 0 <= j < viewport - d implies #[trigger] new_rows[j] == old_rows[j] by {
        assert(new_rows[j] == mid[j + d]);
        assert(mid[j + d] == old_rows[j]);
    }
}

/// The text of a word in the debug text of a row: its row and column in
/// brackets when asked for, then its string and a space.
pub open spec fn word_debug_text(w: WordDescription, with_coords: bool) -> Seq<char> {
    (if with_coords {
        seq!['['] + decimal(w.row as nat) + seq![' '] + decimal(w.column as nat) + seq![']']
    } else {
        Seq::empty()
    }) + w.string@ + seq![' ']
}

/// The debug text of the words `words`, in order.
pub open spec fn words_debug_text(words: Seq<WordDescription>, with_coords: bool) -> Seq<char>
    decreases words.len(),
{
    if words.len() == 0 {
        Seq::empty()
    } else {
        words_debug_text(words.drop_last(), with_coords) + word_debug_text(words.last(), with_coords)
    }
}

impl SurfaceBevy {
    /// The debug text of row `row_index`: its index in brackets, then the
    /// text of each word (see `word_debug_text`).
    pub fn row_as_string(&self, row_index: usize, with_coords: bool) -> (r: String)
        requires
            row_index < self.rows@.len(),
        ensures
            r@ == seq!['['] + decimal(row_index as nat) + seq![']', ' ']
                + words_debug_text(self.rows@[row_index as int].words@, with_coords),
    {
        let mut row = String::new();
        push_char(&mut row, '[');
        push_decimal(&mut row, row_index as u64);
        push_char(&mut row, ']');
        push_char(&mut row, ' ');
        let ghost head = row@;
        let words = &self.rows[row_index].words;
        let row_len = words.len();
        let mut i: usize = 0;
        proof {
            assert(words@.take(0) =~= Seq::<WordDescription>::empty());
            assert(head + words_debug_text(words@.take(0), with_coords) =~= head);
        }
        while i < row_len
            invariant
                row_len == words@.len(),
                i <= row_len,
                row@ == head + words_debug_text(words@.take(i as int), with_coords),
            decreases row_len - i,
        {
            let word = &words[i];
            let ghost before = row@;
            if with_coords {
                push_char(&mut row, '[');
                push_decimal(&mut row, word.row as u64);
                push_char(&mut row, ' ');
                push_decimal(&mut row, word.column as u64);
                push_char(&mut row, ']');
            }
            push_str(&mut row, word.string.as_str());
            push_char(&mut row, ' ');
            proof {
                assert(words@.take(i + 1).drop_last() =~= words@.take(i as int));
                assert(words@.take(i + 1).last() == *word);
                assert(row@ =~= before + word_debug_text(*word, with_coords));
            }
            i = i + 1;
        }
        proof {
            assert(words@.take(row_len as int) =~= words@);
            assert(head =~= seq!['['] + decimal(row_index as nat) + seq![']', ' ']);
        }
        row
    }
}

} // verus!
