//! The cached rows of a surface: despawning, scrolling and resizing.

use vstd::prelude::*;

use super::{DespawnResource, EntityId};
use super::coloring_lines::{line_entities_between, ColoringLineRow};
use super::words::{word_entities_between, WordRow};

verus! {

/// The words and coloring lines cached for one row of a surface.
#[derive(Debug)]
pub struct SurfaceRow {
    pub words: WordRow,
    pub lines: ColoringLineRow,
}

/// A row with no words and no lines.
pub open spec fn row_is_empty(r: SurfaceRow) -> bool {
    r.words@.len() == 0 && r.lines@.len() == 0
}

/// Entities spawned for a row: its words, then its lines.
pub open spec fn row_entities(r: SurfaceRow) -> Seq<EntityId> {
    word_entities_between(r.words@, 0, r.words@.len() as int) + line_entities_between(r.lines@, 0, r.lines@.len() as int)
}

/// Entities of rows `from .. to`, row by row.
pub open spec fn rows_entities(rows: Seq<SurfaceRow>, from: int, to: int) -> Seq<EntityId>
    decreases to - from,
{
    if to <= from {
        Seq::empty()
    } else {
        rows_entities(rows, from, to - 1) + row_entities(rows[to - 1])
    }
}

impl SurfaceRow {
    /// An empty row.
    pub fn new() -> (r: Self)
        ensures
            row_is_empty(r),
    {
        SurfaceRow { words: Vec::new(), lines: Vec::new() }
    }

    /// Drops all words and lines.
    pub fn clear(&mut self)
        ensures
            row_is_empty(*final(self)),
    {
        self.words.clear();
        self.lines.clear();
    }
}

/// Despawns every spawned word and line of `row` and empties it.
pub fn despawn_row_contents(row: &mut SurfaceRow, despawn: &mut DespawnResource)
    ensures
        row_is_empty(*final(row)),
        final(despawn).recursive@ == old(despawn).recursive@ + row_entities(*old(row)),
        final(despawn).children_only@ == old(despawn).children_only@,
{
    let ghost row0 = *row;
    let ghost despawn0 = despawn.recursive@;
    let row_len = row.words.len();
    let mut i: usize = 0;
    while i < row_len
        invariant
            row_len == row0.words@.len(),
            i <= row_len,
            row.words@ == row0.words@,
            row.lines@ == row0.lines@,
            despawn.recursive@ == despawn0 + word_entities_between(row0.words@, 0, i as int),
            despawn.children_only@ == old(despawn).children_only@,
        decreases row_len - i,
    {
        if let Some(entity) = row.words[i].entity {
            despawn.recursive.push(entity);
        }
        assert(despawn.recursive@ =~= despawn0 + word_entities_between(row0.words@, 0, i + 1));
        i = i + 1;
    }
    row.words.clear();
    let ghost despawn1 = despawn.recursive@;
    let row_len = row.lines.len();
    let mut i: usize = 0;
    while i < row_len
        invariant
            row_len == row0.lines@.len(),
            i <= row_len,
            row.words@.len() == 0,
            row.lines@ == row0.lines@,
            despawn.recursive@ == despawn1 + line_entities_between(row0.lines@, 0, i as int),
            despawn.children_only@ == old(despawn).children_only@,
        decreases row_len - i,
    {
        if let Some(entity) = row.lines[i].entity {
            despawn.recursive.push(entity);
        }
        assert(despawn.recursive@ =~= despawn1 + line_entities_between(row0.lines@, 0, i + 1));
        i = i + 1;
    }
    row.lines.clear();
    assert(despawn.recursive@ =~= despawn0 + row_entities(row0));
}

/// Despawns the contents of row `row_index`, leaving the row empty in place.
pub fn despawn_row(rows: &mut Vec<SurfaceRow>, row_index: usize, despawn: &mut DespawnResource)
    requires
        row_index < old(rows)@.len(),
    ensures
        final(rows)@.len() == old(rows)@.len(),
        row_is_empty(final(rows)@[row_index as int]),
        forall|j: int| 0 <= j < old(rows)@.len() && j != row_index ==> #[trigger] final(rows)@[j] == old(rows)@[j],
        final(despawn).recursive@ == old(despawn).recursive@ + row_entities(old(rows)@[row_index as int]),
        final(despawn).children_only@ == old(despawn).children_only@,
{
    let mut row = rows.remove(row_index);
    despawn_row_contents(&mut row, despawn);
    rows.insert(row_index, row);
}

/// Despawns the contents of rows `from .. to`, leaving them empty in place.
pub fn despawn_rows(rows: &mut Vec<SurfaceRow>, from: usize, to: usize, despawn: &mut DespawnResource)
    requires
        from <= to <= old(rows)@.len(),
    ensures
        final(rows)@.len() == old(rows)@.len(),
        forall|j: int| from <= j < to ==> row_is_empty(#[trigger] final(rows)@[j]),
        forall|j: int| 0 <= j < old(rows)@.len() && !(from <= j < to) ==> #[trigger] final(rows)@[j] == old(rows)@[j],
        final(despawn).recursive@ == old(despawn).recursive@ + rows_entities(old(rows)@, from as int, to as int),
        final(despawn).children_only@ == old(despawn).children_only@,
{
    let ghost rows0 = rows@;
    let ghost despawn0 = despawn.recursive@;
    let mut i: usize = from;
    while i < to
        invariant
            from <= i <= to,
            to <= rows0.len(),
            rows@.len() == rows0.len(),
            forall|j: int| from <= j < i ==> row_is_empty(#[trigger] rows@[j]),
            forall|j: int| 0 <= j < rows0.len() && !(from <= j < i) ==> #[trigger] rows@[j] == rows0[j],
            despawn.recursive@ == despawn0 + rows_entities(rows0, from as int, i as int),
            despawn.children_only@ == old(despawn).children_only@,
        decreases to - i,
    {
        despawn_row(rows, i, despawn);
        assert(despawn.recursive@ =~= despawn0 + rows_entities(rows0, from as int, i + 1));
        i = i + 1;
    }
}

} // verus!
