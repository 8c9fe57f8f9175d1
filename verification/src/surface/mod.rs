//! Surfaces: rows of words and coloring lines cached per text surface, kept
//! in sync with the cells that the editor renders.

use vstd::prelude::*;

pub mod spawn_queue;
pub mod words;
pub mod coloring_lines;
pub mod rows;
pub mod surface_bevy;
pub mod surfaces_map;
pub mod text;

pub use spawn_queue::SpawnGroups;

verus! {

/// An entity of the scene, by its id.
pub type EntityId = u64;

/// A display color, by the bit patterns of its four float channels
/// (red, green, blue, alpha); two colors are equal when all four are.
#[derive(Debug, Clone, Copy, PartialEq, Eq, Structural)]
pub struct DisplayColor {
    pub r: u32,
    pub g: u32,
    pub b: u32,
    pub a: u32,
}

/// Entities waiting to be despawned at the end of the frame.
#[derive(Debug)]
pub struct DespawnResource {
    pub recursive: Vec<EntityId>,
    pub children_only: Vec<EntityId>,
}

impl DespawnResource {
    /// An empty despawn list.
    pub fn new() -> (r: Self)
        ensures
            r.recursive@ == Seq::<EntityId>::empty(),
            r.children_only@ == Seq::<EntityId>::empty(),
    {
        DespawnResource { recursive: Vec::new(), children_only: Vec::new() }
    }

    /// Hands over the queued entities once the application has run for more
    /// than `DESPAWN_DELAY_NANOS` (the lists are then empty again); before
    /// that, nothing is handed over and the lists stay.
    pub fn take_due(&mut self, elapsed_nanos: u64) -> (r: Option<(Vec<EntityId>, Vec<EntityId>)>)
        ensures
            elapsed_nanos > DESPAWN_DELAY_NANOS ==> {
                &&& r matches Some((rec, children)) && rec@ == old(self).recursive@ && children@ == old(self).children_only@
                &&& final(self).recursive@.len() == 0
                &&& final(self).children_only@.len() == 0
            },
            elapsed_nanos <= DESPAWN_DELAY_NANOS ==> r is None && final(self).recursive@ == old(self).recursive@
                && final(self).children_only@ == old(self).children_only@,
    {
        if elapsed_nanos > DESPAWN_DELAY_NANOS {
            let mut recursive: Vec<EntityId> = Vec::new();
            let mut children_only: Vec<EntityId> = Vec::new();
            std::mem::swap(&mut recursive, &mut self.recursive);
            std::mem::swap(&mut children_only, &mut self.children_only);
            Some((recursive, children_only))
        } else {
            None
        }
    }
}

/// How long after start despawning begins: a tenth of a second, in
/// nanoseconds.
pub const DESPAWN_DELAY_NANOS: u64 = 100_000_000;

/// One cell of a rendered surface: its symbol and colors.
#[derive(Debug)]
pub struct Cell {
    pub symbol: String,
    pub fg: DisplayColor,
    pub bg: DisplayColor,
    /// The cell's background is the terminal's default ("reset") color.
    pub bg_is_reset: bool,
}

/// Direction in which rows follow each other on screen.
#[derive(Debug, Clone, Copy, PartialEq, Eq, Structural)]
pub enum RowOffsetDirection {
    Up,
    Down,
}

/// Position of the cell being processed while a surface is walked row by
/// row: its column and row, and the offsets that turn the row into a row of
/// the document (scrolling) and a row of the cache.
#[derive(Debug, Clone, Copy)]
pub struct SurfaceCoords {
    pub column: usize,
    pub row: usize,
    pub scroll_offset: i32,
    pub cache_offset: i32,
    pub row_offset_dir: RowOffsetDirection,
}

impl SurfaceCoords {
    /// Row of the document shown on the current row.
    pub open spec fn row_global(&self) -> int {
        self.row + self.scroll_offset
    }

    /// Row of the cache that holds the current row.
    pub open spec fn row_wcache(&self) -> int {
        self.row + self.cache_offset
    }

    /// Coordinates of the first cell of a surface scrolled by `scroll_offset` rows.
    pub fn new(row_offset_dir: RowOffsetDirection, scroll_offset: i32) -> (r: Self)
        ensures
            r.column == 0,
            r.row == 0,
            r.scroll_offset == scroll_offset,
            r.cache_offset == 0,
            r.row_offset_dir == row_offset_dir,
    {
        SurfaceCoords { column: 0, row: 0, scroll_offset, cache_offset: 0, row_offset_dir }
    }

    /// Moves to the first cell of the next row.
    pub fn next_row(&mut self)
        requires
            old(self).row < usize::MAX,
        ensures
            final(self).column == 0,
            final(self).row == old(self).row + 1,
            final(self).scroll_offset == old(self).scroll_offset,
            final(self).cache_offset == old(self).cache_offset,
            final(self).row_offset_dir == old(self).row_offset_dir,
    {
        self.column = 0;
        self.row = self.row + 1;
    }

    /// Moves to the next cell of the row.
    pub fn next_column(&mut self)
        requires
            old(self).column < usize::MAX,
        ensures
            final(self).column == old(self).column + 1,
            final(self).row == old(self).row,
            final(self).scroll_offset == old(self).scroll_offset,
            final(self).cache_offset == old(self).cache_offset,
            final(self).row_offset_dir == old(self).row_offset_dir,
    {
        self.column = self.column + 1;
    }

    /// Row of the cache that holds the current row.
    pub fn row_index_wcache(&self) -> (r: usize)
        requires
            0 <= self.row_wcache() <= usize::MAX,
            self.cache_offset >= 0,
        ensures
            r == self.row_wcache(),
    {
        self.row + self.cache_offset as usize
    }

    /// Row of the document shown on the current row.
    pub fn row_index_global(&self) -> (r: usize)
        requires
            self.scroll_offset >= 0,
            self.row_global() <= usize::MAX,
        ensures
            r == self.row_global(),
    {
        self.row + self.scroll_offset as usize
    }
}

} // verus!
