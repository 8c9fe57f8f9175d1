//! Glyph images of the minimap: positions in the grid of character cells
//! of an image, and clearing a range of cells.

use vstd::prelude::*;

verus! {

/// A cell of the character grid of an image.
#[derive(Clone, Copy, PartialEq, Eq, Debug, Structural)]
pub struct TablePos {
    pub column: usize,
    pub row: usize,
}

impl TablePos {
    /// Keeps the position within `max_column` and `max_row`.
    pub fn clamp(&mut self, max_column: usize, max_row: usize)
        ensures
            final(self).column == if old(self).column < max_column { old(self).column } else { max_column },
            final(self).row == if old(self).row < max_row { old(self).row } else { max_row },
    {
        if self.column > max_column {
            self.column = max_column;
        }
        if self.row > max_row {
            self.row = max_row;
        }
    }
}

/// The layout of the character grid over an image: its size in pixels, the
/// bytes per pixel, and the size of a cell in pixels.
#[derive(Clone, Copy, PartialEq, Eq, Debug, Structural)]
pub struct GridLayout {
    pub width: usize,
    pub height: usize,
    pub pixel_size: usize,
    pub column_width: usize,
    pub row_height: usize,
}

/// The byte offset of the top-left pixel of the cell (`column`, `row`).
pub open spec fn pixel_offset(g: GridLayout, column: nat, row: nat) -> nat {
    (column * (g.column_width as nat) + row * (g.row_height as nat) * (g.width as nat)) * (g.pixel_size as nat)
}

/// The clamped cell range to clear, one row down (the first row of the grid
/// lies above the image): from `from` to `to`, both kept within the grid.
pub open spec fn clear_bounds(g: GridLayout, from: TablePos, to: TablePos) -> (nat, nat) {
    let max_column = g.width / g.column_width;
    let max_row = g.height / g.row_height;
    let fc = if from.column < max_column { from.column as nat } else { max_column as nat };
    let fr = if from.row + 1 < max_row { (from.row + 1) as nat } else { max_row as nat };
    let tc = if to.column < max_column { to.column as nat } else { max_column as nat };
    let tr = if to.row + 1 < max_row { (to.row + 1) as nat } else { max_row as nat };
    (pixel_offset(g, fc, fr), pixel_offset(g, tc, tr) + 4)
}

/// The inputs on which clearing is defined: cells of some size, offsets that
/// fit, an end after the start, and an image large enough for what is written.
pub open spec fn clear_defined(g: GridLayout, from: TablePos, to: TablePos, data_len: nat) -> bool {
    let (a, b) = clear_bounds(g, from, to);
    &&& g.column_width > 0
    &&& g.row_height > 0
    &&& from.row < usize::MAX
    &&& to.row < usize::MAX
    &&& (g.width + 1) * (g.height + 1) * (g.pixel_size + 1) + 4 <= usize::MAX
    &&& a <= b
    &&& (b - a) / 4 > 0 ==> (b - a) / 4 + 3 <= data_len
}

proof fn lemma_offset_bound(g: GridLayout, c: nat, r: nat)
    requires
        g.column_width > 0,
        g.row_height > 0,
        c <= g.width / g.column_width,
        r <= g.height / g.row_height,
    ensures
        pixel_offset(g, c, r) <= (g.width + 1) * (g.height + 1) * (g.pixel_size + 1),
{
    let w = g.width as nat;
    let h = g.height as nat;
    let p = g.pixel_size as nat;
    assert(c * g.column_width <= w) by (nonlinear_arith)
        requires c <= w / (g.column_width as nat), g.column_width > 0;
    assert(r * g.row_height <= h) by (nonlinear_arith)
        requires r <= h / (g.row_height as nat), g.row_height > 0;
    assert(r * g.row_height * w <= h * w) by (nonlinear_arith)
        requires r * g.row_height <= h;
    assert((c * g.column_width + r * g.row_height * w) * p <= (w + h * w) * p) by (nonlinear_arith)
        requires c * g.column_width <= w, r * g.row_height * w <= h * w;
    assert((w + h * w) * p <= (w + 1) * (h + 1) * (p + 1)) by (nonlinear_arith);
}

fn offset_of(g: GridLayout, column: usize, row: usize) -> (r: usize)
    requires
        g.column_width > 0,
        g.row_height > 0,
        column <= g.width / g.column_width,
        row <= g.height / g.row_height,
        (g.width + 1) * (g.height + 1) * (g.pixel_size + 1) + 4 <= usize::MAX,
    ensures
        r == pixel_offset(g, column as nat, row as nat),
        r <= (g.width + 1) * (g.height + 1) * (g.pixel_size + 1),
{
    proof {
        lemma_offset_bound(g, column as nat, row as nat);
        assert(column * g.column_width <= g.width) by (nonlinear_arith)
            requires column <= g.width / g.column_width, g.column_width > 0;
        assert(row * g.row_height <= g.height) by (nonlinear_arith)
            requires row <= g.height / g.row_height, g.row_height > 0;
        assert(row * g.row_height * g.width <= g.height * g.width) by (nonlinear_arith)
            requires row * g.row_height <= g.height;
        assert(g.height * g.width <= (g.width + 1) * (g.height + 1) * (g.pixel_size + 1)) by (nonlinear_arith);
        assert(g.width <= (g.width + 1) * (g.height + 1) * (g.pixel_size + 1)) by (nonlinear_arith);
        assert(g.width + g.height * g.width <= (g.width + 1) * (g.height + 1)) by (nonlinear_arith);
        assert((g.width + 1) * (g.height + 1) <= (g.width + 1) * (g.height + 1) * (g.pixel_size + 1)) by (nonlinear_arith);
    }
    let x = column * g.column_width;
    let y = row * g.row_height;
    (x + y * g.width) * g.pixel_size
}

/// The image bytes after `clear_image_range` wrote `n` times: write `p` (for
/// `p` from 0 to `n - 1`) puts the four bytes of `pixel_color` (blue, green,
/// red, alpha) at bytes `p` to `p + 3`, so each write but the last keeps
/// only its first byte.
pub open spec fn cleared_byte(old_byte: u8, k: int, n: int, pixel_color: [u8; 4]) -> u8 {
    if n == 0 || k >= n + 3 {
        old_byte
    } else if k < n {
        pixel_color[2]
    } else if k == n {
        pixel_color[1]
    } else if k == n + 1 {
        pixel_color[0]
    } else {
        pixel_color[3]
    }
}

/// Clears the cells from `from` to `to` (one row down, clamped to the grid)
/// with `pixel_color` (given as blue, green, red, alpha bytes): the number
/// of pixels is counted from the offset of `from` to that of `to` and one
/// pixel more, and pixel `p` is written at byte `p` of the image data, over
/// the bytes of the pixel before it (see `cleared_byte`).
pub fn clear_image_range(g: GridLayout, from: TablePos, to: TablePos, pixel_color: [u8; 4], data: &mut Vec<u8>)
    requires
        clear_defined(g, from, to, old(data)@.len()),
    ensures
        ({
            let (a, b) = clear_bounds(g, from, to);
            let n = (b - a) / 4;
            &&& final(data)@.len() == old(data)@.len()
            &&& forall|k: int| 0 <= k < old(data)@.len() ==> #[trigger] final(data)@[k] == cleared_byte(old(data)@[k], k, n as int, pixel_color)
        }),
{
    let mut from = from;
    let mut to = to;
    from.row = from.row + 1;
    to.row = to.row + 1;
    let max_column = g.width / g.column_width;
    let max_row = g.height / g.row_height;
    from.clamp(max_column, max_row);
    to.clamp(max_column, max_row);
    let pixel_offset_from = offset_of(g, from.column, from.row);
    let pixel_offset_to = offset_of(g, to.column, to.row) + 4;
    let range = (pixel_offset_to - pixel_offset_from) / 4;
    let ghost old_data = data@;
    let mut pixel_offset: usize = 0;
    while pixel_offset < range
        invariant
            range > 0 ==> range + 3 <= data@.len(),
            data@.len() == old_data.len(),
            pixel_offset <= range,
            forall|k: int| 0 <= k < data@.len() ==> #[trigger] data@[k] == cleared_byte(old_data[k], k, pixel_offset as int, pixel_color),
        decreases range - pixel_offset,
    {
        data.set(pixel_offset, pixel_color[2]);
        data.set(pixel_offset + 1, pixel_color[1]);
        data.set(pixel_offset + 2, pixel_color[0]);
        data.set(pixel_offset + 3, pixel_color[3]);
        pixel_offset = pixel_offset + 1;
    }
}

} // verus!
