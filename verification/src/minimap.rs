//! The minimap: the document drawn small beside the editor. Its text is
//! split into rows of colored words; a scroll animation row is handed over
//! once; a viewport shows which rows are in view.

use vstd::prelude::*;

use vstd::string::StringSliceAdditionalSpecFns;
use vstd::utf8::{encode_utf8, is_char_boundary};

use crate::strings::{decimal, decimal_len, push_char, push_decimal};
use crate::surface::{DisplayColor, EntityId};

verus! {

/// The color a word has before it gets one: pink (red 1.0, green 0.08,
/// blue 0.58, alpha 1.0).
pub open spec fn pink_spec() -> DisplayColor {
    DisplayColor { r: 0x3F80_0000, g: 0x3DA3_D70A, b: 0x3F14_7AE1, a: 0x3F80_0000 }
}

/// Pink; see `pink_spec`.
pub fn pink() -> (c: DisplayColor)
    ensures
        c == pink_spec(),
{
    DisplayColor { r: 0x3F80_0000, g: 0x3DA3_D70A, b: 0x3F14_7AE1, a: 0x3F80_0000 }
}

/// Text of one color.
pub struct ColoredString {
    pub text: String,
    pub color: DisplayColor,
}

/// A word as its text and color.
pub type WordView = (Seq<char>, DisplayColor);

/// A row as its words and its length in columns.
pub type RowView = (Seq<WordView>, nat);

/// The text and color of `w`.
pub open spec fn word_view(w: ColoredString) -> WordView {
    (w.text@, w.color)
}

/// The words and length of `r`.
pub open spec fn row_view(r: ColoredStringRow) -> RowView {
    (r.words@.map_values(|w: ColoredString| word_view(w)), r.length as nat)
}

/// The words and lengths of `rows`.
pub open spec fn rows_view(rows: Seq<ColoredStringRow>) -> Seq<RowView> {
    rows.map_values(|r: ColoredStringRow| row_view(r))
}

/// An empty pink word.
pub open spec fn empty_word() -> WordView {
    (Seq::empty(), pink_spec())
}

impl ColoredString {
    /// An empty pink word.
    pub fn new() -> (s: Self)
        ensures
            word_view(s) == empty_word(),
    {
        ColoredString { text: String::new(), color: pink() }
    }

    /// Makes the word empty and pink.
    pub fn clear(&mut self)
        ensures
            word_view(*final(self)) == empty_word(),
    {
        self.text = String::new();
        self.color = pink();
    }
}

/// A row of the minimap: its words, and its length in columns.
pub struct ColoredStringRow {
    pub words: Vec<ColoredString>,
    pub length: usize,
}

impl ColoredStringRow {
    /// An empty row.
    pub fn new() -> (r: Self)
        ensures
            row_view(r) == (Seq::<WordView>::empty(), 0nat),
    {
        let r = ColoredStringRow { words: Vec::new(), length: 0 };
        proof {
            assert(row_view(r).0 =~= Seq::<WordView>::empty());
        }
        r
    }

    /// Makes the row empty.
    pub fn clear(&mut self)
        ensures
            row_view(*final(self)) == (Seq::<WordView>::empty(), 0nat),
    {
        self.words.clear();
        self.length = 0;
        proof {
            assert(row_view(*self).0 =~= Seq::<WordView>::empty());
        }
    }
}

/// A grapheme of the document as the minimap draws it: a line ending, a
/// tab, a space, or visible text of some width in columns.
pub enum MinimapGrapheme {
    LineEnding,
    Tab,
    Space,
    Visible { text: String, width: usize },
}

/// A grapheme with the color of its syntax highlight.
pub struct MinimapGlyph {
    pub grapheme: MinimapGrapheme,
    pub color: DisplayColor,
}

/// The state while rows are built: the finished rows, the words of the
/// current row, the current word, and the current column.
pub type RowsState = (Seq<RowView>, Seq<WordView>, WordView, nat);

/// `n` spaces.
pub open spec fn spaces(n: nat) -> Seq<char> {
    Seq::new(n, |i: int| ' ')
}

/// The columns a tab at `column` takes: up to the next tab stop.
pub open spec fn tab_length(column: nat, tab_size: nat) -> nat {
    (tab_size - column % tab_size) as nat
}

/// The state after one glyph. A line ending finishes the row (with the
/// current word); a tab adds spaces up to the next tab stop and a space one
/// space, both to the current word; visible text starts a new word when its
/// color differs from that of a non-empty current word, and is added to it.
pub open spec fn rows_step(st: RowsState, g: MinimapGlyph, tab_size: nat) -> RowsState {
    let (rows, words, word, column) = st;
    match g.grapheme {
        MinimapGrapheme::LineEnding => (rows.push((words.push(word), column)), Seq::empty(), empty_word(), 0),
        MinimapGrapheme::Tab => {
            let len = tab_length(column, tab_size);
            (rows, words, (word.0 + spaces(len), word.1), column + len)
        },
        MinimapGrapheme::Space => (rows, words, (word.0.push(' '), word.1), column + 1),
        MinimapGrapheme::Visible { text, width } => {
            let split = word.1 != g.color && word.0.len() > 0;
            let words2 = if split { words.push(word) } else { words };
            let word2 = if split { empty_word() } else { word };
            let color = if word2.0.len() == 0 { g.color } else { word2.1 };
            (rows, words2, (word2.0 + text@, color), column + width as nat)
        },
    }
}

/// The state after the glyphs `gs`.
pub open spec fn rows_state(gs: Seq<MinimapGlyph>, tab_size: nat) -> RowsState
    decreases gs.len(),
{
    if gs.len() == 0 {
        (Seq::empty(), Seq::empty(), empty_word(), 0)
    } else {
        rows_step(rows_state(gs.drop_last(), tab_size), gs.last(), tab_size)
    }
}

/// The most columns a glyph can take.
pub open spec fn glyph_columns(g: MinimapGlyph, tab_size: nat) -> nat {
    match g.grapheme {
        MinimapGrapheme::LineEnding => 0,
        MinimapGrapheme::Tab => tab_size,
        MinimapGrapheme::Space => 1,
        MinimapGrapheme::Visible { width, .. } => width as nat,
    }
}

/// The most columns the glyphs `gs` can take in all.
pub open spec fn total_columns(gs: Seq<MinimapGlyph>, tab_size: nat) -> nat
    decreases gs.len(),
{
    if gs.len() == 0 {
        0
    } else {
        total_columns(gs.drop_last(), tab_size) + glyph_columns(gs.last(), tab_size)
    }
}

proof fn lemma_column_bound(gs: Seq<MinimapGlyph>, tab_size: nat)
    requires
        tab_size > 0,
    ensures
        rows_state(gs, tab_size).3 <= total_columns(gs, tab_size),
        forall|i: int| 0 <= i < rows_state(gs, tab_size).0.len() ==> (#[trigger] rows_state(gs, tab_size).0[i]).1
            <= total_columns(gs, tab_size),
    decreases gs.len(),
{
    if gs.len() > 0 {
        lemma_column_bound(gs.drop_last(), tab_size);
        let prev = rows_state(gs.drop_last(), tab_size);
        assert(tab_length(prev.3, tab_size) <= tab_size) by (nonlinear_arith)
            requires tab_size > 0;
    }
}

proof fn lemma_total_columns_prefix(gs: Seq<MinimapGlyph>, i: int, tab_size: nat)
    requires
        0 <= i <= gs.len(),
    ensures
        total_columns(gs.take(i), tab_size) <= total_columns(gs, tab_size),
    decreases gs.len() - i,
{
    if i < gs.len() {
        lemma_total_columns_prefix(gs, i + 1, tab_size);
        assert(gs.take(i + 1).drop_last() =~= gs.take(i));
    } else {
        assert(gs.take(i) =~= gs);
    }
}

/// Appends `n` spaces to `s`.
fn push_spaces(s: &mut String, n: usize)
    ensures
        final(s)@ == old(s)@ + spaces(n as nat),
{
    let mut k: usize = 0;
    while k < n
        invariant
            k <= n,
            s@ == old(s)@ + spaces(k as nat),
        decreases n - k,
    {
        push_char(s, ' ');
        proof {
            assert(old(s)@ + spaces((k + 1) as nat) =~= (old(s)@ + spaces(k as nat)).push(' '));
        }
        k = k + 1;
    }
}

/// Appends the text `t` to `s`, character by character.
fn push_text(s: &mut String, t: &String)
    ensures
        final(s)@ == old(s)@ + t@,
{
    crate::strings::push_str(s, t.as_str());
}

fn copy_string(s: &String) -> (r: String)
    ensures
        r@ == s@,
{
    s.as_str().to_string()
}

/// The rows of the minimap for the glyphs of a document, with tabs `tab_size`
/// columns apart; see `rows_step`. Only rows finished by a line ending are
/// returned.
pub fn build_colored_rows(glyphs: &Vec<MinimapGlyph>, tab_size: usize) -> (rows: Vec<ColoredStringRow>)
    requires
        tab_size > 0,
        total_columns(glyphs@, tab_size as nat) <= usize::MAX,
    ensures
        rows_view(rows@) == rows_state(glyphs@, tab_size as nat).0,
{
    let mut column: usize = 0;
    let mut word = ColoredString::new();
    let mut colored_string = ColoredStringRow::new();
    let mut colored_rows: Vec<ColoredStringRow> = Vec::new();
    let n = glyphs.len();
    let mut i: usize = 0;
    proof {
        assert(rows_view(colored_rows@) =~= Seq::<RowView>::empty());
        assert(glyphs@.take(0) =~= Seq::<MinimapGlyph>::empty());
    }
    while i < n
        invariant
            n == glyphs@.len(),
            i <= n,
            tab_size > 0,
            total_columns(glyphs@, tab_size as nat) <= usize::MAX,
            ({
                let st = rows_state(glyphs@.take(i as int), tab_size as nat);
                &&& rows_view(colored_rows@) == st.0
                &&& row_view(colored_string).0 == st.1
                &&& word_view(word) == st.2
                &&& column == st.3
            }),
        decreases n - i,
    {
        let glyph = &glyphs[i];
        proof {
            assert(glyphs@.take(i + 1).drop_last() =~= glyphs@.take(i as int));
            assert(glyphs@.take(i + 1).last() == glyphs@[i as int]);
            lemma_column_bound(glyphs@.take(i + 1), tab_size as nat);
            lemma_total_columns_prefix(glyphs@, i + 1, tab_size as nat);
            let prev = rows_state(glyphs@.take(i as int), tab_size as nat);
            assert(rows_state(glyphs@.take(i + 1), tab_size as nat) == rows_step(prev, glyphs@[i as int], tab_size as nat));
        }
        let ghost words_before = row_view(colored_string).0;
        let ghost rows_before = rows_view(colored_rows@);
        match &glyph.grapheme {
            MinimapGrapheme::LineEnding => {
                let w = ColoredString { text: copy_string(&word.text), color: word.color };
                colored_string.words.push(w);
                colored_string.length = column;
                let finished = ColoredStringRow { words: colored_string.words, length: colored_string.length };
                colored_rows.push(finished);
                colored_string = ColoredStringRow::new();
                word.clear();
                column = 0;
                proof {
                    assert(row_view(finished).0 =~= words_before.push(word_view(w)));
                    assert(rows_view(colored_rows@) =~= rows_before.push(row_view(finished)));
                }
            },
            MinimapGrapheme::Tab => {
                let length = tab_size - (column % tab_size);
                push_spaces(&mut word.text, length);
                column = column + length;
            },
            MinimapGrapheme::Space => {
                push_char(&mut word.text, ' ');
                column = column + 1;
            },
            MinimapGrapheme::Visible { text, width } => {
                let color = glyph.color;
                if word.color != color && !word.text.as_str().is_empty() {
                    let w = ColoredString { text: copy_string(&word.text), color: word.color };
                    colored_string.words.push(w);
                    word.clear();
                    proof {
                        assert(row_view(colored_string).0 =~= words_before.push(word_view(w)));
                    }
                }
                if word.text.as_str().is_empty() {
                    word.color = color;
                }
                push_text(&mut word.text, text);
                column = column + *width;
            },
        }
        i = i + 1;
    }
    proof {
        assert(glyphs@.take(n as int) =~= glyphs@);
    }
    colored_rows
}

/// The row the minimap scrolls to, and whether it changed since it was last
/// taken.
pub struct MinimapScrollAnimation {
    row: usize,
    row_changed: bool,
}

impl MinimapScrollAnimation {
    /// The row to scroll to.
    pub closed spec fn row(&self) -> usize {
        self.row
    }

    /// Whether the row changed since it was last taken.
    pub closed spec fn row_changed(&self) -> bool {
        self.row_changed
    }

    /// Row 0, unchanged.
    pub fn new() -> (a: Self)
        ensures
            a.row() == 0,
            !a.row_changed(),
    {
        MinimapScrollAnimation { row: 0, row_changed: false }
    }

    /// Sets the row to scroll to.
    pub fn set_row(&mut self, new_row: usize)
        ensures
            final(self).row() == new_row,
            final(self).row_changed(),
    {
        self.row = new_row;
        self.row_changed = true;
    }

    /// The row to scroll to, leaving it to be taken.
    pub fn row_read_only(&self) -> (r: usize)
        ensures
            r == self.row(),
    {
        self.row
    }

    /// Takes the row when it changed since it was last taken.
    pub fn row_read_to_apply(&mut self) -> (r: Option<usize>)
        ensures
            r == if old(self).row_changed() { Some(old(self).row()) } else { None },
            final(self).row() == old(self).row(),
            !final(self).row_changed(),
    {
        if self.row_changed {
            self.row_changed = false;
            Some(self.row)
        } else {
            None
        }
    }
}

impl Default for MinimapScrollAnimation {
    fn default() -> (a: Self)
        ensures
            a.row() == 0,
            !a.row_changed(),
    {
        MinimapScrollAnimation::new()
    }
}

/// The state of the minimap viewport that the logic reads (its size and
/// transparency are the drawing's): hovered or pressed, the row it shows,
/// the row where a drag started, and the minimap it belongs to.
pub struct MinimapViewport {
    pub hovered: bool,
    pub pressed: bool,
    pub current_row: usize,
    pub last_hovered_row: Option<usize>,
    pub minimap_entity: EntityId,
}

impl MinimapViewport {
    /// The viewport is being dragged while a drag row is set.
    pub fn dragging_active(&self) -> (r: bool)
        ensures
            r == self.last_hovered_row is Some,
    {
        self.last_hovered_row.is_some()
    }
}

/// What the pointer is over: the minimap viewport, the minimap outside its
/// viewport, or neither.
#[derive(Clone, Copy, PartialEq, Eq, Debug, Structural)]
pub enum MinimapHover {
    Viewport,
    Minimap,
    Elsewhere,
}

/// The three transparencies of the viewport: at rest, hovered and pressed.
#[derive(Clone, Copy, PartialEq, Eq, Debug, Structural)]
pub enum ViewportAlpha {
    Rest,
    Hovered,
    Pressed,
}

/// A frame rate that the pointer asks for.
#[derive(Clone, Copy, PartialEq, Eq, Debug, Structural)]
pub enum FramerateWish {
    NoWish,
    Smooth,
    Active,
}

/// What the minimap's pointer handling reads in one frame. `pointer_busy`
/// holds when the pointer moved or a mouse button is down; `minimap_row` is
/// the minimap row under the pointer; `half_visible_rows` is half the rows
/// the editor shows.
#[derive(Clone, Copy, PartialEq, Eq, Debug, Structural)]
pub struct MinimapPointerInput {
    pub hover: MinimapHover,
    pub left_pressed: bool,
    pub left_just_pressed: bool,
    pub ctrl_just_pressed: bool,
    pub ctrl_just_released: bool,
    pub pointer_busy: bool,
    pub minimap_row: usize,
    pub row_offset: usize,
    pub half_visible_rows: usize,
}

/// What the minimap's pointer handling asks for in one frame: a new editor
/// row offset (dragging the viewport), a scroll to a row (a click on the
/// minimap, which also shows a click point), a fade of the viewport between
/// two transparencies, the start (`Some(true)`) or end (`Some(false)`) of a
/// drag, a frame rate, switching the scaled mode on or off, and the row
/// whose preview to show (`None`: no preview).
#[derive(Clone, Copy, PartialEq, Eq, Debug)]
pub struct MinimapPointerAction {
    pub row_offset: Option<usize>,
    pub scroll_to_row: Option<usize>,
    pub click_point: bool,
    pub fade: Option<(ViewportAlpha, ViewportAlpha)>,
    pub drag: Option<bool>,
    pub framerate: FramerateWish,
    pub scaled_mode: Option<bool>,
    pub preview_row: Option<usize>,
}

/// The editor row offset after dragging the viewport from minimap row
/// `last_row` to `minimap_row`: moved by as many rows, and not below 0.
pub open spec fn dragged_offset(row_offset: usize, minimap_row: usize, last_row: usize) -> usize {
    let r = row_offset + minimap_row - last_row;
    if r < 0 { 0 } else { r as usize }
}

/// The viewport's transparency while it is hovered or pressed.
pub open spec fn lit_alpha(pressed: bool) -> ViewportAlpha {
    if pressed { ViewportAlpha::Pressed } else { ViewportAlpha::Hovered }
}

/// The viewport's state and the action after one frame of pointer handling,
/// from the viewport's `hovered`, `pressed` and drag row. When the pointer is
/// on the minimap or elsewhere and no drag is on, a hovered viewport fades
/// back to rest. On the viewport, or while dragging: with the left button
/// down the drag goes on (moving the editor by the rows the pointer moved
/// since the last frame) and the viewport is pressed; else the drag ends and
/// the viewport is hovered. A click on the minimap outside the viewport
/// scrolls the hovered row to the middle of the editor. Control switches the
/// scaled mode on (over the minimap) or off; a preview of the hovered row
/// shows over the minimap when no drag is on and the scaled mode did not
/// switch.
pub open spec fn pointer_step(hovered: bool, pressed: bool, last: Option<usize>, i: MinimapPointerInput) -> (
    bool,
    bool,
    Option<usize>,
    MinimapPointerAction,
) {
    let dragging = last is Some;
    let restores = !(i.hover is Viewport) && hovered && !dragging;
    let restore_fade = if restores { Some((lit_alpha(pressed), ViewportAlpha::Rest)) } else { None };
    let allowed = i.hover is Minimap || i.hover is Viewport;
    let scaled = if i.ctrl_just_pressed && allowed {
        Some(true)
    } else if i.ctrl_just_released {
        Some(false)
    } else {
        None
    };
    let preview = |new_last: Option<usize>|
        if i.hover is Minimap && new_last is None && scaled is None { Some(i.minimap_row) } else { None };
    let busy = |w: FramerateWish| if i.pointer_busy { w } else { FramerateWish::NoWish };
    if i.hover is Viewport || dragging {
        if i.left_pressed {
            let new_last = Some(i.minimap_row);
            (hovered, true, new_last, MinimapPointerAction {
                row_offset: match last {
                    Some(l) => Some(dragged_offset(i.row_offset, i.minimap_row, l)),
                    None => None,
                },
                scroll_to_row: None,
                click_point: false,
                fade: if !pressed { Some((ViewportAlpha::Hovered, ViewportAlpha::Pressed)) } else { None },
                drag: Some(true),
                framerate: busy(FramerateWish::Smooth),
                scaled_mode: scaled,
                preview_row: preview(new_last),
            })
        } else {
            let relights = !hovered || pressed;
            (if relights { true } else { hovered }, if relights { false } else { pressed }, None,
                MinimapPointerAction {
                row_offset: None,
                scroll_to_row: None,
                click_point: false,
                fade: if relights {
                    Some((if pressed { ViewportAlpha::Pressed } else { ViewportAlpha::Rest }, ViewportAlpha::Hovered))
                } else {
                    None
                },
                drag: Some(false),
                framerate: busy(FramerateWish::Active),
                scaled_mode: scaled,
                preview_row: preview(None),
            })
        }
    } else {
        let clicked = i.hover is Minimap && i.left_just_pressed;
        (if restores { false } else { hovered }, pressed, last, MinimapPointerAction {
            row_offset: None,
            scroll_to_row: if clicked {
                Some(if i.minimap_row >= i.half_visible_rows { (i.minimap_row - i.half_visible_rows) as usize } else { 0 })
            } else {
                None
            },
            click_point: clicked,
            fade: restore_fade,
            drag: None,
            framerate: if i.hover is Minimap {
                busy(if clicked { FramerateWish::Smooth } else { FramerateWish::Active })
            } else {
                FramerateWish::NoWish
            },
            scaled_mode: scaled,
            preview_row: preview(last),
        })
    }
}

impl MinimapViewport {
    /// One frame of the minimap's pointer handling; see `pointer_step`. The
    /// row numbers fit in an `i32`, as the drag arithmetic is done in one.
    pub fn pointer_step(&mut self, input: &MinimapPointerInput) -> (action: MinimapPointerAction)
        requires
            input.minimap_row <= i32::MAX,
            input.row_offset <= i32::MAX,
            old(self).last_hovered_row matches Some(l) ==> l <= i32::MAX,
        ensures
            ({
                let (h, p, l, a) = pointer_step(old(self).hovered, old(self).pressed, old(self).last_hovered_row, *input);
                &&& final(self).hovered == h
                &&& final(self).pressed == p
                &&& final(self).last_hovered_row == l
                &&& action == a
            }),
            final(self).current_row == old(self).current_row,
            final(self).minimap_entity == old(self).minimap_entity,
    {
        let dragging = self.last_hovered_row.is_some();
        let is_viewport = match input.hover {
            MinimapHover::Viewport => true,
            _ => false,
        };
        let is_minimap = match input.hover {
            MinimapHover::Minimap => true,
            _ => false,
        };
        let scaled_mode = if input.ctrl_just_pressed && (is_minimap || is_viewport) {
            Some(true)
        } else if input.ctrl_just_released {
            Some(false)
        } else {
            None
        };
        let mut action = MinimapPointerAction {
            row_offset: None,
            scroll_to_row: None,
            click_point: false,
            fade: None,
            drag: None,
            framerate: FramerateWish::NoWish,
            scaled_mode,
            preview_row: None,
        };
        if is_viewport || dragging {
            if input.left_pressed {
                if let Some(last_row) = self.last_hovered_row {
                    let diff: i64 = input.minimap_row as i64 - last_row as i64;
                    let moved: i64 = input.row_offset as i64 + diff;
                    let new_row: usize = if moved < 0 { 0 } else { moved as usize };
                    action.row_offset = Some(new_row);
                }
                self.last_hovered_row = Some(input.minimap_row);
                action.drag = Some(true);
                if !self.pressed {
                    action.fade = Some((ViewportAlpha::Hovered, ViewportAlpha::Pressed));
                    self.pressed = true;
                }
                if input.pointer_busy {
                    action.framerate = FramerateWish::Smooth;
                }
            } else {
                self.last_hovered_row = None;
                action.drag = Some(false);
                if !self.hovered || self.pressed {
                    let alpha_from = if self.pressed { ViewportAlpha::Pressed } else { ViewportAlpha::Rest };
                    action.fade = Some((alpha_from, ViewportAlpha::Hovered));
                    self.hovered = true;
                    self.pressed = false;
                }
                if input.pointer_busy {
                    action.framerate = FramerateWish::Active;
                }
            }
        } else {
            if self.hovered {
                let alpha_from = if self.pressed { ViewportAlpha::Pressed } else { ViewportAlpha::Hovered };
                action.fade = Some((alpha_from, ViewportAlpha::Rest));
                self.hovered = false;
            }
            if is_minimap {
                if input.left_just_pressed {
                    let scroll_to = if input.minimap_row >= input.half_visible_rows {
                        input.minimap_row - input.half_visible_rows
                    } else {
                        0
                    };
                    action.scroll_to_row = Some(scroll_to);
                    action.click_point = true;
                    if input.pointer_busy {
                        action.framerate = FramerateWish::Smooth;
                    }
                } else if input.pointer_busy {
                    action.framerate = FramerateWish::Active;
                }
            }
        }
        if is_minimap && self.last_hovered_row.is_none() && scaled_mode.is_none() {
            action.preview_row = Some(input.minimap_row);
        }
        action
    }
}

/// Dragging the viewport from one minimap row to another and back, with the
/// button held, puts the editor back on the row offset it started from
/// (when the first move does not reach past the top).
pub proof fn lemma_drag_there_and_back(
    hovered: bool,
    pressed: bool,
    from_row: usize,
    to_row: usize,
    first: MinimapPointerInput,
    second: MinimapPointerInput,
)
    requires
        first.left_pressed,
        second.left_pressed,
        first.minimap_row == to_row,
        second.minimap_row == from_row,
        0 <= first.row_offset + to_row - from_row <= usize::MAX,
        pointer_step(hovered, pressed, Some(from_row), first).3.row_offset matches Some(r) && second.row_offset
            == r,
    ensures
        ({
            let (h1, p1, l1, a1) = pointer_step(hovered, pressed, Some(from_row), first);
            let (h2, p2, l2, a2) = pointer_step(h1, p1, l1, second);
            &&& l1 == Some(to_row)
            &&& l2 == Some(from_row)
            &&& a2.row_offset == Some(first.row_offset)
            &&& p1 && p2
        }),
{
    let r = dragged_offset(first.row_offset, to_row, from_row);
    assert(r == first.row_offset + to_row - from_row);
    assert(dragged_offset(r, from_row, to_row) == first.row_offset);
}

/// The number of line endings among `gs`.
pub open spec fn line_endings(gs: Seq<MinimapGlyph>) -> nat
    decreases gs.len(),
{
    if gs.len() == 0 {
        0
    } else {
        line_endings(gs.drop_last()) + if gs.last().grapheme is LineEnding { 1nat } else { 0nat }
    }
}

/// The minimap has one row per line ending of the document, and the words of
/// a row hold all its text: no word but the last of a row is empty.
pub proof fn lemma_rows_per_line_ending(gs: Seq<MinimapGlyph>, tab_size: nat)
    ensures
        rows_state(gs, tab_size).0.len() == line_endings(gs),
        forall|i: int| 0 <= i < rows_state(gs, tab_size).1.len() ==> (#[trigger] rows_state(gs, tab_size).1[i]).0.len() > 0,
    decreases gs.len(),
{
    if gs.len() > 0 {
        lemma_rows_per_line_ending(gs.drop_last(), tab_size);
    }
}

/// The length in milliseconds of the minimap's scroll from row `start_row`
/// to `end_row`: one and a half milliseconds per row, at least 200 and at
/// most 500.
pub fn scroll_duration_ms(start_row: usize, end_row: usize) -> (r: u64)
    requires
        start_row <= i32::MAX,
        end_row <= i32::MAX,
    ensures
        ({
            let d = if end_row >= start_row { end_row - start_row } else { start_row - end_row };
            let t = (3 * d) / 2;
            r == if t < 200 { 200 } else if t > 500 { 500 } else { t }
        }),
{
    let d: u64 = if end_row >= start_row { (end_row - start_row) as u64 } else { (start_row - end_row) as u64 };
    let t = (3 * d) / 2;
    if t < 200 {
        200
    } else if t > 500 {
        500
    } else {
        t
    }
}

/// A document symbol as the language server lists it: its kind (the
/// protocol's number) and the lines it starts and ends on.
#[derive(Clone, Copy, PartialEq, Eq, Debug, Structural)]
pub struct DocumentSymbol {
    pub kind: i32,
    pub start_line: u32,
    pub end_line: u32,
}

/// Protocol symbol kinds the minimap tells apart.
pub const SYMBOL_CLASS: i32 = 5;
pub const SYMBOL_FIELD: i32 = 8;
pub const SYMBOL_ENUM: i32 = 10;
pub const SYMBOL_INTERFACE: i32 = 11;
pub const SYMBOL_FUNCTION: i32 = 12;
pub const SYMBOL_CONSTANT: i32 = 14;
pub const SYMBOL_OBJECT: i32 = 19;
pub const SYMBOL_ENUM_MEMBER: i32 = 22;
pub const SYMBOL_STRUCT: i32 = 23;
pub const SYMBOL_TYPE_PARAMETER: i32 = 26;

/// The color of a bookmark: the theme's function color, or a fixed color.
#[derive(Clone, Copy, PartialEq, Eq, Debug, Structural)]
pub enum BookmarkColor {
    Function,
    Gold,
    Turquoise,
    AliceBlue,
}

/// A bookmark to draw beside the minimap: the symbol it marks (by index),
/// the row it stands on, and its color.
#[derive(Clone, Copy, PartialEq, Eq, Debug, Structural)]
pub struct BookmarkPlan {
    pub symbol: usize,
    pub row: u64,
    pub color: BookmarkColor,
}

/// The color of the bookmark of a symbol of `kind`.
pub open spec fn bookmark_color(kind: i32) -> BookmarkColor {
    if kind == SYMBOL_FUNCTION {
        BookmarkColor::Function
    } else if kind == SYMBOL_CLASS || kind == SYMBOL_INTERFACE || kind == SYMBOL_STRUCT {
        BookmarkColor::Gold
    } else if kind == SYMBOL_CONSTANT || kind == SYMBOL_ENUM {
        BookmarkColor::Turquoise
    } else {
        BookmarkColor::AliceBlue
    }
}

/// Whether symbols of `kind` get no bookmark: fields, objects, type
/// parameters and enum members.
pub open spec fn cluttering_kind(kind: i32) -> bool {
    kind == SYMBOL_FIELD || kind == SYMBOL_OBJECT || kind == SYMBOL_TYPE_PARAMETER || kind == SYMBOL_ENUM_MEMBER
}

/// The bookmarks for the first `n` symbols, and the end line of the last
/// symbol considered: a constant that starts inside the previous symbol is
/// passed over (its end line is not taken); every other symbol's end line is
/// taken, and it gets a bookmark unless its kind clutters.
pub open spec fn bookmarks_upto(symbols: Seq<DocumentSymbol>, n: int) -> (Seq<BookmarkPlan>, u32)
    decreases n,
{
    if n <= 0 {
        (Seq::empty(), 0)
    } else {
        let (plans, last_end) = bookmarks_upto(symbols, n - 1);
        let s = symbols[n - 1];
        if s.kind == SYMBOL_CONSTANT && s.start_line < last_end {
            (plans, last_end)
        } else if cluttering_kind(s.kind) {
            (plans, s.end_line)
        } else {
            (plans.push(BookmarkPlan { symbol: (n - 1) as usize, row: (s.start_line + 1) as u64, color: bookmark_color(s.kind) }),
                s.end_line)
        }
    }
}

/// Symbol `i` starts on or after the last line of every symbol before it.
pub open spec fn starts_after_earlier(symbols: Seq<DocumentSymbol>, i: int) -> bool {
    forall|j: int| 0 <= j < i ==> (#[trigger] symbols[j]).end_line <= symbols[i].start_line
}

proof fn lemma_bookmarks_upto_shape(symbols: Seq<DocumentSymbol>, n: int)
    requires
        0 <= n <= symbols.len() <= usize::MAX,
    ensures
        ({
            let plans = bookmarks_upto(symbols, n).0;
            &&& forall|k: int| 0 <= k < plans.len() ==> {
                let p = #[trigger] plans[k];
                let kind = symbols[p.symbol as int].kind;
                &&& p.symbol < n
                &&& kind != 8i32 && kind != 19i32 && kind != 26i32 && kind != 22i32
                &&& p.row == symbols[p.symbol as int].start_line + 1
                &&& p.color == if kind == 12i32 {
                    BookmarkColor::Function
                } else if kind == 5i32 || kind == 11i32 || kind == 23i32 {
                    BookmarkColor::Gold
                } else if kind == 14i32 || kind == 10i32 {
                    BookmarkColor::Turquoise
                } else {
                    BookmarkColor::AliceBlue
                }
            }
            &&& forall|k: int, j: int| 0 <= k < j < plans.len() ==> (#[trigger] plans[k]).symbol < (#[trigger] plans[j]).symbol
        }),
    decreases n,
{
    if n > 0 {
        lemma_bookmarks_upto_shape(symbols, n - 1);
        let (prev, last_end) = bookmarks_upto(symbols, n - 1);
        let plans = bookmarks_upto(symbols, n).0;
        let s = symbols[n - 1];
        if !(s.kind == SYMBOL_CONSTANT && s.start_line < last_end) && !cluttering_kind(s.kind) {
            let b = BookmarkPlan { symbol: (n - 1) as usize, row: (s.start_line + 1) as u64, color: bookmark_color(s.kind) };
            assert(plans == prev.push(b));
            assert(plans[plans.len() - 1] == b);
            assert forall|k: int| 0 <= k < plans.len() - 1 implies #[trigger] plans[k] == prev[k] by {}
        } else {
            assert(plans == prev);
        }
    }
}

proof fn lemma_bookmarks_last_end(symbols: Seq<DocumentSymbol>, n: int)
    requires
        0 <= n <= symbols.len(),
    ensures
        bookmarks_upto(symbols, n).1 == 0 || exists|j: int| 0 <= j < n && bookmarks_upto(symbols, n).1 == (#[trigger] symbols[j]).end_line,
    decreases n,
{
    if n > 0 {
        lemma_bookmarks_last_end(symbols, n - 1);
        let last_end = bookmarks_upto(symbols, n - 1).1;
        let s = symbols[n - 1];
        if !(s.kind == SYMBOL_CONSTANT && s.start_line < last_end) {
            assert(bookmarks_upto(symbols, n).1 == symbols[n - 1].end_line);
        } else if last_end != 0 {
            let j = choose|j: int| 0 <= j < n - 1 && last_end == (#[trigger] symbols[j]).end_line;
            assert(bookmarks_upto(symbols, n).1 == symbols[j].end_line);
        }
    }
}

proof fn lemma_bookmarks_upto_cover(symbols: Seq<DocumentSymbol>, n: int)
    requires
        0 <= n <= symbols.len() <= usize::MAX,
    ensures
        ({
            let plans = bookmarks_upto(symbols, n).0;
            forall|i: int| 0 <= i < n && (#[trigger] symbols[i]).kind != 8i32 && symbols[i].kind != 19i32 && symbols[i].kind != 26i32
                && symbols[i].kind != 22i32 && (symbols[i].kind != 14i32 || starts_after_earlier(symbols, i))
                ==> exists|k: int| 0 <= k < plans.len() && (#[trigger] plans[k]).symbol == i
        }),
    decreases n,
{
    if n > 0 {
        lemma_bookmarks_upto_cover(symbols, n - 1);
        lemma_bookmarks_last_end(symbols, n - 1);
        let (prev, last_end) = bookmarks_upto(symbols, n - 1);
        let plans = bookmarks_upto(symbols, n).0;
        let s = symbols[n - 1];
        let b = BookmarkPlan { symbol: (n - 1) as usize, row: (s.start_line + 1) as u64, color: bookmark_color(s.kind) };
        assert(plans == prev || plans == prev.push(b));
        assert forall|i: int| 0 <= i < n && (#[trigger] symbols[i]).kind != 8i32 && symbols[i].kind != 19i32 && symbols[i].kind != 26i32
            && symbols[i].kind != 22i32 && (symbols[i].kind != 14i32 || starts_after_earlier(symbols, i))
            implies exists|k: int| 0 <= k < plans.len() && (#[trigger] plans[k]).symbol == i by {
            if i < n - 1 {
                assert(exists|k: int| 0 <= k < prev.len() && (#[trigger] prev[k]).symbol == i);
                let k = choose|k: int| 0 <= k < prev.len() && (#[trigger] prev[k]).symbol == i;
                assert(plans[k] == prev[k]);
            } else {
                if s.kind == SYMBOL_CONSTANT && last_end != 0 {
                    let j = choose|j: int| 0 <= j < n - 1 && last_end == (#[trigger] symbols[j]).end_line;
                    assert(symbols[j].end_line <= symbols[i].start_line);
                }
                assert(!(s.kind == SYMBOL_CONSTANT && s.start_line < last_end));
                assert(!cluttering_kind(s.kind));
                assert(plans == prev.push(b));
                assert(plans[plans.len() - 1].symbol == i);
            }
        }
    }
}

/// No symbol of a cluttering kind gets a bookmark: for every planned bookmark
/// of a document's symbols (as many as a `Vec` holds), the symbol it marks is
/// one of them and is neither a field (8), an object (19), a type parameter
/// (26) nor an enum member (22); the bookmark stands on the row below the
/// symbol's first line, in the color of its kind (functions (12) the theme's
/// function color, classes (5), interfaces (11) and structs (23) gold,
/// constants (14) and enums (10) turquoise, the rest alice blue). The
/// bookmarks come in the order of the symbols; every symbol of another kind
/// that is not a constant gets one, and so does a constant that starts on or
/// after the last line of every symbol before it.
pub proof fn lemma_bookmarks_skip_clutter(symbols: Seq<DocumentSymbol>)
    requires
        symbols.len() <= usize::MAX,
    ensures
        ({
            let plans = bookmarks_upto(symbols, symbols.len() as int).0;
            &&& forall|k: int| 0 <= k < plans.len() ==> {
                let p = #[trigger] plans[k];
                let kind = symbols[p.symbol as int].kind;
                &&& p.symbol < symbols.len()
                &&& kind != 8i32 && kind != 19i32 && kind != 26i32 && kind != 22i32
                &&& p.row == symbols[p.symbol as int].start_line + 1
                &&& p.color == if kind == 12i32 {
                    BookmarkColor::Function
                } else if kind == 5i32 || kind == 11i32 || kind == 23i32 {
                    BookmarkColor::Gold
                } else if kind == 14i32 || kind == 10i32 {
                    BookmarkColor::Turquoise
                } else {
                    BookmarkColor::AliceBlue
                }
            }
            &&& forall|k: int, j: int| 0 <= k < j < plans.len() ==> (#[trigger] plans[k]).symbol < (#[trigger] plans[j]).symbol
            &&& forall|i: int| 0 <= i < symbols.len() && (#[trigger] symbols[i]).kind != 8i32 && symbols[i].kind != 19i32
                && symbols[i].kind != 26i32 && symbols[i].kind != 22i32
                && (symbols[i].kind != 14i32 || starts_after_earlier(symbols, i))
                ==> exists|k: int| 0 <= k < plans.len() && (#[trigger] plans[k]).symbol == i
        }),
{
    lemma_bookmarks_upto_shape(symbols, symbols.len() as int);
    lemma_bookmarks_upto_cover(symbols, symbols.len() as int);
}

/// The bookmarks of the minimap for the symbols of a document; see
/// `bookmarks_upto`.
pub fn plan_bookmarks(symbols: &Vec<DocumentSymbol>) -> (r: Vec<BookmarkPlan>)
    ensures
        r@ == bookmarks_upto(symbols@, symbols@.len() as int).0,
{
    let mut plans: Vec<BookmarkPlan> = Vec::new();
    let mut last_end_line: u32 = 0;
    let mut i: usize = 0;
    while i < symbols.len()
        invariant
            i <= symbols@.len(),
            (plans@, last_end_line) == bookmarks_upto(symbols@, i as int),
        decreases symbols@.len() - i,
    {
        let symbol = symbols[i];
        if symbol.kind == SYMBOL_CONSTANT && symbol.start_line < last_end_line {
            i = i + 1;
            continue;
        }
        last_end_line = symbol.end_line;
        let clutter = symbol.kind == SYMBOL_FIELD || symbol.kind == SYMBOL_OBJECT || symbol.kind == SYMBOL_TYPE_PARAMETER
            || symbol.kind == SYMBOL_ENUM_MEMBER;
        if !clutter {
            let color = if symbol.kind == SYMBOL_FUNCTION {
                BookmarkColor::Function
            } else if symbol.kind == SYMBOL_CLASS || symbol.kind == SYMBOL_INTERFACE || symbol.kind == SYMBOL_STRUCT {
                BookmarkColor::Gold
            } else if symbol.kind == SYMBOL_CONSTANT || symbol.kind == SYMBOL_ENUM {
                BookmarkColor::Turquoise
            } else {
                BookmarkColor::AliceBlue
            };
            plans.push(BookmarkPlan { symbol: i, row: symbol.start_line as u64 + 1, color });
        }
        i = i + 1;
    }
    plans
}

/// A hunk of the document's diff against its base: the lines it covers
/// before and after the change.
#[derive(Clone, Copy, PartialEq, Eq, Debug, Structural)]
pub struct Hunk {
    pub before_start: u32,
    pub before_end: u32,
    pub after_start: u32,
    pub after_end: u32,
}

/// What a hunk does: adds lines (nothing was there before), removes lines
/// (nothing is there after), or modifies them.
#[derive(Clone, Copy, PartialEq, Eq, Debug, Structural)]
pub enum HunkKind {
    Added,
    Deleted,
    Modified,
}

/// A mark of the diff gutter: how many rows it spans, the row at its middle,
/// and what the hunk does.
#[derive(Clone, Copy, PartialEq, Eq, Debug, Structural)]
pub struct HunkMark {
    pub rows: u32,
    pub row: u64,
    pub kind: HunkKind,
}

/// The gutter mark of `h`.
pub open spec fn hunk_mark(h: Hunk) -> HunkMark {
    HunkMark {
        rows: (h.after_end - h.after_start) as u32,
        row: ((h.after_start + h.after_end) / 2 + 1) as u64,
        kind: if h.before_start >= h.before_end {
            HunkKind::Added
        } else if h.after_start >= h.after_end {
            HunkKind::Deleted
        } else {
            HunkKind::Modified
        },
    }
}

/// The marks of the diff gutter, one per hunk in order; see `hunk_mark`.
pub fn diff_gutter_marks(hunks: &Vec<Hunk>) -> (r: Vec<HunkMark>)
    requires
        forall|i: int| 0 <= i < hunks@.len() ==> (#[trigger] hunks@[i]).after_start <= hunks@[i].after_end,
    ensures
        r@.len() == hunks@.len(),
        forall|i: int| 0 <= i < hunks@.len() ==> #[trigger] r@[i] == hunk_mark(hunks@[i]),
{
    let mut marks: Vec<HunkMark> = Vec::new();
    let mut i: usize = 0;
    while i < hunks.len()
        invariant
            i <= hunks@.len(),
            forall|k: int| 0 <= k < hunks@.len() ==> (#[trigger] hunks@[k]).after_start <= hunks@[k].after_end,
            marks@.len() == i,
            forall|k: int| 0 <= k < i ==> #[trigger] marks@[k] == hunk_mark(hunks@[k]),
        decreases hunks@.len() - i,
    {
        let hunk = hunks[i];
        let kind = if hunk.before_start >= hunk.before_end {
            HunkKind::Added
        } else if hunk.after_start >= hunk.after_end {
            HunkKind::Deleted
        } else {
            HunkKind::Modified
        };
        let row = (hunk.after_start as u64 + hunk.after_end as u64) / 2 + 1;
        marks.push(HunkMark { rows: hunk.after_end - hunk.after_start, row, kind });
        i = i + 1;
    }
    marks
}

/// A word as the bytes of its text, and its color.
pub type CutWord = (Seq<u8>, DisplayColor);

/// The bytes and color of `w`.
pub open spec fn word_bytes(w: WordView) -> CutWord {
    (encode_utf8(w.0), w.1)
}

/// The bytes and colors of the words of `r`.
pub open spec fn row_bytes(r: ColoredStringRow) -> Seq<CutWord> {
    r.words@.map_values(|w: ColoredString| word_bytes(word_view(w)))
}

/// How many bytes of a word of `word_len` bytes are kept when it is the
/// first not to fit after `len` bytes in a row of at most `max`: the row is
/// left one byte short of `max`.
pub open spec fn cut_len(len: nat, word_len: nat, max: nat) -> nat {
    let over = len + word_len - max + 1;
    if word_len > over { (word_len - over) as nat } else { 0 }
}

/// Cutting the first `n` words of a row to `max` bytes: the words kept, the
/// bytes they hold, and whether the cut has happened. Words are kept whole
/// while the row stays under `max`; the first that does not is cut to what
/// leaves the row one byte short of `max` (or dropped when nothing of it
/// would be left), and no word after it is kept.
pub open spec fn cut_state(words: Seq<WordView>, max: nat, n: int) -> (Seq<CutWord>, nat, bool)
    decreases n,
{
    if n <= 0 {
        (Seq::empty(), 0, false)
    } else {
        let (kept, len, stopped) = cut_state(words, max, n - 1);
        let b = encode_utf8(words[n - 1].0);
        if stopped {
            (kept, len, stopped)
        } else if len + b.len() < max {
            (kept.push((b, words[n - 1].1)), len + b.len(), false)
        } else {
            let k = cut_len(len, b.len(), max);
            if k == 0 {
                (kept, len, true)
            } else {
                (kept.push((b.subrange(0, k as int), words[n - 1].1)), len + k, true)
            }
        }
    }
}

/// Each cut of the first `n` words falls between two characters.
pub open spec fn cut_valid(words: Seq<WordView>, max: nat, n: int) -> bool
    decreases n,
{
    if n <= 0 {
        true
    } else {
        &&& cut_valid(words, max, n - 1)
        &&& {
            let (kept, len, stopped) = cut_state(words, max, n - 1);
            let b = encode_utf8(words[n - 1].0);
            (!stopped && len + b.len() >= max && cut_len(len, b.len(), max) > 0) ==> is_char_boundary(
                b,
                cut_len(len, b.len(), max) as int,
            )
        }
    }
}

/// The total bytes of the words.
pub open spec fn total_bytes(words: Seq<WordView>) -> nat
    decreases words.len(),
{
    if words.len() == 0 {
        0
    } else {
        total_bytes(words.drop_last()) + encode_utf8(words.last().0).len()
    }
}

proof fn lemma_cut_len_bound(words: Seq<WordView>, max: nat, n: int)
    requires
        0 <= n <= words.len(),
    ensures
        cut_state(words, max, n).1 <= total_bytes(words.take(n)),
    decreases n,
{
    if n > 0 {
        lemma_cut_len_bound(words, max, n - 1);
        assert(words.take(n).drop_last() =~= words.take(n - 1));
    }
}

proof fn lemma_total_bytes_prefix(words: Seq<WordView>, n: int)
    requires
        0 <= n <= words.len(),
    ensures
        total_bytes(words.take(n)) <= total_bytes(words),
    decreases words.len() - n,
{
    if n < words.len() {
        lemma_total_bytes_prefix(words, n + 1);
        assert(words.take(n + 1).drop_last() =~= words.take(n));
    } else {
        assert(words.take(n) =~= words);
    }
}

/// The row cut to fit `max` columns, counted in bytes: a row no longer than
/// `max` is kept as it is; a longer one keeps its words as `cut_state`
/// says, and its length is the bytes kept.
pub fn cut_colored_row(row: &ColoredStringRow, max: usize) -> (r: ColoredStringRow)
    requires
        row.length > max ==> cut_valid(row_view(*row).0, max as nat, row.words@.len() as int),
        row.length > max ==> total_bytes(row_view(*row).0) < usize::MAX,
    ensures
        row.length <= max ==> row_view(r) == row_view(*row),
        row.length > max ==> {
            let (kept, len, _) = cut_state(row_view(*row).0, max as nat, row.words@.len() as int);
            &&& row_bytes(r) == kept
            &&& r.length == len
        },
{
    let ghost words = row_view(*row).0;
    let mut out = ColoredStringRow { words: Vec::new(), length: 0 };
    proof {
        assert(row_bytes(out) =~= Seq::<CutWord>::empty());
    }
    let n = row.words.len();
    if row.length <= max {
        let mut i: usize = 0;
        while i < n
            invariant
                n == row.words@.len(),
                i <= n,
                out.length == 0,
                out.words@.len() == i,
                forall|k: int| 0 <= k < i ==> word_view(#[trigger] out.words@[k]) == word_view(row.words@[k]),
            decreases n - i,
        {
            let w = &row.words[i];
            out.words.push(ColoredString { text: w.text.clone(), color: w.color });
            i = i + 1;
        }
        out.length = row.length;
        proof {
            assert(row_view(out).0 =~= row_view(*row).0);
        }
        return out;
    }
    let mut stopped = false;
    let mut i: usize = 0;
    while i < n
        invariant_except_break
            !stopped,
            (row_bytes(out), out.length as nat, stopped) == cut_state(words, max as nat, i as int),
        invariant
            n == row.words@.len(),
            words == row_view(*row).0,
            i <= n,
            cut_valid(words, max as nat, n as int),
            total_bytes(words) < usize::MAX,
        ensures
            (row_bytes(out), out.length as nat, stopped) == cut_state(words, max as nat, n as int),
        decreases n - i,
    {
        proof {
            lemma_cut_len_bound(words, max as nat, i as int);
            lemma_total_bytes_prefix(words, i + 1);
            assert(words.take(i + 1).drop_last() =~= words.take(i as int));
            assert(words[i as int] == word_view(row.words@[i as int]));
            lemma_cut_prefix_valid(words, max as nat, i + 1, n as int);
        }
        let w = &row.words[i];
        let word_len = w.text.as_str().len();
        let new_line_len = out.length + word_len;
        if new_line_len < max {
            out.words.push(ColoredString { text: w.text.clone(), color: w.color });
            out.length = new_line_len;
            proof {
                assert(row_bytes(out) =~= cut_state(words, max as nat, i as int).0.push(word_bytes(words[i as int])));
            }
            i = i + 1;
        } else {
            let over = new_line_len - max + 1;
            let shortened_len = if word_len > over { word_len - over } else { 0 };
            if shortened_len == 0 {
                stopped = true;
                proof {
                    lemma_cut_stays(words, max as nat, i + 1, n as int);
                }
                break;
            }
            let (head, _) = w.text.as_str().split_at(shortened_len);
            out.words.push(ColoredString { text: head.to_owned(), color: w.color });
            out.length = out.length + shortened_len;
            stopped = true;
            proof {
                assert(row_bytes(out) =~= cut_state(words, max as nat, i as int).0.push(
                    (encode_utf8(words[i as int].0).subrange(0, shortened_len as int), words[i as int].1)));
                lemma_cut_stays(words, max as nat, i + 1, n as int);
            }
            break;
        }
    }
    out
}

proof fn lemma_cut_prefix_valid(words: Seq<WordView>, max: nat, m: int, n: int)
    requires
        0 <= m <= n,
        cut_valid(words, max, n),
    ensures
        cut_valid(words, max, m),
    decreases n - m,
{
    if m < n {
        lemma_cut_prefix_valid(words, max, m, n - 1);
    }
}

proof fn lemma_cut_stays(words: Seq<WordView>, max: nat, m: int, n: int)
    requires
        0 <= m <= n,
        cut_state(words, max, m).2,
    ensures
        cut_state(words, max, n) == cut_state(words, max, m),
    decreases n - m,
{
    if m < n {
        lemma_cut_stays(words, max, m, n - 1);
    }
}

/// How many lines the preview of the minimap shows, and how many columns
/// each line may take.
pub const PREVIEW_LINES: usize = 5;
pub const PREVIEW_LINE_LEN: usize = 55;

/// The number shown before line `num` of a document of `rows_total` rows:
/// right-aligned with spaces to as many digits as `rows_total` has, then a
/// space.
pub open spec fn line_number_text(num: nat, rows_total: nat) -> Seq<char> {
    let d = decimal(num);
    let w = decimal(rows_total).len();
    Seq::new(if d.len() < w { (w - d.len()) as nat } else { 0 }, |i: int| ' ') + d + seq![' ']
}

/// The lines the preview shows around line `hovered`: from two lines above
/// it (or the first) up to five lines on, but not to the last line of the
/// document (the range is exclusive of its end).
pub open spec fn preview_range(hovered: nat, rows_total: nat) -> (nat, nat) {
    let first = if hovered >= PREVIEW_LINES / 2 { (hovered - PREVIEW_LINES / 2) as nat } else { 0 };
    let end = if first + PREVIEW_LINES < rows_total - 1 { (first + PREVIEW_LINES) as nat } else { (rows_total - 1) as nat };
    (first, end)
}

/// Row `r` with its line number in front, in `color`; its length grows by
/// the bytes of the number.
pub open spec fn numbered_row(r: RowView, num: nat, rows_total: nat, color: DisplayColor) -> RowView {
    let t = line_number_text(num, rows_total);
    (seq![(t, color)] + r.0, encode_utf8(t).len() + r.1)
}

/// Whether a numbered row can be shown: its length fits, and when it must be
/// cut the cut falls between characters and its bytes fit.
pub open spec fn preview_row_defined(r: RowView) -> bool {
    &&& r.1 <= usize::MAX
    &&& r.1 > PREVIEW_LINE_LEN ==> cut_valid(r.0, PREVIEW_LINE_LEN as nat, r.0.len() as int) && total_bytes(r.0)
        < usize::MAX
}

/// Whether `out` is the preview line for the numbered row `r`: `r` itself,
/// or `r` cut to `PREVIEW_LINE_LEN` bytes when longer.
pub open spec fn preview_line(r: RowView, out: ColoredStringRow) -> bool {
    if r.1 > PREVIEW_LINE_LEN {
        let (kept, len, _) = cut_state(r.0, PREVIEW_LINE_LEN as nat, r.0.len() as int);
        row_bytes(out) == kept && out.length == len
    } else {
        row_view(out) == r
    }
}

/// The preview of the minimap around line `hovered`: nothing (`None`) when
/// that line's preview is the one shown already; else, for each line of
/// `preview_range`, its number and the line with its number in front (in
/// `line_number_color`), cut to fit.
pub fn preview_rows(rows: &Vec<ColoredStringRow>, hovered: usize, shown: Option<usize>, line_number_color: DisplayColor) -> (r: Option<Vec<(usize, ColoredStringRow)>>)
    requires
        hovered < rows@.len(),
        hovered + PREVIEW_LINES <= usize::MAX,
        forall|num: int| preview_range(hovered as nat, rows@.len()).0 <= num < preview_range(hovered as nat, rows@.len()).1
            ==> preview_row_defined(numbered_row(row_view(#[trigger] rows@[num]), num as nat, rows@.len(), line_number_color)),
    ensures
        shown == Some(hovered) ==> r is None,
        shown != Some(hovered) ==> (r matches Some(lines) && {
            let (first, end) = preview_range(hovered as nat, rows@.len());
            &&& lines@.len() == end - first
            &&& forall|k: int| 0 <= k < lines@.len() ==> {
                &&& (#[trigger] lines@[k]).0 == first + k
                &&& preview_line(numbered_row(row_view(rows@[first + k]), (first + k) as nat, rows@.len(), line_number_color), lines@[k].1)
            }
        }),
{
    if shown == Some(hovered) {
        return None;
    }
    let rows_total = rows.len();
    let first = if hovered >= PREVIEW_LINES / 2 { hovered - PREVIEW_LINES / 2 } else { 0 };
    let end = if first + PREVIEW_LINES < rows_total - 1 { first + PREVIEW_LINES } else { rows_total - 1 };
    let width = decimal_len(rows_total as u64);
    let mut lines: Vec<(usize, ColoredStringRow)> = Vec::new();
    let mut num: usize = first;
    while num < end
        invariant
            rows_total == rows@.len(),
            hovered < rows_total,
            (first as nat, end as nat) == preview_range(hovered as nat, rows@.len()),
            width == decimal(rows_total as nat).len(),
            first <= num,
            num <= end || end < first,
            forall|n: int| first <= n < end ==> preview_row_defined(numbered_row(row_view(#[trigger] rows@[n]), n as nat, rows@.len(), line_number_color)),
            lines@.len() == num - first,
            forall|k: int| 0 <= k < lines@.len() ==> {
                &&& (#[trigger] lines@[k]).0 == first + k
                &&& preview_line(numbered_row(row_view(rows@[first + k]), (first + k) as nat, rows@.len(), line_number_color), lines@[k].1)
            },
        decreases end - num,
    {
        let row = &rows[num];
        let mut text = String::new();
        let digits = decimal_len(num as u64);
        let mut pad: usize = digits;
        while pad < width
            invariant
                digits == decimal(num as nat).len(),
                digits <= pad,
                pad <= width || pad == digits,
                text@ == Seq::new((pad - digits) as nat, |i: int| ' '),
            decreases width - pad,
        {
            push_char(&mut text, ' ');
            pad = pad + 1;
            proof {
                assert(text@ =~= Seq::new((pad - digits) as nat, |i: int| ' '));
            }
        }
        push_decimal(&mut text, num as u64);
        push_char(&mut text, ' ');
        proof {
            assert(text@ =~= line_number_text(num as nat, rows_total as nat));
        }
        let ghost numbered = numbered_row(row_view(*row), num as nat, rows@.len(), line_number_color);
        let text_len = text.as_str().len();
        let mut words: Vec<ColoredString> = Vec::new();
        words.push(ColoredString { text, color: line_number_color });
        let n = row.words.len();
        let mut i: usize = 0;
        while i < n
            invariant
                n == row.words@.len(),
                i <= n,
                words@.len() == i + 1,
                word_view(words@[0]) == (line_number_text(num as nat, rows_total as nat), line_number_color),
                forall|k: int| 0 <= k < i ==> word_view(#[trigger] words@[k + 1]) == word_view(row.words@[k]),
            decreases n - i,
        {
            let w = &row.words[i];
            let ghost prev = words@;
            words.push(ColoredString { text: w.text.clone(), color: w.color });
            i = i + 1;
            proof {
                assert forall|k: int| 0 <= k < i implies word_view(#[trigger] words@[k + 1]) == word_view(row.words@[k]) by {
                    if k < i - 1 {
                        assert(words@[k + 1] == prev[k + 1]);
                    }
                }
            }
        }
        proof {
            assert(preview_row_defined(numbered));
        }
        let numbered_line = ColoredStringRow { words, length: text_len + row.length };
        proof {
            assert(row_view(numbered_line).0 =~= numbered.0) by {
                assert forall|k: int| 0 <= k < numbered.0.len() implies #[trigger] row_view(numbered_line).0[k] == numbered.0[k] by {
                    if k > 0 {
                        assert(word_view(numbered_line.words@[(k - 1) + 1]) == word_view(row.words@[k - 1]));
                    }
                }
            }
            assert(row_view(numbered_line) == numbered);
        }
        let cut = cut_colored_row(&numbered_line, PREVIEW_LINE_LEN);
        lines.push((num, cut));
        num = num + 1;
    }
    Some(lines)
}

/// A cut row fits: the bytes it keeps stay under the limit, and they are
/// no more than the row had.
pub proof fn lemma_cut_row_fits(words: Seq<WordView>, max: nat, n: int)
    requires
        max > 0,
        0 <= n <= words.len(),
    ensures
        cut_state(words, max, n).1 < max,
        cut_state(words, max, n).1 <= total_bytes(words.take(n)),
    decreases n,
{
    lemma_cut_len_bound(words, max, n);
    if n > 0 {
        lemma_cut_row_fits(words, max, n - 1);
    }
}

} // verus!
