//! Splitting a row of cells into words, and keeping a cached row of words in
//! sync with a newly built one.

use vstd::prelude::*;
use vstd::string::StringExecFns;

use crate::glyph_class::GlyphClass;
use super::{Cell, DespawnResource, DisplayColor, EntityId, SpawnGroups, SurfaceCoords};
use super::spawn_queue::{add_all_to_groups, add_to_groups};
use super::text::{all_numeric, all_punctuation, is_numeric_str, is_punctuation_str, is_space_str, is_space_symbol};

verus! {

/// A word of a surface row: a run of cells drawn as one mesh.
#[derive(Debug)]
pub struct WordDescription {
    pub string: String,
    pub color: DisplayColor,
    pub row: usize,
    pub column: usize,
    pub word_index: usize,
    pub cached_row_index: usize,
    pub entity: Option<EntityId>,
    pub mesh_entity: Option<EntityId>,
    pub surface_name: String,
    pub is_on_editor: bool,
    pub is_punctuation: bool,
    pub is_numeric: bool,
    pub is_highlighted: bool,
}

impl WordDescription {
    /// An equal copy.
    pub fn copy_of(&self) -> (r: Self)
        ensures
            r == *self,
    {
        WordDescription {
            string: self.string.clone(),
            color: self.color,
            row: self.row,
            column: self.column,
            word_index: self.word_index,
            cached_row_index: self.cached_row_index,
            entity: self.entity,
            mesh_entity: self.mesh_entity,
            surface_name: self.surface_name.clone(),
            is_on_editor: self.is_on_editor,
            is_punctuation: self.is_punctuation,
            is_numeric: self.is_numeric,
            is_highlighted: self.is_highlighted,
        }
    }
}

/// The words of one row.
impl Default for WordDescription {
    /// An empty cyan word at row and column 0, not spawned, on no surface.
    fn default() -> (w: Self)
        ensures
            w.string@ == Seq::<char>::empty(),
            w.color == (DisplayColor { r: 0, g: 0x3F80_0000, b: 0x3F80_0000, a: 0x3F80_0000 }),
            w.row == 0 && w.column == 0 && w.word_index == 0 && w.cached_row_index == 0,
            w.entity is None && w.mesh_entity is None,
            w.surface_name@ == Seq::<char>::empty(),
            !w.is_on_editor && !w.is_punctuation && !w.is_numeric && !w.is_highlighted,
    {
        WordDescription {
            string: String::new(),
            color: DisplayColor { r: 0, g: 0x3F80_0000, b: 0x3F80_0000, a: 0x3F80_0000 },
            row: 0,
            column: 0,
            word_index: 0,
            cached_row_index: 0,
            entity: None,
            mesh_entity: None,
            surface_name: String::new(),
            is_on_editor: false,
            is_punctuation: false,
            is_numeric: false,
            is_highlighted: false,
        }
    }
}

pub type WordRow = Vec<WordDescription>;

/// Words waiting to be spawned, per surface.
pub type WordsToSpawn = SpawnGroups<WordDescription>;

/// State of a row while its cells are being split into words.
#[derive(Debug)]
pub struct RowState {
    pub word_started: bool,
    pub ended: bool,
    /// Font of the first glyph of the word being collected.
    pub word_font: Option<GlyphClass>,
}

impl RowState {
    /// No word started.
    pub fn new() -> (r: Self)
        ensures
            !r.word_started,
            !r.ended,
            r.word_font is None,
    {
        RowState { word_started: false, ended: false, word_font: None }
    }
}

/// `a` and `b` agree on every field but the string.
pub open spec fn same_but_string(a: WordDescription, b: WordDescription) -> bool {
    &&& a.color == b.color
    &&& a.row == b.row
    &&& a.column == b.column
    &&& a.word_index == b.word_index
    &&& a.cached_row_index == b.cached_row_index
    &&& a.entity == b.entity
    &&& a.mesh_entity == b.mesh_entity
    &&& a.surface_name == b.surface_name
    &&& a.is_on_editor == b.is_on_editor
    &&& a.is_punctuation == b.is_punctuation
    &&& a.is_numeric == b.is_numeric
    &&& a.is_highlighted == b.is_highlighted
}

/// The word being collected ends before `cell`: the cell is a space, or it
/// differs from the word in color, font, emoji-ness, punctuation, or it
/// breaks a number.
pub open spec fn word_ends(word: WordDescription, word_font: GlyphClass, cell: Cell, class: GlyphClass) -> bool {
    ||| is_space_symbol(cell.symbol@)
    ||| word.color != cell.fg
    ||| word_font.font_path@ != class.font_path@
    ||| class.is_emoji
    ||| all_punctuation(cell.symbol@) != word.is_punctuation
    ||| (!all_numeric(cell.symbol@) && word.is_numeric)
}

/// `cell` extends the last word of `row`.
pub open spec fn continues_word(row: Seq<WordDescription>, state: RowState, cell: Cell, class: GlyphClass) -> bool {
    &&& state.word_started
    &&& state.word_font is Some
    &&& !word_ends(row.last(), state.word_font->0, cell, class)
}

/// `cell` starts a new word.
pub open spec fn starts_word(row: Seq<WordDescription>, state: RowState, cell: Cell, class: GlyphClass) -> bool {
    !is_space_symbol(cell.symbol@) && !continues_word(row, state, cell, class)
}

/// `w` is the word started by `cell` at `coords`, as word number `index` of its row.
pub open spec fn new_word_from(
    w: WordDescription,
    surface_name: Seq<char>,
    surface_is_editor: bool,
    coords: SurfaceCoords,
    cell: Cell,
    index: int,
) -> bool {
    &&& w.string@ == cell.symbol@
    &&& w.color == cell.fg
    &&& w.row == coords.row_global()
    &&& w.column == coords.column
    &&& w.word_index == index
    &&& w.cached_row_index == coords.row_wcache()
    &&& w.entity is None
    &&& w.mesh_entity is None
    &&& w.surface_name@ == surface_name
    &&& w.is_on_editor == surface_is_editor
    &&& w.is_punctuation == all_punctuation(cell.symbol@)
    &&& w.is_numeric == all_numeric(cell.symbol@)
    &&& !w.is_highlighted
}

/// Adds one cell to the row of words being built: it extends the last word,
/// starts a new one, or (a space) only ends the last word. Every emoji is a
/// word of its own. `class` tells which font draws the cell's symbol.
pub fn append_symbol(
    surface_name: &String,
    surface_is_editor: bool,
    surface_coords: &SurfaceCoords,
    cell: &Cell,
    class: &GlyphClass,
    new_row: &mut WordRow,
    new_row_state: &mut RowState,
)
    requires
        old(new_row_state).word_started ==> old(new_row)@.len() > 0,
        surface_coords.scroll_offset >= 0,
        surface_coords.cache_offset >= 0,
        surface_coords.row_global() <= usize::MAX,
        surface_coords.row_wcache() <= usize::MAX,
    ensures
        continues_word(old(new_row)@, *old(new_row_state), *cell, *class) ==> {
            &&& final(new_row)@.len() == old(new_row)@.len()
            &&& final(new_row)@.drop_last() == old(new_row)@.drop_last()
            &&& final(new_row)@.last().string@ == old(new_row)@.last().string@ + cell.symbol@
            &&& same_but_string(final(new_row)@.last(), old(new_row)@.last())
        },
        starts_word(old(new_row)@, *old(new_row_state), *cell, *class) ==> {
            &&& final(new_row)@.len() == old(new_row)@.len() + 1
            &&& final(new_row)@.drop_last() == old(new_row)@
            &&& new_word_from(final(new_row)@.last(), surface_name@, surface_is_editor, *surface_coords, *cell, old(new_row)@.len() as int)
        },
        !continues_word(old(new_row)@, *old(new_row_state), *cell, *class)
            && !starts_word(old(new_row)@, *old(new_row_state), *cell, *class) ==> final(new_row)@ == old(new_row)@,
        final(new_row_state).word_started == ((continues_word(old(new_row)@, *old(new_row_state), *cell, *class)
            || starts_word(old(new_row)@, *old(new_row_state), *cell, *class)) && !class.is_emoji),
        final(new_row_state).word_font == if starts_word(old(new_row)@, *old(new_row_state), *cell, *class) {
            Some(*class)
        } else {
            old(new_row_state).word_font
        },
        final(new_row_state).ended == old(new_row_state).ended,
{
    let ghost row0 = new_row@;
    let ghost state0 = *new_row_state;
    let symbol_color = cell.fg;
    let is_space = is_space_str(cell.symbol.as_str());
    let is_punctuation = is_punctuation_str(cell.symbol.as_str());
    let is_numeric = is_numeric_str(cell.symbol.as_str());

    if new_row_state.word_started {
        let different_font = match &new_row_state.word_font {
            Some(first) => first.font_path != class.font_path,
            None => true,
        };
        let mut word = new_row.pop().unwrap();
        let different_color = word.color != symbol_color;
        let is_emoji = class.is_emoji;
        let separate_punctuation = (is_punctuation && !word.is_punctuation) || (!is_punctuation && word.is_punctuation);
        let separate_numeric = !is_numeric && word.is_numeric;
        let word_ended = is_space || different_color || different_font || is_emoji || separate_punctuation || separate_numeric;
        if !word_ended {
            word.string.append(cell.symbol.as_str());
        } else {
            new_row_state.word_started = false;
        }
        new_row.push(word);
        proof {
            assert(new_row@.drop_last() =~= row0.drop_last());
            if !word_ended {
                assert(continues_word(row0, state0, *cell, *class));
            } else {
                assert(!continues_word(row0, state0, *cell, *class));
                assert(new_row@ =~= row0);
            }
        }
    }

    if !is_space && !new_row_state.word_started {
        new_row_state.word_started = true;
        let new_word = WordDescription {
            string: cell.symbol.clone(),
            color: symbol_color,
            row: surface_coords.row_index_global(),
            column: surface_coords.column,
            word_index: new_row.len(),
            cached_row_index: surface_coords.row_index_wcache(),
            entity: None,
            mesh_entity: None,
            surface_name: surface_name.clone(),
            is_on_editor: surface_is_editor,
            is_punctuation,
            is_numeric,
            is_highlighted: false,
        };
        new_row.push(new_word);
        new_row_state.word_font = Some(class.copy_of());
        assert(new_row@.drop_last() =~= row0);
    }

    if class.is_emoji {
        new_row_state.word_started = false;
    }
}

/// The insert-mode overlay on the status line's first word: in insert mode
/// the word "INS" lights up (`Some(true)`: give it the glowing material),
/// out of it a lit word other than "INS" goes back to its color
/// (`Some(false)`); otherwise nothing changes (`None`). The word's
/// `is_highlighted` follows.
pub fn insert_mode_highlight(insert_mode: bool, first_word: &mut WordDescription) -> (r: Option<bool>)
    ensures
        r == if insert_mode {
            if old(first_word).string@ == "INS"@ && !old(first_word).is_highlighted { Some(true) } else { None }
        } else if old(first_word).string@ != "INS"@ && old(first_word).is_highlighted {
            Some(false)
        } else {
            None
        },
        *final(first_word) == (WordDescription {
            is_highlighted: match r { Some(h) => h, None => old(first_word).is_highlighted },
            ..*old(first_word)
        }),
{
    let ins = <String as StringExecFns>::from_str("INS");
    let is_ins = first_word.string == ins;
    if insert_mode {
        if is_ins && !first_word.is_highlighted {
            first_word.is_highlighted = true;
            return Some(true);
        }
    } else if !is_ins && first_word.is_highlighted {
        first_word.is_highlighted = false;
        return Some(false);
    }
    None
}

/// A word as the segmentation of a row sees it.
pub struct WordSpan {
    pub text: Seq<char>,
    pub color: DisplayColor,
    pub column: int,
    pub font: Seq<char>,
    pub is_punctuation: bool,
    pub is_numeric: bool,
}

/// The words of a row so far, and whether the last one is still open.
pub struct WordSegmentation {
    pub spans: Seq<WordSpan>,
    pub started: bool,
}

/// The open word `span` ends before a cell of symbol `sym` and color `fg`
/// drawn with `class`.
pub open spec fn span_ends(span: WordSpan, sym: Seq<char>, fg: DisplayColor, class: GlyphClass) -> bool {
    ||| is_space_symbol(sym)
    ||| span.color != fg
    ||| span.font != class.font_path@
    ||| class.is_emoji
    ||| all_punctuation(sym) != span.is_punctuation
    ||| (!all_numeric(sym) && span.is_numeric)
}

/// One step of word segmentation: the cell at `column` extends the open word,
/// starts a new word, or only closes the open one.
pub open spec fn segment_step(st: WordSegmentation, sym: Seq<char>, fg: DisplayColor, class: GlyphClass, column: int) -> WordSegmentation {
    let cont = st.started && !span_ends(st.spans.last(), sym, fg, class);
    let spans1 = if cont {
        st.spans.update(st.spans.len() - 1, WordSpan { text: st.spans.last().text + sym, ..st.spans.last() })
    } else {
        st.spans
    };
    let starts = !is_space_symbol(sym) && !cont;
    let spans2 = if starts {
        spans1.push(WordSpan {
            text: sym,
            color: fg,
            column,
            font: class.font_path@,
            is_punctuation: all_punctuation(sym),
            is_numeric: all_numeric(sym),
        })
    } else {
        spans1
    };
    WordSegmentation { spans: spans2, started: (cont || starts) && !class.is_emoji }
}

/// Word segmentation of the first `n` cells of a row.
pub open spec fn segment_words(cells: Seq<Cell>, classes: Seq<GlyphClass>, n: int) -> WordSegmentation
    decreases n,
{
    if n <= 0 {
        WordSegmentation { spans: Seq::empty(), started: false }
    } else {
        segment_step(segment_words(cells, classes, n - 1), cells[n - 1].symbol@, cells[n - 1].fg, classes[n - 1], n - 1)
    }
}

/// `w` is the word of `span`, word number `index` of a row.
pub open spec fn word_matches_span(
    w: WordDescription,
    span: WordSpan,
    index: int,
    surface_name: Seq<char>,
    surface_is_editor: bool,
    row_global: int,
    row_wcache: int,
) -> bool {
    &&& w.string@ == span.text
    &&& w.color == span.color
    &&& w.column == span.column
    &&& w.row == row_global
    &&& w.word_index == index
    &&& w.cached_row_index == row_wcache
    &&& w.entity is None
    &&& w.mesh_entity is None
    &&& w.surface_name@ == surface_name
    &&& w.is_on_editor == surface_is_editor
    &&& w.is_punctuation == span.is_punctuation
    &&& w.is_numeric == span.is_numeric
    &&& !w.is_highlighted
}

/// `row` holds exactly the words of `spans`.
pub open spec fn row_matches_spans(
    row: Seq<WordDescription>,
    spans: Seq<WordSpan>,
    surface_name: Seq<char>,
    surface_is_editor: bool,
    row_global: int,
    row_wcache: int,
) -> bool {
    &&& row.len() == spans.len()
    &&& forall|i: int| 0 <= i < row.len() ==> word_matches_span(#[trigger] row[i], spans[i], i, surface_name, surface_is_editor, row_global, row_wcache)
}

/// The row state agrees with the segmentation: the open word's font is recorded.
pub open spec fn state_matches(state: RowState, seg: WordSegmentation) -> bool {
    &&& state.word_started == seg.started
    &&& seg.started ==> seg.spans.len() > 0 && state.word_font is Some && state.word_font->0.font_path@ == seg.spans.last().font
}

/// Appending a cell moves a row that matches a segmentation to the row that
/// matches the next segmentation step.
pub proof fn lemma_append_symbol_step(
    row0: Seq<WordDescription>,
    state0: RowState,
    row1: Seq<WordDescription>,
    state1: RowState,
    seg: WordSegmentation,
    surface_name: Seq<char>,
    surface_is_editor: bool,
    coords: SurfaceCoords,
    cell: Cell,
    class: GlyphClass,
)
    requires
        row_matches_spans(row0, seg.spans, surface_name, surface_is_editor, coords.row_global(), coords.row_wcache()),
        state_matches(state0, seg),
        continues_word(row0, state0, cell, class) ==> {
            &&& row1.len() == row0.len()
            &&& row1.drop_last() == row0.drop_last()
            &&& row1.last().string@ == row0.last().string@ + cell.symbol@
            &&& same_but_string(row1.last(), row0.last())
        },
        starts_word(row0, state0, cell, class) ==> {
            &&& row1.len() == row0.len() + 1
            &&& row1.drop_last() == row0
            &&& new_word_from(row1.last(), surface_name, surface_is_editor, coords, cell, row0.len() as int)
        },
        !continues_word(row0, state0, cell, class) && !starts_word(row0, state0, cell, class) ==> row1 == row0,
        state1.word_started == ((continues_word(row0, state0, cell, class) || starts_word(row0, state0, cell, class)) && !class.is_emoji),
        state1.word_font == if starts_word(row0, state0, cell, class) { Some(class) } else { state0.word_font },
    ensures
        row_matches_spans(row1, segment_step(seg, cell.symbol@, cell.fg, class, coords.column as int).spans,
            surface_name, surface_is_editor, coords.row_global(), coords.row_wcache()),
        state_matches(state1, segment_step(seg, cell.symbol@, cell.fg, class, coords.column as int)),
{
    let next = segment_step(seg, cell.symbol@, cell.fg, class, coords.column as int);
    let cont = seg.started && !span_ends(seg.spans.last(), cell.symbol@, cell.fg, class);
    if seg.started {
        let k = row0.len() - 1;
        assert(word_matches_span(row0[k], seg.spans[k], k, surface_name, surface_is_editor, coords.row_global(), coords.row_wcache()));
        assert(cont == continues_word(row0, state0, cell, class));
    } else {
        assert(!continues_word(row0, state0, cell, class));
    }
    if cont {
        assert forall|i: int| 0 <= i < row1.len() implies word_matches_span(#[trigger] row1[i], next.spans[i], i,
            surface_name, surface_is_editor, coords.row_global(), coords.row_wcache()) by {
            if i < row1.len() - 1 {
                assert(row1[i] == row1.drop_last()[i]);
                assert(row0[i] == row0.drop_last()[i]);
            }
        }
    } else if starts_word(row0, state0, cell, class) {
        assert forall|i: int| 0 <= i < row1.len() implies word_matches_span(#[trigger] row1[i], next.spans[i], i,
            surface_name, surface_is_editor, coords.row_global(), coords.row_wcache()) by {
            if i < row1.len() - 1 {
                assert(row1[i] == row1.drop_last()[i]);
            }
        }
    }
}

/// The text of the first `n` cells without their spaces and tabs: their
/// symbols one after the other, spaces and tabs left out.
pub open spec fn visible_symbols(cells: Seq<Cell>, n: int) -> Seq<char>
    decreases n,
{
    if n <= 0 {
        Seq::empty()
    } else {
        visible_symbols(cells, n - 1) + if is_space_symbol(cells[n - 1].symbol@) {
            Seq::<char>::empty()
        } else {
            cells[n - 1].symbol@
        }
    }
}

/// The texts of the spans one after the other.
pub open spec fn spans_text(spans: Seq<WordSpan>) -> Seq<char>
    decreases spans.len(),
{
    if spans.len() == 0 {
        Seq::empty()
    } else {
        spans_text(spans.drop_last()) + spans.last().text
    }
}

/// The strings of the words of a row one after the other.
pub open spec fn row_text(row: Seq<WordDescription>) -> Seq<char>
    decreases row.len(),
{
    if row.len() == 0 {
        Seq::empty()
    } else {
        row_text(row.drop_last()) + row.last().string@
    }
}

/// The index of the word that cell `j` (not a space) went into: the last
/// word once the first `j + 1` cells are segmented.
pub open spec fn word_of_cell(cells: Seq<Cell>, classes: Seq<GlyphClass>, j: int) -> int {
    segment_words(cells, classes, j + 1).spans.len() - 1
}

proof fn lemma_segment_words_text(cells: Seq<Cell>, classes: Seq<GlyphClass>, n: int)
    requires
        0 <= n <= cells.len(),
        n <= classes.len(),
    ensures
        spans_text(segment_words(cells, classes, n).spans) == visible_symbols(cells, n),
        segment_words(cells, classes, n).started ==> segment_words(cells, classes, n).spans.len() > 0,
    decreases n,
{
    if n > 0 {
        lemma_segment_words_text(cells, classes, n - 1);
        let prev = segment_words(cells, classes, n - 1);
        let sym = cells[n - 1].symbol@;
        let class = classes[n - 1];
        let cont = prev.started && !span_ends(prev.spans.last(), sym, cells[n - 1].fg, class);
        let seg = segment_words(cells, classes, n);
        if cont {
            let last = prev.spans.last();
            let up = prev.spans.update(prev.spans.len() - 1, WordSpan { text: last.text + sym, ..last });
            assert(up.drop_last() =~= prev.spans.drop_last());
            assert(spans_text(prev.spans) == spans_text(prev.spans.drop_last()) + last.text);
            assert(spans_text(up) =~= spans_text(prev.spans) + sym);
        } else if !is_space_symbol(sym) {
            assert(seg.spans.drop_last() =~= prev.spans);
        } else {
            assert(seg.spans == prev.spans);
            assert(visible_symbols(cells, n) =~= visible_symbols(cells, n - 1));
        }
    }
}

proof fn lemma_segment_words_grows(cells: Seq<Cell>, classes: Seq<GlyphClass>, m: int, n: int)
    requires
        0 <= m <= n <= cells.len(),
        n <= classes.len(),
    ensures
        segment_words(cells, classes, m).spans.len() <= segment_words(cells, classes, n).spans.len(),
        forall|k: int| 0 <= k < segment_words(cells, classes, m).spans.len() ==> {
            &&& (#[trigger] segment_words(cells, classes, n).spans[k]).color == segment_words(cells, classes, m).spans[k].color
            &&& segment_words(cells, classes, n).spans[k].column == segment_words(cells, classes, m).spans[k].column
            &&& segment_words(cells, classes, n).spans[k].is_punctuation == segment_words(cells, classes, m).spans[k].is_punctuation
            &&& segment_words(cells, classes, n).spans[k].is_numeric == segment_words(cells, classes, m).spans[k].is_numeric
        },
    decreases n - m,
{
    if m < n {
        lemma_segment_words_grows(cells, classes, m, n - 1);
        let prev = segment_words(cells, classes, n - 1);
        let seg = segment_words(cells, classes, n);
        assert forall|k: int| 0 <= k < prev.spans.len() implies (#[trigger] seg.spans[k]).color == prev.spans[k].color
            && seg.spans[k].column == prev.spans[k].column && seg.spans[k].is_punctuation == prev.spans[k].is_punctuation
            && seg.spans[k].is_numeric == prev.spans[k].is_numeric by {}
    }
}

proof fn lemma_emoji_word_kept(cells: Seq<Cell>, classes: Seq<GlyphClass>, j: int, m: int)
    requires
        0 <= j < m <= cells.len(),
        m <= classes.len(),
        !is_space_symbol(cells[j].symbol@),
        classes[j].is_emoji,
    ensures
        ({
            let k = word_of_cell(cells, classes, j);
            let seg = segment_words(cells, classes, m);
            &&& 0 <= k < seg.spans.len()
            &&& seg.spans[k].text == cells[j].symbol@
            &&& (k < seg.spans.len() - 1 || !seg.started)
        }),
    decreases m - j,
{
    let k = word_of_cell(cells, classes, j);
    if m == j + 1 {
        let prev = segment_words(cells, classes, j);
        assert(span_ends(prev.spans.last(), cells[j].symbol@, cells[j].fg, classes[j]));
    } else {
        lemma_emoji_word_kept(cells, classes, j, m - 1);
    }
}

/// The words of a row are its visible text, cut up: a row built by
/// appending the first `n` cells one by one (see `segment_words`) numbers its
/// words in order, and its words' strings one after the other are the cells'
/// symbols without spaces and tabs. Each cell that is not a space went into
/// one word (`word_of_cell`), which has that cell's color and that cell's
/// punctuation-ness, so every word has a single color and never mixes
/// punctuation with other text; a numeric word holds numeric cells only; and
/// an emoji forms a word of its own symbol alone.
pub proof fn lemma_row_words_are_text(
    row: Seq<WordDescription>,
    cells: Seq<Cell>,
    classes: Seq<GlyphClass>,
    n: int,
    surface_name: Seq<char>,
    surface_is_editor: bool,
    row_global: int,
    row_wcache: int,
)
    requires
        0 <= n <= cells.len(),
        n <= classes.len(),
        row_matches_spans(row, segment_words(cells, classes, n).spans, surface_name, surface_is_editor, row_global, row_wcache),
    ensures
        row_text(row) == visible_symbols(cells, n),
        forall|i: int| 0 <= i < row.len() ==> (#[trigger] row[i]).word_index == i,
        forall|j: int| 0 <= j < n && !is_space_symbol(cells[j].symbol@) ==> {
            &&& 0 <= #[trigger] word_of_cell(cells, classes, j) < row.len()
            &&& row[word_of_cell(cells, classes, j)].color == cells[j].fg
            &&& row[word_of_cell(cells, classes, j)].is_punctuation == all_punctuation(cells[j].symbol@)
            &&& row[word_of_cell(cells, classes, j)].is_numeric ==> all_numeric(cells[j].symbol@)
            &&& classes[j].is_emoji ==> row[word_of_cell(cells, classes, j)].string@ == cells[j].symbol@
        },
{
    let seg = segment_words(cells, classes, n);
    lemma_segment_words_text(cells, classes, n);
    lemma_row_text_matches(row, seg.spans, surface_name, surface_is_editor, row_global, row_wcache);
    assert forall|i: int| 0 <= i < row.len() implies (#[trigger] row[i]).word_index == i by {
        assert(word_matches_span(row[i], seg.spans[i], i, surface_name, surface_is_editor, row_global, row_wcache));
    }
    assert forall|j: int| 0 <= j < n && !is_space_symbol(cells[j].symbol@) implies {
        &&& 0 <= #[trigger] word_of_cell(cells, classes, j) < row.len()
        &&& row[word_of_cell(cells, classes, j)].color == cells[j].fg
        &&& row[word_of_cell(cells, classes, j)].is_punctuation == all_punctuation(cells[j].symbol@)
        &&& row[word_of_cell(cells, classes, j)].is_numeric ==> all_numeric(cells[j].symbol@)
        &&& classes[j].is_emoji ==> row[word_of_cell(cells, classes, j)].string@ == cells[j].symbol@
    } by {
        let k = word_of_cell(cells, classes, j);
        let prev = segment_words(cells, classes, j);
        let at = segment_words(cells, classes, j + 1);
        lemma_segment_words_text(cells, classes, j);
        assert(at.spans.len() > 0);
        assert(at.spans[k].color == cells[j].fg);
        assert(at.spans[k].is_punctuation == all_punctuation(cells[j].symbol@));
        assert(at.spans[k].is_numeric ==> all_numeric(cells[j].symbol@));
        lemma_segment_words_grows(cells, classes, j + 1, n);
        assert(seg.spans[k].color == at.spans[k].color);
        assert(word_matches_span(row[k], seg.spans[k], k, surface_name, surface_is_editor, row_global, row_wcache));
        if classes[j].is_emoji {
            lemma_emoji_word_kept(cells, classes, j, n);
        }
    }
}

/// The words of one row of cells, built as the surface builds them: from an
/// empty row, each cell appended in turn with `append_symbol` (at
/// successive columns from `coords`, which starts the row). The row is the
/// segmentation of the cells, and the laws of `lemma_row_words_are_text`
/// hold of it.
pub fn words_of_row(
    surface_name: &String,
    surface_is_editor: bool,
    coords: &SurfaceCoords,
    cells: &Vec<Cell>,
    classes: &Vec<GlyphClass>,
) -> (row: Vec<WordDescription>)
    requires
        coords.column == 0,
        coords.scroll_offset >= 0,
        coords.cache_offset >= 0,
        coords.row_global() <= usize::MAX,
        coords.row_wcache() <= usize::MAX,
        classes@.len() == cells@.len(),
    ensures
        row_matches_spans(row@, segment_words(cells@, classes@, cells@.len() as int).spans, surface_name@, surface_is_editor,
            coords.row_global(), coords.row_wcache()),
        row_text(row@) == visible_symbols(cells@, cells@.len() as int),
        forall|i: int| 0 <= i < row@.len() ==> (#[trigger] row@[i]).word_index == i,
        forall|j: int| 0 <= j < cells@.len() && !is_space_symbol(cells@[j].symbol@) ==> {
            &&& 0 <= #[trigger] word_of_cell(cells@, classes@, j) < row@.len()
            &&& row@[word_of_cell(cells@, classes@, j)].color == cells@[j].fg
            &&& row@[word_of_cell(cells@, classes@, j)].is_punctuation == all_punctuation(cells@[j].symbol@)
            &&& row@[word_of_cell(cells@, classes@, j)].is_numeric ==> all_numeric(cells@[j].symbol@)
            &&& classes@[j].is_emoji ==> row@[word_of_cell(cells@, classes@, j)].string@ == cells@[j].symbol@
        },
{
    let mut row: Vec<WordDescription> = Vec::new();
    let mut state = RowState::new();
    let mut c = *coords;
    let n = cells.len();
    let mut i: usize = 0;
    while i < n
        invariant
            n == cells@.len(),
            classes@.len() == n,
            i <= n,
            c.column == i,
            c.row == coords.row,
            c.scroll_offset == coords.scroll_offset,
            c.cache_offset == coords.cache_offset,
            coords.scroll_offset >= 0,
            coords.cache_offset >= 0,
            coords.row_global() <= usize::MAX,
            coords.row_wcache() <= usize::MAX,
            row_matches_spans(row@, segment_words(cells@, classes@, i as int).spans, surface_name@, surface_is_editor,
                coords.row_global(), coords.row_wcache()),
            state_matches(state, segment_words(cells@, classes@, i as int)),
        decreases n - i,
    {
        let ghost row0 = row@;
        let ghost state0 = state;
        append_symbol(surface_name, surface_is_editor, &c, &cells[i], &classes[i], &mut row, &mut state);
        proof {
            lemma_append_symbol_step(row0, state0, row@, state, segment_words(cells@, classes@, i as int), surface_name@,
                surface_is_editor, c, cells@[i as int], classes@[i as int]);
        }
        c.next_column();
        i = i + 1;
    }
    proof {
        lemma_row_words_are_text(row@, cells@, classes@, n as int, surface_name@, surface_is_editor, coords.row_global(),
            coords.row_wcache());
    }
    row
}

proof fn lemma_row_text_matches(
    row: Seq<WordDescription>,
    spans: Seq<WordSpan>,
    surface_name: Seq<char>,
    surface_is_editor: bool,
    row_global: int,
    row_wcache: int,
)
    requires
        row_matches_spans(row, spans, surface_name, surface_is_editor, row_global, row_wcache),
    ensures
        row_text(row) == spans_text(spans),
    decreases row.len(),
{
    if row.len() > 0 {
        let k = row.len() - 1;
        assert(word_matches_span(row[k], spans[k], k, surface_name, surface_is_editor, row_global, row_wcache));
        let r0 = row.drop_last();
        let s0 = spans.drop_last();
        assert forall|i: int| 0 <= i < r0.len() implies word_matches_span(#[trigger] r0[i], s0[i], i, surface_name,
            surface_is_editor, row_global, row_wcache) by {
            assert(word_matches_span(row[i], spans[i], i, surface_name, surface_is_editor, row_global, row_wcache));
        }
        lemma_row_text_matches(r0, s0, surface_name, surface_is_editor, row_global, row_wcache);
    }
}

/// The new word differs from the cached one in string, position or color.
pub open spec fn word_changed(new_word: WordDescription, cached_word: WordDescription) -> bool {
    !(cached_word.string@ == new_word.string@ && cached_word.column == new_word.column
        && cached_word.row == new_word.row && cached_word.color == new_word.color)
}

/// The cached word stays: it has not changed and it is spawned.
pub open spec fn word_kept(cached_word: WordDescription, new_word: WordDescription) -> bool {
    !word_changed(new_word, cached_word) && cached_word.entity is Some
}

/// Whether word `i` of `new_row` replaces (or extends) the cached row.
pub open spec fn word_respawned(cached: Seq<WordDescription>, new_row: Seq<WordDescription>, i: int) -> bool {
    !(i < cached.len() && word_kept(cached[i], new_row[i]))
}

/// The cached row after syncing: each kept word stays, every other position
/// takes the new word; the row has as many words as the new one.
pub open spec fn synced_words(cached: Seq<WordDescription>, new_row: Seq<WordDescription>) -> Seq<WordDescription> {
    Seq::new(new_row.len(), |i: int| if word_respawned(cached, new_row, i) { new_row[i] } else { cached[i] })
}

/// The first `n` words of the new row that must be spawned, in order, with
/// their surface names.
pub open spec fn words_to_spawn_upto(cached: Seq<WordDescription>, new_row: Seq<WordDescription>, n: int) -> Seq<(Seq<char>, WordDescription)>
    decreases n,
{
    if n <= 0 {
        Seq::empty()
    } else if word_respawned(cached, new_row, n - 1) {
        words_to_spawn_upto(cached, new_row, n - 1).push((new_row[n - 1].surface_name@, new_row[n - 1]))
    } else {
        words_to_spawn_upto(cached, new_row, n - 1)
    }
}

/// Entities of replaced cached words among the first `n` positions, in order.
pub open spec fn replaced_word_entities(cached: Seq<WordDescription>, new_row: Seq<WordDescription>, n: int) -> Seq<EntityId>
    decreases n,
{
    if n <= 0 {
        Seq::empty()
    } else if n - 1 < cached.len() && word_respawned(cached, new_row, n - 1) && cached[n - 1].entity is Some {
        replaced_word_entities(cached, new_row, n - 1).push(cached[n - 1].entity->0)
    } else {
        replaced_word_entities(cached, new_row, n - 1)
    }
}

/// Entities of the cached words at positions `from .. to`, in order.
pub open spec fn word_entities_between(cached: Seq<WordDescription>, from: int, to: int) -> Seq<EntityId>
    decreases to - from,
{
    if to <= from {
        Seq::empty()
    } else if cached[to - 1].entity is Some {
        word_entities_between(cached, from, to - 1).push(cached[to - 1].entity->0)
    } else {
        word_entities_between(cached, from, to - 1)
    }
}

/// Everything despawned when `cached` is synced with `new_row`: replaced
/// words first, then the words past the end of the new row.
pub open spec fn despawned_words(cached: Seq<WordDescription>, new_row: Seq<WordDescription>) -> Seq<EntityId> {
    replaced_word_entities(cached, new_row, new_row.len() as int) + word_entities_between(cached, new_row.len() as int, cached.len() as int)
}

/// Queues `new_word` for spawning on its surface.
fn add_word_to_spawn(new_word: &WordDescription, words_to_spawn: &mut WordsToSpawn)
    ensures
        final(words_to_spawn).groups() == add_to_groups(old(words_to_spawn).groups(), new_word.surface_name@, *new_word),
{
    words_to_spawn.add(&new_word.surface_name, new_word.copy_of());
}

/// Whether the new word differs from the cached one in string, column, row or color.
fn word_has_changed(new_word: &WordDescription, cached_word: &WordDescription) -> (r: bool)
    ensures
        r == word_changed(*new_word, *cached_word),
{
    let same_word = cached_word.string == new_word.string && cached_word.column == new_word.column
        && cached_word.row == new_word.row && cached_word.color == new_word.color;
    !same_word
}

/// Replaces cached word `new_word_index` by `new_word`: despawns the old word
/// if it was spawned and queues the new one.
fn update_cached_word(
    new_word_index: usize,
    new_word: &WordDescription,
    cached_row: &mut WordRow,
    to_spawn: &mut WordsToSpawn,
    to_despawn: &mut DespawnResource,
)
    requires
        new_word_index < old(cached_row)@.len(),
    ensures
        final(cached_row)@ == old(cached_row)@.update(new_word_index as int, *new_word),
        final(to_spawn).groups() == add_to_groups(old(to_spawn).groups(), new_word.surface_name@, *new_word),
        final(to_despawn).recursive@ == if old(cached_row)@[new_word_index as int].entity is Some {
            old(to_despawn).recursive@.push(old(cached_row)@[new_word_index as int].entity->0)
        } else {
            old(to_despawn).recursive@
        },
        final(to_despawn).children_only@ == old(to_despawn).children_only@,
{
    let word_was_despawned = cached_row[new_word_index].entity.is_none();
    if !word_was_despawned {
        let outdated = cached_row[new_word_index].entity.unwrap();
        to_despawn.recursive.push(outdated);
    }
    cached_row.set(new_word_index, new_word.copy_of());
    add_word_to_spawn(new_word, to_spawn);
}

/// Despawns the cached words from `cleanup_index_from` on and drops them from the row.
fn cleanup_cached_row_from(cleanup_index_from: usize, cached_row: &mut WordRow, to_despawn: &mut DespawnResource)
    ensures
        final(cached_row)@ == if cleanup_index_from >= old(cached_row)@.len() {
            old(cached_row)@
        } else {
            old(cached_row)@.take(cleanup_index_from as int)
        },
        final(to_despawn).recursive@ == old(to_despawn).recursive@
            + word_entities_between(old(cached_row)@, cleanup_index_from as int, old(cached_row)@.len() as int),
        final(to_despawn).children_only@ == old(to_despawn).children_only@,
{
    let ghost row0 = cached_row@;
    let ghost despawn0 = to_despawn.recursive@;
    let cached_row_len = cached_row.len();
    if cleanup_index_from >= cached_row_len {
        assert(word_entities_between(row0, cleanup_index_from as int, row0.len() as int) =~= Seq::<EntityId>::empty());
        return;
    }
    let mut i: usize = cleanup_index_from;
    while i < cached_row_len
        invariant
            cached_row_len == row0.len(),
            cleanup_index_from <= i <= cached_row_len,
            cached_row@.len() == cached_row_len,
            forall|j: int| 0 <= j < cleanup_index_from ==> #[trigger] cached_row@[j] == row0[j],
            forall|j: int| i <= j < cached_row_len ==> #[trigger] cached_row@[j] == row0[j],
            to_despawn.recursive@ == despawn0 + word_entities_between(row0, cleanup_index_from as int, i as int),
            to_despawn.children_only@ == old(to_despawn).children_only@,
        decreases cached_row_len - i,
    {
        let mut cached_word = cached_row.remove(i);
        if let Some(entity) = cached_word.entity {
            to_despawn.recursive.push(entity);
            cached_word.entity = None;
        }
        cached_row.insert(i, cached_word);
        assert(to_despawn.recursive@ =~= despawn0 + word_entities_between(row0, cleanup_index_from as int, i + 1));
        i = i + 1;
    }
    cached_row.truncate(cleanup_index_from);
    assert(cached_row@ =~= row0.take(cleanup_index_from as int));
}

/// Syncing against the synced row itself queues and despawns what syncing
/// against the new row did.
pub proof fn lemma_synced_words_stable(cached: Seq<WordDescription>, new_row: Seq<WordDescription>)
    ensures
        ({
            let synced = synced_words(cached, new_row);
            &&& words_to_spawn_upto(cached, synced, synced.len() as int) == words_to_spawn_upto(cached, new_row, new_row.len() as int)
            &&& despawned_words(cached, synced) == despawned_words(cached, new_row)
        }),
{
    let synced = synced_words(cached, new_row);
    assert forall|i: int| 0 <= i < new_row.len() implies word_respawned(cached, synced, i) == word_respawned(cached, new_row, i)
        && (word_respawned(cached, new_row, i) ==> synced[i] == new_row[i]) by {}
    lemma_upto_agree(cached, synced, new_row, new_row.len() as int);
}

proof fn lemma_upto_agree(cached: Seq<WordDescription>, a: Seq<WordDescription>, b: Seq<WordDescription>, n: int)
    requires
        0 <= n <= a.len(),
        n <= b.len(),
        forall|i: int| 0 <= i < n ==> word_respawned(cached, a, i) == word_respawned(cached, b, i)
            && (word_respawned(cached, b, i) ==> a[i] == b[i]),
    ensures
        words_to_spawn_upto(cached, a, n) == words_to_spawn_upto(cached, b, n),
        replaced_word_entities(cached, a, n) == replaced_word_entities(cached, b, n),
    decreases n,
{
    if n > 0 {
        lemma_upto_agree(cached, a, b, n - 1);
    }
}

/// A cached word stays when the new word of `span` would equal it and it is spawned.
pub open spec fn span_kept(cached_word: WordDescription, span: WordSpan, row_global: int) -> bool {
    &&& cached_word.string@ == span.text
    &&& cached_word.column == span.column
    &&& cached_word.row == row_global
    &&& cached_word.color == span.color
    &&& cached_word.entity is Some
}

/// `synced` is the cached row after syncing with the words of `spans`.
pub open spec fn synced_with_spans(
    synced: Seq<WordDescription>,
    cached: Seq<WordDescription>,
    spans: Seq<WordSpan>,
    surface_name: Seq<char>,
    surface_is_editor: bool,
    row_global: int,
    row_wcache: int,
) -> bool {
    &&& synced.len() == spans.len()
    &&& forall|i: int| 0 <= i < spans.len() ==> if i < cached.len() && span_kept(cached[i], spans[i], row_global) {
        #[trigger] synced[i] == cached[i]
    } else {
        word_matches_span(synced[i], spans[i], i, surface_name, surface_is_editor, row_global, row_wcache)
    }
}

/// Syncing with a row that holds the words of `spans` gives a row described by `spans`.
pub proof fn lemma_synced_with_spans(
    cached: Seq<WordDescription>,
    new_row: Seq<WordDescription>,
    spans: Seq<WordSpan>,
    surface_name: Seq<char>,
    surface_is_editor: bool,
    row_global: int,
    row_wcache: int,
)
    requires
        row_matches_spans(new_row, spans, surface_name, surface_is_editor, row_global, row_wcache),
    ensures
        synced_with_spans(synced_words(cached, new_row), cached, spans, surface_name, surface_is_editor, row_global, row_wcache),
{
    assert forall|i: int| 0 <= i < spans.len() implies (if i < cached.len() && span_kept(cached[i], spans[i], row_global) {
        #[trigger] synced_words(cached, new_row)[i] == cached[i]
    } else {
        word_matches_span(synced_words(cached, new_row)[i], spans[i], i, surface_name, surface_is_editor, row_global, row_wcache)
    }) by {
        assert(word_matches_span(new_row[i], spans[i], i, surface_name, surface_is_editor, row_global, row_wcache));
    }
}

proof fn lemma_replaced_past_cached(cached: Seq<WordDescription>, new_row: Seq<WordDescription>, n: int)
    requires
        n >= cached.len(),
    ensures
        replaced_word_entities(cached, new_row, n) == replaced_word_entities(cached, new_row, cached.len() as int),
    decreases n,
{
    if n > cached.len() {
        lemma_replaced_past_cached(cached, new_row, n - 1);
    }
}

/// Syncs the cached row of words with a newly built row: unchanged spawned
/// words stay, every other word is replaced and queued for spawning, words
/// past the end of the new row are despawned and dropped.
pub fn update_cached_row(
    cached_row: &mut WordRow,
    new_row: &WordRow,
    to_spawn: &mut WordsToSpawn,
    to_despawn: &mut DespawnResource,
    surface_coords: &SurfaceCoords,
)
    ensures
        final(cached_row)@ == synced_words(old(cached_row)@, new_row@),
        final(to_spawn).groups() == add_all_to_groups(old(to_spawn).groups(), words_to_spawn_upto(old(cached_row)@, new_row@, new_row@.len() as int)),
        final(to_despawn).recursive@ == old(to_despawn).recursive@ + despawned_words(old(cached_row)@, new_row@),
        final(to_despawn).children_only@ == old(to_despawn).children_only@,
{
    let ghost cached0 = cached_row@;
    let ghost spawn0 = to_spawn.groups();
    let ghost despawn0 = to_despawn.recursive@;
    let cached_row_len = cached_row.len();
    let new_row_len = new_row.len();
    let mut new_word_index: usize = 0;
    while new_word_index < new_row_len
        invariant
            cached_row_len == cached0.len(),
            new_row_len == new_row@.len(),
            new_word_index <= new_row_len,
            cached_row@.len() == if new_word_index > cached_row_len { new_word_index as int } else { cached_row_len as int },
            forall|j: int| 0 <= j < new_word_index ==> #[trigger] cached_row@[j] == synced_words(cached0, new_row@)[j],
            forall|j: int| new_word_index <= j < cached_row_len ==> #[trigger] cached_row@[j] == cached0[j],
            to_spawn.groups() == add_all_to_groups(spawn0, words_to_spawn_upto(cached0, new_row@, new_word_index as int)),
            to_despawn.recursive@ == despawn0 + replaced_word_entities(cached0, new_row@, new_word_index as int),
            to_despawn.children_only@ == old(to_despawn).children_only@,
        decreases new_row_len - new_word_index,
    {
        let ghost i = new_word_index as int;
        let ghost pending = words_to_spawn_upto(cached0, new_row@, i);
        let new_word = &new_row[new_word_index];
        if new_word_index >= cached_row_len {
            cached_row.push(new_word.copy_of());
            add_word_to_spawn(new_word, to_spawn);
            proof {
                assert(words_to_spawn_upto(cached0, new_row@, i + 1) == pending.push((new_word.surface_name@, *new_word)));
                assert(words_to_spawn_upto(cached0, new_row@, i + 1).drop_last() =~= pending);
            }
        } else {
            let changed = word_has_changed(new_word, &cached_row[new_word_index]);
            if changed || cached_row[new_word_index].entity.is_none() {
                update_cached_word(new_word_index, new_word, cached_row, to_spawn, to_despawn);
                proof {
                    assert(words_to_spawn_upto(cached0, new_row@, i + 1).drop_last() =~= pending);
                }
            }
        }
        proof {
            assert(to_despawn.recursive@ =~= despawn0 + replaced_word_entities(cached0, new_row@, i + 1));
        }
        new_word_index = new_word_index + 1;
    }
    let ghost before_cleanup = cached_row@;
    let ghost despawn_mid = to_despawn.recursive@;
    if new_row_len == 0 || new_row_len < cached_row_len {
        cleanup_cached_row_from(new_row_len, cached_row, to_despawn);
    }
    proof {
        if new_row_len >= cached_row_len {
            lemma_replaced_past_cached(cached0, new_row@, new_row_len as int);
            assert(word_entities_between(cached0, new_row_len as int, cached_row_len as int) =~= Seq::<EntityId>::empty());
        } else {
            assert forall|j: int| new_row_len <= j < cached_row_len implies #[trigger] before_cleanup[j] == cached0[j] by {}
            lemma_entities_between_agree(before_cleanup, cached0, new_row_len as int, cached_row_len as int);
        }
        assert(to_despawn.recursive@ =~= despawn0 + despawned_words(cached0, new_row@));
        assert(cached_row@ =~= synced_words(cached0, new_row@));
    }
}

proof fn lemma_entities_between_agree(a: Seq<WordDescription>, b: Seq<WordDescription>, from: int, to: int)
    requires
        0 <= from,
        to <= a.len(),
        to <= b.len(),
        forall|j: int| from <= j < to ==> #[trigger] a[j] == b[j],
    ensures
        word_entities_between(a, from, to) == word_entities_between(b, from, to),
    decreases to - from,
{
    if to > from {
        lemma_entities_between_agree(a, b, from, to - 1);
    }
}

} // verus!
