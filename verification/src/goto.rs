//! Control-hover links: which words of the editor may be followed to their
//! definition, which terminal paths may be followed, and which link
//! highlights stay.

use vstd::prelude::*;

use crate::input::KeyModifiers;
use crate::app_state::{clicked_path_position, AppContext};
use crate::surface::EntityId;
use crate::surface::words::WordDescription;

verus! {

/// Syntax node kinds that name something: identifiers, type identifiers and
/// field identifiers.
pub open spec fn is_identifier_kind(kind: Seq<char>) -> bool {
    kind == "identifier"@ || kind == "type_identifier"@ || kind == "field_identifier"@
}

/// Whether a syntax node of `kind` names something.
pub fn identifier_kind(kind: &str) -> (r: bool)
    ensures
        r == is_identifier_kind(kind@),
{
    let k = kind.to_string();
    let a = "identifier".to_string();
    let b = "type_identifier".to_string();
    let c = "field_identifier".to_string();
    k == a || k == b || k == c
}

/// What the syntax tree says of a hovered word: without a syntax tree any
/// word passes; with one, only a word whose node (if found) names something.
pub open spec fn syntax_allows(has_syntax: bool, node_kind: Option<Seq<char>>) -> bool {
    !has_syntax || (node_kind matches Some(k) && is_identifier_kind(k))
}

/// Whether the syntax tree lets a hovered word be followed; see `syntax_allows`.
pub fn syntax_tree_check(has_syntax: bool, node_kind: Option<&str>) -> (r: bool)
    ensures
        r == syntax_allows(has_syntax, match node_kind { Some(k) => Some(k@), None => None }),
{
    if !has_syntax {
        return true;
    }
    match node_kind {
        Some(kind) => identifier_kind(kind),
        None => false,
    }
}

/// Whether a hovered word of the editor gets a go-to-definition highlight:
/// control is held, alt and shift are not, the word is not highlighted yet,
/// is on the editor, is no punctuation or number, and the syntax tree allows it.
pub open spec fn definition_highlight(highlight_assigned: bool, modifiers: KeyModifiers, word: WordDescription,
    syntax_ok: bool) -> bool
{
    &&& modifiers.ctrl
    &&& !highlight_assigned
    &&& !modifiers.alt
    &&& !modifiers.shift
    &&& !word.is_punctuation
    &&& !word.is_numeric
    &&& word.is_on_editor
    &&& syntax_ok
}

/// Whether a hovered word gets a go-to-definition highlight; see
/// `definition_highlight`.
pub fn goto_definition_highlight(highlight_assigned: bool, modifiers: &KeyModifiers, word: &WordDescription,
    syntax_ok: bool) -> (r: bool)
    ensures
        r == definition_highlight(highlight_assigned, *modifiers, *word, syntax_ok),
{
    let highlight_allowed = !highlight_assigned && !modifiers.alt && !modifiers.shift && !word.is_punctuation
        && !word.is_numeric && word.is_on_editor && syntax_ok;
    modifiers.ctrl && highlight_allowed
}

/// The screen row of a word on document row `row` when the view starts at
/// document row `row_offset` (0 above the view).
pub fn screen_row(row: usize, row_offset: usize) -> (r: usize)
    ensures
        r == if row >= row_offset { row - row_offset } else { 0 },
{
    row.saturating_sub(row_offset)
}

/// Whether a highlighted word keeps its highlight: while it is the hovered
/// word and control is held.
pub fn keep_definition_highlight(highlighted: EntityId, hovered: Option<EntityId>, ctrl_pressed: bool) -> (r: bool)
    ensures
        r == (hovered == Some(highlighted) && ctrl_pressed),
{
    match hovered {
        Some(word_entity) => highlighted == word_entity && ctrl_pressed,
        None => false,
    }
}

/// Whether a hovered terminal path gets its highlight: left control is held,
/// left alt and left shift are not, and it is not highlighted yet.
pub fn goto_path_highlight(highlight_assigned: bool, left_ctrl: bool, left_alt: bool, left_shift: bool) -> (r: bool)
    ensures
        r == (left_ctrl && !highlight_assigned && !left_alt && !left_shift),
{
    let highlight_allowed = !highlight_assigned && !left_alt && !left_shift;
    left_ctrl && highlight_allowed
}

/// Whether a highlighted word of a terminal path keeps its highlight: while
/// it belongs to the hovered path and left control is held.
pub fn keep_path_highlight(highlighted: EntityId, hovered_path: Option<&Vec<EntityId>>, left_ctrl: bool) -> (r: bool)
    ensures
        r == (hovered_path matches Some(p) && p@.contains(highlighted) && left_ctrl),
{
    match hovered_path {
        Some(path) => {
            let mut i: usize = 0;
            let mut found = false;
            while i < path.len()
                invariant
                    i <= path@.len(),
                    found == exists|k: int| 0 <= k < i && path@[k] == highlighted,
                decreases path@.len() - i,
            {
                if path[i] == highlighted {
                    found = true;
                }
                i = i + 1;
            }
            found && left_ctrl
        },
        None => false,
    }
}

/// The jump for a click on a terminal word: a left click with left control
/// held on a word that holds a path (at 1-based `row` and `col`) shows the
/// code editor at that position (0-based, see `clicked_path_position`);
/// anything else jumps nowhere.
pub fn goto_path_click(hovered_path: Option<(usize, usize)>, left_ctrl: bool, left_just_pressed: bool) -> (r: Option<(AppContext, usize, usize)>)
    ensures
        r == match hovered_path {
            Some((row, col)) => if left_ctrl && left_just_pressed {
                Some((AppContext::CodeEditor, if row > 0 { (row - 1) as usize } else { 0usize }, if col > 0 { (col - 1) as usize } else { 0usize }))
            } else {
                None
            },
            None => None,
        },
{
    match hovered_path {
        Some((row, col)) => {
            if left_ctrl && left_just_pressed {
                Some(clicked_path_position(row, col))
            } else {
                None
            }
        },
        None => None,
    }
}

} // verus!
