//! Hover documentation under the mouse: after the mouse rests on the editor
//! for half a second the documentation of what is under it is asked for; a
//! move onto another syntax node, or off the editor, closes it again.

use vstd::prelude::*;

use crate::framerate::{timer_reset, timer_ticked, IdleTimer};

verus! {

/// How long the mouse rests before the documentation shows: half a second,
/// in nanoseconds.
pub const HOVER_DELAY_NANOS: u64 = 500_000_000;

/// The hover state: the rest timer, the cell where the mouse last came to
/// rest, and the syntax node found there (an identifier's node).
#[derive(Clone, Copy, PartialEq, Eq, Debug)]
pub struct MouseHoverState {
    pub timer: IdleTimer,
    pub row: u16,
    pub col: u16,
    pub syntax_node_id: Option<usize>,
}

/// What one frame of hover handling reads: whether the mouse moved, the
/// cell under it, whether it is over the focused editor, the time since the
/// last frame, the identifier node under the mouse (if any), and whether the
/// document has a syntax tree.
#[derive(Clone, Copy, PartialEq, Eq, Debug, Structural)]
pub struct HoverInput {
    pub mouse_moved: bool,
    pub row: u16,
    pub col: u16,
    pub on_editor: bool,
    pub delta_nanos: u64,
    pub hovered_node: Option<usize>,
    pub has_syntax: bool,
}

/// What the editor is asked to do: nothing, close the documentation, or
/// show the documentation of a cell.
#[derive(Clone, Copy, PartialEq, Eq, Debug, Structural)]
pub enum HoverAction {
    Nothing,
    Close,
    Show { row: u16, col: u16 },
}

/// Whether the cached node no longer matches the node under the mouse: it
/// matches only when both are known and the same.
pub open spec fn node_outdated(cached: Option<usize>, hovered: Option<usize>) -> bool {
    !(cached is Some && hovered is Some && cached == hovered)
}

/// The hover state and action after one frame. Off the editor, a move to
/// another cell closes the documentation. A still mouse runs the timer; when
/// it runs out the cell and its node are kept, and the documentation shows
/// if there is a node there or the document has no syntax tree. A move to
/// another cell onto another node (or off any node) closes the
/// documentation and starts the timer over.
pub open spec fn hover_step(s: MouseHoverState, i: HoverInput) -> (MouseHoverState, HoverAction) {
    let changed = i.row != s.row || i.col != s.col;
    if !i.on_editor {
        (s, if i.mouse_moved && changed { HoverAction::Close } else { HoverAction::Nothing })
    } else if !i.mouse_moved {
        let t = timer_ticked(s.timer, i.delta_nanos as nat);
        if !s.timer.finished && t.finished {
            let s2 = MouseHoverState { timer: t, row: i.row, col: i.col, syntax_node_id: i.hovered_node };
            (s2, if i.hovered_node is Some || !i.has_syntax { HoverAction::Show { row: i.row, col: i.col } } else {
                HoverAction::Nothing
            })
        } else {
            (MouseHoverState { timer: t, ..s }, HoverAction::Nothing)
        }
    } else if changed && node_outdated(s.syntax_node_id, i.hovered_node) {
        (MouseHoverState { timer: timer_reset(s.timer), ..s }, HoverAction::Close)
    } else {
        (s, HoverAction::Nothing)
    }
}

impl MouseHoverState {
    /// A fresh state: the timer has not started, the cell is the top left
    /// one, no node is known.
    pub fn new() -> (s: Self)
        ensures
            s.timer == (IdleTimer { duration: HOVER_DELAY_NANOS, elapsed: 0, finished: false }),
            s.row == 0,
            s.col == 0,
            s.syntax_node_id is None,
    {
        MouseHoverState { timer: IdleTimer::new(HOVER_DELAY_NANOS), row: 0, col: 0, syntax_node_id: None }
    }

    /// The timer's bounds hold.
    pub open spec fn wf(self) -> bool {
        self.timer.wf()
    }

    /// One frame of hover handling; see `hover_step`.
    pub fn step(&mut self, input: &HoverInput) -> (action: HoverAction)
        requires
            old(self).wf(),
        ensures
            (*final(self), action) == hover_step(*old(self), *input),
            final(self).wf(),
    {
        let changed = input.row != self.row || input.col != self.col;
        if !input.on_editor {
            if input.mouse_moved && changed {
                return HoverAction::Close;
            }
            return HoverAction::Nothing;
        }
        if !input.mouse_moved {
            let was_finished = self.timer.finished();
            self.timer.tick(input.delta_nanos);
            if !was_finished && self.timer.finished() {
                self.row = input.row;
                self.col = input.col;
                self.syntax_node_id = input.hovered_node;
                if input.hovered_node.is_some() || !input.has_syntax {
                    return HoverAction::Show { row: input.row, col: input.col };
                }
            }
            HoverAction::Nothing
        } else if changed {
            let nodes_available = input.hovered_node.is_some() && self.syntax_node_id.is_some();
            let outdated = if nodes_available {
                match (self.syntax_node_id, input.hovered_node) {
                    (Some(a), Some(b)) => a != b,
                    _ => true,
                }
            } else {
                true
            };
            if outdated {
                self.timer.reset();
                return HoverAction::Close;
            }
            HoverAction::Nothing
        } else {
            HoverAction::Nothing
        }
    }
}

impl Default for MouseHoverState {
    fn default() -> (s: Self)
        ensures
            s.timer == (IdleTimer { duration: HOVER_DELAY_NANOS, elapsed: 0, finished: false }),
            s.row == 0,
            s.col == 0,
            s.syntax_node_id is None,
    {
        MouseHoverState::new()
    }
}

/// The documentation shows at most once per rest: once the timer has run
/// out, a still mouse asks for nothing more until a move starts it over.
pub proof fn lemma_hover_shows_once(s: MouseHoverState, i: HoverInput)
    requires
        s.wf(),
        s.timer.finished,
        !i.mouse_moved,
    ensures
        hover_step(s, i).1 == HoverAction::Nothing,
        hover_step(s, i).0 == s,
{
}

/// Moving within one syntax node keeps the documentation open and the timer
/// as it was.
pub proof fn lemma_same_node_keeps_hover(s: MouseHoverState, i: HoverInput, node: usize)
    requires
        i.on_editor,
        i.mouse_moved,
        s.syntax_node_id == Some(node),
        i.hovered_node == Some(node),
    ensures
        hover_step(s, i) == (s, HoverAction::Nothing),
{
}

/// A rest long enough after a move that closed the documentation shows it
/// for the new cell when there is a node there.
pub proof fn lemma_rest_after_move_shows(s: MouseHoverState, moved: HoverInput, rest: HoverInput, node: usize)
    requires
        s.wf(),
        moved.on_editor,
        moved.mouse_moved,
        moved.row != s.row,
        s.timer.duration > 0,
        rest.on_editor,
        !rest.mouse_moved,
        rest.delta_nanos >= s.timer.duration,
        rest.hovered_node == Some(node),
        moved.hovered_node == Some(node),
        s.syntax_node_id != Some(node),
    ensures
        hover_step(s, moved).1 == HoverAction::Close,
        hover_step(hover_step(s, moved).0, rest).1 == (HoverAction::Show { row: rest.row, col: rest.col }),
{
}

} // verus!
