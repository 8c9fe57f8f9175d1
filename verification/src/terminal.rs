//! The embedded terminal: its key codes and modifiers, which key events it
//! gets, resizing, and its window title. The terminal state itself is the
//! terminal emulator's; what the logic reads of it is held here as plain values.

use vstd::prelude::*;

use crate::input::{
    is_digit, key_has_text, modifiers_of, wez_code, ButtonState, KeyModifiers, KeyStates, KeyboardInput, LogicalKey,
    PhysicalKey, WezKeyCode,
};
use crate::strings::{push_char, push_str};

verus! {

/// The terminal as the logic sees it: whether it is the active context,
/// whether its state changed this frame, the scroll offset last rendered, its
/// size in cells, and its title.
pub struct BevyWezTerm {
    pub active: bool,
    pub state_changed: bool,
    pub last_rendered_scroll_offset: usize,
    pub rows: usize,
    pub cols: usize,
    pub title: String,
}

/// Whether the key is a modifier key.
pub open spec fn is_modifier(k: PhysicalKey) -> bool {
    k == PhysicalKey::ControlLeft || k == PhysicalKey::ControlRight || k == PhysicalKey::AltLeft
        || k == PhysicalKey::AltRight || k == PhysicalKey::ShiftLeft || k == PhysicalKey::ShiftRight
}

impl BevyWezTerm {
    /// The terminal's key code for a key event, whether it went down or up.
    pub fn keycode_wez_from_bevy(keyboard_input: &KeyboardInput) -> (r: Option<WezKeyCode>)
        requires
            key_has_text(keyboard_input.logical_key),
        ensures
            r == Some(wez_code(keyboard_input.logical_key)),
    {
        let keycode_wez = match &keyboard_input.logical_key {
            LogicalKey::Character(s) => WezKeyCode::Char(s.as_str().get_char(0)),
            LogicalKey::Space => WezKeyCode::Char(' '),
            LogicalKey::Backspace => WezKeyCode::Backspace,
            LogicalKey::Enter => WezKeyCode::Enter,
            LogicalKey::ArrowLeft => WezKeyCode::LeftArrow,
            LogicalKey::ArrowRight => WezKeyCode::RightArrow,
            LogicalKey::ArrowUp => WezKeyCode::UpArrow,
            LogicalKey::ArrowDown => WezKeyCode::DownArrow,
            LogicalKey::Home => WezKeyCode::Home,
            LogicalKey::End => WezKeyCode::End,
            LogicalKey::PageUp => WezKeyCode::PageUp,
            LogicalKey::PageDown => WezKeyCode::PageDown,
            LogicalKey::Tab => WezKeyCode::Tab,
            LogicalKey::Delete => WezKeyCode::Delete,
            LogicalKey::Insert => WezKeyCode::Insert,
            LogicalKey::Escape => WezKeyCode::Escape,
            LogicalKey::Function(n) => if 1 <= *n && *n <= 24 { WezKeyCode::Function(*n) } else { WezKeyCode::Char('?') },
            LogicalKey::Other => WezKeyCode::Char('?'),
        };
        Some(keycode_wez)
    }

    /// The terminal's modifiers for the keys held down: the union of the
    /// modifier of each key, left and right alike.
    pub fn key_modifiers_bevy_to_wez(key: &KeyStates) -> (r: KeyModifiers)
        ensures
            r == modifiers_of(key.pressed@),
    {
        let mut modifiers = KeyModifiers { alt: false, ctrl: false, shift: false };
        let n = key.pressed.len();
        let mut i: usize = 0;
        while i < n
            invariant
                n == key.pressed@.len(),
                i <= n,
                modifiers == modifiers_of(key.pressed@.take(i as int)),
            decreases n - i,
        {
            let pressed = key.pressed[i];
            match pressed {
                PhysicalKey::AltLeft | PhysicalKey::AltRight => modifiers.alt = true,
                PhysicalKey::ControlLeft | PhysicalKey::ControlRight => modifiers.ctrl = true,
                PhysicalKey::ShiftLeft | PhysicalKey::ShiftRight => modifiers.shift = true,
                _ => {},
            }
            proof {
                let prev = key.pressed@.take(i as int);
                let next = key.pressed@.take(i + 1);
                assert(next =~= prev.push(pressed));
                assert forall|k: PhysicalKey| next.contains(k) <==> (prev.contains(k) || k == pressed) by {
                    if next.contains(k) {
                        let j = choose|j: int| 0 <= j < next.len() && next[j] == k;
                        if j < prev.len() {
                            assert(prev[j] == k);
                        }
                    }
                    if prev.contains(k) {
                        let j = choose|j: int| 0 <= j < prev.len() && prev[j] == k;
                        assert(next[j] == k);
                    }
                    if k == pressed {
                        assert(next[i as int] == k);
                    }
                }
            }
            i = i + 1;
        }
        proof {
            assert(key.pressed@.take(n as int) =~= key.pressed@);
        }
        modifiers
    }

    /// Whether the terminal is the active context.
    pub fn active(&self) -> (r: bool)
        ensures
            r == self.active,
    {
        self.active
    }

    /// Whether the terminal state changed this frame.
    pub fn state_changed(&self) -> (r: bool)
        ensures
            r == self.state_changed,
    {
        self.state_changed
    }

    /// The window title while the terminal is active: its title in brackets,
    /// then ` - Terminal - Kodiki`.
    pub fn window_title(&self) -> (r: String)
        ensures
            r@ == seq!['['] + self.title@ + "] - Terminal - Kodiki"@,
    {
        let mut window_title = String::new();
        push_char(&mut window_title, '[');
        push_str(&mut window_title, self.title.as_str());
        push_str(&mut window_title, "] - Terminal - Kodiki");
        window_title
    }

    /// Takes the size `rows` by `cols`; false (and nothing changes) when the
    /// terminal has that size already. The caller resizes the pseudo terminal
    /// and the terminal state when it is true.
    pub fn resize(&mut self, rows: usize, cols: usize) -> (r: bool)
        ensures
            r == !(old(self).rows == rows && old(self).cols == cols),
            final(self).rows == rows && final(self).cols == cols,
            final(self).active == old(self).active,
            final(self).state_changed == old(self).state_changed,
            final(self).title == old(self).title,
            final(self).last_rendered_scroll_offset == old(self).last_rendered_scroll_offset,
    {
        if self.rows == rows && self.cols == cols {
            return false;
        }
        self.rows = rows;
        self.cols = cols;
        true
    }

    /// Whether a key event goes to the terminal: modifier keys alone do not,
    /// nor digits while control is held (they switch contexts).
    pub fn key_passes(key_code: Option<PhysicalKey>, input_key: &KeyStates) -> (r: bool)
        ensures
            r == match key_code {
                Some(k) => !is_modifier(k) && !(modifiers_of(input_key.pressed@).ctrl && is_digit(k)),
                None => true,
            },
    {
        match key_code {
            Some(k) => {
                let modifier = match k {
                    PhysicalKey::ControlLeft | PhysicalKey::ControlRight | PhysicalKey::AltLeft | PhysicalKey::AltRight
                    | PhysicalKey::ShiftLeft | PhysicalKey::ShiftRight => true,
                    _ => false,
                };
                if modifier {
                    return false;
                }
                let ctrl = crate::input::key_code_to_helix_modifiers(input_key).ctrl;
                let digit = match k {
                    PhysicalKey::Digit0 | PhysicalKey::Digit1 | PhysicalKey::Digit2 | PhysicalKey::Digit3
                    | PhysicalKey::Digit4 | PhysicalKey::Digit5 | PhysicalKey::Digit6 | PhysicalKey::Digit7
                    | PhysicalKey::Digit8 | PhysicalKey::Digit9 => true,
                    _ => false,
                };
                !(ctrl && digit)
            },
            None => true,
        }
    }
}

/// The render plan for the terminal's screen lines from `k` on, with `row`
/// the screen row of line `k`: a line that has not changed since it was
/// last drawn (its change number is the current, non-zero one) and the
/// scroll offset is the one last drawn is passed over; every other line is
/// drawn on its row, and drawing stops once a drawn row reaches the number of
/// screen rows. Each entry is a screen row and the index of its line.
pub open spec fn render_plan_from(
    line_seqnos: Seq<u64>,
    k: int,
    row: int,
    physical_rows: int,
    unchanged_scroll: bool,
    current_seqno: u64,
) -> Seq<(usize, usize)>
    decreases line_seqnos.len() - k,
{
    if k >= line_seqnos.len() || k < 0 {
        Seq::empty()
    } else if line_seqnos[k] == current_seqno && current_seqno != 0 && unchanged_scroll {
        render_plan_from(line_seqnos, k + 1, row + 1, physical_rows, unchanged_scroll, current_seqno)
    } else if row + 1 >= physical_rows {
        seq![(row as usize, k as usize)]
    } else {
        seq![(row as usize, k as usize)] + render_plan_from(line_seqnos, k + 1, row + 1, physical_rows, unchanged_scroll, current_seqno)
    }
}

impl BevyWezTerm {
    /// Which lines of the screen to draw this frame: the visible lines start
    /// `physical_rows + scroll_offset` lines before the end; see
    /// `render_plan_from`. The scroll offset is kept as the one last drawn.
    pub fn plan_render(&mut self, line_seqnos: &Vec<u64>, physical_rows: usize, scroll_offset: usize, current_seqno: u64) -> (plan: Vec<(usize, usize)>)
        requires
            physical_rows + scroll_offset <= line_seqnos@.len(),
        ensures
            plan@ == render_plan_from(line_seqnos@, line_seqnos@.len() - physical_rows - scroll_offset, 0, physical_rows as int,
                scroll_offset == old(self).last_rendered_scroll_offset, current_seqno),
            final(self).last_rendered_scroll_offset == scroll_offset,
            final(self).active == old(self).active,
            final(self).state_changed == old(self).state_changed,
            final(self).rows == old(self).rows,
            final(self).cols == old(self).cols,
            final(self).title@ == old(self).title@,
    {
        let unchanged_scroll = scroll_offset == self.last_rendered_scroll_offset;
        let first = line_seqnos.len() - physical_rows - scroll_offset;
        let ghost full = render_plan_from(line_seqnos@, first as int, 0, physical_rows as int, unchanged_scroll, current_seqno);
        let mut plan: Vec<(usize, usize)> = Vec::new();
        let mut k: usize = first;
        let mut row: usize = 0;
        while k < line_seqnos.len()
            invariant_except_break
                first <= k <= line_seqnos@.len(),
                row == k - first,
                full == plan@ + render_plan_from(line_seqnos@, k as int, row as int, physical_rows as int, unchanged_scroll, current_seqno),
            ensures
                full == plan@,
            decreases line_seqnos@.len() - k,
        {
            if line_seqnos[k] == current_seqno && current_seqno != 0 && unchanged_scroll {
                row = row + 1;
                k = k + 1;
                continue;
            }
            plan.push((row, k));
            row = row + 1;
            k = k + 1;
            if row >= physical_rows {
                proof {
                    assert(full == plan@);
                }
                break;
            }
            proof {
                assert(full =~= plan@ + render_plan_from(line_seqnos@, k as int, row as int, physical_rows as int, unchanged_scroll, current_seqno));
            }
        }
        self.last_rendered_scroll_offset = scroll_offset;
        plan
    }
}

/// Where and whether the terminal's text cursor shows: its new visibility
/// when it changes (`None`: it stays as it is), and its column and row.
#[derive(Clone, Copy, PartialEq, Eq, Debug, Structural)]
pub struct CursorPlacement {
    pub visibility: Option<bool>,
    pub col: usize,
    pub row: usize,
}

/// The terminal cursor at `(cursor_x, cursor_y)` of the screen scrolled by
/// `scroll_offset`: it shows when the terminal shows it and it is not below
/// the screen's `physical_rows`; its visibility is set only when that differs
/// from `shown`.
pub fn cursor_placement(
    cursor_x: usize,
    cursor_y: i64,
    scroll_offset: usize,
    physical_rows: usize,
    terminal_shows: bool,
    shown: bool,
) -> (r: CursorPlacement)
    requires
        scroll_offset <= i64::MAX,
        physical_rows <= i64::MAX,
        cursor_y + scroll_offset <= i64::MAX,
    ensures
        ({
            let target = terminal_shows && !(cursor_y + scroll_offset > physical_rows);
            &&& r.visibility == if target != shown { Some(target) } else { None }
            &&& r.col == cursor_x
            &&& r.row == cursor_y as usize
        }),
{
    let out_of_range = cursor_y + scroll_offset as i64 > physical_rows as i64;
    let target = terminal_shows && !out_of_range;
    let visibility = if target != shown { Some(target) } else { None };
    CursorPlacement { visibility, col: cursor_x, row: cursor_y as usize }
}

} // verus!
