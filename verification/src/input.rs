//! Keyboard and mouse input: the key codes the editor and the terminal
//! understand, the modifier keys, key repeat for held arrow keys, and the
//! mouse events sent to the editor. Times are in nanoseconds.

use vstd::prelude::*;

verus! {

/// Whether a key or button went down or up.
#[derive(Clone, Copy, PartialEq, Eq, Debug, Structural)]
pub enum ButtonState {
    Pressed,
    Released,
}

/// The key as the keyboard layout names it: the character it types, or one
/// of the named keys (`Function(n)` is the function key Fn).
#[derive(Clone, PartialEq, Eq, Debug)]
pub enum LogicalKey {
    Character(String),
    Space,
    Backspace,
    Enter,
    ArrowLeft,
    ArrowRight,
    ArrowUp,
    ArrowDown,
    Home,
    End,
    PageUp,
    PageDown,
    Tab,
    Delete,
    Insert,
    Escape,
    Function(u8),
    Other,
}

/// The physical key, as far as the input handling tells keys apart.
#[derive(Clone, Copy, PartialEq, Eq, Debug, Structural)]
pub enum PhysicalKey {
    AltLeft,
    AltRight,
    ControlLeft,
    ControlRight,
    ShiftLeft,
    ShiftRight,
    ArrowUp,
    ArrowDown,
    ArrowLeft,
    ArrowRight,
    Digit0,
    Digit1,
    Digit2,
    Digit3,
    Digit4,
    Digit5,
    Digit6,
    Digit7,
    Digit8,
    Digit9,
    Other,
}

/// A key event from the window.
#[derive(Clone, Debug)]
pub struct KeyboardInput {
    pub key_code: PhysicalKey,
    pub logical_key: LogicalKey,
    pub state: ButtonState,
}

/// The state of the keyboard this frame: the keys held down, those that went
/// down this frame and those that went up this frame.
pub struct KeyStates {
    pub pressed: Vec<PhysicalKey>,
    pub just_pressed: Vec<PhysicalKey>,
    pub just_released: Vec<PhysicalKey>,
}

/// A key code of the editor.
#[derive(Clone, Copy, PartialEq, Eq, Debug, Structural)]
pub enum HelixKeyCode {
    Char(char),
    Backspace,
    Enter,
    Left,
    Right,
    Up,
    Down,
    Home,
    End,
    PageUp,
    PageDown,
    Tab,
    Delete,
    Insert,
    Esc,
    F(u8),
    Null,
}

/// A key code of the terminal.
#[derive(Clone, Copy, PartialEq, Eq, Debug, Structural)]
pub enum WezKeyCode {
    Char(char),
    Backspace,
    Enter,
    LeftArrow,
    RightArrow,
    UpArrow,
    DownArrow,
    Home,
    End,
    PageUp,
    PageDown,
    Tab,
    Delete,
    Insert,
    Escape,
    Function(u8),
}

/// The modifier keys held down.
#[derive(Clone, Copy, PartialEq, Eq, Debug, Structural)]
pub struct KeyModifiers {
    pub alt: bool,
    pub ctrl: bool,
    pub shift: bool,
}

/// The editor's key code for a key that went down.
pub open spec fn helix_code(key: LogicalKey) -> HelixKeyCode {
    match key {
        LogicalKey::Character(s) => HelixKeyCode::Char(s@[0]),
        LogicalKey::Space => HelixKeyCode::Char(' '),
        LogicalKey::Backspace => HelixKeyCode::Backspace,
        LogicalKey::Enter => HelixKeyCode::Enter,
        LogicalKey::ArrowLeft => HelixKeyCode::Left,
        LogicalKey::ArrowRight => HelixKeyCode::Right,
        LogicalKey::ArrowUp => HelixKeyCode::Up,
        LogicalKey::ArrowDown => HelixKeyCode::Down,
        LogicalKey::Home => HelixKeyCode::Home,
        LogicalKey::End => HelixKeyCode::End,
        LogicalKey::PageUp => HelixKeyCode::PageUp,
        LogicalKey::PageDown => HelixKeyCode::PageDown,
        LogicalKey::Tab => HelixKeyCode::Tab,
        LogicalKey::Delete => HelixKeyCode::Delete,
        LogicalKey::Insert => HelixKeyCode::Insert,
        LogicalKey::Escape => HelixKeyCode::Esc,
        LogicalKey::Function(n) => if 1 <= n <= 24 { HelixKeyCode::F(n) } else { HelixKeyCode::Null },
        LogicalKey::Other => HelixKeyCode::Null,
    }
}

/// The terminal's key code for a key.
pub open spec fn wez_code(key: LogicalKey) -> WezKeyCode {
    match key {
        LogicalKey::Character(s) => WezKeyCode::Char(s@[0]),
        LogicalKey::Space => WezKeyCode::Char(' '),
        LogicalKey::Backspace => WezKeyCode::Backspace,
        LogicalKey::Enter => WezKeyCode::Enter,
        LogicalKey::ArrowLeft => WezKeyCode::LeftArrow,
        LogicalKey::ArrowRight => WezKeyCode::RightArrow,
        LogicalKey::ArrowUp => WezKeyCode::UpArrow,
        LogicalKey::ArrowDown => WezKeyCode::DownArrow,
        LogicalKey::Home => WezKeyCode::Home,
        LogicalKey::End => WezKeyCode::End,
        LogicalKey::PageUp => WezKeyCode::PageUp,
        LogicalKey::PageDown => WezKeyCode::PageDown,
        LogicalKey::Tab => WezKeyCode::Tab,
        LogicalKey::Delete => WezKeyCode::Delete,
        LogicalKey::Insert => WezKeyCode::Insert,
        LogicalKey::Escape => WezKeyCode::Escape,
        LogicalKey::Function(n) => if 1 <= n <= 24 { WezKeyCode::Function(n) } else { WezKeyCode::Char('?') },
        LogicalKey::Other => WezKeyCode::Char('?'),
    }
}

/// A character key names at least one character.
pub open spec fn key_has_text(key: LogicalKey) -> bool {
    key matches LogicalKey::Character(s) ==> s@.len() > 0
}

/// The editor's key code for a key event: none for a key that went up.
pub fn keycode_helix_from_bevy(keyboard_input: &KeyboardInput) -> (r: Option<HelixKeyCode>)
    requires
        keyboard_input.state == ButtonState::Pressed ==> key_has_text(keyboard_input.logical_key),
    ensures
        r == if keyboard_input.state == ButtonState::Pressed {
            Some(helix_code(keyboard_input.logical_key))
        } else {
            None
        },
{
    if keyboard_input.state != ButtonState::Pressed {
        return None;
    }
    let keycode_helix = match &keyboard_input.logical_key {
        LogicalKey::Character(s) => HelixKeyCode::Char(s.as_str().get_char(0)),
        LogicalKey::Space => HelixKeyCode::Char(' '),
        LogicalKey::Backspace => HelixKeyCode::Backspace,
        LogicalKey::Enter => HelixKeyCode::Enter,
        LogicalKey::ArrowLeft => HelixKeyCode::Left,
        LogicalKey::ArrowRight => HelixKeyCode::Right,
        LogicalKey::ArrowUp => HelixKeyCode::Up,
        LogicalKey::ArrowDown => HelixKeyCode::Down,
        LogicalKey::Home => HelixKeyCode::Home,
        LogicalKey::End => HelixKeyCode::End,
        LogicalKey::PageUp => HelixKeyCode::PageUp,
        LogicalKey::PageDown => HelixKeyCode::PageDown,
        LogicalKey::Tab => HelixKeyCode::Tab,
        LogicalKey::Delete => HelixKeyCode::Delete,
        LogicalKey::Insert => HelixKeyCode::Insert,
        LogicalKey::Escape => HelixKeyCode::Esc,
        LogicalKey::Function(n) => if 1 <= *n && *n <= 24 { HelixKeyCode::F(*n) } else { HelixKeyCode::Null },
        LogicalKey::Other => HelixKeyCode::Null,
    };
    Some(keycode_helix)
}

/// Whether `key` is among `keys`.
pub fn contains_key(keys: &Vec<PhysicalKey>, key: PhysicalKey) -> (r: bool)
    ensures
        r == keys@.contains(key),
{
    let mut i: usize = 0;
    while i < keys.len()
        invariant
            i <= keys@.len(),
            forall|j: int| 0 <= j < i ==> keys@[j] != key,
        decreases keys@.len() - i,
    {
        if keys[i] == key {
            return true;
        }
        i = i + 1;
    }
    false
}

/// The modifiers held down among `pressed`, left or right.
pub open spec fn modifiers_of(pressed: Seq<PhysicalKey>) -> KeyModifiers {
    KeyModifiers {
        alt: pressed.contains(PhysicalKey::AltLeft) || pressed.contains(PhysicalKey::AltRight),
        ctrl: pressed.contains(PhysicalKey::ControlLeft) || pressed.contains(PhysicalKey::ControlRight),
        shift: pressed.contains(PhysicalKey::ShiftLeft) || pressed.contains(PhysicalKey::ShiftRight),
    }
}

/// The editor's modifiers for the keys held down.
pub fn key_code_to_helix_modifiers(key: &KeyStates) -> (r: KeyModifiers)
    ensures
        r == modifiers_of(key.pressed@),
{
    let alt = contains_key(&key.pressed, PhysicalKey::AltLeft) || contains_key(&key.pressed, PhysicalKey::AltRight);
    let ctrl = contains_key(&key.pressed, PhysicalKey::ControlLeft) || contains_key(&key.pressed, PhysicalKey::ControlRight);
    let shift = contains_key(&key.pressed, PhysicalKey::ShiftLeft) || contains_key(&key.pressed, PhysicalKey::ShiftRight);
    KeyModifiers { alt, ctrl, shift }
}

/// When a held arrow key first went down, and when it last repeated.
#[derive(Clone, Copy, PartialEq, Eq, Debug, Structural)]
pub struct KeyPressTiming {
    pub init: u64,
    pub long: Option<u64>,
}

/// The repeat state of the four arrow keys.
#[derive(Clone, Copy, PartialEq, Eq, Debug, Structural)]
pub struct ArrowKeysState {
    pub last_event_up: Option<KeyPressTiming>,
    pub last_event_down: Option<KeyPressTiming>,
    pub last_event_left: Option<KeyPressTiming>,
    pub last_event_right: Option<KeyPressTiming>,
}

/// `a - b`, or 0 when `b` is later.
pub open spec fn since(a: u64, b: u64) -> nat {
    if a >= b { (a - b) as nat } else { 0 }
}

/// One frame of key repeat for an arrow key: its timing after the frame, and
/// whether a key event is sent. A key that goes down sends an event at once;
/// held for `init_delay` it sends a second one, and then one every
/// `long_delay`; released, it forgets its timing.
pub open spec fn arrow_key_step(timing: Option<KeyPressTiming>, just_pressed: bool, pressed: bool, just_released: bool,
    now: u64, init_delay: u64, long_delay: u64) -> (Option<KeyPressTiming>, bool)
{
    if just_pressed {
        (Some(KeyPressTiming { init: now, long: None }), true)
    } else if pressed {
        let t = timing->0;
        let since_long = match t.long { Some(l) => since(now, l), None => 0 };
        if since(now, t.init) >= init_delay && t.long is None {
            (Some(KeyPressTiming { long: Some(now), ..t }), true)
        } else if since_long >= long_delay && Some(t.init) != t.long {
            (Some(KeyPressTiming { long: Some((t.long->0 + long_delay) as u64), ..t }), true)
        } else {
            (timing, false)
        }
    } else if just_released {
        (None, false)
    } else {
        (timing, false)
    }
}

/// The inputs on which `arrow_key_step` is defined: a key held down since an
/// earlier frame has a timing, a repeat before the first one needs a delay,
/// and the next repeat time fits.
pub open spec fn arrow_key_step_defined(timing: Option<KeyPressTiming>, just_pressed: bool, pressed: bool,
    now: u64, init_delay: u64, long_delay: u64) -> bool
{
    !just_pressed && pressed ==> {
        &&& timing is Some
        &&& (timing->0.long is None && since(now, timing->0.init) < init_delay ==> long_delay > 0)
        &&& (timing->0.long matches Some(l) ==> l + long_delay <= u64::MAX)
    }
}

/// One frame of key repeat for an arrow key; see `arrow_key_step`.
pub fn arrow_key_repeat(key_press_timing: &mut Option<KeyPressTiming>, just_pressed: bool, pressed: bool,
    just_released: bool, now: u64, init_delay: u64, long_delay: u64) -> (send: bool)
    requires
        arrow_key_step_defined(*old(key_press_timing), just_pressed, pressed, now, init_delay, long_delay),
    ensures
        (*final(key_press_timing), send) == arrow_key_step(*old(key_press_timing), just_pressed, pressed, just_released,
            now, init_delay, long_delay),
{
    if just_pressed {
        *key_press_timing = Some(KeyPressTiming { init: now, long: None });
        true
    } else if pressed {
        let timing = key_press_timing.unwrap();
        let init_press_time = timing.init;
        let long_press_time = timing.long;
        let since_init_press = now.saturating_sub(init_press_time);
        let since_long_press = match long_press_time {
            Some(long) => now.saturating_sub(long),
            None => 0,
        };
        if since_init_press >= init_delay && long_press_time.is_none() {
            *key_press_timing = Some(KeyPressTiming { long: Some(now), ..timing });
            true
        } else if since_long_press >= long_delay && Some(init_press_time) != long_press_time {
            let long = long_press_time.unwrap();
            *key_press_timing = Some(KeyPressTiming { long: Some(long + long_delay), ..timing });
            true
        } else {
            false
        }
    } else if just_released {
        *key_press_timing = None;
        false
    } else {
        false
    }
}

/// Whether the key is an arrow key.
pub open spec fn is_arrow(k: PhysicalKey) -> bool {
    k == PhysicalKey::ArrowUp || k == PhysicalKey::ArrowDown || k == PhysicalKey::ArrowLeft || k == PhysicalKey::ArrowRight
}

/// Whether the key is a digit key.
pub open spec fn is_digit(k: PhysicalKey) -> bool {
    k == PhysicalKey::Digit0 || k == PhysicalKey::Digit1 || k == PhysicalKey::Digit2 || k == PhysicalKey::Digit3
        || k == PhysicalKey::Digit4 || k == PhysicalKey::Digit5 || k == PhysicalKey::Digit6
        || k == PhysicalKey::Digit7 || k == PhysicalKey::Digit8 || k == PhysicalKey::Digit9
}

/// Whether a key event is left out of what the editor gets: arrow keys go
/// through key repeat, and control with a digit switches contexts.
pub open spec fn skipped_event(e: KeyboardInput, ctrl: bool) -> bool {
    is_arrow(e.key_code) || (is_digit(e.key_code) && ctrl)
}

/// The key codes the editor gets for `events`, in order.
pub open spec fn event_codes(events: Seq<KeyboardInput>, ctrl: bool) -> Seq<HelixKeyCode>
    decreases events.len(),
{
    if events.len() == 0 {
        Seq::empty()
    } else {
        let e = events.last();
        let rest = event_codes(events.drop_last(), ctrl);
        if skipped_event(e, ctrl) || e.state != ButtonState::Pressed {
            rest
        } else {
            rest.push(helix_code(e.logical_key))
        }
    }
}

/// What to do with the editor's inlay hints.
#[derive(Clone, Copy, PartialEq, Eq, Debug, Structural)]
pub enum InlayHintsAction {
    Keep,
    Enable,
    Disable,
}

/// What a frame of keyboard input sends to the editor: the modifiers, the key
/// codes in order, and what happens to the inlay hints.
pub struct KeyboardOutcome {
    pub modifiers: KeyModifiers,
    pub key_codes: Vec<HelixKeyCode>,
    pub inlay_hints: InlayHintsAction,
}

/// The key codes that key repeat sends for the arrow keys up, down, left,
/// right, in that order.
pub open spec fn arrow_codes(up: bool, down: bool, left: bool, right: bool) -> Seq<HelixKeyCode> {
    (if up { seq![HelixKeyCode::Up] } else { Seq::empty() })
        + (if down { seq![HelixKeyCode::Down] } else { Seq::empty() })
        + (if left { seq![HelixKeyCode::Left] } else { Seq::empty() })
        + (if right { seq![HelixKeyCode::Right] } else { Seq::empty() })
}

/// Key repeat of one arrow key from the key states.
fn arrow_key_fn(key: &KeyStates, code: PhysicalKey, timing: &mut Option<KeyPressTiming>, now: u64, init_delay: u64,
    long_delay: u64) -> (send: bool)
    requires
        arrow_key_step_defined(*old(timing), key.just_pressed@.contains(code), key.pressed@.contains(code), now,
            init_delay, long_delay),
    ensures
        (*final(timing), send) == arrow_key_step(*old(timing), key.just_pressed@.contains(code),
            key.pressed@.contains(code), key.just_released@.contains(code), now, init_delay, long_delay),
{
    let jp = contains_key(&key.just_pressed, code);
    let p = contains_key(&key.pressed, code);
    let jr = contains_key(&key.just_released, code);
    arrow_key_repeat(timing, jp, p, jr, now, init_delay, long_delay)
}

/// Key repeat of the four arrow keys for one frame: the repeat state after
/// it, and the key codes sent, up, down, left, right in that order.
pub open spec fn arrow_keys_step(a: ArrowKeysState, key: KeyStates, now: u64, init_delay: u64, long_delay: u64)
    -> (ArrowKeysState, Seq<HelixKeyCode>)
{
    let step = |t: Option<KeyPressTiming>, k: PhysicalKey| arrow_key_step(t, key.just_pressed@.contains(k),
        key.pressed@.contains(k), key.just_released@.contains(k), now, init_delay, long_delay);
    let up = step(a.last_event_up, PhysicalKey::ArrowUp);
    let down = step(a.last_event_down, PhysicalKey::ArrowDown);
    let left = step(a.last_event_left, PhysicalKey::ArrowLeft);
    let right = step(a.last_event_right, PhysicalKey::ArrowRight);
    (ArrowKeysState { last_event_up: up.0, last_event_down: down.0, last_event_left: left.0, last_event_right: right.0 },
        arrow_codes(up.1, down.1, left.1, right.1))
}

/// The inputs on which `arrow_keys_step` is defined.
pub open spec fn arrow_keys_step_defined(a: ArrowKeysState, key: KeyStates, now: u64, init_delay: u64, long_delay: u64) -> bool {
    &&& arrow_key_step_defined(a.last_event_up, key.just_pressed@.contains(PhysicalKey::ArrowUp),
        key.pressed@.contains(PhysicalKey::ArrowUp), now, init_delay, long_delay)
    &&& arrow_key_step_defined(a.last_event_down, key.just_pressed@.contains(PhysicalKey::ArrowDown),
        key.pressed@.contains(PhysicalKey::ArrowDown), now, init_delay, long_delay)
    &&& arrow_key_step_defined(a.last_event_left, key.just_pressed@.contains(PhysicalKey::ArrowLeft),
        key.pressed@.contains(PhysicalKey::ArrowLeft), now, init_delay, long_delay)
    &&& arrow_key_step_defined(a.last_event_right, key.just_pressed@.contains(PhysicalKey::ArrowRight),
        key.pressed@.contains(PhysicalKey::ArrowRight), now, init_delay, long_delay)
}

/// Key repeat of the four arrow keys for one frame; see `arrow_keys_step`.
pub fn arrow_keys_repeat(arrow_keys: &mut ArrowKeysState, key: &KeyStates, now: u64, init_delay: u64, long_delay: u64)
    -> (codes: Vec<HelixKeyCode>)
    requires
        arrow_keys_step_defined(*old(arrow_keys), *key, now, init_delay, long_delay),
    ensures
        (*final(arrow_keys), codes@) == arrow_keys_step(*old(arrow_keys), *key, now, init_delay, long_delay),
{
    let mut key_codes: Vec<HelixKeyCode> = Vec::new();
    let up = arrow_key_fn(key, PhysicalKey::ArrowUp, &mut arrow_keys.last_event_up, now, init_delay, long_delay);
    if up {
        key_codes.push(HelixKeyCode::Up);
    }
    let down = arrow_key_fn(key, PhysicalKey::ArrowDown, &mut arrow_keys.last_event_down, now, init_delay, long_delay);
    if down {
        key_codes.push(HelixKeyCode::Down);
    }
    let left = arrow_key_fn(key, PhysicalKey::ArrowLeft, &mut arrow_keys.last_event_left, now, init_delay, long_delay);
    if left {
        key_codes.push(HelixKeyCode::Left);
    }
    let right = arrow_key_fn(key, PhysicalKey::ArrowRight, &mut arrow_keys.last_event_right, now, init_delay, long_delay);
    if right {
        key_codes.push(HelixKeyCode::Right);
    }
    proof {
        assert(key_codes@ =~= arrow_codes(up, down, left, right));
    }
    key_codes
}

/// The key codes the editor gets for `keyboard_events`; see `event_codes`.
pub fn key_event_codes(keyboard_events: &Vec<KeyboardInput>, ctrl: bool) -> (codes: Vec<HelixKeyCode>)
    requires
        forall|i: int| 0 <= i < keyboard_events@.len() && !skipped_event(#[trigger] keyboard_events@[i], ctrl)
            && keyboard_events@[i].state == ButtonState::Pressed ==> key_has_text(keyboard_events@[i].logical_key),
    ensures
        codes@ == event_codes(keyboard_events@, ctrl),
{
    let mut key_codes: Vec<HelixKeyCode> = Vec::new();
    let n = keyboard_events.len();
    let mut i: usize = 0;
    while i < n
        invariant
            n == keyboard_events@.len(),
            i <= n,
            forall|j: int| 0 <= j < keyboard_events@.len() && !skipped_event(#[trigger] keyboard_events@[j], ctrl)
                && keyboard_events@[j].state == ButtonState::Pressed ==> key_has_text(keyboard_events@[j].logical_key),
            key_codes@ == event_codes(keyboard_events@.take(i as int), ctrl),
        decreases n - i,
    {
        let keyboard_input = &keyboard_events[i];
        proof {
            assert(keyboard_events@.take(i + 1).drop_last() =~= keyboard_events@.take(i as int));
            assert(keyboard_events@.take(i + 1).last() == keyboard_events@[i as int]);
        }
        let skip = match keyboard_input.key_code {
            PhysicalKey::ArrowUp | PhysicalKey::ArrowDown | PhysicalKey::ArrowLeft | PhysicalKey::ArrowRight => true,
            PhysicalKey::Digit1 | PhysicalKey::Digit2 | PhysicalKey::Digit3 | PhysicalKey::Digit4 | PhysicalKey::Digit5
            | PhysicalKey::Digit6 | PhysicalKey::Digit7 | PhysicalKey::Digit8 | PhysicalKey::Digit9
            | PhysicalKey::Digit0 => ctrl,
            _ => false,
        };
        if !skip {
            if let Some(keycode_helix) = keycode_helix_from_bevy(keyboard_input) {
                key_codes.push(keycode_helix);
            }
        }
        i = i + 1;
    }
    proof {
        assert(keyboard_events@.take(n as int) =~= keyboard_events@);
    }
    key_codes
}

/// What happens to the inlay hints: on when left control is held and left
/// alt goes down, off when either goes up.
pub open spec fn inlay_hints_action(key: KeyStates) -> InlayHintsAction {
    if key.pressed@.contains(PhysicalKey::ControlLeft) && key.just_pressed@.contains(PhysicalKey::AltLeft) {
        InlayHintsAction::Enable
    } else if key.just_released@.contains(PhysicalKey::ControlLeft) || key.just_released@.contains(PhysicalKey::AltLeft) {
        InlayHintsAction::Disable
    } else {
        InlayHintsAction::Keep
    }
}

/// One frame of keyboard input for the editor: key repeat for the arrow keys,
/// then the key codes of the key events that went down (but arrow keys, and
/// digits with control held), then the inlay hints.
pub fn input_keyboard(arrow_keys: &mut ArrowKeysState, keyboard_events: &Vec<KeyboardInput>, key: &KeyStates,
    init_delay: u64, long_delay: u64, now: u64) -> (out: KeyboardOutcome)
    requires
        arrow_keys_step_defined(*old(arrow_keys), *key, now, init_delay, long_delay),
        forall|i: int| 0 <= i < keyboard_events@.len()
            && !skipped_event(#[trigger] keyboard_events@[i], modifiers_of(key.pressed@).ctrl)
            && keyboard_events@[i].state == ButtonState::Pressed ==> key_has_text(keyboard_events@[i].logical_key),
    ensures
        *final(arrow_keys) == arrow_keys_step(*old(arrow_keys), *key, now, init_delay, long_delay).0,
        out.modifiers == modifiers_of(key.pressed@),
        out.key_codes@ == arrow_keys_step(*old(arrow_keys), *key, now, init_delay, long_delay).1
            + event_codes(keyboard_events@, modifiers_of(key.pressed@).ctrl),
        out.inlay_hints == inlay_hints_action(*key),
{
    let modifiers = key_code_to_helix_modifiers(key);
    let mut key_codes = arrow_keys_repeat(arrow_keys, key, now, init_delay, long_delay);
    let mut event_codes = key_event_codes(keyboard_events, modifiers.ctrl);
    key_codes.append(&mut event_codes);
    let inlay_hints = if contains_key(&key.pressed, PhysicalKey::ControlLeft) && contains_key(&key.just_pressed, PhysicalKey::AltLeft) {
        InlayHintsAction::Enable
    } else if contains_key(&key.just_released, PhysicalKey::ControlLeft) || contains_key(&key.just_released, PhysicalKey::AltLeft) {
        InlayHintsAction::Disable
    } else {
        InlayHintsAction::Keep
    };
    KeyboardOutcome { modifiers, key_codes, inlay_hints }
}

/// A mouse button of the window.
#[derive(Clone, Copy, PartialEq, Eq, Debug, Structural)]
pub enum MouseButton {
    Left,
    Right,
    Middle,
    Back,
    Forward,
    Other,
}

/// A mouse button the editor knows.
#[derive(Clone, Copy, PartialEq, Eq, Debug, Structural)]
pub enum HelixMouseButton {
    Left,
    Right,
    Middle,
}

/// What a mouse event of the editor reports.
#[derive(Clone, Copy, PartialEq, Eq, Debug, Structural)]
pub enum MouseEventKind {
    Down(HelixMouseButton),
    Up(HelixMouseButton),
    Drag(HelixMouseButton),
    DoubleClick(HelixMouseButton),
    ScrollDown,
    ScrollUp,
}

/// A mouse event of the editor, at a cell of the surface.
#[derive(Clone, Copy, PartialEq, Eq, Debug, Structural)]
pub struct MouseEvent {
    pub column: u16,
    pub row: u16,
    pub kind: MouseEventKind,
    pub modifiers: KeyModifiers,
}

/// The state of the mouse buttons this frame: held down, gone down this
/// frame, gone up this frame.
pub struct MouseButtons {
    pub pressed: Vec<MouseButton>,
    pub just_pressed: Vec<MouseButton>,
    pub just_released: Vec<MouseButton>,
}

/// When each mouse button was last released; a later entry for a button
/// overrides an earlier one.
pub struct MouseButtonState {
    pub last_clicked: Vec<(MouseButton, u64)>,
}

/// No button has two entries in `clicks`: they map each button to one time.
pub open spec fn buttons_distinct(clicks: Seq<(MouseButton, u64)>) -> bool {
    forall|i: int, j: int| 0 <= i < j < clicks.len() ==> (#[trigger] clicks[i]).0 != (#[trigger] clicks[j]).0
}

/// When `btn` was last released according to `clicks`.
pub open spec fn last_click(clicks: Seq<(MouseButton, u64)>, btn: MouseButton) -> Option<u64>
    decreases clicks.len(),
{
    if clicks.len() == 0 {
        None
    } else if clicks.last().0 == btn {
        Some(clicks.last().1)
    } else {
        last_click(clicks.drop_last(), btn)
    }
}

/// Whether a press of `btn` at `now` is a double click: the button was
/// released at most `delay` before.
pub open spec fn double_click(clicks: Seq<(MouseButton, u64)>, btn: MouseButton, delay: u64, now: u64) -> bool {
    match last_click(clicks, btn) {
        Some(t) => since(now, t) <= delay,
        None => false,
    }
}

/// The editor's button for a mouse button, if it has one.
pub open spec fn helix_button(btn: MouseButton) -> Option<HelixMouseButton> {
    match btn {
        MouseButton::Left => Some(HelixMouseButton::Left),
        MouseButton::Right => Some(HelixMouseButton::Right),
        MouseButton::Middle => Some(HelixMouseButton::Middle),
        _ => None,
    }
}

fn bevy2helix_mouse_button(btn: MouseButton) -> (r: Option<HelixMouseButton>)
    ensures
        r == helix_button(btn),
{
    match btn {
        MouseButton::Left => Some(HelixMouseButton::Left),
        MouseButton::Right => Some(HelixMouseButton::Right),
        MouseButton::Middle => Some(HelixMouseButton::Middle),
        _ => None,
    }
}

/// Entry `j` of `clicks` is the last one for its button.
pub open spec fn last_entry_for(clicks: Seq<(MouseButton, u64)>, j: int) -> bool {
    &&& 0 <= j < clicks.len()
    &&& forall|k: int| j < k < clicks.len() ==> (#[trigger] clicks[k]).0 != clicks[j].0
}

proof fn lemma_last_click_update(clicks: Seq<(MouseButton, u64)>, j: int, t: u64, btn: MouseButton)
    requires
        last_entry_for(clicks, j),
    ensures
        last_click(clicks.update(j, (clicks[j].0, t)), btn)
            == if btn == clicks[j].0 { Some(t) } else { last_click(clicks, btn) },
    decreases clicks.len(),
{
    let updated = clicks.update(j, (clicks[j].0, t));
    if j == clicks.len() - 1 {
        assert(updated.drop_last() =~= clicks.drop_last());
    } else {
        assert(clicks.last() == clicks[clicks.len() - 1]);
        assert(updated.drop_last() =~= clicks.drop_last().update(j, (clicks[j].0, t)));
        lemma_last_click_update(clicks.drop_last(), j, t, btn);
    }
}

proof fn lemma_last_click_none(clicks: Seq<(MouseButton, u64)>, btn: MouseButton)
    requires
        forall|k: int| 0 <= k < clicks.len() ==> (#[trigger] clicks[k]).0 != btn,
    ensures
        last_click(clicks, btn) is None,
    decreases clicks.len(),
{
    if clicks.len() > 0 {
        lemma_last_click_none(clicks.drop_last(), btn);
    }
}

impl MouseButtonState {
    /// When `btn` was last released.
    pub fn last_clicked(&self, btn: MouseButton) -> (r: Option<u64>)
        ensures
            r == last_click(self.last_clicked@, btn),
    {
        let mut i = self.last_clicked.len();
        proof {
            assert(self.last_clicked@.take(i as int) =~= self.last_clicked@);
        }
        while i > 0
            invariant
                i <= self.last_clicked@.len(),
                last_click(self.last_clicked@, btn) == last_click(self.last_clicked@.take(i as int), btn),
            decreases i,
        {
            let entry = self.last_clicked[i - 1];
            proof {
                let pre = self.last_clicked@.take(i as int);
                assert(pre.drop_last() =~= self.last_clicked@.take(i - 1));
                assert(pre.last() == entry);
            }
            if entry.0 == btn {
                return Some(entry.1);
            }
            i = i - 1;
        }
        None
    }

    /// Whether a press of `btn` at `now` is a double click, that is, within
    /// `delay` of its last release.
    pub fn is_double_click(&self, btn: &MouseButton, delay: u64, now: u64) -> (r: bool)
        ensures
            r == double_click(self.last_clicked@, *btn, delay, now),
    {
        match self.last_clicked(*btn) {
            Some(clicked) => now.saturating_sub(clicked) <= delay,
            None => false,
        }
    }

    /// Records that `btn` was released at `now`.
    pub fn insert(&mut self, btn: MouseButton, now: u64)
        ensures
            forall|b: MouseButton| #[trigger] last_click(final(self).last_clicked@, b)
                == if b == btn { Some(now) } else { last_click(old(self).last_clicked@, b) },
            buttons_distinct(old(self).last_clicked@) ==> buttons_distinct(final(self).last_clicked@),
    {
        let mut i = self.last_clicked.len();
        while i > 0
            invariant
                i <= self.last_clicked@.len(),
                self.last_clicked@ == old(self).last_clicked@,
                forall|k: int| i <= k < self.last_clicked@.len() ==> (#[trigger] self.last_clicked@[k]).0 != btn,
            decreases i,
        {
            if self.last_clicked[i - 1].0 == btn {
                let ghost before = self.last_clicked@;
                self.last_clicked.set(i - 1, (btn, now));
                proof {
                    assert forall|b: MouseButton| #[trigger] last_click(self.last_clicked@, b)
                        == if b == btn { Some(now) } else { last_click(before, b) } by {
                        lemma_last_click_update(before, i - 1, now, b);
                        assert(self.last_clicked@ =~= before.update(i - 1, (before[i - 1].0, now)));
                    }
                    assert forall|a: int| 0 <= a < self.last_clicked@.len() implies (#[trigger] self.last_clicked@[a]).0
                        == before[a].0 by {}
                }
                return;
            }
            i = i - 1;
        }
        let ghost before = self.last_clicked@;
        self.last_clicked.push((btn, now));
        proof {
            assert forall|b: MouseButton| #[trigger] last_click(self.last_clicked@, b)
                == if b == btn { Some(now) } else { last_click(before, b) } by {
                assert(self.last_clicked@.drop_last() =~= before);
            }
            if buttons_distinct(before) {
                assert forall|a: int, c: int| 0 <= a < c < self.last_clicked@.len() implies (#[trigger] self.last_clicked@[a]).0
                    != (#[trigger] self.last_clicked@[c]).0 by {
                    if c < before.len() {
                        assert(self.last_clicked@[a] == before[a] && self.last_clicked@[c] == before[c]);
                    } else {
                        assert(self.last_clicked@[a] == before[a]);
                    }
                }
            }
        }
    }
}

/// The mouse-down events of the editor for the buttons in `jp`.
pub open spec fn down_events(jp: Seq<MouseButton>, clicks: Seq<(MouseButton, u64)>, delay: u64, now: u64, column: u16,
    row: u16, modifiers: KeyModifiers) -> Seq<MouseEvent>
    decreases jp.len(),
{
    if jp.len() == 0 {
        Seq::empty()
    } else {
        let rest = down_events(jp.drop_last(), clicks, delay, now, column, row, modifiers);
        match helix_button(jp.last()) {
            Some(b) => rest.push(MouseEvent {
                column,
                row,
                kind: if double_click(clicks, jp.last(), delay, now) {
                    MouseEventKind::DoubleClick(b)
                } else {
                    MouseEventKind::Down(b)
                },
                modifiers,
            }),
            None => rest,
        }
    }
}

/// The mouse-up events of the editor for the buttons in `jr`.
pub open spec fn up_events(jr: Seq<MouseButton>, column: u16, row: u16, modifiers: KeyModifiers) -> Seq<MouseEvent>
    decreases jr.len(),
{
    if jr.len() == 0 {
        Seq::empty()
    } else {
        let rest = up_events(jr.drop_last(), column, row, modifiers);
        match helix_button(jr.last()) {
            Some(b) => rest.push(MouseEvent { column, row, kind: MouseEventKind::Up(b), modifiers }),
            None => rest,
        }
    }
}

/// The drag events of the editor for the buttons in `pressed` held since an
/// earlier frame (not in `jp`).
pub open spec fn drag_events(pressed: Seq<MouseButton>, jp: Seq<MouseButton>, column: u16, row: u16,
    modifiers: KeyModifiers) -> Seq<MouseEvent>
    decreases pressed.len(),
{
    if pressed.len() == 0 {
        Seq::empty()
    } else {
        let rest = drag_events(pressed.drop_last(), jp, column, row, modifiers);
        match helix_button(pressed.last()) {
            Some(b) => if jp.contains(pressed.last()) {
                rest
            } else {
                rest.push(MouseEvent { column, row, kind: MouseEventKind::Drag(b), modifiers })
            },
            None => rest,
        }
    }
}

/// Whether `btn` is among `buttons`.
pub fn contains_button(buttons: &Vec<MouseButton>, btn: MouseButton) -> (r: bool)
    ensures
        r == buttons@.contains(btn),
{
    let mut i: usize = 0;
    while i < buttons.len()
        invariant
            i <= buttons@.len(),
            forall|j: int| 0 <= j < i ==> buttons@[j] != btn,
        decreases buttons@.len() - i,
    {
        if buttons[i] == btn {
            return true;
        }
        i = i + 1;
    }
    false
}

/// The mouse events the editor gets this frame at the cell (`column`,
/// `row`): a down (or double-click) event for each button that went down, an
/// up event for each that went up, and, when the mouse moved, a drag event
/// for each held since an earlier frame; buttons the editor does not know are
/// left out.
pub fn handle_mouse_events(mouse_button: &MouseButtons, mouse_button_state: &MouseButtonState,
    modifiers: &KeyModifiers, column: u16, row: u16, pos_changed: bool, double_click_delay: u64, now: u64)
    -> (events: Vec<MouseEvent>)
    ensures
        events@ == down_events(mouse_button.just_pressed@, mouse_button_state.last_clicked@, double_click_delay, now,
            column, row, *modifiers) + up_events(mouse_button.just_released@, column, row, *modifiers)
            + if pos_changed {
                drag_events(mouse_button.pressed@, mouse_button.just_pressed@, column, row, *modifiers)
            } else {
                Seq::empty()
            },
{
    let mut events: Vec<MouseEvent> = Vec::new();
    let jp = &mouse_button.just_pressed;
    let mut i: usize = 0;
    while i < jp.len()
        invariant
            i <= jp@.len(),
            events@ == down_events(jp@.take(i as int), mouse_button_state.last_clicked@, double_click_delay, now,
                column, row, *modifiers),
        decreases jp@.len() - i,
    {
        let just_pressed = jp[i];
        proof {
            assert(jp@.take(i + 1).drop_last() =~= jp@.take(i as int));
        }
        let double_click = mouse_button_state.is_double_click(&just_pressed, double_click_delay, now);
        if let Some(helix_button) = bevy2helix_mouse_button(just_pressed) {
            let kind = if double_click {
                MouseEventKind::DoubleClick(helix_button)
            } else {
                MouseEventKind::Down(helix_button)
            };
            events.push(MouseEvent { column, row, kind, modifiers: *modifiers });
        }
        i = i + 1;
    }
    proof {
        assert(jp@.take(jp@.len() as int) =~= jp@);
    }
    let ghost downs = events@;
    let jr = &mouse_button.just_released;
    let mut i: usize = 0;
    while i < jr.len()
        invariant
            i <= jr@.len(),
            events@ == downs + up_events(jr@.take(i as int), column, row, *modifiers),
        decreases jr@.len() - i,
    {
        let just_released = jr[i];
        proof {
            assert(jr@.take(i + 1).drop_last() =~= jr@.take(i as int));
        }
        if let Some(helix_button) = bevy2helix_mouse_button(just_released) {
            events.push(MouseEvent { column, row, kind: MouseEventKind::Up(helix_button), modifiers: *modifiers });
        }
        proof {
            assert(events@ =~= downs + up_events(jr@.take(i + 1), column, row, *modifiers));
        }
        i = i + 1;
    }
    proof {
        assert(jr@.take(jr@.len() as int) =~= jr@);
    }
    let ghost downs_ups = events@;
    if pos_changed {
        let pressed = &mouse_button.pressed;
        let mut i: usize = 0;
        while i < pressed.len()
            invariant
                i <= pressed@.len(),
                events@ == downs_ups + drag_events(pressed@.take(i as int), jp@, column, row, *modifiers),
            decreases pressed@.len() - i,
        {
            let held = pressed[i];
            proof {
                assert(pressed@.take(i + 1).drop_last() =~= pressed@.take(i as int));
            }
            if !contains_button(jp, held) {
                if let Some(helix_button) = bevy2helix_mouse_button(held) {
                    events.push(MouseEvent { column, row, kind: MouseEventKind::Drag(helix_button), modifiers: *modifiers });
                }
            }
            proof {
                assert(events@ =~= downs_ups + drag_events(pressed@.take(i + 1), jp@, column, row, *modifiers));
            }
            i = i + 1;
        }
        proof {
            assert(pressed@.take(pressed@.len() as int) =~= pressed@);
        }
    } else {
        proof {
            assert(events@ =~= downs_ups + Seq::<MouseEvent>::empty());
        }
    }
    events
}

/// Records the release time `now` of every button in `just_released`, except
/// at the idle frame rate (where a press and its release may come in one
/// frame).
pub fn mouse_last_clicked(mouse_button_state: &mut MouseButtonState, just_released: &Vec<MouseButton>,
    idle: bool, now: u64)
    ensures
        forall|b: MouseButton| #[trigger] last_click(final(mouse_button_state).last_clicked@, b)
            == if !idle && just_released@.contains(b) { Some(now) } else { last_click(old(mouse_button_state).last_clicked@, b) },
{
    if idle {
        return;
    }
    let mut i: usize = 0;
    while i < just_released.len()
        invariant
            i <= just_released@.len(),
            forall|b: MouseButton| #[trigger] last_click(mouse_button_state.last_clicked@, b)
                == if just_released@.take(i as int).contains(b) { Some(now) } else { last_click(old(mouse_button_state).last_clicked@, b) },
        decreases just_released@.len() - i,
    {
        let btn = just_released[i];
        mouse_button_state.insert(btn, now);
        proof {
            assert forall|b: MouseButton| just_released@.take(i + 1).contains(b)
                <==> (just_released@.take(i as int).contains(b) || b == btn) by {
                let next = just_released@.take(i + 1);
                let prev = just_released@.take(i as int);
                if next.contains(b) {
                    let j = choose|j: int| 0 <= j < next.len() && next[j] == b;
                    if j < i {
                        assert(prev[j] == b);
                    }
                }
                if prev.contains(b) {
                    let j = choose|j: int| 0 <= j < prev.len() && prev[j] == b;
                    assert(next[j] == b);
                }
                if b == btn {
                    assert(next[i as int] == b);
                }
            }
        }
        i = i + 1;
    }
    proof {
        assert(just_released@.take(just_released@.len() as int) =~= just_released@);
    }
}

/// The unit a wheel event is measured in.
#[derive(Clone, Copy, PartialEq, Eq, Debug, Structural)]
pub enum MouseScrollUnit {
    Line,
    Pixel,
}

/// A wheel event: its unit and whether its vertical amount is negative.
#[derive(Clone, Copy, PartialEq, Eq, Debug, Structural)]
pub struct ScrollEvent {
    pub unit: MouseScrollUnit,
    pub y_negative: bool,
}

/// The editor's scroll events for the wheel events in `events`.
pub open spec fn scroll_events(events: Seq<ScrollEvent>) -> Seq<MouseEvent>
    decreases events.len(),
{
    if events.len() == 0 {
        Seq::empty()
    } else {
        let rest = scroll_events(events.drop_last());
        let e = events.last();
        if e.unit == MouseScrollUnit::Line {
            rest.push(MouseEvent {
                column: 10,
                row: 10,
                kind: if e.y_negative { MouseEventKind::ScrollDown } else { MouseEventKind::ScrollUp },
                modifiers: KeyModifiers { alt: false, ctrl: false, shift: false },
            })
        } else {
            rest
        }
    }
}

/// The editor's scroll events for the wheel events of this frame: one per
/// event measured in lines, down for a negative amount and up otherwise.
pub fn handle_scroll_events(events: &Vec<ScrollEvent>) -> (out: Vec<MouseEvent>)
    ensures
        out@ == scroll_events(events@),
{
    let mut out: Vec<MouseEvent> = Vec::new();
    let mut i: usize = 0;
    while i < events.len()
        invariant
            i <= events@.len(),
            out@ == scroll_events(events@.take(i as int)),
        decreases events@.len() - i,
    {
        let scroll_event = events[i];
        proof {
            assert(events@.take(i + 1).drop_last() =~= events@.take(i as int));
        }
        match scroll_event.unit {
            MouseScrollUnit::Line => {
                let kind = if scroll_event.y_negative { MouseEventKind::ScrollDown } else { MouseEventKind::ScrollUp };
                out.push(MouseEvent {
                    column: 10,
                    row: 10,
                    kind,
                    modifiers: KeyModifiers { alt: false, ctrl: false, shift: false },
                });
            },
            MouseScrollUnit::Pixel => {},
        }
        i = i + 1;
    }
    proof {
        assert(events@.take(events@.len() as int) =~= events@);
    }
    out
}

/// What a mouse event of the terminal reports.
#[derive(Clone, Copy, PartialEq, Eq, Debug, Structural)]
pub enum WezMouseEventKind {
    Press,
    Release,
    Move,
}

/// The button of a mouse event of the terminal; wheel buttons carry the
/// number of steps.
#[derive(Clone, Copy, PartialEq, Eq, Debug, Structural)]
pub enum WezMouseButton {
    Left,
    Right,
    Middle,
    NoButton,
    WheelUp(usize),
    WheelDown(usize),
    WheelLeft(usize),
    WheelRight(usize),
}

/// The terminal's button for a mouse button, if it has one.
pub open spec fn wez_button(btn: MouseButton) -> Option<WezMouseButton> {
    match btn {
        MouseButton::Left => Some(WezMouseButton::Left),
        MouseButton::Right => Some(WezMouseButton::Right),
        MouseButton::Middle => Some(WezMouseButton::Middle),
        _ => None,
    }
}

/// The terminal events for the buttons `buttons` with kind `kind`; buttons
/// the terminal does not know are left out.
pub open spec fn wez_button_events(buttons: Seq<MouseButton>, kind: WezMouseEventKind) -> Seq<(WezMouseEventKind, WezMouseButton)>
    decreases buttons.len(),
{
    if buttons.len() == 0 {
        Seq::empty()
    } else {
        let rest = wez_button_events(buttons.drop_last(), kind);
        match wez_button(buttons.last()) {
            Some(b) => rest.push((kind, b)),
            None => rest,
        }
    }
}

/// The wheel turned by whole lines in one event: the signs (-1, 0 or 1) of
/// its horizontal and vertical amounts.
#[derive(Clone, Copy, PartialEq, Eq, Debug, Structural)]
pub struct LineScroll {
    pub x_sign: i8,
    pub y_sign: i8,
}

/// The wheel turned by pixels in a frame, in steps of 20 pixels: the sign of
/// the total on each axis and its whole number of steps.
#[derive(Clone, Copy, PartialEq, Eq, Debug, Structural)]
pub struct PixelScroll {
    pub x_sign: i8,
    pub x_steps: usize,
    pub y_sign: i8,
    pub y_steps: usize,
}

/// The wheel steps of the line scrolls on one axis (vertical or horizontal):
/// three per event, in the direction of its sign.
pub open spec fn line_total(events: Seq<LineScroll>, vertical: bool) -> int
    decreases events.len(),
{
    if events.len() == 0 {
        0
    } else {
        let e = events.last();
        line_total(events.drop_last(), vertical) + 3 * (if vertical { e.y_sign as int } else { e.x_sign as int })
    }
}

/// `n` steps, at most `usize::MAX`.
pub open spec fn steps(n: int) -> usize {
    if n > usize::MAX { usize::MAX } else { n as usize }
}

/// The wheel events for totals `x` and `y`: up, down, right, left, each when
/// its total points that way.
pub open spec fn wheel_events(x: int, y: int) -> Seq<(WezMouseEventKind, WezMouseButton)> {
    (if y > 0 { seq![(WezMouseEventKind::Press, WezMouseButton::WheelUp(steps(y)))] } else { Seq::empty() })
        + (if y < 0 { seq![(WezMouseEventKind::Press, WezMouseButton::WheelDown(steps(-y)))] } else { Seq::empty() })
        + (if x > 0 { seq![(WezMouseEventKind::Press, WezMouseButton::WheelRight(steps(x)))] } else { Seq::empty() })
        + (if x < 0 { seq![(WezMouseEventKind::Press, WezMouseButton::WheelLeft(steps(-x)))] } else { Seq::empty() })
}

/// The signs are -1, 0 or 1.
pub open spec fn signs_valid(events: Seq<LineScroll>) -> bool {
    forall|i: int| 0 <= i < events.len() ==> -1 <= (#[trigger] events[i]).x_sign <= 1 && -1 <= events[i].y_sign <= 1
}

proof fn lemma_line_total_bound(events: Seq<LineScroll>, vertical: bool)
    requires
        signs_valid(events),
    ensures
        -3 * events.len() <= line_total(events, vertical) <= 3 * events.len(),
    decreases events.len(),
{
    if events.len() > 0 {
        lemma_line_total_bound(events.drop_last(), vertical);
    }
}

fn wez_button_events_of(buttons: &Vec<MouseButton>, kind: WezMouseEventKind, out: &mut Vec<(WezMouseEventKind, WezMouseButton)>)
    ensures
        final(out)@ == old(out)@ + wez_button_events(buttons@, kind),
{
    let mut i: usize = 0;
    while i < buttons.len()
        invariant
            i <= buttons@.len(),
            out@ == old(out)@ + wez_button_events(buttons@.take(i as int), kind),
        decreases buttons@.len() - i,
    {
        proof {
            assert(buttons@.take(i + 1).drop_last() =~= buttons@.take(i as int));
            assert(buttons@.take(i + 1).last() == buttons@[i as int]);
        }
        let b = match buttons[i] {
            MouseButton::Left => Some(WezMouseButton::Left),
            MouseButton::Right => Some(WezMouseButton::Right),
            MouseButton::Middle => Some(WezMouseButton::Middle),
            _ => None,
        };
        let ghost before = out@;
        if let Some(b) = b {
            out.push((kind, b));
            proof {
                assert(out@ =~= before.push((kind, b)));
            }
        }
        proof {
            assert(out@ =~= old(out)@ + wez_button_events(buttons@.take(i + 1), kind));
        }
        i = i + 1;
    }
    proof {
        assert(buttons@.take(buttons@.len() as int) =~= buttons@);
    }
}

fn to_steps(n: i128) -> (r: usize)
    requires
        n >= 0,
    ensures
        r == steps(n as int),
{
    if n > usize::MAX as i128 { usize::MAX } else { n as usize }
}

/// `steps` in the direction of `sign`.
pub open spec fn signed(sign: i8, steps: usize) -> int {
    if sign > 0 { steps as int } else if sign < 0 { -(steps as int) } else { 0 }
}

fn signed_steps(sign: i8, steps: usize) -> (r: i128)
    ensures
        r == signed(sign, steps),
{
    if sign > 0 { steps as i128 } else if sign < 0 { -(steps as i128) } else { 0 }
}

fn push_wheel_events(x: i128, y: i128, out: &mut Vec<(WezMouseEventKind, WezMouseButton)>)
    requires
        -0x1_0000_0000_0000_0000_0000 < x < 0x1_0000_0000_0000_0000_0000,
        -0x1_0000_0000_0000_0000_0000 < y < 0x1_0000_0000_0000_0000_0000,
    ensures
        final(out)@ == old(out)@ + wheel_events(x as int, y as int),
{
    if y > 0 {
        out.push((WezMouseEventKind::Press, WezMouseButton::WheelUp(to_steps(y))));
    }
    if y < 0 {
        out.push((WezMouseEventKind::Press, WezMouseButton::WheelDown(to_steps(-y))));
    }
    if x > 0 {
        out.push((WezMouseEventKind::Press, WezMouseButton::WheelRight(to_steps(x))));
    }
    if x < 0 {
        out.push((WezMouseEventKind::Press, WezMouseButton::WheelLeft(to_steps(-x))));
    }
    proof {
        assert(out@ =~= old(out)@ + wheel_events(x as int, y as int));
    }
}

/// The mouse events the terminal gets in a frame: a press for each button
/// that went down, a release for each that went up, a move when the mouse
/// moved, then the wheel by lines (three steps per event, summed per axis)
/// and the wheel by pixels; buttons the terminal does not know are left out.
pub fn terminal_mouse_events(just_pressed: &Vec<MouseButton>, just_released: &Vec<MouseButton>, moved: bool,
    line_scroll: &Vec<LineScroll>, pixel_scroll: &PixelScroll) -> (out: Vec<(WezMouseEventKind, WezMouseButton)>)
    requires
        signs_valid(line_scroll@),
    ensures
        out@ == wez_button_events(just_pressed@, WezMouseEventKind::Press)
            + wez_button_events(just_released@, WezMouseEventKind::Release)
            + (if moved { seq![(WezMouseEventKind::Move, WezMouseButton::NoButton)] } else { Seq::empty() })
            + wheel_events(line_total(line_scroll@, false), line_total(line_scroll@, true))
            + wheel_events(signed(pixel_scroll.x_sign, pixel_scroll.x_steps), signed(pixel_scroll.y_sign, pixel_scroll.y_steps)),
{
    let mut out: Vec<(WezMouseEventKind, WezMouseButton)> = Vec::new();
    wez_button_events_of(just_pressed, WezMouseEventKind::Press, &mut out);
    wez_button_events_of(just_released, WezMouseEventKind::Release, &mut out);
    if moved {
        out.push((WezMouseEventKind::Move, WezMouseButton::NoButton));
    }
    let ghost before_wheel = out@;
    let mut x_acc: i128 = 0;
    let mut y_acc: i128 = 0;
    let mut i: usize = 0;
    while i < line_scroll.len()
        invariant
            i <= line_scroll@.len(),
            signs_valid(line_scroll@),
            x_acc == line_total(line_scroll@.take(i as int), false),
            y_acc == line_total(line_scroll@.take(i as int), true),
            -3 * i <= x_acc <= 3 * i,
            -3 * i <= y_acc <= 3 * i,
        decreases line_scroll@.len() - i,
    {
        proof {
            assert(line_scroll@.take(i + 1).drop_last() =~= line_scroll@.take(i as int));
            assert(line_scroll@.take(i + 1).last() == line_scroll@[i as int]);
        }
        let e = line_scroll[i];
        x_acc = x_acc + 3 * (e.x_sign as i128);
        y_acc = y_acc + 3 * (e.y_sign as i128);
        i = i + 1;
    }
    proof {
        assert(line_scroll@.take(line_scroll@.len() as int) =~= line_scroll@);
    }
    push_wheel_events(x_acc, y_acc, &mut out);
    let px = signed_steps(pixel_scroll.x_sign, pixel_scroll.x_steps);
    let py = signed_steps(pixel_scroll.y_sign, pixel_scroll.y_steps);
    push_wheel_events(px, py, &mut out);
    out
}

} // verus!
