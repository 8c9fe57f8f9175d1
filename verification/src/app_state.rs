//! The application's states and the decisions taken on them each frame:
//! which systems run (run conditions), switching between the code editor
//! and the terminal, the camera modes driven by the keyboard, the window
//! title, and asset loading.

use vstd::prelude::*;

use crate::terminal::BevyWezTerm;

verus! {

/// The loading stages of the application.
#[derive(Clone, Copy, PartialEq, Eq, Debug, Structural)]
pub enum AppMode {
    AssetLoading,
    AssetsLoaded,
    Main,
}

/// How the camera is driven: with the mouse visible and the camera still,
/// zooming (reader), or flying freely.
#[derive(Clone, Copy, PartialEq, Eq, Debug, Structural)]
pub enum AppCameraMode {
    Main,
    Reader,
    Fly,
}

/// What the application shows: the code editor or the terminal.
#[derive(Clone, Copy, PartialEq, Eq, Debug, Structural)]
pub enum AppContext {
    CodeEditor,
    Terminal,
}

impl Default for AppMode {
    fn default() -> (m: Self)
        ensures
            m == AppMode::AssetLoading,
    {
        AppMode::AssetLoading
    }
}

impl Default for AppCameraMode {
    fn default() -> (m: Self)
        ensures
            m == AppCameraMode::Main,
    {
        AppCameraMode::Main
    }
}

impl Default for AppContext {
    fn default() -> (c: Self)
        ensures
            c == AppContext::CodeEditor,
    {
        AppContext::CodeEditor
    }
}

/// The position of a loading stage in the order in which they come.
pub open spec fn app_mode_rank(m: AppMode) -> int {
    match m {
        AppMode::AssetLoading => 0,
        AppMode::AssetsLoaded => 1,
        AppMode::Main => 2,
    }
}

/// Whether the application is in its main stage.
pub fn main_app_mode(app_mode: AppMode) -> (r: bool)
    ensures
        r == (app_mode == AppMode::Main),
{
    app_mode == AppMode::Main
}

/// In the main stage and not flying.
pub fn main_app_mode_no_fly(app_mode: AppMode, cam_mode: AppCameraMode) -> (r: bool)
    ensures
        r == (app_mode == AppMode::Main && cam_mode != AppCameraMode::Fly),
{
    app_mode == AppMode::Main && cam_mode != AppCameraMode::Fly
}

/// In the main stage, showing the code editor.
pub fn text_editor_context(app_mode: AppMode, app_ctx: AppContext) -> (r: bool)
    ensures
        r == (app_mode == AppMode::Main && app_ctx == AppContext::CodeEditor),
{
    app_mode == AppMode::Main && app_ctx == AppContext::CodeEditor
}

/// Past asset loading, showing the code editor, and not flying.
pub fn text_editor_context_no_fly(app_mode: AppMode, app_ctx: AppContext, cam_mode: AppCameraMode) -> (r: bool)
    ensures
        r == (app_mode_rank(app_mode) > app_mode_rank(AppMode::AssetsLoaded) && app_ctx == AppContext::CodeEditor
            && cam_mode != AppCameraMode::Fly),
{
    let past_loading = match app_mode {
        AppMode::Main => true,
        _ => false,
    };
    past_loading && app_ctx == AppContext::CodeEditor && cam_mode != AppCameraMode::Fly
}

/// In the main stage, showing the terminal.
pub fn terminal_context(app_mode: AppMode, app_ctx: AppContext) -> (r: bool)
    ensures
        r == (app_mode == AppMode::Main && app_ctx == AppContext::Terminal),
{
    app_mode == AppMode::Main && app_ctx == AppContext::Terminal
}

/// A context switcher of the interface: the context it switches to.
#[derive(Clone, Copy, PartialEq, Eq, Debug, Structural)]
pub enum AppContextSwitcher {
    Entry(AppContext),
}

/// The state of a context switcher: clicked and not yet handled, and shown
/// as the active one.
#[derive(Clone, Copy, PartialEq, Eq, Debug, Structural)]
pub struct ContextSwitcherEntry {
    pub is_triggered: bool,
    pub is_active: bool,
}

/// The context of a switcher.
pub open spec fn switcher_context(s: AppContextSwitcher) -> AppContext {
    match s {
        AppContextSwitcher::Entry(c) => c,
    }
}

/// The context asked for by the first `n` switchers: that of the last
/// triggered one, if any.
pub open spec fn triggered_context(switchers: Seq<(AppContextSwitcher, ContextSwitcherEntry)>, n: int) -> Option<AppContext>
    decreases n,
{
    if n <= 0 {
        None
    } else if switchers[n - 1].1.is_triggered {
        Some(switcher_context(switchers[n - 1].0))
    } else {
        triggered_context(switchers, n - 1)
    }
}

/// Handles the clicked switchers: the context to switch to is that of the
/// last one clicked (`None`: no switch), and every click is marked handled.
pub fn apply_context_switcher_state(switchers: &mut Vec<(AppContextSwitcher, ContextSwitcherEntry)>) -> (next: Option<AppContext>)
    ensures
        next == triggered_context(old(switchers)@, old(switchers)@.len() as int),
        final(switchers)@.len() == old(switchers)@.len(),
        forall|i: int| 0 <= i < old(switchers)@.len() ==> {
            &&& (#[trigger] final(switchers)@[i]).0 == old(switchers)@[i].0
            &&& !final(switchers)@[i].1.is_triggered
            &&& final(switchers)@[i].1.is_active == old(switchers)@[i].1.is_active
        },
{
    let ghost before = switchers@;
    let mut next: Option<AppContext> = None;
    let mut i: usize = 0;
    while i < switchers.len()
        invariant
            i <= before.len(),
            switchers@.len() == before.len(),
            next == triggered_context(before, i as int),
            forall|k: int| 0 <= k < i ==> {
                &&& (#[trigger] switchers@[k]).0 == before[k].0
                &&& !switchers@[k].1.is_triggered
                &&& switchers@[k].1.is_active == before[k].1.is_active
            },
            forall|k: int| i <= k < before.len() ==> #[trigger] switchers@[k] == before[k],
        decreases before.len() - i,
    {
        let (switcher, entry) = switchers[i];
        if entry.is_triggered {
            next = match switcher {
                AppContextSwitcher::Entry(c) => Some(c),
            };
            switchers.set(i, (switcher, ContextSwitcherEntry { is_triggered: false, is_active: entry.is_active }));
        }
        i = i + 1;
    }
    next
}

/// A change of how a switcher is shown.
#[derive(Clone, Copy, PartialEq, Eq, Debug, Structural)]
pub enum SwitcherHighlight {
    Highlight,
    Unhighlight,
}

/// The highlight changes for the first `n` switchers when `current` is the
/// context shown: the switcher of the current context lights up, the others
/// go dark, each only when it is not shown so already.
pub open spec fn highlight_changes(switchers: Seq<(AppContextSwitcher, ContextSwitcherEntry)>, current: AppContext, n: int) -> Seq<
    (usize, SwitcherHighlight),
>
    decreases n,
{
    if n <= 0 {
        Seq::empty()
    } else {
        let r = highlight_changes(switchers, current, n - 1);
        let (s, e) = switchers[n - 1];
        if switcher_context(s) == current && !e.is_active {
            r.push(((n - 1) as usize, SwitcherHighlight::Highlight))
        } else if switcher_context(s) != current && e.is_active {
            r.push(((n - 1) as usize, SwitcherHighlight::Unhighlight))
        } else {
            r
        }
    }
}

/// Shows the switcher of the current context as the active one, once no
/// switch is pending: returns the switchers (by index) to highlight or
/// unhighlight; afterwards exactly the switcher of `current` is active.
pub fn highlight_active_context_switcher(
    switchers: &mut Vec<(AppContextSwitcher, ContextSwitcherEntry)>,
    current: AppContext,
    switch_pending: bool,
) -> (changes: Vec<(usize, SwitcherHighlight)>)
    ensures
        switch_pending ==> changes@.len() == 0 && final(switchers)@ == old(switchers)@,
        !switch_pending ==> {
            &&& changes@ == highlight_changes(old(switchers)@, current, old(switchers)@.len() as int)
            &&& final(switchers)@.len() == old(switchers)@.len()
            &&& forall|i: int| 0 <= i < old(switchers)@.len() ==> {
                &&& (#[trigger] final(switchers)@[i]).0 == old(switchers)@[i].0
                &&& final(switchers)@[i].1.is_triggered == old(switchers)@[i].1.is_triggered
                &&& final(switchers)@[i].1.is_active == (switcher_context(old(switchers)@[i].0) == current)
            }
        },
{
    let mut changes: Vec<(usize, SwitcherHighlight)> = Vec::new();
    if switch_pending {
        return changes;
    }
    let ghost before = switchers@;
    let mut i: usize = 0;
    while i < switchers.len()
        invariant
            i <= before.len(),
            switchers@.len() == before.len(),
            changes@ == highlight_changes(before, current, i as int),
            forall|k: int| 0 <= k < i ==> {
                &&& (#[trigger] switchers@[k]).0 == before[k].0
                &&& switchers@[k].1.is_triggered == before[k].1.is_triggered
                &&& switchers@[k].1.is_active == (switcher_context(before[k].0) == current)
            },
            forall|k: int| i <= k < before.len() ==> #[trigger] switchers@[k] == before[k],
        decreases before.len() - i,
    {
        let (switcher, entry) = switchers[i];
        let context = match switcher {
            AppContextSwitcher::Entry(c) => c,
        };
        if context == current && !entry.is_active {
            changes.push((i, SwitcherHighlight::Highlight));
            switchers.set(i, (switcher, ContextSwitcherEntry { is_triggered: entry.is_triggered, is_active: true }));
        } else if context != current && entry.is_active {
            changes.push((i, SwitcherHighlight::Unhighlight));
            switchers.set(i, (switcher, ContextSwitcherEntry { is_triggered: entry.is_triggered, is_active: false }));
        }
        i = i + 1;
    }
    changes
}

/// After highlighting, highlighting again with the same context changes
/// nothing.
pub proof fn lemma_highlight_settles(switchers: Seq<(AppContextSwitcher, ContextSwitcherEntry)>, current: AppContext, n: int)
    requires
        0 <= n <= switchers.len(),
        forall|i: int| 0 <= i < n ==> (#[trigger] switchers[i]).1.is_active == (switcher_context(switchers[i].0) == current),
    ensures
        highlight_changes(switchers, current, n).len() == 0,
    decreases n,
{
    if n > 0 {
        lemma_highlight_settles(switchers, current, n - 1);
    }
}

/// The mode of the reader camera: reading (scrolling and zooming) or
/// flying.
#[derive(Clone, Copy, PartialEq, Eq, Debug, Structural)]
pub enum ReaderCameraMode {
    Reader,
    Fly,
}

/// The movement limits put on the reader camera: zoom only, the defaults,
/// or those of flying.
#[derive(Clone, Copy, PartialEq, Eq, Debug, Structural)]
pub enum CameraRestrictions {
    ZoomOnly,
    Default,
    Flying,
}

/// The keys the keyboard handling reads in one frame. `keys_pressed` is the
/// number of keys held.
#[derive(Clone, Copy, PartialEq, Eq, Debug, Structural)]
pub struct ShortcutKeys {
    pub ctrl_left_pressed: bool,
    pub ctrl_right_pressed: bool,
    pub ctrl_left_just_pressed: bool,
    pub ctrl_left_just_released: bool,
    pub home_just_pressed: bool,
    pub escape_pressed: bool,
    pub key1_just_pressed: bool,
    pub key2_just_pressed: bool,
    pub key9_just_pressed: bool,
    pub keys_pressed: usize,
}

/// What the keyboard handling asks for in one frame: the physics debug view
/// on or off, the camera's new mode and limits, the mouse cursor shown or
/// hidden, the next camera mode of the application, and the next context.
#[derive(Clone, Copy, PartialEq, Eq, Debug, Structural)]
pub struct ShortcutOutcome {
    pub physics_debug: bool,
    pub camera_mode: ReaderCameraMode,
    pub restrictions: Option<CameraRestrictions>,
    pub cursor_visible: Option<bool>,
    pub next_camera_mode: Option<AppCameraMode>,
    pub next_context: Option<AppContext>,
}

/// The keyboard shortcuts of one frame. Left control with 9 flips the
/// physics debug view. Left control pressed alone (not flying) limits the
/// camera to zooming in reader mode; released in reader mode, it restores
/// the default limits. Left control with Home (two keys held) starts
/// flying, or, when flying, stops it, as does Escape. Control with 1 shows
/// the code editor, with 2 the terminal (2 wins when both are pressed).
pub open spec fn shortcut_outcome(k: ShortcutKeys, physics_debug: bool, camera_mode: ReaderCameraMode) -> ShortcutOutcome {
    let single = k.keys_pressed == 1;
    let flying = camera_mode == ReaderCameraMode::Fly;
    let (r1, c1, n1) = if k.ctrl_left_just_pressed && single && !flying {
        (Some(CameraRestrictions::ZoomOnly), Some(true), Some(AppCameraMode::Reader))
    } else if k.ctrl_left_just_released && camera_mode == ReaderCameraMode::Reader && !flying {
        (Some(CameraRestrictions::Default), Some(true), Some(AppCameraMode::Main))
    } else {
        (None, None, None)
    };
    let fly_keys = k.ctrl_left_pressed && k.home_just_pressed && k.keys_pressed == 2;
    let (mode, r2, c2, n2) = if fly_keys && !flying {
        (ReaderCameraMode::Fly, Some(CameraRestrictions::Flying), Some(false), Some(AppCameraMode::Fly))
    } else if (fly_keys || k.escape_pressed) && flying {
        (ReaderCameraMode::Reader, Some(CameraRestrictions::Default), Some(true), Some(AppCameraMode::Main))
    } else {
        (camera_mode, r1, c1, n1)
    };
    let ctrl = k.ctrl_left_pressed || k.ctrl_right_pressed;
    ShortcutOutcome {
        physics_debug: if k.ctrl_left_pressed && k.key9_just_pressed { !physics_debug } else { physics_debug },
        camera_mode: mode,
        restrictions: r2,
        cursor_visible: c2,
        next_camera_mode: n2,
        next_context: if ctrl && k.key2_just_pressed {
            Some(AppContext::Terminal)
        } else if ctrl && k.key1_just_pressed {
            Some(AppContext::CodeEditor)
        } else {
            None
        },
    }
}

/// One frame of keyboard shortcuts; see `shortcut_outcome`. Where both
/// camera rules fire in one frame the later one's limits, cursor and mode
/// are those that remain, as each overrides the former.
pub fn keyboard_input(keys: &ShortcutKeys, physics_debug: bool, camera_mode: ReaderCameraMode) -> (r: ShortcutOutcome)
    ensures
        r == shortcut_outcome(*keys, physics_debug, camera_mode),
{
    let physics_debug = if keys.ctrl_left_pressed && keys.key9_just_pressed { !physics_debug } else { physics_debug };
    let single_key_pressed = keys.keys_pressed == 1;
    let fly_mode = camera_mode == ReaderCameraMode::Fly;
    let mut restrictions: Option<CameraRestrictions> = None;
    let mut cursor_visible: Option<bool> = None;
    let mut next_camera_mode: Option<AppCameraMode> = None;
    if keys.ctrl_left_just_pressed && single_key_pressed && !fly_mode {
        restrictions = Some(CameraRestrictions::ZoomOnly);
        cursor_visible = Some(true);
        next_camera_mode = Some(AppCameraMode::Reader);
    } else if keys.ctrl_left_just_released && camera_mode == ReaderCameraMode::Reader && !fly_mode {
        restrictions = Some(CameraRestrictions::Default);
        cursor_visible = Some(true);
        next_camera_mode = Some(AppCameraMode::Main);
    }
    let fly_mode_keys_pressed = keys.ctrl_left_pressed && keys.home_just_pressed && keys.keys_pressed == 2;
    let mut mode = camera_mode;
    if fly_mode_keys_pressed && camera_mode != ReaderCameraMode::Fly {
        mode = ReaderCameraMode::Fly;
        restrictions = Some(CameraRestrictions::Flying);
        cursor_visible = Some(false);
        next_camera_mode = Some(AppCameraMode::Fly);
    } else if (fly_mode_keys_pressed || keys.escape_pressed) && camera_mode == ReaderCameraMode::Fly {
        mode = ReaderCameraMode::Reader;
        restrictions = Some(CameraRestrictions::Default);
        cursor_visible = Some(true);
        next_camera_mode = Some(AppCameraMode::Main);
    }
    let ctrl_pressed = keys.ctrl_left_pressed || keys.ctrl_right_pressed;
    let mut next_context: Option<AppContext> = None;
    if ctrl_pressed {
        if keys.key1_just_pressed {
            next_context = Some(AppContext::CodeEditor);
        }
        if keys.key2_just_pressed {
            next_context = Some(AppContext::Terminal);
        }
    }
    ShortcutOutcome { physics_debug, camera_mode: mode, restrictions, cursor_visible, next_camera_mode, next_context }
}

/// Pressing control with Home twice, two keys held each time, starts flying
/// and then stops it: the camera is back in reader mode with the default
/// limits and the application back in its main camera mode.
pub proof fn lemma_fly_toggle(k: ShortcutKeys, physics_debug: bool)
    requires
        k.ctrl_left_pressed,
        k.home_just_pressed,
        k.keys_pressed == 2,
    ensures
        shortcut_outcome(k, physics_debug, ReaderCameraMode::Reader).camera_mode == ReaderCameraMode::Fly,
        shortcut_outcome(k, physics_debug, ReaderCameraMode::Reader).next_camera_mode == Some(AppCameraMode::Fly),
        shortcut_outcome(k, physics_debug, ReaderCameraMode::Fly).camera_mode == ReaderCameraMode::Reader,
        shortcut_outcome(k, physics_debug, ReaderCameraMode::Fly).next_camera_mode == Some(AppCameraMode::Main),
        shortcut_outcome(k, physics_debug, ReaderCameraMode::Fly).restrictions == Some(CameraRestrictions::Default),
{
}

/// Where the window title comes from this frame: the editor's title, or
/// the title of the terminal at an index.
#[derive(Clone, Copy, PartialEq, Eq, Debug, Structural)]
pub enum TitleSource {
    Editor,
    Terminal(usize),
}

/// The last of the first `n` terminals that is active and changed.
pub open spec fn changed_terminal(terminals: Seq<BevyWezTerm>, n: int) -> Option<usize>
    decreases n,
{
    if n <= 0 {
        None
    } else if terminals[n - 1].active && terminals[n - 1].state_changed {
        Some((n - 1) as usize)
    } else {
        changed_terminal(terminals, n - 1)
    }
}

/// Where the window title comes from: in the code editor, the editor's
/// title when the editor renders again (`editor_should_render` is `None`
/// when there is no editor); in the terminal, the title of the last active
/// terminal whose state changed. `None`: the title stays.
pub fn window_title_source(context: AppContext, editor_should_render: Option<bool>, terminals: &Vec<BevyWezTerm>) -> (r: Option<TitleSource>)
    ensures
        r == match context {
            AppContext::CodeEditor => if editor_should_render == Some(true) { Some(TitleSource::Editor) } else { None },
            AppContext::Terminal => match changed_terminal(terminals@, terminals@.len() as int) {
                Some(i) => Some(TitleSource::Terminal(i)),
                None => None,
            },
        },
{
    match context {
        AppContext::CodeEditor => {
            if editor_should_render == Some(true) {
                Some(TitleSource::Editor)
            } else {
                None
            }
        },
        AppContext::Terminal => {
            let mut found: Option<usize> = None;
            let mut i: usize = 0;
            while i < terminals.len()
                invariant
                    i <= terminals@.len(),
                    found == changed_terminal(terminals@, i as int),
                decreases terminals@.len() - i,
            {
                if terminals[i].active() && terminals[i].state_changed() {
                    found = Some(i);
                }
                i = i + 1;
            }
            match found {
                Some(i) => Some(TitleSource::Terminal(i)),
                None => None,
            }
        },
    }
}

/// Where the editor jumps for a path clicked in the terminal at a 1-based
/// row and column: the code editor is shown and the 0-based position taken
/// (0 stays 0).
pub fn clicked_path_position(row: usize, col: usize) -> (r: (AppContext, usize, usize))
    ensures
        r.0 == AppContext::CodeEditor,
        r.1 == if row > 0 { row - 1 } else { 0 },
        r.2 == if col > 0 { col - 1 } else { 0 },
{
    let row0 = if row > 0 { row - 1 } else { 0 };
    let col0 = if col > 0 { col - 1 } else { 0 };
    (AppContext::CodeEditor, row0, col0)
}

/// Whether every asset has loaded: the fonts and the cursor model. The
/// application then moves on from asset loading.
pub fn asset_loading_tracking(fonts_loaded: bool, cursor_loaded: bool) -> (r: Option<AppMode>)
    ensures
        r == if fonts_loaded && cursor_loaded { Some(AppMode::AssetsLoaded) } else { None },
{
    if fonts_loaded && cursor_loaded {
        Some(AppMode::AssetsLoaded)
    } else {
        None
    }
}

} // verus!
