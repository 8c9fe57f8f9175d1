use kodiki::app_state::{
    apply_context_switcher_state, asset_loading_tracking, clicked_path_position, highlight_active_context_switcher,
    keyboard_input, main_app_mode, main_app_mode_no_fly, terminal_context, text_editor_context,
    text_editor_context_no_fly, window_title_source, AppCameraMode, AppContext, AppContextSwitcher, AppMode,
    CameraRestrictions, ContextSwitcherEntry, ReaderCameraMode, ShortcutKeys, SwitcherHighlight, TitleSource,
};
use kodiki::fonts::{FontError, FontLoader, GlyphFont};
use kodiki::framerate::{
    animations_allowed, collect_state_lines, indicator_click, tick_log_message, update, CameraAction, DebugLineColor,
    FramerateDebugState, FramerateIndicator, FrameInput, FramerateManager, FramerateMode,
    IdleTimer, Limiter, UpdateMode, ACTIVE_FRAME_NANOS, IDLE_FRAME_NANOS, IDLE_TIMER_NANOS, SMOOTH_FRAME_NANOS,
    WORKING_FRAME_NANOS,
};
use kodiki::glyph_class::GlyphClass;
use kodiki::hover::{HoverAction, HoverInput, MouseHoverState, HOVER_DELAY_NANOS};
use kodiki::input::{
    arrow_key_repeat, handle_mouse_events, handle_scroll_events, input_keyboard, key_code_to_helix_modifiers,
    keycode_helix_from_bevy, mouse_last_clicked, ArrowKeysState,
    ButtonState, HelixKeyCode, HelixMouseButton, InlayHintsAction, KeyModifiers, KeyPressTiming, KeyStates,
    KeyboardInput, LogicalKey, MouseButton, MouseButtonState, MouseButtons, MouseEventKind, MouseScrollUnit,
    PhysicalKey, ScrollEvent, WezKeyCode,
};
use kodiki::language_server::{
    convert_diagnostic, convert_diagnostics, documents_of_server, method_call_error, progress_update,
    configuration_for, publish_applies, publish_diagnostics, server_exited, split_section, workspace_edit_response,
    written_status, ServedDocument, DiagnosticTag, DocumentServer, ErrorCode,
    LspDiagnostic, LspPosition, MethodCallFailure, NumberOrString, Severity, WorkDoneProgress,
};
use kodiki::lsp::{content_length_frame, file_path_to_string};
use kodiki::mesh::{
    collect_triangles_from_vertices, generate_connecting_quads, generate_glyph_back_face_indices,
    generate_quad_indices, offset_indices, run_triangle_adjacency_tests, Edge, Triangle,
};
use kodiki::minimap::{
    build_colored_rows, cut_colored_row, diff_gutter_marks, preview_rows, pink, plan_bookmarks, scroll_duration_ms, BookmarkColor, BookmarkPlan,
    ColoredString, ColoredStringRow, DocumentSymbol, Hunk, HunkKind, HunkMark, MinimapGlyph, MinimapGrapheme,
    MinimapScrollAnimation, MinimapViewport, MinimapHover, MinimapPointerInput, ViewportAlpha, FramerateWish, SYMBOL_CLASS, SYMBOL_CONSTANT, SYMBOL_FIELD, SYMBOL_FUNCTION,
};
use kodiki::selection::{check_selection_recursive, SelectionNode};
use kodiki::search::{
    byte_to_char, escape_pattern, update_search_matches, update_selection_search_matches, DocumentStamp, Matches,
    MatchesMapCache, SearchKind, SelectionSummary,
};
use kodiki::strings::{decimal_len, push_decimal, push_decimal_padded};
use kodiki::surface::rows::SurfaceRow;
use kodiki::surface::surface_bevy::{SurfaceBevy, SurfaceHelix};
use kodiki::surface::surfaces_map::{despawn_unused_surfaces, has_drawn_surface, has_surface, surfaces_to_spawn};
use kodiki::surface::text::{is_ascii_punctuation_char, is_numeric_str, is_punctuation_str, is_space_str};
use kodiki::surface::{Cell, DespawnResource, DESPAWN_DELAY_NANOS, DisplayColor, RowOffsetDirection, SpawnGroups, SurfaceCoords};

use kodiki::terminal::{cursor_placement, BevyWezTerm, CursorPlacement};
use std::path::PathBuf;

fn color(v: u32) -> DisplayColor {
    DisplayColor { r: v, g: v, b: v, a: v }
}

fn cell(symbol: &str, fg: u32) -> Cell {
    Cell { symbol: symbol.to_string(), fg: color(fg), bg: color(0), bg_is_reset: true }
}

fn class(path: &str) -> GlyphClass {
    GlyphClass { font_path: path.to_string(), is_emoji: false }
}

// ---------------------------------------------------------------- mesh

fn tri(a: u16, b: u16, c: u16) -> Triangle {
    Triangle {
        edges: [
            Edge { i0: a, i1: b, adjacent: false },
            Edge { i0: b, i1: c, adjacent: false },
            Edge { i0: c, i1: a, adjacent: false },
        ],
    }
}

#[test]
fn mesh_edge_adjacency_either_direction() {
    let e = Edge { i0: 2, i1: 1, adjacent: false };
    assert!(e.is_adjacent(&tri(0, 1, 2)));
    let far = Edge { i0: 5, i1: 6, adjacent: false };
    assert!(!far.is_adjacent(&tri(0, 1, 2)));
}

#[test]
fn mesh_shared_edge_marked_on_both_triangles() {
    let triangles = collect_triangles_from_vertices(&vec![0, 1, 2, 2, 1, 3]);
    assert_eq!(triangles.len(), 2);
    // edge 1-2 is shared; the others are not
    assert!(triangles[0].edges[1].adjacent);
    assert!(!triangles[0].edges[0].adjacent);
    assert!(!triangles[0].edges[2].adjacent);
    assert!(triangles[1].edges[0].adjacent);
    assert!(!triangles[1].edges[1].adjacent);
    assert!(!triangles[1].edges[2].adjacent);
}

#[test]
fn mesh_adjacency_marking_idempotent() {
    let mut triangles = collect_triangles_from_vertices(&vec![0, 1, 2, 2, 1, 3]);
    let before: Vec<[bool; 3]> =
        triangles.iter().map(|t| [t.edges[0].adjacent, t.edges[1].adjacent, t.edges[2].adjacent]).collect();
    run_triangle_adjacency_tests(&mut triangles);
    let after: Vec<[bool; 3]> =
        triangles.iter().map(|t| [t.edges[0].adjacent, t.edges[1].adjacent, t.edges[2].adjacent]).collect();
    assert_eq!(before, after);
}

#[test]
fn mesh_offset_indices() {
    let mut indices = vec![0u16, 1, 2];
    offset_indices(&mut indices, 10);
    assert_eq!(indices, vec![10, 11, 12]);
    let mut same = vec![3u16, 4];
    offset_indices(&mut same, 0);
    assert_eq!(same, vec![3, 4]);
}

#[test]
fn mesh_back_face_inverts_winding() {
    let mut indices = vec![0u16, 1, 2];
    generate_glyph_back_face_indices(&mut indices, 3);
    assert_eq!(indices, vec![0, 1, 2, 3, 5, 4]);
}

#[test]
fn mesh_quad_indices() {
    let mut indices = vec![7u16];
    generate_quad_indices(&mut indices);
    assert_eq!(indices, vec![7, 0, 2, 1, 0, 3, 2]);
}

#[test]
fn mesh_connecting_quads_for_boundary_edges() {
    let triangles = collect_triangles_from_vertices(&vec![0, 1, 2]);
    let mut indices = vec![0u16, 1, 2];
    let sources = generate_connecting_quads(&triangles, 6, &mut indices);
    // three boundary edges, six copied vertices each
    assert_eq!(sources.len(), 18);
    assert_eq!(&sources[0..6], &[1, 0, 3, 3, 4, 1]);
    assert_eq!(indices.len(), 3 + 18);
}

// ---------------------------------------------------------------- fonts

#[test]
fn fonts_loader_extensions() {
    let loader = FontLoader;
    assert_eq!(loader.extensions(), vec!["otf", "ttf"]);
}

#[test]
fn fonts_invalid_bytes_refused() {
    let r = GlyphFont::from_bytes(vec![1, 2, 3, 4], "broken.ttf".to_string());
    assert!(matches!(r, Err(FontError::InvalidFont)));
    let loader = FontLoader;
    assert!(matches!(loader.load(Vec::new(), "empty.ttf".to_string()), Err(FontError::InvalidFont)));
}

// ---------------------------------------------------------------- text classes

#[test]
fn text_classes() {
    assert!(is_ascii_punctuation_char('!'));
    assert!(!is_ascii_punctuation_char('a'));
    assert!(is_punctuation_str("(){}"));
    assert!(!is_punctuation_str("a_"));
    assert!(is_numeric_str("123"));
    assert!(!is_numeric_str("12a"));
    assert!(is_space_str(" "));
    assert!(is_space_str("\t"));
    assert!(!is_space_str("  "));
}

// ---------------------------------------------------------------- surface

#[test]
fn surface_coords_rows() {
    let mut c = SurfaceCoords::new(RowOffsetDirection::Down, 5);
    assert_eq!(c.row_index_global(), 5);
    assert_eq!(c.row_index_wcache(), 0);
    c.next_row();
    c.next_column();
    assert_eq!(c.row_index_global(), 6);
    assert_eq!(c.column, 1);
}

#[test]
fn spawn_groups_collect_by_surface() {
    let mut groups: SpawnGroups<u32> = SpawnGroups::new();
    groups.add(&"a".to_string(), 1);
    groups.add(&"b".to_string(), 2);
    groups.add(&"a".to_string(), 3);
    assert_eq!(groups.per_surface.len(), 2);
    assert_eq!(groups.per_surface[0].0, "a");
    assert_eq!(groups.per_surface[0].1, vec![1, 3]);
    assert_eq!(groups.per_surface[1].1, vec![2]);
}

#[test]
fn surface_update_segments_words() {
    let name = "editor".to_string();
    let mut surface = SurfaceBevy::new(&name, true, false, 4, 1, 0);
    let helix = SurfaceHelix {
        area_width: 4,
        area_height: 1,
        content: vec![cell("a", 1), cell("b", 1), cell(" ", 1), cell("c", 1)],
        anchor_bottom: false,
        frozen: false, dirty: true,
    };
    let classes = vec![class("main"), class("main"), class("main"), class("main")];
    let mut words = SpawnGroups::new();
    let mut lines = SpawnGroups::new();
    let mut despawn = DespawnResource::new();
    surface.update_classified(&helix, 0, &classes, &color(0), &mut words, &mut lines, &mut despawn);
    assert_eq!(surface.rows.len(), 1);
    let row = &surface.rows[0];
    assert_eq!(row.words.len(), 2);
    assert_eq!(row.words[0].string, "ab");
    assert_eq!(row.words[0].column, 0);
    assert_eq!(row.words[1].string, "c");
    assert_eq!(row.words[1].column, 3);
    assert_eq!(row.lines.len(), 0);
    assert_eq!(words.per_surface.len(), 1);
    assert_eq!(words.per_surface[0].1.len(), 2);
    assert!(despawn.recursive.is_empty());
}

#[test]
fn surface_update_splits_on_color_and_font() {
    let name = "s".to_string();
    let mut surface = SurfaceBevy::new(&name, false, false, 3, 1, 0);
    let helix = SurfaceHelix {
        area_width: 3,
        area_height: 1,
        content: vec![cell("a", 1), cell("b", 2), cell("c", 2)],
        anchor_bottom: false,
        frozen: false, dirty: true,
    };
    let classes = vec![class("main"), class("main"), class("other")];
    let mut words = SpawnGroups::new();
    let mut lines = SpawnGroups::new();
    let mut despawn = DespawnResource::new();
    surface.update_classified(&helix, 0, &classes, &color(0), &mut words, &mut lines, &mut despawn);
    let strings: Vec<String> = surface.rows[0].words.iter().map(|w| w.string.clone()).collect();
    assert_eq!(strings, vec!["a", "b", "c"]);
}

#[test]
fn surface_update_coloring_lines() {
    let name = "s".to_string();
    let mut surface = SurfaceBevy::new(&name, false, false, 3, 1, 0);
    let mut cells = vec![cell("a", 1), cell("b", 1), cell("c", 1)];
    cells[0].bg = color(7);
    cells[0].bg_is_reset = false;
    cells[1].bg = color(7);
    cells[1].bg_is_reset = false;
    let helix = SurfaceHelix { area_width: 3, area_height: 1, content: cells, anchor_bottom: false, frozen: false, dirty: true };
    let classes = vec![class("main"), class("main"), class("main")];
    let mut words = SpawnGroups::new();
    let mut lines = SpawnGroups::new();
    let mut despawn = DespawnResource::new();
    surface.update_classified(&helix, 0, &classes, &color(0), &mut words, &mut lines, &mut despawn);
    let row = &surface.rows[0];
    assert_eq!(row.lines.len(), 1);
    assert_eq!(row.lines[0].column, 0);
    assert_eq!(row.lines[0].length, 2);
    assert_eq!(lines.per_surface.len(), 1);
}

#[test]
fn surface_update_skipped_when_frozen() {
    let name = "s".to_string();
    let mut surface = SurfaceBevy::new(&name, false, false, 2, 1, 0);
    let helix = SurfaceHelix {
        area_width: 2,
        area_height: 1,
        content: vec![cell("a", 1), cell("b", 1)],
        anchor_bottom: false,
        frozen: true, dirty: true,
    };
    let mut words = SpawnGroups::new();
    let mut lines = SpawnGroups::new();
    let mut despawn = DespawnResource::new();
    surface.update_classified(&helix, 0, &vec![class("m"), class("m")], &color(0), &mut words, &mut lines, &mut despawn);
    assert_eq!(surface.rows.len(), 0);
    assert!(words.per_surface.is_empty());
}

#[test]
fn surface_second_update_keeps_words() {
    let name = "s".to_string();
    let mut surface = SurfaceBevy::new(&name, false, false, 2, 1, 0);
    let helix = SurfaceHelix {
        area_width: 2,
        area_height: 1,
        content: vec![cell("a", 1), cell("b", 1)],
        anchor_bottom: false,
        frozen: false, dirty: true,
    };
    let classes = vec![class("m"), class("m")];
    let mut words = SpawnGroups::new();
    let mut lines = SpawnGroups::new();
    let mut despawn = DespawnResource::new();
    surface.update_classified(&helix, 0, &classes, &color(0), &mut words, &mut lines, &mut despawn);
    surface.rows[0].words[0].entity = Some(42);
    let mut words2 = SpawnGroups::new();
    surface.update_classified(&helix, 0, &classes, &color(0), &mut words2, &mut lines, &mut despawn);
    assert!(words2.per_surface.is_empty());
    assert_eq!(surface.rows[0].words[0].entity, Some(42));
    assert!(despawn.recursive.is_empty());
}

#[test]
fn surface_resize_despawns_dropped_rows() {
    let name = "s".to_string();
    let mut surface = SurfaceBevy::new(&name, false, false, 1, 2, 0);
    let helix = SurfaceHelix {
        area_width: 1,
        area_height: 2,
        content: vec![cell("a", 1), cell("b", 1)],
        anchor_bottom: false,
        frozen: false, dirty: true,
    };
    let classes = vec![class("m"), class("m")];
    let mut words = SpawnGroups::new();
    let mut lines = SpawnGroups::new();
    let mut despawn = DespawnResource::new();
    surface.update_classified(&helix, 0, &classes, &color(0), &mut words, &mut lines, &mut despawn);
    surface.rows[1].words[0].entity = Some(9);
    surface.on_resize(1, &mut despawn);
    assert_eq!(surface.rows.len(), 1);
    assert_eq!(despawn.recursive, vec![9]);
}

#[test]
fn surface_rows_clear() {
    let mut row = SurfaceRow::new();
    row.clear();
    assert!(row.words.is_empty());
    assert!(row.lines.is_empty());
}

// ---------------------------------------------------------------- strings

#[test]
fn strings_decimal() {
    let mut s = String::from("n=");
    push_decimal(&mut s, 1205);
    assert_eq!(s, "n=1205");
    let mut z = String::new();
    push_decimal(&mut z, 0);
    assert_eq!(z, "0");
    let mut p = String::new();
    push_decimal_padded(&mut p, 7, 2);
    assert_eq!(p, "07");
    assert_eq!(decimal_len(u64::MAX), 20);
}

// ---------------------------------------------------------------- frame rate

fn calm_frame(delta: u64) -> FrameInput {
    FrameInput {
        pressed_keys: Vec::new(),
        any_mouse_button_pressed: false,
        any_scroll_event: false,
        camera_move_requested: false,
        camera_zooming: false,
        camera_moving: false,
        camera_dormant: false,
        camera_awake: false,
        delta,
    }
}

#[test]
fn framerate_defaults() {
    let m = FramerateManager::default();
    assert_eq!(m.mode(), FramerateMode::Smooth);
    assert_eq!(m.idle_frame_duration(), IDLE_FRAME_NANOS);
    assert_eq!(m.active_frame_duration(), ACTIVE_FRAME_NANOS);
    assert_eq!(m.smooth_frame_duration(), SMOOTH_FRAME_NANOS);
    assert_eq!(m.working_frame_duration(), WORKING_FRAME_NANOS);
    assert_eq!(m.active_framerate_reason(), "[EMPTY]");
    assert!(!m.idle_timer_finished());
}

#[test]
fn framerate_request_taken_once() {
    let mut m = FramerateManager::default();
    m.request_active_framerate("typing".to_string());
    assert!(m.active_framerate_requested());
    assert!(m.read_and_apply_active_framerate_request());
    assert!(!m.read_and_apply_active_framerate_request());
    assert_eq!(m.active_framerate_reason(), "typing");
    m.request_smooth_framerate("camera".to_string());
    assert!(m.read_and_apply_smooth_framerate_condition());
    assert!(!m.read_and_apply_smooth_framerate_condition());
}

#[test]
fn framerate_mode_durations() {
    let mut m = FramerateManager::default();
    assert_eq!(m.set_mode_and_get_duration(FramerateMode::Idle), IDLE_FRAME_NANOS);
    assert!(m.matches_expected_frame_duration(IDLE_FRAME_NANOS));
    assert_eq!(m.set_mode_and_get_duration(FramerateMode::Active), ACTIVE_FRAME_NANOS);
    assert_eq!(m.current_frame_duration(), ACTIVE_FRAME_NANOS);
}

#[test]
fn framerate_idle_timer_ticks_add_up() {
    let mut a = IdleTimer::new(100);
    a.tick(30);
    a.tick(50);
    let mut b = IdleTimer::new(100);
    b.tick(80);
    assert_eq!(a, b);
    a.tick(30);
    assert!(a.finished());
    assert_eq!(a.elapsed, 100);
    a.reset();
    assert!(!a.finished());
    assert_eq!(a.hundredths(), 0);
}

#[test]
fn framerate_tick_log() {
    let mut m = FramerateManager::default();
    m.tick_idle_timer(IDLE_TIMER_NANOS / 4);
    assert_eq!(m.logs(), &vec!["tick idle timer 25.00%".to_string()]);
    assert_eq!(tick_log_message(1005), "tick idle timer 10.05%");
}

#[test]
fn framerate_log_clear_on_next_entry() {
    let mut m = FramerateManager::default();
    m.log("one".to_string());
    m.log("two".to_string());
    m.clear_on_next_entry();
    m.log("three".to_string());
    assert_eq!(m.logs(), &vec!["three".to_string()]);
}

#[test]
fn framerate_animations_allowed() {
    let mut m = FramerateManager::default();
    assert!(animations_allowed(WORKING_FRAME_NANOS, &m));
    assert!(!animations_allowed(WORKING_FRAME_NANOS + 1, &m));
    m.set_mode(FramerateMode::Idle);
    assert!(!m.animations_allowed(0));
}

#[test]
fn framerate_limiter_off_switches_to_smooth() {
    let mut m = FramerateManager::default();
    m.set_mode(FramerateMode::Active);
    let out = update(&mut m, &calm_frame(0), Limiter::Off, UpdateMode::Continuous);
    assert_eq!(m.mode(), FramerateMode::Smooth);
    assert_eq!(out.limiter, Limiter::Manual(SMOOTH_FRAME_NANOS));
    assert_eq!(out.camera, CameraAction::Keep);
}

#[test]
fn framerate_calm_frames_go_idle() {
    let mut m = FramerateManager::default();
    m.set_mode(FramerateMode::Active);
    let out = update(&mut m, &calm_frame(IDLE_TIMER_NANOS / 2), Limiter::Manual(ACTIVE_FRAME_NANOS), UpdateMode::Continuous);
    assert_eq!(m.mode(), FramerateMode::Active);
    assert_eq!(out.limiter, Limiter::Manual(ACTIVE_FRAME_NANOS));
    let out = update(&mut m, &calm_frame(IDLE_TIMER_NANOS), Limiter::Manual(ACTIVE_FRAME_NANOS), UpdateMode::Continuous);
    assert_eq!(m.mode(), FramerateMode::Idle);
    assert_eq!(out.limiter, Limiter::Off);
    assert_eq!(
        out.focused_mode,
        UpdateMode::ReactiveLowPower { max_wait: IDLE_FRAME_NANOS, ignore_cursor_movement: true }
    );
    assert_eq!(m.logs(), &vec!["limiting fps to idle".to_string()]);
}

#[test]
fn framerate_key_press_leaves_idle() {
    let mut m = FramerateManager::default();
    m.set_mode(FramerateMode::Idle);
    let mut frame = calm_frame(1000);
    frame.pressed_keys = vec!["KeyA".to_string()];
    let out = update(
        &mut m,
        &frame,
        Limiter::Off,
        UpdateMode::ReactiveLowPower { max_wait: IDLE_FRAME_NANOS, ignore_cursor_movement: true },
    );
    assert_eq!(m.mode(), FramerateMode::Active);
    assert_eq!(out.limiter, Limiter::Manual(ACTIVE_FRAME_NANOS));
    assert_eq!(out.focused_mode, UpdateMode::Continuous);
    assert_eq!(
        m.logs(),
        &vec!["pressed: KeyA".to_string(), "active framerate condition -> limiting fps to 60".to_string()]
    );
}

#[test]
fn framerate_camera_wakes_up() {
    let mut m = FramerateManager::default();
    let mut frame = calm_frame(1000);
    frame.camera_moving = true;
    frame.camera_dormant = true;
    let out = update(&mut m, &frame, Limiter::Manual(SMOOTH_FRAME_NANOS), UpdateMode::Continuous);
    assert_eq!(out.camera, CameraAction::WakeUp);
    assert_eq!(m.mode(), FramerateMode::Smooth);
    assert!(m.camera_potentially_active());
}

// ---------------------------------------------------------------- input

fn key(k: LogicalKey, state: ButtonState) -> KeyboardInput {
    KeyboardInput { key_code: PhysicalKey::Other, logical_key: k, state }
}

#[test]
fn input_helix_key_codes() {
    let k = key(LogicalKey::Character("xy".to_string()), ButtonState::Pressed);
    assert_eq!(keycode_helix_from_bevy(&k), Some(HelixKeyCode::Char('x')));
    assert_eq!(keycode_helix_from_bevy(&key(LogicalKey::Space, ButtonState::Pressed)), Some(HelixKeyCode::Char(' ')));
    assert_eq!(keycode_helix_from_bevy(&key(LogicalKey::Escape, ButtonState::Pressed)), Some(HelixKeyCode::Esc));
    assert_eq!(keycode_helix_from_bevy(&key(LogicalKey::Function(24), ButtonState::Pressed)), Some(HelixKeyCode::F(24)));
    assert_eq!(keycode_helix_from_bevy(&key(LogicalKey::Function(25), ButtonState::Pressed)), Some(HelixKeyCode::Null));
    assert_eq!(keycode_helix_from_bevy(&key(LogicalKey::Enter, ButtonState::Released)), None);
}

#[test]
fn input_wez_key_codes() {
    assert_eq!(BevyWezTerm::keycode_wez_from_bevy(&key(LogicalKey::ArrowLeft, ButtonState::Pressed)), Some(WezKeyCode::LeftArrow));
    assert_eq!(BevyWezTerm::keycode_wez_from_bevy(&key(LogicalKey::Function(3), ButtonState::Released)), Some(WezKeyCode::Function(3)));
    assert_eq!(BevyWezTerm::keycode_wez_from_bevy(&key(LogicalKey::Other, ButtonState::Pressed)), Some(WezKeyCode::Char('?')));
}

#[test]
fn input_modifiers() {
    let keys = KeyStates {
        pressed: vec![PhysicalKey::ControlRight, PhysicalKey::ShiftLeft],
        just_pressed: Vec::new(),
        just_released: Vec::new(),
    };
    let expected = KeyModifiers { alt: false, ctrl: true, shift: true };
    assert_eq!(key_code_to_helix_modifiers(&keys), expected);
    assert_eq!(BevyWezTerm::key_modifiers_bevy_to_wez(&keys), expected);
}

#[test]
fn input_arrow_key_repeat() {
    let mut timing: Option<KeyPressTiming> = None;
    assert!(arrow_key_repeat(&mut timing, true, true, false, 100, 50, 10));
    assert_eq!(timing, Some(KeyPressTiming { init: 100, long: None }));
    assert!(!arrow_key_repeat(&mut timing, false, true, false, 120, 50, 10));
    assert!(arrow_key_repeat(&mut timing, false, true, false, 150, 50, 10));
    assert_eq!(timing, Some(KeyPressTiming { init: 100, long: Some(150) }));
    assert!(!arrow_key_repeat(&mut timing, false, true, false, 155, 50, 10));
    assert!(arrow_key_repeat(&mut timing, false, true, false, 161, 50, 10));
    assert_eq!(timing, Some(KeyPressTiming { init: 100, long: Some(160) }));
    assert!(!arrow_key_repeat(&mut timing, false, false, true, 170, 50, 10));
    assert_eq!(timing, None);
}

#[test]
fn input_keyboard_frame() {
    let mut arrows = ArrowKeysState { last_event_up: None, last_event_down: None, last_event_left: None, last_event_right: None };
    let keys = KeyStates {
        pressed: vec![PhysicalKey::ArrowUp, PhysicalKey::ControlLeft],
        just_pressed: vec![PhysicalKey::ArrowUp],
        just_released: Vec::new(),
    };
    let events = vec![
        KeyboardInput { key_code: PhysicalKey::ArrowUp, logical_key: LogicalKey::ArrowUp, state: ButtonState::Pressed },
        KeyboardInput {
            key_code: PhysicalKey::Digit1,
            logical_key: LogicalKey::Character("1".to_string()),
            state: ButtonState::Pressed,
        },
        KeyboardInput {
            key_code: PhysicalKey::Other,
            logical_key: LogicalKey::Character("a".to_string()),
            state: ButtonState::Pressed,
        },
    ];
    let out = input_keyboard(&mut arrows, &events, &keys, 50, 10, 1000);
    assert_eq!(out.key_codes, vec![HelixKeyCode::Up, HelixKeyCode::Char('a')]);
    assert!(out.modifiers.ctrl);
    assert_eq!(out.inlay_hints, InlayHintsAction::Keep);
    assert_eq!(arrows.last_event_up, Some(KeyPressTiming { init: 1000, long: None }));
}

#[test]
fn input_inlay_hints() {
    let mut arrows = ArrowKeysState { last_event_up: None, last_event_down: None, last_event_left: None, last_event_right: None };
    let keys = KeyStates {
        pressed: vec![PhysicalKey::ControlLeft, PhysicalKey::AltLeft],
        just_pressed: vec![PhysicalKey::AltLeft],
        just_released: Vec::new(),
    };
    let out = input_keyboard(&mut arrows, &Vec::new(), &keys, 50, 10, 0);
    assert_eq!(out.inlay_hints, InlayHintsAction::Enable);
    let released = KeyStates { pressed: Vec::new(), just_pressed: Vec::new(), just_released: vec![PhysicalKey::AltLeft] };
    let out = input_keyboard(&mut arrows, &Vec::new(), &released, 50, 10, 0);
    assert_eq!(out.inlay_hints, InlayHintsAction::Disable);
}

#[test]
fn input_mouse_events() {
    let mut state = MouseButtonState { last_clicked: Vec::new() };
    mouse_last_clicked(&mut state, &vec![MouseButton::Left], false, 1000);
    assert_eq!(state.last_clicked(MouseButton::Left), Some(1000));
    mouse_last_clicked(&mut state, &vec![MouseButton::Right], true, 2000);
    assert_eq!(state.last_clicked(MouseButton::Right), None);
    let buttons = MouseButtons {
        pressed: vec![MouseButton::Left, MouseButton::Middle],
        just_pressed: vec![MouseButton::Left, MouseButton::Back],
        just_released: vec![MouseButton::Right],
    };
    let mods = KeyModifiers { alt: false, ctrl: false, shift: false };
    let events = handle_mouse_events(&buttons, &state, &mods, 3, 4, true, 500, 1200);
    let kinds: Vec<MouseEventKind> = events.iter().map(|e| e.kind).collect();
    assert_eq!(
        kinds,
        vec![
            MouseEventKind::DoubleClick(HelixMouseButton::Left),
            MouseEventKind::Up(HelixMouseButton::Right),
            MouseEventKind::Drag(HelixMouseButton::Middle),
        ]
    );
    assert_eq!(events[0].column, 3);
    assert_eq!(events[0].row, 4);
    let late = handle_mouse_events(&buttons, &state, &mods, 0, 0, false, 500, 2000);
    assert_eq!(late[0].kind, MouseEventKind::Down(HelixMouseButton::Left));
    assert_eq!(late.len(), 2);
}

#[test]
fn input_scroll_events() {
    let events = vec![
        ScrollEvent { unit: MouseScrollUnit::Line, y_negative: true },
        ScrollEvent { unit: MouseScrollUnit::Pixel, y_negative: true },
        ScrollEvent { unit: MouseScrollUnit::Line, y_negative: false },
    ];
    let out = handle_scroll_events(&events);
    let kinds: Vec<MouseEventKind> = out.iter().map(|e| e.kind).collect();
    assert_eq!(kinds, vec![MouseEventKind::ScrollDown, MouseEventKind::ScrollUp]);
    assert_eq!(out[0].column, 10);
}

// ---------------------------------------------------------------- search

fn doc(id: usize, version: usize) -> DocumentStamp {
    DocumentStamp { id, version }
}

#[test]
fn search_escape_pattern() {
    assert_eq!(escape_pattern("a.b"), "a[.]b");
    assert_eq!(escape_pattern("fn("), "fn[(]");
}

#[test]
fn search_byte_to_char() {
    let text = "aé b";
    assert_eq!(byte_to_char(text.as_bytes(), 0), 0);
    assert_eq!(byte_to_char(text.as_bytes(), 3), 2);
    assert_eq!(byte_to_char(text.as_bytes(), 5), 4);
}

#[test]
fn search_find_literal_matches() {
    let found = Matches::find("a.b", "xa.b a+b a.b", false, true);
    assert_eq!(found, vec![1..4, 9..12]);
    assert!(Matches::find("a", "aaa", false, true).is_empty());
    let non_ascii = Matches::find("é", "aé é", false, true);
    assert_eq!(non_ascii, vec![1..2, 3..4]);
}

#[test]
fn search_smart_case() {
    assert_eq!(Matches::find("Ab", "ab Ab", true, false), vec![0..2, 3..5]);
    assert_eq!(Matches::find("ab", "ab Ab", false, false), vec![0..2]);
}

#[test]
fn search_update_and_clear() {
    let mut m = Matches::default();
    assert!(m.is_empty());
    m.update("foo", &doc(1, 1), "foo bar foo", "dark", false, true);
    assert_eq!(m.vec, vec![0..3, 8..11]);
    assert_eq!(m.version, 1);
    assert!(!m.update_required(&"foo".to_string(), &doc(1, 1), "dark"));
    assert!(m.update_required(&"bar".to_string(), &doc(1, 1), "dark"));
    assert!(m.cache_outdated(&doc(1, 2), "dark"));
    assert!(m.cache_outdated(&doc(1, 1), "light"));
    m.clear();
    assert!(m.is_empty());
    assert_eq!(m.version, 2);
    m.clear();
    assert_eq!(m.version, 2);
}

#[test]
fn search_matches_system() {
    let mut cache = MatchesMapCache::default();
    update_search_matches(&mut cache, false, &Some("ab".to_string()), &doc(1, 1), "ab ab", "t", false);
    assert_eq!(cache.get(SearchKind::Common).vec, vec![0..2, 3..5]);
    update_search_matches(&mut cache, true, &None, &doc(1, 1), "ab ab", "t", false);
    assert!(cache.common.is_empty());
}

#[test]
fn search_selection_matches() {
    let mut cache = MatchesMapCache::default();
    let text = "let x = foo; foo(x)";
    let sel = SelectionSummary { ranges: 1, anchor: 8, head: 11, single_line: true };
    update_selection_search_matches(&mut cache, &sel, &doc(1, 1), text, "t", false);
    assert_eq!(cache.selection.vec, vec![8..11, 13..16]);
    let cursor = SelectionSummary { ranges: 1, anchor: 8, head: 9, single_line: true };
    update_selection_search_matches(&mut cache, &cursor, &doc(1, 1), text, "t", false);
    assert!(cache.selection.is_empty());
    let spaces = SelectionSummary { ranges: 1, anchor: 2, head: 5, single_line: true };
    update_selection_search_matches(&mut cache, &spaces, &doc(1, 1), "a      b", "t", false);
    assert!(cache.selection.is_empty());
    update_search_matches(&mut cache, false, &Some("FOO".to_string()), &doc(1, 1), text, "t", false);
    let back = SelectionSummary { ranges: 1, anchor: 11, head: 8, single_line: true };
    update_selection_search_matches(&mut cache, &back, &doc(1, 1), text, "t", false);
    assert!(cache.selection.is_empty());
}

// ---------------------------------------------------------------- minimap

fn visible(text: &str, width: usize, c: u32) -> MinimapGlyph {
    MinimapGlyph { grapheme: MinimapGrapheme::Visible { text: text.to_string(), width }, color: color(c) }
}

fn plain(grapheme: MinimapGrapheme) -> MinimapGlyph {
    MinimapGlyph { grapheme, color: color(0) }
}

#[test]
fn minimap_rows_and_words() {
    let glyphs = vec![
        visible("f", 1, 1),
        visible("n", 1, 1),
        plain(MinimapGrapheme::Space),
        visible("x", 1, 2),
        plain(MinimapGrapheme::LineEnding),
        plain(MinimapGrapheme::Tab),
        visible("y", 1, 2),
        plain(MinimapGrapheme::LineEnding),
        visible("z", 1, 3),
    ];
    let rows = build_colored_rows(&glyphs, 4);
    assert_eq!(rows.len(), 2);
    let texts: Vec<String> = rows[0].words.iter().map(|w| w.text.clone()).collect();
    assert_eq!(texts, vec!["fn ", "x"]);
    assert_eq!(rows[0].words[0].color, color(1));
    assert_eq!(rows[0].length, 4);
    let texts: Vec<String> = rows[1].words.iter().map(|w| w.text.clone()).collect();
    assert_eq!(texts, vec!["    ", "y"]);
    assert_eq!(rows[1].words[0].color, pink());
    assert_eq!(rows[1].length, 5);
}

#[test]
fn minimap_word_and_row_clear() {
    let mut w = ColoredString::new();
    w.text.push('a');
    w.clear();
    assert!(w.text.is_empty());
    assert_eq!(w.color, pink());
    let mut r = ColoredStringRow::new();
    r.length = 3;
    r.clear();
    assert_eq!(r.length, 0);
}

#[test]
fn minimap_scroll_row_taken_once() {
    let mut a = MinimapScrollAnimation::default();
    assert_eq!(a.row_read_to_apply(), None);
    a.set_row(12);
    assert_eq!(a.row_read_only(), 12);
    assert_eq!(a.row_read_to_apply(), Some(12));
    assert_eq!(a.row_read_to_apply(), None);
}

#[test]
fn minimap_viewport_dragging() {
    let mut v = MinimapViewport { hovered: false, pressed: false, current_row: 0, last_hovered_row: None, minimap_entity: 0 };
    assert!(!v.dragging_active());
    v.last_hovered_row = Some(3);
    assert!(v.dragging_active());
}

// ---------------------------------------------------------------- language server

#[test]
fn lsp_frame_header() {
    assert_eq!(content_length_frame("{}"), "Content-Length: 2\r\n\r\n{}");
    assert_eq!(content_length_frame("é"), "Content-Length: 2\r\n\r\né");
}

#[test]
fn lsp_file_path_text() {
    assert_eq!(file_path_to_string(&None), "");
    assert_eq!(file_path_to_string(&Some(PathBuf::from("src/main.rs"))), "src/main.rs");
}

fn lsp_diag(severity: Option<i32>, line: u32, character: u32) -> LspDiagnostic {
    LspDiagnostic {
        start: LspPosition { line, character },
        end: LspPosition { line, character: character + 1 },
        severity,
        code: Some(NumberOrString::Number(7)),
        source: Some("rustc".to_string()),
        message: "oops".to_string(),
        tags: Some(vec![2, 5, 1]),
        data: None,
    }
}

#[test]
fn lsp_convert_diagnostic() {
    let d = lsp_diag(Some(2), 3, 4);
    let c = convert_diagnostic(&d, true, Some(10), Some(11), None).unwrap();
    assert_eq!(c.severity, Some(Severity::Warning));
    assert_eq!(c.line, 3);
    assert_eq!(c.start, 10);
    assert_eq!(c.tags, vec![DiagnosticTag::Deprecated, DiagnosticTag::Unnecessary]);
    assert_eq!(c.message, "oops");
    assert!(convert_diagnostic(&d, false, Some(10), Some(11), None).is_none());
    assert!(convert_diagnostic(&d, true, None, Some(11), None).is_none());
    assert!(convert_diagnostic(&d, true, Some(10), Some(11), Some(Severity::Error)).is_none());
    assert!(convert_diagnostic(&d, true, Some(10), Some(11), Some(Severity::Warning)).is_some());
}

#[test]
fn lsp_convert_all_and_sort() {
    let mut ds = vec![lsp_diag(Some(2), 5, 0), lsp_diag(Some(1), 9, 0), lsp_diag(None, 1, 0), lsp_diag(Some(1), 2, 3)];
    let positions = vec![(Some(0), Some(1)), (None, Some(1)), (Some(2), Some(3)), (Some(4), Some(5))];
    let converted = convert_diagnostics(&ds, &positions, true, None);
    assert_eq!(converted.len(), 3);
    let published = publish_diagnostics(&mut ds, Some(7), Some(7), &positions, true, None).unwrap();
    assert_eq!(published.len(), 3);
    assert_eq!(published[0].line, 5);
    let order: Vec<(Option<i32>, u32)> = ds.iter().map(|d| (d.severity, d.start.line)).collect();
    assert_eq!(order, vec![(None, 1), (Some(1), 2), (Some(1), 9), (Some(2), 5)]);
    // an out of date version, or no open document: only the sort
    let mut ds2 = vec![lsp_diag(Some(3), 1, 0), lsp_diag(Some(1), 1, 0)];
    let positions2 = vec![(Some(0), Some(1)), (Some(0), Some(1))];
    assert!(publish_diagnostics(&mut ds2, Some(6), Some(7), &positions2, true, None).is_none());
    assert_eq!(ds2[0].severity, Some(1));
    assert!(publish_diagnostics(&mut ds2, None, None, &positions2, true, None).is_none());
    assert!(publish_diagnostics(&mut ds2, None, Some(1), &positions2, true, None).is_some());
}

#[test]
fn lsp_publish_version() {
    assert!(publish_applies(None, 4));
    assert!(publish_applies(Some(4), 4));
    assert!(!publish_applies(Some(3), 4));
}

#[test]
fn lsp_progress_status() {
    let token = NumberOrString::Number(-3);
    let begin = WorkDoneProgress::Begin {
        title: "indexing".to_string(),
        message: Some("crate a".to_string()),
        percentage: Some(40),
    };
    let out = progress_update(&token, &begin, true);
    assert_eq!(out.status.unwrap(), "[-3] 40% indexing - crate a");
    assert!(!out.end_progress);
    let report = WorkDoneProgress::Report { message: None, percentage: Some(7) };
    let out = progress_update(&NumberOrString::String("tok".to_string()), &report, true);
    assert_eq!(out.status.unwrap(), "[tok] 7%");
    let end = WorkDoneProgress::End { message: None };
    let out = progress_update(&token, &end, true);
    assert!(out.end_progress && out.clear_status && out.status.is_none());
    let end_msg = WorkDoneProgress::End { message: Some("done".to_string()) };
    let out = progress_update(&token, &end_msg, false);
    assert!(out.end_progress && out.status.is_none());
}

#[test]
fn lsp_method_errors() {
    let e = method_call_error(MethodCallFailure::Unhandled, "x/y");
    assert_eq!(e.code, ErrorCode::MethodNotFound);
    assert_eq!(e.code.code(), -32601);
    assert_eq!(e.message, "Method not found: x/y");
    let e = method_call_error(MethodCallFailure::Malformed, "z");
    assert_eq!(e.code.code(), -32700);
    assert_eq!(e.message, "Malformed method call: z");
}

#[test]
fn lsp_workspace_edit_response() {
    let ok = workspace_edit_response(&Ok(()));
    assert!(ok.applied && ok.failure_reason.is_none() && ok.failed_change.is_none());
    let err = workspace_edit_response(&Err(("conflict".to_string(), 3)));
    assert!(!err.applied);
    assert_eq!(err.failure_reason.unwrap(), "conflict");
    assert_eq!(err.failed_change, Some(3));
}

#[test]
fn lsp_documents_of_server() {
    let docs = vec![
        DocumentServer { server_id: Some(1), has_url: true },
        DocumentServer { server_id: Some(2), has_url: true },
        DocumentServer { server_id: Some(1), has_url: false },
        DocumentServer { server_id: None, has_url: true },
    ];
    assert_eq!(documents_of_server(&docs, 1, true), vec![0]);
    assert_eq!(documents_of_server(&docs, 1, false), vec![0, 2]);
}

// ---------------------------------------------------------------- highlights

use kodiki::helix_app::{scroll_step, search_pattern_of_prompt, startup_status, HelixApp, Rect, ScrollDirection};
use kodiki::fonts::FontAssetHandles;
use kodiki::glyph_image::{clear_image_range, GridLayout, TablePos};
use kodiki::goto::{
    goto_definition_highlight, goto_path_click, goto_path_highlight, identifier_kind, keep_definition_highlight, keep_path_highlight,
    screen_row, syntax_tree_check,
};
use kodiki::highlights::{
    merge_diagnostic_ranges, minimap_line_highlight, plan_diagnostic_highlights, DiagnosticHighlight, selection_highlight_ranges, surface_diagnostic_end,
    surface_line_highlight, surface_range_highlights, whole_line_len, HighlightKind, LineHighlight, LineText,
};
use kodiki::surface::words::{insert_mode_highlight, words_of_row, WordDescription};
use kodiki::surface::coloring_lines::lines_of_row;
use kodiki::highlights::HighlightSets;
use kodiki::input::{terminal_mouse_events, LineScroll, PixelScroll, WezMouseButton, WezMouseEventKind};

fn line(index: usize, start: usize, text: &str) -> LineText {
    LineText { line: index, start_char: start, chars: text.chars().collect() }
}

#[test]
fn highlight_kind_from_search() {
    assert_eq!(HighlightKind::from(SearchKind::Common), HighlightKind::Search);
    assert_eq!(HighlightKind::from(SearchKind::Selection), HighlightKind::SelectionSearch);
}

#[test]
fn highlight_line_with_tabs() {
    // "\tab\n": the tab takes 4 columns
    let l = line(2, 10, "\tab\n");
    let h = surface_line_highlight(&l, 11, 13, 4, 0, 80, 0).unwrap();
    assert_eq!(h, LineHighlight { line: 2, offset: 4, len: 2 });
    // gutter and width cut the highlight at the right
    let cut = surface_line_highlight(&l, 10, 13, 4, 3, 8, 0).unwrap();
    assert_eq!(cut, LineHighlight { line: 2, offset: 0, len: 5 });
    // horizontal scroll moves it left
    let scrolled = surface_line_highlight(&l, 11, 13, 4, 0, 80, 5).unwrap();
    assert_eq!(scrolled, LineHighlight { line: 2, offset: 0, len: 1 });
    assert!(surface_line_highlight(&l, 11, 13, 4, 0, 80, 6).is_none());
}

#[test]
fn highlight_multi_line_range() {
    let lines = vec![line(0, 0, "abc\n"), line(1, 4, "de\n")];
    let hs = surface_range_highlights(&lines, 1, 5, 4, 0, 80, 0);
    assert_eq!(hs, vec![LineHighlight { line: 0, offset: 1, len: 2 }, LineHighlight { line: 1, offset: 0, len: 1 }]);
}

#[test]
fn highlight_minimap_line() {
    let l = line(0, 0, "abcdef\n");
    assert_eq!(minimap_line_highlight(&l, 2, 5, 4, 80), Some(LineHighlight { line: 0, offset: 2, len: 3 }));
    assert_eq!(minimap_line_highlight(&l, 2, 5, 4, 4), Some(LineHighlight { line: 0, offset: 2, len: 2 }));
    assert_eq!(minimap_line_highlight(&l, 5, 5, 4, 80), None);
}

#[test]
fn highlight_diagnostics_merged_per_severity() {
    let diags = vec![
        (Some(Severity::Error), 0, 5),
        (Some(Severity::Warning), 2, 3),
        (Some(Severity::Error), 4, 9),
        (None, 0, 100),
        (Some(Severity::Error), 12, 13),
    ];
    let r = merge_diagnostic_ranges(&diags);
    assert_eq!(r.error, vec![(0, 9), (12, 13)]);
    assert_eq!(r.warning, vec![(2, 3)]);
    assert!(r.info.is_empty() && r.hint.is_empty());
    assert_eq!(surface_diagnostic_end(4, 4, 10), 5);
    assert_eq!(surface_diagnostic_end(10, 10, 10), 10);
    assert_eq!(surface_diagnostic_end(4, 6, 10), 6);
}

#[test]
fn highlight_selection_ranges() {
    let r = selection_highlight_ranges(&vec![(3, 3), (5, 2), (7, 8), (1, 4)]);
    assert_eq!(r, vec![(2, 5), (1, 4)]);
    assert_eq!(whole_line_len(80, 6), 74);
}

// ---------------------------------------------------------------- cursors, glyph images, views, links

#[test]
fn surface_manage_cursors() {
    let name = "e".to_string();
    let mut s = SurfaceBevy::new(&name, true, false, 1, 1, 0);
    let mut despawn = DespawnResource::new();
    assert_eq!(s.cursors_to_spawn(3), 3);
    s.manage_cursors(3, vec![1, 2, 3], &mut despawn);
    assert_eq!(s.cursor_entities, vec![1, 2, 3]);
    s.manage_cursors(0, Vec::new(), &mut despawn);
    assert_eq!(s.cursor_entities, vec![1]);
    assert_eq!(despawn.recursive, vec![3, 2]);
    s.manage_cursors(0, Vec::new(), &mut despawn);
    assert!(s.cursor_entities.is_empty());
    assert_eq!(despawn.recursive, vec![3, 2, 1]);
}

#[test]
fn fonts_handles_loaded() {
    let mut h = FontAssetHandles { main: 1, emoji: 2, fallback: vec![3, 4], loaded_cnt: 3 };
    assert_eq!(h.handles_total(), 4);
    assert!(!h.loaded());
    h.loaded_cnt = 4;
    assert!(h.loaded());
}

#[test]
fn glyph_image_clear_range() {
    let mut p = TablePos { column: 9, row: 1 };
    p.clamp(5, 5);
    assert_eq!(p, TablePos { column: 5, row: 1 });
    let g = GridLayout { width: 8, height: 4, pixel_size: 4, column_width: 2, row_height: 2 };
    let mut data = vec![0u8; 8 * 4 * 4];
    clear_image_range(g, TablePos { column: 0, row: 0 }, TablePos { column: 1, row: 0 }, [1, 2, 3, 4], &mut data);
    // from (0, 1) at offset 64, to (1, 1) at offset 72 + 4: three pixels,
    // each written one byte after the one before
    assert_eq!(&data[0..7], &[3, 3, 3, 2, 1, 4, 0]);
    let mut untouched = vec![9u8; 8];
    clear_image_range(g, TablePos { column: 0, row: 0 }, TablePos { column: 0, row: 0 }, [1, 2, 3, 4], &mut untouched);
    // one pixel: the four bytes in order
    assert_eq!(untouched, vec![3, 2, 1, 4, 9, 9, 9, 9]);
}

#[test]
fn view_resize_requests_render_once() {
    let start = Rect { x: 0, y: 0, width: 40, height: 12 };
    let mut v = HelixApp::new(start);
    assert_eq!(v.editor_area, start);
    assert_eq!(v.screen_area, start);
    assert!(!v.should_render());
    v.resize_editor(start);
    assert!(!v.should_render());
    let area = Rect { x: 0, y: 0, width: 80, height: 24 };
    v.resize_editor(area);
    assert!(v.should_render());
    v.should_render = false;
    v.resize_editor(area);
    assert!(!v.should_render());
    v.resize_editor_width(80);
    assert!(!v.should_render());
    v.resize_editor_height(30);
    assert!(v.should_render());
    v.should_render = false;
    v.resize_screen(area);
    v.resize_screen_width(100);
    assert_eq!(v.screen_area.width, 100);
}

#[test]
fn view_search_pattern_and_scroll() {
    let line = "needle".to_string();
    assert_eq!(search_pattern_of_prompt(Some(("search:", &line))), Some("needle".to_string()));
    assert_eq!(search_pattern_of_prompt(Some(("goto:", &line))), None);
    assert_eq!(search_pattern_of_prompt(Some(("search:", &String::new()))), None);
    assert_eq!(search_pattern_of_prompt(None), None);
    assert_eq!(scroll_step(-3), (ScrollDirection::Backward, 3));
    assert_eq!(scroll_step(2), (ScrollDirection::Forward, 2));
    let mut app = HelixApp::new(Rect { x: 0, y: 0, width: 80, height: 24 });
    assert_eq!(app.scroll(-4), (ScrollDirection::Backward, 4));
    assert!(app.should_render());
    assert_eq!(app.active_search_pattern(Some(("search:", &line))), Some("needle".to_string()));
}

fn word(punctuation: bool, on_editor: bool) -> WordDescription {
    WordDescription {
        string: "name".to_string(),
        color: color(1),
        row: 0,
        column: 0,
        word_index: 0,
        cached_row_index: 0,
        entity: None,
        mesh_entity: None,
        surface_name: "editor".to_string(),
        is_on_editor: on_editor,
        is_punctuation: punctuation,
        is_numeric: false,
        is_highlighted: false,
    }
}

#[test]
fn goto_definition_rules() {
    assert!(identifier_kind("type_identifier"));
    assert!(!identifier_kind("string_literal"));
    assert!(syntax_tree_check(false, None));
    assert!(!syntax_tree_check(true, None));
    assert!(syntax_tree_check(true, Some("field_identifier")));
    let ctrl = KeyModifiers { alt: false, ctrl: true, shift: false };
    assert!(goto_definition_highlight(false, &ctrl, &word(false, true), true));
    assert!(!goto_definition_highlight(true, &ctrl, &word(false, true), true));
    assert!(!goto_definition_highlight(false, &ctrl, &word(true, true), true));
    assert!(!goto_definition_highlight(false, &ctrl, &word(false, false), true));
    let ctrl_alt = KeyModifiers { alt: true, ctrl: true, shift: false };
    assert!(!goto_definition_highlight(false, &ctrl_alt, &word(false, true), true));
    assert_eq!(screen_row(10, 4), 6);
    assert_eq!(screen_row(3, 4), 0);
    assert!(keep_definition_highlight(5, Some(5), true));
    assert!(!keep_definition_highlight(5, Some(6), true));
    assert!(!keep_definition_highlight(5, Some(5), false));
}

#[test]
fn goto_path_rules() {
    assert!(goto_path_highlight(false, true, false, false));
    assert!(!goto_path_highlight(false, true, true, false));
    let path = vec![3, 4];
    assert!(keep_path_highlight(4, Some(&path), true));
    assert!(!keep_path_highlight(5, Some(&path), true));
    assert!(!keep_path_highlight(4, None, true));
}

#[test]
fn surface_scroll_down_then_up() {
    let name = "s".to_string();
    let mut surface = SurfaceBevy::new(&name, false, true, 1, 3, 0);
    let helix = SurfaceHelix {
        area_width: 1,
        area_height: 3,
        content: vec![cell("a", 1), cell("b", 1), cell("c", 1)],
        anchor_bottom: false,
        frozen: false, dirty: true,
    };
    let classes = vec![class("m"), class("m"), class("m")];
    let mut words = SpawnGroups::new();
    let mut lines = SpawnGroups::new();
    let mut despawn = DespawnResource::new();
    surface.update_classified(&helix, 0, &classes, &color(0), &mut words, &mut lines, &mut despawn);
    for (i, row) in surface.rows.iter_mut().enumerate() {
        row.words[0].entity = Some(100 + i as u64);
    }
    surface.on_scroll(1, &mut despawn);
    assert_eq!(despawn.recursive, vec![100]);
    assert_eq!(surface.rows[0].words[0].string, "b");
    assert!(surface.rows[2].words.is_empty());
    surface.on_scroll(0, &mut despawn);
    assert!(surface.rows[0].words.is_empty());
    assert_eq!(surface.rows[1].words[0].entity, Some(101));
    assert_eq!(surface.rows[2].words[0].entity, Some(102));
    assert_eq!(despawn.recursive, vec![100]);
}

#[test]
fn highlight_sets_redraw_once_per_version() {
    let mut h = HighlightSets::new();
    let mut despawn = DespawnResource::new();
    let mut m = Matches::default();
    m.update("ab", &doc(1, 1), "ab ab", "t", false, true);
    assert!(h.search_highlights_update(SearchKind::Common, &m, &mut despawn));
    h.add_highlight(HighlightKind::Search, 7);
    assert!(!h.search_highlights_update(SearchKind::Common, &m, &mut despawn));
    assert!(despawn.recursive.is_empty());
    m.update("ab", &doc(1, 2), "ab ab", "t", false, true);
    assert!(h.search_highlights_update(SearchKind::Common, &m, &mut despawn));
    assert_eq!(despawn.recursive, vec![7]);
    h.add_highlight(HighlightKind::Search, 8);
    m.clear();
    assert!(!h.search_highlights_update(SearchKind::Common, &m, &mut despawn));
    assert_eq!(despawn.recursive, vec![7, 8]);
}

#[test]
fn highlight_sets_diagnostics_and_selection() {
    let mut h = HighlightSets::new();
    let mut despawn = DespawnResource::new();
    assert!(h.diagnostics_highlights_update(&doc(1, 1), "t", 0, 3, &mut despawn));
    h.add_highlight(HighlightKind::Diagnostic, 5);
    assert!(!h.diagnostics_highlights_update(&doc(1, 1), "t", 0, 3, &mut despawn));
    assert!(h.diagnostics_highlights_update(&doc(1, 1), "t", 0, 4, &mut despawn));
    assert_eq!(despawn.recursive, vec![5]);
    assert!(h.selection_highlights_update(1, "t", 2, 0, &mut despawn));
    assert!(!h.selection_highlights_update(1, "t", 2, 0, &mut despawn));
    assert!(h.selection_highlights_update(1, "dark", 2, 0, &mut despawn));
}

#[test]
fn surface_row_debug_text() {
    let name = "s".to_string();
    let mut surface = SurfaceBevy::new(&name, false, false, 4, 1, 0);
    let helix = SurfaceHelix {
        area_width: 4,
        area_height: 1,
        content: vec![cell("a", 1), cell("b", 1), cell(" ", 1), cell("c", 1)],
        anchor_bottom: false,
        frozen: false, dirty: true,
    };
    let classes = vec![class("m"), class("m"), class("m"), class("m")];
    let mut words = SpawnGroups::new();
    let mut lines = SpawnGroups::new();
    let mut despawn = DespawnResource::new();
    surface.update_classified(&helix, 0, &classes, &color(0), &mut words, &mut lines, &mut despawn);
    assert_eq!(surface.row_as_string(0, false), "[0] ab c ");
    assert_eq!(surface.row_as_string(0, true), "[0] [0 0]ab [0 3]c ");
}

#[test]
fn surface_description_defaults() {
    use_defaults();
}

fn use_defaults() {
    let w = WordDescription::default();
    assert!(w.string.is_empty());
    assert_eq!(w.color, DisplayColor { r: 0, g: 0x3F80_0000, b: 0x3F80_0000, a: 0x3F80_0000 });
    assert!(w.entity.is_none());
    let l = kodiki::surface::coloring_lines::ColoringLineDescription::default();
    assert_eq!(l.length, 0);
    assert_eq!(l.color, w.color);
}

#[test]
fn input_terminal_mouse_events() {
    let scrolls = vec![LineScroll { x_sign: 0, y_sign: 1 }, LineScroll { x_sign: -1, y_sign: 1 }];
    let pixels = PixelScroll { x_sign: 0, x_steps: 0, y_sign: -1, y_steps: 2 };
    let out = terminal_mouse_events(&vec![MouseButton::Left, MouseButton::Back], &vec![MouseButton::Right], true,
        &scrolls, &pixels);
    assert_eq!(
        out,
        vec![
            (WezMouseEventKind::Press, WezMouseButton::Left),
            (WezMouseEventKind::Release, WezMouseButton::Right),
            (WezMouseEventKind::Move, WezMouseButton::NoButton),
            (WezMouseEventKind::Press, WezMouseButton::WheelUp(6)),
            (WezMouseEventKind::Press, WezMouseButton::WheelLeft(3)),
            (WezMouseEventKind::Press, WezMouseButton::WheelDown(2)),
        ]
    );
}

#[test]
fn terminal_title_resize_and_keys() {
    let mut t = BevyWezTerm { active: true, state_changed: false, last_rendered_scroll_offset: 0, rows: 24, cols: 80, title: "bash".to_string() };
    assert_eq!(t.window_title(), "[bash] - Terminal - Kodiki");
    assert!(!t.resize(24, 80));
    assert!(t.resize(30, 80));
    assert_eq!(t.rows, 30);
    assert!(t.active() && !t.state_changed());
    let ctrl = KeyStates { pressed: vec![PhysicalKey::ControlLeft], just_pressed: Vec::new(), just_released: Vec::new() };
    let none = KeyStates { pressed: Vec::new(), just_pressed: Vec::new(), just_released: Vec::new() };
    assert!(!BevyWezTerm::key_passes(Some(PhysicalKey::ShiftLeft), &none));
    assert!(!BevyWezTerm::key_passes(Some(PhysicalKey::Digit3), &ctrl));
    assert!(BevyWezTerm::key_passes(Some(PhysicalKey::Digit3), &none));
    assert!(BevyWezTerm::key_passes(None, &ctrl));
}

#[test]
fn minimap_scroll_duration_bounds() {
    assert_eq!(scroll_duration_ms(0, 10), 200);
    assert_eq!(scroll_duration_ms(400, 0), 500);
    assert_eq!(scroll_duration_ms(100, 300), 300);
    assert_eq!(scroll_duration_ms(301, 100), 301);
}

#[test]
fn minimap_bookmarks_skip_clutter_and_nested_constants() {
    let symbols = vec![
        DocumentSymbol { kind: SYMBOL_FUNCTION, start_line: 0, end_line: 10 },
        DocumentSymbol { kind: SYMBOL_CONSTANT, start_line: 5, end_line: 6 },
        DocumentSymbol { kind: SYMBOL_FIELD, start_line: 12, end_line: 13 },
        DocumentSymbol { kind: SYMBOL_CONSTANT, start_line: 20, end_line: 21 },
        DocumentSymbol { kind: SYMBOL_CLASS, start_line: 30, end_line: 40 },
        DocumentSymbol { kind: 13, start_line: 41, end_line: 42 },
    ];
    let plans = plan_bookmarks(&symbols);
    assert_eq!(
        plans,
        vec![
            BookmarkPlan { symbol: 0, row: 1, color: BookmarkColor::Function },
            BookmarkPlan { symbol: 3, row: 21, color: BookmarkColor::Turquoise },
            BookmarkPlan { symbol: 4, row: 31, color: BookmarkColor::Gold },
            BookmarkPlan { symbol: 5, row: 42, color: BookmarkColor::AliceBlue },
        ]
    );
}

#[test]
fn minimap_diff_gutter_kinds() {
    let hunks = vec![
        Hunk { before_start: 3, before_end: 3, after_start: 3, after_end: 7 },
        Hunk { before_start: 10, before_end: 12, after_start: 14, after_end: 14 },
        Hunk { before_start: 20, before_end: 22, after_start: 22, after_end: 25 },
    ];
    let marks = diff_gutter_marks(&hunks);
    assert_eq!(
        marks,
        vec![
            HunkMark { rows: 4, row: 6, kind: HunkKind::Added },
            HunkMark { rows: 0, row: 15, kind: HunkKind::Deleted },
            HunkMark { rows: 3, row: 24, kind: HunkKind::Modified },
        ]
    );
}

fn pointer(hover: MinimapHover, left_pressed: bool, minimap_row: usize, row_offset: usize) -> MinimapPointerInput {
    MinimapPointerInput {
        hover,
        left_pressed,
        left_just_pressed: left_pressed,
        ctrl_just_pressed: false,
        ctrl_just_released: false,
        pointer_busy: true,
        minimap_row,
        row_offset,
        half_visible_rows: 20,
    }
}

#[test]
fn minimap_viewport_drag_and_click() {
    let mut viewport = MinimapViewport {
        hovered: false,
        pressed: false,
        current_row: 0,
        last_hovered_row: None,
        minimap_entity: 7,
    };
    // hovering the viewport lights it
    let a = viewport.pointer_step(&pointer(MinimapHover::Viewport, false, 10, 100));
    assert_eq!(a.fade, Some((ViewportAlpha::Rest, ViewportAlpha::Hovered)));
    assert_eq!(a.drag, Some(false));
    assert_eq!(a.framerate, FramerateWish::Active);
    assert!(viewport.hovered && !viewport.pressed);
    // pressing starts a drag without moving
    let a = viewport.pointer_step(&pointer(MinimapHover::Viewport, true, 10, 100));
    assert_eq!(a.row_offset, None);
    assert_eq!(a.fade, Some((ViewportAlpha::Hovered, ViewportAlpha::Pressed)));
    assert_eq!(a.framerate, FramerateWish::Smooth);
    assert!(viewport.dragging_active());
    // dragging down five rows, even off the viewport, moves the editor
    let a = viewport.pointer_step(&pointer(MinimapHover::Elsewhere, true, 15, 100));
    assert_eq!(a.row_offset, Some(105));
    assert_eq!(a.fade, None);
    // dragging far up stops at the top
    let a = viewport.pointer_step(&pointer(MinimapHover::Viewport, true, 0, 3));
    assert_eq!(a.row_offset, Some(0));
    // releasing ends the drag
    let a = viewport.pointer_step(&pointer(MinimapHover::Minimap, false, 0, 0));
    assert_eq!(a.drag, Some(false));
    assert_eq!(a.fade, Some((ViewportAlpha::Pressed, ViewportAlpha::Hovered)));
    assert!(!viewport.dragging_active());
    // a click on the minimap centres the clicked row, after the viewport fades back
    let a = viewport.pointer_step(&pointer(MinimapHover::Minimap, true, 50, 0));
    assert_eq!(a.fade, Some((ViewportAlpha::Hovered, ViewportAlpha::Rest)));
    assert_eq!(a.scroll_to_row, Some(30));
    assert!(a.click_point);
    assert_eq!(a.preview_row, Some(50));
    assert_eq!(viewport.current_row, 0);
    assert_eq!(viewport.minimap_entity, 7);
}

fn hover_input(mouse_moved: bool, row: u16, col: u16, delta_nanos: u64, hovered_node: Option<usize>) -> HoverInput {
    HoverInput { mouse_moved, row, col, on_editor: true, delta_nanos, hovered_node, has_syntax: true }
}

#[test]
fn hover_shows_after_rest_and_closes_on_other_node() {
    let mut state = MouseHoverState::new();
    assert_eq!(state.timer.duration, HOVER_DELAY_NANOS);
    // resting for less than half a second shows nothing
    assert_eq!(state.step(&hover_input(false, 3, 4, 200_000_000, Some(9))), HoverAction::Nothing);
    // the rest runs out: the documentation of the cell shows
    assert_eq!(state.step(&hover_input(false, 3, 4, 300_000_000, Some(9))), HoverAction::Show { row: 3, col: 4 });
    assert_eq!((state.row, state.col, state.syntax_node_id), (3, 4, Some(9)));
    // once only
    assert_eq!(state.step(&hover_input(false, 3, 4, 900_000_000, Some(9))), HoverAction::Nothing);
    // moving along the same identifier keeps it
    assert_eq!(state.step(&hover_input(true, 3, 5, 1, Some(9))), HoverAction::Nothing);
    assert!(state.timer.finished);
    // moving onto another identifier closes it and restarts the timer
    assert_eq!(state.step(&hover_input(true, 3, 9, 1, Some(10))), HoverAction::Close);
    assert!(!state.timer.finished);
    assert_eq!(state.timer.elapsed, 0);
    // no node under a resting mouse in a document with syntax: nothing shows
    assert_eq!(state.step(&hover_input(false, 3, 9, 600_000_000, None)), HoverAction::Nothing);
    assert_eq!(state.syntax_node_id, None);
    // off the editor, a move closes
    let off = HoverInput { mouse_moved: true, row: 0, col: 0, on_editor: false, delta_nanos: 0, hovered_node: None, has_syntax: true };
    assert_eq!(state.step(&off), HoverAction::Close);
}

#[test]
fn hover_without_syntax_shows_anyway() {
    let mut state = MouseHoverState::default();
    let input = HoverInput { mouse_moved: false, row: 1, col: 1, on_editor: true, delta_nanos: 500_000_000, hovered_node: None, has_syntax: false };
    assert_eq!(state.step(&input), HoverAction::Show { row: 1, col: 1 });
}

fn rendered(dirty: bool) -> SurfaceHelix {
    SurfaceHelix { area_width: 1, area_height: 1, content: Vec::new(), anchor_bottom: false, frozen: false, dirty }
}

#[test]
fn unused_surfaces_despawned() {
    let mut helix = vec![
        (String::from("editor"), rendered(true)),
        (String::from("popup"), rendered(false)),
        (String::from("prompt"), rendered(true)),
    ];
    let mut bevy = vec![
        (String::from("editor"), SurfaceBevy::new(&String::from("editor"), true, true, 1, 1, 1)),
        (String::from("popup"), SurfaceBevy::new(&String::from("popup"), false, false, 1, 1, 2)),
        (String::from("old"), SurfaceBevy::new(&String::from("old"), false, false, 1, 1, 3)),
        (String::from("prompt"), SurfaceBevy::new(&String::from("prompt"), false, false, 1, 1, 4)),
    ];
    let mut despawn = DespawnResource::new();
    despawn_unused_surfaces(&mut helix, &mut bevy, &mut despawn);
    let helix_names: Vec<&str> = helix.iter().map(|p| p.0.as_str()).collect();
    let bevy_names: Vec<&str> = bevy.iter().map(|p| p.0.as_str()).collect();
    assert_eq!(helix_names, vec!["editor", "prompt"]);
    assert_eq!(bevy_names, vec!["editor", "prompt"]);
    assert_eq!(despawn.recursive, vec![2, 3]);
    assert!(despawn.children_only.is_empty());
    assert!(has_surface(&helix, &String::from("prompt")));
    assert!(!has_surface(&helix, &String::from("popup")));
    // a second pass changes nothing
    despawn_unused_surfaces(&mut helix, &mut bevy, &mut despawn);
    assert_eq!(helix.len(), 2);
    assert_eq!(bevy.len(), 2);
    assert_eq!(despawn.recursive, vec![2, 3]);
}

#[test]
fn new_surfaces_to_spawn() {
    let helix = vec![
        (String::from("editor"), rendered(true)),
        (String::from("picker"), rendered(true)),
        (String::from("statusline"), rendered(true)),
    ];
    let bevy = vec![(String::from("editor"), SurfaceBevy::new(&String::from("editor"), true, true, 1, 1, 1))];
    assert_eq!(surfaces_to_spawn(&helix, &bevy), vec![String::from("picker"), String::from("statusline")]);
    assert!(has_drawn_surface(&bevy, &String::from("editor")));
    assert!(!has_drawn_surface(&bevy, &String::from("picker")));
}

#[test]
fn app_run_conditions() {
    assert!(main_app_mode(AppMode::Main));
    assert!(!main_app_mode(AppMode::AssetsLoaded));
    assert!(!main_app_mode_no_fly(AppMode::Main, AppCameraMode::Fly));
    assert!(main_app_mode_no_fly(AppMode::Main, AppCameraMode::Reader));
    assert!(text_editor_context(AppMode::Main, AppContext::CodeEditor));
    assert!(!text_editor_context(AppMode::Main, AppContext::Terminal));
    assert!(!text_editor_context_no_fly(AppMode::AssetsLoaded, AppContext::CodeEditor, AppCameraMode::Main));
    assert!(text_editor_context_no_fly(AppMode::Main, AppContext::CodeEditor, AppCameraMode::Reader));
    assert!(terminal_context(AppMode::Main, AppContext::Terminal));
    assert!(!terminal_context(AppMode::AssetLoading, AppContext::Terminal));
    assert_eq!(AppMode::default(), AppMode::AssetLoading);
    assert_eq!(AppCameraMode::default(), AppCameraMode::Main);
    assert_eq!(AppContext::default(), AppContext::CodeEditor);
    assert_eq!(asset_loading_tracking(true, true), Some(AppMode::AssetsLoaded));
    assert_eq!(asset_loading_tracking(true, false), None);
}

#[test]
fn context_switchers_apply_and_highlight() {
    let entry = |is_triggered, is_active| ContextSwitcherEntry { is_triggered, is_active };
    let mut switchers = vec![
        (AppContextSwitcher::Entry(AppContext::CodeEditor), entry(false, true)),
        (AppContextSwitcher::Entry(AppContext::Terminal), entry(true, false)),
    ];
    assert_eq!(apply_context_switcher_state(&mut switchers), Some(AppContext::Terminal));
    assert!(!switchers[1].1.is_triggered);
    assert_eq!(apply_context_switcher_state(&mut switchers), None);
    // nothing changes while the switch is pending
    assert!(highlight_active_context_switcher(&mut switchers, AppContext::Terminal, true).is_empty());
    let changes = highlight_active_context_switcher(&mut switchers, AppContext::Terminal, false);
    assert_eq!(changes, vec![(0, SwitcherHighlight::Unhighlight), (1, SwitcherHighlight::Highlight)]);
    assert!(!switchers[0].1.is_active && switchers[1].1.is_active);
    assert!(highlight_active_context_switcher(&mut switchers, AppContext::Terminal, false).is_empty());
}

fn no_keys() -> ShortcutKeys {
    ShortcutKeys {
        ctrl_left_pressed: false,
        ctrl_right_pressed: false,
        ctrl_left_just_pressed: false,
        ctrl_left_just_released: false,
        home_just_pressed: false,
        escape_pressed: false,
        key1_just_pressed: false,
        key2_just_pressed: false,
        key9_just_pressed: false,
        keys_pressed: 0,
    }
}

#[test]
fn keyboard_shortcuts_camera_and_context() {
    let ctrl_down = ShortcutKeys { ctrl_left_pressed: true, ctrl_left_just_pressed: true, keys_pressed: 1, ..no_keys() };
    let r = keyboard_input(&ctrl_down, false, ReaderCameraMode::Reader);
    assert_eq!(r.restrictions, Some(CameraRestrictions::ZoomOnly));
    assert_eq!(r.next_camera_mode, Some(AppCameraMode::Reader));
    assert_eq!(r.cursor_visible, Some(true));
    let ctrl_up = ShortcutKeys { ctrl_left_just_released: true, ..no_keys() };
    let r = keyboard_input(&ctrl_up, false, ReaderCameraMode::Reader);
    assert_eq!(r.restrictions, Some(CameraRestrictions::Default));
    assert_eq!(r.next_camera_mode, Some(AppCameraMode::Main));
    let fly = ShortcutKeys { ctrl_left_pressed: true, home_just_pressed: true, keys_pressed: 2, ..no_keys() };
    let r = keyboard_input(&fly, false, ReaderCameraMode::Reader);
    assert_eq!(r.camera_mode, ReaderCameraMode::Fly);
    assert_eq!(r.cursor_visible, Some(false));
    assert_eq!(r.next_camera_mode, Some(AppCameraMode::Fly));
    let esc = ShortcutKeys { escape_pressed: true, keys_pressed: 1, ..no_keys() };
    let r = keyboard_input(&esc, false, ReaderCameraMode::Fly);
    assert_eq!(r.camera_mode, ReaderCameraMode::Reader);
    assert_eq!(r.next_camera_mode, Some(AppCameraMode::Main));
    let r = keyboard_input(&esc, false, ReaderCameraMode::Reader);
    assert_eq!(r.next_camera_mode, None);
    let switch = ShortcutKeys { ctrl_right_pressed: true, key1_just_pressed: true, key2_just_pressed: true, ..no_keys() };
    assert_eq!(keyboard_input(&switch, false, ReaderCameraMode::Reader).next_context, Some(AppContext::Terminal));
    let editor = ShortcutKeys { ctrl_left_pressed: true, key1_just_pressed: true, ..no_keys() };
    assert_eq!(keyboard_input(&editor, false, ReaderCameraMode::Reader).next_context, Some(AppContext::CodeEditor));
    let debug = ShortcutKeys { ctrl_left_pressed: true, key9_just_pressed: true, ..no_keys() };
    assert!(keyboard_input(&debug, false, ReaderCameraMode::Reader).physics_debug);
    assert!(!keyboard_input(&debug, true, ReaderCameraMode::Reader).physics_debug);
}

#[test]
fn window_title_and_clicked_path() {
    let term = |active, state_changed, title: &str| BevyWezTerm {
        active,
        state_changed,
        last_rendered_scroll_offset: 0,
        rows: 24,
        cols: 80,
        title: title.to_string(),
    };
    let terminals = vec![term(true, true, "a"), term(false, true, "b"), term(true, true, "c"), term(true, false, "d")];
    assert_eq!(window_title_source(AppContext::Terminal, None, &terminals), Some(TitleSource::Terminal(2)));
    assert_eq!(window_title_source(AppContext::CodeEditor, Some(true), &terminals), Some(TitleSource::Editor));
    assert_eq!(window_title_source(AppContext::CodeEditor, Some(false), &terminals), None);
    assert_eq!(window_title_source(AppContext::CodeEditor, None, &terminals), None);
    assert_eq!(window_title_source(AppContext::Terminal, None, &Vec::new()), None);
    assert_eq!(clicked_path_position(12, 0), (AppContext::CodeEditor, 11, 0));
}

#[test]
fn despawn_lists_handed_over_after_delay() {
    let mut despawn = DespawnResource::new();
    despawn.recursive.push(5);
    despawn.children_only.push(6);
    assert!(despawn.take_due(DESPAWN_DELAY_NANOS).is_none());
    assert_eq!(despawn.recursive, vec![5]);
    assert_eq!(despawn.take_due(DESPAWN_DELAY_NANOS + 1), Some((vec![5], vec![6])));
    assert!(despawn.recursive.is_empty() && despawn.children_only.is_empty());
}

#[test]
fn terminal_render_plan_skips_unchanged_lines() {
    let mut t = BevyWezTerm { active: true, state_changed: true, last_rendered_scroll_offset: 1, rows: 3, cols: 80, title: "sh".to_string() };
    let seqnos: Vec<u64> = vec![1, 1, 5, 5, 1];
    assert_eq!(t.plan_render(&seqnos, 3, 1, 5), vec![(0, 1), (3, 4)]);
    assert_eq!(t.last_rendered_scroll_offset, 1);
    // a new scroll offset draws every visible line
    assert_eq!(t.plan_render(&seqnos, 3, 0, 5), vec![(0, 2), (1, 3), (2, 4)]);
    assert_eq!(t.last_rendered_scroll_offset, 0);
    // change number 0 never counts as drawn
    assert_eq!(t.plan_render(&vec![0, 0], 2, 0, 0), vec![(0, 0), (1, 1)]);
}

#[test]
fn terminal_cursor_visibility() {
    let p = cursor_placement(4, 2, 0, 24, true, false);
    assert_eq!(p, CursorPlacement { visibility: Some(true), col: 4, row: 2 });
    // below the screen once scrolled: hidden
    assert_eq!(cursor_placement(4, 20, 5, 24, true, true).visibility, Some(false));
    // unchanged visibility is left alone
    assert_eq!(cursor_placement(0, 0, 0, 24, false, false).visibility, None);
    assert_eq!(cursor_placement(0, 24, 0, 24, true, true).visibility, None);
}

fn colored_row(words: &[&str], length: usize) -> ColoredStringRow {
    ColoredStringRow {
        words: words.iter().map(|w| ColoredString { text: w.to_string(), color: pink() }).collect(),
        length,
    }
}

fn row_texts(row: &ColoredStringRow) -> Vec<String> {
    row.words.iter().map(|w| w.text.clone()).collect()
}

#[test]
fn minimap_row_cut_to_fit() {
    let cut = cut_colored_row(&colored_row(&["hello", "world"], 10), 8);
    assert_eq!(row_texts(&cut), vec!["hello", "wo"]);
    assert_eq!(cut.length, 7);
    let kept = cut_colored_row(&colored_row(&["hello", "world"], 10), 10);
    assert_eq!(row_texts(&kept), vec!["hello", "world"]);
    assert_eq!(kept.length, 10);
    // nothing of the overflowing word would be left: it is dropped
    let dropped = cut_colored_row(&colored_row(&["abcdefg", "x", "yz"], 10), 8);
    assert_eq!(row_texts(&dropped), vec!["abcdefg"]);
    assert_eq!(dropped.length, 7);
}

#[test]
fn minimap_preview_lines() {
    let rows: Vec<ColoredStringRow> = (0..10).map(|i| colored_row(&[format!("r{}", i).as_str()], 2)).collect();
    let color = DisplayColor { r: 1, g: 2, b: 3, a: 4 };
    let lines = preview_rows(&rows, 5, None, color).unwrap();
    let nums: Vec<usize> = lines.iter().map(|l| l.0).collect();
    assert_eq!(nums, vec![3, 4, 5, 6, 7]);
    assert_eq!(row_texts(&lines[0].1), vec![" 3 ", "r3"]);
    assert_eq!(lines[0].1.length, 5);
    assert_eq!(lines[0].1.words[0].color, color);
    assert!(preview_rows(&rows, 5, Some(5), color).is_none());
    let top: Vec<usize> = preview_rows(&rows, 0, Some(5), color).unwrap().iter().map(|l| l.0).collect();
    assert_eq!(top, vec![0, 1, 2, 3, 4]);
    // the last line of the document is not shown
    let bottom: Vec<usize> = preview_rows(&rows, 8, None, color).unwrap().iter().map(|l| l.0).collect();
    assert_eq!(bottom, vec![6, 7, 8]);
    // a long line is cut one short of the preview's width
    let mut long_rows = rows;
    long_rows[3] = colored_row(&["a".repeat(60).as_str()], 60);
    let lines = preview_rows(&long_rows, 5, None, color).unwrap();
    assert_eq!(lines[0].1.length, 54);
    assert_eq!(lines[0].1.words[1].text.len(), 51);
}

fn node(selection: Option<bool>, children: Vec<SelectionNode>) -> SelectionNode {
    SelectionNode { selection, children }
}

#[test]
fn selection_search_depth_and_selectability() {
    // selected grandchild under a selectable child
    let tree = vec![node(Some(false), vec![node(Some(true), vec![])])];
    assert!(check_selection_recursive(&tree, 0, 1));
    // not searched past the depth limit
    assert!(!check_selection_recursive(&tree, 0, 0));
    // not searched below an entity that cannot be selected
    let hidden = vec![node(None, vec![node(Some(true), vec![])])];
    assert!(!check_selection_recursive(&hidden, 0, 5));
    // a later sibling is found
    let siblings = vec![node(Some(false), vec![]), node(None, vec![]), node(Some(true), vec![])];
    assert!(check_selection_recursive(&siblings, 3, 3));
    assert!(!check_selection_recursive(&Vec::new(), 0, 3));
}

#[test]
fn goto_path_ctrl_click_jumps() {
    assert_eq!(goto_path_click(Some((12, 5)), true, true), Some((AppContext::CodeEditor, 11, 4)));
    assert_eq!(goto_path_click(Some((0, 0)), true, true), Some((AppContext::CodeEditor, 0, 0)));
    // a plain click, or control without a click, or no path: no jump
    assert_eq!(goto_path_click(Some((12, 5)), false, true), None);
    assert_eq!(goto_path_click(Some((12, 5)), true, false), None);
    assert_eq!(goto_path_click(None, true, true), None);
}

#[test]
fn statusline_insert_mode_overlay() {
    let mut w = word(false, false);
    w.string = "INS".to_string();
    assert_eq!(insert_mode_highlight(true, &mut w), Some(true));
    assert!(w.is_highlighted);
    assert_eq!(insert_mode_highlight(true, &mut w), None);
    // leaving insert mode: the word now reads NOR and goes back to its color
    w.string = "NOR".to_string();
    assert_eq!(insert_mode_highlight(false, &mut w), Some(false));
    assert!(!w.is_highlighted);
    assert_eq!(insert_mode_highlight(false, &mut w), None);
    // a word other than INS is not lit in insert mode
    assert_eq!(insert_mode_highlight(true, &mut w), None);
}

#[test]
fn framerate_debug_tool_click_and_lines() {
    let mut debug = FramerateDebugState { extra_info_enabled: false, lines_entity: None };
    assert_eq!(indicator_click(&mut debug, false), None);
    assert!(!debug.extra_info_enabled);
    assert_eq!(indicator_click(&mut debug, true), None);
    assert!(debug.extra_info_enabled);
    debug.lines_entity = Some(42);
    assert_eq!(indicator_click(&mut debug, true), Some(42));
    assert!(!debug.extra_info_enabled && debug.lines_entity.is_none());
    let mut indicator = FramerateIndicator { highlighted: false };
    assert!(indicator.highlight());
    assert!(!indicator.highlight());
    assert!(indicator.unhighlight());
    assert!(!indicator.unhighlight());
    let mut m = FramerateManager::default();
    m.camera_moving = true;
    m.request_active_framerate("scroll".to_string());
    let mut lines = Vec::new();
    collect_state_lines(&m, &mut lines);
    assert_eq!(lines.len(), 9);
    assert_eq!(lines[0].string, "camera_move_requested:    false");
    assert_eq!(lines[0].foreground, DebugLineColor::Gray);
    assert_eq!(lines[1].string, "camera_moving:            true");
    assert_eq!(lines[1].foreground, DebugLineColor::Smooth);
    assert_eq!(lines[6].string, "idle timer active:        true");
    assert_eq!(lines[8].string, "Active req reason: scroll");
    assert_eq!(lines[8].foreground, DebugLineColor::Active);
}

#[test]
fn language_server_exit_clears_its_documents() {
    let doc = |server_id: Option<usize>, url: Option<&str>| ServedDocument {
        server_id,
        url: url.map(|u| u.to_string()),
        diagnostics: vec![convert_diagnostic(&lsp_diag(Some(1), 0, 0), true, Some(0), Some(1), None).unwrap()],
    };
    let mut docs = vec![doc(Some(1), Some("file:///a.rs")), doc(Some(2), Some("file:///b.rs")), doc(Some(1), None)];
    let mut stored = vec![
        ("file:///a.rs".to_string(), vec![lsp_diag(None, 0, 0)]),
        ("file:///b.rs".to_string(), vec![]),
        ("file:///c.rs".to_string(), vec![]),
    ];
    let mut servers = vec![1, 2];
    let status = server_exited(&mut docs, &mut stored, &mut servers, 1);
    assert_eq!(status, "Language server exited");
    assert!(docs[0].diagnostics.is_empty() && docs[2].diagnostics.is_empty());
    assert_eq!(docs[1].diagnostics.len(), 1);
    let urls: Vec<&str> = stored.iter().map(|e| e.0.as_str()).collect();
    assert_eq!(urls, vec!["file:///b.rs", "file:///c.rs"]);
    assert_eq!(servers, vec![2]);
}

#[test]
fn diagnostic_whole_lines_for_errors_only() {
    let ranges = merge_diagnostic_ranges(&vec![
        (Some(Severity::Warning), 0, 3),
        (Some(Severity::Error), 5, 8),
        (Some(Severity::Error), 7, 9),
        (None, 20, 21),
    ]);
    let plan = plan_diagnostic_highlights(&ranges);
    assert_eq!(
        plan,
        vec![
            DiagnosticHighlight::Precise { severity: Severity::Warning, start: 0, end: 3 },
            DiagnosticHighlight::Precise { severity: Severity::Error, start: 5, end: 9 },
            DiagnosticHighlight::WholeLine { at: 5 },
        ]
    );
}

#[test]
fn editor_startup_and_written_status() {
    let app = HelixApp::new(Rect { x: 0, y: 0, width: 10, height: 5 });
    assert!(!app.active_document_changed && !app.idle_timeout_triggered());
    assert_eq!(startup_status(false, 1, false), Some("Loaded 1 file.".to_string()));
    assert_eq!(startup_status(false, 3, false), Some("Loaded 3 files.".to_string()));
    assert_eq!(startup_status(true, 3, false), None);
    assert_eq!(startup_status(false, 0, false), None);
    assert_eq!(startup_status(false, 2, true), None);
    assert_eq!(written_status("src/main.rs", 12, 340), "'src/main.rs' written, 12L 340B");
}

#[test]
fn workspace_configuration_sections() {
    assert_eq!(split_section("a.b"), vec!["a".to_string(), "b".to_string()]);
    assert_eq!(split_section(""), vec![String::new()]);
    assert_eq!(split_section("a."), vec!["a".to_string(), String::new()]);
    let config: serde_json::Value = serde_json::from_str(r#"{"rust-analyzer": {"check": {"command": "clippy"}}}"#).unwrap();
    let found = configuration_for(Some(&config), Some("rust-analyzer.check.command")).unwrap();
    assert_eq!(found, serde_json::Value::String("clippy".to_string()));
    assert!(configuration_for(Some(&config), Some("rust-analyzer.missing")).is_none());
    assert_eq!(configuration_for(Some(&config), None), Some(config.clone()));
    assert!(configuration_for(None, Some("a")).is_none());
}

#[test]
fn row_words_hold_visible_text() {
    let cells = vec![cell("f", 1), cell("n", 1), cell(" ", 1), cell("x", 2), cell("😀", 2), cell("y", 2)];
    let classes = vec![
        class("main"),
        class("main"),
        class("main"),
        class("main"),
        GlyphClass { font_path: "emoji".to_string(), is_emoji: true },
        class("main"),
    ];
    let coords = SurfaceCoords::new(RowOffsetDirection::Down, 0);
    let row = words_of_row(&"editor".to_string(), true, &coords, &cells, &classes);
    let texts: Vec<&str> = row.iter().map(|w| w.string.as_str()).collect();
    assert_eq!(texts, vec!["fn", "x", "😀", "y"]);
    let indices: Vec<usize> = row.iter().map(|w| w.word_index).collect();
    assert_eq!(indices, vec![0, 1, 2, 3]);
    assert_eq!(row[0].color, color(1));
    assert_eq!(row[3].column, 5);
}

#[test]
fn row_lines_cover_drawn_cells() {
    let bg = |b: u32, reset: bool| Cell { symbol: " ".to_string(), fg: color(0), bg: color(b), bg_is_reset: reset };
    let background = color(9);
    let cells = vec![bg(3, false), bg(3, false), bg(9, false), bg(4, false), bg(4, true), bg(5, false)];
    let coords = SurfaceCoords::new(RowOffsetDirection::Down, 0);
    let row = lines_of_row(&"editor".to_string(), true, &background, &coords, &cells);
    let spans: Vec<(usize, usize, usize)> = row.iter().map(|l| (l.line_index, l.column, l.length)).collect();
    assert_eq!(spans, vec![(0, 0, 2), (1, 3, 1), (2, 5, 1)]);
    assert_eq!(row[1].color, color(4));
}
