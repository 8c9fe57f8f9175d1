//! Frame-rate management: the application runs at an idle, an active or a
//! smooth (unlimited) frame rate, chosen each frame from the input, the camera
//! and explicit requests; after a quiet period it drops to the idle rate.
//! Durations are in nanoseconds.

use vstd::prelude::*;

use crate::strings::{decimal, push_char, push_decimal, push_decimal_padded, push_str};
use crate::surface::EntityId;

verus! {

/// Frame duration of the idle rate (5 frames per second).
pub const IDLE_FRAME_NANOS: u64 = 200_000_000;

/// Longest frame duration at which the application still works well (30
/// frames per second); animations run only at or below it.
pub const WORKING_FRAME_NANOS: u64 = 33_000_000;

/// Frame duration of the active rate (60 frames per second).
pub const ACTIVE_FRAME_NANOS: u64 = 16_000_000;

/// Frame duration of the smooth rate: no limit.
pub const SMOOTH_FRAME_NANOS: u64 = 0;

/// How long nothing must happen before the idle rate sets in.
pub const IDLE_TIMER_NANOS: u64 = 250_000_000;

/// The frame rate the application runs at.
#[derive(Clone, Copy, PartialEq, Eq, Debug, Structural)]
pub enum FramerateMode {
    Idle,
    Active,
    Smooth,
}

/// A one-shot timer: it counts elapsed time up to its duration and then
/// stays finished until it is reset.
#[derive(Clone, Copy, PartialEq, Eq, Debug, Structural)]
pub struct IdleTimer {
    pub duration: u64,
    pub elapsed: u64,
    pub finished: bool,
}

/// The timer `t` after `delta` more nanoseconds.
pub open spec fn timer_ticked(t: IdleTimer, delta: nat) -> IdleTimer {
    if t.finished {
        t
    } else if t.elapsed + delta >= t.duration {
        IdleTimer { elapsed: t.duration, finished: true, ..t }
    } else {
        IdleTimer { elapsed: (t.elapsed + delta) as u64, ..t }
    }
}

/// The timer `t` started over.
pub open spec fn timer_reset(t: IdleTimer) -> IdleTimer {
    IdleTimer { elapsed: 0, finished: false, ..t }
}

/// The elapsed share of the timer in hundredths of a percent, rounded to
/// the nearest (a timer of no duration counts as complete).
pub open spec fn timer_hundredths(t: IdleTimer) -> nat {
    if t.duration == 0 {
        10000
    } else {
        ((t.elapsed * 20000 + t.duration) / (2 * t.duration as int)) as nat
    }
}

impl IdleTimer {
    /// Elapsed time never exceeds the duration, and a finished timer has
    /// run its whole duration.
    pub open spec fn wf(self) -> bool {
        &&& self.elapsed <= self.duration
        &&& self.finished ==> self.elapsed == self.duration
    }

    /// A timer of `duration` nanoseconds that has not started.
    pub fn new(duration: u64) -> (t: IdleTimer)
        ensures
            t == (IdleTimer { duration, elapsed: 0, finished: false }),
            t.wf(),
    {
        IdleTimer { duration, elapsed: 0, finished: false }
    }

    /// Advances the timer by `delta` nanoseconds.
    pub fn tick(&mut self, delta: u64)
        requires
            old(self).wf(),
        ensures
            *final(self) == timer_ticked(*old(self), delta as nat),
            final(self).wf(),
    {
        if !self.finished {
            if delta >= self.duration - self.elapsed {
                self.elapsed = self.duration;
                self.finished = true;
            } else {
                self.elapsed = self.elapsed + delta;
            }
        }
    }

    /// Starts the timer over.
    pub fn reset(&mut self)
        ensures
            *final(self) == timer_reset(*old(self)),
    {
        self.elapsed = 0;
        self.finished = false;
    }

    /// Whether the timer has run its whole duration.
    pub fn finished(&self) -> (r: bool)
        ensures
            r == self.finished,
    {
        self.finished
    }

    /// The elapsed share in hundredths of a percent; see `timer_hundredths`.
    pub fn hundredths(&self) -> (r: u64)
        requires
            self.wf(),
        ensures
            r == timer_hundredths(*self),
            r <= 10000,
    {
        if self.duration == 0 {
            10000
        } else {
            let e = self.elapsed as u128;
            let d = self.duration as u128;
            assert(e * 20000 + d <= d * 20001) by (nonlinear_arith)
                requires e <= d;
            let q = (e * 20000 + d) / (2 * d);
            assert(q <= 10000) by (nonlinear_arith)
                requires q == (e * 20000 + d) / (2 * d), e <= d, d > 0;
            q as u64
        }
    }
}

/// What runs the frame rate: the current mode, the idle timer, the pending
/// requests (each with its reason), the frame durations of the modes, what the
/// camera and the input did this frame, and a log of what was decided.
pub struct FramerateManager {
    pub idle_timer: IdleTimer,
    pub mode: FramerateMode,
    pub active_mode_requested: (bool, String),
    pub smooth_mode_requested: (bool, String),
    pub idle_frame_duration: u64,
    pub working_frame_duration: u64,
    pub active_frame_duration: u64,
    pub smooth_frame_duration: u64,
    pub camera_move_requested: bool,
    pub camera_zooming: bool,
    pub camera_moving: bool,
    pub any_key_pressed: bool,
    pub any_mouse_button_pressed: bool,
    pub any_scroll_event: bool,
    pub logs: Vec<String>,
    pub clear_logs_on_next_entry: bool,
}

/// The text of each log entry.
pub open spec fn log_texts(logs: Seq<String>) -> Seq<Seq<char>> {
    logs.map_values(|s: String| s@)
}

/// The log after adding `entries` in order, starting from `logs` with the
/// clear-on-next-entry flag `clear`: the first entry clears the log when the
/// flag is set.
pub open spec fn logged(logs: Seq<Seq<char>>, clear: bool, entries: Seq<Seq<char>>) -> Seq<Seq<char>> {
    if entries.len() == 0 {
        logs
    } else if clear {
        entries
    } else {
        logs + entries
    }
}

impl Default for FramerateManager {
    fn default() -> (m: Self)
        ensures
            m.idle_timer == (IdleTimer { duration: IDLE_TIMER_NANOS, elapsed: 0, finished: false }),
            m.mode == FramerateMode::Smooth,
            m.active_mode_requested.0 == false,
            m.active_mode_requested.1@ == "[EMPTY]"@,
            m.smooth_mode_requested.0 == false,
            m.smooth_mode_requested.1@ == "[EMPTY]"@,
            m.idle_frame_duration == IDLE_FRAME_NANOS,
            m.working_frame_duration == WORKING_FRAME_NANOS,
            m.active_frame_duration == ACTIVE_FRAME_NANOS,
            m.smooth_frame_duration == SMOOTH_FRAME_NANOS,
            !m.camera_move_requested && !m.camera_zooming && !m.camera_moving,
            !m.any_key_pressed && !m.any_mouse_button_pressed && !m.any_scroll_event,
            m.logs@.len() == 0,
            !m.clear_logs_on_next_entry,
            m.wf(),
    {
        FramerateManager {
            idle_timer: IdleTimer::new(IDLE_TIMER_NANOS),
            mode: FramerateMode::Smooth,
            active_mode_requested: (false, "[EMPTY]".to_string()),
            smooth_mode_requested: (false, "[EMPTY]".to_string()),
            idle_frame_duration: IDLE_FRAME_NANOS,
            working_frame_duration: WORKING_FRAME_NANOS,
            active_frame_duration: ACTIVE_FRAME_NANOS,
            smooth_frame_duration: SMOOTH_FRAME_NANOS,
            camera_move_requested: false,
            camera_zooming: false,
            camera_moving: false,
            any_key_pressed: false,
            any_mouse_button_pressed: false,
            any_scroll_event: false,
            logs: Vec::new(),
            clear_logs_on_next_entry: false,
        }
    }
}

impl FramerateManager {
    /// The idle timer is well formed.
    pub open spec fn wf(self) -> bool {
        self.idle_timer.wf()
    }

    /// The frame duration of `mode`.
    pub open spec fn duration_of(self, mode: FramerateMode) -> u64 {
        match mode {
            FramerateMode::Idle => self.idle_frame_duration,
            FramerateMode::Active => self.active_frame_duration,
            FramerateMode::Smooth => self.smooth_frame_duration,
        }
    }

    /// Whether the camera may move this frame.
    pub open spec fn camera_active_spec(self) -> bool {
        self.camera_move_requested || self.camera_moving || self.camera_zooming || self.any_scroll_event
    }

    /// Whether any input arrived this frame.
    pub open spec fn input_active_spec(self) -> bool {
        self.any_key_pressed || self.any_mouse_button_pressed || self.any_scroll_event
    }

    /// Forgets what the camera and the input did.
    pub fn clear_internal_state(&mut self)
        ensures
            *final(self) == (FramerateManager {
                camera_move_requested: false,
                camera_zooming: false,
                camera_moving: false,
                any_key_pressed: false,
                any_mouse_button_pressed: false,
                any_scroll_event: false,
                ..*old(self)
            }),
    {
        self.camera_move_requested = false;
        self.camera_zooming = false;
        self.camera_moving = false;
        self.any_key_pressed = false;
        self.any_mouse_button_pressed = false;
        self.any_scroll_event = false;
    }

    /// Asks for the active frame rate, for `reason`.
    pub fn request_active_framerate(&mut self, reason: String)
        ensures
            *final(self) == (FramerateManager { active_mode_requested: (true, reason), ..*old(self) }),
    {
        self.active_mode_requested = (true, reason);
    }

    /// The reason of the last request for the active frame rate.
    pub fn active_framerate_reason(&self) -> (r: &String)
        ensures
            *r == self.active_mode_requested.1,
    {
        &self.active_mode_requested.1
    }

    /// Whether the active frame rate is requested.
    pub fn active_framerate_requested(&self) -> (r: bool)
        ensures
            r == self.active_mode_requested.0,
    {
        self.active_mode_requested.0
    }

    /// Asks for the smooth frame rate, for `reason`.
    pub fn request_smooth_framerate(&mut self, reason: String)
        ensures
            *final(self) == (FramerateManager { smooth_mode_requested: (true, reason), ..*old(self) }),
    {
        self.smooth_mode_requested = (true, reason);
    }

    /// Whether the smooth frame rate is requested.
    pub fn smooth_framerate_requested(&self) -> (r: bool)
        ensures
            r == self.smooth_mode_requested.0,
    {
        self.smooth_mode_requested.0
    }

    /// The reason of the last request for the smooth frame rate.
    pub fn smooth_framerate_reason(&self) -> (r: &String)
        ensures
            *r == self.smooth_mode_requested.1,
    {
        &self.smooth_mode_requested.1
    }

    /// Takes the request for the active frame rate: returns whether there was
    /// one, and withdraws it (the reason stays).
    pub fn read_and_apply_active_framerate_request(&mut self) -> (r: bool)
        ensures
            r == old(self).active_mode_requested.0,
            *final(self) == (FramerateManager {
                active_mode_requested: (false, old(self).active_mode_requested.1),
                ..*old(self)
            }),
    {
        let buf = self.active_mode_requested.0;
        self.active_mode_requested.0 = false;
        buf
    }

    /// Takes the request for the smooth frame rate: returns whether there was
    /// one, and withdraws it (the reason stays).
    pub fn read_and_apply_smooth_framerate_request(&mut self) -> (r: bool)
        ensures
            r == old(self).smooth_mode_requested.0,
            *final(self) == (FramerateManager {
                smooth_mode_requested: (false, old(self).smooth_mode_requested.1),
                ..*old(self)
            }),
    {
        let buf = self.smooth_mode_requested.0;
        self.smooth_mode_requested.0 = false;
        buf
    }

    /// Frame duration of the idle rate.
    pub fn idle_frame_duration(&self) -> (r: u64)
        ensures
            r == self.idle_frame_duration,
    {
        self.idle_frame_duration
    }

    /// Longest frame duration at which animations run.
    pub fn working_frame_duration(&self) -> (r: u64)
        ensures
            r == self.working_frame_duration,
    {
        self.working_frame_duration
    }

    /// Frame duration of the active rate.
    pub fn active_frame_duration(&self) -> (r: u64)
        ensures
            r == self.active_frame_duration,
    {
        self.active_frame_duration
    }

    /// Frame duration of the smooth rate.
    pub fn smooth_frame_duration(&self) -> (r: u64)
        ensures
            r == self.smooth_frame_duration,
    {
        self.smooth_frame_duration
    }

    /// The current mode.
    pub fn mode(&self) -> (r: FramerateMode)
        ensures
            r == self.mode,
    {
        self.mode
    }

    /// Switches to `framerate_in`.
    pub fn set_mode(&mut self, framerate_in: FramerateMode)
        ensures
            *final(self) == (FramerateManager { mode: framerate_in, ..*old(self) }),
    {
        self.mode = framerate_in;
    }

    /// The frame duration of the current mode.
    pub fn current_frame_duration(&self) -> (r: u64)
        ensures
            r == self.duration_of(self.mode),
    {
        match self.mode {
            FramerateMode::Idle => self.idle_frame_duration,
            FramerateMode::Active => self.active_frame_duration,
            FramerateMode::Smooth => self.smooth_frame_duration,
        }
    }

    /// Switches to `framerate_mode_in` and returns its frame duration.
    pub fn set_mode_and_get_duration(&mut self, framerate_mode_in: FramerateMode) -> (r: u64)
        ensures
            *final(self) == (FramerateManager { mode: framerate_mode_in, ..*old(self) }),
            r == old(self).duration_of(framerate_mode_in),
    {
        self.set_mode(framerate_mode_in);
        self.current_frame_duration()
    }

    /// Whether `frame_duration_in` is the frame duration of the current mode.
    pub fn matches_expected_frame_duration(&mut self, frame_duration_in: u64) -> (r: bool)
        ensures
            *final(self) == *old(self),
            r == (old(self).duration_of(old(self).mode) == frame_duration_in),
    {
        self.current_frame_duration() == frame_duration_in
    }

    /// Advances the idle timer by `delta` nanoseconds, and logs its progress
    /// while it runs.
    pub fn tick_idle_timer(&mut self, delta: u64)
        requires
            old(self).wf(),
        ensures
            final(self).wf(),
            final(self).idle_timer == timer_ticked(old(self).idle_timer, delta as nat),
            log_texts(final(self).logs@) == logged(log_texts(old(self).logs@), old(self).clear_logs_on_next_entry,
                if final(self).idle_timer.finished { seq![] } else { seq![tick_message(timer_hundredths(final(self).idle_timer))] }),
            final(self).clear_logs_on_next_entry == (old(self).clear_logs_on_next_entry && final(self).idle_timer.finished),
            *final(self) == (FramerateManager {
                idle_timer: final(self).idle_timer,
                logs: final(self).logs,
                clear_logs_on_next_entry: final(self).clear_logs_on_next_entry,
                ..*old(self)
            }),
    {
        self.idle_timer.tick(delta);
        if !self.idle_timer.finished() {
            let h = self.idle_timer.hundredths();
            let message = tick_log_message(h);
            self.log(message);
        }
    }

    /// Starts the idle timer over.
    pub fn reset_idle_timer(&mut self)
        ensures
            *final(self) == (FramerateManager { idle_timer: timer_reset(old(self).idle_timer), ..*old(self) }),
    {
        self.idle_timer.reset();
    }

    /// Whether the idle timer has run out.
    pub fn idle_timer_finished(&self) -> (r: bool)
        ensures
            r == self.idle_timer.finished,
    {
        self.idle_timer.finished()
    }

    /// Animations run when the rate is not idle and the last frame, which
    /// took `delta` nanoseconds, was no longer than the working duration.
    pub fn animations_allowed(&self, delta: u64) -> (r: bool)
        ensures
            r == (self.mode != FramerateMode::Idle && delta <= self.working_frame_duration),
    {
        self.mode != FramerateMode::Idle && delta <= self.working_frame_duration()
    }

    /// Records what the camera does this frame.
    pub fn set_camera_state(&mut self, move_requested: bool, is_zooming: bool, is_moving: bool)
        ensures
            *final(self) == (FramerateManager {
                camera_move_requested: move_requested,
                camera_zooming: is_zooming,
                camera_moving: is_moving,
                ..*old(self)
            }),
    {
        self.camera_move_requested = move_requested;
        self.camera_zooming = is_zooming;
        self.camera_moving = is_moving;
    }

    /// Records the input of this frame.
    pub fn set_input_state(&mut self, any_key: bool, any_mouse: bool, any_scroll: bool)
        ensures
            *final(self) == (FramerateManager {
                any_key_pressed: any_key,
                any_mouse_button_pressed: any_mouse,
                any_scroll_event: any_scroll,
                ..*old(self)
            }),
    {
        self.any_key_pressed = any_key;
        self.any_mouse_button_pressed = any_mouse;
        self.any_scroll_event = any_scroll;
    }

    /// Whether the camera may move: a move was requested, it moves or zooms,
    /// or the wheel turned.
    pub fn camera_potentially_active(&self) -> (r: bool)
        ensures
            r == self.camera_active_spec(),
    {
        self.camera_move_requested || self.camera_moving || self.camera_zooming || self.any_scroll_event
    }

    /// Whether a key or mouse button is down or the wheel turned.
    pub fn input_active(&self) -> (r: bool)
        ensures
            r == self.input_active_spec(),
    {
        self.any_key_pressed || self.any_mouse_button_pressed || self.any_scroll_event
    }

    /// The smooth rate is called for while the camera may move.
    pub fn smooth_framerate_condition(&self) -> (r: bool)
        ensures
            r == self.camera_active_spec(),
    {
        self.camera_potentially_active()
    }

    /// The active rate is called for while there is input.
    pub fn active_framerate_condition(&self) -> (r: bool)
        ensures
            r == self.input_active_spec(),
    {
        self.any_key_pressed || self.any_mouse_button_pressed || self.any_scroll_event
    }

    /// Takes the request for the smooth rate; true when there was one or the
    /// smooth condition holds.
    pub fn read_and_apply_smooth_framerate_condition(&mut self) -> (r: bool)
        ensures
            r == (old(self).smooth_mode_requested.0 || old(self).camera_active_spec()),
            *final(self) == (FramerateManager {
                smooth_mode_requested: (false, old(self).smooth_mode_requested.1),
                ..*old(self)
            }),
    {
        let requested = self.read_and_apply_smooth_framerate_request();
        requested || self.smooth_framerate_condition()
    }

    /// Takes the request for the active rate; true when there was one or the
    /// active condition holds.
    pub fn read_and_apply_active_framerate_condition(&mut self) -> (r: bool)
        ensures
            r == (old(self).active_mode_requested.0 || old(self).input_active_spec()),
            *final(self) == (FramerateManager {
                active_mode_requested: (false, old(self).active_mode_requested.1),
                ..*old(self)
            }),
    {
        let requested = self.read_and_apply_active_framerate_request();
        requested || self.active_framerate_condition()
    }

    /// Whether a camera move was requested this frame.
    pub fn camera_move_requested(&self) -> (r: bool)
        ensures
            r == self.camera_move_requested,
    {
        self.camera_move_requested
    }

    /// Whether the camera zooms this frame.
    pub fn camera_zooming(&self) -> (r: bool)
        ensures
            r == self.camera_zooming,
    {
        self.camera_zooming
    }

    /// Whether the camera moves this frame.
    pub fn camera_moving(&self) -> (r: bool)
        ensures
            r == self.camera_moving,
    {
        self.camera_moving
    }

    /// Whether a key is down this frame.
    pub fn any_key_pressed(&self) -> (r: bool)
        ensures
            r == self.any_key_pressed,
    {
        self.any_key_pressed
    }

    /// Whether a mouse button is down this frame.
    pub fn any_mouse_button_pressed(&self) -> (r: bool)
        ensures
            r == self.any_mouse_button_pressed,
    {
        self.any_mouse_button_pressed
    }

    /// Whether the wheel turned this frame.
    pub fn any_scroll_event(&self) -> (r: bool)
        ensures
            r == self.any_scroll_event,
    {
        self.any_scroll_event
    }

    /// Empties the log.
    pub fn clear_logs(&mut self)
        ensures
            final(self).logs@.len() == 0,
            *final(self) == (FramerateManager { logs: final(self).logs, ..*old(self) }),
    {
        self.logs.clear();
    }

    /// Makes the next log entry replace the whole log.
    pub fn clear_on_next_entry(&mut self)
        ensures
            *final(self) == (FramerateManager { clear_logs_on_next_entry: true, ..*old(self) }),
    {
        self.clear_logs_on_next_entry = true;
    }

    /// Adds `log` to the log, after clearing it if that was asked for.
    pub fn log(&mut self, log: String)
        ensures
            final(self).logs@ == (if old(self).clear_logs_on_next_entry { Seq::empty() } else { old(self).logs@ }).push(log),
            log_texts(final(self).logs@) == logged(log_texts(old(self).logs@), old(self).clear_logs_on_next_entry, seq![log@]),
            *final(self) == (FramerateManager {
                logs: final(self).logs,
                clear_logs_on_next_entry: false,
                ..*old(self)
            }),
    {
        if self.clear_logs_on_next_entry == true {
            self.clear_logs();
            self.clear_logs_on_next_entry = false;
        }
        let ghost before = self.logs@;
        self.logs.push(log);
        proof {
            assert(log_texts(self.logs@) =~= log_texts(before).push(log@));
            assert(log_texts(old(self).logs@) + seq![log@] =~= log_texts(old(self).logs@).push(log@));
            if old(self).clear_logs_on_next_entry {
                assert(log_texts(before) =~= Seq::<Seq<char>>::empty());
                assert(log_texts(self.logs@) =~= seq![log@]);
            }
        }
    }

    /// The log.
    pub fn logs(&self) -> (r: &Vec<String>)
        ensures
            r == &self.logs,
    {
        &self.logs
    }
}

/// The log entry of a running idle timer at `h` hundredths of a percent.
pub open spec fn tick_message(h: nat) -> Seq<char> {
    "tick idle timer "@ + decimal(h / 100) + "."@
        + (if h % 100 < 10 { seq!['0'] } else { Seq::<char>::empty() }) + decimal(h % 100) + "%"@
}

/// The log entry of a running idle timer at `h` hundredths of a percent.
pub fn tick_log_message(h: u64) -> (s: String)
    ensures
        s@ == tick_message(h as nat),
{
    let mut s = "tick idle timer ".to_string();
    push_decimal(&mut s, h / 100);
    push_str(&mut s, ".");
    push_decimal_padded(&mut s, h % 100, 2);
    push_str(&mut s, "%");
    proof {
        let r = (h % 100) as nat;
        if r < 10 {
            assert(decimal(r).len() == 1);
            assert(Seq::new((2 - decimal(r).len()) as nat, |i: int| '0') =~= seq!['0']);
        } else {
            assert(decimal(r) =~= decimal(r / 10).push(digit_of(r)));
            assert(decimal(r).len() == 2);
            assert(Seq::new(0, |i: int| '0') =~= Seq::<char>::empty());
        }
    }
    s
}

spec fn digit_of(r: nat) -> char {
    crate::strings::digit_char(r % 10)
}

/// Whether animations may run; see `FramerateManager::animations_allowed`.
pub fn animations_allowed(delta: u64, framerate_manager: &FramerateManager) -> (r: bool)
    ensures
        r == (framerate_manager.mode != FramerateMode::Idle && delta <= framerate_manager.working_frame_duration),
{
    framerate_manager.animations_allowed(delta)
}

/// Adding two batches of log entries one after the other is adding them at once.
pub proof fn lemma_logged_concat(logs: Seq<Seq<char>>, clear: bool, a: Seq<Seq<char>>, b: Seq<Seq<char>>)
    ensures
        logged(logged(logs, clear, a), clear && a.len() == 0, b) == logged(logs, clear, a + b),
{
    if a.len() == 0 {
        assert(a + b =~= b);
    } else if b.len() == 0 {
        assert(a + b =~= a);
    } else if !clear {
        assert(logs + a + b =~= logs + (a + b));
    }
}

/// The frame limiter that paces frames at the active and smooth rates.
#[derive(Clone, Copy, PartialEq, Eq, Debug, Structural)]
pub enum Limiter {
    Off,
    Auto,
    Manual(u64),
}

/// How the window's event loop runs while it has the focus; the idle rate
/// uses the low-power reactive mode, waiting at most `max_wait` nanoseconds.
#[derive(Clone, Copy, PartialEq, Eq, Debug, Structural)]
pub enum UpdateMode {
    Continuous,
    Reactive { max_wait: u64 },
    ReactiveLowPower { max_wait: u64, ignore_cursor_movement: bool },
}

/// What to do with the camera this frame.
#[derive(Clone, Copy, PartialEq, Eq, Debug, Structural)]
pub enum CameraAction {
    Keep,
    WakeUp,
    PutToSleep,
}

/// What happened in a frame: the names of the keys held down, the mouse and
/// the wheel, the state of the camera, and how long the frame took.
pub struct FrameInput {
    pub pressed_keys: Vec<String>,
    pub any_mouse_button_pressed: bool,
    pub any_scroll_event: bool,
    pub camera_move_requested: bool,
    pub camera_zooming: bool,
    pub camera_moving: bool,
    pub camera_dormant: bool,
    pub camera_awake: bool,
    pub delta: u64,
}

/// The outcome of a frame: the camera action, and the limiter and event-loop
/// mode to run the next frames with.
#[derive(Clone, Copy, PartialEq, Eq, Debug, Structural)]
pub struct FramerateUpdate {
    pub camera: CameraAction,
    pub limiter: Limiter,
    pub focused_mode: UpdateMode,
}

/// The log entries for the keys held down.
pub open spec fn key_messages(keys: Seq<String>) -> Seq<Seq<char>> {
    Seq::new(keys.len(), |i: int| "pressed: "@ + keys[i]@)
}

/// The manager with this frame's camera and input recorded.
pub open spec fn with_frame(m: FramerateManager, f: FrameInput) -> FramerateManager {
    FramerateManager {
        camera_move_requested: f.camera_move_requested,
        camera_zooming: f.camera_zooming,
        camera_moving: f.camera_moving,
        any_key_pressed: f.pressed_keys@.len() > 0,
        any_mouse_button_pressed: f.any_mouse_button_pressed,
        any_scroll_event: f.any_scroll_event,
        ..m
    }
}

/// The frame duration in force: the longest wait of the event loop at the
/// idle rate, else the manual limit of the limiter.
pub open spec fn frame_duration_in_force(mode: FramerateMode, limiter: Limiter, focused_mode: UpdateMode) -> u64 {
    if mode == FramerateMode::Idle {
        match focused_mode {
            UpdateMode::ReactiveLowPower { max_wait, .. } => max_wait,
            _ => 0,
        }
    } else {
        match limiter {
            Limiter::Manual(d) => d,
            _ => 0,
        }
    }
}

/// The idle decision of a frame without smooth or active condition: the mode
/// and new frame duration after it, and its log entries.
pub open spec fn idle_decision(m: FramerateManager, calm: bool, current: u64, timer: IdleTimer)
    -> (FramerateMode, Option<u64>, Seq<Seq<char>>)
{
    if !calm {
        (m.mode, None, Seq::empty())
    } else {
        let ticks = if timer.finished { Seq::empty() } else { seq![tick_message(timer_hundredths(timer))] };
        if !timer.finished && current != m.active_frame_duration {
            (FramerateMode::Active, Some(m.active_frame_duration),
                ticks.push("limiting fps to active while waiting for idle timer"@))
        } else if timer.finished && current != m.idle_frame_duration {
            (FramerateMode::Idle, Some(m.idle_frame_duration), ticks.push("limiting fps to idle"@))
        } else {
            (m.mode, None, ticks)
        }
    }
}

/// The camera decision of a frame, and its log entries.
pub open spec fn camera_decision(m: FramerateManager, f: FrameInput, camera_active: bool, mode: FramerateMode, timer: IdleTimer)
    -> (CameraAction, Seq<Seq<char>>)
{
    if camera_active && f.camera_dormant && mode != FramerateMode::Idle && f.delta <= m.working_frame_duration {
        (CameraAction::WakeUp, seq!["camera just started moving -> waking it up"@])
    } else if !camera_active && f.camera_awake && timer.finished {
        (CameraAction::PutToSleep, seq!["camera inactive long enough -> putting to sleep"@])
    } else {
        (CameraAction::Keep, Seq::empty())
    }
}

/// The rate decision of a frame: smooth or active when called for and not in
/// force already; else what the idle decision chose.
pub open spec fn rate_decision(m: FramerateManager, smooth: bool, active: bool, current: u64, mode: FramerateMode,
    new_duration: Option<u64>) -> (FramerateMode, Option<u64>, Seq<Seq<char>>)
{
    if smooth && current != m.smooth_frame_duration {
        (FramerateMode::Smooth, Some(m.smooth_frame_duration), seq!["smooth framerate condition -> unlimited fps"@])
    } else if active && current != m.active_frame_duration && !smooth {
        (FramerateMode::Active, Some(m.active_frame_duration), seq!["active framerate condition -> limiting fps to 60"@])
    } else {
        (mode, new_duration, Seq::empty())
    }
}

/// The limiter and event-loop mode that put a new frame duration in force:
/// the low-power event loop for the idle rate, the manual limiter otherwise.
pub open spec fn pacing(new_duration: Option<u64>, mode: FramerateMode, limiter: Limiter, focused_mode: UpdateMode)
    -> (Limiter, UpdateMode)
{
    match new_duration {
        Some(d) => if mode == FramerateMode::Idle {
            (Limiter::Off, UpdateMode::ReactiveLowPower { max_wait: d, ignore_cursor_movement: true })
        } else {
            (Limiter::Manual(d), UpdateMode::Continuous)
        },
        None => (limiter, focused_mode),
    }
}

/// The manager `m1` and outcome `out` of a frame `f` of the manager `m0`, run
/// with `limiter` and `focused_mode`.
pub open spec fn frame_result(m0: FramerateManager, f: FrameInput, limiter: Limiter, focused_mode: UpdateMode,
    m1: FramerateManager, out: FramerateUpdate) -> bool
{
    let mf = with_frame(m0, f);
    let keys = key_messages(f.pressed_keys@);
    if m0.mode != FramerateMode::Idle && !(limiter is Manual) {
        &&& m1 == (FramerateManager { mode: FramerateMode::Smooth, logs: m1.logs, clear_logs_on_next_entry: m1.clear_logs_on_next_entry, ..mf })
        &&& log_texts(m1.logs@) == logged(log_texts(m0.logs@), true, keys)
        &&& m1.clear_logs_on_next_entry == (keys.len() == 0)
        &&& out == (FramerateUpdate { camera: CameraAction::Keep, limiter: Limiter::Manual(m0.smooth_frame_duration), focused_mode })
    } else {
        let current = frame_duration_in_force(m0.mode, limiter, focused_mode);
        let camera_active = mf.camera_active_spec();
        let smooth = m0.smooth_mode_requested.0 || camera_active;
        let active = m0.active_mode_requested.0 || mf.input_active_spec();
        let calm = !smooth && !active;
        let timer = if calm { timer_ticked(m0.idle_timer, f.delta as nat) } else { timer_reset(m0.idle_timer) };
        let (mode1, new1, idle_logs) = idle_decision(m0, calm, current, timer);
        let (camera, camera_logs) = camera_decision(m0, f, camera_active, mode1, timer);
        let (mode2, new2, rate_logs) = rate_decision(m0, smooth, active, current, mode1, new1);
        let (limiter2, focused2) = pacing(new2, mode2, limiter, focused_mode);
        let entries = keys + idle_logs + camera_logs + rate_logs;
        &&& m1 == (FramerateManager {
            idle_timer: timer,
            mode: mode2,
            active_mode_requested: (false, m0.active_mode_requested.1),
            smooth_mode_requested: (false, m0.smooth_mode_requested.1),
            logs: m1.logs,
            clear_logs_on_next_entry: m1.clear_logs_on_next_entry,
            ..mf
        })
        &&& log_texts(m1.logs@) == logged(log_texts(m0.logs@), true, entries)
        &&& m1.clear_logs_on_next_entry == (entries.len() == 0)
        &&& out == (FramerateUpdate { camera, limiter: limiter2, focused_mode: focused2 })
    }
}

/// Logs `message` while tracking the entries logged so far in `entries`.
fn log_tracked(manager: &mut FramerateManager, message: String, Ghost(logs0): Ghost<Seq<Seq<char>>>,
    Ghost(entries): Ghost<Seq<Seq<char>>>)
    requires
        log_texts(old(manager).logs@) == logged(logs0, true, entries),
        old(manager).clear_logs_on_next_entry == (entries.len() == 0),
    ensures
        log_texts(final(manager).logs@) == logged(logs0, true, entries.push(message@)),
        !final(manager).clear_logs_on_next_entry,
        *final(manager) == (FramerateManager { logs: final(manager).logs, clear_logs_on_next_entry: false, ..*old(manager) }),
{
    manager.log(message);
    proof {
        lemma_logged_concat(logs0, true, entries, seq![message@]);
        assert(entries + seq![message@] =~= entries.push(message@));
    }
}

/// One frame of frame-rate management: records the frame's input and camera
/// state, takes the pending requests, runs or resets the idle timer, decides
/// the camera action and the frame rate, and returns the limiter and event
/// loop mode that put it in force. The log holds this frame's entries.
pub fn update(manager: &mut FramerateManager, frame: &FrameInput, limiter: Limiter, focused_mode: UpdateMode)
    -> (out: FramerateUpdate)
    requires
        old(manager).wf(),
        old(manager).mode == FramerateMode::Idle ==> focused_mode is ReactiveLowPower,
    ensures
        final(manager).wf(),
        frame_result(*old(manager), *frame, limiter, focused_mode, *final(manager), out),
{
    let ghost m0 = *manager;
    let ghost logs0 = log_texts(manager.logs@);
    manager.clear_on_next_entry();
    let ghost mut entries: Seq<Seq<char>> = Seq::empty();
    let mut any_key_pressed = false;
    let n = frame.pressed_keys.len();
    let mut i: usize = 0;
    while i < n
        invariant
            n == frame.pressed_keys@.len(),
            i <= n,
            entries == key_messages(frame.pressed_keys@).take(i as int),
            any_key_pressed == (i > 0),
            log_texts(manager.logs@) == logged(logs0, true, entries),
            manager.clear_logs_on_next_entry == (entries.len() == 0),
            *manager == (FramerateManager { logs: manager.logs, clear_logs_on_next_entry: manager.clear_logs_on_next_entry, ..m0 }),
        decreases n - i,
    {
        let mut message = "pressed: ".to_string();
        push_str(&mut message, frame.pressed_keys[i].as_str());
        log_tracked(manager, message, Ghost(logs0), Ghost(entries));
        proof {
            entries = entries.push(message@);
            assert(entries =~= key_messages(frame.pressed_keys@).take(i + 1));
        }
        any_key_pressed = true;
        i = i + 1;
    }
    proof {
        assert(entries =~= key_messages(frame.pressed_keys@));
    }
    let ghost e_keys = entries;
    let ghost mut idle_logs: Seq<Seq<char>> = Seq::empty();
    let ghost mut camera_logs: Seq<Seq<char>> = Seq::empty();
    let ghost mut rate_logs: Seq<Seq<char>> = Seq::empty();
    let any_scroll_event = frame.any_scroll_event;
    let any_mouse_button_pressed = frame.any_mouse_button_pressed;
    manager.clear_internal_state();
    manager.set_input_state(any_key_pressed, any_mouse_button_pressed, any_scroll_event);
    manager.set_camera_state(frame.camera_move_requested, frame.camera_zooming, frame.camera_moving);
    let camera_potentially_active = manager.camera_potentially_active();
    let current_frame_duration = match manager.mode() {
        FramerateMode::Idle => {
            match focused_mode {
                UpdateMode::ReactiveLowPower { max_wait, .. } => max_wait,
                _ => 0,
            }
        },
        _ => {
            match limiter {
                Limiter::Manual(frame_duration) => frame_duration,
                _ => {
                    let frame_duration = manager.set_mode_and_get_duration(FramerateMode::Smooth);
                    return FramerateUpdate { camera: CameraAction::Keep, limiter: Limiter::Manual(frame_duration), focused_mode };
                },
            }
        },
    };
    let mut new_frame_duration: Option<u64> = None;
    let smooth_framerate_condition = manager.read_and_apply_smooth_framerate_condition();
    let active_framerate_condition = manager.read_and_apply_active_framerate_condition();
    if smooth_framerate_condition || active_framerate_condition {
        manager.reset_idle_timer();
    } else {
        let ghost before = *manager;
        manager.tick_idle_timer(frame.delta);
        proof {
            let ticks = if manager.idle_timer.finished { Seq::empty() } else { seq![tick_message(timer_hundredths(manager.idle_timer))] };
            lemma_logged_concat(logs0, true, entries, ticks);
            entries = entries + ticks;
            idle_logs = ticks;
        }
        let idle_timer_finished = manager.idle_timer_finished();
        if !idle_timer_finished && current_frame_duration != manager.active_frame_duration() {
            log_tracked(manager, "limiting fps to active while waiting for idle timer".to_string(), Ghost(logs0), Ghost(entries));
            proof {
                entries = entries.push("limiting fps to active while waiting for idle timer"@);
                idle_logs = idle_logs.push("limiting fps to active while waiting for idle timer"@);
            }
            new_frame_duration = Some(manager.set_mode_and_get_duration(FramerateMode::Active));
        } else if idle_timer_finished && current_frame_duration != manager.idle_frame_duration() {
            log_tracked(manager, "limiting fps to idle".to_string(), Ghost(logs0), Ghost(entries));
            proof {
                entries = entries.push("limiting fps to idle"@);
                idle_logs = idle_logs.push("limiting fps to idle"@);
            }
            new_frame_duration = Some(manager.set_mode_and_get_duration(FramerateMode::Idle));
        }
    }
    let mut camera = CameraAction::Keep;
    if camera_potentially_active && frame.camera_dormant && manager.animations_allowed(frame.delta) {
        log_tracked(manager, "camera just started moving -> waking it up".to_string(), Ghost(logs0), Ghost(entries));
        proof {
            entries = entries.push("camera just started moving -> waking it up"@);
            camera_logs = seq!["camera just started moving -> waking it up"@];
        }
        camera = CameraAction::WakeUp;
    } else if !camera_potentially_active && frame.camera_awake && manager.idle_timer.finished() {
        log_tracked(manager, "camera inactive long enough -> putting to sleep".to_string(), Ghost(logs0), Ghost(entries));
        proof {
            entries = entries.push("camera inactive long enough -> putting to sleep"@);
            camera_logs = seq!["camera inactive long enough -> putting to sleep"@];
        }
        camera = CameraAction::PutToSleep;
    }
    if smooth_framerate_condition && current_frame_duration != manager.smooth_frame_duration() {
        log_tracked(manager, "smooth framerate condition -> unlimited fps".to_string(), Ghost(logs0), Ghost(entries));
        proof {
            entries = entries.push("smooth framerate condition -> unlimited fps"@);
            rate_logs = seq!["smooth framerate condition -> unlimited fps"@];
        }
        new_frame_duration = Some(manager.set_mode_and_get_duration(FramerateMode::Smooth));
    } else if active_framerate_condition && current_frame_duration != manager.active_frame_duration()
        && !smooth_framerate_condition {
        log_tracked(manager, "active framerate condition -> limiting fps to 60".to_string(), Ghost(logs0), Ghost(entries));
        proof {
            entries = entries.push("active framerate condition -> limiting fps to 60"@);
            rate_logs = seq!["active framerate condition -> limiting fps to 60"@];
        }
        new_frame_duration = Some(manager.set_mode_and_get_duration(FramerateMode::Active));
    }
    let mut new_limiter = limiter;
    let mut new_focused_mode = focused_mode;
    if let Some(new_frame_duration) = new_frame_duration {
        match manager.mode() {
            FramerateMode::Idle => {
                new_focused_mode = UpdateMode::ReactiveLowPower { max_wait: new_frame_duration, ignore_cursor_movement: true };
                new_limiter = Limiter::Off;
            },
            _ => {
                new_focused_mode = UpdateMode::Continuous;
                new_limiter = Limiter::Manual(new_frame_duration);
            },
        }
    }
    proof {
        assert(entries =~= e_keys + idle_logs + camera_logs + rate_logs);
    }
    FramerateUpdate { camera, limiter: new_limiter, focused_mode: new_focused_mode }
}

/// Ticking the idle timer by `a` and then by `b` nanoseconds is ticking it by
/// `a + b`.
pub proof fn lemma_timer_ticks_add_up(t: IdleTimer, a: nat, b: nat)
    requires
        t.wf(),
    ensures
        timer_ticked(timer_ticked(t, a), b) == timer_ticked(t, a + b),
        timer_ticked(t, a).wf(),
{
}

/// A request for a frame rate is answered once: right after it, taking the
/// request yields true, and taking it again yields false; its reason stays.
pub proof fn lemma_request_taken_once(m: FramerateManager, reason: String)
    ensures
        ({
            let requested = FramerateManager { active_mode_requested: (true, reason), ..m };
            let taken = FramerateManager { active_mode_requested: (false, requested.active_mode_requested.1), ..requested };
            &&& requested.active_mode_requested.0
            &&& !taken.active_mode_requested.0
            &&& taken.active_mode_requested.1 == reason
        }),
        ({
            let requested = FramerateManager { smooth_mode_requested: (true, reason), ..m };
            let taken = FramerateManager { smooth_mode_requested: (false, requested.smooth_mode_requested.1), ..requested };
            &&& requested.smooth_mode_requested.0
            &&& !taken.smooth_mode_requested.0
            &&& taken.smooth_mode_requested.1 == reason
        }),
{
}

/// A calm frame (no key, button, wheel, camera activity or request) after
/// which the idle timer has run out puts the manager in the idle mode, with
/// the limiter off and the low-power event loop waiting the idle frame
/// duration, unless that duration is already in force.
pub proof fn lemma_calm_frame_goes_idle(m0: FramerateManager, f: FrameInput, limiter: Limiter, focused_mode: UpdateMode,
    m1: FramerateManager, out: FramerateUpdate)
    requires
        frame_result(m0, f, limiter, focused_mode, m1, out),
        m0.mode == FramerateMode::Idle || limiter is Manual,
        f.pressed_keys@.len() == 0,
        !f.any_mouse_button_pressed && !f.any_scroll_event,
        !f.camera_move_requested && !f.camera_zooming && !f.camera_moving,
        !m0.active_mode_requested.0 && !m0.smooth_mode_requested.0,
        timer_ticked(m0.idle_timer, f.delta as nat).finished,
        frame_duration_in_force(m0.mode, limiter, focused_mode) != m0.idle_frame_duration,
    ensures
        m1.mode == FramerateMode::Idle,
        out.limiter == Limiter::Off,
        out.focused_mode == (UpdateMode::ReactiveLowPower { max_wait: m0.idle_frame_duration, ignore_cursor_movement: true }),
{
}

/// Input wakes the manager from the idle mode: a frame with a key, button or
/// wheel event leaves the idle mode for the active or the smooth mode, when
/// the idle wait in force differs from the frame durations of those modes.
pub proof fn lemma_input_leaves_idle(m0: FramerateManager, f: FrameInput, limiter: Limiter, focused_mode: UpdateMode,
    m1: FramerateManager, out: FramerateUpdate)
    requires
        frame_result(m0, f, limiter, focused_mode, m1, out),
        m0.mode == FramerateMode::Idle,
        f.pressed_keys@.len() > 0 || f.any_mouse_button_pressed || f.any_scroll_event,
        frame_duration_in_force(m0.mode, limiter, focused_mode) != m0.active_frame_duration,
        frame_duration_in_force(m0.mode, limiter, focused_mode) != m0.smooth_frame_duration,
    ensures
        m1.mode == FramerateMode::Active || m1.mode == FramerateMode::Smooth,
        !m1.idle_timer.finished,
        out.limiter == Limiter::Manual(m0.duration_of(m1.mode)),
        out.focused_mode == UpdateMode::Continuous,
{
}

/// After `clear_on_next_entry`, the next entry replaces the whole log.
pub proof fn lemma_next_entry_replaces_log(logs: Seq<Seq<char>>, entry: Seq<char>)
    ensures
        logged(logs, true, seq![entry]) == seq![entry],
{
}

/// The frame-rate indicator of the debug tool: whether it is shown enlarged
/// (the pointer is over it).
#[derive(Clone, Copy, PartialEq, Eq, Debug, Structural)]
pub struct FramerateIndicator {
    pub highlighted: bool,
}

impl FramerateIndicator {
    /// Enlarges the indicator; `true` when it was not yet, so the growing
    /// animation is to be started.
    pub fn highlight(&mut self) -> (start: bool)
        ensures
            start == !old(self).highlighted,
            final(self).highlighted,
    {
        if self.highlighted {
            return false;
        }
        self.highlighted = true;
        true
    }

    /// Shrinks the indicator back; `true` when it was enlarged, so the
    /// shrinking animation is to be started.
    pub fn unhighlight(&mut self) -> (start: bool)
        ensures
            start == old(self).highlighted,
            !final(self).highlighted,
    {
        if !self.highlighted {
            return false;
        }
        self.highlighted = false;
        true
    }
}

/// The state of the frame-rate debug tool that a click changes: whether its
/// extra lines are shown, and the entity holding them when they are.
#[derive(Clone, Copy, PartialEq, Eq, Debug, Structural)]
pub struct FramerateDebugState {
    pub extra_info_enabled: bool,
    pub lines_entity: Option<EntityId>,
}

/// A click on the frame-rate indicator: a left click turns the extra lines
/// on or off; when they go off, the entity holding them is handed back (to
/// be despawned) and forgotten. Without a click nothing changes and nothing
/// is handed back.
pub fn indicator_click(debug: &mut FramerateDebugState, left_just_pressed: bool) -> (drop_lines: Option<EntityId>)
    ensures
        left_just_pressed ==> {
            &&& final(debug).extra_info_enabled == !old(debug).extra_info_enabled
            &&& if old(debug).extra_info_enabled {
                &&& drop_lines == old(debug).lines_entity
                &&& final(debug).lines_entity is None
            } else {
                &&& drop_lines is None
                &&& final(debug).lines_entity == old(debug).lines_entity
            }
        },
        !left_just_pressed ==> drop_lines is None && *final(debug) == *old(debug),
{
    if !left_just_pressed {
        return None;
    }
    debug.extra_info_enabled = !debug.extra_info_enabled;
    if !debug.extra_info_enabled && debug.lines_entity.is_some() {
        let lines = debug.lines_entity;
        debug.lines_entity = None;
        return lines;
    }
    None
}

/// The color of a line of the debug tool: that of the smooth or the active
/// frame rate when what the line shows holds, gray otherwise.
#[derive(Clone, Copy, PartialEq, Eq, Debug, Structural)]
pub enum DebugLineColor {
    Smooth,
    Active,
    Gray,
}

/// A line of the debug tool: its text and color.
pub struct DebugLine {
    pub string: String,
    pub foreground: DebugLineColor,
}

/// The text of a flag.
pub open spec fn flag_text(b: bool) -> Seq<char> {
    if b { "true"@ } else { "false"@ }
}

/// A flag's line: its label, its value, and the color `on` when it holds.
pub open spec fn flag_line(label: Seq<char>, b: bool, on: DebugLineColor) -> (Seq<char>, DebugLineColor) {
    (label + flag_text(b), if b { on } else { DebugLineColor::Gray })
}

/// The state lines of the debug tool for `m`: the camera flags (in the smooth
/// color), the input flags and whether the idle timer still runs (in the
/// active color), then the reasons of the last smooth and active requests,
/// colored while the request stands.
pub open spec fn state_lines(m: FramerateManager) -> Seq<(Seq<char>, DebugLineColor)> {
    seq![
        flag_line("camera_move_requested:    "@, m.camera_move_requested, DebugLineColor::Smooth),
        flag_line("camera_moving:            "@, m.camera_moving, DebugLineColor::Smooth),
        flag_line("camera_zooming:           "@, m.camera_zooming, DebugLineColor::Smooth),
        flag_line("any_key_pressed:          "@, m.any_key_pressed, DebugLineColor::Active),
        flag_line("any_mouse_button_pressed: "@, m.any_mouse_button_pressed, DebugLineColor::Active),
        flag_line("any_scroll_event:         "@, m.any_scroll_event, DebugLineColor::Active),
        flag_line("idle timer active:        "@, !m.idle_timer.finished, DebugLineColor::Active),
        ("Smooth req reason: "@ + m.smooth_mode_requested.1@,
            if m.smooth_mode_requested.0 { DebugLineColor::Smooth } else { DebugLineColor::Gray }),
        ("Active req reason: "@ + m.active_mode_requested.1@,
            if m.active_mode_requested.0 { DebugLineColor::Active } else { DebugLineColor::Gray }),
    ]
}

/// The text and color of a debug line.
pub open spec fn debug_line_view(l: DebugLine) -> (Seq<char>, DebugLineColor) {
    (l.string@, l.foreground)
}

fn flag_debug_line(label: &str, b: bool, on: DebugLineColor) -> (r: DebugLine)
    ensures
        debug_line_view(r) == flag_line(label@, b, on),
{
    let mut string = label.to_string();
    if b {
        push_str(&mut string, "true");
    } else {
        push_str(&mut string, "false");
    }
    DebugLine { string, foreground: if b { on } else { DebugLineColor::Gray } }
}

fn reason_debug_line(label: &str, reason: &String, requested: bool, on: DebugLineColor) -> (r: DebugLine)
    ensures
        debug_line_view(r) == (label@ + reason@, if requested { on } else { DebugLineColor::Gray }),
{
    let mut string = label.to_string();
    push_str(&mut string, reason.as_str());
    DebugLine { string, foreground: if requested { on } else { DebugLineColor::Gray } }
}

/// Appends the state lines of the debug tool for `manager` to `lines`; see
/// `state_lines`. (The tool's first line, the frame rate with the last
/// frame's time, is a float readout the caller draws.)
pub fn collect_state_lines(manager: &FramerateManager, lines: &mut Vec<DebugLine>)
    ensures
        final(lines)@.map_values(|l: DebugLine| debug_line_view(l)) == old(lines)@.map_values(|l: DebugLine| debug_line_view(l))
            + state_lines(*manager),
{
    let ghost start = lines@.map_values(|l: DebugLine| debug_line_view(l));
    let mut added: Vec<DebugLine> = Vec::new();
    added.push(flag_debug_line("camera_move_requested:    ", manager.camera_move_requested(), DebugLineColor::Smooth));
    added.push(flag_debug_line("camera_moving:            ", manager.camera_moving(), DebugLineColor::Smooth));
    added.push(flag_debug_line("camera_zooming:           ", manager.camera_zooming(), DebugLineColor::Smooth));
    added.push(flag_debug_line("any_key_pressed:          ", manager.any_key_pressed(), DebugLineColor::Active));
    added.push(flag_debug_line("any_mouse_button_pressed: ", manager.any_mouse_button_pressed(), DebugLineColor::Active));
    added.push(flag_debug_line("any_scroll_event:         ", manager.any_scroll_event(), DebugLineColor::Active));
    added.push(flag_debug_line("idle timer active:        ", !manager.idle_timer_finished(), DebugLineColor::Active));
    added.push(reason_debug_line("Smooth req reason: ", manager.smooth_framerate_reason(), manager.smooth_framerate_requested(),
        DebugLineColor::Smooth));
    added.push(reason_debug_line("Active req reason: ", manager.active_framerate_reason(), manager.active_framerate_requested(),
        DebugLineColor::Active));
    proof {
        assert(added@.map_values(|l: DebugLine| debug_line_view(l)) =~= state_lines(*manager));
    }
    lines.append(&mut added);
    proof {
        assert(lines@.map_values(|l: DebugLine| debug_line_view(l)) =~= start + state_lines(*manager));
    }
}

} // verus!
