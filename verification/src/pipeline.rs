//! Per-iteration loop state and decisions: key commands, resize settling,
//! per-frame exposure feedback, frame timing and the periodic title refresh.
//!
//! The state machine decides; the caller performs the returned actions
//! (device writes, window resizes, the title update) against the hardware.

use vstd::prelude::*;

use crate::averager::Averager;
use crate::averager::seq_sum;
use crate::averager::window_of;
use crate::control::ControlController;
use crate::exposure::ControlWrites;
use crate::exposure::ExposureMode;
use crate::exposure::adjust_gamma;
use crate::exposure::auto_step;
use crate::exposure::spec_adjust_gamma;
use crate::exposure::spec_auto_step;
use crate::exposure::spec_toggle_fullbright;
use crate::exposure::spec_toggle_mode;
use crate::exposure::toggle_fullbright;
use crate::exposure::toggle_mode;
use crate::geometry::AspectRatio;
use crate::geometry::set_closest_aspect;
use crate::geometry::spec_fitted_size;
use crate::luminance::Frame;
use crate::luminance::frame_lightness_milli;
use crate::luminance::is_mirror_of;
use crate::luminance::lightness_milli;
use crate::luminance::mirror_horizontal;

verus! {

/// A user key press, already mapped from the window system's key codes.
#[derive(Clone, Copy, PartialEq, Eq, Structural, Debug)]
pub enum KeyCommand {
    /// Snap the window back to the camera's native resolution.
    ResetSize,
    /// Toggle horizontal mirroring.
    ToggleMirror,
    /// Toggle manual/automatic exposure.
    ToggleMode,
    /// Toggle full-bright (manual mode only).
    ToggleFullbright,
    /// Step gamma up one raw unit (manual mode only).
    GammaUp,
    /// Step gamma down one raw unit (manual mode only).
    GammaDown,
    /// Any other key: only the title refresh timer reacts.
    Other,
}

/// What the caller owes the outside world after a key press.
#[derive(Clone, Copy, Debug)]
pub struct KeyActions {
    pub resize_to_native: bool,
    pub gamma_write: Option<i64>,
    pub brightness_write: Option<i64>,
}

/// Everything shown in the periodic window title, as plain values; the
/// caller formats them.
#[derive(Clone, Copy, Debug)]
pub struct TitleInfo {
    pub draw_width: u32,
    pub draw_height: u32,
    /// Mean of the last five frame intervals, in microseconds.
    pub average_frametime_micros: u64,
    pub mode_auto: bool,
    pub mode_fullbright: bool,
    pub gamma: i64,
    /// Decoded frame dimensions exactly equal the drawable's.
    pub exact_size: bool,
}

/// How many frames pass between title refreshes.
pub const TITLE_REFRESH_FRAMES: i32 = 10;

/// The mutable state one loop iteration reads and writes.
pub struct LoopState {
    pub mode: ExposureMode,
    pub gamma: ControlController,
    pub brightness: ControlController,
    pub mirrored: bool,
    pub resize_pending: bool,
    pub title_delay: i32,
    pub averager: Averager<5>,
    pub native_width: u32,
    pub native_height: u32,
}

impl LoopState {
    pub open spec fn wf(self) -> bool {
        &&& self.gamma.wf()
        &&& self.brightness.wf()
        &&& self.averager.wf()
        &&& self.native_width >= 1
        &&& self.native_height >= 1
        &&& 0 <= self.title_delay <= TITLE_REFRESH_FRAMES
    }

    /// The target aspect ratio: the camera's native resolution.
    pub open spec fn spec_aspect(self) -> AspectRatio {
        AspectRatio { width: self.native_width, height: self.native_height }
    }

    /// Initial state: manual exposure at the control's startup value, no
    /// mirroring, no pending resize, and an immediate first title refresh.
    pub fn new(
        gamma: ControlController,
        brightness: ControlController,
        native_width: u32,
        native_height: u32,
    ) -> (s: LoopState)
        requires
            gamma.wf(),
            brightness.wf(),
            native_width >= 1,
            native_height >= 1,
        ensures
            s.wf(),
            s.mode == (ExposureMode::Manual { fullbright: false, current: gamma.spec_current() }),
            s.gamma == gamma,
            s.brightness == brightness,
            !s.mirrored,
            !s.resize_pending,
            s.title_delay == 0,
            s.averager.history() == Seq::<u64>::empty(),
            s.native_width == native_width,
            s.native_height == native_height,
    {
        let current = gamma.current();
        LoopState {
            mode: ExposureMode::Manual { fullbright: false, current },
            gamma,
            brightness,
            mirrored: false,
            resize_pending: false,
            title_delay: 0,
            averager: Averager::<5>::new(),
            native_width,
            native_height,
        }
    }

    /// A size-changed window event arrived: remember that the geometry must
    /// settle.
    pub fn note_resized(&mut self)
        ensures
            *final(self) == (LoopState { resize_pending: true, ..*old(self) }),
    {
        self.resize_pending = true;
    }

    /// Reacts to one key press. Every key press also forces the next title
    /// refresh.
    pub fn handle_key(&mut self, cmd: KeyCommand) -> (a: KeyActions)
        requires
            old(self).wf(),
        ensures
            final(self).wf(),
            (*final(self), a) == spec_handle_key(*old(self), cmd),
    {
        let a = match cmd {
            KeyCommand::ResetSize => KeyActions {
                resize_to_native: true,
                gamma_write: None,
                brightness_write: None,
            },
            KeyCommand::ToggleMirror => {
                self.mirrored = !self.mirrored;
                KeyActions { resize_to_native: false, gamma_write: None, brightness_write: None }
            },
            KeyCommand::ToggleMode => {
                let w = toggle_mode(&mut self.mode, &mut self.gamma, &mut self.brightness);
                KeyActions {
                    resize_to_native: false,
                    gamma_write: w.gamma,
                    brightness_write: w.brightness,
                }
            },
            KeyCommand::ToggleFullbright => {
                let w = toggle_fullbright(&mut self.mode, &mut self.gamma, &mut self.brightness);
                KeyActions {
                    resize_to_native: false,
                    gamma_write: w.gamma,
                    brightness_write: w.brightness,
                }
            },
            KeyCommand::GammaUp => {
                let w = adjust_gamma(&mut self.mode, &mut self.gamma, true);
                KeyActions { resize_to_native: false, gamma_write: w, brightness_write: None }
            },
            KeyCommand::GammaDown => {
                let w = adjust_gamma(&mut self.mode, &mut self.gamma, false);
                KeyActions { resize_to_native: false, gamma_write: w, brightness_write: None }
            },
            KeyCommand::Other => KeyActions {
                resize_to_native: false,
                gamma_write: None,
                brightness_write: None,
            },
        };
        self.title_delay = 0;
        a
    }

    /// Settles a pending resize: computes the nearest same-aspect size for
    /// the current window size. `Some` asks the caller to resize; `None`
    /// means the window already fits and the pending flag is cleared.
    pub fn handle_resize(&mut self, window_width: u32, window_height: u32) -> (r: Option<
        (u32, u32),
    >)
        requires
            old(self).wf(),
        ensures
            final(self).wf(),
            !old(self).resize_pending ==> *final(self) == *old(self) && r is None,
            old(self).resize_pending ==> ({
                let (fw, fh) = spec_fitted_size(
                    window_width,
                    window_height,
                    old(self).spec_aspect(),
                );
                if fw == window_width && fh == window_height {
                    r is None && *final(self) == (LoopState {
                        resize_pending: false,
                        ..*old(self)
                    })
                } else {
                    r == Some((fw as u32, fh as u32)) && *final(self) == *old(self)
                }
            }),
    {
        if !self.resize_pending {
            return None;
        }
        let aspect = AspectRatio { width: self.native_width, height: self.native_height };
        let r = set_closest_aspect(window_width, window_height, aspect);
        if r.is_none() {
            self.resize_pending = false;
        }
        r
    }

    /// Processes one decoded frame: mirrors it when mirroring is on, and in
    /// automatic mode runs one exposure feedback step on the (possibly
    /// mirrored) frame's perceptual lightness. Returns the frame to present
    /// and the gamma write owed to the device.
    pub fn process_frame(&mut self, frame: Frame) -> (out: (Frame, Option<i64>))
        requires
            old(self).wf(),
            frame.wf(),
            frame.width >= 1,
            frame.height >= 1,
        ensures
            final(self).wf(),
            *final(self) == (LoopState { gamma: final(self).gamma, ..*old(self) }),
            out.0.wf() && out.0.width == frame.width && out.0.height == frame.height,
            old(self).mirrored ==> is_mirror_of(out.0, frame),
            !old(self).mirrored ==> out.0 == frame,
            old(self).mode is Auto ==> (final(self).gamma, out.1) == spec_auto_step(
                old(self).gamma,
                frame_lightness_milli(out.0) as u64,
            ),
            !(old(self).mode is Auto) ==> final(self).gamma == old(self).gamma && out.1 is None,
    {
        let presented = if self.mirrored {
            mirror_horizontal(&frame)
        } else {
            frame
        };
        let write = if matches!(self.mode, ExposureMode::Auto) {
            let lm = lightness_milli(&presented);
            auto_step(&mut self.gamma, lm)
        } else {
            None
        };
        (presented, write)
    }

    /// Updates frame timing with the latest frame interval and counts down
    /// to the periodic title refresh: every tenth frame, or the first frame
    /// after a key press, yields the values for a fresh title.
    pub fn timing_step(
        &mut self,
        frametime_micros: u64,
        draw_width: u32,
        draw_height: u32,
        frame_width: u32,
        frame_height: u32,
    ) -> (r: Option<TitleInfo>)
        requires
            old(self).wf(),
        ensures
            final(self).wf(),
            final(self).averager.history() == old(self).averager.history().push(
                frametime_micros,
            ),
            *final(self) == (LoopState {
                averager: final(self).averager,
                title_delay: final(self).title_delay,
                ..*old(self)
            }),
            r is Some <==> old(self).title_delay == 0,
            old(self).title_delay == 0 ==> final(self).title_delay == TITLE_REFRESH_FRAMES - 1,
            old(self).title_delay > 0 ==> final(self).title_delay == old(self).title_delay - 1,
            r matches Some(t) ==> {
                &&& t.draw_width == draw_width
                &&& t.draw_height == draw_height
                &&& t.average_frametime_micros == seq_sum(
                    window_of(final(self).averager.history(), 5),
                ) / 5
                &&& t.mode_auto == (old(self).mode is Auto)
                &&& t.mode_fullbright == (old(self).mode matches ExposureMode::Manual {
                    fullbright: true,
                    ..
                })
                &&& t.gamma == old(self).gamma.spec_current()
                &&& t.exact_size == (frame_width == draw_width && frame_height == draw_height)
            },
    {
        let average = self.averager.add(frametime_micros);
        if self.title_delay == 0 {
            // One refresh now, then nine quiet frames: every tenth frame.
            self.title_delay = TITLE_REFRESH_FRAMES - 1;
            let exact = crate::geometry::is_same_size(
                frame_width,
                frame_height,
                draw_width,
                draw_height,
            );
            let (mode_auto, mode_fullbright) = match self.mode {
                ExposureMode::Auto => (true, false),
                ExposureMode::Manual { fullbright, .. } => (false, fullbright),
            };
            Some(
                TitleInfo {
                    draw_width,
                    draw_height,
                    average_frametime_micros: average,
                    mode_auto,
                    mode_fullbright,
                    gamma: self.gamma.current(),
                    exact_size: exact,
                },
            )
        } else {
            self.title_delay = self.title_delay - 1;
            None
        }
    }

    /// Deterministic teardown on quit: both controls go back to their device
    /// defaults; the caller performs the returned writes before exiting.
    pub fn teardown(&mut self) -> (w: ControlWrites)
        requires
            old(self).wf(),
        ensures
            final(self).wf(),
            (final(self).gamma, w.gamma) == old(self).gamma.spec_reset(),
            (final(self).brightness, w.brightness) == old(self).brightness.spec_reset(),
            old(self).gamma.is_present() ==> final(self).gamma.spec_current() == old(
                self,
            ).gamma.spec_default(),
            old(self).brightness.is_present() ==> final(self).brightness.spec_current() == old(
                self,
            ).brightness.spec_default(),
    {
        let wg = self.gamma.reset();
        let wb = self.brightness.reset();
        ControlWrites { gamma: wg, brightness: wb }
    }
}

/// The tag shown in the window title for each exposure mode.
pub open spec fn spec_mode_tag(mode: ExposureMode) -> Seq<char> {
    match mode {
        ExposureMode::Auto => "AUTO"@,
        ExposureMode::Manual { fullbright: true, .. } => "FULLBRIGHT"@,
        ExposureMode::Manual { .. } => ""@,
    }
}

/// The tag shown in the window title: `AUTO`, `FULLBRIGHT`, or nothing.
pub fn mode_tag(mode: &ExposureMode) -> (r: &'static str)
    ensures
        r@ == spec_mode_tag(*mode),
{
    match mode {
        ExposureMode::Auto => "AUTO",
        ExposureMode::Manual { fullbright: true, .. } => "FULLBRIGHT",
        ExposureMode::Manual { .. } => "",
    }
}

/// The whole effect of one key press on the loop state, plus the actions the
/// caller owes the outside world.
pub open spec fn spec_handle_key(s: LoopState, cmd: KeyCommand) -> (LoopState, KeyActions) {
    let quiet = KeyActions { resize_to_native: false, gamma_write: None, brightness_write: None };
    match cmd {
        KeyCommand::ResetSize => (
            (LoopState { title_delay: 0, ..s }),
            (KeyActions { resize_to_native: true, gamma_write: None, brightness_write: None }),
        ),
        KeyCommand::ToggleMirror => ((LoopState { title_delay: 0, mirrored: !s.mirrored, ..s }), quiet),
        KeyCommand::ToggleMode => {
            let (m, g, b, w) = spec_toggle_mode(s.mode, s.gamma, s.brightness);
            (
                (LoopState { title_delay: 0, mode: m, gamma: g, brightness: b, ..s }),
                (KeyActions {
                    resize_to_native: false,
                    gamma_write: w.gamma,
                    brightness_write: w.brightness,
                }),
            )
        },
        KeyCommand::ToggleFullbright => {
            let (m, g, b, w) = spec_toggle_fullbright(s.mode, s.gamma, s.brightness);
            (
                (LoopState { title_delay: 0, mode: m, gamma: g, brightness: b, ..s }),
                (KeyActions {
                    resize_to_native: false,
                    gamma_write: w.gamma,
                    brightness_write: w.brightness,
                }),
            )
        },
        KeyCommand::GammaUp => {
            let (m, g, w) = spec_adjust_gamma(s.mode, s.gamma, true);
            (
                (LoopState { title_delay: 0, mode: m, gamma: g, ..s }),
                (KeyActions {
                    resize_to_native: false,
                    gamma_write: w,
                    brightness_write: None,
                }),
            )
        },
        KeyCommand::GammaDown => {
            let (m, g, w) = spec_adjust_gamma(s.mode, s.gamma, false);
            (
                (LoopState { title_delay: 0, mode: m, gamma: g, ..s }),
                (KeyActions {
                    resize_to_native: false,
                    gamma_write: w,
                    brightness_write: None,
                }),
            )
        },
        KeyCommand::Other => ((LoopState { title_delay: 0, ..s }), quiet),
    }
}

} // verus!
