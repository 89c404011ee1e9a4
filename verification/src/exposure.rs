//! Manual/automatic exposure state machine.
//!
//! The controller decides, per user command or per frame, how the gamma and
//! brightness controls move. It never touches the device itself: every
//! transition returns the writes now owed to the hardware and the caller
//! carries them out.

use vstd::prelude::*;

use crate::control::ControlController;

verus! {

/// Exposure mode: manual (with a full-bright flag and the gamma value the
/// user steered to) or automatic (gamma re-derived each frame from measured
/// lightness).
#[derive(Clone, Copy, PartialEq, Eq, Structural, Debug)]
pub enum ExposureMode {
    Manual { fullbright: bool, current: i64 },
    Auto,
}

/// Device writes owed after a transition: at most one per control.
#[derive(Clone, Copy, Debug)]
pub struct ControlWrites {
    pub gamma: Option<i64>,
    pub brightness: Option<i64>,
}

/// Target perceptual lightness, in thousandths of an L* unit.
pub const TARGET_LIGHTNESS_MILLI: u64 = 15000;

/// Dead-band half-width around the target, in thousandths of an L* unit.
pub const LIGHTNESS_BAND_MILLI: u64 = 10000;

/// The whole effect of a mode toggle on the two controls and the mode.
pub open spec fn spec_toggle_mode(
    mode: ExposureMode,
    gamma: ControlController,
    brightness: ControlController,
) -> (ExposureMode, ControlController, ControlController, ControlWrites) {
    let (g, wg) = gamma.spec_reset();
    let (b, wb) = brightness.spec_reset();
    let new_mode = match mode {
        ExposureMode::Manual { .. } => ExposureMode::Auto,
        ExposureMode::Auto => ExposureMode::Manual {
            fullbright: false,
            current: g.spec_current(),
        },
    };
    (new_mode, g, b, ControlWrites { gamma: wg, brightness: wb })
}

/// The whole effect of a full-bright toggle. Outside manual mode nothing
/// happens; entering full-bright drives both controls to their maxima;
/// leaving it restores the stored gamma and resets brightness.
pub open spec fn spec_toggle_fullbright(
    mode: ExposureMode,
    gamma: ControlController,
    brightness: ControlController,
) -> (ExposureMode, ControlController, ControlController, ControlWrites) {
    match mode {
        ExposureMode::Auto => (mode, gamma, brightness, ControlWrites { gamma: None, brightness: None }),
        ExposureMode::Manual { fullbright, current } => {
            if !fullbright {
                let (g, wg) = gamma.spec_set_max();
                let (b, wb) = brightness.spec_set_max();
                (
                    ExposureMode::Manual { fullbright: true, current },
                    g,
                    b,
                    ControlWrites { gamma: wg, brightness: wb },
                )
            } else {
                let (g, wg) = gamma.spec_set(current as int);
                let (b, wb) = brightness.spec_reset();
                (
                    ExposureMode::Manual { fullbright: false, current },
                    g,
                    b,
                    ControlWrites { gamma: wg, brightness: wb },
                )
            }
        }
    }
}

/// The whole effect of a manual gamma step of `+1` (up) or `-1` (down):
/// the request goes through the proxy's clamp, and the stored manual value
/// re-reads the clamped result, so it never drifts outside hardware bounds.
pub open spec fn spec_adjust_gamma(
    mode: ExposureMode,
    gamma: ControlController,
    up: bool,
) -> (ExposureMode, ControlController, Option<i64>) {
    match mode {
        ExposureMode::Auto => (mode, gamma, None),
        ExposureMode::Manual { fullbright, current } => {
            let requested = if up { current + 1 } else { current - 1 };
            let (g, w) = gamma.spec_set(requested);
            (
                ExposureMode::Manual { fullbright, current: g.spec_current() },
                g,
                w,
            )
        }
    }
}

/// The whole effect of one automatic feedback step: outside the dead-band,
/// nudge gamma by exactly one raw unit toward the target (down when too
/// bright, up when too dark); inside it, leave the control alone.
pub open spec fn spec_auto_step(
    gamma: ControlController,
    lightness_milli: u64,
) -> (ControlController, Option<i64>) {
    if (lightness_milli as int) < TARGET_LIGHTNESS_MILLI - LIGHTNESS_BAND_MILLI {
        gamma.spec_set(gamma.spec_current() + 1)
    } else if (lightness_milli as int) > TARGET_LIGHTNESS_MILLI + LIGHTNESS_BAND_MILLI {
        gamma.spec_set(gamma.spec_current() - 1)
    } else {
        (gamma, None)
    }
}

/// Toggles `Manual` to `Auto` and back. Both controls are first reset to
/// their device defaults; entering manual captures the just-reset gamma
/// value as the stored manual value.
pub fn toggle_mode(
    mode: &mut ExposureMode,
    gamma: &mut ControlController,
    brightness: &mut ControlController,
) -> (w: ControlWrites)
    requires
        old(gamma).wf(),
        old(brightness).wf(),
    ensures
        final(gamma).wf(),
        final(brightness).wf(),
        (*final(mode), *final(gamma), *final(brightness), w)
            == spec_toggle_mode(*old(mode), *old(gamma), *old(brightness)),
        old(gamma).is_present() ==> final(gamma).spec_current() == old(gamma).spec_default(),
        old(brightness).is_present()
            ==> final(brightness).spec_current() == old(brightness).spec_default(),
{
    let wg = gamma.reset();
    let wb = brightness.reset();
    *mode = match *mode {
        ExposureMode::Manual { .. } => ExposureMode::Auto,
        ExposureMode::Auto => ExposureMode::Manual { fullbright: false, current: gamma.current() },
    };
    ControlWrites { gamma: wg, brightness: wb }
}

/// Flips the full-bright flag; meaningful only in manual mode.
pub fn toggle_fullbright(
    mode: &mut ExposureMode,
    gamma: &mut ControlController,
    brightness: &mut ControlController,
) -> (w: ControlWrites)
    requires
        old(gamma).wf(),
        old(brightness).wf(),
    ensures
        final(gamma).wf(),
        final(brightness).wf(),
        (*final(mode), *final(gamma), *final(brightness), w)
            == spec_toggle_fullbright(*old(mode), *old(gamma), *old(brightness)),
{
    match *mode {
        ExposureMode::Auto => ControlWrites { gamma: None, brightness: None },
        ExposureMode::Manual { fullbright, current } => {
            if !fullbright {
                let wg = gamma.set_max();
                let wb = brightness.set_max();
                *mode = ExposureMode::Manual { fullbright: true, current };
                ControlWrites { gamma: wg, brightness: wb }
            } else {
                let wg = gamma.set(current);
                let wb = brightness.reset();
                *mode = ExposureMode::Manual { fullbright: false, current };
                ControlWrites { gamma: wg, brightness: wb }
            }
        }
    }
}

/// Steps gamma up or down by one raw unit in manual mode; the stored manual
/// value re-reads the clamped result from the proxy.
pub fn adjust_gamma(
    mode: &mut ExposureMode,
    gamma: &mut ControlController,
    up: bool,
) -> (w: Option<i64>)
    requires
        old(gamma).wf(),
    ensures
        final(gamma).wf(),
        (*final(mode), *final(gamma), w) == spec_adjust_gamma(*old(mode), *old(gamma), up),
{
    match *mode {
        ExposureMode::Auto => None,
        ExposureMode::Manual { fullbright, current } => {
            let requested = if up {
                if current == i64::MAX { current } else { current + 1 }
            } else {
                if current == i64::MIN { current } else { current - 1 }
            };
            let w = gamma.set(requested);
            proof {
                let wanted: int = if up { current + 1 } else { current - 1 };
                assert(old(gamma).spec_set(requested as int) == old(gamma).spec_set(wanted));
            }
            *mode = ExposureMode::Manual { fullbright, current: gamma.current() };
            w
        }
    }
}

/// One automatic feedback step from a measured perceptual lightness, in
/// thousandths of an L* unit.
pub fn auto_step(gamma: &mut ControlController, lightness_milli: u64) -> (w: Option<i64>)
    requires
        old(gamma).wf(),
    ensures
        final(gamma).wf(),
        (*final(gamma), w) == spec_auto_step(*old(gamma), lightness_milli),
{
    if lightness_milli < TARGET_LIGHTNESS_MILLI - LIGHTNESS_BAND_MILLI {
        let cur = gamma.current();
        let requested = if cur == i64::MAX { cur } else { cur + 1 };
        let w = gamma.set(requested);
        proof {
            assert(old(gamma).spec_set(requested as int)
                == old(gamma).spec_set(old(gamma).spec_current() + 1));
        }
        w
    } else if lightness_milli > TARGET_LIGHTNESS_MILLI + LIGHTNESS_BAND_MILLI {
        let cur = gamma.current();
        let requested = if cur == i64::MIN { cur } else { cur - 1 };
        let w = gamma.set(requested);
        proof {
            assert(old(gamma).spec_set(requested as int)
                == old(gamma).spec_set(old(gamma).spec_current() - 1));
        }
        w
    } else {
        None
    }
}

/// Law: the automatic step is bang-bang with a dead-band. Inside the band
/// (boundaries count as inside) nothing changes and no write is owed; below
/// it a present gamma control moves to the clamp of one unit up; above it,
/// one unit down — never more than one unit per frame. An absent control
/// makes the whole step a no-op.
pub proof fn lemma_auto_step_band(gamma: ControlController, lightness_milli: u64)
    requires
        gamma.wf(),
    ensures
        ({
            let (g, w) = spec_auto_step(gamma, lightness_milli);
            &&& (TARGET_LIGHTNESS_MILLI - LIGHTNESS_BAND_MILLI <= lightness_milli
                <= TARGET_LIGHTNESS_MILLI + LIGHTNESS_BAND_MILLI ==> g == gamma && w is None)
            &&& (!gamma.is_present() ==> g == gamma && w is None)
            &&& (gamma.is_present() && (lightness_milli as int) < TARGET_LIGHTNESS_MILLI
                - LIGHTNESS_BAND_MILLI ==> g.spec_current() == gamma.spec_clamp(
                gamma.spec_current() + 1,
            ))
            &&& (gamma.is_present() && (lightness_milli as int) > TARGET_LIGHTNESS_MILLI
                + LIGHTNESS_BAND_MILLI ==> g.spec_current() == gamma.spec_clamp(
                gamma.spec_current() - 1,
            ))
            &&& (gamma.spec_current() - 1 <= g.spec_current() <= gamma.spec_current() + 1)
            &&& g.info == gamma.info
        }),
{
}

/// The control state after `k` automatic feedback steps against one static
/// scene of fixed measured lightness.
pub open spec fn spec_auto_steps(
    gamma: ControlController,
    lightness_milli: u64,
    k: nat,
) -> ControlController
    decreases k,
{
    if k == 0 {
        gamma
    } else {
        spec_auto_step(spec_auto_steps(gamma, lightness_milli, (k - 1) as nat), lightness_milli).0
    }
}

/// Law: over any number of frames of one static scene, the feedback moves a
/// present gamma control exactly one unit per frame, monotonically, in the
/// one direction that corrects the scene — down when it reads above the
/// dead-band, up when below — until it pins at the range bound; a scene that
/// reads inside the band never changes the control, and an absent control is
/// never touched.
pub proof fn lemma_auto_steps_static_scene(
    gamma: ControlController,
    lightness_milli: u64,
    k: nat,
)
    requires
        gamma.wf(),
    ensures
        ({
            let g = spec_auto_steps(gamma, lightness_milli, k);
            &&& g.wf()
            &&& g.info == gamma.info
            &&& (TARGET_LIGHTNESS_MILLI - LIGHTNESS_BAND_MILLI <= lightness_milli
                <= TARGET_LIGHTNESS_MILLI + LIGHTNESS_BAND_MILLI ==> g == gamma)
            &&& (!gamma.is_present() ==> g == gamma)
            &&& (gamma.is_present() && (lightness_milli as int) > TARGET_LIGHTNESS_MILLI
                + LIGHTNESS_BAND_MILLI ==> g.spec_current() == if gamma.spec_current() - k
                >= gamma.spec_min() {
                (gamma.spec_current() - k) as i64
            } else {
                gamma.spec_min()
            })
            &&& (gamma.is_present() && (lightness_milli as int) < TARGET_LIGHTNESS_MILLI
                - LIGHTNESS_BAND_MILLI ==> g.spec_current() == if gamma.spec_current() + k
                <= gamma.spec_max() {
                (gamma.spec_current() + k) as i64
            } else {
                gamma.spec_max()
            })
        }),
    decreases k,
{
    if k > 0 {
        lemma_auto_steps_static_scene(gamma, lightness_milli, (k - 1) as nat);
        lemma_auto_step_band(
            spec_auto_steps(gamma, lightness_milli, (k - 1) as nat),
            lightness_milli,
        );
    }
}

/// Law: toggling the mode twice (manual to auto and back, or the reverse)
/// is idempotent on hardware state: both controls sit at their device
/// defaults at each toggle boundary, and the second toggle's control state
/// equals the first's.
pub proof fn lemma_toggle_idempotent_on_hardware(
    mode: ExposureMode,
    gamma: ControlController,
    brightness: ControlController,
)
    requires
        gamma.wf(),
        brightness.wf(),
    ensures
        ({
            let (m1, g1, b1, w1) = spec_toggle_mode(mode, gamma, brightness);
            let (m2, g2, b2, w2) = spec_toggle_mode(m1, g1, b1);
            &&& g2 == g1
            &&& b2 == b1
            &&& w2.gamma is None
            &&& w2.brightness is None
            &&& (gamma.is_present() ==> g1.spec_current() == gamma.spec_default()
                && g2.spec_current() == gamma.spec_default())
            &&& (brightness.is_present() ==> b1.spec_current() == brightness.spec_default()
                && b2.spec_current() == brightness.spec_default())
        }),
{
}

} // verus!
