use camview::control::ControlController;
use camview::control::ControlInfo;
use camview::exposure::ExposureMode;
use camview::exposure::adjust_gamma;
use camview::exposure::auto_step;
use camview::exposure::toggle_fullbright;
use camview::exposure::toggle_mode;

fn control(min: i64, max: i64, default: i64, value: i64) -> ControlController {
    ControlController::new(Some(ControlInfo { min, max, value, step: 1, default }))
}

#[test]
fn toggle_mode_resets_both_controls_at_each_boundary() {
    let mut gamma = control(0, 255, 100, 180);
    let mut brightness = control(-64, 64, 0, 30);
    let mut mode = ExposureMode::Manual { fullbright: false, current: 180 };

    let w = toggle_mode(&mut mode, &mut gamma, &mut brightness);
    assert_eq!(mode, ExposureMode::Auto);
    assert_eq!(gamma.current(), 100);
    assert_eq!(brightness.current(), 0);
    assert_eq!(w.gamma, Some(100));
    assert_eq!(w.brightness, Some(0));

    // Back to manual: hardware already at defaults, so no further writes,
    // and the captured manual value is the just-reset gamma.
    let w = toggle_mode(&mut mode, &mut gamma, &mut brightness);
    assert_eq!(mode, ExposureMode::Manual { fullbright: false, current: 100 });
    assert_eq!(gamma.current(), 100);
    assert_eq!(brightness.current(), 0);
    assert_eq!(w.gamma, None);
    assert_eq!(w.brightness, None);

    // And to auto again: idempotent on hardware state.
    let w = toggle_mode(&mut mode, &mut gamma, &mut brightness);
    assert_eq!(mode, ExposureMode::Auto);
    assert_eq!(gamma.current(), 100);
    assert_eq!(brightness.current(), 0);
    assert_eq!(w.gamma, None);
    assert_eq!(w.brightness, None);
}

#[test]
fn fullbright_drives_maxima_and_restores() {
    let mut gamma = control(0, 255, 100, 120);
    let mut brightness = control(-64, 64, 0, 0);
    let mut mode = ExposureMode::Manual { fullbright: false, current: 120 };

    let w = toggle_fullbright(&mut mode, &mut gamma, &mut brightness);
    assert_eq!(mode, ExposureMode::Manual { fullbright: true, current: 120 });
    assert_eq!(gamma.current(), 255);
    assert_eq!(brightness.current(), 64);
    assert_eq!(w.gamma, Some(255));
    assert_eq!(w.brightness, Some(64));

    let w = toggle_fullbright(&mut mode, &mut gamma, &mut brightness);
    assert_eq!(mode, ExposureMode::Manual { fullbright: false, current: 120 });
    assert_eq!(gamma.current(), 120);
    assert_eq!(brightness.current(), 0);
    assert_eq!(w.gamma, Some(120));
    assert_eq!(w.brightness, Some(0));
}

#[test]
fn fullbright_does_nothing_in_auto() {
    let mut gamma = control(0, 255, 100, 100);
    let mut brightness = control(-64, 64, 0, 0);
    let mut mode = ExposureMode::Auto;
    let w = toggle_fullbright(&mut mode, &mut gamma, &mut brightness);
    assert_eq!(mode, ExposureMode::Auto);
    assert_eq!(gamma.current(), 100);
    assert_eq!(w.gamma, None);
    assert_eq!(w.brightness, None);
}

#[test]
fn adjust_gamma_steps_and_reads_back_clamped() {
    let mut gamma = control(0, 255, 100, 254);
    let mut mode = ExposureMode::Manual { fullbright: false, current: 254 };

    assert_eq!(adjust_gamma(&mut mode, &mut gamma, true), Some(255));
    assert_eq!(mode, ExposureMode::Manual { fullbright: false, current: 255 });

    // At the top of the range: the request clamps back, nothing is written,
    // and the stored manual value never drifts past the bound.
    assert_eq!(adjust_gamma(&mut mode, &mut gamma, true), None);
    assert_eq!(mode, ExposureMode::Manual { fullbright: false, current: 255 });

    assert_eq!(adjust_gamma(&mut mode, &mut gamma, false), Some(254));
    assert_eq!(mode, ExposureMode::Manual { fullbright: false, current: 254 });
}

#[test]
fn adjust_gamma_does_nothing_in_auto() {
    let mut gamma = control(0, 255, 100, 100);
    let mut mode = ExposureMode::Auto;
    assert_eq!(adjust_gamma(&mut mode, &mut gamma, true), None);
    assert_eq!(mode, ExposureMode::Auto);
    assert_eq!(gamma.current(), 100);
}

#[test]
fn auto_step_obeys_the_dead_band() {
    // Inside the band (5000..=25000 milli-L*): no change.
    for lm in [5000u64, 15000, 25000] {
        let mut gamma = control(0, 255, 100, 100);
        assert_eq!(auto_step(&mut gamma, lm), None);
        assert_eq!(gamma.current(), 100);
    }
    // Too dark: one unit up.
    let mut gamma = control(0, 255, 100, 100);
    assert_eq!(auto_step(&mut gamma, 4999), Some(101));
    assert_eq!(gamma.current(), 101);
    // Too bright: one unit down.
    let mut gamma = control(0, 255, 100, 100);
    assert_eq!(auto_step(&mut gamma, 25001), Some(99));
    assert_eq!(gamma.current(), 99);
    // Clamped at the bottom: no write once pinned.
    let mut gamma = control(0, 255, 100, 0);
    assert_eq!(auto_step(&mut gamma, 99999), None);
    assert_eq!(gamma.current(), 0);
}
