use camview::control::ControlController;
use camview::control::ControlInfo;

fn info(min: i64, max: i64, default: i64, value: i64) -> ControlInfo {
    ControlInfo { min, max, value, step: 1, default }
}

#[test]
fn set_then_current_returns_clamp() {
    let mut c = ControlController::new(Some(info(0, 100, 50, 50)));
    let w = c.set(250);
    assert_eq!(w, Some(100));
    assert_eq!(c.current(), 100);

    let mut c = ControlController::new(Some(info(0, 100, 50, 50)));
    let w = c.set(-5);
    assert_eq!(w, Some(0));
    assert_eq!(c.current(), 0);

    let mut c = ControlController::new(Some(info(0, 100, 50, 50)));
    let w = c.set(42);
    assert_eq!(w, Some(42));
    assert_eq!(c.current(), 42);
}

#[test]
fn second_set_with_clamped_value_writes_nothing() {
    let mut c = ControlController::new(Some(info(0, 100, 50, 50)));
    assert_eq!(c.set(250), Some(100));
    assert_eq!(c.set(100), None);
    assert_eq!(c.current(), 100);
    // Even a differently phrased out-of-range request that clamps to the
    // cached value is deduplicated.
    assert_eq!(c.set(999), None);
}

#[test]
fn set_same_value_writes_nothing() {
    let mut c = ControlController::new(Some(info(0, 100, 50, 50)));
    assert_eq!(c.set(50), None);
    assert_eq!(c.current(), 50);
}

#[test]
fn reset_yields_default() {
    let mut c = ControlController::new(Some(info(-10, 100, 7, 80)));
    assert_eq!(c.reset(), Some(7));
    assert_eq!(c.current(), 7);
    // A second reset changes nothing and writes nothing.
    assert_eq!(c.reset(), None);
    assert_eq!(c.current(), 7);
}

#[test]
fn set_max_yields_max() {
    let mut c = ControlController::new(Some(info(0, 100, 50, 50)));
    assert_eq!(c.set_max(), Some(100));
    assert_eq!(c.current(), 100);
    assert_eq!(c.set_max(), None);
}

#[test]
fn absent_control_degrades_to_noops() {
    let mut c = ControlController::new(None);
    assert_eq!(c.current(), 0);
    assert_eq!(c.set(55), None);
    assert_eq!(c.current(), 0);
    assert_eq!(c.reset(), None);
    assert_eq!(c.set_max(), None);
    assert_eq!(c.current(), 0);
}

#[test]
fn clamp_bounds_into_range() {
    let c = ControlController::new(Some(info(-20, 35, 0, 0)));
    assert_eq!(c.clamp(100), 35);
    assert_eq!(c.clamp(-100), -20);
    assert_eq!(c.clamp(12), 12);
    assert_eq!(c.clamp(-20), -20);
    assert_eq!(c.clamp(35), 35);
}
