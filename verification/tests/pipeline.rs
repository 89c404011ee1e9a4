use camview::control::ControlController;
use camview::control::ControlInfo;
use camview::exposure::ExposureMode;
use camview::luminance::Frame;
use camview::pipeline::KeyCommand;
use camview::pipeline::LoopState;
use camview::pipeline::mode_tag;

fn control(min: i64, max: i64, default: i64, value: i64) -> ControlController {
    ControlController::new(Some(ControlInfo { min, max, value, step: 1, default }))
}

fn gray_frame(gray: u8) -> Frame {
    Frame::new(2, 2, vec![gray; 12]).unwrap()
}

fn fresh_state(gamma_default: i64) -> LoopState {
    let gamma = control(0, 255, gamma_default, gamma_default);
    let brightness = control(-64, 64, 0, 0);
    LoopState::new(gamma, brightness, 1280, 720)
}

#[test]
fn auto_mode_converges_into_the_dead_band() {
    // The camera responds to gamma g with a uniform frame of gray level g.
    // Gray 62 reads ~26.2 L* (too bright); the band's upper edge is 25;
    // gray 59 reads ~24.9 L* (inside the band).
    let mut s = fresh_state(62);
    let a = s.handle_key(KeyCommand::ToggleMode);
    assert_eq!(s.mode, ExposureMode::Auto);
    assert_eq!(a.gamma_write, None); // already at its default
    assert_eq!(s.gamma.current(), 62);

    let mut currents = Vec::new();
    for _ in 0..10 {
        let gray = s.gamma.current() as u8;
        let (_presented, _write) = s.process_frame(gray_frame(gray));
        currents.push(s.gamma.current());
    }
    // One unit per frame, monotonically down, then steady inside the band.
    assert_eq!(currents, vec![61, 60, 59, 59, 59, 59, 59, 59, 59, 59]);
}

#[test]
fn auto_mode_raises_gamma_when_too_dark() {
    let mut s = fresh_state(16);
    s.handle_key(KeyCommand::ToggleMode);
    // Gray 16 reads ~4.7 L*, below the band's lower edge of 5.
    let (_f, w) = s.process_frame(gray_frame(16));
    assert_eq!(w, Some(17));
    assert_eq!(s.gamma.current(), 17);
    // Gray 17 reads ~5.1 L*: inside the band, so the control settles.
    let (_f, w) = s.process_frame(gray_frame(17));
    assert_eq!(w, None);
    assert_eq!(s.gamma.current(), 17);
}

#[test]
fn manual_mode_ignores_frame_lightness() {
    let mut s = fresh_state(100);
    let (_f, w) = s.process_frame(gray_frame(255));
    assert_eq!(w, None);
    assert_eq!(s.gamma.current(), 100);
}

#[test]
fn mirroring_flips_the_presented_frame() {
    let mut s = fresh_state(100);
    s.handle_key(KeyCommand::ToggleMirror);
    let frame = Frame::new(2, 1, vec![1, 2, 3, 4, 5, 6]).unwrap();
    let (presented, _w) = s.process_frame(frame);
    assert_eq!(presented.data, vec![4, 5, 6, 1, 2, 3]);

    // Toggling again restores pass-through.
    s.handle_key(KeyCommand::ToggleMirror);
    let frame = Frame::new(2, 1, vec![1, 2, 3, 4, 5, 6]).unwrap();
    let (presented, _w) = s.process_frame(frame);
    assert_eq!(presented.data, vec![1, 2, 3, 4, 5, 6]);
}

#[test]
fn title_refreshes_every_tenth_frame_and_after_keys() {
    let mut s = fresh_state(100);
    // First frame refreshes immediately.
    assert!(s.timing_step(33000, 640, 480, 640, 480).is_some());
    // The next nine frames stay quiet.
    for _ in 0..9 {
        assert!(s.timing_step(33000, 640, 480, 640, 480).is_none());
    }
    // The tenth frame after a refresh refreshes again.
    assert!(s.timing_step(33000, 640, 480, 640, 480).is_some());
    // Any key press forces the next frame to refresh.
    s.handle_key(KeyCommand::Other);
    assert!(s.timing_step(33000, 640, 480, 640, 480).is_some());
}

#[test]
fn title_info_carries_the_loop_state() {
    let mut s = fresh_state(100);
    let t = s.timing_step(40000, 640, 480, 640, 480).unwrap();
    assert_eq!(t.draw_width, 640);
    assert_eq!(t.draw_height, 480);
    assert!(t.exact_size);
    assert!(!t.mode_auto);
    assert!(!t.mode_fullbright);
    assert_eq!(t.gamma, 100);
    // One 40 ms sample against four implicit zeros.
    assert_eq!(t.average_frametime_micros, 8000);

    s.handle_key(KeyCommand::ToggleMode);
    let t = s.timing_step(40000, 640, 480, 320, 240).unwrap();
    assert!(t.mode_auto);
    assert!(!t.exact_size);
}

#[test]
fn resize_settles_at_the_fitted_size() {
    let mut s = fresh_state(100); // native 1280x720, a 16:9 target
    // No pending resize: nothing to do.
    assert_eq!(s.handle_resize(800, 500), None);

    s.note_resized();
    assert_eq!(s.handle_resize(800, 500), Some((800, 450)));
    // Still pending until the window reports the fitted size back.
    assert_eq!(s.handle_resize(800, 450), None);
    // Settled: the flag is cleared.
    assert_eq!(s.handle_resize(800, 500), None);
}

#[test]
fn reset_size_key_asks_for_native_resolution() {
    let mut s = fresh_state(100);
    let a = s.handle_key(KeyCommand::ResetSize);
    assert!(a.resize_to_native);
    assert_eq!(a.gamma_write, None);
    assert_eq!(a.brightness_write, None);
}

#[test]
fn teardown_restores_device_defaults() {
    let mut s = fresh_state(100);
    s.handle_key(KeyCommand::GammaUp);
    assert_eq!(s.gamma.current(), 101);
    let w = s.teardown();
    assert_eq!(w.gamma, Some(100));
    assert_eq!(w.brightness, None); // brightness already at its default
    assert_eq!(s.gamma.current(), 100);
    assert_eq!(s.brightness.current(), 0);
}

#[test]
fn mode_tags() {
    assert_eq!(mode_tag(&ExposureMode::Auto), "AUTO");
    assert_eq!(mode_tag(&ExposureMode::Manual { fullbright: true, current: 3 }), "FULLBRIGHT");
    assert_eq!(mode_tag(&ExposureMode::Manual { fullbright: false, current: 3 }), "");
}

#[test]
fn fullbright_key_round_trip() {
    let mut s = fresh_state(100);
    let a = s.handle_key(KeyCommand::ToggleFullbright);
    assert_eq!(s.mode, ExposureMode::Manual { fullbright: true, current: 100 });
    assert_eq!(a.gamma_write, Some(255));
    assert_eq!(a.brightness_write, Some(64));
    let a = s.handle_key(KeyCommand::ToggleFullbright);
    assert_eq!(s.mode, ExposureMode::Manual { fullbright: false, current: 100 });
    assert_eq!(a.gamma_write, Some(100));
    assert_eq!(a.brightness_write, Some(0));
}
