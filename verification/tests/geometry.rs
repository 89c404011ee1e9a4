use camview::geometry::AspectRatio;
use camview::geometry::is_same_size;
use camview::geometry::set_closest_aspect;

fn sixteen_nine() -> AspectRatio {
    AspectRatio { width: 16, height: 9 }
}

#[test]
fn exact_aspect_reports_no_change() {
    assert_eq!(set_closest_aspect(800, 450, sixteen_nine()), None);
}

#[test]
fn taller_window_shrinks_height() {
    assert_eq!(set_closest_aspect(800, 500, sixteen_nine()), Some((800, 450)));
}

#[test]
fn wider_window_shrinks_width() {
    assert_eq!(set_closest_aspect(900, 450, sixteen_nine()), Some((800, 450)));
}

#[test]
fn native_resolution_aspect_fits_itself() {
    // The target aspect is the camera's exact native ratio, not a rounding.
    let native = AspectRatio { width: 1280, height: 720 };
    assert_eq!(set_closest_aspect(1280, 720, native), None);
    assert_eq!(set_closest_aspect(1280, 721, native), Some((1280, 720)));
}

#[test]
fn same_size_iff_dimensions_match() {
    assert!(is_same_size(640, 480, 640, 480));
    assert!(!is_same_size(640, 480, 640, 481));
    assert!(!is_same_size(640, 480, 639, 480));
    assert!(!is_same_size(641, 481, 640, 480));
}
