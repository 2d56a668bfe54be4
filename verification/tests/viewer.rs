use fractal_viewport::navigation::PickPoint;
use fractal_viewport::rational::{Rat, COORD_BOUND};
use fractal_viewport::router::{normalize_cursor, InputEvent, InputRouter};
use fractal_viewport::store::ViewportStore;
use fractal_viewport::rect::{ComplexRect, PlanePoint};
use fractal_viewport::viewer::FractalViewer;

fn rat(num: i64, den: i64) -> Rat {
    Rat::new(num, den).unwrap()
}

#[test]
fn setup_publishes_initial_view_once() {
    let viewer = FractalViewer::setup();
    assert_eq!(viewer.bridge.drawable_count(), 1);
    let uniform = viewer.bridge.current_uniform();
    assert_eq!(uniform.ul_re, rat(-3, 4));
    assert_eq!(uniform.ul_im, rat(3, 4));
    assert_eq!(uniform.lr_re, rat(0, 1));
    assert_eq!(uniform.lr_im, rat(0, 1));
}

#[test]
fn missing_pointer_is_noop() {
    let mut viewer = FractalViewer::setup();
    let before = viewer.store.get();
    let navigated = viewer.mouse_navigation(true, None);
    assert!(!navigated);
    assert_eq!(viewer.store.get(), before);
    assert_eq!(viewer.bridge.drawable_count(), 1);
}

#[test]
fn mouse_click_recenters_and_zooms_in() {
    let mut viewer = FractalViewer::setup();
    let pick = PickPoint { px: rat(1, 1), py: rat(1, 1) };
    let navigated = viewer.mouse_navigation(true, Some(pick));
    assert!(navigated);
    let rect = viewer.store.get();
    assert_eq!(rect.upper_left.re, rat(-21, 64));
    assert_eq!(rect.upper_left.im, rat(21, 64));
    assert_eq!(rect.lower_right.re, rat(21, 64));
    assert_eq!(rect.lower_right.im, rat(-21, 64));
    assert_eq!(viewer.bridge.drawable_count(), 1);
    let uniform = viewer.bridge.current_uniform();
    assert_eq!(uniform.ul_re, rect.upper_left.re);
    assert_eq!(uniform.lr_im, rect.lower_right.im);
}

#[test]
fn held_button_and_key_trigger_once() {
    let mut viewer = FractalViewer::setup();
    let pick = PickPoint { px: rat(1, 2), py: rat(1, 2) };
    assert!(viewer.mouse_navigation(true, Some(pick)));
    // Still held: no second navigation.
    assert!(!viewer.mouse_navigation(true, Some(pick)));
    assert!(!viewer.mouse_navigation(false, None));
    assert!(viewer.mouse_navigation(true, Some(pick)));

    assert!(viewer.keyboard_navigation_zoom_in(true));
    assert!(!viewer.keyboard_navigation_zoom_in(true));
    assert!(!viewer.keyboard_navigation_zoom_in(false));
    assert!(viewer.keyboard_navigation_zoom_in(true));
}

#[test]
fn single_drawable_after_five_zooms() {
    let mut viewer = FractalViewer::setup();
    for _ in 0..5 {
        assert!(viewer.keyboard_navigation_zoom_in(true));
        assert!(!viewer.keyboard_navigation_zoom_in(false));
        assert_eq!(viewer.bridge.drawable_count(), 1);
        let rect = viewer.store.get();
        let uniform = viewer.bridge.current_uniform();
        assert_eq!(uniform.ul_re, rect.upper_left.re);
        assert_eq!(uniform.ul_im, rect.upper_left.im);
        assert_eq!(uniform.lr_re, rect.lower_right.re);
        assert_eq!(uniform.lr_im, rect.lower_right.im);
    }
}

#[test]
fn zoom_out_then_zoom_in_round_trip_extent() {
    let mut viewer = FractalViewer::setup();
    assert!(viewer.keyboard_navigation_zoom_out(true));
    assert!(!viewer.keyboard_navigation_zoom_out(false));
    let widened = viewer.store.get().extent().unwrap();
    assert_eq!(widened.re, rat(27, 32));
    assert!(viewer.keyboard_navigation_zoom_in(true));
    let narrowed = viewer.store.get().extent().unwrap();
    // 7/8 * 27/32 = 189/256, down from the startup extent of 3/4.
    assert_eq!(narrowed.re, rat(189, 256));
}

#[test]
fn router_updates_store_exactly_once_per_event() {
    let mut store = ViewportStore::new(ComplexRect::default());
    let mut router = InputRouter::new();
    let before = store.get();
    // A release is never a navigation.
    assert!(!router.handle_event(InputEvent::ZoomInKey { pressed: false }, &mut store));
    assert_eq!(store.get(), before);
    assert!(router.handle_event(InputEvent::ZoomInKey { pressed: true }, &mut store));
    let after = store.get();
    assert_ne!(after, before);
    // Held: the store stays where the single navigation left it.
    assert!(!router.handle_event(InputEvent::ZoomInKey { pressed: true }, &mut store));
    assert_eq!(store.get(), after);
}

#[test]
fn overflow_guard_leaves_store_unchanged() {
    // A coordinate at the edge of the representable range: the zoom would
    // need a finer denominator than fits, so the event leaves the store as
    // it was instead of corrupting it.
    let upper_left = PlanePoint { re: Rat::new(1, COORD_BOUND).unwrap(), im: rat(1, 1) };
    let lower_right = PlanePoint { re: rat(0, 1), im: rat(0, 1) };
    let rect = ComplexRect::new(upper_left, lower_right).unwrap();
    let mut store = ViewportStore::new(rect);
    let mut router = InputRouter::new();
    let navigated = router.handle_event(InputEvent::ZoomInKey { pressed: true }, &mut store);
    assert!(navigated);
    assert_eq!(store.get(), rect);
}

#[test]
fn normalize_cursor_scales_by_surface_size() {
    let pick = normalize_cursor(500, 250, 1000, 1000).unwrap();
    assert_eq!(pick.px, rat(1, 2));
    assert_eq!(pick.py, rat(1, 4));
    let corner = normalize_cursor(1000, 1000, 1000, 1000).unwrap();
    assert_eq!(corner.px, rat(1, 1));
    assert_eq!(corner.py, rat(1, 1));
    assert_eq!(normalize_cursor(1001, 0, 1000, 1000), None);
    assert_eq!(normalize_cursor(0, 0, 0, 1000), None);
}
