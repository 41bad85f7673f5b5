use jc_grid_manager::geometry::Rect;
use jc_grid_manager::platform::{platform, Platform, StubPlatform, WindowIdentity};

#[test]
fn stub_platform_controls_no_window() {
    let p: StubPlatform = platform();
    assert_eq!(p.focused_window(), Err("window control is only implemented on macOS so far".to_string()));
    assert_eq!(p.frame(&()), Rect::zero());
    assert_eq!(p.work_area(&()), Rect::zero());
    assert!(p.displays().is_empty());
    assert!(p.set_frame(&(), Rect::new(0, 0, 10, 10)).is_err());
    let id: WindowIdentity = p.identity(&());
    assert_eq!(id.key(), None);
}

#[test]
fn is_ignored_matches_the_key_exactly() {
    let id = WindowIdentity { bundle_id: Some("com.a.B".to_string()), name: Some("B".to_string()) };
    assert!(id.is_ignored(&["x".to_string(), "com.a.B".to_string()]));
    assert!(!id.is_ignored(&["com.a.b".to_string()]));
    assert!(!id.is_ignored(&[]));
}
